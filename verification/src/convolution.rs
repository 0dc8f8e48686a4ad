//! Streaming convolution of one channel with a fixed impulse response, by
//! overlap-add over blocks that are multiplied in the transformed domain.

use crate::arithmetic::{
    accumulated, accumulates, all_zero, is_zero, is_zero_bin, lifted, lifts, multiplied, multiplies,
    transforms, transforms_back, zero_padded, Arithmetic,
};
use crate::dtype::{
    cloned_items, deque_get_mut, deque_into_vec, pushed_back, ChunkedBuffer, RingBuffer,
};
use crate::padding::{
    checked_padded_window_size, padded_window_size, sizes_fit, spec_padded_window_size,
};
use vstd::prelude::*;

verus! {

/// Lifts every sample of `samples`.
fn lift_all<K: Arithmetic>(kernel: &K, samples: &Vec<K::Sample>) -> (bins: Vec<K::Bin>)
    ensures
        lifted(kernel, samples@, bins@),
{
    let mut bins: Vec<K::Bin> = Vec::with_capacity(samples.len());
    let mut i: usize = 0;
    while i < samples.len()
        invariant
            i <= samples.len(),
            bins.len() == i,
            forall|j: int| 0 <= j < i ==> lifts(kernel, samples@[j], #[trigger] bins@[j]),
        decreases samples.len() - i,
    {
        bins.push(kernel.lift(samples[i]));
        i += 1;
    }
    bins
}

/// Appends lifted silence to `head` until it holds `len` values.
fn zero_pad<K: Arithmetic>(kernel: &K, head: Vec<K::Bin>, len: usize) -> (block: Vec<K::Bin>)
    requires
        head.len() <= len,
    ensures
        zero_padded(kernel, head@, len as nat, block@),
{
    let mut block = head;
    while block.len() < len
        invariant
            head.len() <= block.len() <= len,
            block@.subrange(0, head.len() as int) =~= head@,
            forall|i: int| head.len() <= i < block.len() ==> is_zero_bin(kernel, #[trigger] block@[i]),
        decreases len - block.len(),
    {
        let silence = kernel.zero();
        let bin = kernel.lift(silence);
        assert(is_zero(kernel, silence) && lifts(kernel, silence, bin));
        block.push(bin);
    }
    block
}

/// Multiplies the values of `spectrum` by those of `response`, place by
/// place, as far as both reach.
fn multiply_spectra<K: Arithmetic>(
    kernel: &K,
    spectrum: Vec<K::Bin>,
    response: &Vec<K::Bin>,
) -> (products: Vec<K::Bin>)
    ensures
        multiplied(kernel, spectrum@, response@, products@),
{
    let mut products = spectrum;
    let mut i: usize = 0;
    while i < products.len() && i < response.len()
        invariant
            i <= products.len(),
            i <= response.len(),
            products.len() == spectrum.len(),
            forall|j: int|
                0 <= j < i ==> multiplies(kernel, spectrum@[j], response@[j], #[trigger] products@[j]),
            forall|j: int| i <= j < products.len() ==> products@[j] == spectrum@[j],
        decreases products.len() - i,
    {
        let product = kernel.multiply(products[i], response[i]);
        products.set(i, product);
        i += 1;
    }
    products
}

/// Adds the values of `bins`, each normalized for a transform of `len`
/// values, into the samples that `out` holds, oldest first.
fn overlap_add<K: Arithmetic>(
    kernel: &K,
    out: &mut RingBuffer<K::Sample>,
    bins: &Vec<K::Bin>,
    len: usize,
)
    requires
        old(out).wf(),
    ensures
        final(out).wf(),
        final(out).spec_capacity() == old(out).spec_capacity(),
        accumulated(kernel, old(out)@, bins@, len, final(out)@),
{
    let mut i: usize = 0;
    while i < len && i < bins.len() && i < out.len()
        invariant
            out.wf(),
            out.spec_capacity() == old(out).spec_capacity(),
            out@.len() == old(out)@.len(),
            i <= len && i <= bins.len() && i <= out@.len(),
            forall|j: int|
                0 <= j < i ==> accumulates(kernel, old(out)@[j], bins@[j], len, #[trigger] out@[j]),
            forall|j: int| i <= j < out@.len() ==> out@[j] == old(out)@[j],
        decreases len - i,
    {
        let contribution = kernel.normalize(bins[i], len);
        if let Some(slot) = deque_get_mut(out.inner_mut(), i) {
            let sum = kernel.add(*slot, contribution);
            *slot = sum;
        }
        i += 1;
    }
}

/// Pushes silence at the back of `out`, once for each place it has, so that
/// it ends up full of silence whatever it held.
fn silence<K: Arithmetic>(kernel: &K, out: &mut RingBuffer<K::Sample>)
    requires
        old(out).wf(),
    ensures
        final(out).wf(),
        final(out).spec_capacity() == old(out).spec_capacity(),
        final(out)@.len() == old(out).spec_capacity(),
        all_zero(kernel, final(out)@),
{
    let mut pushed: usize = 0;
    while pushed < out.capacity()
        invariant
            out.wf(),
            out.spec_capacity() == old(out).spec_capacity(),
            pushed <= out.spec_capacity(),
            out@.len() >= pushed,
            out@.len() == out.spec_capacity() || out@.len() == old(out)@.len() + pushed,
            forall|i: int| out@.len() - pushed <= i < out@.len() ==> is_zero(kernel, #[trigger] out@[i]),
        decreases out.spec_capacity() - pushed,
    {
        out.push_back(kernel.zero());
        pushed += 1;
    }
    proof {
        out.lemma_within_capacity();
    }
}

/// The values that pass through the processing of one block: the staged
/// values `staged` are handed out as the clone `head`, padded to `block`,
/// transformed to `spectrum`, multiplied by `response` into `products`,
/// transformed back to `back`, and added into `acc`, which gives `sums`.
pub open spec fn block_dataflow<K: Arithmetic>(
    kernel: &K,
    response: Vec<K::Bin>,
    staged: Seq<K::Bin>,
    acc: Seq<K::Sample>,
    sums: Seq<K::Sample>,
    head: Seq<K::Bin>,
    block: Vec<K::Bin>,
    spectrum: Vec<K::Bin>,
    products: Vec<K::Bin>,
    back: Vec<K::Bin>,
) -> bool {
    &&& cloned_items(staged, head)
    &&& zero_padded(kernel, head, acc.len(), block@)
    &&& transforms(kernel, block, spectrum)
    &&& multiplied(kernel, spectrum@, response@, products@)
    &&& transforms_back(kernel, products, back)
    &&& accumulated(kernel, acc, back@, acc.len() as usize, sums)
}

/// `sums` is what the output accumulator `acc` may hold once the block
/// `staged` has been convolved with the response whose spectrum is
/// `response` and overlap-added into it.
pub open spec fn block_convolved<K: Arithmetic>(
    kernel: &K,
    response: Vec<K::Bin>,
    staged: Seq<K::Bin>,
    acc: Seq<K::Sample>,
    sums: Seq<K::Sample>,
) -> bool {
    exists|
        head: Seq<K::Bin>,
        block: Vec<K::Bin>,
        spectrum: Vec<K::Bin>,
        products: Vec<K::Bin>,
        back: Vec<K::Bin>,
    | #[trigger]
        block_dataflow(kernel, response, staged, acc, sums, head, block, spectrum, products, back)
}

/// `spectrum` is what may be cached for the impulse response `ir`: the
/// transform of its lifted taps, padded with lifted silence to `len` values.
pub open spec fn response_cached<K: Arithmetic>(
    kernel: &K,
    ir: Seq<K::Sample>,
    len: nat,
    spectrum: Vec<K::Bin>,
) -> bool {
    exists|taps: Seq<K::Bin>, block: Vec<K::Bin>| #[trigger]
        zero_padded(kernel, taps, len, block@) && lifted(kernel, ir, taps) && transforms(
            kernel,
            block,
            spectrum,
        )
}

/// A filter of one channel: one sample in, one sample out.
pub trait Filter {
    /// A value of the signal.
    type Sample;

    /// The filter is in a state in which it can run.
    spec fn filter_wf(&self) -> bool;

    /// Forgets the signal seen so far.
    fn clear(&mut self)
        requires
            old(self).filter_wf(),
        ensures
            final(self).filter_wf(),
    ;

    /// Takes the next sample of the input and returns the next sample of
    /// the output.
    fn compute(&mut self, signal: Self::Sample) -> (output: Self::Sample)
        requires
            old(self).filter_wf(),
        ensures
            final(self).filter_wf(),
    ;
}

/// Streaming convolution of one channel with a fixed impulse response.
///
/// Samples are staged until a block of `window_size` of them is complete.
/// The block is then padded, transformed, multiplied by the cached spectrum
/// of the impulse response, transformed back and added into the output
/// accumulator, from which each call takes the oldest sample.
pub struct FFTConvolution<K: Arithmetic> {
    x: RingBuffer<K::Bin>,
    out: RingBuffer<K::Sample>,
    window_size: usize,
    ir: Vec<K::Sample>,
    ir_fft_cache: Vec<K::Bin>,
    kernel: K,
}

impl<K: Arithmetic> FFTConvolution<K> {
    /// The lifted samples staged for the next block, oldest first.
    pub closed spec fn pending(&self) -> Seq<K::Bin> {
        self.x@
    }

    /// The output accumulator: the samples still to be returned, the next
    /// one first, as far as the blocks processed so far determine them.
    pub closed spec fn output(&self) -> Seq<K::Sample> {
        self.out@
    }

    /// The taps of the impulse response.
    pub closed spec fn impulse_response(&self) -> Seq<K::Sample> {
        self.ir@
    }

    /// The cached spectrum of the padded impulse response.
    pub closed spec fn response_spectrum(&self) -> Vec<K::Bin> {
        self.ir_fft_cache
    }

    /// The number of samples in a block.
    pub closed spec fn spec_window_size(&self) -> nat {
        self.window_size as nat
    }

    /// The arithmetic that the engine was built on.
    pub closed spec fn arithmetic(&self) -> K {
        self.kernel
    }

    /// The length of a padded block, which is also the length of the output
    /// accumulator.
    pub open spec fn padded_len(&self) -> nat {
        spec_padded_window_size(self.impulse_response().len(), self.spec_window_size())
    }

    /// The two buffers are well formed and have the capacities that the
    /// sizes ask for.
    pub closed spec fn buffers_wf(&self) -> bool {
        &&& self.x.wf()
        &&& self.x.spec_capacity() == self.window_size
        &&& self.out.wf()
        &&& self.out.spec_capacity() == self.padded_len()
    }

    /// The engine's invariant: the sizes fit, between calls no full block is
    /// staged, and the output accumulator has the padded length.
    pub open spec fn wf(&self) -> bool {
        &&& self.buffers_wf()
        &&& sizes_fit(self.impulse_response().len(), self.spec_window_size())
        &&& self.pending().len() <= self.spec_window_size()
        &&& self.spec_window_size() > 0 ==> self.pending().len() < self.spec_window_size()
        &&& self.output().len() == self.padded_len()
    }

    /// Nothing is staged and the output accumulator holds silence only: the
    /// state of an engine that has seen no signal.
    pub open spec fn is_fresh(&self) -> bool {
        &&& self.pending() == Seq::<K::Bin>::empty()
        &&& all_zero(&self.arithmetic(), self.output())
    }

    /// The impulse response, the block size, the cached spectrum and the
    /// arithmetic of `self` and `other` are the same.
    pub open spec fn same_setup(&self, other: &Self) -> bool {
        &&& self.impulse_response() == other.impulse_response()
        &&& self.spec_window_size() == other.spec_window_size()
        &&& self.response_spectrum() == other.response_spectrum()
        &&& self.arithmetic() == other.arithmetic()
    }

    /// One call of `compute` may take the engine from `self` to `next`,
    /// returning `output` for `signal`: the oldest sample of the output
    /// accumulator is returned and silence takes the place at its end; the
    /// lifted `signal` is staged; and if that completes a block, the block
    /// is convolved into the accumulator and the staging starts over.
    pub open spec fn computes(&self, signal: K::Sample, next: &Self, output: K::Sample) -> bool {
        &&& next.same_setup(self)
        &&& output == self.output().first()
        &&& exists|silence: K::Sample, bin: K::Bin| #[trigger]
            self.computes_with(next, silence, bin) && is_zero(&self.arithmetic(), silence) && lifts(
                &self.arithmetic(),
                signal,
                bin,
            )
    }

    /// The step of `computes`, given the sample of silence and the lifted
    /// input that it works with.
    pub open spec fn computes_with(&self, next: &Self, silence: K::Sample, bin: K::Bin) -> bool {
        let slid = self.output().drop_first().push(silence);
        let staged = pushed_back(self.pending(), self.spec_window_size(), bin);
        if staged.len() == self.spec_window_size() {
            &&& next.pending() == Seq::<K::Bin>::empty()
            &&& block_convolved(
                &self.arithmetic(),
                self.response_spectrum(),
                staged,
                slid,
                next.output(),
            )
        } else {
            &&& next.pending() == staged
            &&& next.output() == slid
        }
    }

    /// A run of an engine: each state but the last is well formed and goes
    /// to the next by one call of `compute`, which takes the sample of
    /// `signals` and returns the sample of `outputs` at that place.
    pub open spec fn runs(
        states: Seq<Self>,
        signals: Seq<K::Sample>,
        outputs: Seq<K::Sample>,
    ) -> bool {
        &&& states.len() == signals.len() + 1
        &&& outputs.len() == signals.len()
        &&& forall|i: int|
            0 <= i < signals.len() ==> (#[trigger] states[i]).wf() && states[i].computes(
                signals[i],
                &states[i + 1],
                outputs[i],
            )
    }

    proof fn lemma_silent_prefix(
        states: Seq<Self>,
        signals: Seq<K::Sample>,
        outputs: Seq<K::Sample>,
        n: nat,
    )
        requires
            Self::runs(states, signals, outputs),
            states[0].is_fresh(),
            n <= signals.len(),
            n <= states[0].spec_window_size(),
        ensures
            forall|i: int| 0 <= i < n ==> is_zero(&states[0].arithmetic(), #[trigger] outputs[i]),
            states[n as int].same_setup(&states[0]),
            n < states[0].spec_window_size() ==> states[n as int].pending().len() == n && all_zero(
                &states[0].arithmetic(),
                states[n as int].output(),
            ),
        decreases n,
    {
        if n > 0 {
            Self::lemma_silent_prefix(states, signals, outputs, (n - 1) as nat);
            let last = states[n - 1];
            let next = states[n as int];
            let kernel = states[0].arithmetic();
            assert(last.wf() && last.computes(signals[n - 1], &next, outputs[n - 1]));
            crate::padding::lemma_next_power_of_two_is_least(
                (last.impulse_response().len() + last.spec_window_size() - 1) as nat,
            );
            assert(is_zero(&kernel, last.output()[0]));
            let (silence, bin) = choose|silence: K::Sample, bin: K::Bin| #[trigger]
                last.computes_with(&next, silence, bin) && is_zero(&kernel, silence) && lifts(
                    &kernel,
                    signals[n - 1],
                    bin,
                );
            assert(pushed_back(last.pending(), last.spec_window_size(), bin) =~= last.pending().push(
                bin,
            ));
        }
    }

    /// The latency of one block: an engine that has seen no signal returns
    /// silence for as many calls as a block has samples, whatever the
    /// input.
    pub proof fn lemma_silence_before_first_block(
        states: Seq<Self>,
        signals: Seq<K::Sample>,
        outputs: Seq<K::Sample>,
    )
        requires
            Self::runs(states, signals, outputs),
            states[0].is_fresh(),
            signals.len() <= states[0].spec_window_size(),
        ensures
            all_zero(&states[0].arithmetic(), outputs),
    {
        Self::lemma_silent_prefix(states, signals, outputs, signals.len());
    }

    /// An engine for the impulse response `ir` that works on blocks of
    /// `window_size` samples. It has seen no signal, and caches the spectrum
    /// of the padded impulse response.
    pub fn new(ir: Vec<K::Sample>, window_size: usize, kernel: K) -> (engine: FFTConvolution<K>)
        requires
            sizes_fit(ir@.len(), window_size as nat),
        ensures
            engine.wf(),
            engine.is_fresh(),
            engine.impulse_response() == ir@,
            engine.spec_window_size() == window_size,
            engine.arithmetic() == kernel,
            response_cached(&kernel, ir@, engine.padded_len(), engine.response_spectrum()),
    {
        let padded_window_size = padded_window_size(ir.len(), window_size);
        let taps = lift_all(&kernel, &ir);
        let block = zero_pad(&kernel, taps, padded_window_size);
        let ir_fft_cache = kernel.forward(block);
        let mut out = RingBuffer::new(padded_window_size);
        silence(&kernel, &mut out);
        FFTConvolution { x: RingBuffer::new(window_size), out, window_size, ir, ir_fft_cache, kernel }
    }

    /// As `new`, for any sizes: `None` for those for which no engine can be
    /// built, which are the ones that do not fit.
    pub fn try_new(ir: Vec<K::Sample>, window_size: usize, kernel: K) -> (built: Option<
        FFTConvolution<K>,
    >)
        ensures
            built is Some <==> sizes_fit(ir@.len(), window_size as nat),
            built matches Some(engine) ==> {
                &&& engine.wf()
                &&& engine.is_fresh()
                &&& engine.impulse_response() == ir@
                &&& engine.spec_window_size() == window_size
                &&& engine.arithmetic() == kernel
                &&& response_cached(
                    &kernel,
                    ir@,
                    engine.padded_len(),
                    engine.response_spectrum(),
                )
            },
    {
        match checked_padded_window_size(ir.len(), window_size) {
            Some(_) => Some(Self::new(ir, window_size, kernel)),
            None => None,
        }
    }

    /// The arithmetic that the engine was built on.
    pub fn kernel(&self) -> (kernel: &K)
        ensures
            *kernel == self.arithmetic(),
    {
        &self.kernel
    }

    /// The number of samples in a block.
    pub fn window_size(&self) -> (n: usize)
        ensures
            n == self.spec_window_size(),
    {
        self.window_size
    }

    /// The output accumulator.
    pub fn output_buffer(&self) -> (buffer: &RingBuffer<K::Sample>)
        ensures
            buffer@ == self.output(),
            self.wf() ==> buffer.wf() && buffer.spec_capacity() == self.padded_len(),
    {
        &self.out
    }

    /// The length of the output accumulator, which is the padded length of
    /// a block.
    pub fn internal_buffer_size(&self) -> (n: usize)
        requires
            self.wf(),
        ensures
            n == self.padded_len(),
    {
        self.out.len()
    }
}

impl<K: Arithmetic> Filter for FFTConvolution<K> {
    type Sample = K::Sample;

    open spec fn filter_wf(&self) -> bool {
        self.wf()
    }

    /// Drops what is staged and fills the output accumulator with silence:
    /// the engine is as it was when it was built.
    fn clear(&mut self)
        ensures
            final(self).same_setup(old(self)),
            final(self).is_fresh(),
    {
        self.x.clear();
        silence(&self.kernel, &mut self.out);
    }

    /// Returns the oldest sample of the output accumulator and stages
    /// `signal`; a block that this completes is convolved into the
    /// accumulator.
    fn compute(&mut self, signal: K::Sample) -> (output: K::Sample)
        ensures
            old(self).computes(signal, final(self), output),
    {
        proof {
            crate::padding::lemma_next_power_of_two_is_least(
                (self.ir@.len() + self.window_size - 1) as nat,
            );
        }
        let buffered_signal = self.out.pop_front().unwrap();
        let silence = self.kernel.zero();
        self.out.push_back(silence);
        let bin = self.kernel.lift(signal);
        let ghost slid = self.out@;
        let ghost staged = pushed_back(old(self).x@, self.window_size as nat, bin);
        assert(slid =~= old(self).out@.drop_first().push(silence));
        if let Some(chunk) = self.x.buffer_back(bin) {
            let window_size = chunk.len();
            let padded_window_size = padded_window_size(self.ir.len(), window_size);
            let head = deque_into_vec(chunk);
            let block = zero_pad(&self.kernel, head, padded_window_size);
            let ghost padded_block = block;
            let spectrum = self.kernel.forward(block);
            let ghost transformed = spectrum;
            let products = multiply_spectra(&self.kernel, spectrum, &self.ir_fft_cache);
            let ghost multiplied_block = products;
            let buffer = self.kernel.inverse(products);
            overlap_add(&self.kernel, &mut self.out, &buffer, padded_window_size);
            assert(block_dataflow(
                &self.kernel,
                self.ir_fft_cache,
                staged,
                slid,
                self.out@,
                head@,
                padded_block,
                transformed,
                multiplied_block,
                buffer,
            ));
        }
        assert(old(self).computes_with(&*self, silence, bin));
        buffered_signal
    }
}

} // verus!
