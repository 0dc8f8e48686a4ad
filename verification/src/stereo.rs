//! Two channels: a pair of independent engines, and four engines that
//! form a full two-by-two matrix of impulse responses.

use crate::arithmetic::{adds, Arithmetic};
use crate::convolution::{FFTConvolution, Filter};
use crate::padding::sizes_fit;
use vstd::prelude::*;

verus! {

/// A filter of two channels: one pair of samples in, one pair out.
pub trait StereoFilter {
    /// A value of the signal of one channel.
    type Sample;

    /// The filter is in a state in which it can run.
    spec fn stereo_wf(&self) -> bool;

    /// Forgets the signal seen so far.
    fn clear(&mut self)
        requires
            old(self).stereo_wf(),
        ensures
            final(self).stereo_wf(),
    ;

    /// Takes the next samples of the left and the right input and returns
    /// the next samples of the left and the right output.
    fn compute(&mut self, signal: (Self::Sample, Self::Sample)) -> (output: (
        Self::Sample,
        Self::Sample,
    ))
        requires
            old(self).stereo_wf(),
        ensures
            final(self).stereo_wf(),
    ;
}

/// Four engines that convolve each input channel into each output channel:
/// left to left, right to right, left to right and right to left.
pub struct TrueStereoFFTConvolution<K: Arithmetic> {
    ll: FFTConvolution<K>,
    rr: FFTConvolution<K>,
    lr: FFTConvolution<K>,
    rl: FFTConvolution<K>,
}

impl<K: Arithmetic> TrueStereoFFTConvolution<K> {
    /// The engine from the left input to the left output.
    pub closed spec fn left_to_left(&self) -> FFTConvolution<K> {
        self.ll
    }

    /// The engine from the right input to the right output.
    pub closed spec fn right_to_right(&self) -> FFTConvolution<K> {
        self.rr
    }

    /// The engine from the left input to the right output.
    pub closed spec fn left_to_right(&self) -> FFTConvolution<K> {
        self.lr
    }

    /// The engine from the right input to the left output.
    pub closed spec fn right_to_left(&self) -> FFTConvolution<K> {
        self.rl
    }

    /// Each of the four engines is well formed.
    pub open spec fn wf(&self) -> bool {
        &&& self.left_to_left().wf()
        &&& self.right_to_right().wf()
        &&& self.left_to_right().wf()
        &&& self.right_to_left().wf()
    }

    /// Four engines on blocks of `window_size` samples, one for each impulse
    /// response, each on its own arithmetic. None has seen any signal.
    pub fn new(
        ir_ll: Vec<K::Sample>,
        ir_rr: Vec<K::Sample>,
        ir_lr: Vec<K::Sample>,
        ir_rl: Vec<K::Sample>,
        window_size: usize,
        kernels: (K, K, K, K),
    ) -> (filter: TrueStereoFFTConvolution<K>)
        requires
            sizes_fit(ir_ll@.len(), window_size as nat),
            sizes_fit(ir_rr@.len(), window_size as nat),
            sizes_fit(ir_lr@.len(), window_size as nat),
            sizes_fit(ir_rl@.len(), window_size as nat),
        ensures
            filter.wf(),
            filter.left_to_left().is_fresh(),
            filter.right_to_right().is_fresh(),
            filter.left_to_right().is_fresh(),
            filter.right_to_left().is_fresh(),
            filter.left_to_left().impulse_response() == ir_ll@,
            filter.right_to_right().impulse_response() == ir_rr@,
            filter.left_to_right().impulse_response() == ir_lr@,
            filter.right_to_left().impulse_response() == ir_rl@,
            filter.left_to_left().spec_window_size() == window_size,
            filter.right_to_right().spec_window_size() == window_size,
            filter.left_to_right().spec_window_size() == window_size,
            filter.right_to_left().spec_window_size() == window_size,
            filter.left_to_left().arithmetic() == kernels.0,
            filter.right_to_right().arithmetic() == kernels.1,
            filter.left_to_right().arithmetic() == kernels.2,
            filter.right_to_left().arithmetic() == kernels.3,
    {
        TrueStereoFFTConvolution {
            ll: FFTConvolution::new(ir_ll, window_size, kernels.0),
            rr: FFTConvolution::new(ir_rr, window_size, kernels.1),
            lr: FFTConvolution::new(ir_lr, window_size, kernels.2),
            rl: FFTConvolution::new(ir_rl, window_size, kernels.3),
        }
    }

    /// The number of samples in a block, as the left-to-left engine has it.
    pub fn window_size(&self) -> (n: usize)
        ensures
            n == self.left_to_left().spec_window_size(),
    {
        self.ll.window_size()
    }

    /// The padded length of a block, as the left-to-left engine has it.
    pub fn internal_buffer_size(&self) -> (n: usize)
        requires
            self.wf(),
        ensures
            n == self.left_to_left().padded_len(),
    {
        self.ll.internal_buffer_size()
    }
}

impl<K: Arithmetic> StereoFilter for TrueStereoFFTConvolution<K> {
    type Sample = K::Sample;

    open spec fn stereo_wf(&self) -> bool {
        self.wf()
    }

    /// Clears each of the four engines.
    fn clear(&mut self)
        ensures
            final(self).left_to_left().same_setup(&old(self).left_to_left()),
            final(self).right_to_right().same_setup(&old(self).right_to_right()),
            final(self).left_to_right().same_setup(&old(self).left_to_right()),
            final(self).right_to_left().same_setup(&old(self).right_to_left()),
            final(self).left_to_left().is_fresh(),
            final(self).right_to_right().is_fresh(),
            final(self).left_to_right().is_fresh(),
            final(self).right_to_left().is_fresh(),
    {
        self.ll.clear();
        self.rr.clear();
        self.lr.clear();
        self.rl.clear();
    }

    /// Each output channel is the sum of what its direct engine returns for
    /// its own input and what the crossing engine returns for the other
    /// input, added by the arithmetic of the direct engine; each of the four
    /// engines takes one step.
    fn compute(&mut self, signal: (K::Sample, K::Sample)) -> (output: (K::Sample, K::Sample))
        ensures
            exists|ll: K::Sample, rl: K::Sample, rr: K::Sample, lr: K::Sample|
                {
                    &&& #[trigger] old(self).left_to_left().computes(
                        signal.0,
                        &final(self).left_to_left(),
                        ll,
                    )
                    &&& #[trigger] old(self).right_to_left().computes(
                        signal.1,
                        &final(self).right_to_left(),
                        rl,
                    )
                    &&& #[trigger] old(self).right_to_right().computes(
                        signal.1,
                        &final(self).right_to_right(),
                        rr,
                    )
                    &&& #[trigger] old(self).left_to_right().computes(
                        signal.0,
                        &final(self).left_to_right(),
                        lr,
                    )
                    &&& adds(&old(self).left_to_left().arithmetic(), ll, rl, output.0)
                    &&& adds(&old(self).right_to_right().arithmetic(), rr, lr, output.1)
                },
    {
        let ll = self.ll.compute(signal.0);
        let rl = self.rl.compute(signal.1);
        let left = self.ll.kernel().add(ll, rl);
        let rr = self.rr.compute(signal.1);
        let lr = self.lr.compute(signal.0);
        let right = self.rr.kernel().add(rr, lr);
        (left, right)
    }
}

/// Two independent engines, one for each channel.
pub struct StereoFFTConvolution<K: Arithmetic> {
    ll: FFTConvolution<K>,
    rr: FFTConvolution<K>,
}

impl<K: Arithmetic> StereoFFTConvolution<K> {
    /// The engine of the left channel.
    pub closed spec fn left(&self) -> FFTConvolution<K> {
        self.ll
    }

    /// The engine of the right channel.
    pub closed spec fn right(&self) -> FFTConvolution<K> {
        self.rr
    }

    /// Both engines are well formed.
    pub open spec fn wf(&self) -> bool {
        &&& self.left().wf()
        &&& self.right().wf()
    }

    /// Two engines on blocks of `window_size` samples, one for each impulse
    /// response, each on its own arithmetic. Neither has seen any signal.
    pub fn new(
        ir_left: Vec<K::Sample>,
        ir_right: Vec<K::Sample>,
        window_size: usize,
        kernels: (K, K),
    ) -> (filter: StereoFFTConvolution<K>)
        requires
            sizes_fit(ir_left@.len(), window_size as nat),
            sizes_fit(ir_right@.len(), window_size as nat),
        ensures
            filter.wf(),
            filter.left().is_fresh(),
            filter.right().is_fresh(),
            filter.left().impulse_response() == ir_left@,
            filter.right().impulse_response() == ir_right@,
            filter.left().spec_window_size() == window_size,
            filter.right().spec_window_size() == window_size,
            filter.left().arithmetic() == kernels.0,
            filter.right().arithmetic() == kernels.1,
    {
        StereoFFTConvolution {
            ll: FFTConvolution::new(ir_left, window_size, kernels.0),
            rr: FFTConvolution::new(ir_right, window_size, kernels.1),
        }
    }

    /// The number of samples in a block, as the left engine has it.
    pub fn window_size(&self) -> (n: usize)
        ensures
            n == self.left().spec_window_size(),
    {
        self.ll.window_size()
    }

    /// The padded length of a block, as the left engine has it.
    pub fn internal_buffer_size(&self) -> (n: usize)
        requires
            self.wf(),
        ensures
            n == self.left().padded_len(),
    {
        self.ll.internal_buffer_size()
    }
}

impl<K: Arithmetic> StereoFilter for StereoFFTConvolution<K> {
    type Sample = K::Sample;

    open spec fn stereo_wf(&self) -> bool {
        self.wf()
    }

    /// Clears both engines.
    fn clear(&mut self)
        ensures
            final(self).left().same_setup(&old(self).left()),
            final(self).right().same_setup(&old(self).right()),
            final(self).left().is_fresh(),
            final(self).right().is_fresh(),
    {
        self.ll.clear();
        self.rr.clear();
    }

    /// Each channel takes one step of its own engine on its own input.
    fn compute(&mut self, signal: (K::Sample, K::Sample)) -> (output: (K::Sample, K::Sample))
        ensures
            old(self).left().computes(signal.0, &final(self).left(), output.0),
            old(self).right().computes(signal.1, &final(self).right(), output.1),
    {
        (self.ll.compute(signal.0), self.rr.compute(signal.1))
    }
}

} // verus!
