//! The arithmetic that a convolution engine runs on.
//!
//! An engine moves samples through buffers and transforms; what a sample is,
//! how two of them are added and how a block is transformed is left to an
//! implementation of [`Arithmetic`]. The contracts of the engines say which
//! operation is applied to which values, in terms of what each operation
//! promises of its own result. An engine asks nothing of the operations:
//! whatever they return, it works on the places that are there.

use vstd::prelude::*;

verus! {

/// Samples, spectral values, and the operations on them that block
/// convolution needs.
pub trait Arithmetic {
    /// A value of the signal in the time domain.
    type Sample: Copy;

    /// A value of a transformed block.
    type Bin: Copy;

    /// The sample of silence.
    fn zero(&self) -> Self::Sample;

    /// The spectral value that stands for `sample` before a transform.
    fn lift(&self, sample: Self::Sample) -> Self::Bin;

    /// The forward transform of `buffer`, which is meant to have as many
    /// values as `buffer` has.
    fn forward(&self, buffer: Vec<Self::Bin>) -> Vec<Self::Bin>;

    /// The inverse transform of `buffer`, not yet normalized, which is meant
    /// to have as many values as `buffer` has.
    fn inverse(&self, buffer: Vec<Self::Bin>) -> Vec<Self::Bin>;

    /// The product of two spectral values.
    fn multiply(&self, a: Self::Bin, b: Self::Bin) -> Self::Bin;

    /// The sample that `bin` stands for after an inverse transform of `len`
    /// values.
    fn normalize(&self, bin: Self::Bin, len: usize) -> Self::Sample;

    /// The sum of two samples.
    fn add(&self, a: Self::Sample, b: Self::Sample) -> Self::Sample;
}

/// `sample` is a value that `zero` may return.
pub open spec fn is_zero<K: Arithmetic>(kernel: &K, sample: K::Sample) -> bool {
    call_ensures(K::zero, (kernel,), sample)
}

/// `bin` is a value that `lift` may return for `sample`.
pub open spec fn lifts<K: Arithmetic>(kernel: &K, sample: K::Sample, bin: K::Bin) -> bool {
    call_ensures(K::lift, (kernel, sample), bin)
}

/// `bin` is a value that `lift` may return for a sample of silence.
pub open spec fn is_zero_bin<K: Arithmetic>(kernel: &K, bin: K::Bin) -> bool {
    exists|sample: K::Sample| #[trigger] is_zero(kernel, sample) && lifts(kernel, sample, bin)
}

/// `output` is a block that `forward` may return for `input`.
pub open spec fn transforms<K: Arithmetic>(
    kernel: &K,
    input: Vec<K::Bin>,
    output: Vec<K::Bin>,
) -> bool {
    call_ensures(K::forward, (kernel, input), output)
}

/// `output` is a block that `inverse` may return for `input`.
pub open spec fn transforms_back<K: Arithmetic>(
    kernel: &K,
    input: Vec<K::Bin>,
    output: Vec<K::Bin>,
) -> bool {
    call_ensures(K::inverse, (kernel, input), output)
}

/// `product` is a value that `multiply` may return for `a` and `b`.
pub open spec fn multiplies<K: Arithmetic>(kernel: &K, a: K::Bin, b: K::Bin, product: K::Bin) -> bool {
    call_ensures(K::multiply, (kernel, a, b), product)
}

/// `sum` is a value that `add` may return for `a` and `b`.
pub open spec fn adds<K: Arithmetic>(kernel: &K, a: K::Sample, b: K::Sample, sum: K::Sample) -> bool {
    call_ensures(K::add, (kernel, a, b), sum)
}

/// `sum` is what `add` may return for `acc` and a sample that `normalize` may
/// return for `bin` and `len`.
pub open spec fn accumulates<K: Arithmetic>(
    kernel: &K,
    acc: K::Sample,
    bin: K::Bin,
    len: usize,
    sum: K::Sample,
) -> bool {
    exists|sample: K::Sample| #[trigger]
        call_ensures(K::normalize, (kernel, bin, len), sample) && adds(kernel, acc, sample, sum)
}

/// Every sample of `samples` is a sample of silence.
pub open spec fn all_zero<K: Arithmetic>(kernel: &K, samples: Seq<K::Sample>) -> bool {
    forall|i: int| 0 <= i < samples.len() ==> is_zero(kernel, #[trigger] samples[i])
}

/// `bins` holds, place by place, what `lift` may return for the samples of
/// `samples`.
pub open spec fn lifted<K: Arithmetic>(kernel: &K, samples: Seq<K::Sample>, bins: Seq<K::Bin>) -> bool {
    &&& bins.len() == samples.len()
    &&& forall|i: int| 0 <= i < samples.len() ==> lifts(kernel, samples[i], #[trigger] bins[i])
}

/// `block` is `head` followed by lifted silence up to the length `len`.
pub open spec fn zero_padded<K: Arithmetic>(
    kernel: &K,
    head: Seq<K::Bin>,
    len: nat,
    block: Seq<K::Bin>,
) -> bool {
    &&& head.len() <= len
    &&& block.len() == len
    &&& block.subrange(0, head.len() as int) == head
    &&& forall|i: int| head.len() <= i < len ==> is_zero_bin(kernel, #[trigger] block[i])
}

/// `products` is `a` with the values of `b` multiplied in, place by place.
/// Only the places that both hold take part; the others keep what `a` has.
pub open spec fn multiplied<K: Arithmetic>(
    kernel: &K,
    a: Seq<K::Bin>,
    b: Seq<K::Bin>,
    products: Seq<K::Bin>,
) -> bool {
    &&& products.len() == a.len()
    &&& forall|i: int|
        0 <= i < a.len() ==> if i < b.len() {
            multiplies(kernel, a[i], b[i], #[trigger] products[i])
        } else {
            products[i] == a[i]
        }
}

/// `sums` is `acc` with the values of `bins` added in, place by place, each
/// normalized for a transform of `len` values. Only the first `len` places
/// that both hold take part; the others keep what `acc` has.
pub open spec fn accumulated<K: Arithmetic>(
    kernel: &K,
    acc: Seq<K::Sample>,
    bins: Seq<K::Bin>,
    len: usize,
    sums: Seq<K::Sample>,
) -> bool {
    &&& sums.len() == acc.len()
    &&& forall|i: int|
        0 <= i < acc.len() ==> if i < bins.len() && i < len {
            accumulates(kernel, acc[i], bins[i], len, #[trigger] sums[i])
        } else {
            sums[i] == acc[i]
        }
}

} // verus!
