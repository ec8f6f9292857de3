//! An adapter that reads from a `Source` and converts the samples to a
//! different representation.
//!
//! It implements `Source` as well: every sample of the inner stream is
//! projected through its exact normalized value into the target
//! representation, and all the stream metadata passes through unchanged.

use vstd::prelude::*;
use core::marker::PhantomData;
use crate::source::Source;
use crate::sample::{Sample, Norm};

verus! {

/// Wraps an inner source and republishes its samples as `D` values. It
/// holds no state beyond the inner source and a marker for the target
/// representation.
pub struct SamplesConverter<I, D> {
    pub inner: I,
    pub dest: PhantomData<D>,
}

/// What the conversion makes of one inner sample: its exact normalized
/// value, quantized into the target representation.
pub open spec fn converted<S: Sample, D: Sample>(s: S) -> D {
    D::of_fixed(s.as_fixed())
}

impl<I, D> SamplesConverter<I, D> {
    /// Wraps the inner source. The adapter carries no behavior until
    /// pulled.
    pub fn new(input: I) -> (r: SamplesConverter<I, D>)
        ensures
            r.inner == input,
    {
        SamplesConverter { inner: input, dest: PhantomData }
    }

    /// Returns a reference to the inner source.
    pub fn inner(&self) -> (r: &I)
        ensures
            *r == self.inner,
    {
        &self.inner
    }

    /// Returns a mutable reference to the inner source.
    pub fn inner_mut(&mut self) -> (r: &mut I)
        ensures
            *r == old(self).inner,
            *final(self) == (SamplesConverter { inner: *final(r), dest: old(self).dest }),
    {
        &mut self.inner
    }

    /// Returns the inner source.
    pub fn into_inner(self) -> (r: I)
        ensures
            r == self.inner,
    {
        self.inner
    }
}

impl<I, D> Source for SamplesConverter<I, D> where
    I: Source,
    I::Item: Sample,
    D: Sample,
 {
    type Item = D;

    open spec fn wf(&self) -> bool {
        &&& self.inner.wf()
        &&& forall|j: int|
            0 <= j < self.inner.items().len() ==> (#[trigger] self.inner.items()[j]).valid()
    }

    open spec fn items(&self) -> Seq<D> {
        Seq::new(self.inner.items().len(), |i: int| converted(self.inner.items()[i]))
    }

    open spec fn spec_channels(&self) -> u16 {
        self.inner.spec_channels()
    }

    open spec fn spec_sample_rate(&self) -> u32 {
        self.inner.spec_sample_rate()
    }

    open spec fn spec_frame_len(&self) -> Option<usize> {
        self.inner.spec_frame_len()
    }

    open spec fn spec_duration_ms(&self) -> Option<u64> {
        self.inner.spec_duration_ms()
    }

    open spec fn spec_format_label(&self) -> Seq<char> {
        self.inner.spec_format_label()
    }

    fn channels(&self) -> (r: u16) {
        self.inner.channels()
    }

    fn sample_rate(&self) -> (r: u32) {
        self.inner.sample_rate()
    }

    fn current_frame_len(&self) -> (r: Option<usize>) {
        self.inner.current_frame_len()
    }

    fn total_duration(&self) -> (r: Option<u64>) {
        self.inner.total_duration()
    }

    fn sample_format_str(&self) -> (r: &'static str) {
        self.inner.sample_format_str()
    }

    /// Forwards one pull to the inner stream and, if it yields a sample,
    /// applies the total conversion into the target representation.
    fn next(&mut self) -> (r: Option<D>) {
        match self.inner.next() {
            None => {
                proof {
                    assert(self.items() =~= old(self).items());
                }
                None
            },
            Some(s) => {
                proof {
                    assert(old(self).inner.items()[0].valid());
                    assert forall|j: int| 0 <= j < self.inner.items().len() implies (
                    #[trigger] self.inner.items()[j]).valid() by {
                        assert(self.inner.items()[j] == old(self).inner.items()[j + 1]);
                    };
                }
                let n: Norm = s.to_norm();
                let d: D = D::from_norm(n);
                proof {
                    assert(d == old(self).items()[0]);
                    assert(self.items() =~= old(self).items().skip(1));
                }
                Some(d)
            },
        }
    }

    fn size_hint(&self) -> (r: (usize, Option<usize>)) {
        self.inner.size_hint()
    }
}

/// Metadata passthrough law: wrapping any source in a converter leaves
/// every metadata property — channel count, sample rate, frame length,
/// total duration and encoding label — exactly that of the inner source.
pub proof fn lemma_metadata_passthrough<I, D>(c: SamplesConverter<I, D>) where
    I: Source,
    I::Item: Sample,
    D: Sample,

    ensures
        c.spec_channels() == c.inner.spec_channels(),
        c.spec_sample_rate() == c.inner.spec_sample_rate(),
        c.spec_frame_len() == c.inner.spec_frame_len(),
        c.spec_duration_ms() == c.inner.spec_duration_ms(),
        c.spec_format_label() == c.inner.spec_format_label(),
{
}

/// Pull-conversion law: the converter's stream is, sample for sample, the
/// inner stream with each value quantized into the target representation.
pub proof fn lemma_converted_stream<I, D>(c: SamplesConverter<I, D>, i: int) where
    I: Source,
    I::Item: Sample,
    D: Sample,

    requires
        0 <= i < c.inner.items().len(),
    ensures
        c.items().len() == c.inner.items().len(),
        c.items()[i] == converted::<I::Item, D>(c.inner.items()[i]),
{
}

} // verus!
