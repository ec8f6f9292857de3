//! The capability every stream-like stage exposes: pull-based sample
//! production plus immutable stream metadata.
//!
//! A source models itself as the sequence of samples it has still to yield
//! (`items`) together with its metadata. Pulling either hands out the head
//! of that sequence or signals exhaustion, and never changes the metadata,
//! so adapters can be chained and reasoned about uniformly.

use vstd::prelude::*;

verus! {

/// A pull-based stream of samples with immutable metadata.
pub trait Source: Sized {
    /// The sample representation this source yields.
    type Item;

    /// The source is in a usable state.
    spec fn wf(&self) -> bool;

    /// The samples still to be yielded, in order.
    spec fn items(&self) -> Seq<Self::Item>;

    /// The number of interleaved channels.
    spec fn spec_channels(&self) -> u16;

    /// The sample rate in Hz.
    spec fn spec_sample_rate(&self) -> u32;

    /// The current contiguous frame length, when one is known.
    spec fn spec_frame_len(&self) -> Option<usize>;

    /// The total duration in milliseconds, when it is computable.
    spec fn spec_duration_ms(&self) -> Option<u64>;

    /// The label naming the stream's sample encoding.
    spec fn spec_format_label(&self) -> Seq<char>;

    /// The number of interleaved channels.
    fn channels(&self) -> (r: u16)
        requires
            self.wf(),
        ensures
            r == self.spec_channels(),
    ;

    /// The sample rate in Hz.
    fn sample_rate(&self) -> (r: u32)
        requires
            self.wf(),
        ensures
            r == self.spec_sample_rate(),
    ;

    /// How many samples may still be pulled before the channel count or
    /// rate could change, when that is known.
    fn current_frame_len(&self) -> (r: Option<usize>)
        requires
            self.wf(),
        ensures
            r == self.spec_frame_len(),
    ;

    /// The total duration of the stream in milliseconds, when computable.
    fn total_duration(&self) -> (r: Option<u64>)
        requires
            self.wf(),
        ensures
            r == self.spec_duration_ms(),
    ;

    /// A human-readable label for the sample encoding.
    fn sample_format_str(&self) -> (r: &'static str)
        requires
            self.wf(),
        ensures
            r@ == self.spec_format_label(),
    ;

    /// Pulls the next sample: the head of `items`, or nothing once the
    /// source is exhausted. Metadata never changes across a pull.
    fn next(&mut self) -> (r: Option<Self::Item>)
        requires
            old(self).wf(),
        ensures
            final(self).wf(),
            final(self).spec_channels() == old(self).spec_channels(),
            final(self).spec_sample_rate() == old(self).spec_sample_rate(),
            final(self).spec_frame_len() == old(self).spec_frame_len(),
            final(self).spec_duration_ms() == old(self).spec_duration_ms(),
            final(self).spec_format_label() == old(self).spec_format_label(),
            old(self).items().len() == 0 ==> r is None && final(self).items()
                == old(self).items(),
            old(self).items().len() > 0 ==> r == Some(old(self).items()[0])
                && final(self).items() == old(self).items().skip(1),
    ;

    /// An exact count of the samples still to come: both bounds equal the
    /// length of `items`.
    fn size_hint(&self) -> (r: (usize, Option<usize>))
        requires
            self.wf(),
        ensures
            r.0 == self.items().len(),
            r.1 == Some(r.0),
    ;
}

} // verus!
