//! The data that a segmentation works on: media files, segments, and the
//! request that an upload turns into.

use vstd::prelude::*;

verus! {

/// A scratch media file: a byte sequence with the format it is written in.
#[derive(Clone, Debug, PartialEq, Eq)]
pub struct MediaFile {
    /// The format token, such as a file extension.
    pub format: String,
    /// What the file holds.
    pub content: Vec<u8>,
}

/// A media file as a mathematical value.
pub struct MediaFileView {
    pub format: Seq<char>,
    pub content: Seq<u8>,
}

impl View for MediaFile {
    type V = MediaFileView;

    open spec fn view(&self) -> MediaFileView {
        MediaFileView { format: self.format@, content: self.content@ }
    }
}

impl DeepView for MediaFile {
    type V = MediaFileView;

    open spec fn deep_view(&self) -> MediaFileView {
        self@
    }
}

/// One time-bounded, re-encoded chunk of the source, with its measured length.
#[derive(Clone, Debug, PartialEq, Eq)]
pub struct Segment {
    /// Position in playback order, counted from zero.
    pub index: u64,
    /// The chunk itself.
    pub file: MediaFile,
    /// The length that the prober measured, in milliseconds.
    pub duration_ms: u64,
}

/// A segment as a mathematical value.
pub struct SegmentView {
    pub index: nat,
    pub file: MediaFileView,
    pub duration_ms: nat,
}

impl View for Segment {
    type V = SegmentView;

    open spec fn view(&self) -> SegmentView {
        SegmentView {
            index: self.index as nat,
            file: self.file@,
            duration_ms: self.duration_ms as nat,
        }
    }
}

impl DeepView for Segment {
    type V = SegmentView;

    open spec fn deep_view(&self) -> SegmentView {
        self@
    }
}

/// The summed length of `segments`, in milliseconds.
pub open spec fn total_duration(segments: Seq<SegmentView>) -> nat
    decreases segments.len(),
{
    if segments.len() == 0 {
        0
    } else {
        total_duration(segments.drop_last()) + segments.last().duration_ms
    }
}

/// Whether each segment's index is its position: `0, 1, 2, ...` without a gap.
pub open spec fn indexed_in_order(segments: Seq<SegmentView>) -> bool {
    forall|i: int| 0 <= i < segments.len() ==> (#[trigger] segments[i]).index == i
}

/// Appending a segment adds its length to the total.
pub proof fn lemma_total_duration_push(segments: Seq<SegmentView>, last: SegmentView)
    ensures
        total_duration(segments.push(last)) == total_duration(segments) + last.duration_ms,
{
    assert(segments.push(last).drop_last() =~= segments);
}

} // verus!
