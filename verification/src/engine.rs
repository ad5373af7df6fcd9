//! The segmentation engine: the decisions of the probe and transcode loop.
//!
//! The engine runs no program itself. It says what is to be done next
//! ([`Engine::next_action`]), is told how that went ([`Engine::step`]), and
//! keeps the segments produced so far. Whoever drives it probes the source,
//! then transcodes and probes one segment after the other until the engine
//! has seen the whole length of the source.

use vstd::prelude::*;
use crate::media::{
    indexed_in_order,
    lemma_total_duration_push,
    total_duration,
    MediaFile,
    MediaFileView,
    Segment,
    SegmentView,
};
use crate::probe::ProbeError;
use crate::request::{RequestView, SegmentationRequest};
use crate::transcode::TranscodeError;

verus! {

/// Why a segmentation was given up. Nothing of it is kept.
#[derive(Clone, Copy, Debug, PartialEq, Eq, Structural)]
pub enum SegmentationError {
    /// The length of the source or of a segment could not be measured.
    ProbeFailed,
    /// The segment with this index could not be produced.
    TranscodeFailed { index: u64 },
    /// A segment of no length came out before the end of the source was reached.
    NoProgress,
}

/// What the driver reports back to the engine.
#[derive(Debug, PartialEq, Eq)]
pub enum Event {
    /// A probe ended: the measured length in milliseconds, or why there is none.
    Probed(Result<i64, ProbeError>),
    /// A transcoding run ended: the file it wrote, or why there is none.
    Transcoded(Result<MediaFile, TranscodeError>),
}

/// An event as a mathematical value.
pub enum EventView {
    Probed(Result<i64, ProbeError>),
    Transcoded(Result<MediaFileView, TranscodeError>),
}

impl View for Event {
    type V = EventView;

    open spec fn view(&self) -> EventView {
        match self {
            Event::Probed(r) => EventView::Probed(*r),
            Event::Transcoded(Ok(file)) => EventView::Transcoded(Ok(file@)),
            Event::Transcoded(Err(e)) => EventView::Transcoded(Err(*e)),
        }
    }
}

/// What the driver is to do next.
#[derive(Clone, Copy, Debug, PartialEq, Eq, Structural)]
pub enum Action {
    /// Write the source to a scratch file and probe its length.
    ProbeSource,
    /// Produce the segment `index`: transcode the source from `offset_ms`
    /// on, capped at `max_bytes` bytes where that is given.
    Transcode { index: u64, offset_ms: u64, max_bytes: Option<u64> },
    /// Probe the length of the segment `index`, which was just produced.
    ProbeSegment { index: u64 },
    /// The segments are complete: take them.
    Deliver,
    /// The segmentation failed: release everything.
    Abort { error: SegmentationError },
}

/// Where a segmentation stands, as a mathematical value.
///
/// `total` is the probed length of the source in milliseconds. The offset
/// reached so far is not kept apart: it is the summed length of `segments`.
pub enum StageView {
    /// The length of the source is not known yet.
    ProbingSource,
    /// The next segment is to be produced.
    Transcoding { total: int, segments: Seq<SegmentView> },
    /// `file` was produced and its length is not known yet.
    ProbingSegment { total: int, segments: Seq<SegmentView>, file: MediaFileView },
    /// The end of the source was reached.
    Done { total: int, segments: Seq<SegmentView> },
    /// The segmentation was given up.
    Failed { error: SegmentationError },
}

/// An engine as a mathematical value.
pub struct EngineView {
    pub request: RequestView,
    pub stage: StageView,
}

/// Whether every segment has a positive length.
pub open spec fn all_positive(segments: Seq<SegmentView>) -> bool {
    forall|i: int| 0 <= i < segments.len() ==> (#[trigger] segments[i]).duration_ms > 0
}

/// What holds of every stage that an engine can be in.
///
/// The segments are numbered `0, 1, 2, ...`, each has a positive length, and
/// while the engine works their summed length is short of the total. Once it
/// is done the sum has reached the total, and it had not before the last
/// segment was added.
pub open spec fn stage_invariant(stage: StageView) -> bool {
    match stage {
        StageView::ProbingSource => true,
        StageView::Transcoding { total, segments } => {
            &&& indexed_in_order(segments)
            &&& all_positive(segments)
            &&& total_duration(segments) < total <= i64::MAX
        },
        StageView::ProbingSegment { total, segments, file } => {
            &&& indexed_in_order(segments)
            &&& all_positive(segments)
            &&& total_duration(segments) < total <= i64::MAX
        },
        StageView::Done { total, segments } => {
            &&& indexed_in_order(segments)
            &&& all_positive(segments)
            &&& total_duration(segments) >= total
            &&& total <= i64::MAX
            &&& segments.len() > 0 ==> total_duration(segments.drop_last()) < total
        },
        StageView::Failed { error } => true,
    }
}

/// Whether a stage is final: done or failed.
pub open spec fn is_final(stage: StageView) -> bool {
    stage is Done || stage is Failed
}

/// Whether `event` is the answer that `stage` waits for.
pub open spec fn accepts(stage: StageView, event: EventView) -> bool {
    match stage {
        StageView::ProbingSource => event is Probed,
        StageView::Transcoding { .. } => event is Transcoded,
        StageView::ProbingSegment { .. } => event is Probed,
        StageView::Done { .. } => false,
        StageView::Failed { .. } => false,
    }
}

/// The stage that follows `stage` on `event`.
///
/// An event that the stage does not wait for changes nothing.
pub open spec fn spec_step(stage: StageView, event: EventView) -> StageView {
    match (stage, event) {
        (StageView::ProbingSource, EventView::Probed(Ok(total))) => {
            if total > 0 {
                StageView::Transcoding { total: total as int, segments: Seq::empty() }
            } else {
                StageView::Done { total: total as int, segments: Seq::empty() }
            }
        },
        (StageView::ProbingSource, EventView::Probed(Err(_))) => StageView::Failed {
            error: SegmentationError::ProbeFailed,
        },
        (
            StageView::Transcoding { total, segments },
            EventView::Transcoded(Ok(file)),
        ) => StageView::ProbingSegment { total, segments, file },
        (StageView::Transcoding { total, segments }, EventView::Transcoded(Err(_))) => {
            StageView::Failed {
                error: SegmentationError::TranscodeFailed { index: segments.len() as u64 },
            }
        },
        (StageView::ProbingSegment { total, segments, file }, EventView::Probed(Ok(duration))) => {
            if duration <= 0 {
                StageView::Failed { error: SegmentationError::NoProgress }
            } else {
                let longer = segments.push(
                    SegmentView { index: segments.len(), file, duration_ms: duration as nat },
                );
                if total_duration(longer) >= total {
                    StageView::Done { total, segments: longer }
                } else {
                    StageView::Transcoding { total, segments: longer }
                }
            }
        },
        (StageView::ProbingSegment { .. }, EventView::Probed(Err(_))) => StageView::Failed {
            error: SegmentationError::ProbeFailed,
        },
        _ => stage,
    }
}

/// What is to be done at `stage`, for a request with the size cap `max_bytes`.
pub open spec fn spec_action(stage: StageView, max_bytes: Option<u64>) -> Action {
    match stage {
        StageView::ProbingSource => Action::ProbeSource,
        StageView::Transcoding { total, segments } => Action::Transcode {
            index: segments.len() as u64,
            offset_ms: total_duration(segments) as u64,
            max_bytes,
        },
        StageView::ProbingSegment { total, segments, file } => Action::ProbeSegment {
            index: segments.len() as u64,
        },
        StageView::Done { .. } => Action::Deliver,
        StageView::Failed { error } => Action::Abort { error },
    }
}

/// How a segmentation ended, if it has: the segments, or the error.
pub open spec fn spec_outcome(stage: StageView) -> Option<
    Result<Seq<SegmentView>, SegmentationError>,
> {
    match stage {
        StageView::Done { total, segments } => Some(Ok(segments)),
        StageView::Failed { error } => Some(Err(error)),
        _ => None,
    }
}

/// Where a segmentation stands. `cursor` is the offset reached so far.
#[derive(Debug)]
enum Stage {
    ProbingSource,
    Transcoding { total: i64, cursor: i64, segments: Vec<Segment> },
    ProbingSegment { total: i64, cursor: i64, segments: Vec<Segment>, file: MediaFile },
    Done { total: i64, segments: Vec<Segment> },
    Failed { error: SegmentationError },
}

impl Stage {
    spec fn model(&self) -> StageView {
        match self {
            Stage::ProbingSource => StageView::ProbingSource,
            Stage::Transcoding { total, cursor, segments } => StageView::Transcoding {
                total: *total as int,
                segments: segments.deep_view(),
            },
            Stage::ProbingSegment { total, cursor, segments, file } => StageView::ProbingSegment {
                total: *total as int,
                segments: segments.deep_view(),
                file: file@,
            },
            Stage::Done { total, segments } => StageView::Done {
                total: *total as int,
                segments: segments.deep_view(),
            },
            Stage::Failed { error } => StageView::Failed { error: *error },
        }
    }

    spec fn cursor_is_sum(&self) -> bool {
        match self {
            Stage::Transcoding { total, cursor, segments } => *cursor == total_duration(
                segments.deep_view(),
            ),
            Stage::ProbingSegment { total, cursor, segments, file } => *cursor == total_duration(
                segments.deep_view(),
            ),
            _ => true,
        }
    }
}

/// The state of one segmentation.
#[derive(Debug)]
pub struct Engine {
    request: SegmentationRequest,
    stage: Stage,
}

impl View for Engine {
    type V = EngineView;

    closed spec fn view(&self) -> EngineView {
        EngineView { request: self.request@, stage: self.stage.model() }
    }
}

impl Engine {
    #[verifier::type_invariant]
    spec fn well_formed(&self) -> bool {
        stage_invariant(self.stage.model()) && self.stage.cursor_is_sum()
    }

    /// An engine for `request`, with nothing done yet.
    pub fn new(request: SegmentationRequest) -> (engine: Engine)
        ensures
            engine@.request == request@,
            engine@.stage == StageView::ProbingSource,
    {
        Engine { request, stage: Stage::ProbingSource }
    }

    /// The request that this engine works on.
    pub fn request(&self) -> (request: &SegmentationRequest)
        ensures
            request@ == self@.request,
    {
        &self.request
    }

    /// What the driver is to do next.
    pub fn next_action(&self) -> (action: Action)
        ensures
            action == spec_action(self@.stage, self@.request.max_segment_bytes),
            stage_invariant(self@.stage),
    {
        proof {
            use_type_invariant(self);
        }
        match &self.stage {
            Stage::ProbingSource => Action::ProbeSource,
            Stage::Transcoding { total, cursor, segments } => Action::Transcode {
                index: segments.len() as u64,
                offset_ms: *cursor as u64,
                max_bytes: self.request.max_segment_bytes(),
            },
            Stage::ProbingSegment { total, cursor, segments, file } => Action::ProbeSegment {
                index: segments.len() as u64,
            },
            Stage::Done { total, segments } => Action::Deliver,
            Stage::Failed { error } => Action::Abort { error: *error },
        }
    }

    /// Whether the segmentation has ended, in success or in failure.
    pub fn is_finished(&self) -> (finished: bool)
        ensures
            finished == is_final(self@.stage),
    {
        match &self.stage {
            Stage::Done { .. } => true,
            Stage::Failed { .. } => true,
            _ => false,
        }
    }

    /// Takes in what the driver reports and moves on.
    ///
    /// The request stays as it is. An event that the engine does not wait
    /// for changes nothing.
    pub fn step(self, event: Event) -> (next: Engine)
        ensures
            next@.request == self@.request,
            next@.stage == spec_step(self@.stage, event@),
            stage_invariant(next@.stage),
    {
        proof {
            use_type_invariant(&self);
        }
        let Engine { request, stage } = self;
        let next_stage = match stage {
            Stage::ProbingSource => match event {
                Event::Probed(Ok(total)) => {
                    let segments: Vec<Segment> = Vec::new();
                    assert(segments.deep_view() =~= Seq::<SegmentView>::empty());
                    if total > 0 {
                        Stage::Transcoding { total, cursor: 0, segments }
                    } else {
                        Stage::Done { total, segments }
                    }
                },
                Event::Probed(Err(_)) => Stage::Failed { error: SegmentationError::ProbeFailed },
                Event::Transcoded(_) => Stage::ProbingSource,
            },
            Stage::Transcoding { total, cursor, segments } => match event {
                Event::Transcoded(Ok(file)) => Stage::ProbingSegment {
                    total,
                    cursor,
                    segments,
                    file,
                },
                Event::Transcoded(Err(_)) => Stage::Failed {
                    error: SegmentationError::TranscodeFailed { index: segments.len() as u64 },
                },
                Event::Probed(_) => Stage::Transcoding { total, cursor, segments },
            },
            Stage::ProbingSegment { total, cursor, segments, file } => match event {
                Event::Probed(Ok(duration)) => {
                    if duration <= 0 {
                        Stage::Failed { error: SegmentationError::NoProgress }
                    } else {
                        let ghost before = segments.deep_view();
                        let mut segments = segments;
                        let segment = Segment {
                            index: segments.len() as u64,
                            file,
                            duration_ms: duration as u64,
                        };
                        proof {
                            lemma_total_duration_push(before, segment@);
                        }
                        segments.push(segment);
                        assert(segments.deep_view() =~= before.push(segment@));
                        assert(segments.deep_view().drop_last() =~= before);
                        if duration >= total - cursor {
                            Stage::Done { total, segments }
                        } else {
                            Stage::Transcoding { total, cursor: cursor + duration, segments }
                        }
                    }
                },
                Event::Probed(Err(_)) => Stage::Failed { error: SegmentationError::ProbeFailed },
                Event::Transcoded(_) => Stage::ProbingSegment { total, cursor, segments, file },
            },
            Stage::Done { total, segments } => Stage::Done { total, segments },
            Stage::Failed { error } => Stage::Failed { error },
        };
        Engine { request, stage: next_stage }
    }

    /// How the segmentation ended: the segments in playback order, or the
    /// error. `None` while it has not ended.
    pub fn into_outcome(self) -> (outcome: Option<Result<Vec<Segment>, SegmentationError>>)
        ensures
            match spec_outcome(self@.stage) {
                Some(Ok(segments)) => outcome matches Some(Ok(v)) && v.deep_view() == segments,
                Some(Err(error)) => outcome == Some(
                    Err::<Vec<Segment>, SegmentationError>(error),
                ),
                None => outcome is None,
            },
            stage_invariant(self@.stage),
    {
        proof {
            use_type_invariant(&self);
        }
        let Engine { request, stage } = self;
        match stage {
            Stage::Done { total, segments } => Some(Ok(segments)),
            Stage::Failed { error } => Some(Err(error)),
            _ => None,
        }
    }
}

/// The stage reached from `stage` after `events`, taken in order.
pub open spec fn spec_run(stage: StageView, events: Seq<EventView>) -> StageView
    decreases events.len(),
{
    if events.len() == 0 {
        stage
    } else {
        spec_run(spec_step(stage, events[0]), events.drop_first())
    }
}

/// Whether each of `events` is the answer waited for at the point where it comes.
pub open spec fn all_accepted(stage: StageView, events: Seq<EventView>) -> bool
    decreases events.len(),
{
    events.len() == 0 || (accepts(stage, events[0]) && all_accepted(
        spec_step(stage, events[0]),
        events.drop_first(),
    ))
}

/// An upper bound on the answers that a stage can still take, once the length
/// of the source is known: two for each millisecond that is left.
pub open spec fn steps_left(stage: StageView) -> nat {
    match stage {
        StageView::ProbingSource => 0,
        StageView::Transcoding { total, segments } => (2 * (total - total_duration(
            segments,
        ))) as nat,
        StageView::ProbingSegment { total, segments, file } => (2 * (total - total_duration(
            segments,
        )) - 1) as nat,
        StageView::Done { .. } => 0,
        StageView::Failed { .. } => 0,
    }
}

/// Every step keeps the invariant, whatever the event.
pub proof fn lemma_step_keeps_invariant(stage: StageView, event: EventView)
    requires
        stage_invariant(stage),
    ensures
        stage_invariant(spec_step(stage, event)),
{
    match (stage, event) {
        (StageView::ProbingSegment { total, segments, file }, EventView::Probed(Ok(duration))) => {
            if duration > 0 {
                let last = SegmentView {
                    index: segments.len(),
                    file,
                    duration_ms: duration as nat,
                };
                let longer = segments.push(last);
                lemma_total_duration_push(segments, last);
                assert(longer.drop_last() =~= segments);
                assert forall|i: int| 0 <= i < longer.len() implies (#[trigger] longer[i]).index
                    == i && longer[i].duration_ms > 0 by {
                    if i < segments.len() {
                        assert(longer[i] == segments[i]);
                    }
                }
            }
        },
        _ => {},
    }
}

/// Every run keeps the invariant, whatever the events.
pub proof fn lemma_run_keeps_invariant(stage: StageView, events: Seq<EventView>)
    requires
        stage_invariant(stage),
    ensures
        stage_invariant(spec_run(stage, events)),
    decreases events.len(),
{
    if events.len() > 0 {
        lemma_step_keeps_invariant(stage, events[0]);
        lemma_run_keeps_invariant(spec_step(stage, events[0]), events.drop_first());
    }
}

/// Whatever is reported to a fresh engine, and in whatever order: if it ends
/// with segments, these are numbered `0, 1, 2, ...` without a gap, each has a
/// positive length, and their summed length is at least the probed length of
/// the source.
pub proof fn lemma_delivered_segments_cover_source(events: Seq<EventView>)
    ensures
        spec_run(StageView::ProbingSource, events) matches StageView::Done { total, segments }
            ==> indexed_in_order(segments) && all_positive(segments) && total_duration(segments)
            >= total,
{
    lemma_run_keeps_invariant(StageView::ProbingSource, events);
}

/// At every point of every run the segments held are numbered `0, 1, 2, ...`
/// without a gap.
pub proof fn lemma_segments_numbered_in_order(events: Seq<EventView>)
    ensures
        match spec_run(StageView::ProbingSource, events) {
            StageView::Transcoding { total, segments } => indexed_in_order(segments),
            StageView::ProbingSegment { total, segments, file } => indexed_in_order(segments),
            StageView::Done { total, segments } => indexed_in_order(segments),
            _ => true,
        },
{
    lemma_run_keeps_invariant(StageView::ProbingSource, events);
}

/// Once the length of the source is known, each answer that the engine
/// waits for brings it strictly closer to the end.
pub proof fn lemma_step_makes_progress(stage: StageView, event: EventView)
    requires
        stage_invariant(stage),
        !(stage is ProbingSource),
        accepts(stage, event),
    ensures
        steps_left(spec_step(stage, event)) < steps_left(stage),
{
    match (stage, event) {
        (StageView::ProbingSegment { total, segments, file }, EventView::Probed(Ok(duration))) => {
            if duration > 0 {
                let last = SegmentView {
                    index: segments.len(),
                    file,
                    duration_ms: duration as nat,
                };
                lemma_total_duration_push(segments, last);
            }
        },
        _ => {},
    }
}

/// The engine terminates: once the length of the source is known, it takes
/// no more answers than `steps_left` says.
pub proof fn lemma_run_is_bounded(stage: StageView, events: Seq<EventView>)
    requires
        stage_invariant(stage),
        !(stage is ProbingSource),
        all_accepted(stage, events),
    ensures
        events.len() <= steps_left(stage),
    decreases events.len(),
{
    if events.len() > 0 {
        lemma_step_makes_progress(stage, events[0]);
        lemma_step_keeps_invariant(stage, events[0]);
        lemma_run_is_bounded(spec_step(stage, events[0]), events.drop_first());
    }
}

/// The engine terminates, counted from the start: for a source of `total`
/// milliseconds it takes the probe of the source and at most two answers
/// for each millisecond; where that probe fails or finds no length, it
/// takes nothing more.
pub proof fn lemma_fresh_run_is_bounded(events: Seq<EventView>)
    requires
        events.len() > 0,
        all_accepted(StageView::ProbingSource, events),
    ensures
        match events[0] {
            EventView::Probed(Ok(total)) => events.len() <= 1 + 2 * (if total > 0 {
                total as int
            } else {
                0
            }),
            _ => events.len() == 1,
        },
{
    let first = spec_step(StageView::ProbingSource, events[0]);
    lemma_step_keeps_invariant(StageView::ProbingSource, events[0]);
    lemma_run_is_bounded(first, events.drop_first());
    match events[0] {
        EventView::Probed(Ok(total)) => {
            if total > 0 {
                assert(total_duration(Seq::<SegmentView>::empty()) == 0);
            }
        },
        _ => {},
    }
}

/// A run that took only answers it waited for, and can take no more, has ended.
pub proof fn lemma_final_iff_nothing_accepted(stage: StageView)
    ensures
        is_final(stage) <==> forall|event: EventView| !accepts(stage, event),
{
    if !is_final(stage) {
        let probed = EventView::Probed(Err(ProbeError::NotStarted));
        let transcoded = EventView::Transcoded(Err(TranscodeError::NotStarted));
        assert(accepts(stage, probed) || accepts(stage, transcoded));
    }
}

/// Where the probe of the source fails, the segmentation fails with
/// `ProbeFailed`, and no segment comes of it.
pub proof fn lemma_source_probe_failure(cause: ProbeError)
    ensures
        spec_step(StageView::ProbingSource, EventView::Probed(Err(cause))) == (StageView::Failed {
            error: SegmentationError::ProbeFailed,
        }),
        spec_outcome(spec_step(StageView::ProbingSource, EventView::Probed(Err(cause)))) == Some(
            Err::<Seq<SegmentView>, SegmentationError>(SegmentationError::ProbeFailed),
        ),
{
}

/// Where the transcoder fails after `k` segments, the segmentation fails
/// with `TranscodeFailed { index: k }`, and none of the `k` segments is in
/// the outcome, nor in that of any run that goes on from there.
pub proof fn lemma_transcode_failure(
    total: int,
    segments: Seq<SegmentView>,
    cause: TranscodeError,
    later: Seq<EventView>,
)
    requires
        stage_invariant(StageView::Transcoding { total, segments }),
    ensures
        segments.len() <= u64::MAX,
        spec_run(
            spec_step(
                StageView::Transcoding { total, segments },
                EventView::Transcoded(Err(cause)),
            ),
            later,
        ) == (StageView::Failed {
            error: SegmentationError::TranscodeFailed { index: segments.len() as u64 },
        }),
{
    lemma_count_within_duration(segments);
    lemma_final_stage_stays(
        StageView::Failed {
            error: SegmentationError::TranscodeFailed { index: segments.len() as u64 },
        },
        later,
    );
}

/// Segments of positive length are no more than their summed length in milliseconds.
pub proof fn lemma_count_within_duration(segments: Seq<SegmentView>)
    requires
        all_positive(segments),
    ensures
        segments.len() <= total_duration(segments),
    decreases segments.len(),
{
    if segments.len() > 0 {
        let shorter = segments.drop_last();
        assert forall|i: int| 0 <= i < shorter.len() implies (#[trigger] shorter[i]).duration_ms
            > 0 by {
            assert(shorter[i] == segments[i]);
        }
        lemma_count_within_duration(shorter);
        assert(segments.last() == segments[segments.len() - 1]);
    }
}

/// Nothing moves a final stage.
pub proof fn lemma_final_stage_stays(stage: StageView, events: Seq<EventView>)
    requires
        is_final(stage),
    ensures
        spec_run(stage, events) == stage,
    decreases events.len(),
{
    if events.len() > 0 {
        lemma_final_stage_stays(stage, events.drop_first());
    }
}

/// Where the first segment is shorter than the source, more than one segment
/// is delivered.
pub proof fn lemma_short_first_segment_forces_more(total: int, segments: Seq<SegmentView>)
    requires
        stage_invariant(StageView::Done { total, segments }),
        segments.len() > 0,
        segments[0].duration_ms < total,
    ensures
        segments.len() > 1,
{
    if segments.len() == 1 {
        assert(segments.drop_last() =~= Seq::<SegmentView>::empty());
        assert(total_duration(segments.drop_last()) == 0);
        assert(segments.last() == segments[0]);
    }
}

/// The size cap of the request goes unchanged into every transcoding run.
pub proof fn lemma_cap_is_handed_on(
    total: int,
    segments: Seq<SegmentView>,
    max_bytes: Option<u64>,
)
    ensures
        spec_action(StageView::Transcoding { total, segments }, max_bytes) matches Action::Transcode {
            max_bytes: cap,
            ..
        } && cap == max_bytes,
{
}

} // verus!
