use vstd::prelude::*;
use crate::label::{segment_label, spec_segment_label};

verus! {

/// One timestamped stretch of recognized speech; times in milliseconds.
#[derive(Debug, Clone, PartialEq)]
pub struct TranscriptSegment {
    pub start: u64,
    pub end: u64,
    pub text: String,
}

/// Recognized speech as ordered segments, with their texts joined by single
/// spaces in `text`.
#[derive(Debug, Clone, PartialEq)]
pub struct Transcript {
    pub segments: Vec<TranscriptSegment>,
    pub text: String,
}

/// A proposed interval of the video to keep; times in milliseconds.
#[derive(Debug, Clone, PartialEq)]
pub struct CutPoint {
    pub start_time: u64,
    pub end_time: u64,
    pub description: String,
}

/// The pause, in milliseconds, above which a silence separates cut points
/// unless the caller picks another.
pub const DEFAULT_PAUSE_THRESHOLD_MS: u64 = 1000;

/// A speech recognizer's timestamp, in hundredths of a second, in
/// milliseconds; negative timestamps count as zero and the largest ones
/// saturate.
pub open spec fn spec_centis_to_millis(t: i64) -> u64 {
    if t <= 0 {
        0
    } else if t * 10 > u64::MAX {
        u64::MAX
    } else {
        (t * 10) as u64
    }
}

/// Converts a timestamp in hundredths of a second to milliseconds.
pub fn centis_to_millis(t: i64) -> (r: u64)
    ensures
        r == spec_centis_to_millis(t),
{
    if t <= 0 {
        0
    } else if t as u64 > u64::MAX / 10 {
        u64::MAX
    } else {
        t as u64 * 10
    }
}

/// The segment texts in order, separated by single spaces.
pub open spec fn joined_text(segs: Seq<TranscriptSegment>) -> Seq<char>
    decreases segs.len(),
{
    if segs.len() == 0 {
        Seq::empty()
    } else if segs.len() == 1 {
        segs[0].text@
    } else {
        joined_text(segs.drop_last()) + " "@ + segs.last().text@
    }
}

impl Transcript {
    /// A transcript of the given segments, its text derived from theirs.
    pub fn from_segments(segments: Vec<TranscriptSegment>) -> (r: Transcript)
        ensures
            r.segments@ == segments@,
            r.text@ == joined_text(segments@),
    {
        let mut text = String::new();
        let mut i: usize = 0;
        while i < segments.len()
            invariant
                i <= segments.len(),
                text@ == joined_text(segments@.subrange(0, i as int)),
            decreases segments.len() - i,
        {
            let ghost prefix = segments@.subrange(0, i + 1);
            assert(prefix.drop_last() =~= segments@.subrange(0, i as int));
            if i > 0 {
                text.append(" ");
            }
            text.append(segments[i].text.as_str());
            i = i + 1;
        }
        assert(segments@.subrange(0, segments.len() as int) =~= segments@);
        Transcript { segments, text }
    }
}

/// Segments as a transcription step produces them: each starts no later than
/// it ends, and starts never decrease.
pub open spec fn well_ordered(segs: Seq<TranscriptSegment>) -> bool {
    &&& forall|i: int| 0 <= i < segs.len() ==> #[trigger] segs[i].start <= segs[i].end
    &&& forall|i: int| 1 <= i < segs.len() ==> segs[i - 1].start <= #[trigger] segs[i].start
}

/// The silence before segment `i` is longer than the threshold.
pub open spec fn is_pause(segs: Seq<TranscriptSegment>, threshold: u64, i: int) -> bool {
    segs[i].start - segs[i - 1].end > threshold
}

/// The intervals closed, and the start of the open one, after looking at the
/// first `n` segments.
pub open spec fn scan(segs: Seq<TranscriptSegment>, threshold: u64, n: nat) -> (Seq<(int, int)>, int)
    decreases n,
{
    if n <= 1 {
        (Seq::empty(), 0)
    } else {
        let (closed, open_start) = scan(segs, threshold, (n - 1) as nat);
        if is_pause(segs, threshold, n - 1) {
            (closed.push((open_start, segs[n - 2].end as int)), segs[n - 1].start as int)
        } else {
            (closed, open_start)
        }
    }
}

/// The intervals, as (start, end) pairs, that pause segmentation proposes: the
/// timeline from zero is cut at every pause longer than the threshold, and the
/// last interval ends with the last segment.
pub open spec fn pause_intervals(segs: Seq<TranscriptSegment>, threshold: u64) -> Seq<(int, int)> {
    if segs.len() == 0 {
        Seq::empty()
    } else {
        let (closed, open_start) = scan(segs, threshold, segs.len());
        closed.push((open_start, segs.last().end as int))
    }
}

/// The cut points carry the intervals in order, described as "Segment 1",
/// "Segment 2", and so on.
pub open spec fn cut_points_are(cuts: Seq<CutPoint>, intervals: Seq<(int, int)>) -> bool {
    &&& cuts.len() == intervals.len()
    &&& forall|j: int| 0 <= j < cuts.len() ==> {
        &&& #[trigger] cuts[j].start_time == intervals[j].0
        &&& cuts[j].end_time == intervals[j].1
        &&& cuts[j].description@ == spec_segment_label((j + 1) as nat)
    }
}

/// `a` is the end of some segment and `b` the start of the next, with a pause
/// between the two.
pub open spec fn separated_by_pause(segs: Seq<TranscriptSegment>, threshold: u64, a: int, b: int) -> bool {
    exists|k: int|
        1 <= k < segs.len() && #[trigger] is_pause(segs, threshold, k) && a == segs[k - 1].end && b == segs[k].start
}

proof fn lemma_scan_shape(segs: Seq<TranscriptSegment>, threshold: u64, n: nat)
    requires
        well_ordered(segs),
        1 <= n <= segs.len(),
    ensures
        ({
            let (closed, open_start) = scan(segs, threshold, n);
            &&& forall|j: int| 0 <= j < closed.len() ==> 0 <= #[trigger] closed[j].0 <= closed[j].1
            &&& forall|j: int| 0 <= j < closed.len() - 1 ==> #[trigger] closed[j + 1].0 - closed[j].1 > threshold
            &&& closed.len() > 0 ==> open_start - closed.last().1 > threshold && closed[0].0 == 0
            &&& closed.len() > 0 ==> separated_by_pause(segs, threshold, closed.last().1, open_start)
            &&& forall|j: int|
                0 <= j < closed.len() - 1 ==> separated_by_pause(segs, threshold, #[trigger] closed[j].1, closed[j + 1].0)
            &&& closed.len() == 0 ==> open_start == 0
            &&& 0 <= open_start <= segs[n - 1].start
        }),
    decreases n,
{
    if n > 1 {
        lemma_scan_shape(segs, threshold, (n - 1) as nat);
        assert(segs[n - 2].start <= segs[n - 1].start);
        assert(segs[n - 2].start <= segs[n - 2].end);
        let (closed0, open0) = scan(segs, threshold, (n - 1) as nat);
        if is_pause(segs, threshold, n - 1) {
            let closed = closed0.push((open0, segs[n - 2].end as int));
            assert(closed.last().1 == segs[(n - 1) - 1].end);
            assert(separated_by_pause(segs, threshold, closed.last().1, segs[n - 1].start as int));
            assert forall|j: int| 0 <= j < closed.len() - 1 implies separated_by_pause(
                segs,
                threshold,
                #[trigger] closed[j].1,
                closed[j + 1].0,
            ) by {
                if j + 1 < closed0.len() {
                    assert(closed[j] == closed0[j] && closed[j + 1] == closed0[j + 1]);
                } else {
                    assert(closed[j] == closed0.last());
                }
            }
        }
    }
}

/// For segments in transcription order, pause segmentation yields a cut point
/// exactly when there is a segment; the first starts at zero, the last ends
/// where the last segment ends; each cut point starts no later than it ends;
/// and consecutive cut points neither overlap nor touch: what lies between
/// them is exactly a silence, longer than the threshold, from the end of one
/// segment to the start of the next.
pub proof fn lemma_cut_points_ordered(segs: Seq<TranscriptSegment>, threshold: u64)
    requires
        well_ordered(segs),
    ensures
        ({
            let cuts = pause_intervals(segs, threshold);
            &&& cuts.len() == 0 <==> segs.len() == 0
            &&& segs.len() > 0 ==> cuts[0].0 == 0 && cuts.last().1 == segs.last().end
            &&& forall|j: int| 0 <= j < cuts.len() ==> #[trigger] cuts[j].0 <= cuts[j].1
            &&& forall|j: int| 0 <= j < cuts.len() - 1 ==> cuts[j].1 < #[trigger] cuts[j + 1].0
            &&& forall|j: int| 0 <= j < cuts.len() - 1 ==> #[trigger] cuts[j + 1].0 - cuts[j].1 > threshold
            &&& forall|j: int|
                0 <= j < cuts.len() - 1 ==> separated_by_pause(segs, threshold, #[trigger] cuts[j].1, cuts[j + 1].0)
        }),
{
    if segs.len() > 0 {
        lemma_scan_shape(segs, threshold, segs.len());
        let (closed, open_start) = scan(segs, threshold, segs.len());
        let cuts = pause_intervals(segs, threshold);
        assert(segs[segs.len() - 1].start <= segs[segs.len() - 1].end);
        assert forall|j: int| 0 <= j < cuts.len() - 1 implies #[trigger] cuts[j + 1].0 - cuts[j].1 > threshold by {
            if j + 1 < closed.len() {
                assert(closed[j + 1].0 - closed[j].1 > threshold);
            }
        }
        assert forall|j: int| 0 <= j < cuts.len() - 1 implies separated_by_pause(
            segs,
            threshold,
            #[trigger] cuts[j].1,
            cuts[j + 1].0,
        ) by {
            if j + 1 < closed.len() {
                assert(cuts[j] == closed[j] && cuts[j + 1] == closed[j + 1]);
            } else {
                assert(cuts[j] == closed.last());
            }
        }
        assert forall|j: int| 0 <= j < cuts.len() implies #[trigger] cuts[j].0 <= cuts[j].1 by {
            if j < closed.len() {
                assert(0 <= closed[j].0 <= closed[j].1);
            }
        }
    }
}

proof fn lemma_scan_without_pause(segs: Seq<TranscriptSegment>, threshold: u64, n: nat)
    requires
        n <= segs.len(),
        forall|i: int| 1 <= i < segs.len() ==> !is_pause(segs, threshold, i),
    ensures
        scan(segs, threshold, n) == (Seq::<(int, int)>::empty(), 0int),
    decreases n,
{
    if n > 1 {
        lemma_scan_without_pause(segs, threshold, (n - 1) as nat);
        assert(!is_pause(segs, threshold, n - 1));
    }
}

/// A non-empty transcript that starts at zero and has no silence longer than
/// the threshold is kept whole: its one cut point is exactly the span from
/// the first segment's start to the last segment's end.
pub proof fn lemma_single_cut_covers_span(segs: Seq<TranscriptSegment>, threshold: u64)
    requires
        segs.len() > 0,
        segs[0].start == 0,
        forall|i: int| 1 <= i < segs.len() ==> !is_pause(segs, threshold, i),
    ensures
        pause_intervals(segs, threshold) == seq![(segs[0].start as int, segs.last().end as int)],
{
    lemma_scan_without_pause(segs, threshold, segs.len());
    assert(pause_intervals(segs, threshold) =~= seq![(segs[0].start as int, segs.last().end as int)]);
}

/// Splits the transcript's timeline at every silence between consecutive
/// segments that lasts longer than `pause_threshold` milliseconds.
///
/// Segments are taken in the order given; a negative gap (overlapping or
/// unsorted segments) never counts as a pause.
pub fn segment_by_pauses(transcript: &Transcript, pause_threshold: u64) -> (r: Vec<CutPoint>)
    ensures
        cut_points_are(r@, pause_intervals(transcript.segments@, pause_threshold)),
{
    let segs = &transcript.segments;
    let mut cut_points: Vec<CutPoint> = Vec::new();
    let mut current_start: u64 = 0;
    if segs.len() == 0 {
        return cut_points;
    }
    let mut i: usize = 1;
    while i < segs.len()
        invariant
            1 <= i <= segs.len(),
            segs == &transcript.segments,
            cut_points@.len() < i,
            cut_points_are(cut_points@, scan(segs@, pause_threshold, i as nat).0),
            current_start as int == scan(segs@, pause_threshold, i as nat).1,
        decreases segs.len() - i,
    {
        let prev = &segs[i - 1];
        let curr = &segs[i];
        if curr.start > prev.end && curr.start - prev.end > pause_threshold {
            let description = segment_label((cut_points.len() + 1) as u64);
            cut_points.push(CutPoint { start_time: current_start, end_time: prev.end, description });
            current_start = curr.start;
        }
        i = i + 1;
    }
    let last_end = segs[segs.len() - 1].end;
    let description = segment_label((cut_points.len() + 1) as u64);
    cut_points.push(CutPoint { start_time: current_start, end_time: last_end, description });
    cut_points
}

} // verus!
