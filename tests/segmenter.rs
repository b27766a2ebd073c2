use video_processor::{
    centis_to_millis, segment_by_pauses, CutPoint, Transcript, TranscriptSegment,
    DEFAULT_PAUSE_THRESHOLD_MS,
};

fn seg(start: u64, end: u64, text: &str) -> TranscriptSegment {
    TranscriptSegment { start, end, text: text.to_string() }
}

fn spans(cuts: &[CutPoint]) -> Vec<(u64, u64, String)> {
    cuts.iter().map(|c| (c.start_time, c.end_time, c.description.clone())).collect()
}

#[test]
fn long_pause_splits_into_two_cut_points() {
    let t = Transcript::from_segments(vec![seg(0, 2000, "a"), seg(5000, 7000, "b")]);
    let cuts = segment_by_pauses(&t, 1000);
    assert_eq!(
        spans(&cuts),
        vec![(0, 2000, "Segment 1".to_string()), (5000, 7000, "Segment 2".to_string())]
    );
}

#[test]
fn short_pause_keeps_one_cut_point() {
    let t = Transcript::from_segments(vec![seg(0, 2000, "a"), seg(2500, 4000, "b")]);
    let cuts = segment_by_pauses(&t, 1000);
    assert_eq!(spans(&cuts), vec![(0, 4000, "Segment 1".to_string())]);
}

#[test]
fn empty_transcript_has_no_cut_points() {
    let t = Transcript::from_segments(Vec::new());
    assert!(segment_by_pauses(&t, 1000).is_empty());
    assert_eq!(t.text, "");
}

#[test]
fn single_segment_gives_one_cut_point_from_zero() {
    let t = Transcript::from_segments(vec![seg(1500, 3000, "only")]);
    assert_eq!(spans(&segment_by_pauses(&t, 1000)), vec![(0, 3000, "Segment 1".to_string())]);
}

#[test]
fn gap_equal_to_threshold_is_not_a_pause() {
    let t = Transcript::from_segments(vec![seg(0, 1000, "a"), seg(2000, 3000, "b")]);
    assert_eq!(spans(&segment_by_pauses(&t, 1000)), vec![(0, 3000, "Segment 1".to_string())]);
    let t2 = Transcript::from_segments(vec![seg(0, 1000, "a"), seg(2001, 3000, "b")]);
    assert_eq!(segment_by_pauses(&t2, 1000).len(), 2);
}

#[test]
fn overlapping_segments_are_absorbed() {
    let t = Transcript::from_segments(vec![seg(0, 5000, "a"), seg(3000, 4000, "b"), seg(9000, 9500, "c")]);
    assert_eq!(
        spans(&segment_by_pauses(&t, DEFAULT_PAUSE_THRESHOLD_MS)),
        vec![(0, 4000, "Segment 1".to_string()), (9000, 9500, "Segment 2".to_string())]
    );
}

#[test]
fn cut_points_are_ordered_and_end_with_the_transcript() {
    let mut segments = Vec::new();
    let mut t: u64 = 0;
    for k in 0..40u64 {
        let len = 300 + (k * 7919) % 2000;
        let gap = (k * 104729) % 2500;
        segments.push(seg(t, t + len, "w"));
        t = t + len + gap;
    }
    let last_end = segments.last().unwrap().end;
    let transcript = Transcript::from_segments(segments);
    for threshold in [0u64, 500, 1000, 2000, 5000] {
        let cuts = segment_by_pauses(&transcript, threshold);
        assert!(!cuts.is_empty());
        assert_eq!(cuts[0].start_time, 0);
        assert_eq!(cuts.last().unwrap().end_time, last_end);
        for (j, c) in cuts.iter().enumerate() {
            assert!(c.start_time <= c.end_time);
            assert_eq!(c.description, format!("Segment {}", j + 1));
        }
        for w in cuts.windows(2) {
            assert!(w[1].start_time - w[0].end_time > threshold);
        }
    }
}

#[test]
fn no_pause_from_zero_covers_whole_span() {
    let t = Transcript::from_segments(vec![seg(0, 900, "a"), seg(1200, 2400, "b"), seg(2500, 3100, "c")]);
    assert_eq!(spans(&segment_by_pauses(&t, 1000)), vec![(0, 3100, "Segment 1".to_string())]);
}

#[test]
fn transcript_text_joins_with_single_spaces() {
    let t = Transcript::from_segments(vec![seg(0, 1, "hello"), seg(1, 2, "big"), seg(2, 3, "world")]);
    assert_eq!(t.text, "hello big world");
    assert_eq!(t.segments.len(), 3);
}

#[test]
fn centiseconds_become_milliseconds() {
    assert_eq!(centis_to_millis(0), 0);
    assert_eq!(centis_to_millis(-5), 0);
    assert_eq!(centis_to_millis(123), 1230);
    assert_eq!(centis_to_millis(i64::MAX), u64::MAX);
}
