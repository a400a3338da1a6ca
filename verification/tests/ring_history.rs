use spectroterm::history::WaterfallHistory;
use spectroterm::ring::SampleRing;
use spectroterm::spectrum::Spectrum;
use spectroterm::spectrum::SPECTRUM_BINS;

fn spectrum_with_level(level: u8) -> Spectrum {
    let mut levels = vec![0u8; SPECTRUM_BINS];
    for i in 1..SPECTRUM_BINS {
        levels[i] = level;
    }
    Spectrum::from_levels(levels).expect("bin count matches")
}

#[test]
fn ring_snapshot_is_last_writes_in_order() {
    let mut ring: SampleRing<u32> = SampleRing::new(8, 0);
    for v in 0..20u32 {
        ring.write(v);
    }
    assert_eq!(ring.snapshot(), vec![12, 13, 14, 15, 16, 17, 18, 19]);
}

#[test]
fn ring_snapshot_keeps_fill_before_first_wrap() {
    let mut ring: SampleRing<u32> = SampleRing::new(4, 7);
    ring.write(1);
    ring.write(2);
    assert_eq!(ring.snapshot(), vec![7, 7, 1, 2]);
}

#[test]
fn ring_write_all_matches_single_writes() {
    let mut a: SampleRing<u32> = SampleRing::new(5, 0);
    let mut b: SampleRing<u32> = SampleRing::new(5, 0);
    let data: Vec<u32> = (100..117).collect();
    a.write_all(&data);
    for &v in &data {
        b.write(v);
    }
    assert_eq!(a.snapshot(), b.snapshot());
}

#[test]
fn ring_snapshot_under_interleaved_writes_is_always_a_window() {
    // One simulated writer and one reader taking turns: every snapshot
    // must equal the last eight values written so far.
    let mut ring: SampleRing<u64> = SampleRing::new(8, 0);
    let mut written: Vec<u64> = Vec::new();
    let mut next: u64 = 1;
    for burst in 1..40usize {
        for _ in 0..(burst % 5) + 1 {
            ring.write(next);
            written.push(next);
            next += 1;
        }
        if written.len() >= 8 {
            let snap = ring.snapshot();
            assert_eq!(&snap[..], &written[written.len() - 8..]);
        }
    }
}

#[test]
fn ring_snapshot_is_a_copy() {
    let mut ring: SampleRing<u32> = SampleRing::new(3, 0);
    ring.write_all(&[1, 2, 3]);
    let snap = ring.snapshot();
    ring.write(4);
    assert_eq!(snap, vec![1, 2, 3]);
    assert_eq!(ring.snapshot(), vec![2, 3, 4]);
}

#[test]
fn history_evicts_oldest_after_one_push_past_depth() {
    let depth: usize = 3;
    let mut history = WaterfallHistory::new(depth);
    let pushed: Vec<Spectrum> = (0..=depth).map(|k| spectrum_with_level(k as u8 + 1)).collect();
    for s in pushed {
        history.push(s);
    }
    // Four pushes with levels 1, 2, 3, 4 into a depth of three: newest
    // first reads 4, 3, 2 and the first push is gone.
    assert_eq!(history.newest(0).level(1), 4);
    assert_eq!(history.newest(1).level(1), 3);
    assert_eq!(history.newest(2).level(1), 2);
}

#[test]
fn history_newest_first_levels_match_accessor() {
    let mut history = WaterfallHistory::new(2);
    history.push(spectrum_with_level(9));
    history.push(spectrum_with_level(17));
    let rows = history.newest_first_levels();
    assert_eq!(rows.len(), 2);
    assert_eq!(rows[0][1], 17);
    assert_eq!(rows[1][1], 9);
    assert_eq!(rows[0][0], 0);
}

#[test]
fn history_starts_silent() {
    let history = WaterfallHistory::new(4);
    assert_eq!(history.len(), 4);
    for i in 0..4 {
        assert_eq!(history.newest(i).level(1), 0);
        assert_eq!(history.newest(i).len(), SPECTRUM_BINS);
    }
}

#[test]
fn spectrum_rejects_wrong_bin_count() {
    assert!(Spectrum::from_levels(vec![0u8; SPECTRUM_BINS - 1]).is_none());
    assert!(Spectrum::from_levels(vec![0u8; SPECTRUM_BINS + 1]).is_none());
    assert!(Spectrum::from_levels(Vec::new()).is_none());
}

#[test]
fn spectrum_silences_dc_and_clamps() {
    let mut levels = vec![0u8; SPECTRUM_BINS];
    levels[0] = 55;
    levels[1] = 100;
    levels[2] = 101;
    levels[3] = 255;
    let s = Spectrum::from_levels(levels).expect("bin count matches");
    assert_eq!(s.level(0), 0);
    assert_eq!(s.level(1), 100);
    assert_eq!(s.level(2), 100);
    assert_eq!(s.level(3), 100);
    assert_eq!(s.level(4), 0);
}
