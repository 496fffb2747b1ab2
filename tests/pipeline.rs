use osnma_core::gst::Gst;
use osnma_core::pipeline::band_of_sigid;
use osnma_core::pipeline::is_dummy;
use osnma_core::pipeline::normalize_gst;
use osnma_core::pipeline::same_bytes;
use osnma_core::pipeline::InavBand;
use osnma_core::pipeline::Pipeline;
use osnma_core::pipeline::SubframeSync;
use osnma_core::pipeline::TowFix;
use osnma_core::pipeline::Verdict;

const WORD: [u8; 16] = [0x04; 16];

#[test]
fn normalize_folds_extra_week() {
    assert_eq!(normalize_gst(1176, 604801), Some(Gst { wn: 1177, tow: 1 }));
    assert_eq!(normalize_gst(1176, 120960), Some(Gst { wn: 1176, tow: 120960 }));
    assert_eq!(normalize_gst(4095, 604800), None);
    assert_eq!(normalize_gst(5000, 0), None);
}

#[test]
fn tow_self_correction() {
    let mut f = TowFix::new();
    assert_eq!(f.correct(120959), 120959);
    assert_eq!(f.correct(120945), 120959);
    assert_eq!(f.correct(120976), 120976);
    assert_eq!(f.correct(121005), 121005);
    let mut f = TowFix::new();
    assert_eq!(f.correct(120949), 120949);
    assert_eq!(f.correct(120945), 120959);
    let mut f = TowFix::new();
    assert_eq!(f.correct(120948), 120948);
    assert_eq!(f.correct(120945), 120945);
}

#[test]
fn monotonic_rejection() {
    let mut s = SubframeSync::new();
    assert!(s.accept(Gst { wn: 1176, tow: 120965 }));
    assert_eq!(s.current_subframe(), Some(Gst { wn: 1176, tow: 120960 }));
    assert!(s.accept(Gst { wn: 1176, tow: 120989 }));
    assert!(!s.accept(Gst { wn: 1176, tow: 120959 }));
    assert!(!s.accept(Gst { wn: 1175, tow: 600000 }));
    assert_eq!(s.current_subframe(), Some(Gst { wn: 1176, tow: 120960 }));
    assert!(s.accept(Gst { wn: 1177, tow: 0 }));
    assert!(!s.accept(Gst { wn: 1176, tow: 120990 }));
}

#[test]
fn dummy_word_type() {
    assert!(is_dummy(&[0xfc, 0x00]));
    assert!(is_dummy(&[0xff]));
    assert!(!is_dummy(&[0xf8]));
    assert!(!is_dummy(&WORD));
}

#[test]
fn bands() {
    assert_eq!(band_of_sigid(1), Some(InavBand::E1B));
    assert_eq!(band_of_sigid(5), Some(InavBand::E5B));
    assert_eq!(band_of_sigid(2), None);
}

#[test]
fn screen_word_verdicts() {
    let mut p = Pipeline::new();
    let g = Gst { wn: 1176, tow: 120961 };
    assert_eq!(p.screen_word(1176, 120961, 1, &WORD), Verdict::Feed { gst: g, band: InavBand::E1B });
    assert_eq!(p.current_subframe(), Some(Gst { wn: 1176, tow: 120960 }));
    let stale = Gst { wn: 1176, tow: 120950 };
    assert_eq!(
        p.screen_word(1176, 120950, 5, &WORD),
        Verdict::Stale { gst: stale, current: Gst { wn: 1176, tow: 120960 } }
    );
    let g = Gst { wn: 1176, tow: 120993 };
    assert_eq!(p.screen_word(1176, 120993, 3, &WORD), Verdict::BadBand { gst: g });
    assert_eq!(p.current_subframe(), Some(Gst { wn: 1176, tow: 120960 }));
    let mut dummy = WORD;
    dummy[0] = 0xfc;
    let g = Gst { wn: 1176, tow: 120994 };
    assert_eq!(p.screen_word(1176, 120994, 5, &dummy), Verdict::Dummy { gst: g, band: InavBand::E5B });
    assert_eq!(p.screen_word(9000, 0, 1, &WORD), Verdict::BadTime);
}

#[test]
fn screen_word_corrects_tow() {
    let mut p = Pipeline::new();
    p.screen_word(1176, 120959, 1, &WORD);
    let g = Gst { wn: 1176, tow: 120959 };
    assert_eq!(p.screen_word(1176, 120945, 1, &WORD), Verdict::Feed { gst: g, band: InavBand::E1B });
}

#[test]
fn screen_word_any_satellite_is_stale() {
    let mut p = Pipeline::new();
    p.screen_word(1176, 604801, 5, &WORD);
    assert_eq!(p.current_subframe(), Some(Gst { wn: 1177, tow: 0 }));
    assert!(matches!(p.screen_word(1176, 604799, 1, &WORD), Verdict::Stale { .. }));
}

#[test]
fn dedup_reports_once() {
    let mut p = Pipeline::new();
    let mut block = [0u8; 69];
    block[1] = 0x16;
    block[2] = 0x72;
    block[3] = 0x80;
    let first = p.observe_ced(3, &block);
    assert_eq!(first.unwrap()[0], ("T0E", 11493));
    assert!(p.observe_ced(3, &block).is_none());
    assert!(p.observe_ced(4, &block).is_some());
    block[68] = 1;
    assert!(p.observe_ced(3, &block).is_some());
    assert!(p.observe_ced(3, &block).is_none());
}

#[test]
fn dedup_timing_parameters() {
    let mut p = Pipeline::new();
    let block = [7u8; 18];
    assert!(p.observe_timing(36, &block));
    assert!(!p.observe_timing(36, &block));
    assert!(p.observe_timing(1, &block));
    assert!(p.observe_timing(36, &[8u8; 18]));
}

#[test]
fn dummy_leaves_cache_alone() {
    let mut p = Pipeline::new();
    let block = [1u8; 69];
    assert!(p.observe_ced(2, &block).is_some());
    let mut dummy = WORD;
    dummy[0] = 0xfc;
    assert!(matches!(p.screen_word(1176, 120961, 1, &dummy), Verdict::Dummy { .. }));
    assert!(p.observe_ced(2, &block).is_none());
}

#[test]
fn compare_bytes() {
    assert!(same_bytes(&[1, 2, 3], &[1, 2, 3]));
    assert!(!same_bytes(&[1, 2, 3], &[1, 2, 4]));
    assert!(!same_bytes(&[1, 2], &[1, 2, 3]));
}

#[test]
fn subframe_of_time() {
    assert_eq!(Gst { wn: 3, tow: 59 }.gst_subframe(), Gst { wn: 3, tow: 30 });
    assert_eq!(Gst { wn: 3, tow: 0 }.previous_subframe(), Gst { wn: 2, tow: 604770 });
}

#[test]
fn bad_band_changes_nothing() {
    let mut p = Pipeline::new();
    p.screen_word(1176, 120961, 1, &WORD);
    // a later word on an unknown band must not push the watermark ahead
    assert_eq!(
        p.screen_word(1177, 0, 2, &WORD),
        Verdict::BadBand { gst: Gst { wn: 1177, tow: 0 } }
    );
    assert_eq!(p.current_subframe(), Some(Gst { wn: 1176, tow: 120960 }));
    let g = Gst { wn: 1176, tow: 120975 };
    assert_eq!(p.screen_word(1176, 120975, 5, &WORD), Verdict::Feed { gst: g, band: InavBand::E5B });
    // nor does it leave a time behind for the correction
    let mut p = Pipeline::new();
    p.screen_word(1176, 120930, 1, &WORD);
    p.screen_word(1176, 120959, 7, &WORD);
    let g = Gst { wn: 1176, tow: 120945 };
    assert_eq!(p.screen_word(1176, 120945, 1, &WORD), Verdict::Feed { gst: g, band: InavBand::E1B });
}

#[test]
fn stale_word_changes_nothing() {
    let mut p = Pipeline::new();
    p.screen_word(1176, 120990, 1, &WORD);
    let stale = Gst { wn: 1176, tow: 120959 };
    assert_eq!(
        p.screen_word(1176, 120959, 1, &WORD),
        Verdict::Stale { gst: stale, current: Gst { wn: 1176, tow: 120990 } }
    );
    assert_eq!(p.current_subframe(), Some(Gst { wn: 1176, tow: 120990 }));
    let g = Gst { wn: 1176, tow: 121005 };
    assert_eq!(p.screen_word(1176, 121005, 1, &WORD), Verdict::Feed { gst: g, band: InavBand::E1B });
}
