use antiphon::tui::commands::{argument_of, FrameStats};

#[test]
fn frame_stats_track_last_mean_and_max() {
    let mut stats = FrameStats::default();
    stats.record(std::time::Duration::from_micros(100));
    stats.record(std::time::Duration::from_micros(300));
    assert_eq!(stats.frames, 2);
    assert_eq!(stats.last_micros, 300);
    assert_eq!(stats.max_micros, 300);
    assert_eq!(stats.mean_micros(), 200);
    assert_eq!(FrameStats::default().mean_micros(), 0);
}

#[test]
fn frame_stats_summary_spells_every_figure() {
    let mut stats = FrameStats::default();
    stats.record_micros(1500);
    stats.record_micros(500);
    assert_eq!(
        stats.summary(),
        "frames: 2 drawn, last 500 us, mean 1000 us, max 1500 us"
    );
    assert_eq!(
        FrameStats::default().summary(),
        "frames: 0 drawn, last 0 us, mean 0 us, max 0 us"
    );
}

#[test]
fn arguments_follow_the_command_name_and_a_space() {
    assert_eq!(argument_of("apply", "apply").as_deref(), Some(""));
    assert_eq!(argument_of("apply  ../repo ", "apply").as_deref(), Some("../repo"));
    assert_eq!(argument_of("applyx", "apply"), None);
    assert_eq!(argument_of("template reply", "apply"), None);
}

#[test]
fn a_checked_record_counts_the_frame() {
    let mut stats = FrameStats::default();
    assert!(stats.record_checked(std::time::Duration::from_micros(250)));
    assert_eq!(stats.frames, 1);
    assert_eq!(stats.last_micros, 250);
    assert_eq!(stats.mean_micros(), 250);
}
