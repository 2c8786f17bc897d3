use antiphon::autostart::{first_step, restart_notice, DaemonStep};

#[test]
fn the_first_step_follows_the_setting_and_the_socket() {
    assert_eq!(first_step(false, false), DaemonStep::Nothing);
    assert_eq!(first_step(true, false), DaemonStep::Spawn);
    assert_eq!(first_step(true, true), DaemonStep::AskVersion);
}

#[test]
fn only_two_real_differing_versions_restart_the_daemon() {
    assert_eq!(restart_notice(Some("v1.2".to_string()), "v1.2"), None);
    assert_eq!(restart_notice(Some("unversioned".to_string()), "v1.3"), None);
    assert_eq!(restart_notice(Some("v1.2".to_string()), "unversioned"), None);
    assert_eq!(restart_notice(None, "v1.3"), None);
    assert_eq!(
        restart_notice(Some("v1.2".to_string()), "v1.3").as_deref(),
        Some("restarted antiphond: it was v1.2, this client is v1.3")
    );
}
