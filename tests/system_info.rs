use cat_panel_backend::system_info::{Query, RefreshKey, RefreshSchedule};

#[test]
fn test_system_info() {
    let info = Query.system_info();
    let _ = (&info.memory, &info.system);
    let mut schedule = RefreshSchedule::new(1_000, 500);
    assert!(!schedule.is_due(RefreshKey::Memory, 1_500));
    assert!(schedule.is_due(RefreshKey::Memory, 1_501));
    schedule.record(RefreshKey::Memory, 1_501);
    assert!(!schedule.is_due(RefreshKey::Memory, 1_600));
    assert!(schedule.is_due(RefreshKey::Cpu, 1_600));
    assert_eq!(schedule.last_refresh(RefreshKey::Memory), 1_501);
    assert_eq!(schedule.last_refresh(RefreshKey::Disk), 1_000);
}

#[test]
fn refresh_is_not_due_when_clock_reads_earlier() {
    let schedule = RefreshSchedule::new(1_000, 0);
    assert!(!schedule.is_due(RefreshKey::Network, 900));
    assert!(!schedule.is_due(RefreshKey::Network, 1_000));
    assert!(schedule.is_due(RefreshKey::Network, 1_001));
}
