use delivery_service::container::Status;

#[test]
fn running_and_restarting_count_as_running() {
    assert!(Status::Running.is_running());
    assert!(Status::Restarting.is_running());
}

#[test]
fn every_other_state_does_not() {
    for status in [
        Status::Created,
        Status::Paused,
        Status::Removing,
        Status::Exited,
        Status::Dead,
        Status::Unknown(String::from("running")),
    ] {
        assert!(!status.is_running());
    }
}
