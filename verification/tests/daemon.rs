use autocoder::daemon::{request_shutdown, reset_for_test, ShutdownFlag};

#[test]
fn shutdown_requested_default_is_false() {
    let mut flag = ShutdownFlag::new();
    reset_for_test(&mut flag);
    assert!(!flag.is_requested(), "SHUTDOWN_REQUESTED must default to false");
}

#[test]
fn sigterm_handler_shape_flips_flag() {
    let mut flag = ShutdownFlag::new();
    reset_for_test(&mut flag);
    assert!(!flag.is_requested(), "precondition: flag is false before handler fires");
    request_shutdown(&mut flag);
    assert!(
        flag.is_requested(),
        "SHUTDOWN_REQUESTED must be true after the handler's first action"
    );
    request_shutdown(&mut flag);
    assert!(flag.is_requested());
    reset_for_test(&mut flag);
    assert!(!flag.is_requested());
}
