use fnb_costing::{
    hide_soft_input, set_android_app, show_flags, show_soft_input, try_init_from_eframe,
};

#[test]
fn an_implicit_request_carries_the_implicit_flag() {
    assert_eq!(show_flags(true), 1);
}

#[test]
fn an_explicit_request_carries_no_flag() {
    assert_eq!(show_flags(false), 0);
}

#[test]
fn requests_succeed_without_a_keyboard() {
    set_android_app(());
    try_init_from_eframe();
    assert!(show_soft_input(true).is_ok());
    assert!(show_soft_input(false).is_ok());
    assert!(hide_soft_input().is_ok());
}
