use morse_button::modes::{select_mode, Mode, BUTTON_MODE_HOLD, SERIAL_MODE_HOLD};

#[test]
fn a_bounce_selects_nothing() {
    assert_eq!(select_mode(0), None);
    assert_eq!(select_mode(1), None);
    assert_eq!(BUTTON_MODE_HOLD, 1);
}

#[test]
fn a_short_hold_selects_the_button_mode() {
    assert_eq!(select_mode(2), Some(Mode::Button));
    assert_eq!(select_mode(300), Some(Mode::Button));
    assert_eq!(SERIAL_MODE_HOLD, 300);
}

#[test]
fn a_long_hold_selects_the_serial_mode() {
    assert_eq!(select_mode(301), Some(Mode::Serial));
    assert_eq!(select_mode(u32::MAX), Some(Mode::Serial));
}
