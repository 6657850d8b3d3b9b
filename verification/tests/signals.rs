use unsegen::signals::{Signal, SIGINT, SIGQUIT, SIGTSTP};

#[test]
fn signal_numbers() {
    assert_eq!(SIGINT::to_sig(), 2);
    assert_eq!(SIGQUIT::to_sig(), 3);
    assert!([13, 18, 20, 24].contains(&SIGTSTP::to_sig()));
}

#[test]
fn signal_default_keys() {
    assert_eq!(SIGINT::default_ctrl_key(), 'c');
    assert_eq!(SIGTSTP::default_ctrl_key(), 'z');
    assert_eq!(SIGQUIT::default_ctrl_key(), '\\');
}
