use libchip8::mode::RunMode;

#[test]
fn from_none_test() {
    assert_eq!(RunMode::Normal, RunMode::from(None));
}

#[test]
fn from_some_test() {
    assert_eq!(RunMode::Stepwise, RunMode::from(Some(&String::from("-s"))));
}
