use ats_bot::angle::correlation_window;

#[test]
fn windows_of_shifts() {
    assert_eq!(correlation_window(0, 10), Some((0, 0, 10)));
    assert_eq!(correlation_window(3, 10), Some((0, 3, 7)));
    assert_eq!(correlation_window(-3, 10), Some((3, 0, 7)));
    assert_eq!(correlation_window(10, 10), None);
    assert_eq!(correlation_window(-12, 10), None);
    assert_eq!(correlation_window(0, 0), None);
}
