use termgl::text::push_decimal;

#[test]
fn decimal_digits() {
    let mut buf = b"x=".to_vec();
    push_decimal(&mut buf, 1234567);
    assert_eq!(buf, b"x=1234567".to_vec());
    let mut zero = Vec::new();
    push_decimal(&mut zero, 0);
    assert_eq!(zero, b"0".to_vec());
    let mut max = Vec::new();
    push_decimal(&mut max, u64::MAX);
    assert_eq!(max, u64::MAX.to_string().into_bytes());
}
