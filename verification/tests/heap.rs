use bounded_str::{AllowAll, BoundedStrError, Bytes, FlexStr, TokenPolicy};

type HtmlBody = FlexStr<0, 65536, 4096, Bytes, AllowAll, false>;
type BigToken = FlexStr<1, 2048, 128, Bytes, TokenPolicy, false>;

#[test]
fn heap_small_stays_stack() {
    let s = "short content";
    let b = HtmlBody::new(s).expect("Small string should fit on stack");
    assert_eq!(b.as_str(), s);
    assert!(b.len_bytes() <= 4096);
}

#[test]
fn heap_large_fallback_to_heap() {
    let large = "A".repeat(5000);
    let b = HtmlBody::new(&large).expect("Large string should allocate heap");
    assert_eq!(b.len_bytes(), 5000);
    assert_eq!(b.as_str(), large);
}

#[test]
fn heap_max_allowed_length() {
    let max = "B".repeat(65536);
    let b = HtmlBody::new(&max).expect("Max allowed string");
    assert_eq!(b.len_bytes(), 65536);
    assert_eq!(b.as_str(), max);
}

#[test]
fn heap_too_long_error() {
    let too_long = "C".repeat(65537);
    let err = HtmlBody::new(&too_long).unwrap_err();
    assert!(matches!(err, BoundedStrError::TooLong | BoundedStrError::TooManyBytes));
}

#[test]
fn heap_token_validation() {
    let valid_token = "abc123XYZ";
    let invalid_token = "🔥🔥🔥";

    let t = BigToken::new(valid_token).expect("Valid token passes");
    assert_eq!(t.as_str(), valid_token);

    let err = BigToken::new(invalid_token).unwrap_err();
    assert!(matches!(err, BoundedStrError::InvalidContent));
}

#[test]
fn mutate_heap_string() {
    let mut b = HtmlBody::new("Hello world").unwrap();
    let res = b
        .mutate(|buf, _len| {
            buf[0] = b'J';
            42
        })
        .unwrap();
    assert_eq!(res, 42);
    assert_eq!(b.as_str(), "Jello world");
}
