use bounded_str::{AllowAll, BoundedStr, BoundedStrError, Bytes, Chars, FlexStr, StackStr};

#[test]
fn test_constant_time_equality() {
    type Secret = BoundedStr<1, 32, 32, Bytes, AllowAll, true, true>;

    let s1 = Secret::new("password123").unwrap();
    let s2 = Secret::new("password123").unwrap();
    let s3 = Secret::new("wrongpassword").unwrap();

    assert!(s1 == s2);
    assert!(s1 != s3);

    let s4 = Secret::new("pass").unwrap();
    assert!(s1 != s4);
}

#[test]
fn test_zeroize_mutation_failure_cleanup() {
    type Secret = BoundedStr<5, 10, 32, Bytes, AllowAll, true, true>;
    let mut s = Secret::new("valid").unwrap();

    let res = s.mutate(|buf, len| {
        buf[0] = b'X';
        *len = 1;
    });

    assert!(res.is_err());
    assert_eq!(s.as_str(), "valid");
}

#[test]
fn test_alias_zeroize_defaults() {
    let _s: StackStr<1, 10, 10, Bytes, AllowAll, false> = StackStr::new("test").unwrap();

    type MySecret = StackStr<1, 10, 10, Bytes, AllowAll, true>;
    let _sec = MySecret::new("secret").unwrap();
}

#[test]
fn test_flex_str_zeroize() {
    type SecretHeap = FlexStr<1, 100, 10, Bytes, AllowAll, true>;
    let mut s = SecretHeap::new("long_secret_string").unwrap();

    assert!(s.len_bytes() > 10);

    s.mutate(|buf, _len| {
        buf[0] = b'Z';
    })
    .unwrap();

    assert_eq!(&s.as_str()[0..1], "Z");
}

#[test]
fn crash_test_emoji_butcher() {
    type UnicodeStr = StackStr<1, 10, 20, Chars, AllowAll, false>;
    let mut s = UnicodeStr::new("🔥").unwrap();

    let res = s.mutate(|buf, _len| {
        if buf.len() > 1 {
            buf[1] = 0xFF;
        }
    });

    assert!(res.is_err());
    assert_eq!(s.as_str(), "🔥");
}

#[test]
fn crash_test_stack_boundary() {
    type Fixed = StackStr<1, 5, 5, Bytes, AllowAll, false>;
    let mut s = Fixed::new("1234").unwrap();

    let res = s.mutate(|buf, len| {
        for i in 0..5 {
            buf[i] = b'A';
        }
        *len = 6;
    });

    assert!(res.is_err());
    assert_eq!(s.as_str(), "1234");
}

#[test]
fn crash_test_zero_buffer() {
    type HeapOnly = FlexStr<1, 100, 0, Bytes, AllowAll, false>;
    let s = HeapOnly::new("A").expect("Should go to heap instantly");
    assert_eq!(s.as_str(), "A");

    let mut s = s;
    s.mutate(|buf, _len| {
        buf[0] = b'B';
    })
    .unwrap();
    assert_eq!(s.as_str(), "B");
}

#[test]
fn crash_test_heap_overflow() {
    type LimitedFlex = FlexStr<1, 100, 10, Bytes, AllowAll, false>;
    let mut s = LimitedFlex::new("12345678901").unwrap();

    let res = s.mutate(|_buf, len| {
        *len = 200;
    });

    assert!(matches!(res, Err(BoundedStrError::TooManyBytes)));
}
