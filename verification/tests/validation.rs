use bounded_str::{AsciiOnly, BoundedStr, BoundedStrError, Chars, TokenPolicy};

type Username = BoundedStr<3, 16, 32, Chars, AsciiOnly, false, true>;
type Token = BoundedStr<1, 128, 128, Chars, TokenPolicy, false, true>;

fn json_pair(username: &str, token: &str) -> String {
    let mut fields = serde_json::Map::new();
    fields.insert("username".to_string(), serde_json::Value::String(username.to_string()));
    fields.insert("token".to_string(), serde_json::Value::String(token.to_string()));
    serde_json::Value::Object(fields).to_string()
}

fn text_field(parsed: &serde_json::Value, name: &str) -> String {
    parsed.get(name).and_then(|v| v.as_str()).expect("a text field").to_string()
}

#[test]
fn test_valid_username_and_token() {
    let username = "Alice123";
    let token = "a1b2c3d4e5";

    let u = Username::new(username).expect("Valid username should pass");
    let t = Token::new(token).expect("Valid token should pass");

    assert_eq!(u.as_str(), username);
    assert_eq!(t.as_str(), token);
}

#[test]
fn test_username_too_short() {
    let err = Username::new("Al").unwrap_err();
    assert!(matches!(err, BoundedStrError::TooShort));
}

#[test]
fn test_username_too_long() {
    let long = "A".repeat(17);
    let err = Username::new(&long).unwrap_err();
    assert!(matches!(err, BoundedStrError::TooLong));
}

#[test]
fn test_username_invalid_chars() {
    let err = Username::new("Bob🔥").unwrap_err();
    assert!(matches!(err, BoundedStrError::InvalidContent));
}

#[test]
fn test_token_too_long() {
    let long_token = "a".repeat(129);
    let err = Token::new(&long_token).unwrap_err();
    assert!(matches!(err, BoundedStrError::TooLong | BoundedStrError::TooManyBytes));
}

#[test]
fn test_token_invalid_chars() {
    let err = Token::new("🔥🔥🔥").unwrap_err();
    assert!(matches!(err, BoundedStrError::InvalidContent));
}

#[test]
fn test_json_parsing_valid() {
    let json_data = json_pair("Alice", "abc123XYZ");

    let parsed: serde_json::Value = serde_json::from_str(&json_data).expect("JSON should parse");
    let _u = Username::new(&text_field(&parsed, "username")).expect("Username valid");
    let _t = Token::new(&text_field(&parsed, "token")).expect("Token valid");
}

#[test]
fn test_json_parsing_invalid_username() {
    let json_data = json_pair("Al", "abc123");

    let parsed: serde_json::Value = serde_json::from_str(&json_data).expect("JSON should parse");
    let err = Username::new(&text_field(&parsed, "username")).unwrap_err();
    assert!(matches!(err, BoundedStrError::TooShort));
}

#[test]
fn test_json_parsing_invalid_token() {
    let json_data = json_pair("Alice", "🔥🔥🔥");

    let parsed: serde_json::Value = serde_json::from_str(&json_data).expect("JSON should parse");
    let err = Token::new(&text_field(&parsed, "token")).unwrap_err();
    assert!(matches!(err, BoundedStrError::InvalidContent));
}
