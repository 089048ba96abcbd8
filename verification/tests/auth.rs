use capycoin::auth::{AuthError, Token};

#[test]
fn test_token_new() {
    let t1 = Token::new();
    let t2 = Token::new();
    assert_eq!(t1.bytes.len(), 128);
    assert_ne!(t1, t2);
}

#[test]
fn test_token_to_string() {
    let s = Token::new().to_hex_string().unwrap();
    println!("{}", s);
    assert_eq!(s.len(), 256);
}

#[test]
fn test_token_from_string() {
    let t = Token::new();
    let s = t.to_hex_string().unwrap();
    let t2 = Token::from_hex_string(s).expect("should have converted");
    assert_eq!(t, t2);
}

#[test]
fn test_token_from_string_invalid_length() {
    let result = Token::from_hex_string("BLAHBLAH".to_string());
    assert_eq!(result, Err(AuthError::TokenLengthError));
}

#[test]
fn test_token_from_string_invalid_encoding() {
    let tok = "AAAAAAAAAAAAAAAAAAAAAAAAAAAAAAAAAAAAAAAAAAAAAAAAAAAAAAAAAAAAAAAAAAAAAAAAAAAAAAAAAAAAAAAAAAAAAAAAAAAAAAAAAAAAAAAAAAAAAAAAAAAAAAAAAAAAAAAAAAAAAAAAAAAAAAAAAAAAAAAAAAAAAAAAAAAAAAAAAAAAAAAAAAAAAAAAAAAAAAAAAAAAAAAAAAAAAAAAAAAAAAAAAAAAAAAAAAAAAAAAAAAAAAAAAAAAAAAX".to_string();
    let result = Token::from_hex_string(tok);
    assert!(result.is_err());
    assert_eq!(
        format!("{:?}", result),
        "Err(TokenParseError(ParseIntError { kind: InvalidDigit }))"
    );
}

#[test]
fn test_token_known_bytes_hex() {
    let token = Token { bytes: vec![0xABu8; 128] };
    let s = token.to_hex_string().unwrap();
    assert_eq!(s.len(), 256);
    assert!(s.chars().all(|c| c == 'A' || c == 'B'));
    assert_eq!(&s[0..4], "ABAB");
}
