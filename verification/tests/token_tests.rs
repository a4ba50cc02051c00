use quickurl::token::TokenGenerator;

#[test]
fn test_token_generation() {
    let generator = TokenGenerator::new();
    let token = generator.generate();

    assert_eq!(token.len(), 6);
    assert!(token.chars().all(|c| c.is_alphanumeric()));
}

#[test]
fn test_custom_length() {
    let generator = TokenGenerator::with_length(10);
    let token = generator.generate();

    assert_eq!(token.len(), 10);
}

#[test]
fn test_tokens_drawn_from_alphabet() {
    let generator = TokenGenerator::with_length(64);
    let token = generator.generate();

    assert_eq!(token.len(), 64);
    assert!(token
        .chars()
        .all(|c| c.is_ascii_uppercase() || c.is_ascii_lowercase() || c.is_ascii_digit()));
}

#[test]
fn test_zero_length_token() {
    let generator = TokenGenerator::with_length(0);
    assert_eq!(generator.generate(), "");
}
