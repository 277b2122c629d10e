use chatcore::password::PasswordValidationError;
use chatcore::password::PasswordValidator;

#[test]
fn default_policy_accepts_strong_password() {
    assert!(PasswordValidator::validate("Aa1!aaaa"));
}

#[test]
fn too_short_is_reported_first() {
    let v = PasswordValidator::new(8);
    assert_eq!(
        v.validate_with_details("Aa1!"),
        Err(PasswordValidationError::TooShort(8))
    );
}

#[test]
fn missing_uppercase() {
    let v = PasswordValidator::new(8);
    assert_eq!(
        v.validate_with_details("aa1!aaaa"),
        Err(PasswordValidationError::NoUppercase)
    );
}

#[test]
fn missing_lowercase() {
    let v = PasswordValidator::new(8);
    assert_eq!(
        v.validate_with_details("AA1!AAAA"),
        Err(PasswordValidationError::NoLowercase)
    );
}

#[test]
fn missing_digit() {
    let v = PasswordValidator::new(8);
    assert_eq!(
        v.validate_with_details("Aa!aaaaa"),
        Err(PasswordValidationError::NoNumber)
    );
}

#[test]
fn missing_special_character() {
    let v = PasswordValidator::new(8);
    assert_eq!(
        v.validate_with_details("Aa1aaaaa"),
        Err(PasswordValidationError::NoSpecialChar)
    );
}

#[test]
fn every_listed_special_character_counts() {
    let specials = "!@#$%^&*(),.?\":{}|<>";
    for c in specials.chars() {
        let candidate = format!("Aa1{}aaaa", c);
        assert!(PasswordValidator::validate(&candidate), "rejected {}", c);
    }
}

#[test]
fn custom_minimum_length() {
    let v = PasswordValidator::new(12);
    assert_eq!(
        v.validate_with_details("Aa1!aaaa"),
        Err(PasswordValidationError::TooShort(12))
    );
    assert_eq!(v.validate_with_details("Aa1!aaaaaaaa"), Ok(()));
}

#[test]
fn requirements_text_mentions_every_rule() {
    let text = PasswordValidator::requirements();
    assert!(text.contains("8 characters"));
    assert!(text.contains("uppercase"));
    assert!(text.contains("lowercase"));
    assert!(text.contains("number"));
    assert!(text.contains("special character"));
}
