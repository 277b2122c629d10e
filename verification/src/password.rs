//! Password policy: a password is acceptable when it is long enough and
//! contains at least one uppercase letter, one lowercase letter, one digit,
//! and one special character.

use vstd::prelude::*;

verus! {

/// Reasons a password can fail validation, in the order they are checked.
#[derive(Debug, PartialEq, Eq, Structural, Clone, Copy)]
pub enum PasswordValidationError {
    TooShort(usize),
    NoUppercase,
    NoLowercase,
    NoNumber,
    NoSpecialChar,
}

/// The character classes the policy asks for.
#[derive(Clone, Copy)]
pub enum CharClass {
    Uppercase,
    Lowercase,
    Digit,
    Special,
}

/// Whether `c` belongs to `class`. The special characters are exactly
/// `!@#$%^&*(),.?":{}|<>`.
pub open spec fn char_in_class(c: char, class: CharClass) -> bool {
    match class {
        CharClass::Uppercase => 'A' <= c && c <= 'Z',
        CharClass::Lowercase => 'a' <= c && c <= 'z',
        CharClass::Digit => '0' <= c && c <= '9',
        CharClass::Special => c == '!' || c == '@' || c == '#' || c == '$' || c == '%'
            || c == '^' || c == '&' || c == '*' || c == '(' || c == ')' || c == ','
            || c == '.' || c == '?' || c == '"' || c == ':' || c == '{' || c == '}'
            || c == '|' || c == '<' || c == '>',
    }
}

/// Whether some character of `s` belongs to `class`.
pub open spec fn has_class(s: Seq<char>, class: CharClass) -> bool {
    exists|i: int| 0 <= i < s.len() && char_in_class(s[i], class)
}

/// The validation outcome for a password `s` against a minimum length `min`:
/// the first unmet requirement, checked in the order
/// length, uppercase, lowercase, digit, special character.
pub open spec fn validate_spec(min: usize, s: Seq<char>) -> Result<(), PasswordValidationError> {
    if s.len() < min {
        Err(PasswordValidationError::TooShort(min))
    } else if !has_class(s, CharClass::Uppercase) {
        Err(PasswordValidationError::NoUppercase)
    } else if !has_class(s, CharClass::Lowercase) {
        Err(PasswordValidationError::NoLowercase)
    } else if !has_class(s, CharClass::Digit) {
        Err(PasswordValidationError::NoNumber)
    } else if !has_class(s, CharClass::Special) {
        Err(PasswordValidationError::NoSpecialChar)
    } else {
        Ok(())
    }
}

/// Checks whether `c` belongs to `class`.
fn char_class_check(c: char, class: CharClass) -> (r: bool)
    ensures
        r == char_in_class(c, class),
{
    match class {
        CharClass::Uppercase => 'A' <= c && c <= 'Z',
        CharClass::Lowercase => 'a' <= c && c <= 'z',
        CharClass::Digit => '0' <= c && c <= '9',
        CharClass::Special => c == '!' || c == '@' || c == '#' || c == '$' || c == '%'
            || c == '^' || c == '&' || c == '*' || c == '(' || c == ')' || c == ','
            || c == '.' || c == '?' || c == '"' || c == ':' || c == '{' || c == '}'
            || c == '|' || c == '<' || c == '>',
    }
}

/// Scans `s` for a character of `class`.
fn contains_class(s: &str, class: CharClass) -> (r: bool)
    ensures
        r == has_class(s@, class),
{
    let n = s.unicode_len();
    let mut i: usize = 0;
    while i < n
        invariant
            n == s@.len(),
            0 <= i <= n,
            forall|j: int| 0 <= j < i ==> !char_in_class(s@[j], class),
        decreases n - i,
    {
        let c = s.get_char(i);
        if char_class_check(c, class) {
            return true;
        }
        i = i + 1;
    }
    false
}

/// Validates passwords against a configurable minimum length.
pub struct PasswordValidator {
    min_length: usize,
}

impl Default for PasswordValidator {
    /// The default policy asks for at least 8 characters.
    fn default() -> (r: Self)
        ensures
            r.spec_min_length() == 8,
    {
        Self { min_length: 8 }
    }
}

impl PasswordValidator {
    /// The minimum length this validator asks for.
    pub closed spec fn spec_min_length(&self) -> usize {
        self.min_length
    }

    /// Creates a validator with a custom minimum length.
    pub fn new(min_length: usize) -> (r: Self)
        ensures
            r.spec_min_length() == min_length,
    {
        Self { min_length }
    }


    /// Validates a password, reporting the first unmet requirement.
    pub fn validate_with_details(&self, password: &str) -> (r: Result<
        (),
        PasswordValidationError,
    >)
        ensures
            r == validate_spec(self.spec_min_length(), password@),
    {
        let n = password.unicode_len();
        if n < self.min_length {
            return Err(PasswordValidationError::TooShort(self.min_length));
        }
        if !contains_class(password, CharClass::Uppercase) {
            return Err(PasswordValidationError::NoUppercase);
        }
        if !contains_class(password, CharClass::Lowercase) {
            return Err(PasswordValidationError::NoLowercase);
        }
        if !contains_class(password, CharClass::Digit) {
            return Err(PasswordValidationError::NoNumber);
        }
        if !contains_class(password, CharClass::Special) {
            return Err(PasswordValidationError::NoSpecialChar);
        }
        Ok(())
    }

    /// Whether a password meets the default policy.
    pub fn validate(password: &str) -> (r: bool)
        ensures
            r == (validate_spec(8, password@) is Ok),
    {
        let v = Self::default();
        v.validate_with_details(password).is_ok()
    }

    /// A human-readable description of the policy.
    pub fn requirements() -> &'static str {
        "Password must:
         - Be at least 8 characters long
         - Contain at least one uppercase letter
         - Contain at least one lowercase letter
         - Contain at least one number
         - Contain at least one special character (!@#$%^&*(),.?\":{}|<>)"
    }
}

} // verus!
