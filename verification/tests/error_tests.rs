use pwdg::{Category, Error, MIN_LENGTH};

#[test]
fn test_length_error_display() {
    let error = Error::Length;
    assert!(error.message().contains(&format!(
        "Password length must be at least {} characters.",
        MIN_LENGTH
    )));
}

#[test]
fn test_min_limit_exceeded_error_display() {
    let error = Error::MinLimitExceeded;
    assert!(error
        .message()
        .contains("Sum of minimum character requirements exceeds password length."));
}

#[test]
fn test_insufficient_characters_error_display() {
    let error = Error::InsufficientCharacters(Category::Upper);
    assert!(error
        .message()
        .contains("Insufficient characters available for upper"));
}

#[test]
fn test_category_names() {
    assert_eq!(Category::Upper.name(), "upper");
    assert_eq!(Category::Lower.name(), "lower");
    assert_eq!(Category::Digit.name(), "digit");
    assert_eq!(Category::Special.name(), "special");
}

#[test]
fn test_exact_messages() {
    assert_eq!(
        Error::Length.message(),
        "Password length must be at least 8 characters. [Error::Length]"
    );
    assert_eq!(
        Error::MinLimitExceeded.message(),
        "Sum of minimum character requirements exceeds password length. [Error::MinLimitExceeded]"
    );
    assert_eq!(
        Error::InsufficientCharacters(Category::Digit).message(),
        "Insufficient characters available for digit. [Error::InsufficientCharacters]"
    );
    assert_eq!(
        Error::EmptyAlphabet.message(),
        "No characters remain to draw a password from. [Error::EmptyAlphabet]"
    );
}
