use pwdg::charset::{digit_domain, lower_domain, special_domain, upper_domain};
use pwdg::{gen, Error, PwdGen, PwdGenOptions, MIN_LENGTH};

fn count_chars<F>(input: &str, f: F) -> usize
where
    F: Fn(&char) -> bool,
{
    input.chars().filter(f).count()
}

#[test]
fn test_minimum_character_types() {
    let options = PwdGenOptions {
        min_upper: 2,
        min_lower: 2,
        min_digit: 2,
        min_special: 2,
        exclude: None,
    };
    let password = gen(12, Some(options)).unwrap();
    assert!(count_chars(&password, |c| c.is_uppercase()) >= 2);
    assert!(count_chars(&password, |c| c.is_lowercase()) >= 2);
    assert!(count_chars(&password, |c| c.is_digit(10)) >= 2);
    assert!(count_chars(&password, |c| special_domain().contains(c)) >= 2);
}

fn test_exclusion_logic(exclude_chars: &str, expected_chars: &[char]) {
    let options = PwdGenOptions {
        exclude: Some(String::from(exclude_chars)),
        ..Default::default()
    };
    let password = gen(MIN_LENGTH, Some(options)).unwrap();
    for &c in expected_chars {
        assert!(
            !password.contains(c),
            "Password should not contain the excluded character '{}'",
            c
        );
    }
}

#[test]
fn test_exclusion_of_single_character() {
    test_exclusion_logic("Z", &['Z']);
}

#[test]
fn test_exclusion_of_some_special_characters() {
    let exclude_chars = "#$%&";
    test_exclusion_logic(exclude_chars, &exclude_chars.chars().collect::<Vec<_>>());
}

#[test]
fn test_exclusion_of_all_special_characters() {
    let exclude_chars: String = special_domain().iter().collect();
    test_exclusion_logic(&exclude_chars, &special_domain());
}

#[test]
fn test_strong_password_option() {
    let options = PwdGenOptions {
        min_upper: 1,
        min_lower: 1,
        min_digit: 1,
        min_special: 1,
        exclude: None,
    };
    let password = gen(MIN_LENGTH, Some(options)).unwrap();

    assert!(
        password.chars().any(|c| c.is_uppercase()),
        "Password must contain at least one uppercase letter."
    );
    assert!(
        password.chars().any(|c| c.is_lowercase()),
        "Password must contain at least one lowercase letter."
    );
    assert!(
        password.chars().any(|c| c.is_digit(10)),
        "Password must contain at least one digit."
    );
    assert!(
        password.chars().any(|c| special_domain().contains(&c)),
        "Password must contain at least one special character."
    );
}

#[test]
fn test_custom_options_output_length() {
    let options = PwdGenOptions {
        min_upper: 3,
        min_lower: 3,
        min_digit: 3,
        min_special: 3,
        exclude: None,
    };
    let password = gen(15, Some(options)).unwrap();
    assert_eq!(password.chars().count(), 15);
}

#[test]
fn test_empty_alphabet_error() {
    let mut everything = String::new();
    for c in upper_domain() {
        everything.push(c);
    }
    for c in lower_domain() {
        everything.push(c);
    }
    for c in digit_domain() {
        everything.push(c);
    }
    for c in special_domain() {
        everything.push(c);
    }
    let options = PwdGenOptions {
        exclude: Some(everything),
        ..Default::default()
    };
    let result = gen(MIN_LENGTH, Some(options));
    assert!(matches!(result, Err(Error::EmptyAlphabet)));
}

#[test]
fn test_overflowing_minimums_rejected() {
    let options = PwdGenOptions {
        min_upper: usize::MAX,
        min_lower: usize::MAX,
        min_digit: 1,
        min_special: 0,
        exclude: None,
    };
    let result = gen(10, Some(options));
    assert!(matches!(result, Err(Error::MinLimitExceeded)));
}

#[test]
fn test_validation_idempotent_on_success() {
    let options = PwdGenOptions {
        min_upper: 1,
        min_lower: 1,
        min_digit: 1,
        min_special: 1,
        exclude: Some(String::from("Aa0!")),
    };
    let first = PwdGen::new(10, Some(options.clone()));
    let second = PwdGen::new(10, Some(options));
    assert!(first.is_ok());
    assert!(second.is_ok());
}

#[test]
fn test_validation_idempotent_on_failure() {
    let options = PwdGenOptions {
        min_upper: 6,
        min_lower: 6,
        min_digit: 0,
        min_special: 0,
        exclude: None,
    };
    let first = PwdGen::new(10, Some(options.clone()));
    let second = PwdGen::new(10, Some(options));
    assert!(matches!(first, Err(Error::MinLimitExceeded)));
    assert!(matches!(second, Err(Error::MinLimitExceeded)));
}

#[test]
fn test_generate_once_length_and_exclusion() {
    let options = PwdGenOptions {
        exclude: Some(String::from("ABCD")),
        ..Default::default()
    };
    let password = gen(15, Some(options)).unwrap();
    assert_eq!(password.len(), 15, "Password length should be 15.");
    for c in "ABCD".chars() {
        assert!(
            !password.contains(c),
            "Password should not contain the excluded character '{}'",
            c
        );
    }
}

#[test]
fn test_gen_rejects_short_length() {
    let result = gen(7, None);
    assert!(matches!(result, Err(Error::Length)));
}
