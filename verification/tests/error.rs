use scafalra::error::{missing_template_message, ScafalraError};

#[test]
fn each_error_has_its_sentence() {
    assert_eq!(
        ScafalraError::ParseError("a b".to_string()).message(),
        "Could not parse the input: `a b`"
    );
    assert_eq!(ScafalraError::NoToken.message(), "No GitHub personal access token configured");
    assert_eq!(
        ScafalraError::ApiError(Some("Bad credentials".to_string())).message(),
        "Call to GitHub api error: Bad credentials"
    );
    assert_eq!(ScafalraError::ApiError(None).message(), "Call to GitHub api error");
    assert_eq!(
        ScafalraError::IoError("No such file or directory (os error 2)".to_string()).message(),
        "No such file or directory (os error 2)"
    );
    assert_eq!(ScafalraError::EmptyArchive.message(), "Empty directory");
    assert_eq!(
        ScafalraError::InvalidArguments("Please provide a new name".to_string()).message(),
        "Please provide a new name"
    );
    assert_eq!(
        ScafalraError::NoSuchTemplate("fop".to_string(), Some("foo".to_string())).message(),
        "No such template `fop`\nA similar template is `foo`"
    );
    assert_eq!(
        ScafalraError::NoSuchTemplate("fop".to_string(), None).message(),
        "No such template `fop`"
    );
}

#[test]
fn missing_template_is_told_with_or_without_a_suggestion() {
    assert_eq!(missing_template_message("", None), "No such template ``");
    assert_eq!(
        missing_template_message("a`b", Some("c")),
        "No such template `a`b`\nA similar template is `c`"
    );
}
