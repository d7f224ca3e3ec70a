use funlog::error::ConfigError;

#[test]
fn test_already_set_error() {
    let error = ConfigError::AlreadySet("test field");
    let message = error.message();
    assert!(message.contains("test field"));
    assert!(message.contains("already been set"));
    assert!(message.contains("💡 Hint"));
}

#[test]
fn test_invalid_parameter_error_with_available() {
    let error = ConfigError::InvalidParameter {
        param: "invalid_param".to_string(),
        available: vec!["x".to_string(), "y".to_string()],
    };
    let message = error.message();
    assert!(message.contains("invalid_param"));
    assert!(message.contains("x, y"));
    assert!(message.contains("💡 Hint"));
}

#[test]
fn test_invalid_parameter_error_no_available() {
    let error = ConfigError::InvalidParameter {
        param: "invalid_param".to_string(),
        available: vec![],
    };
    let message = error.message();
    assert!(message.contains("invalid_param"));
    assert!(message.contains("no parameters"));
    assert!(message.contains("💡 Hint"));
}

#[test]
fn test_invalid_attribute_error_with_suggestion() {
    let error = ConfigError::InvalidAttribute {
        attr: "debg".to_string(),
        suggestion: Some("debug".to_string()),
    };
    let message = error.message();
    assert!(message.contains("debg"));
    assert!(message.contains("debug"));
    assert!(message.contains("💡 Hint"));
    assert!(message.contains("📖 Available"));
}

#[test]
fn test_invalid_attribute_error_no_suggestion() {
    let error = ConfigError::InvalidAttribute {
        attr: "unknown".to_string(),
        suggestion: None,
    };
    let message = error.message();
    assert!(message.contains("unknown"));
    assert!(message.contains("📖 Available"));
}

#[test]
fn test_parse_error() {
    let error = ConfigError::ParseError("test parse error".to_string());
    let message = error.message();
    assert!(message.contains("test parse error"));
    assert!(message.contains("💡 Hint"));
}

#[test]
fn test_conflicting_options_error() {
    let error = ConfigError::ConflictingOptions {
        option1: "debug".to_string(),
        option2: "info".to_string(),
    };
    let message = error.message();
    assert!(message.contains("debug"));
    assert!(message.contains("info"));
    assert!(message.contains("cannot be used together"));
    assert!(message.contains("💡 Hint"));
}

#[test]
fn test_missing_function_error() {
    let error = ConfigError::MissingFunction;
    let message = error.message();
    assert!(message.contains("can only be used on functions"));
    assert!(message.contains("💡 Hint"));
}

#[test]
fn test_invalid_parameter_syntax_error() {
    let error = ConfigError::InvalidParameterSyntax {
        param: "bad_syntax".to_string(),
        expected: "param(name)".to_string(),
    };
    let message = error.message();
    assert!(message.contains("bad_syntax"));
    assert!(message.contains("param(name)"));
    assert!(message.contains("💡 Hint"));
}

#[test]
fn test_error_trait_implementation() {
    // The diagnostic is reported through its Debug form and its message.
    let error = ConfigError::MissingFunction;
    let _: &dyn std::fmt::Debug = &error;
    assert!(!error.message().is_empty());
}

#[test]
fn test_clone_and_debug() {
    let error = ConfigError::AlreadySet("test");
    let cloned = error.clone();

    let debug_str = format!("{error:?}");
    assert!(debug_str.contains("AlreadySet"));

    assert!(matches!(cloned, ConfigError::AlreadySet("test")));
}

#[test]
fn invalid_parameter_message_exact() {
    let error = ConfigError::InvalidParameter {
        param: "z".to_string(),
        available: vec!["x".to_string(), "y".to_string()],
    };
    assert_eq!(
        error.message(),
        "funlog parameter error: parameter 'z' does not exist\n💡 Hint: Available parameters are: x, y\n   Correct usage: #[funlog(params(x, y))]"
    );
}

#[test]
fn conflicting_options_message_exact() {
    let error = ConfigError::ConflictingOptions {
        option1: "all".to_string(),
        option2: "none".to_string(),
    };
    assert_eq!(
        error.message(),
        "funlog configuration conflict: 'all' and 'none' cannot be used together\n💡 Hint: Please choose one of the options"
    );
}

#[test]
fn invalid_attribute_message_exact() {
    let error = ConfigError::InvalidAttribute {
        attr: "debgu".to_string(),
        suggestion: Some("debug".to_string()),
    };
    assert_eq!(
        error.message(),
        "funlog configuration error: unknown configuration option 'debgu'\n💡 Hint: Did you mean 'debug'?\n📖 Available configuration options:\n   Log levels: print, trace, debug, info, warn, error\n   Parameter control: all, none, params(parameter_names...)\n   Position control: onStart, onEnd, onStartEnd\n   Return value: retVal"
    );
}
