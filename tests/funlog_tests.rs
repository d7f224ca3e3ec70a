use funlog::config::{OutputPosition, OutputType};
use funlog::config_builder::{AttrToken, ConfigBuilder};
use funlog::error::ConfigError;
use funlog::funlog;
use funlog::generics_item_fn::GenericsFn;
use funlog::log_template::LogStatement;
use funlog::similarity::suggest_similar_attribute;

fn word(w: &str) -> AttrToken {
    AttrToken::Word(w.to_string())
}

fn func(name: &str, params: &[&str], has_return: bool) -> GenericsFn {
    GenericsFn::new(
        name.to_string(),
        params.iter().map(|p| p.to_string()).collect(),
        has_return,
    )
}

fn args_of(s: &LogStatement) -> Vec<(String, bool)> {
    s.args.iter().map(|a| (a.name.clone(), a.formatted)).collect()
}

#[test]
fn test_debug_build_behavior() {
    let item = func("f", &["x"], false);
    let processed = funlog(true, vec![], Some(item.clone()));
    assert!(
        matches!(processed, Ok(Some(_))),
        "Debug build - funlog should process functions"
    );
    let passed = funlog(false, vec![], Some(item));
    assert!(
        matches!(passed, Ok(None)),
        "Release build - funlog should pass through functions"
    );
}

#[test]
fn test_integration_with_config_builder() {
    let generics_fn = func("integration_test", &["x", "y"], true);
    let meta_list = vec![word("debug"), word("all"), word("retVal")];

    let config_builder = ConfigBuilder::from(meta_list, generics_fn);
    assert!(config_builder.is_ok());

    let config = config_builder.unwrap().build();
    assert!(config.is_ok());

    let output = config.unwrap().to_output();
    assert!(!output.inner_func_name.is_empty());
}

#[test]
fn test_error_handling_integration() {
    let generics_fn = func("error_test", &[], false);
    let meta_list = vec![word("debug"), word("info")];

    let result = ConfigBuilder::from(meta_list, generics_fn);
    assert!(result.is_err());

    match result.unwrap_err() {
        ConfigError::ConflictingOptions { .. } => {}
        _ => panic!("Expected ConflictingOptions error"),
    }
}

#[test]
fn test_valid_configurations() {
    assert!(matches!(funlog(true, vec![word("debug")], Some(func("valid_simple", &[], false))), Ok(Some(_))));
    assert!(matches!(
        funlog(true, vec![word("info"), word("all")], Some(func("valid_with_all_params", &["a", "b"], false))),
        Ok(Some(_))
    ));
    assert!(matches!(
        funlog(
            true,
            vec![word("warn"), AttrToken::list("params".to_string(), "a")],
            Some(func("valid_with_specific_params", &["a", "b"], false))
        ),
        Ok(Some(_))
    ));
    assert!(matches!(
        funlog(
            true,
            vec![word("error"), word("onStart"), word("retVal")],
            Some(func("valid_complex", &[], true))
        ),
        Ok(Some(_))
    ));
}

#[test]
fn test_valid_usage() {
    assert!(matches!(funlog(true, vec![word("debug")], Some(func("simple_debug", &[], false))), Ok(Some(_))));
    assert!(matches!(
        funlog(true, vec![word("info"), word("all")], Some(func("with_all_params", &["a", "b"], false))),
        Ok(Some(_))
    ));
    assert!(matches!(
        funlog(
            true,
            vec![word("warn"), AttrToken::list("params".to_string(), "name")],
            Some(func("with_specific_param", &["name", "age"], false))
        ),
        Ok(Some(_))
    ));
    assert!(matches!(
        funlog(
            true,
            vec![word("error"), word("onStart"), word("retVal")],
            Some(func("with_return_value", &[], true))
        ),
        Ok(Some(_))
    ));
}

#[test]
fn not_a_function_is_reported() {
    assert!(matches!(
        funlog(true, vec![word("debug")], None),
        Err(ConfigError::MissingFunction)
    ));
    assert!(matches!(funlog(false, vec![word("debug")], None), Ok(None)));
}

#[test]
fn empty_list_compiles_to_defaults() {
    let config = ConfigBuilder::from(vec![], func("f", &["a", "b"], true))
        .unwrap()
        .build()
        .unwrap();
    assert_eq!(config.output_type, OutputType::Print);
    assert_eq!(config.output_position, OutputPosition::OnStartAndEnd);
    assert!(!config.output_ret_value);
    assert_eq!(config.func_params_for_output, vec!["a".to_string(), "b".to_string()]);
}

#[test]
fn valid_options_take_their_decoded_values() {
    let config = ConfigBuilder::from(
        vec![word("onEnd"), AttrToken::list("params".to_string(), "b"), word("error")],
        func("f", &["a", "b"], true),
    )
    .unwrap()
    .build()
    .unwrap();
    assert_eq!(config.output_type, OutputType::Error);
    assert_eq!(config.output_position, OutputPosition::OnEnd);
    assert_eq!(config.func_params_for_output, vec!["b".to_string()]);
    assert!(!config.output_ret_value);
}

#[test]
fn two_levels_conflict_in_order() {
    let result = ConfigBuilder::from(vec![word("warn"), word("all"), word("trace")], func("f", &[], false));
    match result.unwrap_err() {
        ConfigError::ConflictingOptions { option1, option2 } => {
            assert_eq!(option1, "warn");
            assert_eq!(option2, "trace");
        }
        other => panic!("unexpected {other:?}"),
    }
}

#[test]
fn unknown_parameter_reported_wherever_it_stands() {
    let result = ConfigBuilder::from(
        vec![word("debug"), AttrToken::list("params".to_string(), "z"), word("debug")],
        func("f", &["a", "b"], false),
    );
    match result.unwrap_err() {
        ConfigError::InvalidParameter { param, available } => {
            assert_eq!(param, "z");
            assert_eq!(available, vec!["a".to_string(), "b".to_string()]);
        }
        other => panic!("unexpected {other:?}"),
    }
}

#[test]
fn suggestions_for_misspelled_options() {
    assert_eq!(suggest_similar_attribute("debgu"), Some("debug".to_string()));
    assert_eq!(suggest_similar_attribute("prnit"), Some("print".to_string()));
    assert_eq!(suggest_similar_attribute("onStrat"), Some("onStart".to_string()));
    assert_eq!(suggest_similar_attribute("completely_unknown_xyz"), None);
}

#[test]
fn misspelled_option_carries_its_suggestion() {
    let result = ConfigBuilder::from(vec![word("debgu")], func("f", &[], false));
    match result.unwrap_err() {
        ConfigError::InvalidAttribute { attr, suggestion } => {
            assert_eq!(attr, "debgu");
            assert_eq!(suggestion, Some("debug".to_string()));
        }
        other => panic!("unexpected {other:?}"),
    }
}

#[test]
fn scenario_add_debug_all() {
    let plan = funlog(true, vec![word("debug"), word("all")], Some(func("add", &["a", "b"], true)))
        .unwrap()
        .unwrap();
    let start = plan.func_output_start.unwrap();
    assert_eq!(start.method, "log::debug");
    assert_eq!(start.template, "add [in ]: a:{}, b:{}");
    assert_eq!(args_of(&start), vec![("a".to_string(), true), ("b".to_string(), true)]);
    let end = plan.func_output_end.unwrap();
    assert_eq!(end.method, "log::debug");
    assert_eq!(end.template, "add [out]");
    assert!(end.args.is_empty());
    assert_eq!(plan.inner_func_name, "__add__");
    assert_eq!(plan.invoke_args, vec!["a".to_string(), "b".to_string()]);
}

#[test]
fn scenario_power_warn_params_ret_on_end() {
    let plan = funlog(
        true,
        vec![
            word("warn"),
            AttrToken::list("params".to_string(), "x"),
            word("retVal"),
            word("onEnd"),
        ],
        Some(func("power", &["x", "y"], true)),
    )
    .unwrap()
    .unwrap();
    assert!(plan.func_output_start.is_none());
    let end = plan.func_output_end.unwrap();
    assert_eq!(end.method, "log::warn");
    assert_eq!(end.template, "power [out]: x:{}, return:{}");
    assert_eq!(
        args_of(&end),
        vec![("__x_value__".to_string(), false), ("output".to_string(), true)]
    );
    assert_eq!(plan.saved_params, vec!["x".to_string()]);
    assert_eq!(plan.saved_param_values, vec!["__x_value__".to_string()]);
}

#[test]
fn scenario_hello_info() {
    let plan = funlog(true, vec![word("info")], Some(func("hello", &[], false)))
        .unwrap()
        .unwrap();
    let start = plan.func_output_start.unwrap();
    assert_eq!(start.method, "log::info");
    assert_eq!(start.template, "hello [in ]");
    assert!(start.args.is_empty());
    let end = plan.func_output_end.unwrap();
    assert_eq!(end.method, "log::info");
    assert_eq!(end.template, "hello [out]");
    assert!(end.args.is_empty());
}

#[test]
fn scenario_all_none_conflict() {
    let result = funlog(true, vec![word("all"), word("none")], Some(func("f", &["a"], false)));
    match result.unwrap_err() {
        ConfigError::ConflictingOptions { option1, option2 } => {
            assert_eq!(option1, "all");
            assert_eq!(option2, "none");
        }
        other => panic!("unexpected {other:?}"),
    }
}

#[test]
fn scenario_nonexistent_parameter() {
    let result = funlog(
        true,
        vec![AttrToken::list("params".to_string(), "nonexistent")],
        Some(func("f", &["valid_param"], false)),
    );
    match result.unwrap_err() {
        ConfigError::InvalidParameter { param, available } => {
            assert_eq!(param, "nonexistent");
            assert_eq!(available, vec!["valid_param".to_string()]);
        }
        other => panic!("unexpected {other:?}"),
    }
}

#[test]
fn ret_val_ignored_without_return_value() {
    let plan = funlog(true, vec![word("retVal")], Some(func("f", &["a"], false)))
        .unwrap()
        .unwrap();
    assert_eq!(plan.func_output_end.unwrap().template, "f [out]");
}
