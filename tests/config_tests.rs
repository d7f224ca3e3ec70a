use funlog::config::{Config, OutputPosition, OutputType};

fn create_test_config() -> Config {
    Config {
        output_position: OutputPosition::OnStartAndEnd,
        output_type: OutputType::Debug,
        output_ret_value: true,
        func_name: "test_func".to_string(),
        func_params_for_output: vec!["x".to_string(), "y".to_string()],
        func_params_for_invoke: vec!["x".to_string(), "y".to_string()],
        func_has_return: true,
    }
}

#[test]
fn test_output_position_debug() {
    let pos = OutputPosition::OnStart;
    assert!(matches!(pos, OutputPosition::OnStart));

    let pos = OutputPosition::OnEnd;
    assert!(matches!(pos, OutputPosition::OnEnd));

    let pos = OutputPosition::OnStartAndEnd;
    assert!(matches!(pos, OutputPosition::OnStartAndEnd));
}

#[test]
fn test_output_type_debug() {
    let output_type = OutputType::Debug;
    assert!(matches!(output_type, OutputType::Debug));

    let output_type = OutputType::Info;
    assert!(matches!(output_type, OutputType::Info));

    let output_type = OutputType::Print;
    assert!(matches!(output_type, OutputType::Print));
}

#[test]
fn test_config_to_output() {
    let config = create_test_config();
    let output = config.to_output();

    assert!(!output.inner_func_name.is_empty());
    assert_eq!(output.inner_func_name, "__test_func__");
    assert_eq!(output.invoke_args, vec!["x".to_string(), "y".to_string()]);
}

#[test]
fn test_config_with_different_positions() {
    let mut config = create_test_config();

    config.output_position = OutputPosition::OnStart;
    let output = config.to_output();
    assert!(output.func_output_start.is_some());

    config.output_position = OutputPosition::OnEnd;
    let output = config.to_output();
    assert!(output.func_output_end.is_some());

    config.output_position = OutputPosition::OnStartAndEnd;
    let output = config.to_output();
    assert!(output.func_output_start.is_some());
    assert!(output.func_output_end.is_some());
}

#[test]
fn test_config_with_different_output_types() {
    let mut config = create_test_config();

    config.output_type = OutputType::Print;
    let output = config.to_output();
    assert_eq!(output.func_output_start.unwrap().method, "println");

    config.output_type = OutputType::Error;
    let output = config.to_output();
    assert_eq!(output.func_output_start.unwrap().method, "log::error");

    config.output_type = OutputType::Warn;
    let output = config.to_output();
    assert_eq!(output.func_output_start.unwrap().method, "log::warn");

    config.output_type = OutputType::Info;
    let output = config.to_output();
    assert_eq!(output.func_output_start.unwrap().method, "log::info");

    config.output_type = OutputType::Trace;
    let output = config.to_output();
    assert_eq!(output.func_output_start.unwrap().method, "log::trace");
}

#[test]
fn test_config_with_no_parameters() {
    let config = Config {
        output_position: OutputPosition::OnStartAndEnd,
        output_type: OutputType::Debug,
        output_ret_value: true,
        func_name: "test_func".to_string(),
        func_params_for_output: vec![],
        func_params_for_invoke: vec![],
        func_has_return: true,
    };

    let output = config.to_output();
    assert!(!output.inner_func_name.is_empty());
    assert!(output.saved_params.is_empty());
    assert_eq!(output.func_output_start.unwrap().template, "test_func [in ]");
}

#[test]
fn test_config_with_no_return_value() {
    let config = Config {
        output_position: OutputPosition::OnStartAndEnd,
        output_type: OutputType::Debug,
        output_ret_value: false,
        func_name: "test_func".to_string(),
        func_params_for_output: vec!["x".to_string()],
        func_params_for_invoke: vec!["x".to_string()],
        func_has_return: false,
    };

    let output = config.to_output();
    assert!(!output.inner_func_name.is_empty());
    assert_eq!(output.func_output_end.unwrap().template, "test_func [out]");
}

#[test]
fn on_end_plan_captures_parameter_texts() {
    let config = Config {
        output_position: OutputPosition::OnEnd,
        output_type: OutputType::Warn,
        output_ret_value: true,
        func_name: "power".to_string(),
        func_params_for_output: vec!["x".to_string()],
        func_params_for_invoke: vec!["x".to_string(), "y".to_string()],
        func_has_return: true,
    };
    let output = config.to_output();
    assert_eq!(output.saved_params, vec!["x".to_string()]);
    assert_eq!(output.saved_param_values, vec!["__x_value__".to_string()]);
    assert!(output.func_output_start.is_none());
    let end = output.func_output_end.unwrap();
    assert_eq!(end.template, "power [out]: x:{}, return:{}");
    assert_eq!(end.args.len(), 2);
    assert_eq!(end.args[0].name, "__x_value__");
    assert!(!end.args[0].formatted);
    assert_eq!(end.args[1].name, "output");
    assert!(end.args[1].formatted);
}

#[test]
fn on_start_plan_captures_nothing() {
    let mut config = create_test_config();
    config.output_position = OutputPosition::OnStart;
    let output = config.to_output();
    assert!(output.saved_params.is_empty());
    assert!(output.saved_param_values.is_empty());
    assert!(output.func_output_end.is_none());
}
