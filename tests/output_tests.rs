use funlog::config::Output;
use funlog::log_template::{LogArg, LogStatement};

fn statement(method: &str, template: &str, args: Vec<LogArg>) -> Option<LogStatement> {
    Some(LogStatement {
        method: method.to_string(),
        template: template.to_string(),
        args,
    })
}

#[test]
fn test_output_creation() {
    let output = Output {
        inner_func_name: "__test__".to_string(),
        saved_params: vec![],
        saved_param_values: vec![],
        invoke_args: vec![],
        func_output_start: statement("println", "start", vec![]),
        func_output_end: statement("println", "end", vec![]),
    };

    assert!(!output.inner_func_name.is_empty());
    assert!(output.func_output_start.is_some());
    assert!(output.func_output_end.is_some());
    assert_eq!(output.func_output_start.as_ref().unwrap().template, "start");
    assert_eq!(output.func_output_end.as_ref().unwrap().template, "end");
    assert!(output.invoke_args.is_empty());
}

#[test]
fn test_output_with_empty_components() {
    let output = Output {
        inner_func_name: "__empty__".to_string(),
        saved_params: vec![],
        saved_param_values: vec![],
        invoke_args: vec![],
        func_output_start: None,
        func_output_end: None,
    };

    assert!(output.func_output_start.is_none());
    assert!(output.func_output_end.is_none());
    assert!(!output.inner_func_name.is_empty());
}

#[test]
fn test_output_with_complex_logging() {
    let output = Output {
        inner_func_name: "__complex_func__".to_string(),
        saved_params: vec!["x".to_string(), "y".to_string()],
        saved_param_values: vec!["__x_value__".to_string(), "__y_value__".to_string()],
        invoke_args: vec!["x".to_string(), "y".to_string()],
        func_output_start: statement(
            "log::debug",
            "complex_func [in ]: x:{}, y:{}",
            vec![
                LogArg { name: "x".to_string(), formatted: true },
                LogArg { name: "y".to_string(), formatted: true },
            ],
        ),
        func_output_end: statement(
            "log::debug",
            "complex_func [out]: return:{}",
            vec![LogArg { name: "output".to_string(), formatted: true }],
        ),
    };

    assert!(!output.inner_func_name.is_empty());
    assert_eq!(output.saved_params.len(), 2);
    assert_eq!(output.saved_param_values.len(), 2);
    assert_eq!(output.invoke_args.len(), 2);
    assert_eq!(output.func_output_start.as_ref().unwrap().args.len(), 2);
    assert_eq!(output.func_output_end.as_ref().unwrap().args.len(), 1);
}

#[test]
fn test_output_structure_integrity() {
    let output = Output {
        inner_func_name: "__test__".to_string(),
        saved_params: vec![],
        saved_param_values: vec![],
        invoke_args: vec![],
        func_output_start: statement("println", "start", vec![]),
        func_output_end: statement("println", "end", vec![]),
    };

    assert!(!output.inner_func_name.is_empty());
    assert!(output.func_output_start.is_some());
    assert!(output.func_output_end.is_some());
    assert!(output.saved_params.is_empty());
    assert!(output.saved_param_values.is_empty());
    assert!(output.invoke_args.is_empty());
}
