//! Decides the text and arguments of the entry and exit log statements.

use vstd::prelude::*;

use crate::config::{OutputPosition, OutputType};
use crate::text::{join, joined};

verus! {

/// One argument of a log statement: an expression name, shown through its
/// `Debug` form when `formatted` holds, or as it is (an already captured
/// text) when it does not.
#[derive(Debug, Clone)]
pub struct LogArg {
    pub name: String,
    pub formatted: bool,
}

/// A log statement: the logging macro to call, its format text and its
/// arguments in order.
#[derive(Debug)]
pub struct LogStatement {
    pub method: String,
    pub template: String,
    pub args: Vec<LogArg>,
}

/// A log statement as plain values: macro, format text and arguments.
pub type StatementView = (Seq<char>, Seq<char>, Seq<(Seq<char>, bool)>);

pub open spec fn args_view(args: Seq<LogArg>) -> Seq<(Seq<char>, bool)> {
    args.map_values(|a: LogArg| (a.name@, a.formatted))
}

impl View for LogStatement {
    type V = StatementView;

    open spec fn view(&self) -> StatementView {
        (self.method@, self.template@, args_view(self.args@))
    }
}

pub open spec fn statement_view(s: Option<LogStatement>) -> Option<StatementView> {
    match s {
        Some(s) => Some(s@),
        None => None,
    }
}

/// The format text and flags from which the log statements of one
/// function are made.
pub struct LogTemplate {
    /// The name of the function being logged.
    pub function_name: String,
    /// `p:{}` for each logged parameter `p`, joined by `, `.
    pub parameters_placeholder: String,
    /// `return:{}` when the function produces a value, else empty.
    pub return_placeholder: String,
    /// Whether some parameter is logged.
    pub has_parameters: bool,
    /// Whether the returned value is logged.
    pub has_return_value: bool,
}

/// A [`LogTemplate`] as plain values.
pub struct TemplateModel {
    pub function_name: Seq<char>,
    pub parameters_placeholder: Seq<char>,
    pub return_placeholder: Seq<char>,
    pub has_parameters: bool,
    pub has_return_value: bool,
}

impl View for LogTemplate {
    type V = TemplateModel;

    open spec fn view(&self) -> TemplateModel {
        TemplateModel {
            function_name: self.function_name@,
            parameters_placeholder: self.parameters_placeholder@,
            return_placeholder: self.return_placeholder@,
            has_parameters: self.has_parameters,
            has_return_value: self.has_return_value,
        }
    }
}

pub open spec fn placeholder_of(p: Seq<char>) -> Seq<char> {
    p + ":{}"@
}

/// `p:{}` for each of `params`, joined by `, `.
pub open spec fn parameters_placeholder_of(params: Seq<Seq<char>>) -> Seq<char> {
    joined(params.map_values(|p: Seq<char>| placeholder_of(p)), ", "@)
}

/// The template of a function `name` that logs `params` and produces a
/// value when `has_return`, the value being shown when `output_ret_value`.
pub open spec fn template_model(
    name: Seq<char>,
    params: Seq<Seq<char>>,
    has_return: bool,
    output_ret_value: bool,
) -> TemplateModel {
    TemplateModel {
        function_name: name,
        parameters_placeholder: parameters_placeholder_of(params),
        return_placeholder: if has_return { "return:{}"@ } else { Seq::empty() },
        has_parameters: params.len() > 0,
        has_return_value: has_return && output_ret_value,
    }
}

/// `name [in ]`, followed by the parameter placeholders when there are any.
pub open spec fn start_text(m: TemplateModel) -> Seq<char> {
    if m.has_parameters {
        m.function_name + " [in ]: "@ + m.parameters_placeholder
    } else {
        m.function_name + " [in ]"@
    }
}

/// `name [out]`, followed by the parameter placeholders (when asked for and
/// there are any) and the return placeholder (when the value is shown).
pub open spec fn end_text(m: TemplateModel, include_params: bool) -> Seq<char> {
    let params = include_params && m.has_parameters;
    if params && m.has_return_value {
        m.function_name + " [out]: "@ + m.parameters_placeholder + ", "@ + m.return_placeholder
    } else if params {
        m.function_name + " [out]: "@ + m.parameters_placeholder
    } else if m.has_return_value {
        m.function_name + " [out]: "@ + m.return_placeholder
    } else {
        m.function_name + " [out]"@
    }
}

/// The logging macro of a sink: the console, or the leveled logger.
pub open spec fn log_method(t: OutputType) -> Seq<char> {
    match t {
        OutputType::Debug => "log::debug"@,
        OutputType::Info => "log::info"@,
        OutputType::Warn => "log::warn"@,
        OutputType::Error => "log::error"@,
        OutputType::Trace => "log::trace"@,
        OutputType::Print => "println"@,
    }
}

/// Each of `names` as an argument, formatted or not.
pub open spec fn name_args(names: Seq<Seq<char>>, formatted: bool) -> Seq<(Seq<char>, bool)> {
    names.map_values(|n: Seq<char>| (n, formatted))
}

/// The argument that shows the returned value, held in `output`.
pub open spec fn return_arg() -> (Seq<char>, bool) {
    ("output"@, true)
}

/// The entry statement: made at `OnStart` and `OnStartAndEnd`; it shows the
/// live parameters `params` when the template logs parameters.
pub open spec fn start_statement(
    m: TemplateModel,
    position: OutputPosition,
    t: OutputType,
    params: Seq<Seq<char>>,
) -> Option<StatementView> {
    if position is OnEnd {
        None
    } else {
        Some(
            (
                log_method(t),
                start_text(m),
                if m.has_parameters { name_args(params, true) } else { Seq::empty() },
            ),
        )
    }
}

/// The exit statement: made at `OnEnd` and `OnStartAndEnd`. At `OnEnd` it
/// shows the captured texts `saved` of the parameters, then the returned
/// value; at `OnStartAndEnd` only the returned value.
pub open spec fn end_statement(
    m: TemplateModel,
    position: OutputPosition,
    t: OutputType,
    saved: Seq<Seq<char>>,
) -> Option<StatementView> {
    let ret = if m.has_return_value { seq![return_arg()] } else { Seq::empty() };
    match position {
        OutputPosition::OnStart => None,
        OutputPosition::OnEnd => Some(
            (
                log_method(t),
                end_text(m, true),
                (if m.has_parameters { name_args(saved, false) } else { Seq::empty() }) + ret,
            ),
        ),
        OutputPosition::OnStartAndEnd => Some((log_method(t), end_text(m, false), ret)),
    }
}

fn name_arg_list(names: &Vec<String>, formatted: bool) -> (r: Vec<LogArg>)
    ensures
        args_view(r@) == name_args(names.deep_view(), formatted),
{
    let mut r: Vec<LogArg> = Vec::new();
    let mut i: usize = 0;
    while i < names.len()
        invariant
            i <= names.len(),
            args_view(r@) == name_args(names.deep_view().take(i as int), formatted),
        decreases names.len() - i,
    {
        let ghost prev = r@;
        r.push(LogArg { name: names[i].clone(), formatted });
        proof {
            assert(args_view(r@) =~= args_view(prev).push((names@[i as int]@, formatted)));
            assert(name_args(names.deep_view().take(i + 1), formatted) =~= name_args(
                names.deep_view().take(i as int),
                formatted,
            ).push((names@[i as int]@, formatted)));
        }
        i = i + 1;
    }
    proof {
        assert(names.deep_view().take(names.len() as int) == names.deep_view());
    }
    r
}

fn return_arg_list(shown: bool) -> (r: Vec<LogArg>)
    ensures
        args_view(r@) == (if shown { seq![return_arg()] } else { Seq::empty() }),
{
    let mut r: Vec<LogArg> = Vec::new();
    if shown {
        r.push(LogArg { name: String::from_str("output"), formatted: true });
    }
    proof {
        assert(args_view(r@) =~= (if shown { seq![return_arg()] } else { Seq::empty() }));
    }
    r
}

impl LogTemplate {
    /// The template of function `function_name` that logs the parameters
    /// `params_for_output`; `has_return` tells whether the function produces
    /// a value and `output_ret_value` whether it is to be shown.
    pub fn new(
        function_name: &str,
        params_for_output: &Vec<String>,
        has_return: bool,
        output_ret_value: bool,
    ) -> (r: LogTemplate)
        ensures
            r@ == template_model(function_name@, params_for_output.deep_view(), has_return, output_ret_value),
    {
        let mut parts: Vec<String> = Vec::new();
        let mut i: usize = 0;
        while i < params_for_output.len()
            invariant
                i <= params_for_output.len(),
                parts.deep_view() == params_for_output.deep_view().take(i as int).map_values(
                    |p: Seq<char>| placeholder_of(p),
                ),
            decreases params_for_output.len() - i,
        {
            let ghost prev = parts.deep_view();
            let mut part = params_for_output[i].clone();
            part.append(":{}");
            parts.push(part);
            proof {
                assert(parts.deep_view() =~= prev.push(placeholder_of(params_for_output@[i as int]@)));
                assert(params_for_output.deep_view().take(i + 1).map_values(|p: Seq<char>| placeholder_of(p))
                    =~= params_for_output.deep_view().take(i as int).map_values(
                    |p: Seq<char>| placeholder_of(p),
                ).push(placeholder_of(params_for_output@[i as int]@)));
            }
            i = i + 1;
        }
        proof {
            assert(params_for_output.deep_view().take(params_for_output.len() as int)
                == params_for_output.deep_view());
        }
        let parameters_placeholder = join(&parts, ", ");
        let return_placeholder = if has_return {
            String::from_str("return:{}")
        } else {
            String::new()
        };
        LogTemplate {
            function_name: String::from_str(function_name),
            parameters_placeholder,
            return_placeholder,
            has_parameters: params_for_output.len() > 0,
            has_return_value: has_return && output_ret_value,
        }
    }

    /// The format text of the entry statement.
    pub fn format_start_template(&self) -> (r: String)
        ensures
            r@ == start_text(self@),
    {
        let mut r = self.function_name.clone();
        if self.has_parameters {
            r.append(" [in ]: ");
            r.append(self.parameters_placeholder.as_str());
        } else {
            r.append(" [in ]");
        }
        r
    }

    /// The format text of the exit statement, with the parameter
    /// placeholders when `include_params` holds.
    pub fn format_end_template(&self, include_params: bool) -> (r: String)
        ensures
            r@ == end_text(self@, include_params),
    {
        let mut r = self.function_name.clone();
        if include_params && self.has_parameters {
            r.append(" [out]: ");
            r.append(self.parameters_placeholder.as_str());
            if self.has_return_value {
                r.append(", ");
                r.append(self.return_placeholder.as_str());
            }
        } else if self.has_return_value {
            r.append(" [out]: ");
            r.append(self.return_placeholder.as_str());
        } else {
            r.append(" [out]");
        }
        r
    }

    /// The logging macro of the sink `output_type`.
    pub fn get_log_method(&self, output_type: OutputType) -> (r: String)
        ensures
            r@ == log_method(output_type),
    {
        match output_type {
            OutputType::Debug => String::from_str("log::debug"),
            OutputType::Info => String::from_str("log::info"),
            OutputType::Warn => String::from_str("log::warn"),
            OutputType::Error => String::from_str("log::error"),
            OutputType::Trace => String::from_str("log::trace"),
            OutputType::Print => String::from_str("println"),
        }
    }

    /// The entry and exit statements for a function logged at
    /// `output_position` to `output_type`: the entry statement shows the
    /// live parameters `entry_params`, the exit statement at `OnEnd` the
    /// captured texts `saved_param_values`.
    pub fn generate_log_statements_with_context(
        &self,
        output_position: OutputPosition,
        output_type: OutputType,
        entry_params: &Vec<String>,
        saved_param_values: &Vec<String>,
    ) -> (r: (Option<LogStatement>, Option<LogStatement>))
        ensures
            statement_view(r.0) == start_statement(
                self@,
                output_position,
                output_type,
                entry_params.deep_view(),
            ),
            statement_view(r.1) == end_statement(
                self@,
                output_position,
                output_type,
                saved_param_values.deep_view(),
            ),
    {
        let start = match output_position {
            OutputPosition::OnEnd => None,
            _ => {
                let args = if self.has_parameters {
                    name_arg_list(entry_params, true)
                } else {
                    let none: Vec<LogArg> = Vec::new();
                    proof {
                        assert(args_view(none@) =~= Seq::<(Seq<char>, bool)>::empty());
                    }
                    none
                };
                Some(
                    LogStatement {
                        method: self.get_log_method(output_type),
                        template: self.format_start_template(),
                        args,
                    },
                )
            },
        };
        let end = match output_position {
            OutputPosition::OnStart => None,
            OutputPosition::OnEnd => {
                let mut args = if self.has_parameters {
                    name_arg_list(saved_param_values, false)
                } else {
                    let none: Vec<LogArg> = Vec::new();
                    proof {
                        assert(args_view(none@) =~= Seq::<(Seq<char>, bool)>::empty());
                    }
                    none
                };
                let ghost first = args@;
                let mut ret = return_arg_list(self.has_return_value);
                let ghost second = ret@;
                args.append(&mut ret);
                proof {
                    assert(args_view(args@) =~= args_view(first) + args_view(second));
                }
                Some(
                    LogStatement {
                        method: self.get_log_method(output_type),
                        template: self.format_end_template(true),
                        args,
                    },
                )
            },
            OutputPosition::OnStartAndEnd => Some(
                LogStatement {
                    method: self.get_log_method(output_type),
                    template: self.format_end_template(false),
                    args: return_arg_list(self.has_return_value),
                },
            ),
        };
        (start, end)
    }
}

} // verus!
