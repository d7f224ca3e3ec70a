//! The compiled configuration and the emission plan derived from it.

use vstd::prelude::*;

use crate::log_template::{
    end_statement, start_statement, statement_view, template_model, LogStatement, LogTemplate,
    StatementView, TemplateModel,
};
use crate::text::clone_names;

verus! {

/// When log statements fire relative to the wrapped call.
#[derive(Debug, Clone, Copy, PartialEq, Eq, Structural)]
pub enum OutputPosition {
    /// Only before the call.
    OnStart,
    /// Only after the call.
    OnEnd,
    /// Before and after the call.
    OnStartAndEnd,
}

/// The sink a log statement is sent to: the console, or the leveled
/// logger at one of its levels.
#[derive(Debug, Clone, Copy, PartialEq, Eq, Structural)]
pub enum OutputType {
    Print,
    Error,
    Warn,
    Info,
    Debug,
    Trace,
}

/// A validated configuration, together with what it needs of the function
/// it was compiled against.
#[derive(Debug, Clone)]
pub struct Config {
    pub output_position: OutputPosition,
    pub output_type: OutputType,
    /// Whether the exit statement shows the returned value.
    pub output_ret_value: bool,
    pub func_name: String,
    /// The parameters that appear in the log output, in declaration order.
    pub func_params_for_output: Vec<String>,
    /// All parameter names, forwarded in this order to the wrapped body.
    pub func_params_for_invoke: Vec<String>,
    /// Whether the function produces a value.
    pub func_has_return: bool,
}

/// A [`Config`] as plain values.
pub struct ConfigModel {
    pub output_position: OutputPosition,
    pub output_type: OutputType,
    pub output_ret_value: bool,
    pub func_name: Seq<char>,
    pub func_params_for_output: Seq<Seq<char>>,
    pub func_params_for_invoke: Seq<Seq<char>>,
    pub func_has_return: bool,
}

impl View for Config {
    type V = ConfigModel;

    open spec fn view(&self) -> ConfigModel {
        ConfigModel {
            output_position: self.output_position,
            output_type: self.output_type,
            output_ret_value: self.output_ret_value,
            func_name: self.func_name@,
            func_params_for_output: self.func_params_for_output.deep_view(),
            func_params_for_invoke: self.func_params_for_invoke.deep_view(),
            func_has_return: self.func_has_return,
        }
    }
}

/// The plan of the rewritten function: the annotated body moves into an
/// inner function, and the outer function captures the texts it needs,
/// logs on entry, calls the inner function with all its parameters, logs on
/// exit and returns what the call returned (bound to `output`).
#[derive(Debug)]
pub struct Output {
    /// The name of the inner function that holds the annotated body.
    pub inner_func_name: String,
    /// The parameters whose `Debug` text is captured before the call.
    pub saved_params: Vec<String>,
    /// The names under which those texts are captured, in the same order.
    pub saved_param_values: Vec<String>,
    /// The arguments of the inner call, in declaration order.
    pub invoke_args: Vec<String>,
    /// The entry statement, if any.
    pub func_output_start: Option<LogStatement>,
    /// The exit statement, if any.
    pub func_output_end: Option<LogStatement>,
}

/// `__name__`: the inner function of `name`.
pub open spec fn inner_name_of(name: Seq<char>) -> Seq<char> {
    "__"@ + name + "__"@
}

/// `__p_value__`: where the text of parameter `p` is captured.
pub open spec fn saved_name_of(p: Seq<char>) -> Seq<char> {
    "__"@ + p + "_value__"@
}

/// The parameters whose text is captured: the logged ones, when an exit
/// statement is made.
pub open spec fn captured_params(position: OutputPosition, logged: Seq<Seq<char>>) -> Seq<Seq<char>> {
    if !(position is OnStart) && logged.len() > 0 {
        logged
    } else {
        Seq::empty()
    }
}

/// The template from which the statements of configuration `c` are made.
pub open spec fn plan_template(c: ConfigModel) -> TemplateModel {
    template_model(c.func_name, c.func_params_for_output, c.func_has_return, c.output_ret_value)
}

/// The entry statement of configuration `c`.
pub open spec fn plan_start(c: ConfigModel) -> Option<StatementView> {
    start_statement(plan_template(c), c.output_position, c.output_type, c.func_params_for_output)
}

/// The names under which configuration `c` captures parameter texts.
pub open spec fn plan_saved_values(c: ConfigModel) -> Seq<Seq<char>> {
    captured_params(c.output_position, c.func_params_for_output).map_values(|p: Seq<char>| saved_name_of(p))
}

/// The exit statement of configuration `c`.
pub open spec fn plan_end(c: ConfigModel) -> Option<StatementView> {
    end_statement(plan_template(c), c.output_position, c.output_type, plan_saved_values(c))
}

/// `o` is the emission plan of configuration `c`.
pub open spec fn is_plan_of(o: Output, c: ConfigModel) -> bool {
    &&& o.inner_func_name@ == inner_name_of(c.func_name)
    &&& o.saved_params.deep_view() == captured_params(c.output_position, c.func_params_for_output)
    &&& o.saved_param_values.deep_view() == plan_saved_values(c)
    &&& o.invoke_args.deep_view() == c.func_params_for_invoke
    &&& statement_view(o.func_output_start) == plan_start(c)
    &&& statement_view(o.func_output_end) == plan_end(c)
}

fn saved_names(params: &Vec<String>) -> (r: Vec<String>)
    ensures
        r.deep_view() == params.deep_view().map_values(|p: Seq<char>| saved_name_of(p)),
{
    let mut r: Vec<String> = Vec::new();
    let mut i: usize = 0;
    while i < params.len()
        invariant
            i <= params.len(),
            r.deep_view() == params.deep_view().take(i as int).map_values(|p: Seq<char>| saved_name_of(p)),
        decreases params.len() - i,
    {
        let ghost prev = r.deep_view();
        let mut name = String::from_str("__");
        name.append(params[i].as_str());
        name.append("_value__");
        r.push(name);
        proof {
            assert(r.deep_view() =~= prev.push(saved_name_of(params@[i as int]@)));
            assert(params.deep_view().take(i + 1).map_values(|p: Seq<char>| saved_name_of(p))
                =~= params.deep_view().take(i as int).map_values(|p: Seq<char>| saved_name_of(p)).push(
                saved_name_of(params@[i as int]@),
            ));
        }
        i = i + 1;
    }
    proof {
        assert(params.deep_view().take(params.len() as int) == params.deep_view());
    }
    r
}

impl Config {
    /// The emission plan of this configuration.
    pub fn to_output(&self) -> (r: Output)
        ensures
            is_plan_of(r, self@),
    {
        let mut inner_func_name = String::from_str("__");
        inner_func_name.append(self.func_name.as_str());
        inner_func_name.append("__");
        let needs_param_values_for_end = match self.output_position {
            OutputPosition::OnStart => false,
            _ => true,
        } && self.func_params_for_output.len() > 0;
        let saved_params = if needs_param_values_for_end {
            clone_names(&self.func_params_for_output)
        } else {
            let none: Vec<String> = Vec::new();
            proof {
                assert(none.deep_view() =~= Seq::<Seq<char>>::empty());
            }
            none
        };
        let saved_param_values = saved_names(&saved_params);
        let template = LogTemplate::new(
            self.func_name.as_str(),
            &self.func_params_for_output,
            self.func_has_return,
            self.output_ret_value,
        );
        let (func_output_start, func_output_end) = template.generate_log_statements_with_context(
            self.output_position,
            self.output_type,
            &self.func_params_for_output,
            &saved_param_values,
        );
        Output {
            inner_func_name,
            saved_params,
            saved_param_values,
            invoke_args: clone_names(&self.func_params_for_invoke),
            func_output_start,
            func_output_end,
        }
    }
}

} // verus!
