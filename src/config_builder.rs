//! Compiles the attribute's option list, checked against the annotated
//! function, into a configuration.

use vstd::prelude::*;

use crate::config::{Config, ConfigModel, OutputPosition, OutputType};
use crate::error::{ConfigError, ConfigErrorView};
use crate::generics_item_fn::GenericsFn;
use crate::similarity::{suggest_similar_attribute, suggestion_for};
use crate::text::{clone_names, contains_name, push_word, word_is};

verus! {

/// Which parameters appear in the log output.
#[derive(Debug, Clone, Copy, PartialEq, Eq, Structural)]
pub enum ParameterEnum {
    NoneParameter,
    AllParameters,
    /// The names given in `params(...)`.
    Specified,
}

/// One entry of the attribute's option list, as its shape was recognised.
#[derive(Debug)]
pub enum AttrToken {
    /// A bare identifier, such as `debug`.
    Word(String),
    /// An identifier followed by a parenthesised list, such as
    /// `params(a, b)`: the identifiers of the list, or why it did not parse.
    List { name: String, items: Result<Vec<String>, String> },
    /// Any other shape.
    Other,
}

/// The three option categories of which at most one option may be given.
pub enum OptionCategory {
    Parameters,
    Level,
    Position,
}

/// Relies on syn's `Punctuated::<Ident, Comma>::parse_terminated`, run by
/// `Parser::parse_str` on the whole of `body`: the identifiers of the list
/// in order, or the parser's message. Nothing is claimed of the result:
/// how identifiers are lexed depends on whether the code runs inside a
/// procedural macro.
#[verifier::external_body]
fn parse_ident_list(body: &str) -> (r: Result<Vec<String>, String>) {
    let parser = syn::punctuated::Punctuated::<syn::Ident, syn::token::Comma>::parse_terminated;
    match syn::parse::Parser::parse_str(parser, body) {
        Ok(list) => Ok(list.iter().map(|ident| ident.to_string()).collect()),
        Err(e) => Err(e.to_string()),
    }
}

impl AttrToken {
    /// A list entry `name(body)`, whose body is read as identifiers.
    pub fn list(name: String, body: &str) -> (r: AttrToken)
        ensures
            r matches AttrToken::List { name: n, .. } && n == name,
    {
        let items = parse_ident_list(body);
        AttrToken::List { name, items }
    }
}

pub open spec fn is_level_word(w: Seq<char>) -> bool {
    w == "print"@ || w == "trace"@ || w == "debug"@ || w == "info"@ || w == "warn"@ || w == "error"@
}

pub open spec fn is_position_word(w: Seq<char>) -> bool {
    w == "onStart"@ || w == "onEnd"@ || w == "onStartEnd"@
}

pub open spec fn is_parameters_word(w: Seq<char>) -> bool {
    w == "all"@ || w == "none"@
}

/// The keyword with which token `t` proposes a value for category `c`.
pub open spec fn keyword_of(t: AttrToken, c: OptionCategory) -> Option<Seq<char>> {
    match t {
        AttrToken::Word(w) => match c {
            OptionCategory::Parameters => if is_parameters_word(w@) { Some(w@) } else { None },
            OptionCategory::Level => if is_level_word(w@) { Some(w@) } else { None },
            OptionCategory::Position => if is_position_word(w@) { Some(w@) } else { None },
        },
        AttrToken::List { name, items } => if c is Parameters && name@ == "params"@ {
            Some("params"@)
        } else {
            None
        },
        AttrToken::Other => None,
    }
}

/// The keywords of category `c` in `toks`, in order of appearance.
pub open spec fn keywords(toks: Seq<AttrToken>, c: OptionCategory) -> Seq<Seq<char>>
    decreases toks.len(),
{
    if toks.len() == 0 {
        Seq::empty()
    } else {
        let rest = keywords(toks.drop_last(), c);
        match keyword_of(toks.last(), c) {
            Some(k) => rest.push(k),
            None => rest,
        }
    }
}

pub open spec fn is_ret_val(t: AttrToken) -> bool {
    t matches AttrToken::Word(w) && w@ == "retVal"@
}

/// Some token of `toks` is `retVal`.
pub open spec fn has_ret_val(toks: Seq<AttrToken>) -> bool
    decreases toks.len(),
{
    toks.len() > 0 && (is_ret_val(toks.last()) || has_ret_val(toks.drop_last()))
}

/// The first of `names` that is not among `params`.
pub open spec fn first_unknown(names: Seq<Seq<char>>, params: Seq<Seq<char>>) -> Option<Seq<char>>
    decreases names.len(),
{
    if names.len() == 0 {
        None
    } else {
        match first_unknown(names.drop_last(), params) {
            Some(n) => Some(n),
            None => if params.contains(names.last()) { None } else { Some(names.last()) },
        }
    }
}

pub open spec fn parse_failure_message(m: Seq<char>) -> Seq<char> {
    "Parameter list parsing failed: "@ + m + "\n💡 Correct format: params(param1, param2)"@
}

pub open spec fn unsupported_shape_message() -> Seq<char> {
    "unsupported option format, use simple identifiers or params(parameter_name)"@
}

/// Why token `t`, after the tokens `before`, cannot be taken, against a
/// function with parameters `params`.
pub open spec fn token_error(t: AttrToken, before: Seq<AttrToken>, params: Seq<Seq<char>>) -> Option<
    ConfigErrorView,
> {
    match t {
        AttrToken::Word(w) => if w@ == "retVal"@ {
            if has_ret_val(before) {
                Some(ConfigErrorView::AlreadySet("return value configuration"@))
            } else {
                None
            }
        } else if is_parameters_word(w@) || is_level_word(w@) || is_position_word(w@) {
            None
        } else {
            Some(ConfigErrorView::InvalidAttribute { attr: w@, suggestion: suggestion_for(w@) })
        },
        AttrToken::List { name, items } => if name@ == "params"@ {
            match items {
                Err(m) => Some(ConfigErrorView::ParseError(parse_failure_message(m@))),
                Ok(v) => match first_unknown(v.deep_view(), params) {
                    Some(n) => Some(ConfigErrorView::InvalidParameter { param: n, available: params }),
                    None => None,
                },
            }
        } else {
            Some(
                ConfigErrorView::InvalidAttribute {
                    attr: name@ + "(...)"@,
                    suggestion: if name@ == "param"@ { Some("params"@) } else { None },
                },
            )
        },
        AttrToken::Other => Some(ConfigErrorView::ParseError(unsupported_shape_message())),
    }
}

/// The first token of `toks` that cannot be taken, read from the left.
pub open spec fn scan_error(toks: Seq<AttrToken>, params: Seq<Seq<char>>) -> Option<ConfigErrorView>
    decreases toks.len(),
{
    if toks.len() == 0 {
        None
    } else {
        match scan_error(toks.drop_last(), params) {
            Some(e) => Some(e),
            None => token_error(toks.last(), toks.drop_last(), params),
        }
    }
}

/// Two keywords of one category conflict: the first two are named.
pub open spec fn conflict(kws: Seq<Seq<char>>) -> Option<ConfigErrorView> {
    if kws.len() > 1 {
        Some(ConfigErrorView::ConflictingOptions { option1: kws[0], option2: kws[1] })
    } else {
        None
    }
}

/// Why the option list `toks` does not compile against a function with
/// parameters `params`: a token that cannot be taken, else the first
/// category (parameters, level, position) that was given twice.
pub open spec fn rejection(toks: Seq<AttrToken>, params: Seq<Seq<char>>) -> Option<ConfigErrorView> {
    match scan_error(toks, params) {
        Some(e) => Some(e),
        None => match conflict(keywords(toks, OptionCategory::Parameters)) {
            Some(e) => Some(e),
            None => match conflict(keywords(toks, OptionCategory::Level)) {
                Some(e) => Some(e),
                None => conflict(keywords(toks, OptionCategory::Position)),
            },
        },
    }
}

pub open spec fn decode_parameters(k: Seq<char>) -> ParameterEnum {
    if k == "all"@ {
        ParameterEnum::AllParameters
    } else if k == "none"@ {
        ParameterEnum::NoneParameter
    } else {
        ParameterEnum::Specified
    }
}

pub open spec fn decode_level(k: Seq<char>) -> OutputType {
    if k == "print"@ {
        OutputType::Print
    } else if k == "trace"@ {
        OutputType::Trace
    } else if k == "debug"@ {
        OutputType::Debug
    } else if k == "info"@ {
        OutputType::Info
    } else if k == "warn"@ {
        OutputType::Warn
    } else {
        OutputType::Error
    }
}

pub open spec fn decode_position(k: Seq<char>) -> OutputPosition {
    if k == "onStart"@ {
        OutputPosition::OnStart
    } else if k == "onEnd"@ {
        OutputPosition::OnEnd
    } else {
        OutputPosition::OnStartAndEnd
    }
}

/// The parameter policy that the last parameter option of `toks` chose.
pub open spec fn chosen_parameters(toks: Seq<AttrToken>) -> Option<ParameterEnum> {
    let k = keywords(toks, OptionCategory::Parameters);
    if k.len() == 0 { None } else { Some(decode_parameters(k.last())) }
}

/// The sink that the last level option of `toks` chose.
pub open spec fn chosen_level(toks: Seq<AttrToken>) -> Option<OutputType> {
    let k = keywords(toks, OptionCategory::Level);
    if k.len() == 0 { None } else { Some(decode_level(k.last())) }
}

/// The position that the last position option of `toks` chose.
pub open spec fn chosen_position(toks: Seq<AttrToken>) -> Option<OutputPosition> {
    let k = keywords(toks, OptionCategory::Position);
    if k.len() == 0 { None } else { Some(decode_position(k.last())) }
}

/// The names of the last `params(...)` option of `toks` that parsed, if any.
pub open spec fn specified_names(toks: Seq<AttrToken>) -> Seq<Seq<char>>
    decreases toks.len(),
{
    if toks.len() == 0 {
        Seq::empty()
    } else {
        match toks.last() {
            AttrToken::List { name, items } => if name@ == "params"@ && items is Ok {
                items->Ok_0.deep_view()
            } else {
                specified_names(toks.drop_last())
            },
            _ => specified_names(toks.drop_last()),
        }
    }
}

pub open spec fn position_or_default(p: Option<OutputPosition>) -> OutputPosition {
    match p {
        Some(p) => p,
        None => OutputPosition::OnStartAndEnd,
    }
}

pub open spec fn level_or_default(t: Option<OutputType>) -> OutputType {
    match t {
        Some(t) => t,
        None => OutputType::Print,
    }
}

pub open spec fn ret_val_or_default(v: Option<bool>) -> bool {
    match v {
        Some(v) => v,
        None => false,
    }
}

/// The parameters of `all`, in their order, that `chosen` names.
pub open spec fn restricted(all: Seq<Seq<char>>, chosen: Seq<Seq<char>>) -> Seq<Seq<char>>
    decreases all.len(),
{
    if all.len() == 0 {
        Seq::empty()
    } else {
        let rest = restricted(all.drop_last(), chosen);
        if chosen.contains(all.last()) {
            rest.push(all.last())
        } else {
            rest
        }
    }
}

/// The names of `all`, in their order, that `chosen` holds.
fn restrict(all: &Vec<String>, chosen: &Vec<String>) -> (r: Vec<String>)
    ensures
        r.deep_view() == restricted(all.deep_view(), chosen.deep_view()),
{
    let mut r: Vec<String> = Vec::new();
    let mut i: usize = 0;
    proof {
        assert(all.deep_view().take(0) =~= Seq::<Seq<char>>::empty());
        assert(r.deep_view() =~= Seq::<Seq<char>>::empty());
    }
    while i < all.len()
        invariant
            i <= all.len(),
            r.deep_view() == restricted(all.deep_view().take(i as int), chosen.deep_view()),
        decreases all.len() - i,
    {
        proof {
            let dv = all.deep_view();
            assert(dv.take(i + 1).drop_last() == dv.take(i as int));
            assert(dv.take(i + 1).last() == all@[i as int]@);
        }
        if contains_name(chosen, &all[i]) {
            let ghost prev = r.deep_view();
            r.push(all[i].clone());
            proof {
                assert(r.deep_view() =~= prev.push(all@[i as int]@));
            }
        }
        i = i + 1;
    }
    proof {
        assert(all.deep_view().take(all.len() as int) == all.deep_view());
    }
    r
}

/// The parameters that a policy shows: all of them, none, or those named
/// in `params(...)`, in declaration order; all of them where no policy was
/// given.
pub open spec fn names_for_output(
    policy: Option<ParameterEnum>,
    specified: Seq<Seq<char>>,
    all: Seq<Seq<char>>,
) -> Seq<Seq<char>> {
    match policy {
        Some(ParameterEnum::NoneParameter) => Seq::empty(),
        Some(ParameterEnum::Specified) => restricted(all, specified),
        _ => all,
    }
}

/// Accumulates the options of an attribute and the facts about the
/// function, then builds a [`Config`].
#[derive(Debug)]
pub struct ConfigBuilder {
    pub output_position: Option<OutputPosition>,
    pub param_config: Option<ParameterEnum>,
    pub output_ret_value: Option<bool>,
    pub output_type: Option<OutputType>,
    pub func_name: Option<String>,
    /// The names given in `params(...)`.
    pub func_params_for_output: Vec<String>,
    /// All parameter names of the function.
    pub func_params_for_invoke: Vec<String>,
    pub func_has_return: Option<bool>,
}

impl Default for ConfigBuilder {
    fn default() -> (r: ConfigBuilder)
        ensures
            r.is_empty(),
    {
        ConfigBuilder {
            output_position: None,
            param_config: None,
            output_ret_value: None,
            output_type: None,
            func_name: None,
            func_params_for_output: Vec::new(),
            func_params_for_invoke: Vec::new(),
            func_has_return: None,
        }
    }
}

impl ConfigBuilder {
    /// Nothing has been set yet.
    pub open spec fn is_empty(&self) -> bool {
        &&& self.options_unset()
        &&& self.func_name is None
        &&& self.func_params_for_invoke@.len() == 0
        &&& self.func_has_return is None
    }

    /// No option has been set yet.
    pub open spec fn options_unset(&self) -> bool {
        &&& self.output_position is None
        &&& self.param_config is None
        &&& self.output_ret_value is None
        &&& self.output_type is None
        &&& self.func_params_for_output@.len() == 0
    }

    /// The function's fields of `self` and `other` agree.
    pub open spec fn same_function(&self, other: &ConfigBuilder) -> bool {
        &&& self.func_name == other.func_name
        &&& self.func_params_for_invoke == other.func_params_for_invoke
        &&& self.func_has_return == other.func_has_return
    }

    /// The options of `self` are those that `toks` chose.
    pub open spec fn options_from(&self, toks: Seq<AttrToken>) -> bool {
        &&& self.param_config == chosen_parameters(toks)
        &&& self.output_type == chosen_level(toks)
        &&& self.output_position == chosen_position(toks)
        &&& self.output_ret_value == (if has_ret_val(toks) { Some(true) } else { None })
        &&& self.func_params_for_output.deep_view() == specified_names(toks)
    }

    /// Sets the parameter policy.
    pub fn param_config(&mut self, param_config: ParameterEnum) -> (r: Result<(), ConfigError>)
        ensures
            r is Ok,
            *final(self) == (ConfigBuilder { param_config: Some(param_config), ..*old(self) }),
    {
        self.param_config = Some(param_config);
        Ok(())
    }

    /// Sets the sink of the log statements.
    pub fn output_type(&mut self, output_type: OutputType) -> (r: Result<(), ConfigError>)
        ensures
            r is Ok,
            *final(self) == (ConfigBuilder { output_type: Some(output_type), ..*old(self) }),
    {
        self.output_type = Some(output_type);
        Ok(())
    }

    /// Sets when the log statements fire.
    pub fn output_position(&mut self, output_position: OutputPosition) -> (r: Result<(), ConfigError>)
        ensures
            r is Ok,
            *final(self) == (ConfigBuilder { output_position: Some(output_position), ..*old(self) }),
    {
        self.output_position = Some(output_position);
        Ok(())
    }

    /// Sets whether the return value is shown; this may be done once.
    pub fn output_ret_value(&mut self, output_ret_value: bool) -> (r: Result<(), ConfigError>)
        ensures
            old(self).output_ret_value is Some ==> (r matches Err(e) && e@
                == ConfigErrorView::AlreadySet("return value configuration"@)),
            old(self).output_ret_value is Some ==> *final(self) == *old(self),
            old(self).output_ret_value is None ==> r is Ok,
            old(self).output_ret_value is None ==> *final(self) == (ConfigBuilder {
                output_ret_value: Some(output_ret_value),
                ..*old(self)
            }),
    {
        if self.output_ret_value.is_some() {
            return Err(ConfigError::AlreadySet("return value configuration"));
        }
        self.output_ret_value = Some(output_ret_value);
        Ok(())
    }

    /// Records the function's name, parameters and return kind.
    pub fn set_function_fields(&mut self, func: GenericsFn)
        ensures
            final(self).func_name == Some(func.name),
            final(self).func_params_for_invoke.deep_view() == old(self).func_params_for_invoke.deep_view()
                + func.params.deep_view(),
            final(self).func_has_return == Some(func.has_return),
            final(self).output_position == old(self).output_position,
            final(self).param_config == old(self).param_config,
            final(self).output_ret_value == old(self).output_ret_value,
            final(self).output_type == old(self).output_type,
            final(self).func_params_for_output == old(self).func_params_for_output,
    {
        self.func_name = Some(func.name);
        self.set_parameters(&func.params);
        self.func_has_return = Some(func.has_return);
    }

    /// Appends the parameter names `params` to those of the function.
    pub fn set_parameters(&mut self, params: &Vec<String>)
        ensures
            final(self).func_params_for_invoke.deep_view() == old(self).func_params_for_invoke.deep_view()
                + params.deep_view(),
            *final(self) == (ConfigBuilder {
                func_params_for_invoke: final(self).func_params_for_invoke,
                ..*old(self)
            }),
    {
        let mut i: usize = 0;
        while i < params.len()
            invariant
                i <= params.len(),
                self.func_params_for_invoke.deep_view() == old(self).func_params_for_invoke.deep_view()
                    + params.deep_view().take(i as int),
                *self == (ConfigBuilder {
                    func_params_for_invoke: self.func_params_for_invoke,
                    ..*old(self)
                }),
            decreases params.len() - i,
        {
            let ghost prev = self.func_params_for_invoke.deep_view();
            self.func_params_for_invoke.push(params[i].clone());
            proof {
                assert(self.func_params_for_invoke.deep_view() =~= prev.push(params@[i as int]@));
                assert(params.deep_view().take(i + 1) =~= params.deep_view().take(i as int).push(
                    params@[i as int]@,
                ));
                assert(self.func_params_for_invoke.deep_view() =~= old(self).func_params_for_invoke.deep_view()
                    + params.deep_view().take(i + 1));
            }
            i = i + 1;
        }
        proof {
            assert(params.deep_view().take(params.len() as int) == params.deep_view());
        }
    }

    /// Reads the option list into `self`, which holds no option yet:
    /// tokens are taken from the left and the first one that cannot be
    /// taken is reported; then the categories are checked for conflicts.
    fn parse_meta_list(&mut self, meta_list: &Vec<AttrToken>) -> (r: Result<(), ConfigError>)
        requires
            old(self).options_unset(),
        ensures
            final(self).same_function(old(self)),
            r is Ok <==> rejection(meta_list@, old(self).func_params_for_invoke.deep_view()) is None,
            r matches Err(e) ==> rejection(meta_list@, old(self).func_params_for_invoke.deep_view())
                == Some(e@),
            r is Ok ==> final(self).options_from(meta_list@),
    {
        let ghost toks = meta_list@;
        let ghost params = self.func_params_for_invoke.deep_view();
        let mut param_configs: Vec<String> = Vec::new();
        let mut log_levels: Vec<String> = Vec::new();
        let mut positions: Vec<String> = Vec::new();
        let mut i: usize = 0;
        proof {
            assert(toks.take(0) =~= Seq::<AttrToken>::empty());
            assert(self.func_params_for_output.deep_view() =~= Seq::<Seq<char>>::empty());
        }
        while i < meta_list.len()
            invariant
                i <= meta_list.len(),
                toks == meta_list@,
                params == self.func_params_for_invoke.deep_view(),
                self.same_function(old(self)),
                scan_error(toks.take(i as int), params) is None,
                param_configs.deep_view() == keywords(toks.take(i as int), OptionCategory::Parameters),
                log_levels.deep_view() == keywords(toks.take(i as int), OptionCategory::Level),
                positions.deep_view() == keywords(toks.take(i as int), OptionCategory::Position),
                self.options_from(toks.take(i as int)),
            decreases meta_list.len() - i,
        {
            let ghost before = toks.take(i as int);
            let ghost upto = toks.take(i + 1);
            proof {
                lemma_option_words();
                assert(upto.drop_last() == before);
                assert(upto.last() == toks[i as int]);
            }
            match &meta_list[i] {
                AttrToken::Word(w) => {
                    if word_is(w, "all") {
                        push_word(&mut param_configs, "all");
                        let _ = self.param_config(ParameterEnum::AllParameters);
                    } else if word_is(w, "none") {
                        push_word(&mut param_configs, "none");
                        let _ = self.param_config(ParameterEnum::NoneParameter);
                    } else if word_is(w, "print") {
                        push_word(&mut log_levels, "print");
                        let _ = self.output_type(OutputType::Print);
                    } else if word_is(w, "trace") {
                        push_word(&mut log_levels, "trace");
                        let _ = self.output_type(OutputType::Trace);
                    } else if word_is(w, "debug") {
                        push_word(&mut log_levels, "debug");
                        let _ = self.output_type(OutputType::Debug);
                    } else if word_is(w, "info") {
                        push_word(&mut log_levels, "info");
                        let _ = self.output_type(OutputType::Info);
                    } else if word_is(w, "warn") {
                        push_word(&mut log_levels, "warn");
                        let _ = self.output_type(OutputType::Warn);
                    } else if word_is(w, "error") {
                        push_word(&mut log_levels, "error");
                        let _ = self.output_type(OutputType::Error);
                    } else if word_is(w, "onStart") {
                        push_word(&mut positions, "onStart");
                        let _ = self.output_position(OutputPosition::OnStart);
                    } else if word_is(w, "onEnd") {
                        push_word(&mut positions, "onEnd");
                        let _ = self.output_position(OutputPosition::OnEnd);
                    } else if word_is(w, "onStartEnd") {
                        push_word(&mut positions, "onStartEnd");
                        let _ = self.output_position(OutputPosition::OnStartAndEnd);
                    } else if word_is(w, "retVal") {
                        let set = self.output_ret_value(true);
                        if set.is_err() {
                            proof {
                                lemma_scan_error_extends(toks, params, i + 1);
                            }
                            return set;
                        }
                    } else {
                        let suggestion = suggest_similar_attribute(w.as_str());
                        proof {
                            lemma_scan_error_extends(toks, params, i + 1);
                        }
                        return Err(ConfigError::InvalidAttribute { attr: w.clone(), suggestion });
                    }
                },
                AttrToken::List { name, items } => {
                    if !word_is(name, "params") {
                        let mut attr = name.clone();
                        attr.append("(...)");
                        let suggestion = if word_is(name, "param") {
                            Some(String::from_str("params"))
                        } else {
                            None
                        };
                        proof {
                            lemma_scan_error_extends(toks, params, i + 1);
                        }
                        return Err(ConfigError::InvalidAttribute { attr, suggestion });
                    }
                    match items {
                        Err(m) => {
                            let mut msg = String::from_str("Parameter list parsing failed: ");
                            msg.append(m.as_str());
                            msg.append("\n💡 Correct format: params(param1, param2)");
                            proof {
                                lemma_scan_error_extends(toks, params, i + 1);
                            }
                            return Err(ConfigError::ParseError(msg));
                        },
                        Ok(ids) => {
                            match find_unknown(ids, &self.func_params_for_invoke) {
                                Some(k) => {
                                    let available = clone_names(&self.func_params_for_invoke);
                                    proof {
                                        lemma_scan_error_extends(toks, params, i + 1);
                                    }
                                    return Err(
                                        ConfigError::InvalidParameter { param: ids[k].clone(), available },
                                    );
                                },
                                None => {},
                            }
                            push_word(&mut param_configs, "params");
                            let _ = self.param_config(ParameterEnum::Specified);
                            self.func_params_for_output = clone_names(ids);
                        },
                    }
                },
                AttrToken::Other => {
                    proof {
                        lemma_scan_error_extends(toks, params, i + 1);
                    }
                    return Err(
                        ConfigError::ParseError(
                            String::from_str(
                                "unsupported option format, use simple identifiers or params(parameter_name)",
                            ),
                        ),
                    );
                },
            }
            i = i + 1;
        }
        proof {
            assert(toks.take(meta_list.len() as int) == toks);
        }
        if param_configs.len() > 1 {
            return Err(
                ConfigError::ConflictingOptions {
                    option1: param_configs[0].clone(),
                    option2: param_configs[1].clone(),
                },
            );
        }
        if log_levels.len() > 1 {
            return Err(
                ConfigError::ConflictingOptions {
                    option1: log_levels[0].clone(),
                    option2: log_levels[1].clone(),
                },
            );
        }
        if positions.len() > 1 {
            return Err(
                ConfigError::ConflictingOptions {
                    option1: positions[0].clone(),
                    option2: positions[1].clone(),
                },
            );
        }
        Ok(())
    }

    /// Compiles the option list `meta_list` against the function `func`.
    pub fn from(meta_list: Vec<AttrToken>, func: GenericsFn) -> (r: Result<ConfigBuilder, ConfigError>)
        ensures
            r is Ok <==> rejection(meta_list@, func.params.deep_view()) is None,
            r matches Err(e) ==> rejection(meta_list@, func.params.deep_view()) == Some(e@),
            r matches Ok(b) ==> b.options_from(meta_list@),
            r matches Ok(b) ==> b.func_name == Some(func.name) && b.func_params_for_invoke.deep_view()
                == func.params.deep_view() && b.func_has_return == Some(func.has_return),
    {
        let mut builder = ConfigBuilder::default();
        let ghost params = func.params.deep_view();
        builder.set_function_fields(func);
        proof {
            assert(builder.func_params_for_invoke.deep_view() =~= params);
        }
        match builder.parse_meta_list(&meta_list) {
            Ok(()) => Ok(builder),
            Err(e) => Err(e),
        }
    }

    /// Fills in the defaults of the options that were not given.
    pub fn build(self) -> (r: Result<Config, ConfigError>)
        ensures
            r is Err <==> (self.func_name is None || self.func_has_return is None),
            r matches Err(e) ==> e@ == ConfigErrorView::MissingFunction,
            r matches Ok(c) ==> c.output_position == position_or_default(self.output_position)
                && c.output_type == level_or_default(self.output_type) && c.output_ret_value
                == ret_val_or_default(self.output_ret_value),
            r matches Ok(c) ==> Some(c.func_name) == self.func_name && Some(c.func_has_return)
                == self.func_has_return,
            r matches Ok(c) ==> c.func_params_for_invoke.deep_view() == self.func_params_for_invoke.deep_view()
                && c.func_params_for_output.deep_view() == names_for_output(
                self.param_config,
                self.func_params_for_output.deep_view(),
                self.func_params_for_invoke.deep_view(),
            ),
    {
        let func_name = match self.func_name {
            Some(n) => n,
            None => return Err(ConfigError::MissingFunction),
        };
        let func_has_return = match self.func_has_return {
            Some(h) => h,
            None => return Err(ConfigError::MissingFunction),
        };
        let func_params_for_output = match self.param_config {
            Some(ParameterEnum::AllParameters) => clone_names(&self.func_params_for_invoke),
            Some(ParameterEnum::NoneParameter) => {
                let none: Vec<String> = Vec::new();
                proof {
                    assert(none.deep_view() =~= Seq::<Seq<char>>::empty());
                }
                none
            },
            Some(ParameterEnum::Specified) => restrict(
                &self.func_params_for_invoke,
                &self.func_params_for_output,
            ),
            None => clone_names(&self.func_params_for_invoke),
        };
        Ok(
            Config {
                output_position: match self.output_position {
                    Some(p) => p,
                    None => OutputPosition::OnStartAndEnd,
                },
                output_type: match self.output_type {
                    Some(t) => t,
                    None => OutputType::Print,
                },
                output_ret_value: match self.output_ret_value {
                    Some(v) => v,
                    None => false,
                },
                func_name,
                func_params_for_output,
                func_params_for_invoke: self.func_params_for_invoke,
                func_has_return,
            },
        )
    }
}

/// Compiling the option list `toks` against a function `name` with
/// parameters `params` that produces a value when `has_return`: the
/// diagnostic of [`rejection`], or the configuration whose categories are
/// those chosen in `toks`, with the defaults for the categories it omits.
pub open spec fn compile(
    toks: Seq<AttrToken>,
    name: Seq<char>,
    params: Seq<Seq<char>>,
    has_return: bool,
) -> Result<ConfigModel, ConfigErrorView> {
    match rejection(toks, params) {
        Some(e) => Err(e),
        None => Ok(
            ConfigModel {
                output_position: position_or_default(chosen_position(toks)),
                output_type: level_or_default(chosen_level(toks)),
                output_ret_value: has_ret_val(toks),
                func_name: name,
                func_params_for_output: names_for_output(chosen_parameters(toks), specified_names(toks), params),
                func_params_for_invoke: params,
                func_has_return: has_return,
            },
        ),
    }
}

pub proof fn lemma_scan_error_extends(toks: Seq<AttrToken>, params: Seq<Seq<char>>, n: int)
    requires
        0 <= n <= toks.len(),
        scan_error(toks.take(n), params) is Some,
    ensures
        scan_error(toks, params) == scan_error(toks.take(n), params),
    decreases toks.len() - n,
{
    if n < toks.len() {
        assert(toks.take(n + 1).drop_last() == toks.take(n));
        lemma_scan_error_extends(toks, params, n + 1);
    } else {
        assert(toks.take(n) == toks);
    }
}

/// The position of the first of `names` that is not among `params`.
fn find_unknown(names: &Vec<String>, params: &Vec<String>) -> (r: Option<usize>)
    ensures
        r matches Some(k) ==> k < names.len() && first_unknown(names.deep_view(), params.deep_view())
            == Some(names@[k as int]@),
        r is None ==> first_unknown(names.deep_view(), params.deep_view()) is None,
{
    let ghost all = params.deep_view();
    let mut k: usize = 0;
    proof {
        assert(names.deep_view().take(0) =~= Seq::<Seq<char>>::empty());
    }
    while k < names.len()
        invariant
            k <= names.len(),
            all == params.deep_view(),
            first_unknown(names.deep_view().take(k as int), all) is None,
        decreases names.len() - k,
    {
        proof {
            let dv = names.deep_view();
            assert(dv.take(k + 1).drop_last() == dv.take(k as int));
            assert(dv.take(k + 1).last() == names@[k as int]@);
        }
        if !contains_name(params, &names[k]) {
            proof {
                lemma_first_unknown_extends(names.deep_view(), all, k + 1);
            }
            return Some(k);
        }
        k = k + 1;
    }
    proof {
        assert(names.deep_view().take(names.len() as int) == names.deep_view());
    }
    None
}

proof fn lemma_first_unknown_extends(names: Seq<Seq<char>>, params: Seq<Seq<char>>, n: int)
    requires
        0 <= n <= names.len(),
        first_unknown(names.take(n), params) is Some,
    ensures
        first_unknown(names, params) == first_unknown(names.take(n), params),
    decreases names.len() - n,
{
    if n < names.len() {
        assert(names.take(n + 1).drop_last() == names.take(n));
        lemma_first_unknown_extends(names, params, n + 1);
    } else {
        assert(names.take(n) == names);
    }
}

proof fn lemma_option_words()
    ensures
        "all"@ != "none"@,
        !is_level_word("all"@) && !is_position_word("all"@),
        !is_level_word("none"@) && !is_position_word("none"@),
        !is_parameters_word("print"@) && !is_position_word("print"@),
        !is_parameters_word("trace"@) && !is_position_word("trace"@),
        !is_parameters_word("debug"@) && !is_position_word("debug"@),
        !is_parameters_word("info"@) && !is_position_word("info"@),
        !is_parameters_word("warn"@) && !is_position_word("warn"@),
        !is_parameters_word("error"@) && !is_position_word("error"@),
        !is_parameters_word("onStart"@) && !is_level_word("onStart"@),
        !is_parameters_word("onEnd"@) && !is_level_word("onEnd"@),
        !is_parameters_word("onStartEnd"@) && !is_level_word("onStartEnd"@),
        decode_level("print"@) == OutputType::Print,
        decode_level("trace"@) == OutputType::Trace,
        decode_level("debug"@) == OutputType::Debug,
        decode_level("info"@) == OutputType::Info,
        decode_level("warn"@) == OutputType::Warn,
        decode_level("error"@) == OutputType::Error,
        decode_position("onStart"@) == OutputPosition::OnStart,
        decode_position("onEnd"@) == OutputPosition::OnEnd,
        decode_position("onStartEnd"@) == OutputPosition::OnStartAndEnd,
        decode_parameters("all"@) == ParameterEnum::AllParameters,
        decode_parameters("none"@) == ParameterEnum::NoneParameter,
        decode_parameters("params"@) == ParameterEnum::Specified,
        "retVal"@ != "all"@ && "retVal"@ != "none"@,
        !is_level_word("retVal"@) && !is_position_word("retVal"@),
{
    reveal_strlit("all");
    assert("all"@.len() == 3 && "all"@[0] == 'a');
    reveal_strlit("none");
    assert("none"@.len() == 4 && "none"@[0] == 'n');
    reveal_strlit("print");
    assert("print"@.len() == 5 && "print"@[0] == 'p');
    reveal_strlit("trace");
    assert("trace"@.len() == 5 && "trace"@[0] == 't');
    reveal_strlit("debug");
    assert("debug"@.len() == 5 && "debug"@[0] == 'd');
    reveal_strlit("info");
    assert("info"@.len() == 4 && "info"@[0] == 'i');
    reveal_strlit("warn");
    assert("warn"@.len() == 4 && "warn"@[0] == 'w');
    reveal_strlit("error");
    assert("error"@.len() == 5 && "error"@[0] == 'e');
    reveal_strlit("onStart");
    assert("onStart"@.len() == 7 && "onStart"@[0] == 'o');
    reveal_strlit("onEnd");
    assert("onEnd"@.len() == 5 && "onEnd"@[0] == 'o');
    reveal_strlit("onStartEnd");
    assert("onStartEnd"@.len() == 10 && "onStartEnd"@[0] == 'o');
    reveal_strlit("retVal");
    assert("retVal"@.len() == 6 && "retVal"@[0] == 'r');
    reveal_strlit("params");
    assert("params"@.len() == 6 && "params"@[0] == 'p');
}

} // verus!
