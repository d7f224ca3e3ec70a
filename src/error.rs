//! Diagnostics produced when an option list cannot be compiled.

use vstd::prelude::*;

use crate::text::{join, joined};

verus! {

/// Why an option list could not be compiled into a configuration.
#[derive(Debug, Clone)]
pub enum ConfigError {
    /// A flag that may be given once was given again.
    AlreadySet(&'static str),
    /// A name in `params(...)` is not a parameter of the function.
    InvalidParameter { param: String, available: Vec<String> },
    /// An option that the attribute does not know.
    InvalidAttribute { attr: String, suggestion: Option<String> },
    /// The option list does not have the expected shape.
    ParseError(String),
    /// Two options of the same category were given.
    ConflictingOptions { option1: String, option2: String },
    /// The attribute was not placed on a function.
    MissingFunction,
    /// A parameter option was written in the wrong form.
    InvalidParameterSyntax { param: String, expected: String },
}

/// A [`ConfigError`] with its text as character sequences.
pub enum ConfigErrorView {
    AlreadySet(Seq<char>),
    InvalidParameter { param: Seq<char>, available: Seq<Seq<char>> },
    InvalidAttribute { attr: Seq<char>, suggestion: Option<Seq<char>> },
    ParseError(Seq<char>),
    ConflictingOptions { option1: Seq<char>, option2: Seq<char> },
    MissingFunction,
    InvalidParameterSyntax { param: Seq<char>, expected: Seq<char> },
}

pub open spec fn opt_view(o: Option<String>) -> Option<Seq<char>> {
    match o {
        Some(s) => Some(s@),
        None => None,
    }
}

impl View for ConfigError {
    type V = ConfigErrorView;

    open spec fn view(&self) -> ConfigErrorView {
        match self {
            ConfigError::AlreadySet(f) => ConfigErrorView::AlreadySet(f@),
            ConfigError::InvalidParameter { param, available } => ConfigErrorView::InvalidParameter {
                param: param@,
                available: available.deep_view(),
            },
            ConfigError::InvalidAttribute { attr, suggestion } => ConfigErrorView::InvalidAttribute {
                attr: attr@,
                suggestion: opt_view(*suggestion),
            },
            ConfigError::ParseError(m) => ConfigErrorView::ParseError(m@),
            ConfigError::ConflictingOptions { option1, option2 } => ConfigErrorView::ConflictingOptions {
                option1: option1@,
                option2: option2@,
            },
            ConfigError::MissingFunction => ConfigErrorView::MissingFunction,
            ConfigError::InvalidParameterSyntax { param, expected } => ConfigErrorView::InvalidParameterSyntax {
                param: param@,
                expected: expected@,
            },
        }
    }
}

/// The option reference that closes the message of an unknown option.
pub open spec fn options_reference() -> Seq<char> {
    "📖 Available configuration options:\n"@
        + "   Log levels: print, trace, debug, info, warn, error\n"@
        + "   Parameter control: all, none, params(parameter_names...)\n"@
        + "   Position control: onStart, onEnd, onStartEnd\n"@
        + "   Return value: retVal"@
}

/// The human-readable text of a diagnostic: a first line that says what is
/// wrong, then a hint on how to correct it.
pub open spec fn message_of(e: ConfigErrorView) -> Seq<char> {
    match e {
        ConfigErrorView::AlreadySet(f) => "funlog configuration error: '"@ + f
            + "' option has already been set\n"@
            + "💡 Hint: Each configuration option can only be set once, please check for duplicate configurations"@,
        ConfigErrorView::InvalidParameter { param, available } => {
            let head = "funlog parameter error: parameter '"@ + param + "' does not exist\n"@;
            if available.len() == 0 {
                head
                    + "💡 Hint: This function has no parameters, please use 'none' or remove the params() configuration"@
            } else {
                let names = joined(available, ", "@);
                head + "💡 Hint: Available parameters are: "@ + names + "\n"@
                    + "   Correct usage: #[funlog(params("@ + names + "))]"@
            }
        },
        ConfigErrorView::InvalidAttribute { attr, suggestion } => {
            let head = "funlog configuration error: unknown configuration option '"@ + attr + "'\n"@;
            match suggestion {
                Some(s) => head + "💡 Hint: Did you mean '"@ + s + "'?\n"@ + options_reference(),
                None => head + options_reference(),
            }
        },
        ConfigErrorView::ParseError(m) => "funlog parse error: "@ + m + "\n"@
            + "💡 Hint: Please check if the macro syntax is correct, example: #[funlog(debug, all)]"@,
        ConfigErrorView::ConflictingOptions { option1, option2 } => "funlog configuration conflict: '"@
            + option1 + "' and '"@ + option2 + "' cannot be used together\n"@
            + "💡 Hint: Please choose one of the options"@,
        ConfigErrorView::MissingFunction => "funlog error: can only be used on functions\n"@
            + "💡 Hint: funlog macro can only be applied to function definitions, not other items"@,
        ConfigErrorView::InvalidParameterSyntax { param, expected } => "funlog parameter syntax error: '"@
            + param + "' format is incorrect\n"@ + "💡 Hint: Expected format is "@ + expected,
    }
}

fn append_options_reference(s: &mut String)
    ensures
        final(s)@ == old(s)@ + options_reference(),
{
    s.append("📖 Available configuration options:\n");
    s.append("   Log levels: print, trace, debug, info, warn, error\n");
    s.append("   Parameter control: all, none, params(parameter_names...)\n");
    s.append("   Position control: onStart, onEnd, onStartEnd\n");
    s.append("   Return value: retVal");
}

impl ConfigError {
    /// Renders the diagnostic as the text shown to the user.
    pub fn message(&self) -> (r: String)
        ensures
            r@ == message_of(self@),
    {
        match self {
            ConfigError::AlreadySet(field) => {
                let mut s = String::from_str("funlog configuration error: '");
                s.append(field);
                s.append("' option has already been set\n");
                s.append(
                    "💡 Hint: Each configuration option can only be set once, please check for duplicate configurations",
                );
                s
            },
            ConfigError::InvalidParameter { param, available } => {
                let mut s = String::from_str("funlog parameter error: parameter '");
                s.append(param.as_str());
                s.append("' does not exist\n");
                if available.len() == 0 {
                    s.append(
                        "💡 Hint: This function has no parameters, please use 'none' or remove the params() configuration",
                    );
                } else {
                    let names = join(available, ", ");
                    s.append("💡 Hint: Available parameters are: ");
                    s.append(names.as_str());
                    s.append("\n");
                    s.append("   Correct usage: #[funlog(params(");
                    s.append(names.as_str());
                    s.append("))]");
                }
                s
            },
            ConfigError::InvalidAttribute { attr, suggestion } => {
                let mut s = String::from_str("funlog configuration error: unknown configuration option '");
                s.append(attr.as_str());
                s.append("'\n");
                match suggestion {
                    Some(hint) => {
                        s.append("💡 Hint: Did you mean '");
                        s.append(hint.as_str());
                        s.append("'?\n");
                    },
                    None => {},
                }
                append_options_reference(&mut s);
                s
            },
            ConfigError::ParseError(msg) => {
                let mut s = String::from_str("funlog parse error: ");
                s.append(msg.as_str());
                s.append("\n");
                s.append(
                    "💡 Hint: Please check if the macro syntax is correct, example: #[funlog(debug, all)]",
                );
                s
            },
            ConfigError::ConflictingOptions { option1, option2 } => {
                let mut s = String::from_str("funlog configuration conflict: '");
                s.append(option1.as_str());
                s.append("' and '");
                s.append(option2.as_str());
                s.append("' cannot be used together\n");
                s.append("💡 Hint: Please choose one of the options");
                s
            },
            ConfigError::MissingFunction => {
                let mut s = String::from_str("funlog error: can only be used on functions\n");
                s.append(
                    "💡 Hint: funlog macro can only be applied to function definitions, not other items",
                );
                s
            },
            ConfigError::InvalidParameterSyntax { param, expected } => {
                let mut s = String::from_str("funlog parameter syntax error: '");
                s.append(param.as_str());
                s.append("' format is incorrect\n");
                s.append("💡 Hint: Expected format is ");
                s.append(expected.as_str());
                s
            },
        }
    }
}

} // verus!
