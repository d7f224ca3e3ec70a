//! Configuration compiler for a function-logging attribute.
//!
//! The attribute's option list is classified, validated against the
//! annotated function's signature, checked for conflicting options and
//! compiled into a [`config::Config`], from which an emission plan
//! ([`config::Output`]) with the entry and exit log statements is derived.

use vstd::prelude::*;

use crate::config::{is_plan_of, ConfigModel, Output};
use crate::config_builder::{compile, AttrToken, ConfigBuilder};
use crate::error::{ConfigError, ConfigErrorView};
use crate::generics_item_fn::GenericsFn;

pub mod config;
pub mod config_builder;
pub mod error;
pub mod generics_item_fn;
pub mod laws;
pub mod log_template;
pub mod similarity;
pub mod text;

verus! {

/// What the attribute does with an item: nothing outside debug builds
/// (`Ok(None)`), a diagnostic when the item is not a function or its
/// options do not compile, else the configuration to emit.
pub open spec fn expansion(is_debug: bool, args: Seq<AttrToken>, item: Option<GenericsFn>) -> Result<
    Option<ConfigModel>,
    ConfigErrorView,
> {
    if !is_debug {
        Ok(None)
    } else {
        match item {
            None => Err(ConfigErrorView::MissingFunction),
            Some(f) => match compile(args, f.name@, f.params.deep_view(), f.has_return) {
                Ok(c) => Ok(Some(c)),
                Err(e) => Err(e),
            },
        }
    }
}

/// Rewrites the annotated `item` under the options `args`: `Ok(None)` leaves
/// it as it is (outside debug builds), `Ok(Some(plan))` wraps it with log
/// statements, and an error is reported instead of any function.
pub fn funlog(is_debug: bool, args: Vec<AttrToken>, item: Option<GenericsFn>) -> (r: Result<
    Option<Output>,
    ConfigError,
>)
    ensures
        r is Err <==> expansion(is_debug, args@, item) is Err,
        r matches Err(e) ==> expansion(is_debug, args@, item) == Err::<Option<ConfigModel>, _>(e@),
        r matches Ok(None) ==> expansion(is_debug, args@, item) == Ok::<_, ConfigErrorView>(
            None::<ConfigModel>,
        ),
        r matches Ok(Some(o)) ==> (expansion(is_debug, args@, item) matches Ok(Some(c)) && is_plan_of(
            o,
            c,
        )),
{
    if !is_debug {
        return Ok(None);
    }
    let func = match item {
        Some(f) => f,
        None => return Err(ConfigError::MissingFunction),
    };
    let builder = match ConfigBuilder::from(args, func) {
        Ok(b) => b,
        Err(e) => return Err(e),
    };
    match builder.build() {
        Ok(config) => Ok(Some(config.to_output())),
        Err(e) => Err(e),
    }
}

} // verus!
