//! General properties of the configuration compiler.

use vstd::prelude::*;

use crate::config::{ConfigModel, OutputPosition, OutputType};
use crate::config_builder::{
    compile, decode_level, decode_parameters, decode_position, first_unknown, has_ret_val,
    is_level_word, is_parameters_word, is_position_word, is_ret_val, keyword_of, keywords,
    lemma_scan_error_extends, restricted, scan_error, specified_names, token_error, AttrToken, OptionCategory,
    ParameterEnum,
};
use crate::error::ConfigErrorView;

verus! {

/// Token `t` is a recognised option that a function with parameters
/// `params` accepts: an option word, or `params(...)` naming only
/// parameters of the function.
pub open spec fn is_valid_option(t: AttrToken, params: Seq<Seq<char>>) -> bool {
    match t {
        AttrToken::Word(w) => is_parameters_word(w@) || is_level_word(w@) || is_position_word(w@) || w@
            == "retVal"@,
        AttrToken::List { name, items } => name@ == "params"@ && (items matches Ok(v) && (forall|i: int|
            0 <= i < v.len() ==> params.contains(#[trigger] v.deep_view()[i]))),
        AttrToken::Other => false,
    }
}

/// Tokens `a` and `b` propose a value for the same option category, or
/// are both `retVal`.
pub open spec fn same_category(a: AttrToken, b: AttrToken) -> bool {
    ||| (keyword_of(a, OptionCategory::Parameters) is Some && keyword_of(b, OptionCategory::Parameters) is Some)
    ||| (keyword_of(a, OptionCategory::Level) is Some && keyword_of(b, OptionCategory::Level) is Some)
    ||| (keyword_of(a, OptionCategory::Position) is Some && keyword_of(b, OptionCategory::Position) is Some)
    ||| (is_ret_val(a) && is_ret_val(b))
}

/// The parameters that a parameter option `t` shows of a function with
/// parameters `params`, in declaration order.
pub open spec fn shown_by(t: AttrToken, params: Seq<Seq<char>>) -> Seq<Seq<char>> {
    match t {
        AttrToken::Word(w) => if w@ == "none"@ { Seq::empty() } else { params },
        AttrToken::List { name, items } => match items {
            Ok(v) => restricted(params, v.deep_view()),
            Err(_) => params,
        },
        AttrToken::Other => params,
    }
}

proof fn lemma_first_unknown_none(names: Seq<Seq<char>>, params: Seq<Seq<char>>)
    requires
        forall|i: int| 0 <= i < names.len() ==> params.contains(#[trigger] names[i]),
    ensures
        first_unknown(names, params) is None,
    decreases names.len(),
{
    if names.len() > 0 {
        let pre = names.drop_last();
        assert forall|i: int| 0 <= i < pre.len() implies params.contains(#[trigger] pre[i]) by {
            assert(pre[i] == names[i]);
        }
        lemma_first_unknown_none(pre, params);
        assert(params.contains(names[names.len() - 1]));
    }
}

proof fn lemma_has_ret_val(toks: Seq<AttrToken>)
    ensures
        has_ret_val(toks) <==> exists|j: int| 0 <= j < toks.len() && is_ret_val(#[trigger] toks[j]),
    decreases toks.len(),
{
    if toks.len() > 0 {
        let pre = toks.drop_last();
        lemma_has_ret_val(pre);
        if has_ret_val(toks) {
            if is_ret_val(toks.last()) {
                assert(is_ret_val(toks[toks.len() - 1]));
            } else {
                let j = choose|j: int| 0 <= j < pre.len() && is_ret_val(#[trigger] pre[j]);
                assert(toks[j] == pre[j]);
            }
        } else {
            assert forall|j: int| 0 <= j < toks.len() implies !is_ret_val(#[trigger] toks[j]) by {
                if j < pre.len() {
                    assert(toks[j] == pre[j]);
                }
            }
        }
    }
}

/// Every token of `toks` is valid and no two of them are `retVal`.
pub open spec fn all_valid(toks: Seq<AttrToken>, params: Seq<Seq<char>>) -> bool {
    &&& forall|j: int| 0 <= j < toks.len() ==> is_valid_option(#[trigger] toks[j], params)
    &&& forall|i: int, j: int|
        0 <= i < j < toks.len() ==> !(is_ret_val(#[trigger] toks[i]) && is_ret_val(#[trigger] toks[j]))
}

proof fn lemma_scan_clean(toks: Seq<AttrToken>, params: Seq<Seq<char>>)
    requires
        all_valid(toks, params),
    ensures
        scan_error(toks, params) is None,
    decreases toks.len(),
{
    if toks.len() > 0 {
        let pre = toks.drop_last();
        let n = toks.len() - 1;
        assert forall|j: int| 0 <= j < pre.len() implies is_valid_option(#[trigger] pre[j], params) by {
            assert(pre[j] == toks[j]);
        }
        assert forall|i: int, j: int| 0 <= i < j < pre.len() implies !(is_ret_val(
            #[trigger] pre[i],
        ) && is_ret_val(#[trigger] pre[j])) by {
            assert(pre[i] == toks[i] && pre[j] == toks[j]);
        }
        lemma_scan_clean(pre, params);
        let t = toks[n];
        assert(is_valid_option(t, params));
        match t {
            AttrToken::Word(w) => {
                if w@ == "retVal"@ {
                    lemma_has_ret_val(pre);
                    if has_ret_val(pre) {
                        let j = choose|j: int| 0 <= j < pre.len() && is_ret_val(#[trigger] pre[j]);
                        assert(pre[j] == toks[j]);
                        assert(is_ret_val(toks[n]));
                    }
                }
            },
            AttrToken::List { name, items } => {
                let v = items->Ok_0;
                lemma_first_unknown_none(v.deep_view(), params);
            },
            AttrToken::Other => {},
        }
        assert(token_error(toks.last(), pre, params) is None);
    }
}

proof fn lemma_keywords_concat(a: Seq<AttrToken>, b: Seq<AttrToken>, c: OptionCategory)
    ensures
        keywords(a + b, c) == keywords(a, c) + keywords(b, c),
    decreases b.len(),
{
    if b.len() == 0 {
        assert(a + b == a);
        assert(keywords(a, c) + keywords(b, c) == keywords(a, c));
    } else {
        assert((a + b).drop_last() == a + b.drop_last());
        assert((a + b).last() == b.last());
        lemma_keywords_concat(a, b.drop_last(), c);
        match keyword_of(b.last(), c) {
            Some(k) => {
                assert(keywords(a, c) + keywords(b.drop_last(), c).push(k) == (keywords(a, c) + keywords(
                    b.drop_last(),
                    c,
                )).push(k));
            },
            None => {},
        }
    }
}

proof fn lemma_keywords_none(toks: Seq<AttrToken>, c: OptionCategory)
    requires
        forall|j: int| 0 <= j < toks.len() ==> keyword_of(#[trigger] toks[j], c) is None,
    ensures
        keywords(toks, c) == Seq::<Seq<char>>::empty(),
    decreases toks.len(),
{
    if toks.len() > 0 {
        let pre = toks.drop_last();
        assert forall|j: int| 0 <= j < pre.len() implies keyword_of(#[trigger] pre[j], c) is None by {
            assert(pre[j] == toks[j]);
        }
        lemma_keywords_none(pre, c);
        assert(keyword_of(toks[toks.len() - 1], c) is None);
    }
}

proof fn lemma_keywords_single(t: AttrToken, c: OptionCategory)
    ensures
        keywords(seq![t], c) == match keyword_of(t, c) {
            Some(k) => seq![k],
            None => Seq::<Seq<char>>::empty(),
        },
{
    assert(seq![t].drop_last() =~= Seq::<AttrToken>::empty());
    assert(seq![t].last() == t);
    assert(keywords(Seq::<AttrToken>::empty(), c) == Seq::<Seq<char>>::empty());
    match keyword_of(t, c) {
        Some(k) => {
            assert(Seq::<Seq<char>>::empty().push(k) =~= seq![k]);
        },
        None => {},
    }
}

/// Splits `toks` around position `j`.
proof fn lemma_split(toks: Seq<AttrToken>, j: int)
    requires
        0 <= j < toks.len(),
    ensures
        toks == toks.take(j) + seq![toks[j]] + toks.skip(j + 1),
{
    assert(toks =~= toks.take(j) + seq![toks[j]] + toks.skip(j + 1));
}

/// When `j` is the only token of category `c`, its keyword is the only one.
proof fn lemma_keywords_unique(toks: Seq<AttrToken>, c: OptionCategory, j: int)
    requires
        0 <= j < toks.len(),
        keyword_of(toks[j], c) is Some,
        forall|i: int| 0 <= i < toks.len() && i != j ==> keyword_of(#[trigger] toks[i], c) is None,
    ensures
        keywords(toks, c) == seq![keyword_of(toks[j], c)->Some_0],
{
    let a = toks.take(j);
    let b = toks.skip(j + 1);
    lemma_split(toks, j);
    assert forall|i: int| 0 <= i < a.len() implies keyword_of(#[trigger] a[i], c) is None by {
        assert(a[i] == toks[i]);
    }
    assert forall|i: int| 0 <= i < b.len() implies keyword_of(#[trigger] b[i], c) is None by {
        assert(b[i] == toks[j + 1 + i]);
    }
    lemma_keywords_none(a, c);
    lemma_keywords_none(b, c);
    lemma_keywords_single(toks[j], c);
    lemma_keywords_concat(a, seq![toks[j]], c);
    lemma_keywords_concat(a + seq![toks[j]], b, c);
    assert(Seq::<Seq<char>>::empty() + seq![keyword_of(toks[j], c)->Some_0] + Seq::<Seq<char>>::empty()
        == seq![keyword_of(toks[j], c)->Some_0]);
}

/// When no token after `j` is a parameter option, the names chosen by
/// `params(...)` are those of token `j`.
proof fn lemma_specified_names_last(toks: Seq<AttrToken>, j: int)
    requires
        0 <= j < toks.len(),
        toks[j] matches AttrToken::List { name, items } && name@ == "params"@ && items is Ok,
        forall|i: int| j < i < toks.len() ==> keyword_of(#[trigger] toks[i], OptionCategory::Parameters) is None,
    ensures
        specified_names(toks) == toks[j]->List_items->Ok_0.deep_view(),
    decreases toks.len(),
{
    if j < toks.len() - 1 {
        let pre = toks.drop_last();
        assert forall|i: int| j < i < pre.len() implies keyword_of(
            #[trigger] pre[i],
            OptionCategory::Parameters,
        ) is None by {
            assert(pre[i] == toks[i]);
        }
        assert(pre[j] == toks[j]);
        lemma_specified_names_last(pre, j);
        assert(keyword_of(toks[toks.len() - 1], OptionCategory::Parameters) is None);
    }
}

/// An option list of valid options, with at most one option of each
/// category, compiles; each category takes the value that its option
/// decodes to, or its default when no option of it is given.
pub proof fn law_valid_options_compile(
    toks: Seq<AttrToken>,
    name: Seq<char>,
    params: Seq<Seq<char>>,
    has_return: bool,
)
    requires
        forall|j: int| 0 <= j < toks.len() ==> is_valid_option(#[trigger] toks[j], params),
        forall|i: int, j: int|
            0 <= i < j < toks.len() ==> !same_category(#[trigger] toks[i], #[trigger] toks[j]),
    ensures
        compile(toks, name, params, has_return) is Ok,
        compile(toks, name, params, has_return) matches Ok(c) ==> {
            &&& c.func_name == name
            &&& c.func_params_for_invoke == params
            &&& c.func_has_return == has_return
            &&& c.output_ret_value == exists|j: int| 0 <= j < toks.len() && is_ret_val(#[trigger] toks[j])
            &&& forall|j: int|
                0 <= j < toks.len() && keyword_of(#[trigger] toks[j], OptionCategory::Position) is Some
                    ==> c.output_position == decode_position(
                    keyword_of(toks[j], OptionCategory::Position)->Some_0,
                )
            &&& (forall|j: int|
                0 <= j < toks.len() ==> keyword_of(#[trigger] toks[j], OptionCategory::Position) is None)
                ==> c.output_position == OutputPosition::OnStartAndEnd
            &&& forall|j: int|
                0 <= j < toks.len() && keyword_of(#[trigger] toks[j], OptionCategory::Level) is Some
                    ==> c.output_type == decode_level(keyword_of(toks[j], OptionCategory::Level)->Some_0)
            &&& (forall|j: int|
                0 <= j < toks.len() ==> keyword_of(#[trigger] toks[j], OptionCategory::Level) is None)
                ==> c.output_type == OutputType::Print
            &&& forall|j: int|
                0 <= j < toks.len() && keyword_of(#[trigger] toks[j], OptionCategory::Parameters) is Some
                    ==> c.func_params_for_output == shown_by(toks[j], params)
            &&& (forall|j: int|
                0 <= j < toks.len() ==> keyword_of(#[trigger] toks[j], OptionCategory::Parameters) is None)
                ==> c.func_params_for_output == params
        },
{
    assert forall|i: int, j: int| 0 <= i < j < toks.len() implies !(is_ret_val(#[trigger] toks[i])
        && is_ret_val(#[trigger] toks[j])) by {
        assert(!same_category(toks[i], toks[j]));
    }
    lemma_scan_clean(toks, params);
    lemma_has_ret_val(toks);
    assert forall|c: OptionCategory| #[trigger] keywords(toks, c).len() <= 1 by {
        if exists|j: int| 0 <= j < toks.len() && keyword_of(#[trigger] toks[j], c) is Some {
            let j = choose|j: int| 0 <= j < toks.len() && keyword_of(#[trigger] toks[j], c) is Some;
            assert forall|i: int| 0 <= i < toks.len() && i != j implies keyword_of(
                #[trigger] toks[i],
                c,
            ) is None by {
                if i < j {
                    assert(!same_category(toks[i], toks[j]));
                } else {
                    assert(!same_category(toks[j], toks[i]));
                }
            }
            lemma_keywords_unique(toks, c, j);
        } else {
            lemma_keywords_none(toks, c);
        }
    }
    assert(keywords(toks, OptionCategory::Parameters).len() <= 1);
    assert(keywords(toks, OptionCategory::Level).len() <= 1);
    assert(keywords(toks, OptionCategory::Position).len() <= 1);
    assert(compile(toks, name, params, has_return) is Ok);
    let c = compile(toks, name, params, has_return)->Ok_0;
    assert forall|j: int|
        0 <= j < toks.len() && keyword_of(#[trigger] toks[j], OptionCategory::Position) is Some implies c.output_position
        == decode_position(keyword_of(toks[j], OptionCategory::Position)->Some_0) by {
        assert forall|i: int| 0 <= i < toks.len() && i != j implies keyword_of(
            #[trigger] toks[i],
            OptionCategory::Position,
        ) is None by {
            if i < j {
                assert(!same_category(toks[i], toks[j]));
            } else {
                assert(!same_category(toks[j], toks[i]));
            }
        }
        lemma_keywords_unique(toks, OptionCategory::Position, j);
    }
    if forall|j: int| 0 <= j < toks.len() ==> keyword_of(#[trigger] toks[j], OptionCategory::Position) is None {
        lemma_keywords_none(toks, OptionCategory::Position);
    }
    assert forall|j: int|
        0 <= j < toks.len() && keyword_of(#[trigger] toks[j], OptionCategory::Level) is Some implies c.output_type
        == decode_level(keyword_of(toks[j], OptionCategory::Level)->Some_0) by {
        assert forall|i: int| 0 <= i < toks.len() && i != j implies keyword_of(
            #[trigger] toks[i],
            OptionCategory::Level,
        ) is None by {
            if i < j {
                assert(!same_category(toks[i], toks[j]));
            } else {
                assert(!same_category(toks[j], toks[i]));
            }
        }
        lemma_keywords_unique(toks, OptionCategory::Level, j);
    }
    if forall|j: int| 0 <= j < toks.len() ==> keyword_of(#[trigger] toks[j], OptionCategory::Level) is None {
        lemma_keywords_none(toks, OptionCategory::Level);
    }
    assert forall|j: int|
        0 <= j < toks.len() && keyword_of(#[trigger] toks[j], OptionCategory::Parameters) is Some implies c.func_params_for_output
        == shown_by(toks[j], params) by {
        assert forall|i: int| 0 <= i < toks.len() && i != j implies keyword_of(
            #[trigger] toks[i],
            OptionCategory::Parameters,
        ) is None by {
            if i < j {
                assert(!same_category(toks[i], toks[j]));
            } else {
                assert(!same_category(toks[j], toks[i]));
            }
        }
        lemma_keywords_unique(toks, OptionCategory::Parameters, j);
        lemma_parameters_decoded(toks[j], params);
        if toks[j] is List {
            lemma_specified_names_last(toks, j);
        }
    }
    if forall|j: int|
        0 <= j < toks.len() ==> keyword_of(#[trigger] toks[j], OptionCategory::Parameters) is None {
        lemma_keywords_none(toks, OptionCategory::Parameters);
    }
}

proof fn lemma_parameters_decoded(t: AttrToken, params: Seq<Seq<char>>)
    requires
        is_valid_option(t, params),
        keyword_of(t, OptionCategory::Parameters) is Some,
    ensures
        t is List ==> keyword_of(t, OptionCategory::Parameters) == Some("params"@),
        t is Word ==> keyword_of(t, OptionCategory::Parameters) == Some(t->Word_0@),
        t is Word ==> is_parameters_word(t->Word_0@),
        decode_parameters(keyword_of(t, OptionCategory::Parameters)->Some_0) == (if t is List {
            ParameterEnum::Specified
        } else if t->Word_0@ == "none"@ {
            ParameterEnum::NoneParameter
        } else {
            ParameterEnum::AllParameters
        }),
{
    reveal_strlit("all");
    reveal_strlit("none");
    reveal_strlit("params");
    assert("all"@.len() == 3 && "none"@.len() == 4 && "params"@.len() == 6);
}

proof fn lemma_keywords_at_most_one(toks: Seq<AttrToken>, d: OptionCategory)
    requires
        forall|a: int, b: int|
            0 <= a < b < toks.len() ==> !(keyword_of(#[trigger] toks[a], d) is Some && keyword_of(
                #[trigger] toks[b],
                d,
            ) is Some),
    ensures
        keywords(toks, d).len() <= 1,
{
    if exists|j: int| 0 <= j < toks.len() && keyword_of(#[trigger] toks[j], d) is Some {
        let j = choose|j: int| 0 <= j < toks.len() && keyword_of(#[trigger] toks[j], d) is Some;
        assert forall|i: int| 0 <= i < toks.len() && i != j implies keyword_of(#[trigger] toks[i], d) is None by {
            if i < j {
                assert(!(keyword_of(toks[i], d) is Some && keyword_of(toks[j], d) is Some));
            } else {
                assert(!(keyword_of(toks[j], d) is Some && keyword_of(toks[i], d) is Some));
            }
        }
        lemma_keywords_unique(toks, d, j);
    } else {
        lemma_keywords_none(toks, d);
    }
}

/// Category `d` is checked for conflicts before category `c`.
pub open spec fn checked_before(d: OptionCategory, c: OptionCategory) -> bool {
    ||| (d is Parameters && !(c is Parameters))
    ||| (d is Level && c is Position)
}

/// Among valid options, two options of one category conflict: compiling
/// fails and names the first two options of that category in the order
/// given, provided no category checked earlier was given twice.
pub proof fn law_conflicting_options(
    toks: Seq<AttrToken>,
    name: Seq<char>,
    params: Seq<Seq<char>>,
    has_return: bool,
    c: OptionCategory,
    i: int,
    j: int,
)
    requires
        all_valid(toks, params),
        0 <= i < j < toks.len(),
        keyword_of(toks[i], c) is Some,
        keyword_of(toks[j], c) is Some,
        forall|k: int| 0 <= k < j && k != i ==> keyword_of(#[trigger] toks[k], c) is None,
        forall|d: OptionCategory, a: int, b: int|
            checked_before(d, c) && 0 <= a < b < toks.len() ==> !(#[trigger] keyword_of(toks[a], d) is Some
                && #[trigger] keyword_of(toks[b], d) is Some),
    ensures
        compile(toks, name, params, has_return) == Err::<ConfigModel, ConfigErrorView>(
            ConfigErrorView::ConflictingOptions {
                option1: keyword_of(toks[i], c)->Some_0,
                option2: keyword_of(toks[j], c)->Some_0,
            },
        ),
{
    lemma_scan_clean(toks, params);
    let a = toks.take(i);
    let mid = toks.subrange(i + 1, j);
    let rest = toks.skip(j + 1);
    assert(toks =~= a + seq![toks[i]] + mid + seq![toks[j]] + rest);
    assert forall|k: int| 0 <= k < a.len() implies keyword_of(#[trigger] a[k], c) is None by {
        assert(a[k] == toks[k]);
    }
    assert forall|k: int| 0 <= k < mid.len() implies keyword_of(#[trigger] mid[k], c) is None by {
        assert(mid[k] == toks[i + 1 + k]);
    }
    lemma_keywords_none(a, c);
    lemma_keywords_none(mid, c);
    lemma_keywords_single(toks[i], c);
    lemma_keywords_single(toks[j], c);
    lemma_keywords_concat(a, seq![toks[i]], c);
    lemma_keywords_concat(a + seq![toks[i]], mid, c);
    lemma_keywords_concat(a + seq![toks[i]] + mid, seq![toks[j]], c);
    lemma_keywords_concat(a + seq![toks[i]] + mid + seq![toks[j]], rest, c);
    let kws = keywords(toks, c);
    assert(kws[0] == keyword_of(toks[i], c)->Some_0);
    assert(kws[1] == keyword_of(toks[j], c)->Some_0);
    if !(c is Parameters) {
        assert forall|a: int, b: int|
            0 <= a < b < toks.len() implies !(keyword_of(#[trigger] toks[a], OptionCategory::Parameters) is Some
            && keyword_of(#[trigger] toks[b], OptionCategory::Parameters) is Some) by {
            assert(checked_before(OptionCategory::Parameters, c));
            assert(!(keyword_of(toks[a], OptionCategory::Parameters) is Some && keyword_of(
                toks[b],
                OptionCategory::Parameters,
            ) is Some));
        }
        lemma_keywords_at_most_one(toks, OptionCategory::Parameters);
    }
    if c is Position {
        assert forall|a: int, b: int|
            0 <= a < b < toks.len() implies !(keyword_of(#[trigger] toks[a], OptionCategory::Level) is Some
            && keyword_of(#[trigger] toks[b], OptionCategory::Level) is Some) by {
            assert(checked_before(OptionCategory::Level, c));
            assert(!(keyword_of(toks[a], OptionCategory::Level) is Some && keyword_of(
                toks[b],
                OptionCategory::Level,
            ) is Some));
        }
        lemma_keywords_at_most_one(toks, OptionCategory::Level);
    }
}

/// `params(n)` naming something that is not a parameter of the function
/// fails with the name and the function's parameters in order, wherever it
/// stands after valid options.
pub proof fn law_unknown_parameter(
    toks: Seq<AttrToken>,
    name: Seq<char>,
    params: Seq<Seq<char>>,
    has_return: bool,
    k: int,
    n: Seq<char>,
)
    requires
        0 <= k < toks.len(),
        toks[k] matches AttrToken::List { name: l, items } && l@ == "params"@ && (items matches Ok(v)
            && v.deep_view() == seq![n]),
        !params.contains(n),
        all_valid(toks.take(k), params),
    ensures
        compile(toks, name, params, has_return) == Err::<ConfigModel, ConfigErrorView>(
            ConfigErrorView::InvalidParameter { param: n, available: params },
        ),
{
    lemma_scan_clean(toks.take(k), params);
    let names = seq![n];
    assert(names.drop_last() =~= Seq::<Seq<char>>::empty());
    assert(first_unknown(Seq::<Seq<char>>::empty(), params) is None);
    assert(first_unknown(names, params) == Some(n));
    assert(toks.take(k + 1).drop_last() == toks.take(k));
    assert(toks.take(k + 1).last() == toks[k]);
    lemma_scan_error_extends(toks, params, k + 1);
}

/// An empty option list compiles to the defaults: console output, all
/// parameters, logging on entry and exit, no return value.
pub proof fn law_empty_list_defaults(name: Seq<char>, params: Seq<Seq<char>>, has_return: bool)
    ensures
        compile(Seq::empty(), name, params, has_return) == Ok::<ConfigModel, ConfigErrorView>(
            ConfigModel {
                output_position: OutputPosition::OnStartAndEnd,
                output_type: OutputType::Print,
                output_ret_value: false,
                func_name: name,
                func_params_for_output: params,
                func_params_for_invoke: params,
                func_has_return: has_return,
            },
        ),
{
    let toks = Seq::<AttrToken>::empty();
    assert(keywords(toks, OptionCategory::Parameters) == Seq::<Seq<char>>::empty());
    assert(keywords(toks, OptionCategory::Level) == Seq::<Seq<char>>::empty());
    assert(keywords(toks, OptionCategory::Position) == Seq::<Seq<char>>::empty());
}

proof fn lemma_first_unknown_none_all_known(names: Seq<Seq<char>>, params: Seq<Seq<char>>)
    requires
        first_unknown(names, params) is None,
    ensures
        forall|i: int| 0 <= i < names.len() ==> params.contains(#[trigger] names[i]),
    decreases names.len(),
{
    if names.len() > 0 {
        let pre = names.drop_last();
        lemma_first_unknown_none_all_known(pre, params);
        assert forall|i: int| 0 <= i < names.len() implies params.contains(#[trigger] names[i]) by {
            if i < pre.len() {
                assert(pre[i] == names[i]);
            }
        }
    }
}

proof fn lemma_scan_clean_all_valid(toks: Seq<AttrToken>, params: Seq<Seq<char>>)
    requires
        scan_error(toks, params) is None,
    ensures
        all_valid(toks, params),
    decreases toks.len(),
{
    if toks.len() > 0 {
        let pre = toks.drop_last();
        let n = toks.len() - 1;
        lemma_scan_clean_all_valid(pre, params);
        assert(token_error(toks.last(), pre, params) is None);
        let t = toks[n];
        match t {
            AttrToken::List { name, items } => {
                lemma_parameter_words();
                if name@ == "params"@ {
                    lemma_first_unknown_none_all_known(items->Ok_0.deep_view(), params);
                }
            },
            _ => {},
        }
        assert(is_valid_option(t, params));
        assert forall|j: int| 0 <= j < toks.len() implies is_valid_option(#[trigger] toks[j], params) by {
            if j < n {
                assert(pre[j] == toks[j]);
            }
        }
        lemma_has_ret_val(pre);
        assert forall|i: int, j: int| 0 <= i < j < toks.len() implies !(is_ret_val(#[trigger] toks[i])
            && is_ret_val(#[trigger] toks[j])) by {
            assert(pre[i] == toks[i]);
            if j < n {
                assert(pre[j] == toks[j]);
            } else if is_ret_val(toks[i]) && is_ret_val(toks[j]) {
                assert(is_ret_val(pre[i]));
                assert(has_ret_val(pre));
            }
        }
    }
}

proof fn lemma_parameter_words()
    ensures
        "params"@ != "param"@,
{
    reveal_strlit("params");
    reveal_strlit("param");
    assert("params"@.len() == 6 && "param"@.len() == 5);
}

proof fn lemma_two_keywords(toks: Seq<AttrToken>, c: OptionCategory, i: int, j: int)
    requires
        0 <= i < j < toks.len(),
        keyword_of(toks[i], c) is Some,
        keyword_of(toks[j], c) is Some,
    ensures
        keywords(toks, c).len() >= 2,
{
    let a = toks.take(i);
    let mid = toks.subrange(i + 1, j);
    let rest = toks.skip(j + 1);
    assert(toks =~= a + seq![toks[i]] + mid + seq![toks[j]] + rest);
    lemma_keywords_single(toks[i], c);
    lemma_keywords_single(toks[j], c);
    lemma_keywords_concat(a, seq![toks[i]], c);
    lemma_keywords_concat(a + seq![toks[i]], mid, c);
    lemma_keywords_concat(a + seq![toks[i]] + mid, seq![toks[j]], c);
    lemma_keywords_concat(a + seq![toks[i]] + mid + seq![toks[j]], rest, c);
}

/// An option list compiles only when every option is valid and no two
/// options belong to the same category (nor are both `retVal`).
pub proof fn law_compiled_options_are_valid(
    toks: Seq<AttrToken>,
    name: Seq<char>,
    params: Seq<Seq<char>>,
    has_return: bool,
)
    requires
        compile(toks, name, params, has_return) is Ok,
    ensures
        forall|j: int| 0 <= j < toks.len() ==> is_valid_option(#[trigger] toks[j], params),
        forall|i: int, j: int|
            0 <= i < j < toks.len() ==> !same_category(#[trigger] toks[i], #[trigger] toks[j]),
{
    lemma_scan_clean_all_valid(toks, params);
    assert forall|i: int, j: int| 0 <= i < j < toks.len() implies !same_category(
        #[trigger] toks[i],
        #[trigger] toks[j],
    ) by {
        if keyword_of(toks[i], OptionCategory::Parameters) is Some && keyword_of(
            toks[j],
            OptionCategory::Parameters,
        ) is Some {
            lemma_two_keywords(toks, OptionCategory::Parameters, i, j);
        }
        if keyword_of(toks[i], OptionCategory::Level) is Some && keyword_of(
            toks[j],
            OptionCategory::Level,
        ) is Some {
            lemma_two_keywords(toks, OptionCategory::Level, i, j);
        }
        if keyword_of(toks[i], OptionCategory::Position) is Some && keyword_of(
            toks[j],
            OptionCategory::Position,
        ) is Some {
            lemma_two_keywords(toks, OptionCategory::Position, i, j);
        }
    }
}

} // verus!
