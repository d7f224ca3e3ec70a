//! Helpers on text, stated over the character sequences that strings view as.

use vstd::prelude::*;

verus! {

/// The sequences in `parts`, with `sep` between each two neighbours.
pub open spec fn joined(parts: Seq<Seq<char>>, sep: Seq<char>) -> Seq<char>
    decreases parts.len(),
{
    if parts.len() == 0 {
        Seq::empty()
    } else if parts.len() == 1 {
        parts[0]
    } else {
        joined(parts.drop_last(), sep) + sep + parts.last()
    }
}

/// Joins the strings of `parts`, putting `sep` between each two neighbours.
pub(crate) fn join(parts: &Vec<String>, sep: &str) -> (r: String)
    ensures
        r@ == joined(parts.deep_view(), sep@),
{
    let mut r = String::new();
    let mut i: usize = 0;
    while i < parts.len()
        invariant
            i <= parts.len(),
            r@ == joined(parts.deep_view().take(i as int), sep@),
        decreases parts.len() - i,
    {
        proof {
            let dv = parts.deep_view();
            assert(dv.take(i + 1).drop_last() == dv.take(i as int));
            assert(dv.take(i + 1).last() == parts[i as int]@);
        }
        if i > 0 {
            r.append(sep);
        }
        r.append(parts[i].as_str());
        i = i + 1;
    }
    proof {
        assert(parts.deep_view().take(parts.len() as int) == parts.deep_view());
    }
    r
}

/// A copy of `names`, element by element.
pub(crate) fn clone_names(names: &Vec<String>) -> (r: Vec<String>)
    ensures
        r.deep_view() == names.deep_view(),
{
    let mut r: Vec<String> = Vec::new();
    let mut i: usize = 0;
    while i < names.len()
        invariant
            i <= names.len(),
            r.deep_view() == names.deep_view().take(i as int),
        decreases names.len() - i,
    {
        let ghost prev = r.deep_view();
        r.push(names[i].clone());
        proof {
            assert(r.deep_view() =~= prev.push(names@[i as int]@));
            assert(names.deep_view().take(i + 1) =~= names.deep_view().take(i as int).push(
                names@[i as int]@,
            ));
        }
        i = i + 1;
    }
    proof {
        assert(names.deep_view().take(names.len() as int) == names.deep_view());
    }
    r
}

/// Whether `names` holds a string equal to `name`.
pub(crate) fn contains_name(names: &Vec<String>, name: &String) -> (r: bool)
    ensures
        r == names.deep_view().contains(name@),
{
    let mut i: usize = 0;
    while i < names.len()
        invariant
            i <= names.len(),
            forall|k: int| 0 <= k < i ==> names.deep_view()[k] != name@,
        decreases names.len() - i,
    {
        if names[i] == *name {
            proof {
                assert(names.deep_view()[i as int] == name@);
            }
            return true;
        }
        i = i + 1;
    }
    false
}

/// Whether the string `w` reads `lit`.
pub(crate) fn word_is(w: &String, lit: &str) -> (r: bool)
    ensures
        r == (w@ == lit@),
{
    *w == String::from_str(lit)
}

/// Appends the word `w` to `words`.
pub(crate) fn push_word(words: &mut Vec<String>, w: &str)
    ensures
        final(words).deep_view() == old(words).deep_view().push(w@),
{
    let ghost prev = words.deep_view();
    words.push(String::from_str(w));
    proof {
        assert(words.deep_view() =~= prev.push(w@));
    }
}

} // verus!
