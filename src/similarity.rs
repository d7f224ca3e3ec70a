//! Spelling suggestions for unknown options: a case-insensitive substring
//! test or an edit distance of at most two.

use vstd::prelude::*;

use crate::error::opt_view;

verus! {

/// Classic edit distance: insertions, deletions and substitutions of one
/// character, each of cost one.
pub open spec fn edit_distance(a: Seq<char>, b: Seq<char>) -> nat
    decreases a.len() + b.len(),
{
    if a.len() == 0 {
        b.len()
    } else if b.len() == 0 {
        a.len()
    } else {
        let cost: nat = if a.last() == b.last() { 0 } else { 1 };
        let del = edit_distance(a.drop_last(), b) + 1;
        let ins = edit_distance(a, b.drop_last()) + 1;
        let sub = edit_distance(a.drop_last(), b.drop_last()) + cost;
        if del <= ins && del <= sub {
            del
        } else if ins <= sub {
            ins
        } else {
            sub
        }
    }
}

/// `needle` occurs in `hay` as a contiguous run of characters.
pub open spec fn occurs_in(needle: Seq<char>, hay: Seq<char>) -> bool {
    exists|i: int| 0 <= i && i + needle.len() <= hay.len() && #[trigger] hay.subrange(i, i + needle.len()) == needle
}

/// Two already lower-cased words are similar when one contains the other
/// or their edit distance is at most two.
pub open spec fn similar(a: Seq<char>, b: Seq<char>) -> bool {
    occurs_in(b, a) || occurs_in(a, b) || edit_distance(a, b) <= 2
}

/// What `str::to_lowercase` gives for a string.
pub uninterp spec fn lower_of(s: Seq<char>) -> Seq<char>;

/// Relies on `str::to_lowercase`: the lower-case form of `s`, which depends
/// on the characters of `s` alone.
#[verifier::external_body]
fn lowercase(s: &str) -> (r: String)
    ensures
        r@ == lower_of(s@),
{
    s.to_lowercase()
}

/// The option words, in the order in which suggestions are tried.
pub open spec fn vocabulary() -> Seq<Seq<char>> {
    seq![
        "all"@, "none"@, "print"@, "trace"@, "debug"@, "info"@, "warn"@, "error"@,
        "onStart"@, "onEnd"@, "onStartEnd"@, "retVal"@, "params"@,
    ]
}

/// The first option word from position `i` on that is similar to the
/// lower-cased `lowered`, both compared in lower case.
pub open spec fn suggestion_from(lowered: Seq<char>, i: int) -> Option<Seq<char>>
    decreases vocabulary().len() - i,
{
    if i < 0 || i >= vocabulary().len() {
        None
    } else if similar(lowered, lower_of(vocabulary()[i])) {
        Some(vocabulary()[i])
    } else {
        suggestion_from(lowered, i + 1)
    }
}

/// The suggestion offered for an unknown option word.
pub open spec fn suggestion_for(input: Seq<char>) -> Option<Seq<char>> {
    suggestion_from(lower_of(input), 0)
}

proof fn lemma_edit_distance_bound(a: Seq<char>, b: Seq<char>)
    ensures
        edit_distance(a, b) <= if a.len() >= b.len() { a.len() } else { b.len() },
    decreases a.len() + b.len(),
{
    if a.len() > 0 && b.len() > 0 {
        lemma_edit_distance_bound(a.drop_last(), b.drop_last());
    }
}

fn vocabulary_word(i: usize) -> (r: &'static str)
    requires
        i < vocabulary().len(),
    ensures
        r@ == vocabulary()[i as int],
{
    match i {
        0 => "all",
        1 => "none",
        2 => "print",
        3 => "trace",
        4 => "debug",
        5 => "info",
        6 => "warn",
        7 => "error",
        8 => "onStart",
        9 => "onEnd",
        10 => "onStartEnd",
        11 => "retVal",
        _ => "params",
    }
}

/// The characters of `s`, in order.
pub(crate) fn chars_of(s: &str) -> (r: Vec<char>)
    ensures
        r@ == s@,
{
    let n = s.unicode_len();
    let mut r: Vec<char> = Vec::new();
    let mut i: usize = 0;
    while i < n
        invariant
            n == s@.len(),
            i <= n,
            r@ == s@.take(i as int),
        decreases n - i,
    {
        r.push(s.get_char(i));
        proof {
            assert(s@.take(i + 1) == s@.take(i as int).push(s@[i as int]));
        }
        i = i + 1;
    }
    proof {
        assert(s@.take(n as int) == s@);
    }
    r
}

fn occurs_at(needle: &Vec<char>, hay: &Vec<char>, at: usize) -> (r: bool)
    requires
        at + needle.len() <= hay.len(),
    ensures
        r == (hay@.subrange(at as int, at + needle.len()) == needle@),
{
    let mut j: usize = 0;
    while j < needle.len()
        invariant
            at + needle.len() <= hay.len(),
            j <= needle.len(),
            forall|k: int| 0 <= k < j ==> hay@[at + k] == needle@[k],
        decreases needle.len() - j,
    {
        if hay[at + j] != needle[j] {
            proof {
                assert(hay@.subrange(at as int, at + needle.len())[j as int] != needle@[j as int]);
            }
            return false;
        }
        j = j + 1;
    }
    proof {
        assert(hay@.subrange(at as int, at + needle.len()) =~= needle@);
    }
    true
}

fn occurs(needle: &Vec<char>, hay: &Vec<char>) -> (r: bool)
    ensures
        r == occurs_in(needle@, hay@),
{
    if needle.len() > hay.len() {
        return false;
    }
    let last = hay.len() - needle.len();
    let mut i: usize = 0;
    while i <= last
        invariant
            last + needle.len() == hay.len(),
            forall|k: int| 0 <= k < i ==> #[trigger] hay@.subrange(k, k + needle@.len()) != needle@,
        decreases last + 1 - i,
    {
        if occurs_at(needle, hay, i) {
            return true;
        }
        if i == last {
            proof {
                assert forall|k: int| 0 <= k && k + needle@.len() <= hay@.len() implies #[trigger] hay@.subrange(
                    k,
                    k + needle@.len(),
                ) != needle@ by {
                    if k < i {
                    }
                }
            }
            return false;
        }
        i = i + 1;
    }
    false
}

/// The edit distance between `a` and `b`.
pub fn levenshtein_distance(a: &str, b: &str) -> (r: usize)
    ensures
        r == edit_distance(a@, b@),
{
    let a_chars = chars_of(a);
    let b_chars = chars_of(b);
    let a_len = a_chars.len();
    let b_len = b_chars.len();
    // prev[j] is the distance between the first i characters of a and the
    // first j characters of b.
    let mut prev: Vec<usize> = Vec::new();
    prev.push(0);
    let mut j: usize = 0;
    while j < b_len
        invariant
            j <= b_len,
            b_len == b@.len(),
            prev@.len() == j + 1,
            forall|k: int| 0 <= k <= j ==> prev@[k] == edit_distance(a@.take(0), b@.take(k)),
        decreases b_len - j,
    {
        j = j + 1;
        proof {
            assert(b@.take(j as int).len() == j);
        }
        prev.push(j);
    }
    let mut i: usize = 0;
    while i < a_len
        invariant
            i <= a_len,
            a_chars@ == a@,
            b_chars@ == b@,
            a_len == a@.len(),
            b_len == b@.len(),
            prev@.len() == b_len + 1,
            forall|k: int| 0 <= k <= b_len ==> prev@[k] == edit_distance(a@.take(i as int), b@.take(k)),
        decreases a_len - i,
    {
        let mut cur: Vec<usize> = Vec::new();
        proof {
            assert(a@.take(i + 1).len() == i + 1);
            assert(b@.take(0).len() == 0);
        }
        cur.push(i + 1);
        let mut j: usize = 0;
        while j < b_len
            invariant
                i < a_len,
                j <= b_len,
                a_chars@ == a@,
                b_chars@ == b@,
                a_len == a@.len(),
                b_len == b@.len(),
                prev@.len() == b_len + 1,
                cur@.len() == j + 1,
                forall|k: int| 0 <= k <= b_len ==> prev@[k] == edit_distance(a@.take(i as int), b@.take(k)),
                forall|k: int| 0 <= k <= j ==> cur@[k] == edit_distance(a@.take(i + 1), b@.take(k)),
            decreases b_len - j,
        {
            let ghost ai = a@.take(i + 1);
            let ghost bj = b@.take(j + 1);
            proof {
                assert(ai.drop_last() == a@.take(i as int));
                assert(bj.drop_last() == b@.take(j as int));
                assert(ai.last() == a@[i as int]);
                assert(bj.last() == b@[j as int]);
                assert(ai.len() > 0 && bj.len() > 0);
                lemma_edit_distance_bound(a@.take(i as int), b@.take(j as int));
            }
            let cost: usize = if a_chars[i] == b_chars[j] { 0 } else { 1 };
            let diag = prev[j] + cost;
            let up = prev[j + 1];
            let left = cur[j];
            let m = if up <= left { up } else { left };
            let v = if m < diag { m + 1 } else { diag };
            cur.push(v);
            j = j + 1;
        }
        prev = cur;
        i = i + 1;
    }
    proof {
        assert(a@.take(a_len as int) == a@);
        assert(b@.take(b_len as int) == b@);
    }
    prev[b_len]
}

/// Whether two lower-cased words are similar.
pub fn is_similar_lowered(a: &str, b: &str) -> (r: bool)
    ensures
        r == similar(a@, b@),
{
    let a_chars = chars_of(a);
    let b_chars = chars_of(b);
    if occurs(&b_chars, &a_chars) || occurs(&a_chars, &b_chars) {
        return true;
    }
    levenshtein_distance(a, b) <= 2
}

/// Whether two words are similar, compared in lower case.
pub fn is_similar(a: &str, b: &str) -> (r: bool)
    ensures
        r == similar(lower_of(a@), lower_of(b@)),
{
    let a_lower = lowercase(a);
    let b_lower = lowercase(b);
    is_similar_lowered(a_lower.as_str(), b_lower.as_str())
}

/// The first option word similar to `input`, if there is one.
pub fn suggest_similar_attribute(input: &str) -> (r: Option<String>)
    ensures
        opt_view(r) == suggestion_for(input@),
{
    let mut i: usize = 0;
    while i < 13
        invariant
            vocabulary().len() == 13,
            i <= 13,
            suggestion_for(input@) == suggestion_from(lower_of(input@), i as int),
        decreases 13 - i,
    {
        let word = vocabulary_word(i);
        if is_similar(input, word) {
            return Some(String::from_str(word));
        }
        i = i + 1;
    }
    None
}

} // verus!
