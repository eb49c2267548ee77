//! Character-level helpers for paths and strings.

use vstd::prelude::*;

verus! {

/// Converts a string slice to its characters.
///
/// Relies on `str::chars` and `Iterator::collect`: the characters of the slice, in order.
#[verifier::external_body]
pub(crate) fn chars_of(s: &str) -> (r: Vec<char>)
    ensures
        r@ == s@,
{
    s.chars().collect()
}

/// Builds a string from characters.
///
/// Relies on `Iterator::collect` into `String`: the characters, in order.
#[verifier::external_body]
pub(crate) fn string_of(v: &Vec<char>) -> (r: String)
    ensures
        r@ == v@,
{
    v.iter().collect()
}

/// Path join on a slash-separated path, as `Path::join` does on Unix:
/// an absolute component replaces the base, an empty base yields the
/// component, and a separator is inserted only where the base lacks one.
pub open spec fn join_spec(base: Seq<char>, comp: Seq<char>) -> Seq<char> {
    if comp.len() > 0 && comp[0] == '/' {
        comp
    } else if base.len() == 0 {
        comp
    } else if base.last() == '/' {
        base + comp
    } else {
        base + seq!['/'] + comp
    }
}

/// Whether `s` begins with a separator.
pub open spec fn starts_with_sep(s: Seq<char>) -> bool {
    s.len() > 0 && s[0] == '/'
}

/// Whether `s` ends with a separator.
pub open spec fn ends_with_sep(s: Seq<char>) -> bool {
    s.len() > 0 && s.last() == '/'
}

/// A join ends as its (non-empty) component does.
pub proof fn lemma_join_last(base: Seq<char>, comp: Seq<char>)
    requires
        comp.len() > 0,
    ensures
        join_spec(base, comp).len() > 0,
        join_spec(base, comp).last() == comp.last(),
{
}

/// Joining a relative component onto a base that lacks a trailing separator
/// inserts exactly one separator.
pub proof fn lemma_join_plain(base: Seq<char>, comp: Seq<char>)
    requires
        base.len() > 0,
        !ends_with_sep(base),
        !starts_with_sep(comp),
    ensures
        join_spec(base, comp) == base + seq!['/'] + comp,
{
}

/// Distinct sequences stay distinct under a common suffix.
pub proof fn lemma_distinct_suffix(a: Seq<char>, b: Seq<char>, t: Seq<char>)
    requires
        a != b,
    ensures
        a + t != b + t,
{
    if a.len() == b.len() {
        let i = choose|i: int| 0 <= i < a.len() && a[i] != b[i];
        assert(!(a =~= b));
        assert((a + t)[i] != (b + t)[i]);
    } else {
        assert((a + t).len() != (b + t).len());
    }
}

/// Distinct sequences stay distinct under a common prefix.
pub proof fn lemma_distinct_prefix(t: Seq<char>, a: Seq<char>, b: Seq<char>)
    requires
        a != b,
    ensures
        t + a != t + b,
{
    if t + a == t + b {
        assert((t + a).subrange(t.len() as int, (t + a).len() as int) =~= a);
        assert((t + b).subrange(t.len() as int, (t + b).len() as int) =~= b);
    }
}

/// Joins a path component onto a base path.
pub fn join(base: &str, comp: &str) -> (r: String)
    ensures
        r@ == join_spec(base@, comp@),
{
    let b = chars_of(base);
    let c = chars_of(comp);
    if c.len() > 0 && c[0] == '/' {
        comp.to_owned()
    } else if b.len() == 0 {
        comp.to_owned()
    } else if b[b.len() - 1] == '/' {
        base.to_owned().concat(comp)
    } else {
        proof {
            reveal_strlit("/");
        }
        let r = base.to_owned().concat("/").concat(comp);
        assert(r@ =~= base@ + seq!['/'] + comp@);
        r
    }
}

} // verus!
