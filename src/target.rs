//! Parsing of the command-line forms the tool accepts: a clone target
//! `<remote>[/<branch>]` and a comma-separated group filter list.

use vstd::prelude::*;

use crate::text::{chars_of, string_of};
use crate::tree::GroupFilter;

verus! {

/// The pieces of `s` between occurrences of `c`, as `str::split` gives them:
/// always at least one, empty pieces kept.
pub open spec fn split_spec(s: Seq<char>, c: char) -> Seq<Seq<char>>
    decreases s.len(),
{
    if s.len() == 0 {
        seq![Seq::empty()]
    } else {
        let pre = split_spec(s.drop_last(), c);
        if s.last() == c {
            pre.push(Seq::empty())
        } else {
            pre.update(pre.len() - 1, pre.last().push(s.last()))
        }
    }
}

proof fn lemma_split_nonempty(s: Seq<char>, c: char)
    ensures
        split_spec(s, c).len() >= 1,
    decreases s.len(),
{
    if s.len() > 0 {
        lemma_split_nonempty(s.drop_last(), c);
    }
}

pub open spec fn strings_view(v: Seq<String>) -> Seq<Seq<char>> {
    v.map_values(|s: String| s@)
}

/// Splits `s` at every occurrence of `c`.
pub fn split_on(s: &str, c: char) -> (r: Vec<String>)
    ensures
        strings_view(r@) == split_spec(s@, c),
{
    let chars = chars_of(s);
    let mut done: Vec<String> = Vec::new();
    let mut cur: Vec<char> = Vec::new();
    let mut i: usize = 0;
    while i < chars.len()
        invariant
            0 <= i <= chars@.len(),
            chars@ == s@,
            strings_view(done@).push(cur@) == split_spec(chars@.take(i as int), c),
        decreases chars@.len() - i,
    {
        let ch = chars[i];
        proof {
            lemma_split_nonempty(chars@.take(i as int), c);
            assert(chars@.take(i as int + 1).drop_last() =~= chars@.take(i as int));
        }
        let ghost before_done = strings_view(done@);
        let ghost before_cur = cur@;
        if ch == c {
            let piece = string_of(&cur);
            done.push(piece);
            cur = Vec::new();
            assert(strings_view(done@) =~= before_done.push(before_cur));
            assert(strings_view(done@).push(cur@) =~= before_done.push(before_cur).push(
                Seq::empty(),
            ));
        } else {
            cur.push(ch);
            assert(strings_view(done@).push(cur@) =~= before_done.push(before_cur).update(
                before_done.len() as int,
                before_cur.push(ch),
            ));
        }
        i = i + 1;
    }
    let piece = string_of(&cur);
    let ghost before_done = strings_view(done@);
    done.push(piece);
    assert(strings_view(done@) =~= before_done.push(cur@));
    assert(chars@.take(i as int) =~= chars@);
    done
}

/// Why a target was refused.
#[derive(Clone, Debug, PartialEq, Eq)]
pub enum TargetError {
    /// More than one `/` in `<remote>[/<branch>]`.
    InvalidTarget(String),
}

/// A target is `<remote>` (branch `master`) or `<remote>/<branch>`.
pub open spec fn target_spec(t: Seq<char>) -> Option<(Seq<char>, Seq<char>)> {
    let pieces = split_spec(t, '/');
    if pieces.len() == 1 {
        Some((pieces[0], "master"@))
    } else if pieces.len() == 2 {
        Some((pieces[0], pieces[1]))
    } else {
        None
    }
}

/// Splits a clone target into remote and branch.
pub fn parse_target(target: &str) -> (r: Result<(String, String), TargetError>)
    ensures
        match target_spec(target@) {
            Some((remote, branch)) => r matches Ok((a, b)) && a@ == remote && b@ == branch,
            None => r matches Err(TargetError::InvalidTarget(t)) && t@ == target@,
        },
{
    let pieces = split_on(target, '/');
    proof {
        reveal_strlit("master");
    }
    if pieces.len() == 1 {
        assert(pieces@[0]@ == strings_view(pieces@)[0]);
        Ok((pieces[0].clone(), "master".to_owned()))
    } else if pieces.len() == 2 {
        assert(pieces@[0]@ == strings_view(pieces@)[0]);
        assert(pieces@[1]@ == strings_view(pieces@)[1]);
        Ok((pieces[0].clone(), pieces[1].clone()))
    } else {
        Err(TargetError::InvalidTarget(target.to_owned()))
    }
}

/// The filter one piece of a group list stands for: a leading `-` excludes
/// the rest of the piece, anything else includes the whole piece.
pub open spec fn filter_spec(piece: Seq<char>, f: GroupFilter) -> bool {
    if piece.len() > 0 && piece[0] == '-' {
        f matches GroupFilter::Exclude(g) && g@ == piece.skip(1)
    } else {
        f matches GroupFilter::Include(g) && g@ == piece
    }
}

/// Parses a comma-separated group list, where a leading `-` marks a group
/// to exclude. No list gives no filters.
pub fn parse_group_filters(groups: Option<&str>) -> (r: Vec<GroupFilter>)
    ensures
        match groups {
            None => r@.len() == 0,
            Some(g) => r@.len() == split_spec(g@, ',').len() && forall|k: int|
                0 <= k < r@.len() ==> filter_spec(split_spec(g@, ',')[k], #[trigger] r@[k]),
        },
{
    match groups {
        None => Vec::new(),
        Some(g) => {
            let pieces = split_on(g, ',');
            let mut r: Vec<GroupFilter> = Vec::new();
            let mut k: usize = 0;
            while k < pieces.len()
                invariant
                    0 <= k <= pieces@.len(),
                    strings_view(pieces@) == split_spec(g@, ','),
                    r@.len() == k,
                    forall|j: int|
                        0 <= j < k ==> filter_spec(split_spec(g@, ',')[j], #[trigger] r@[j]),
                decreases pieces@.len() - k,
            {
                let chars = chars_of(pieces[k].as_str());
                assert(chars@ == split_spec(g@, ',')[k as int]);
                if chars.len() > 0 && chars[0] == '-' {
                    let mut rest: Vec<char> = Vec::new();
                    let mut i: usize = 1;
                    while i < chars.len()
                        invariant
                            1 <= i <= chars@.len(),
                            rest@ == chars@.subrange(1, i as int),
                        decreases chars@.len() - i,
                    {
                        rest.push(chars[i]);
                        i = i + 1;
                        assert(rest@ =~= chars@.subrange(1, i as int));
                    }
                    r.push(GroupFilter::Exclude(string_of(&rest)));
                } else {
                    r.push(GroupFilter::Include(pieces[k].clone()));
                }
                k = k + 1;
            }
            r
        },
    }
}

/// The directory a clone goes into: the one given, else the branch name.
pub fn tree_root_dir(directory: Option<&str>, branch: &str) -> (r: String)
    ensures
        r@ == match directory {
            Some(d) => d@,
            None => branch@,
        },
{
    match directory {
        Some(d) => d.to_owned(),
        None => branch.to_owned(),
    }
}

} // verus!
