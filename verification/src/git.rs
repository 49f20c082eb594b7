//! What the version-control adapter accepts as a remote and as a branch name.

use std::str::FromStr;
use vstd::prelude::*;

verus! {

/// Whether `rustygit` takes `url` for the address of a remote repository.
pub uninterp spec fn is_git_url(url: Seq<char>) -> bool;

/// Whether `c` is an ASCII control character.
pub open spec fn is_ascii_control(c: char) -> bool {
    c as u32 <= 0x1f || c as u32 == 0x7f
}

/// Whether `c` may stand in a reference name.
pub open spec fn is_reference_char(c: char) -> bool {
    !is_ascii_control(c) && c != ' ' && c != '~' && c != '^' && c != ':' && c != '\\'
}

/// Whether `a` directly followed by `b` occurs in `name`.
pub open spec fn has_pair(name: Seq<char>, a: char, b: char) -> bool {
    exists|i: int| 0 <= i && i + 1 < name.len() && #[trigger] name[i] == a && name[i + 1] == b
}

/// Whether `rustygit` takes `name` for a branch name: it does not start with
/// `-` nor end with `.`, holds no control character, space, `~`, `^`, `:` or
/// backslash, none of `/.`, `@{` and `..`, and is not `@` alone.
pub open spec fn is_valid_reference_name(name: Seq<char>) -> bool {
    &&& name.len() > 0 ==> name[0] != '-'
    &&& name.len() > 0 ==> name.last() != '.'
    &&& forall|i: int| 0 <= i < name.len() ==> is_reference_char(#[trigger] name[i])
    &&& !has_pair(name, '/', '.')
    &&& !has_pair(name, '@', '{')
    &&& !has_pair(name, '.', '.')
    &&& name != seq!['@']
}

/// Calls `rustygit::types::GitUrl::from_str` and reports whether it accepted
/// `url`. The crate decides by a pattern of its own, so the answer is only
/// named here, not spelled out.
#[verifier::external_body]
pub(crate) fn git_url_accepted(url: &str) -> (ok: bool)
    ensures
        ok == is_git_url(url@),
{
    rustygit::types::GitUrl::from_str(url).is_ok()
}

/// Calls `rustygit::types::BranchName::from_str` and reports whether it
/// accepted `name`. The crate accepts exactly the names that pass its
/// reference-name rules, which `is_valid_reference_name` restates.
#[verifier::external_body]
pub(crate) fn branch_name_accepted(name: &str) -> (ok: bool)
    ensures
        ok == is_valid_reference_name(name@),
{
    rustygit::types::BranchName::from_str(name).is_ok()
}

} // verus!
