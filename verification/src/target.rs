//! The pair of repository and branch that identifies one deployable unit.

use crate::text::{ends_with_git, find_segment_start, last_segment, slice_chars, strip_git_suffix};
use vstd::prelude::*;
use vstd::std_specs::cmp::PartialEqSpecImpl;
use vstd::string::StrSliceExecFns;

verus! {

/// The name under which a repository is known: the last `/`-separated segment
/// of its address, without a trailing `.git`.
pub open spec fn repository_name_of(url: Seq<char>) -> Seq<char> {
    strip_git_suffix(last_segment(url))
}

/// Computes the name of the repository found at `url`.
pub fn repository_name(url: &str) -> (name: String)
    ensures
        name@ == repository_name_of(url@),
{
    let start = find_segment_start(url);
    let end = url.unicode_len();
    let segment = slice_chars(url, start, end);
    if ends_with_git(segment.as_str()) {
        let n = segment.as_str().unicode_len();
        slice_chars(segment.as_str(), 0, n - 4)
    } else {
        segment
    }
}

/// A repository name together with a branch name.
#[derive(Debug, Eq, Hash)]
pub struct Target {
    pub repository_name: String,
    pub branch_name: String,
}

/// Mathematical model of [`Target`].
pub struct TargetView {
    pub repository_name: Seq<char>,
    pub branch_name: Seq<char>,
}

impl View for Target {
    type V = TargetView;

    open spec fn view(&self) -> TargetView {
        TargetView { repository_name: self.repository_name@, branch_name: self.branch_name@ }
    }
}

impl PartialEq for Target {
    fn eq(&self, other: &Target) -> (equal: bool) {
        self.repository_name == other.repository_name && self.branch_name == other.branch_name
    }
}

impl PartialEqSpecImpl for Target {
    open spec fn obeys_eq_spec() -> bool {
        true
    }

    open spec fn eq_spec(&self, other: &Target) -> bool {
        self.repository_name@ == other.repository_name@ && self.branch_name@ == other.branch_name@
    }
}

impl Clone for Target {
    fn clone(&self) -> (res: Self)
        ensures
            res@ == self@,
    {
        Target {
            repository_name: self.repository_name.clone(),
            branch_name: self.branch_name.clone(),
        }
    }
}

impl Target {
    /// Whether `self` and `other` name the same repository and the same
    /// branch, character for character.
    pub fn matches(&self, other: &Target) -> (equal: bool)
        ensures
            equal == (self@ == other@),
    {
        self == other
    }
}

} // verus!
