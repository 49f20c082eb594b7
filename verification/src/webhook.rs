//! From the bytes of one connection to the target that a webhook names.
//!
//! The request is framed here, its body is decoded by the caller, and the
//! decoded fields are turned into a [`Target`] here again.

use crate::target::{Target, TargetView};
use crate::text::{copy_str, joined};
use vstd::prelude::*;
use vstd::slice::slice_subrange;
use vstd::utf8::{decode_utf8, valid_utf8};

verus! {

/// How many bytes of a connection are read, at most, in the single read
/// that is made of it.
pub const BUFFER_SIZE: usize = 20000;

/// How many header lines a request may hold.
pub const MAX_HEADERS: usize = 20;

/// What the head of a request looks like to the parser.
#[derive(Clone, Copy, Debug, PartialEq, Eq, Structural)]
pub enum Head {
    /// The head is complete; the body starts at this offset.
    Complete(usize),
    /// The bytes end before the head does.
    Partial,
    /// The bytes are no head of a request.
    Invalid,
}

/// What `httparse` makes of `bytes` as the head of a request with room for
/// `max_headers` header lines.
pub uninterp spec fn request_head(bytes: Seq<u8>, max_headers: int) -> Head;

/// Calls `httparse::Request::parse` on `bytes`, with room for `max_headers`
/// header lines. The result is named, not spelled out; of a complete head
/// the crate documents that the offset it returns lies within `bytes`.
#[verifier::external_body]
pub(crate) fn parse_request_head(bytes: &[u8], max_headers: usize) -> (head: Head)
    ensures
        head == request_head(bytes@, max_headers as int),
        head matches Head::Complete(offset) ==> offset <= bytes@.len(),
{
    let mut headers = vec![httparse::EMPTY_HEADER; max_headers];
    match httparse::Request::new(&mut headers).parse(bytes) {
        Ok(httparse::Status::Complete(offset)) => Head::Complete(offset),
        Ok(httparse::Status::Partial) => Head::Partial,
        Err(_) => Head::Invalid,
    }
}

/// The text that `String::from_utf8_lossy` makes of `bytes`.
pub uninterp spec fn lossy_utf8(bytes: Seq<u8>) -> Seq<char>;

/// Calls `String::from_utf8_lossy`. Bytes that are valid UTF-8 come out as
/// the text they encode; for others the result is only named.
#[verifier::external_body]
pub(crate) fn utf8_lossy(bytes: &[u8]) -> (text: String)
    ensures
        text@ == lossy_utf8(bytes@),
        valid_utf8(bytes@) ==> text@ == decode_utf8(bytes@),
{
    String::from_utf8_lossy(bytes).to_string()
}

/// Why the bytes of a connection did not lead to a target.
#[derive(Debug, PartialEq, Eq)]
pub enum WebhookError {
    /// The bytes are no head of a request.
    Request,
    /// The pattern for references was not accepted.
    Pattern,
    /// The reference names no branch.
    Ref(ParseRefError),
}

/// The reference of a webhook names no branch.
#[derive(Debug, PartialEq, Eq)]
pub struct ParseRefError {
    pub msg: String,
}

impl ParseRefError {
    /// The message for the log.
    pub fn to_string(&self) -> (text: String)
        ensures
            text@ == "Failed to extract branch name from ref"@,
    {
        copy_str("Failed to extract branch name from ref")
    }
}

/// The body that follows a head in `bytes`: none while the head is
/// incomplete, an error where it is malformed or ends beyond the bytes, else
/// the text of what follows the head.
pub open spec fn body_after(bytes: Seq<u8>, head: Head) -> Result<Option<Seq<char>>, ()> {
    match head {
        Head::Complete(offset) => if offset <= bytes.len() {
            Ok(Some(lossy_utf8(bytes.subrange(offset as int, bytes.len() as int))))
        } else {
            Err(())
        },
        Head::Partial => Ok(None),
        Head::Invalid => Err(()),
    }
}

/// The body of the request in `bytes`, as far as the framing decides it.
pub open spec fn request_body_of(bytes: Seq<u8>) -> Result<Option<Seq<char>>, ()> {
    body_after(bytes, request_head(bytes, MAX_HEADERS as int))
}

/// Whether `result` hands out what `expected` says.
pub open spec fn body_agrees(
    result: Result<Option<String>, WebhookError>,
    expected: Result<Option<Seq<char>>, ()>,
) -> bool {
    match expected {
        Ok(Some(text)) => result matches Ok(Some(body)) && body@ == text,
        Ok(None) => result matches Ok(None),
        Err(_) => result matches Err(WebhookError::Request),
    }
}

/// Takes the body out of `bytes`, given what the parser made of their head.
pub fn body_from_head(bytes: &[u8], head: Head) -> (result: Result<Option<String>, WebhookError>)
    ensures
        body_agrees(result, body_after(bytes@, head)),
{
    match head {
        Head::Complete(offset) => {
            if offset <= bytes.len() {
                let body = slice_subrange(bytes, offset, bytes.len());
                Ok(Some(utf8_lossy(body)))
            } else {
                Err(WebhookError::Request)
            }
        },
        Head::Partial => Ok(None),
        Head::Invalid => Err(WebhookError::Request),
    }
}

/// Frames the request in `bytes` and hands out its body for decoding.
/// Incomplete framing is no error: there is no body then.
pub fn request_body(bytes: &[u8]) -> (result: Result<Option<String>, WebhookError>)
    ensures
        body_agrees(result, request_body_of(bytes@)),
{
    let head = parse_request_head(bytes, MAX_HEADERS);
    body_from_head(bytes, head)
}

/// What every reference to a branch starts with.
pub open spec fn heads_prefix() -> Seq<char> {
    "refs/heads/"@
}

/// Whether `gitref` is a reference to a branch: whether it starts with
/// `refs/heads/`.
pub open spec fn is_branch_ref(gitref: Seq<char>) -> bool {
    heads_prefix().is_prefix_of(gitref)
}

/// The pattern that a reference to a branch matches, from its first
/// character to its last: `refs/heads/` and then the branch.
pub open spec fn ref_pattern() -> Seq<char> {
    "^refs/heads/(?P<branch_name>.*)$"@
}

/// The group of `ref_pattern` that holds the branch name.
pub open spec fn ref_group() -> Seq<char> {
    "branch_name"@
}

/// Whether `regex` accepts `pattern` as a regular expression.
pub uninterp spec fn regex_compiles(pattern: Seq<char>) -> bool;

/// What the group called `group` holds in the first match of `pattern` in
/// `haystack`; none where there is no match or the group took no part in it.
pub uninterp spec fn regex_named_capture(
    pattern: Seq<char>,
    group: Seq<char>,
    haystack: Seq<char>,
) -> Option<Seq<char>>;

/// `regex::Error`: why a pattern was not accepted. Nothing is read of it.
#[verifier::external_type_specification]
#[verifier::external_body]
pub struct ExRegexError(regex::Error);

/// Compiles `pattern` with `regex::Regex::new`, searches `haystack` with
/// `Regex::captures` and hands out the text of the group called `group`, as
/// `Captures::name` and `Match::as_str` give it. Both whether the pattern
/// compiles and what is captured are named, not spelled out.
#[verifier::external_body]
pub(crate) fn named_capture(pattern: &str, group: &str, haystack: &str) -> (result: Result<
    Option<String>,
    regex::Error,
>)
    ensures
        result is Ok <==> regex_compiles(pattern@),
        result matches Ok(Some(text)) ==> regex_named_capture(pattern@, group@, haystack@)
            == Some(text@),
        result matches Ok(None) ==> regex_named_capture(pattern@, group@, haystack@) is None,
{
    let re = regex::Regex::new(pattern)?;
    match re.captures(haystack) {
        Some(captures) => match captures.name(group) {
            Some(found) => Ok(Some(found.as_str().to_string())),
            None => Ok(None),
        },
        None => Ok(None),
    }
}

/// The branch that a capture stands for: the captured text, provided that
/// `gitref` is `refs/heads/` followed by exactly that text.
pub open spec fn branch_from_capture(gitref: Seq<char>, capture: Option<Seq<char>>) -> Option<
    Seq<char>,
> {
    match capture {
        Some(branch) if gitref == heads_prefix() + branch => Some(branch),
        _ => None,
    }
}

/// What `capture` holds, as text.
pub open spec fn captured(capture: Option<String>) -> Option<Seq<char>> {
    match capture {
        Some(text) => Some(text@),
        None => None,
    }
}

/// Turns what the pattern captured in `gitref` into the branch name. The
/// capture is only believed where `gitref` is `refs/heads/` followed by it;
/// anything else names no branch.
pub fn branch_name_from_capture(gitref: &String, capture: Option<String>) -> (result: Result<
    String,
    ParseRefError,
>)
    ensures
        result is Ok <==> branch_from_capture(gitref@, captured(capture)) is Some,
        result matches Ok(branch) ==> Some(branch@) == branch_from_capture(
            gitref@,
            captured(capture),
        ) && gitref@ == heads_prefix() + branch@,
        result matches Err(error) ==> error.msg@ == "Oh no"@,
{
    match capture {
        Some(branch) => {
            let expected = joined("refs/heads/", branch.as_str());
            if expected == *gitref {
                Ok(branch)
            } else {
                Err(ParseRefError { msg: copy_str("Oh no") })
            }
        },
        None => Err(ParseRefError { msg: copy_str("Oh no") }),
    }
}

/// The branch that `gitref` refers to: what the pattern captures in it,
/// where that is all of `gitref` after `refs/heads/`.
pub open spec fn branch_name_of(gitref: Seq<char>) -> Option<Seq<char>> {
    if regex_compiles(ref_pattern()) {
        branch_from_capture(gitref, regex_named_capture(ref_pattern(), ref_group(), gitref))
    } else {
        None
    }
}

/// A branch comes out of a reference only if the reference is `refs/heads/`
/// followed by that branch. A reference with any other prefix names none.
pub proof fn lemma_branch_needs_prefix(gitref: Seq<char>)
    ensures
        branch_name_of(gitref) matches Some(branch) ==> gitref == heads_prefix() + branch,
        !is_branch_ref(gitref) ==> branch_name_of(gitref) is None,
{
    if let Some(branch) = branch_name_of(gitref) {
        assert((heads_prefix() + branch).subrange(0, heads_prefix().len() as int)
            =~= heads_prefix());
    }
}

/// Extracts the branch name from a reference of the form
/// `refs/heads/<branch>`. A reference with any other prefix, or one that the
/// pattern does not match, names no branch.
pub fn get_branch_name_from_ref(gitref: String) -> (result: Result<String, WebhookError>)
    ensures
        result is Ok <==> branch_name_of(gitref@) is Some,
        result matches Ok(branch) ==> Some(branch@) == branch_name_of(gitref@) && gitref@
            == "refs/heads/"@ + branch@,
        !is_branch_ref(gitref@) ==> result is Err,
        result matches Err(WebhookError::Pattern) <==> !regex_compiles(ref_pattern()),
        result matches Err(WebhookError::Ref(_)) <==> regex_compiles(ref_pattern())
            && branch_name_of(gitref@) is None,
        !(result matches Err(WebhookError::Request)),
{
    proof {
        lemma_branch_needs_prefix(gitref@);
    }
    match named_capture("^refs/heads/(?P<branch_name>.*)$", "branch_name", gitref.as_str()) {
        Ok(capture) => match branch_name_from_capture(&gitref, capture) {
            Ok(branch) => Ok(branch),
            Err(error) => Err(WebhookError::Ref(error)),
        },
        Err(_) => Err(WebhookError::Pattern),
    }
}

/// The repository part of a webhook.
#[derive(Debug)]
pub struct WHRepository {
    pub name: String,
}

/// What a webhook says once its body is decoded: the reference that was
/// pushed to, and the repository.
#[derive(Debug)]
pub struct Webhook {
    pub git_ref: String,
    pub repository: WHRepository,
}

/// The target that a webhook with this repository name and this reference
/// names: the repository at the branch that follows `refs/heads/` in the
/// reference, if the reference is one to a branch.
pub open spec fn target_of(repository_name: Seq<char>, gitref: Seq<char>) -> Option<TargetView> {
    match branch_name_of(gitref) {
        Some(branch_name) => Some(TargetView { repository_name, branch_name }),
        None => None,
    }
}

/// Resolves a decoded webhook to the target it names.
pub fn webhook_target(webhook: Webhook) -> (result: Result<Target, WebhookError>)
    ensures
        result is Ok <==> target_of(webhook.repository.name@, webhook.git_ref@) is Some,
        result matches Ok(target) ==> Some(target@) == target_of(
            webhook.repository.name@,
            webhook.git_ref@,
        ) && target@.repository_name == webhook.repository.name@ && webhook.git_ref@
            == "refs/heads/"@ + target@.branch_name,
        !is_branch_ref(webhook.git_ref@) ==> result is Err,
        result matches Err(WebhookError::Pattern) <==> !regex_compiles(ref_pattern()),
        result matches Err(WebhookError::Ref(_)) <==> regex_compiles(ref_pattern())
            && branch_name_of(webhook.git_ref@) is None,
        !(result matches Err(WebhookError::Request)),
{
    let Webhook { git_ref, repository } = webhook;
    match get_branch_name_from_ref(git_ref) {
        Ok(branch_name) => Ok(Target { repository_name: repository.name, branch_name }),
        Err(error) => Err(error),
    }
}

} // verus!
