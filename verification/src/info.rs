//! The top-level facts about a repository, as text.

use vstd::prelude::*;
use vstd::string::*;

verus! {

/// What is reported about a repository as a whole.
#[derive(Clone, Debug, PartialEq, Eq)]
pub struct TopLevelInfo {
    /// Whether the repository has no working directory.
    pub is_bare: bool,
    /// Whether the repository is a linked working tree.
    pub is_worktree: bool,
    /// Where the repository lies.
    pub path: String,
    /// Where its working directory lies, if it has one.
    pub workdir: Option<String>,
    /// The name of the reference that is checked out, if it is text.
    pub head: Option<String>,
}

/// The text of `text` in quotes, with the characters that need it escaped,
/// as `std`'s `Debug` writes a string.
pub uninterp spec fn debug_quoted(text: Seq<char>) -> Seq<char>;

/// `std`'s `Debug` for `str`, through `format!`: the text in quotes, escaped.
#[verifier::external_body]
fn quoted(text: &str) -> (shown: String)
    ensures
        shown@ == debug_quoted(text@),
{
    format!("{:?}", text)
}

/// `true` or `false`.
pub open spec fn flag_text(flag: bool) -> Seq<char> {
    if flag {
        "true"@
    } else {
        "false"@
    }
}

/// `Some(` and the quoted text and `)`, or `None`.
pub open spec fn optional_text(text: Option<Seq<char>>) -> Seq<char> {
    match text {
        Some(t) => "Some("@ + debug_quoted(t) + ")"@,
        None => "None"@,
    }
}

/// The five lines that describe a repository, each ended by a line feed.
pub open spec fn info_text(
    is_bare: bool,
    is_worktree: bool,
    path: Seq<char>,
    workdir: Option<Seq<char>>,
    head: Option<Seq<char>>,
) -> Seq<char> {
    "Is bare: "@ + flag_text(is_bare) + "\n"@ + "Is worktree: "@ + flag_text(is_worktree) + "\n"@
        + "Path to repository: "@ + debug_quoted(path) + "\n"@ + "Workdir: "@ + optional_text(workdir) + "\n"@
        + "HEAD reference: "@ + optional_text(head) + "\n"@
}

/// The view of an optional text.
pub open spec fn optional_view(text: Option<String>) -> Option<Seq<char>> {
    match text {
        Some(t) => Some(t@),
        None => None,
    }
}

fn append_flag(out: &mut String, flag: bool)
    ensures
        final(out)@ == old(out)@ + flag_text(flag),
{
    if flag {
        out.append("true");
    } else {
        out.append("false");
    }
}

fn append_optional(out: &mut String, text: &Option<String>)
    ensures
        final(out)@ == old(out)@ + optional_text(optional_view(*text)),
{
    match text {
        Some(t) => {
            out.append("Some(");
            let shown = quoted(t.as_str());
            out.append(shown.as_str());
            out.append(")");
            assert(out@ =~= old(out)@ + optional_text(optional_view(*text)));
        },
        None => {
            out.append("None");
        },
    }
}

/// Writes the top-level facts about a repository as five lines of text.
pub fn get_top_level_info(info: &TopLevelInfo) -> (text: String)
    ensures
        text@ == info_text(
            info.is_bare,
            info.is_worktree,
            info.path@,
            optional_view(info.workdir),
            optional_view(info.head),
        ),
{
    let mut text = String::new();
    text.append("Is bare: ");
    append_flag(&mut text, info.is_bare);
    text.append("\n");
    text.append("Is worktree: ");
    append_flag(&mut text, info.is_worktree);
    text.append("\n");
    text.append("Path to repository: ");
    let path = quoted(info.path.as_str());
    text.append(path.as_str());
    text.append("\n");
    text.append("Workdir: ");
    append_optional(&mut text, &info.workdir);
    text.append("\n");
    text.append("HEAD reference: ");
    append_optional(&mut text, &info.head);
    text.append("\n");
    assert(text@ =~= info_text(
        info.is_bare,
        info.is_worktree,
        info.path@,
        optional_view(info.workdir),
        optional_view(info.head),
    ));
    text
}

} // verus!
