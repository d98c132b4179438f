//! Where the files go: the names of the directories under which a creator's
//! files are stored.
//!
//! Everything lies under one directory named after service and creator. In
//! sorted mode each post has a directory of its own below it, named after
//! the post's title; otherwise all attachments share one directory and all
//! images another.

use crate::text::{cap, capped};
use vstd::prelude::*;
use vstd::string::*;

verus! {

/// What `sanitize_filename::sanitize_with_options` makes of `name` under the
/// options `windows`, `truncate` and `replacement`.
pub uninterp spec fn sanitized_name(
    name: Seq<char>,
    windows: bool,
    truncate: bool,
    replacement: Seq<char>,
) -> Seq<char>;

/// The characters that `sanitize_filename` takes for illegal in a file name
/// on every system.
pub open spec fn is_illegal_char(c: char) -> bool {
    c == '/' || c == '?' || c == '<' || c == '>' || c == '\\' || c == ':' || c == '*' || c == '|'
        || c == '"'
}

/// The name holds no illegal character.
pub open spec fn is_clean(name: Seq<char>) -> bool {
    forall|i: int| 0 <= i < name.len() ==> !is_illegal_char(#[trigger] name[i])
}

/// The name of the directory that holds all files of one creator.
pub open spec fn top_dir_name(service: Seq<char>, creator_id: Seq<char>) -> Seq<char> {
    service + " - "@ + creator_id
}

/// The name of the directory of the post titled `title`: the title with what
/// a file name may not hold taken out, then cut to its first 90 characters.
/// `windows` asks for the stricter rules that names have on Windows.
pub open spec fn post_dir_name(title: Seq<char>, windows: bool) -> Seq<char> {
    capped(sanitized_name(title, windows, true, ""@), 90)
}

/// The directory for the attachments of a post.
pub open spec fn attachment_dir_name(title: Seq<char>, sorted: bool, windows: bool) -> Seq<char> {
    if sorted {
        post_dir_name(title, windows)
    } else {
        "attachments"@
    }
}

/// The directory for the images of a post.
pub open spec fn image_dir_name(title: Seq<char>, sorted: bool, windows: bool) -> Seq<char> {
    if sorted {
        post_dir_name(title, windows)
    } else {
        "images"@
    }
}

/// Calls `sanitize_filename::sanitize_with_options` with `name` and an
/// `Options` made of the other three arguments. Trusted: that the result is
/// a function of the four arguments alone, which `sanitized_name` names; and
/// that it holds no illegal character where the replacement is empty, since
/// each illegal character is replaced first and every later step only takes
/// characters away. Nothing else is claimed of what it holds.
#[verifier::external_body]
pub(crate) fn sanitize_name(name: &str, windows: bool, truncate: bool, replacement: &str) -> (r:
    String)
    ensures
        r@ == sanitized_name(name@, windows, truncate, replacement@),
        replacement@.len() == 0 ==> is_clean(r@),
{
    sanitize_filename::sanitize_with_options(
        name,
        sanitize_filename::Options { windows, truncate, replacement },
    )
}

/// The name of the directory that holds all files of one creator.
pub fn top_dir(service: &str, creator_id: &str) -> (r: String)
    ensures
        r@ == top_dir_name(service@, creator_id@),
{
    let mut r = String::from_str(service);
    r.append(" - ");
    r.append(creator_id);
    r
}

/// The name of the directory of the post titled `title`.
pub fn post_dir(title: &str, windows: bool) -> (r: String)
    ensures
        r@ == post_dir_name(title@, windows),
        r@.len() <= 90,
        is_clean(r@),
{
    proof {
        reveal_strlit("");
    }
    let safe = sanitize_name(title, windows, true, "");
    cap(safe.as_str(), 90)
}

/// The directory for the attachments of the post titled `title`.
pub fn attachment_dir(title: &str, sorted: bool, windows: bool) -> (r: String)
    ensures
        r@ == attachment_dir_name(title@, sorted, windows),
        is_clean(r@),
{
    if sorted {
        post_dir(title, windows)
    } else {
        proof {
            reveal_strlit("attachments");
        }
        String::from_str("attachments")
    }
}

/// The directory for the images of the post titled `title`.
pub fn image_dir(title: &str, sorted: bool, windows: bool) -> (r: String)
    ensures
        r@ == image_dir_name(title@, sorted, windows),
        is_clean(r@),
{
    if sorted {
        post_dir(title, windows)
    } else {
        proof {
            reveal_strlit("images");
        }
        String::from_str("images")
    }
}

} // verus!
