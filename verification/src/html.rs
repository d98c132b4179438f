//! Queries on HTML text. The parsing and the matching are done by the
//! `select` crate; what comes back is plain text.
//!
//! Each query parses the text anew, and asks that the text be `parsable`:
//! on longer text the parser can fail. `select` walks a document by recursion,
//! one call for each level of nesting: how deeply elements may be nested is
//! set by the stack of the thread that asks, and is not stated here.

use select::document::Document;
use select::predicate::{Class, Name, Predicate};
use vstd::prelude::*;
use vstd::string::*;

verus! {

/// For each element named `inner` that lies below an element named `outer`
/// (at any depth), in document order, the value of its attribute `attr`,
/// where it has that attribute.
pub uninterp spec fn attrs_below_name(
    html: Seq<char>,
    outer: Seq<char>,
    inner: Seq<char>,
    attr: Seq<char>,
) -> Seq<Option<Seq<char>>>;

/// For each element named `inner` that lies below an element of class
/// `class` (at any depth), in document order, the value of its attribute
/// `attr`, where it has that attribute.
pub uninterp spec fn attrs_below_class(
    html: Seq<char>,
    class: Seq<char>,
    inner: Seq<char>,
    attr: Seq<char>,
) -> Seq<Option<Seq<char>>>;

/// For each element of class `class`, in document order, the value of its
/// attribute `attr`, where it has that attribute.
pub uninterp spec fn attrs_of_class(html: Seq<char>, class: Seq<char>, attr: Seq<char>) -> Seq<
    Option<Seq<char>>,
>;

/// The text inside the first element named `inner` that lies below an
/// element of class `class`, where there is such an element.
pub uninterp spec fn first_text_below_class(
    html: Seq<char>,
    class: Seq<char>,
    inner: Seq<char>,
) -> Option<Seq<char>>;

/// The text is short enough to be parsed.
///
/// The parser keeps text in buffers whose capacity is a 32-bit number,
/// rounded up to a power of two, and fails where a buffer cannot grow. What
/// it makes of one byte read takes three bytes at most (a NUL becomes the
/// replacement character), so no buffer outgrows three times the text.
/// Three times the text may be 2^30 bytes: then every capacity, with the
/// header that stands before it, can still be allocated, also where
/// addresses have 32 bits.
pub open spec fn parsable(html: Seq<char>) -> bool {
    3 * vstd::utf8::encode_utf8(html).len() <= 0x4000_0000
}

/// Calls `select`: `Document::from` on `html`, then `Document::find` with the
/// predicate `Name(outer).descendant(Name(inner))`, then `Node::attr` on each
/// node found. Trusted: that the result is a function of the four texts
/// alone, which `attrs_below_name` names. Nothing is claimed of what it holds.
/// The text must be `parsable`, so that no buffer of the parser overflows.
#[verifier::external_body]
pub(crate) fn select_attrs_below_name(html: &str, outer: &str, inner: &str, attr: &str) -> (r: Vec<
    Option<String>,
>)
    requires
        parsable(html@),
    ensures
        r.deep_view() == attrs_below_name(html@, outer@, inner@, attr@),
{
    Document::from(html)
        .find(Name(outer).descendant(Name(inner)))
        .map(|node| node.attr(attr).map(String::from))
        .collect()
}

/// Calls `select`: `Document::from` on `html`, then `Document::find` with the
/// predicate `Class(class).descendant(Name(inner))`, then `Node::attr` on
/// each node found. Trusted: that the result is a function of the four texts
/// alone, which `attrs_below_class` names. Nothing is claimed of what it holds.
/// The text must be `parsable`, so that no buffer of the parser overflows.
#[verifier::external_body]
pub(crate) fn select_attrs_below_class(html: &str, class: &str, inner: &str, attr: &str) -> (r:
    Vec<Option<String>>)
    requires
        parsable(html@),
    ensures
        r.deep_view() == attrs_below_class(html@, class@, inner@, attr@),
{
    Document::from(html)
        .find(Class(class).descendant(Name(inner)))
        .map(|node| node.attr(attr).map(String::from))
        .collect()
}

/// Calls `select`: `Document::from` on `html`, then `Document::find` with the
/// predicate `Class(class)`, then `Node::attr` on each node found. Trusted:
/// that the result is a function of the three texts alone, which
/// `attrs_of_class` names. Nothing is claimed of what it holds. The text must
/// be `parsable`, so that no buffer of the parser overflows.
#[verifier::external_body]
pub(crate) fn select_attrs_of_class(html: &str, class: &str, attr: &str) -> (r: Vec<
    Option<String>,
>)
    requires
        parsable(html@),
    ensures
        r.deep_view() == attrs_of_class(html@, class@, attr@),
{
    Document::from(html).find(Class(class)).map(|node| node.attr(attr).map(String::from)).collect()
}

/// Calls `select`: `Document::from` on `html`, then `Document::find` with the
/// predicate `Class(class).descendant(Name(inner))`, then `Node::text` on the
/// first node found. Trusted: that the result is a function of the three
/// texts alone, which `first_text_below_class` names. Nothing is claimed of
/// what it holds. The text must be `parsable`, so that no buffer of the parser
/// overflows.
#[verifier::external_body]
pub(crate) fn select_first_text_below_class(html: &str, class: &str, inner: &str) -> (r: Option<
    String,
>)
    requires
        parsable(html@),
    ensures
        r.deep_view() == first_text_below_class(html@, class@, inner@),
{
    Document::from(html).find(Class(class).descendant(Name(inner))).next().map(|node| node.text())
}

/// Tells whether `html` is short enough to be parsed.
pub fn is_parsable(html: &str) -> (r: bool)
    ensures
        r == parsable(html@),
{
    html.as_bytes().len() <= 357_913_941
}

} // verus!
