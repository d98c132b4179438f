//! What a listing page holds: links to the other listing pages of the
//! creator, and links to posts.

use crate::dedup::{
    first_seen, keep_first, lemma_first_seen_comes_from, lemma_first_seen_distinct,
    lemma_first_seen_of_distinct, present, present_texts,
};
use crate::html::{
    attrs_below_class, attrs_below_name, parsable, select_attrs_below_class,
    select_attrs_below_name,
};
use crate::text::{contains, occurs};
use vstd::prelude::*;
use vstd::string::*;

verus! {

/// The links among `links` in which `marker` occurs, in order.
pub open spec fn marked(links: Seq<Seq<char>>, marker: Seq<char>) -> Seq<Seq<char>> {
    links.filter(|link: Seq<char>| occurs(link, marker))
}

/// The links to further listing pages among the links found in list items:
/// those that carry the page offset `?o=`, each once, in the order in which
/// they were first found.
pub open spec fn pagination_of(anchors: Seq<Option<Seq<char>>>) -> Seq<Seq<char>> {
    first_seen(marked(present(anchors), "?o="@))
}

/// The links to further listing pages that the listing page `html` holds.
pub open spec fn page_links_in(html: Seq<char>) -> Seq<Seq<char>> {
    pagination_of(attrs_below_name(html, "li"@, "a"@, "href"@))
}

/// The links to posts among the links found below the post headings of one
/// listing page: each once, in the order in which they were first found.
pub open spec fn post_links_of(anchors: Seq<Option<Seq<char>>>) -> Seq<Seq<char>> {
    first_seen(present(anchors))
}

/// The links to posts that the listing page `html` holds, in document
/// order. A link that stands twice on the page is kept once, where it first
/// stood.
pub open spec fn post_links_in(html: Seq<char>) -> Seq<Seq<char>> {
    post_links_of(attrs_below_class(html, "post-card__heading"@, "a"@, "href"@))
}

/// The post links of all the listing pages, page after page. A post that
/// two pages link to is named once for each of them.
pub open spec fn post_links_of_pages(pages: Seq<Seq<char>>) -> Seq<Seq<char>>
    decreases pages.len(),
{
    if pages.len() == 0 {
        Seq::empty()
    } else {
        post_links_of_pages(pages.drop_last()) + post_links_in(pages.last())
    }
}

/// Each link, taken as one that was found.
pub open spec fn found(links: Seq<Seq<char>>) -> Seq<Option<Seq<char>>> {
    links.map_values(|link: Seq<char>| Some(link))
}

/// Links in all of which `marker` occurs are all kept.
pub proof fn lemma_marked_keeps_marked(links: Seq<Seq<char>>, marker: Seq<char>)
    requires
        forall|i: int| 0 <= i < links.len() ==> occurs(#[trigger] links[i], marker),
    ensures
        marked(links, marker) == links,
    decreases links.len(),
{
    reveal(Seq::filter);
    if links.len() > 0 {
        lemma_marked_keeps_marked(links.drop_last(), marker);
        assert(links.drop_last().push(links.last()) =~= links);
    }
}

/// Links that were all found are all there.
pub proof fn lemma_present_found(links: Seq<Seq<char>>)
    ensures
        present(found(links)) == links,
    decreases links.len(),
{
    if links.len() > 0 {
        lemma_present_found(links.drop_last());
        assert(found(links).drop_last() =~= found(links.drop_last()));
        assert(links.drop_last() + seq![links.last()] =~= links);
    } else {
        assert(present(found(links)) =~= links);
    }
}

/// The links to further listing pages are distinct, each carries the page
/// offset, and picking them again out of themselves gives the same links in
/// the same order.
pub proof fn lemma_pagination_settled(anchors: Seq<Option<Seq<char>>>)
    ensures
        pagination_of(anchors).no_duplicates(),
        forall|i: int|
            0 <= i < pagination_of(anchors).len() ==> occurs(
                #[trigger] pagination_of(anchors)[i],
                "?o="@,
            ),
        pagination_of(found(pagination_of(anchors))) == pagination_of(anchors),
{
    broadcast use {vstd::seq_lib::group_filter_ensures, Seq::lemma_filter_contains_rev};

    let candidates = marked(present(anchors), "?o="@);
    let pages = pagination_of(anchors);
    lemma_first_seen_distinct(candidates);
    assert forall|i: int| 0 <= i < pages.len() implies occurs(#[trigger] pages[i], "?o="@) by {
        lemma_first_seen_comes_from(candidates, i);
        let k = candidates.index_of(pages[i]);
        assert(occurs(candidates[k], "?o="@));
    }
    lemma_present_found(pages);
    lemma_marked_keeps_marked(pages, "?o="@);
    lemma_first_seen_of_distinct(pages);
}

/// No post is linked twice by one listing page.
pub proof fn lemma_post_links_distinct(anchors: Seq<Option<Seq<char>>>)
    ensures
        post_links_of(anchors).no_duplicates(),
        post_links_of(found(post_links_of(anchors))) == post_links_of(anchors),
{
    lemma_first_seen_distinct(present(anchors));
    lemma_present_found(post_links_of(anchors));
    lemma_first_seen_of_distinct(post_links_of(anchors));
}

/// The links among `links` in which `marker` occurs, in order.
pub fn keep_marked(links: &Vec<String>, marker: &str) -> (r: Vec<String>)
    ensures
        r.deep_view() == marked(links.deep_view(), marker@),
{
    let mut r: Vec<String> = Vec::new();
    let mut i: usize = 0;
    while i < links.len()
        invariant
            i <= links.len(),
            r.deep_view() == marked(links.deep_view().take(i as int), marker@),
        decreases links.len() - i,
    {
        let ghost seen = links.deep_view().take(i as int);
        let ghost next = links.deep_view().take(i + 1);
        proof {
            reveal(Seq::filter);
            assert(next.drop_last() =~= seen);
            assert(next.last() == links[i as int]@);
        }
        if contains(links[i].as_str(), marker) {
            let ghost before = r.deep_view();
            r.push(links[i].clone());
            assert(r.deep_view() =~= before.push(links[i as int]@));
        }
        i += 1;
    }
    assert(links.deep_view().take(links.len() as int) =~= links.deep_view());
    r
}

/// Picks the links to further listing pages out of what was found in the
/// list items of a listing page.
pub fn pagination_links(anchors: &Vec<Option<String>>) -> (r: Vec<String>)
    ensures
        r.deep_view() == pagination_of(anchors.deep_view()),
{
    let found = present_texts(anchors);
    let pages = keep_marked(&found, "?o=");
    keep_first(&pages)
}

/// The links to further listing pages that the listing page `html` holds.
pub fn discover_page_links(html: &str) -> (r: Vec<String>)
    requires
        parsable(html@),
    ensures
        r.deep_view() == page_links_in(html@),
{
    let anchors = select_attrs_below_name(html, "li", "a", "href");
    pagination_links(&anchors)
}

/// Picks the links to posts out of what was found below the post headings
/// of a listing page: each link once, where it first stood.
pub fn post_links(anchors: &Vec<Option<String>>) -> (r: Vec<String>)
    ensures
        r.deep_view() == post_links_of(anchors.deep_view()),
        r.deep_view().no_duplicates(),
{
    proof {
        lemma_post_links_distinct(anchors.deep_view());
    }
    keep_first(&present_texts(anchors))
}

/// The links to posts that the listing page `html` holds, in document
/// order, each once.
pub fn extract_posts(html: &str) -> (r: Vec<String>)
    requires
        parsable(html@),
    ensures
        r.deep_view() == post_links_in(html@),
        r.deep_view().no_duplicates(),
{
    let anchors = select_attrs_below_class(html, "post-card__heading", "a", "href");
    post_links(&anchors)
}

} // verus!
