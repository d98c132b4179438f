//! The crawl, one page at a time.
//!
//! A crawl says which page it wants next; the caller fetches that page and
//! feeds its text back. First come the listing pages: the creator's own page,
//! which names the further ones, then each of those. Every listing page adds
//! the posts that it links to. Then come the pages of the posts, in the order
//! in which they were found; each is read into a post. When no page is wanted
//! any more, the creator holds all posts.

use crate::creator::{listing_urls, resolve_all, resolved, Creator, CreatorView};
use crate::html::parsable;
use crate::listing::{extract_posts, post_links_in, post_links_of_pages};
use crate::post::{post_in, posts_in, PostView};
use vstd::prelude::*;
use vstd::string::*;

verus! {

/// A crawl in progress.
pub struct Crawl {
    creator: Creator,
    pages: Vec<String>,
    pages_read: usize,
    post_urls: Vec<String>,
    posts_read: usize,
}

/// A crawl as plain values.
pub struct CrawlView {
    /// The creator, with the posts read so far.
    pub creator: CreatorView,
    /// The addresses of the listing pages, as far as they are known.
    pub pages: Seq<Seq<char>>,
    /// How many listing pages were fed.
    pub pages_read: nat,
    /// The addresses of the posts found so far.
    pub post_urls: Seq<Seq<char>>,
    /// How many pages of posts were fed.
    pub posts_read: nat,
}

impl CrawlView {
    /// The crawl for `creator` before any page was fed: only the creator's
    /// own page is known.
    pub open spec fn fresh(creator: CreatorView) -> CrawlView {
        CrawlView {
            creator: creator,
            pages: seq![creator.target.canonical_url],
            pages_read: 0,
            post_urls: Seq::empty(),
            posts_read: 0,
        }
    }

    /// The address of the page that is wanted next, if any: the next listing
    /// page while there is one, then the page of the next post.
    pub open spec fn wanted(self) -> Option<Seq<char>> {
        if self.pages_read < self.pages.len() {
            Some(self.pages[self.pages_read as int])
        } else if self.posts_read < self.post_urls.len() {
            Some(self.post_urls[self.posts_read as int])
        } else {
            None
        }
    }

    /// The crawl after the text `html` of the wanted page was fed. Where no
    /// page is wanted, nothing changes.
    pub open spec fn after(self, html: Seq<char>) -> CrawlView {
        if self.pages_read < self.pages.len() {
            CrawlView {
                pages: if self.pages_read == 0 {
                    listing_urls(self.creator.target, html)
                } else {
                    self.pages
                },
                pages_read: self.pages_read + 1,
                post_urls: self.post_urls + resolved(
                    self.creator.target.base_url,
                    post_links_in(html),
                ),
                ..self
            }
        } else if self.posts_read < self.post_urls.len() {
            CrawlView {
                creator: CreatorView {
                    posts: self.creator.posts.push(post_in(html)),
                    ..self.creator
                },
                posts_read: self.posts_read + 1,
                ..self
            }
        } else {
            self
        }
    }

    /// The crawl after the texts `pages` were fed, one after the other.
    pub open spec fn after_all(self, pages: Seq<Seq<char>>) -> CrawlView
        decreases pages.len(),
    {
        if pages.len() == 0 {
            self
        } else {
            self.after_all(pages.drop_last()).after(pages.last())
        }
    }
}

/// Links are resolved one by one: two lists, one after the other, resolve to
/// the two resolved lists, one after the other.
pub proof fn lemma_resolved_concat(base_url: Seq<char>, a: Seq<Seq<char>>, b: Seq<Seq<char>>)
    ensures
        resolved(base_url, a + b) == resolved(base_url, a) + resolved(base_url, b),
{
    assert(resolved(base_url, a + b) =~= resolved(base_url, a) + resolved(base_url, b));
}

/// Feeding texts in two runs is feeding them in one.
pub proof fn lemma_after_all_concat(crawl: CrawlView, a: Seq<Seq<char>>, b: Seq<Seq<char>>)
    ensures
        crawl.after_all(a + b) == crawl.after_all(a).after_all(b),
    decreases b.len(),
{
    if b.len() == 0 {
        assert(a + b =~= a);
    } else {
        lemma_after_all_concat(crawl, a, b.drop_last());
        assert((a + b).drop_last() =~= a + b.drop_last());
        assert((a + b).last() == b.last());
    }
}

/// After the first `k` listing pages were fed, the posts of exactly these
/// pages are known, and the listing pages are those that the first one names.
proof fn lemma_listings_read(creator: CreatorView, listings: Seq<Seq<char>>, k: int)
    requires
        1 <= k <= listings.len(),
        listings.len() <= listing_urls(creator.target, listings[0]).len(),
    ensures
        CrawlView::fresh(creator).after_all(listings.take(k)) == (CrawlView {
            creator: creator,
            pages: listing_urls(creator.target, listings[0]),
            pages_read: k as nat,
            post_urls: resolved(
                creator.target.base_url,
                post_links_of_pages(listings.take(k)),
            ),
            posts_read: 0,
        }),
    decreases k,
{
    let fresh = CrawlView::fresh(creator);
    let fed = listings.take(k);
    let base_url = creator.target.base_url;
    assert(fed.drop_last() =~= listings.take(k - 1));
    assert(fed.last() == listings[k - 1]);
    if k == 1 {
        assert(fresh.after_all(fed.drop_last()) == fresh);
        assert(post_links_of_pages(fed.drop_last()) =~= Seq::<Seq<char>>::empty());
        assert(fresh.post_urls + resolved(base_url, post_links_in(listings[0])) =~= resolved(
            base_url,
            post_links_of_pages(fed),
        ));
    } else {
        lemma_listings_read(creator, listings, k - 1);
        lemma_resolved_concat(
            base_url,
            post_links_of_pages(listings.take(k - 1)),
            post_links_in(listings[k - 1]),
        );
    }
}

/// After the pages of the first `k` posts were fed, exactly these posts were
/// added to the creator's.
proof fn lemma_posts_read(crawl: CrawlView, pages: Seq<Seq<char>>, k: int)
    requires
        crawl.pages_read == crawl.pages.len(),
        crawl.posts_read == 0,
        0 <= k <= pages.len() <= crawl.post_urls.len(),
    ensures
        crawl.after_all(pages.take(k)) == (CrawlView {
            creator: CreatorView {
                posts: crawl.creator.posts + posts_in(pages.take(k)),
                ..crawl.creator
            },
            posts_read: k as nat,
            ..crawl
        }),
    decreases k,
{
    let fed = pages.take(k);
    if k == 0 {
        assert(crawl.creator.posts + posts_in(fed) =~= crawl.creator.posts);
    } else {
        lemma_posts_read(crawl, pages, k - 1);
        assert(fed.drop_last() =~= pages.take(k - 1));
        assert(fed.last() == pages[k - 1]);
        assert((crawl.creator.posts + posts_in(pages.take(k - 1))).push(post_in(pages[k - 1]))
            =~= crawl.creator.posts + posts_in(fed));
    }
}

/// A crawl that is fed every page it wants ends with all posts read: where
/// `listings` are the texts of the listing pages that the first of them
/// names, and `pages` the texts of the pages of the posts that they link to,
/// feeding them in this order leaves no page wanted, and the creator then
/// holds the posts of `pages`, added in order to those it held before.
pub proof fn lemma_crawl_reads_all(
    creator: CreatorView,
    listings: Seq<Seq<char>>,
    pages: Seq<Seq<char>>,
)
    requires
        listings.len() >= 1,
        listings.len() == listing_urls(creator.target, listings[0]).len(),
        pages.len() == post_links_of_pages(listings).len(),
    ensures
        ({
            let end = CrawlView::fresh(creator).after_all(listings + pages);
            &&& end.wanted() is None
            &&& end.pages == listing_urls(creator.target, listings[0])
            &&& end.post_urls == resolved(creator.target.base_url, post_links_of_pages(listings))
            &&& end.creator == (CreatorView { posts: creator.posts + posts_in(pages), ..creator })
        }),
{
    let fresh = CrawlView::fresh(creator);
    lemma_after_all_concat(fresh, listings, pages);
    lemma_listings_read(creator, listings, listings.len() as int);
    assert(listings.take(listings.len() as int) =~= listings);
    let listed = fresh.after_all(listings);
    lemma_posts_read(listed, pages, pages.len() as int);
    assert(pages.take(pages.len() as int) =~= pages);
}

impl View for Crawl {
    type V = CrawlView;

    closed spec fn view(&self) -> CrawlView {
        CrawlView {
            creator: self.creator@,
            pages: self.pages.deep_view(),
            pages_read: self.pages_read as nat,
            post_urls: self.post_urls.deep_view(),
            posts_read: self.posts_read as nat,
        }
    }
}

impl Crawl {
    /// Begins the crawl for `creator`.
    pub fn new(creator: Creator) -> (crawl: Crawl)
        ensures
            crawl@ == CrawlView::fresh(creator@),
    {
        let mut pages: Vec<String> = Vec::new();
        pages.push(creator.url().clone());
        let crawl = Crawl {
            creator,
            pages,
            pages_read: 0,
            post_urls: Vec::new(),
            posts_read: 0,
        };
        assert(crawl@.pages =~= seq![creator@.target.canonical_url]);
        assert(crawl@.post_urls =~= Seq::<Seq<char>>::empty());
        crawl
    }

    /// The address of the page that is wanted next, if any.
    pub fn wanted(&self) -> (url: Option<String>)
        ensures
            url.deep_view() == self@.wanted(),
    {
        if self.pages_read < self.pages.len() {
            Some(self.pages[self.pages_read].clone())
        } else if self.posts_read < self.post_urls.len() {
            Some(self.post_urls[self.posts_read].clone())
        } else {
            None
        }
    }

    /// Takes the text of the page that was wanted.
    pub fn feed(&mut self, html: &str)
        requires
            parsable(html@),
        ensures
            final(self)@ == old(self)@.after(html@),
    {
        if self.pages_read < self.pages.len() {
            if self.pages_read == 0 {
                self.pages = self.creator.discover_pages(html);
            }
            let found = resolve_all(self.creator.base_url().as_str(), &extract_posts(html));
            let ghost before = self.post_urls.deep_view();
            let mut i: usize = 0;
            while i < found.len()
                invariant
                    i <= found.len(),
                    self.post_urls.deep_view() == before + found.deep_view().take(i as int),
                    self.creator == old(self).creator,
                    self.pages_read == old(self).pages_read,
                    self.posts_read == old(self).posts_read,
                    self.pages.deep_view() == old(self)@.after(html@).pages,
                decreases found.len() - i,
            {
                let ghost earlier = self.post_urls.deep_view();
                self.post_urls.push(found[i].clone());
                assert(self.post_urls.deep_view() =~= earlier.push(found[i as int]@));
                assert(found.deep_view().take(i + 1) =~= found.deep_view().take(i as int).push(
                    found[i as int]@,
                ));
                i += 1;
            }
            assert(found.deep_view().take(found.len() as int) =~= found.deep_view());
            self.pages_read = self.pages_read + 1;
        } else if self.posts_read < self.post_urls.len() {
            let mut one: Vec<String> = Vec::new();
            one.push(String::from_str(html));
            assert(one.deep_view() =~= seq![html@]);
            let ghost before = self.creator@.posts;
            self.creator.get_all_posts(&one);
            assert(self.creator@.posts =~= before.push(post_in(html@)));
            assert(self.creator@ == (CreatorView {
                posts: before.push(post_in(html@)),
                ..old(self).creator@
            }));
            self.posts_read = self.posts_read + 1;
        }
    }

    /// Tells whether no page is wanted any more.
    pub fn is_done(&self) -> (r: bool)
        ensures
            r == self@.wanted() is None,
    {
        self.pages_read >= self.pages.len() && self.posts_read >= self.post_urls.len()
    }

    /// The creator, with the posts read so far.
    pub fn creator(&self) -> (r: &Creator)
        ensures
            r@ == self@.creator,
    {
        &self.creator
    }

    /// Ends the crawl and gives the creator, with the posts read so far.
    pub fn finish(self) -> (r: Creator)
        ensures
            r@ == self@.creator,
    {
        self.creator
    }
}

} // verus!
