//! One creator's archive: from the address of the creator's page, by way of
//! the pages that were fetched for it, to the plan of what to download.
//!
//! Nothing here reaches the network. The caller fetches the pages that
//! `discover_pages` and `collect_posts` name and hands their text back, all
//! at once or, through a `Crawl`, one page at a time.

use crate::dispatch::{
    all_dispatchable, all_passed_over, all_tasks, directories_for, is_dispatchable,
    is_fetchable, names_clean, passed_over_of, plan_directories, posts_can_dispatch, task_for,
    task_from, tasks_clean, tasks_of, DownloadPlan, DownloadTask, PlanView,
};
use crate::html::parsable;
use crate::layout::{top_dir, top_dir_name};
use crate::listing::{
    discover_page_links, extract_posts, page_links_in, post_links_of_pages,
};
use crate::post::{parse_post, post_in, posts_in, Post, PostView};
use crate::text::join;
use crate::url::{creator_target, is_creator_url, parse_creator_url, TargetView};
use vstd::prelude::*;
use vstd::string::*;

verus! {

/// What the user asks for.
#[derive(Debug, PartialEq, Eq)]
pub struct DownloadOptions {
    /// The address of the creator's page.
    pub url: String,
    /// The proxy through which all requests go, if any.
    pub proxy: Option<String>,
    /// Whether each post gets a directory of its own.
    pub sorted: bool,
    /// Whether directory names follow the stricter rules of Windows.
    pub windows: bool,
}

/// Options as plain values.
pub struct OptionsView {
    pub url: Seq<char>,
    pub proxy: Option<Seq<char>>,
    pub sorted: bool,
    pub windows: bool,
}

impl View for DownloadOptions {
    type V = OptionsView;

    open spec fn view(&self) -> OptionsView {
        OptionsView {
            url: self.url@,
            proxy: self.proxy.deep_view(),
            sorted: self.sorted,
            windows: self.windows,
        }
    }
}

/// A creator whose posts are to be archived.
pub struct Creator {
    options: DownloadOptions,
    user: String,
    service: String,
    url: String,
    base_url: String,
    posts: Vec<Post>,
}

/// A creator as plain values.
pub struct CreatorView {
    /// The options that the creator was made with.
    pub options: OptionsView,
    /// What the address in the options names.
    pub target: TargetView,
    /// The posts read so far.
    pub posts: Seq<PostView>,
}

impl View for Creator {
    type V = CreatorView;

    closed spec fn view(&self) -> CreatorView {
        CreatorView {
            options: self.options@,
            target: TargetView {
                base_url: self.base_url@,
                service: self.service@,
                creator_id: self.user@,
                canonical_url: self.url@,
            },
            posts: self.posts.deep_view(),
        }
    }
}

/// Every page is short enough to be parsed.
pub open spec fn all_parsable(pages: Seq<Seq<char>>) -> bool {
    forall|i: int| 0 <= i < pages.len() ==> parsable(#[trigger] pages[i])
}

/// Each link made into an address on the site at `base_url`.
pub open spec fn resolved(base_url: Seq<char>, links: Seq<Seq<char>>) -> Seq<Seq<char>> {
    links.map_values(|link: Seq<char>| base_url + link)
}

/// The addresses of all listing pages of a creator, whose first listing
/// page is `html`: that first page, then the further pages that it links to.
pub open spec fn listing_urls(target: TargetView, html: Seq<char>) -> Seq<Seq<char>> {
    seq![target.canonical_url] + resolved(target.base_url, page_links_in(html))
}

/// The plan for the posts of a creator.
pub open spec fn plan_of(creator: CreatorView) -> PlanView {
    PlanView {
        top_dir: top_dir_name(creator.target.service, creator.target.creator_id),
        directories: plan_directories(
            creator.posts,
            creator.options.sorted,
            creator.options.windows,
        ),
        tasks: all_tasks(
            creator.target.base_url,
            creator.posts,
            creator.options.sorted,
            creator.options.windows,
        ),
        passed_over: all_passed_over(creator.posts),
    }
}

/// Each link made into an address on the site at `base_url`.
pub fn resolve_all(base_url: &str, links: &Vec<String>) -> (r: Vec<String>)
    ensures
        r.deep_view() == resolved(base_url@, links.deep_view()),
{
    let mut r: Vec<String> = Vec::new();
    let mut i: usize = 0;
    while i < links.len()
        invariant
            i <= links.len(),
            r.deep_view() == resolved(base_url@, links.deep_view().take(i as int)),
        decreases links.len() - i,
    {
        let ghost earlier = r.deep_view();
        r.push(join(base_url, links[i].as_str()));
        assert(r.deep_view() =~= earlier.push(base_url@ + links[i as int]@));
        assert(r.deep_view() =~= resolved(base_url@, links.deep_view().take(i + 1)));
        i += 1;
    }
    assert(links.deep_view().take(links.len() as int) =~= links.deep_view());
    r
}

impl Creator {
    /// The creator whose page `options.url` is the address of, with no posts
    /// yet; nothing where it is no such address.
    pub fn new(options: DownloadOptions) -> (r: Option<Creator>)
        ensures
            r is Some <==> is_creator_url(options.url@),
            r matches Some(creator) ==> {
                &&& creator_target(options.url@) == Some(creator@.target)
                &&& creator@.options == options@
                &&& creator@.posts == Seq::<PostView>::empty()
            },
    {
        match parse_creator_url(options.url.as_str()) {
            Some(target) => {
                let creator = Creator {
                    options,
                    user: target.creator_id,
                    service: target.service,
                    url: target.canonical_url,
                    base_url: target.base_url,
                    posts: Vec::new(),
                };
                assert(creator@.posts =~= Seq::<PostView>::empty());
                Some(creator)
            },
            None => None,
        }
    }

    /// The options that the creator was made with.
    pub fn options(&self) -> (r: &DownloadOptions)
        ensures
            r@ == self@.options,
    {
        &self.options
    }

    /// The address of the creator's page in its normal spelling, which is
    /// also the creator's first listing page.
    pub fn url(&self) -> (r: &String)
        ensures
            r@ == self@.target.canonical_url,
    {
        &self.url
    }

    /// The address of the site.
    pub fn base_url(&self) -> (r: &String)
        ensures
            r@ == self@.target.base_url,
    {
        &self.base_url
    }

    /// The service on which the creator publishes.
    pub fn service(&self) -> (r: &String)
        ensures
            r@ == self@.target.service,
    {
        &self.service
    }

    /// The creator's identifier on the service.
    pub fn user(&self) -> (r: &String)
        ensures
            r@ == self@.target.creator_id,
    {
        &self.user
    }

    /// The posts read so far.
    pub fn posts(&self) -> (r: &Vec<Post>)
        ensures
            r.deep_view() == self@.posts,
    {
        &self.posts
    }

    /// The addresses of all listing pages, given the text of the first one.
    pub fn discover_pages(&self, html: &str) -> (r: Vec<String>)
        requires
            parsable(html@),
        ensures
            r.deep_view() == listing_urls(self@.target, html@),
    {
        let links = discover_page_links(html);
        let further = resolve_all(self.base_url.as_str(), &links);
        let mut r: Vec<String> = Vec::new();
        r.push(self.url.clone());
        let mut i: usize = 0;
        while i < further.len()
            invariant
                i <= further.len(),
                r.deep_view() == seq![self@.target.canonical_url] + further.deep_view().take(
                    i as int,
                ),
            decreases further.len() - i,
        {
            let ghost earlier = r.deep_view();
            r.push(further[i].clone());
            assert(r.deep_view() =~= earlier.push(further[i as int]@));
            assert(further.deep_view().take(i + 1) =~= further.deep_view().take(i as int).push(
                further[i as int]@,
            ));
            i += 1;
        }
        assert(further.deep_view().take(further.len() as int) =~= further.deep_view());
        r
    }

    /// The addresses of all posts that the listing pages link to, page after
    /// page, in document order. A post that one page links twice is named
    /// once for that page; a post that two pages link is named twice.
    pub fn collect_posts(&self, listings: &Vec<String>) -> (r: Vec<String>)
        requires
            all_parsable(listings.deep_view()),
        ensures
            r.deep_view() == resolved(
                self@.target.base_url,
                post_links_of_pages(listings.deep_view()),
            ),
    {
        let mut links: Vec<String> = Vec::new();
        let mut i: usize = 0;
        while i < listings.len()
            invariant
                i <= listings.len(),
                all_parsable(listings.deep_view()),
                links.deep_view() == post_links_of_pages(listings.deep_view().take(i as int)),
            decreases listings.len() - i,
        {
            let ghost seen = listings.deep_view().take(i as int);
            let ghost next = listings.deep_view().take(i + 1);
            proof {
                assert(next.drop_last() =~= seen);
                assert(next.last() == listings.deep_view()[i as int]);
                assert(parsable(listings.deep_view()[i as int]));
            }
            let found = extract_posts(listings[i].as_str());
            let mut j: usize = 0;
            while j < found.len()
                invariant
                    j <= found.len(),
                    links.deep_view() == post_links_of_pages(seen) + found.deep_view().take(
                        j as int,
                    ),
                decreases found.len() - j,
            {
                let ghost earlier = links.deep_view();
                links.push(found[j].clone());
                assert(links.deep_view() =~= earlier.push(found[j as int]@));
                assert(found.deep_view().take(j + 1) =~= found.deep_view().take(j as int).push(
                    found[j as int]@,
                ));
                j += 1;
            }
            assert(found.deep_view().take(found.len() as int) =~= found.deep_view());
            i += 1;
        }
        assert(listings.deep_view().take(listings.len() as int) =~= listings.deep_view());
        resolve_all(self.base_url.as_str(), &links)
    }

    /// Reads the posts from the text of their pages and adds them, in order,
    /// to the posts read so far.
    pub fn get_all_posts(&mut self, pages: &Vec<String>)
        requires
            all_parsable(pages.deep_view()),
        ensures
            final(self)@ == (CreatorView {
                posts: old(self)@.posts + posts_in(pages.deep_view()),
                ..old(self)@
            }),
    {
        let ghost before = self@.posts;
        let mut i: usize = 0;
        while i < pages.len()
            invariant
                i <= pages.len(),
                all_parsable(pages.deep_view()),
                self@.posts == before + posts_in(pages.deep_view().take(i as int)),
                self@.target == old(self)@.target,
                self@.options == old(self)@.options,
            decreases pages.len() - i,
        {
            let ghost earlier = self@.posts;
            assert(parsable(pages.deep_view()[i as int]));
            let post = parse_post(pages[i].as_str());
            self.posts.push(post);
            assert(self@.posts =~= earlier.push(post@));
            assert(posts_in(pages.deep_view().take(i + 1)) =~= posts_in(
                pages.deep_view().take(i as int),
            ).push(post_in(pages[i as int]@)));
            i += 1;
        }
        assert(pages.deep_view().take(pages.len() as int) =~= pages.deep_view());
    }

    /// Tells whether `download` can work on the posts read so far: whether
    /// every path that is to be fetched names its file.
    pub fn can_download(&self) -> (r: bool)
        ensures
            r == all_dispatchable(self@.posts),
    {
        posts_can_dispatch(&self.posts)
    }

    /// The task that fetches the file at `sub_link` into `directory`, or
    /// nothing where `sub_link` does not begin with `/`.
    pub fn prepare_download(&self, directory: &str, sub_link: &str) -> (r: Option<DownloadTask>)
        requires
            is_dispatchable(sub_link@),
        ensures
            r is Some <==> is_fetchable(sub_link@),
            r matches Some(task) ==> task@ == task_for(
                self@.target.base_url,
                directory@,
                sub_link@,
            ),
    {
        task_from(self.base_url.as_str(), directory, sub_link)
    }

    /// The plan for downloading the files of the posts read so far. A path
    /// that does not begin with `/` gets no task and is listed as passed
    /// over. No directory below the top directory has an illegal character
    /// in its name: each is one step down.
    pub fn download(&self) -> (plan: DownloadPlan)
        requires
            all_dispatchable(self@.posts),
        ensures
            plan@ == plan_of(self@),
            names_clean(plan@.directories),
            tasks_clean(plan@.tasks),
    {
        DownloadPlan {
            top_dir: top_dir(self.service.as_str(), self.user.as_str()),
            directories: directories_for(&self.posts, self.options.sorted, self.options.windows),
            tasks: tasks_of(
                self.base_url.as_str(),
                &self.posts,
                self.options.sorted,
                self.options.windows,
            ),
            passed_over: passed_over_of(&self.posts),
        }
    }
}

} // verus!
