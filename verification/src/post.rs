//! A post: its title and the files that it refers to.

use crate::dedup::{first_seen, keep_first, present, present_texts};
use crate::html::{
    attrs_of_class, first_text_below_class, parsable, select_attrs_of_class,
    select_first_text_below_class,
};
use vstd::prelude::*;
use vstd::string::*;

verus! {

/// A post as it was read from its page. A file is referred to by a path on
/// the site, which holds the file's name after `f=`.
#[derive(Debug, PartialEq, Eq)]
pub struct Post {
    pub title: String,
    pub attachments: Vec<String>,
    pub images: Vec<String>,
}

/// A post as plain text.
pub struct PostView {
    pub title: Seq<char>,
    pub attachments: Seq<Seq<char>>,
    pub images: Seq<Seq<char>>,
}

impl View for Post {
    type V = PostView;

    open spec fn view(&self) -> PostView {
        PostView {
            title: self.title@,
            attachments: self.attachments.deep_view(),
            images: self.images.deep_view(),
        }
    }
}

impl DeepView for Post {
    type V = PostView;

    open spec fn deep_view(&self) -> PostView {
        self@
    }
}

impl PostView {
    /// No file is referred to twice among the attachments, nor among the images.
    pub open spec fn distinct(self) -> bool {
        self.attachments.no_duplicates() && self.images.no_duplicates()
    }
}

/// The title of a post whose page gives `found` as the text of its title
/// element: that text, or `Untitled` where the page has no such element.
pub open spec fn title_of(found: Option<Seq<char>>) -> Seq<char> {
    match found {
        Some(text) => text,
        None => "Untitled"@,
    }
}

/// The post made of what was found on its page: the title text, the links
/// of the attachment elements and the links of the thumbnail elements. Each
/// link is kept once, where it first stood.
pub open spec fn assembled(
    title: Option<Seq<char>>,
    attachments: Seq<Option<Seq<char>>>,
    images: Seq<Option<Seq<char>>>,
) -> PostView {
    PostView {
        title: title_of(title),
        attachments: first_seen(present(attachments)),
        images: first_seen(present(images)),
    }
}

/// The post that the page `html` shows.
pub open spec fn post_in(html: Seq<char>) -> PostView {
    assembled(
        first_text_below_class(html, "post__content"@, "pre"@),
        attrs_of_class(html, "post__attachment-link"@, "href"@),
        attrs_of_class(html, "fileThumb"@, "href"@),
    )
}

/// The posts that the pages show, page after page.
pub open spec fn posts_in(pages: Seq<Seq<char>>) -> Seq<PostView> {
    pages.map_values(|html: Seq<char>| post_in(html))
}

/// A post assembled from a page has no file twice in either list.
pub proof fn lemma_assembled_distinct(
    title: Option<Seq<char>>,
    attachments: Seq<Option<Seq<char>>>,
    images: Seq<Option<Seq<char>>>,
)
    ensures
        assembled(title, attachments, images).distinct(),
{
    crate::dedup::lemma_first_seen_distinct(present(attachments));
    crate::dedup::lemma_first_seen_distinct(present(images));
}

/// Makes a post of what was found on its page.
pub fn assemble_post(
    title: Option<String>,
    attachments: &Vec<Option<String>>,
    images: &Vec<Option<String>>,
) -> (post: Post)
    ensures
        post@ == assembled(title.deep_view(), attachments.deep_view(), images.deep_view()),
        post@.distinct(),
{
    proof {
        lemma_assembled_distinct(title.deep_view(), attachments.deep_view(), images.deep_view());
    }
    let title = match title {
        Some(text) => text,
        None => String::from_str("Untitled"),
    };
    let attachments = keep_first(&present_texts(attachments));
    let images = keep_first(&present_texts(images));
    Post { title, attachments, images }
}

/// Reads a post from its page.
pub fn parse_post(html: &str) -> (post: Post)
    requires
        parsable(html@),
    ensures
        post@ == post_in(html@),
        post@.distinct(),
{
    let title = select_first_text_below_class(html, "post__content", "pre");
    let attachments = select_attrs_of_class(html, "post__attachment-link", "href");
    let images = select_attrs_of_class(html, "fileThumb", "href");
    assemble_post(title, &attachments, &images)
}

} // verus!
