use creator_archive::listing::{
    discover_page_links, extract_posts, keep_marked, pagination_links, post_links,
};

fn some(text: &str) -> Option<String> {
    Some(text.to_string())
}

fn texts(items: &[&str]) -> Vec<String> {
    items.iter().map(|s| s.to_string()).collect()
}

const LISTING: &str = "<html><body>\
    <menu><li><a href=\"/fansly/user/42?o=50\">2</a></li>\
    <li><a href=\"/fansly/user/42?o=100\">3</a></li>\
    <li><a>no link</a></li>\
    <li><span><a href=\"/fansly/user/42?o=50\">next</a></span></li>\
    <li><a href=\"/help\">help</a></li></menu>\
    <a href=\"/fansly/user/42?o=150\">outside of any list item</a>\
    <article><h2 class=\"post-card__heading\"><a href=\"/fansly/user/42/post/1\">one</a></h2></article>\
    <article><h2 class=\"big post-card__heading\"><a href=\"/fansly/user/42/post/2\">two</a></h2></article>\
    <article><h2 class=\"post-card__heading\"><a href=\"/fansly/user/42/post/1\">one again</a></h2></article>\
    <article><h2 class=\"other\"><a href=\"/fansly/user/42/post/3\">three</a></h2></article>\
    </body></html>";

#[test]
fn pagination_keeps_marked_links_once_in_order() {
    let anchors = vec![
        some("/fansly/user/1?o=50"),
        some("/about"),
        None,
        some("/fansly/user/1?o=100"),
        some("/fansly/user/1?o=50"),
    ];
    assert_eq!(
        pagination_links(&anchors),
        texts(&["/fansly/user/1?o=50", "/fansly/user/1?o=100"])
    );
}

#[test]
fn pagination_of_nothing_is_nothing() {
    assert_eq!(pagination_links(&vec![]), Vec::<String>::new());
    assert_eq!(pagination_links(&vec![None, some("/a"), some("?o")]), Vec::<String>::new());
}

#[test]
fn marked_links_are_kept_with_their_repetitions() {
    let links = texts(&["a?o=1", "b", "?o=", "a?o=1", "o=?"]);
    assert_eq!(keep_marked(&links, "?o="), texts(&["a?o=1", "?o=", "a?o=1"]));
}

#[test]
fn pagination_links_are_found_in_list_items_only() {
    assert_eq!(
        discover_page_links(LISTING),
        texts(&["/fansly/user/42?o=50", "/fansly/user/42?o=100"])
    );
}

#[test]
fn pagination_discovery_gives_the_same_links_twice() {
    let first = discover_page_links(LISTING);
    let second = discover_page_links(LISTING);
    assert_eq!(first, second);
    let again: Vec<Option<String>> = first.iter().cloned().map(Some).collect();
    assert_eq!(pagination_links(&again), first);
}

#[test]
fn post_links_are_kept_once_in_document_order() {
    assert_eq!(
        extract_posts(LISTING),
        texts(&["/fansly/user/42/post/1", "/fansly/user/42/post/2"])
    );
}

#[test]
fn a_post_link_found_twice_is_kept_where_it_first_stood() {
    let anchors = vec![some("/p/10"), None, some("/p/11"), some("/p/10"), some("/p/12"), some("/p/11")];
    assert_eq!(post_links(&anchors), texts(&["/p/10", "/p/11", "/p/12"]));
    assert_eq!(post_links(&vec![None, None]), Vec::<String>::new());
}

#[test]
fn post_links_differ_by_exact_text() {
    let anchors = vec![some("/p/10"), some("/p/10/"), some("/P/10"), some("/p/10")];
    assert_eq!(post_links(&anchors), texts(&["/p/10", "/p/10/", "/P/10"]));
}

#[test]
fn a_page_without_markers_gives_nothing() {
    let html = "<html><body><p>nothing here</p></body></html>";
    assert_eq!(discover_page_links(html), Vec::<String>::new());
    assert_eq!(extract_posts(html), Vec::<String>::new());
    assert_eq!(extract_posts(""), Vec::<String>::new());
}
