use creator_archive::creator::{resolve_all, Creator, DownloadOptions};
use creator_archive::dispatch::{DownloadPlan, DownloadTask};
use creator_archive::post::Post;

fn options(url: &str, sorted: bool) -> DownloadOptions {
    DownloadOptions { url: url.to_string(), proxy: None, sorted, windows: false }
}

fn texts(items: &[&str]) -> Vec<String> {
    items.iter().map(|s| s.to_string()).collect()
}

fn task(url: &str, directory: &str, filename: &str) -> DownloadTask {
    DownloadTask {
        url: url.to_string(),
        directory: directory.to_string(),
        filename: filename.to_string(),
    }
}

const LISTING: &str = "<html><body>\
    <article><h2 class=\"post-card__heading\"><a href=\"/fansly/user/42/post/1\">First</a></h2></article>\
    <article><h2 class=\"post-card__heading\"><a href=\"/fansly/user/42/post/2\">Second</a></h2></article>\
    </body></html>";

const FIRST_POST: &str = "<html><body><div class=\"post__content\"><pre>First post</pre></div>\
    <a class=\"post__attachment-link\" href=\"/data/aa/bb/abc.zip?f=first.zip\">Download first.zip</a>\
    <a class=\"fileThumb\" href=\"/data/11/22/img.png?f=first.png\"><img src=\"/t/1.png\"></a>\
    </body></html>";

const SECOND_POST: &str = "<html><body><div class=\"post__content\"><pre>Second post</pre></div>\
    <a class=\"post__attachment-link\" href=\"/data/cc/dd/def.zip?f=second.zip\">Download second.zip</a>\
    <a class=\"fileThumb\" href=\"/data/33/44/pic.png?f=second.png\"><img src=\"/t/2.png\"></a>\
    </body></html>";

fn crawl(sorted: bool) -> Creator {
    let mut creator = Creator::new(options("www.coomer.party/fansly/user/42", sorted)).unwrap();
    let pages = creator.discover_pages(LISTING);
    assert_eq!(pages, texts(&["https://coomer.party/fansly/user/42"]));
    let posts = creator.collect_posts(&texts(&[LISTING]));
    assert_eq!(
        posts,
        texts(&[
            "https://coomer.party/fansly/user/42/post/1",
            "https://coomer.party/fansly/user/42/post/2"
        ])
    );
    creator.get_all_posts(&texts(&[FIRST_POST, SECOND_POST]));
    creator
}

#[test]
fn a_creator_is_made_from_a_valid_address() {
    let creator = Creator::new(DownloadOptions {
        url: "http://www.kemono.party/patreon/user/777".to_string(),
        proxy: Some("socks5://127.0.0.1:9050".to_string()),
        sorted: true,
        windows: false,
    })
    .unwrap();
    assert_eq!(creator.url(), "https://kemono.party/patreon/user/777");
    assert_eq!(creator.base_url(), "https://kemono.party");
    assert_eq!(creator.service(), "patreon");
    assert_eq!(creator.user(), "777");
    assert!(creator.posts().is_empty());
    assert_eq!(
        creator.options(),
        &DownloadOptions {
            url: "http://www.kemono.party/patreon/user/777".to_string(),
            proxy: Some("socks5://127.0.0.1:9050".to_string()),
            sorted: true,
            windows: false,
        }
    );
}

#[test]
fn no_creator_is_made_from_another_text() {
    assert!(Creator::new(options("https://example.com/patreon/user/777", false)).is_none());
    assert!(Creator::new(options("kemono.party/patreon/777", true)).is_none());
    assert!(Creator::new(options("", false)).is_none());
}

#[test]
fn links_are_resolved_against_the_site() {
    assert_eq!(
        resolve_all("https://coomer.party", &texts(&["/a", "", "/b?o=1"])),
        texts(&["https://coomer.party/a", "https://coomer.party", "https://coomer.party/b?o=1"])
    );
}

#[test]
fn the_first_page_comes_before_the_pages_it_links_to() {
    let creator = Creator::new(options("coomer.party/fansly/user/42", false)).unwrap();
    let html = "<ul><li><a href=\"/fansly/user/42?o=50\">2</a></li>\
        <li><a href=\"/fansly/user/42?o=100\">3</a></li>\
        <li><a href=\"/fansly/user/42?o=50\">next</a></li></ul>";
    assert_eq!(
        creator.discover_pages(html),
        texts(&[
            "https://coomer.party/fansly/user/42",
            "https://coomer.party/fansly/user/42?o=50",
            "https://coomer.party/fansly/user/42?o=100",
        ])
    );
}

#[test]
fn a_post_linked_twice_on_one_page_is_collected_once() {
    let creator = Creator::new(options("kemono.party/patreon/user/1", false)).unwrap();
    let page = "<h2 class='post-card__heading'><a href='/patreon/user/1/post/10'>a</a></h2>\
        <h2 class='post-card__heading'><a href='/patreon/user/1/post/11'>b</a></h2>\
        <h2 class='post-card__heading'><a href='/patreon/user/1/post/10'>a</a></h2>";
    assert_eq!(
        creator.collect_posts(&texts(&[page])),
        texts(&[
            "https://kemono.party/patreon/user/1/post/10",
            "https://kemono.party/patreon/user/1/post/11",
        ])
    );
}

#[test]
fn a_post_linked_on_two_pages_is_collected_twice() {
    let creator = Creator::new(options("coomer.party/fansly/user/42", false)).unwrap();
    let second = "<h2 class=\"post-card__heading\"><a href=\"/fansly/user/42/post/2\">Second</a></h2>\
        <h2 class=\"post-card__heading\"><a href=\"/fansly/user/42/post/3\">Third</a></h2>";
    assert_eq!(
        creator.collect_posts(&texts(&[LISTING, "<p>empty</p>", second])),
        texts(&[
            "https://coomer.party/fansly/user/42/post/1",
            "https://coomer.party/fansly/user/42/post/2",
            "https://coomer.party/fansly/user/42/post/2",
            "https://coomer.party/fansly/user/42/post/3",
        ])
    );
    assert_eq!(creator.collect_posts(&vec![]), Vec::<String>::new());
}

#[test]
fn posts_are_added_to_those_read_before() {
    let mut creator = Creator::new(options("coomer.party/fansly/user/42", false)).unwrap();
    creator.get_all_posts(&texts(&[FIRST_POST]));
    creator.get_all_posts(&texts(&[]));
    creator.get_all_posts(&texts(&[SECOND_POST, "<p>bare</p>"]));
    assert_eq!(
        creator.posts(),
        &vec![
            Post {
                title: "First post".to_string(),
                attachments: texts(&["/data/aa/bb/abc.zip?f=first.zip"]),
                images: texts(&["/data/11/22/img.png?f=first.png"]),
            },
            Post {
                title: "Second post".to_string(),
                attachments: texts(&["/data/cc/dd/def.zip?f=second.zip"]),
                images: texts(&["/data/33/44/pic.png?f=second.png"]),
            },
            Post { title: "Untitled".to_string(), attachments: vec![], images: vec![] },
        ]
    );
}

#[test]
fn sorted_mode_gives_each_post_a_directory_with_its_two_files() {
    let creator = crawl(true);
    assert!(creator.can_download());
    assert_eq!(
        creator.download(),
        DownloadPlan {
            top_dir: "fansly - 42".to_string(),
            directories: texts(&["First post", "Second post"]),
            tasks: vec![
                task("https://coomer.party/data/aa/bb/abc.zip?f=first.zip", "First post", "first.zip"),
                task("https://coomer.party/data/11/22/img.png?f=first.png", "First post", "first.png"),
                task("https://coomer.party/data/cc/dd/def.zip?f=second.zip", "Second post", "second.zip"),
                task("https://coomer.party/data/33/44/pic.png?f=second.png", "Second post", "second.png"),
            ],
            passed_over: vec![],
        }
    );
}

#[test]
fn flat_mode_gives_one_directory_for_attachments_and_one_for_images() {
    let creator = crawl(false);
    assert!(creator.can_download());
    let plan = creator.download();
    assert_eq!(plan.top_dir, "fansly - 42");
    assert_eq!(plan.directories, texts(&["images", "attachments"]));
    let in_dir = |directory: &str| -> Vec<String> {
        plan.tasks.iter().filter(|t| t.directory == directory).map(|t| t.filename.clone()).collect()
    };
    assert_eq!(in_dir("attachments"), texts(&["first.zip", "second.zip"]));
    assert_eq!(in_dir("images"), texts(&["first.png", "second.png"]));
    assert_eq!(plan.tasks.len(), 4);
}

#[test]
fn a_task_is_prepared_for_a_path_from_the_root_only() {
    let creator = Creator::new(options("kemono.party/patreon/user/777", false)).unwrap();
    assert_eq!(
        creator.prepare_download("images", "/data/x.png?f=x.png"),
        Some(task("https://kemono.party/data/x.png?f=x.png", "images", "x.png"))
    );
    assert_eq!(creator.prepare_download("images", "https://elsewhere.example/x.png?f=x.png"), None);
    assert_eq!(creator.prepare_download("images", "x.png"), None);
}

#[test]
fn a_path_from_the_root_without_file_name_stops_the_download() {
    let mut creator = Creator::new(options("kemono.party/patreon/user/777", false)).unwrap();
    creator.get_all_posts(&texts(&["<a class=\"fileThumb\" href=\"/data/x.png\">x</a>"]));
    assert!(!creator.can_download());
}

#[test]
fn paths_that_cannot_be_fetched_are_listed_as_passed_over() {
    let mut creator = Creator::new(options("kemono.party/patreon/user/777", false)).unwrap();
    creator.get_all_posts(&texts(&[
        "<a class=\"post__attachment-link\" href=\"https://elsewhere.example/a.zip?f=a.zip\">a</a>\
         <a class=\"post__attachment-link\" href=\"/data/b.zip?f=b.zip\">b</a>\
         <a class=\"fileThumb\" href=\"data/c.png\">c</a>",
        "<a class=\"fileThumb\" href=\"\">d</a><a class=\"fileThumb\" href=\"/data/e.png?f=e.png\">e</a>",
    ]));
    assert!(creator.can_download());
    let plan = creator.download();
    assert_eq!(
        plan.passed_over,
        texts(&["https://elsewhere.example/a.zip?f=a.zip", "data/c.png", ""])
    );
    assert_eq!(
        plan.tasks,
        vec![
            task("https://kemono.party/data/b.zip?f=b.zip", "attachments", "b.zip"),
            task("https://kemono.party/data/e.png?f=e.png", "images", "e.png"),
        ]
    );
}

#[test]
fn a_creator_without_posts_has_nothing_to_fetch() {
    let creator = Creator::new(options("kemono.party/patreon/user/777", true)).unwrap();
    assert!(creator.can_download());
    assert_eq!(
        creator.download(),
        DownloadPlan {
            top_dir: "patreon - 777".to_string(),
            directories: vec![],
            tasks: vec![],
            passed_over: vec![],
        }
    );
}
