use creator_archive::url::parse_creator_url;
use onig::Regex;

const PATTERN: &str =
    "^(https?://)?(www\\.)?(coomer\\.party|kemono\\.party)/(.+)/user/(.+)$";

/// Holds the reading of `url` against what the pattern captures.
fn agree(pattern: &Regex, url: &str) {
    let read = parse_creator_url(url);
    assert_eq!(read.is_some(), pattern.is_match(url), "{:?}", url);
    if let Some(target) = read {
        let found = pattern.captures(url).unwrap();
        assert_eq!(target.base_url, format!("https://{}", found.at(3).unwrap()), "{:?}", url);
        assert_eq!(Some(target.service.as_str()), found.at(4), "{:?}", url);
        assert_eq!(Some(target.creator_id.as_str()), found.at(5), "{:?}", url);
    }
}

/// Every text made of up to `left` more of the `pieces`, behind `text`.
fn each_text(pieces: &[&str], left: usize, text: &mut String, pattern: &Regex, count: &mut usize) {
    agree(pattern, text);
    *count += 1;
    if left == 0 {
        return;
    }
    for piece in pieces {
        let length = text.len();
        text.push_str(piece);
        each_text(pieces, left - 1, text, pattern, count);
        text.truncate(length);
    }
}

#[test]
fn reading_agrees_with_the_pattern_on_chosen_addresses() {
    let pattern = Regex::new(PATTERN).unwrap();
    for url in [
        "https://coomer.party/onlyfans/user/alice",
        "http://www.kemono.party/patreon/user/12345",
        "kemono.party/fanbox/user/7",
        "coomer.party/a/user/b/user/c",
        "coomer.party/a/user/b/user/",
        "coomer.party//user//user/",
        "coomer.party/user/user/user/user",
        "https://kemono.party/ファン/user/名前",
        "coomer.party/a b/user/c d",
        "coomer.party/a/user/b?o=50",
        "",
        "coomer.party/user/alice",
        "coomer.party//user/alice",
        "coomer.party/onlyfans/user/",
        "coomerXparty/onlyfans/user/alice",
        "wwwXcoomer.party/onlyfans/user/alice",
        "www.www.coomer.party/onlyfans/user/alice",
        "https://https://coomer.party/onlyfans/user/alice",
        "https://example.com/onlyfans/user/alice",
        " coomer.party/onlyfans/user/alice",
        "coomer.party/onlyfans/user/alice\n",
        "\ncoomer.party/onlyfans/user/alice",
        "coomer.party/only\nfans/user/alice",
        "coomer.party/onlyfans/user/al\nice",
        "coomer.party/onlyfans/user/alice\r",
        "x\ncoomer.party/onlyfans/user/alice\ny",
        "COOMER.PARTY/onlyfans/user/alice",
    ] {
        agree(&pattern, url);
    }
}

#[test]
fn reading_agrees_with_the_pattern_on_all_short_texts() {
    let pattern = Regex::new(PATTERN).unwrap();
    let pieces = [
        "https://",
        "http://",
        "www.",
        "coomer.party",
        "kemono.party",
        "/",
        "/user/",
        "user",
        "a",
        "\n",
    ];
    let mut count = 0;
    each_text(&pieces, 5, &mut String::new(), &pattern, &mut count);
    assert_eq!(count, 111111);
}

#[test]
fn reading_agrees_with_the_pattern_on_all_short_paths() {
    let pattern = Regex::new(PATTERN).unwrap();
    let pieces = ["/user/", "/user", "user/", "/", "a", "\n"];
    for head in ["coomer.party/", "https://www.kemono.party/", "kemono.party"] {
        let mut count = 0;
        each_text(&pieces, 6, &mut head.to_string(), &pattern, &mut count);
        assert_eq!(count, 55987);
    }
}
