use creator_archive::url::{parse_creator_url, CreatorTarget};

fn target(base_url: &str, service: &str, creator_id: &str, canonical_url: &str) -> CreatorTarget {
    CreatorTarget {
        base_url: base_url.to_string(),
        service: service.to_string(),
        creator_id: creator_id.to_string(),
        canonical_url: canonical_url.to_string(),
    }
}

#[test]
fn full_address_is_read() {
    assert_eq!(
        parse_creator_url("https://coomer.party/onlyfans/user/alice"),
        Some(target(
            "https://coomer.party",
            "onlyfans",
            "alice",
            "https://coomer.party/onlyfans/user/alice"
        ))
    );
}

#[test]
fn scheme_and_www_are_optional_and_normalised() {
    let expected = target(
        "https://kemono.party",
        "patreon",
        "12345",
        "https://kemono.party/patreon/user/12345",
    );
    for url in [
        "kemono.party/patreon/user/12345",
        "www.kemono.party/patreon/user/12345",
        "http://kemono.party/patreon/user/12345",
        "http://www.kemono.party/patreon/user/12345",
        "https://kemono.party/patreon/user/12345",
        "https://www.kemono.party/patreon/user/12345",
    ] {
        assert_eq!(parse_creator_url(url).as_ref(), Some(&expected), "{}", url);
    }
}

#[test]
fn canonical_url_is_reassembled_from_the_parts() {
    let t = parse_creator_url("http://www.coomer.party/fansly/user/bob").unwrap();
    assert_eq!(t.canonical_url, format!("{}/{}/user/{}", t.base_url, t.service, t.creator_id));
}

#[test]
fn canonical_url_reads_as_the_same_target() {
    for url in [
        "www.coomer.party/fansly/user/bob",
        "coomer.party/a/user/b/user/c",
        "http://kemono.party/x/y/user/z/",
    ] {
        let first = parse_creator_url(url).unwrap();
        let second = parse_creator_url(&first.canonical_url).unwrap();
        assert_eq!(first, second);
    }
}

#[test]
fn the_last_separator_is_taken() {
    assert_eq!(
        parse_creator_url("coomer.party/a/user/b/user/c"),
        Some(target(
            "https://coomer.party",
            "a/user/b",
            "c",
            "https://coomer.party/a/user/b/user/c"
        ))
    );
}

#[test]
fn a_separator_with_nothing_after_it_is_part_of_the_creator() {
    assert_eq!(
        parse_creator_url("coomer.party/a/user/b/user/"),
        Some(target(
            "https://coomer.party",
            "a",
            "b/user/",
            "https://coomer.party/a/user/b/user/"
        ))
    );
}

#[test]
fn text_beyond_ascii_is_read_by_characters() {
    assert_eq!(
        parse_creator_url("https://kemono.party/ファン/user/名前"),
        Some(target(
            "https://kemono.party",
            "ファン",
            "名前",
            "https://kemono.party/ファン/user/名前"
        ))
    );
}

#[test]
fn other_texts_are_refused() {
    for url in [
        "",
        "coomer.party",
        "coomer.party/",
        "https://example.com/onlyfans/user/alice",
        "ftp://coomer.party/onlyfans/user/alice",
        "https:/coomer.party/onlyfans/user/alice",
        "coomer.party/user/alice",
        "coomer.party//user/alice",
        "coomer.party/onlyfans/user/",
        "coomer.party/onlyfans/users/alice",
        "coomer.party/onlyfans/user",
        "coomerXparty/onlyfans/user/alice",
        "wwwXcoomer.party/onlyfans/user/alice",
        "www.www.coomer.party/onlyfans/user/alice",
        " coomer.party/onlyfans/user/alice",
        "see coomer.party/onlyfans/user/alice",
        "coomer.party/onlyfans/user/alice\n",
        "coomer.party/only\nfans/user/alice",
        "COOMER.PARTY/onlyfans/user/alice",
    ] {
        assert_eq!(parse_creator_url(url), None, "{:?}", url);
    }
}
