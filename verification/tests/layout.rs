use creator_archive::layout::{attachment_dir, image_dir, post_dir, top_dir};
use creator_archive::text::{begins_with, cap, contains, join};

#[test]
fn top_directory_is_named_after_service_and_creator() {
    assert_eq!(top_dir("fansly", "42"), "fansly - 42");
    assert_eq!(top_dir("", ""), " - ");
}

#[test]
fn post_directory_has_unsafe_characters_taken_out() {
    assert_eq!(post_dir("What? A/B: \"test\" <1>|*\\", false), "What AB test 1");
    assert_eq!(post_dir("plain title", false), "plain title");
    assert_eq!(post_dir("..", false), "");
}

#[test]
fn post_directory_follows_windows_rules_on_request() {
    assert_eq!(post_dir("con", true), "");
    assert_eq!(post_dir("con", false), "con");
    assert_eq!(post_dir("title. ", true), "title");
    assert_eq!(post_dir("title. ", false), "title. ");
}

#[test]
fn post_directory_is_cut_to_ninety_characters() {
    let long = "a".repeat(100);
    assert_eq!(post_dir(&long, false), "a".repeat(90));
    let exact = "b".repeat(90);
    assert_eq!(post_dir(&exact, false), exact);
    let wide = "é".repeat(91);
    assert_eq!(post_dir(&wide, false), "é".repeat(90));
}

#[test]
fn post_directory_is_cut_after_it_was_made_safe() {
    let title = format!("{}{}", "?".repeat(20), "c".repeat(95));
    assert_eq!(post_dir(&title, false), "c".repeat(90));
}

#[test]
fn flat_mode_has_two_fixed_directories() {
    assert_eq!(attachment_dir("Some post", false, false), "attachments");
    assert_eq!(image_dir("Some post", false, false), "images");
}

#[test]
fn sorted_mode_puts_both_kinds_into_the_post_directory() {
    assert_eq!(attachment_dir("Some: post", true, false), "Some post");
    assert_eq!(image_dir("Some: post", true, false), "Some post");
}

#[test]
fn text_is_cut_by_characters() {
    assert_eq!(cap("héllo", 2), "hé");
    assert_eq!(cap("héllo", 5), "héllo");
    assert_eq!(cap("héllo", 9), "héllo");
    assert_eq!(cap("héllo", 0), "");
}

#[test]
fn text_is_searched_by_characters() {
    assert!(contains("/s/user/1?o=50", "?o="));
    assert!(!contains("/s/user/1?o", "?o="));
    assert!(contains("abc", ""));
    assert!(!contains("", "a"));
    assert!(begins_with("/data/x", "/"));
    assert!(!begins_with("data/x", "/"));
    assert!(!begins_with("", "/"));
    assert_eq!(join("https://coomer.party", "/data/x"), "https://coomer.party/data/x");
}
