use analytics::pages::normalize_page;

#[test]
fn page_query_string_is_dropped() {
    assert_eq!(
        normalize_page("http://wiredforge.com/blog?utm_source=x&y=2"),
        "http://wiredforge.com/blog"
    );
    assert_eq!(normalize_page("http://wiredforge.com/?"), "http://wiredforge.com");
}

#[test]
fn page_index_suffix_is_trimmed() {
    assert_eq!(
        normalize_page("http://wiredforge.com/blog/getpid/index.html"),
        "http://wiredforge.com/blog/getpid"
    );
    // every trailing repetition goes
    assert_eq!(
        normalize_page("http://wiredforge.com/a/index.html/index.html"),
        "http://wiredforge.com/a"
    );
}

#[test]
fn page_trailing_slashes_are_trimmed() {
    assert_eq!(normalize_page("http://wiredforge.com/"), "http://wiredforge.com");
    assert_eq!(normalize_page("http://wiredforge.com///"), "http://wiredforge.com");
}

#[test]
fn page_plain_address_is_kept() {
    assert_eq!(normalize_page("http://wiredforge.com/blog"), "http://wiredforge.com/blog");
    assert_eq!(normalize_page(""), "");
}

#[test]
fn page_slash_after_index_trim_is_kept() {
    // the slash branch is an alternative, not a second pass
    assert_eq!(
        normalize_page("http://wiredforge.com//index.html"),
        "http://wiredforge.com/"
    );
}
