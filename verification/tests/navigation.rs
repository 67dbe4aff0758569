use croni::navigation::normalize_address;

const SEARCH: &str = "https://www.google.com/search?q={query}";

#[test]
fn preserves_complete_url() {
    assert_eq!(
        normalize_address("https://example.com/a", SEARCH),
        "https://example.com/a"
    );
}

#[test]
fn adds_https_to_hosts() {
    assert_eq!(
        normalize_address("example.com", SEARCH),
        "https://example.com"
    );
}

#[test]
fn searches_plain_text() {
    assert_eq!(
        normalize_address("memoria baja", SEARCH),
        "https://www.google.com/search?q=memoria+baja"
    );
}

#[test]
fn blank_input_opens_blank_page() {
    assert_eq!(normalize_address("   \t", SEARCH), "about:blank");
}

#[test]
fn localhost_gets_https() {
    assert_eq!(normalize_address("  LocalHost  ", SEARCH), "https://LocalHost");
}

#[test]
fn search_terms_are_form_encoded() {
    assert_eq!(
        normalize_address("a & b?", SEARCH),
        "https://www.google.com/search?q=a+%26+b%3F"
    );
    assert_eq!(
        normalize_address("dos palabras.com", SEARCH),
        "https://www.google.com/search?q=dos+palabras.com"
    );
}
