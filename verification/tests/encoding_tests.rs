use crawler::encoding::find_meta_charset;
use crawler::encoding::header_charset_label;
use crawler::encoding::resolve_text;
use crawler::sitemap::extract_loc_urls;
use crawler::sitemap::sitemap_url;
use crawler::urlinfo::is_article_link;
use crawler::urlinfo::normalize_url;
use crawler::urlinfo::same_domain;

// "テスト" in Shift_JIS.
const SJIS_TESUTO: [u8; 6] = [0x83, 0x65, 0x83, 0x58, 0x83, 0x67];

#[test]
fn header_charset_wins() {
    let ct = b"text/html; charset=shift_jis".to_vec();
    let text = resolve_text(Some(&ct), &SJIS_TESUTO.to_vec());
    assert_eq!(text, "\u{30c6}\u{30b9}\u{30c8}");
}

#[test]
fn header_label_is_trimmed() {
    let ct = b"text/html; charset= shift_jis ".to_vec();
    assert_eq!(header_charset_label(&ct).as_deref(), Some(b"shift_jis".as_slice()));
    let none = b"text/html".to_vec();
    assert_eq!(header_charset_label(&none), None);
}

#[test]
fn meta_charset_is_found_in_head() {
    let body = b"<html><head><meta charset=\"shift_jis\"></head></html>".to_vec();
    assert_eq!(find_meta_charset(&body).as_deref(), Some(b"shift_jis".as_slice()));
    let spaced = b"<meta charset = 'utf-8'>".to_vec();
    assert_eq!(find_meta_charset(&spaced).as_deref(), Some(b"utf-8".as_slice()));
    let none = b"<html><head></head></html>".to_vec();
    assert_eq!(find_meta_charset(&none), None);
}

#[test]
fn meta_charset_decodes_body_when_header_is_silent() {
    let mut body = b"<html><head><meta charset=\"shift_jis\"><title>".to_vec();
    body.extend_from_slice(&SJIS_TESUTO);
    body.extend_from_slice(b"</title></head></html>");
    let text = resolve_text(None, &body);
    assert!(text.contains("\u{30c6}\u{30b9}\u{30c8}"));
}

#[test]
fn unknown_header_charset_falls_through() {
    let ct = b"text/html; charset=no-such-encoding".to_vec();
    let mut body = b"<meta charset=shift_jis>".to_vec();
    body.extend_from_slice(&SJIS_TESUTO);
    let text = resolve_text(Some(&ct), &body);
    assert!(text.contains("\u{30c6}\u{30b9}\u{30c8}"));
}

#[test]
fn detection_fallback_produces_text() {
    // No header charset, no embedded declaration: statistical detection.
    let body = b"just plain readable text with no charset anywhere".to_vec();
    let text = resolve_text(None, &body);
    assert!(!text.is_empty());
    assert_eq!(text, "just plain readable text with no charset anywhere");
}

#[test]
fn detection_recovers_legacy_japanese() {
    // A longer Shift_JIS body with no declaration anywhere: statistical
    // detection must pick the right encoding, so a decoder that handed the
    // bytes through unchanged would fail this.
    let mut body = Vec::new();
    for _ in 0..40 {
        body.extend_from_slice(&SJIS_TESUTO);
        body.extend_from_slice(&[0x82, 0xc5, 0x82, 0xb7, 0x81, 0x42]); // "です。"
    }
    let text = resolve_text(None, &body);
    assert!(text.contains("\u{30c6}\u{30b9}\u{30c8}\u{3067}\u{3059}\u{3002}"));
}

#[test]
fn detection_fallback_handles_utf8() {
    let s = "\u{3053}\u{3093}\u{306b}\u{3061}\u{306f}\u{4e16}\u{754c}";
    let body = s.as_bytes().to_vec();
    let text = resolve_text(None, &body);
    assert!(!text.is_empty());
}

#[test]
fn sitemap_url_strips_trailing_slashes() {
    assert_eq!(sitemap_url("https://x.com"), "https://x.com/sitemap.xml");
    assert_eq!(sitemap_url("https://x.com/"), "https://x.com/sitemap.xml");
    assert_eq!(sitemap_url("https://x.com//"), "https://x.com/sitemap.xml");
}

#[test]
fn loc_extraction_keeps_document_order() {
    let body = "<urlset><url><loc>https://x/a</loc></url><url><loc> https://x/b </loc></url></urlset>";
    assert_eq!(
        extract_loc_urls(body),
        vec!["https://x/a".to_string(), "https://x/b".to_string()]
    );
}

#[test]
fn unterminated_loc_truncates() {
    let body = "<urlset><loc>https://x/a</loc><loc>https://x/b</urlset>";
    assert_eq!(extract_loc_urls(body), vec!["https://x/a".to_string()]);
    assert_eq!(extract_loc_urls("<urlset></urlset>"), Vec::<String>::new());
}

#[test]
fn article_link_heuristic() {
    assert!(is_article_link("https://x.com/2024/05/post"));
    assert!(is_article_link("https://x.com/page.html"));
    assert!(!is_article_link("https://x.com/about"));
}

#[test]
fn same_domain_comparisons() {
    assert!(same_domain("https://x.com/p", "https://x.com/q"));
    assert!(same_domain("https://x.com/p", "https://x.com:8080/q"));
    assert!(!same_domain("https://x.com/p", "https://y.com/r"));
    // Unparseable URLs are conservatively rejected.
    assert!(!same_domain("https://x.com/p", "not a url"));
    assert!(!same_domain("::::", "::::"));
}

#[test]
fn normalize_resolves_relative_forms() {
    assert_eq!(normalize_url("https://x.com/a/b", "../c"), "https://x.com/c");
    assert_eq!(normalize_url("https://x.com/a", "/d"), "https://x.com/d");
    assert_eq!(normalize_url("https://x.com/a", "//y.com/z"), "https://y.com/z");
    // An unparseable base hands the href back unchanged.
    assert_eq!(normalize_url("not a url", "page"), "page");
}
