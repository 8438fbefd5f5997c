use rust_scrapper::domain::extract_domain;
use rust_scrapper::extract::{extract_images, parse_google_html};
use rust_scrapper::normalize::clean_url;
use rust_scrapper::report::{assemble_report, run_id_from_nanos, SearchStatus, UserAgentPool};
use rust_scrapper::validate::is_valid_image_url;

#[test]
fn single_match_yields_one_result() {
    let html = r#"<html>["https://example.com/photo.jpg",300,200]</html>"#;
    let results = parse_google_html(html);
    assert_eq!(results.len(), 1);
    assert_eq!(results[0].url, "https://example.com/photo.jpg");
    assert_eq!(results[0].source_site, "example.com");
}

#[test]
fn repeated_literal_is_deduplicated() {
    let html = r#"["https://example.com/photo.jpg",300,200] and again ["https://example.com/photo.jpg",300,200]"#;
    let results = parse_google_html(html);
    assert_eq!(results.len(), 1);
    assert_eq!(results[0].url, "https://example.com/photo.jpg");
}

#[test]
fn blocklisted_url_yields_no_result() {
    let html = r#"["https://encrypted-tbn0.gstatic.com/images/photo.jpg",300,200]"#;
    let results = parse_google_html(html);
    assert_eq!(results.len(), 0);
}

#[test]
fn escaped_sequences_normalize_and_validate() {
    let cleaned = clean_url("https:\\/\\/site.com\\/img.png\\u003Fx\\u003d1");
    assert_eq!(cleaned, "https://site.com/img.png?x=1");
    assert!(is_valid_image_url(&cleaned));
}

#[test]
fn truncation_keeps_earliest_in_order() {
    let html = r#"["https://site.com/a.jpg",1,1]["https://site.com/b.jpg",2,2]["https://site.com/c.jpg",3,3]["https://site.com/d.jpg",4,4]["https://site.com/e.jpg",5,5]"#;
    let (results, raw_found) = extract_images(html, 2);
    assert_eq!(raw_found, 5);
    assert_eq!(results.len(), 2);
    assert_eq!(results[0].url, "https://site.com/a.jpg");
    assert_eq!(results[1].url, "https://site.com/b.jpg");
}

#[test]
fn empty_document_yields_empty_results() {
    let (results, raw_found) = extract_images("", 10);
    assert_eq!(results.len(), 0);
    assert_eq!(raw_found, 0);
}

#[test]
fn max_images_zero_yields_empty_results() {
    let html = r#"["https://example.com/photo.jpg",300,200]"#;
    let (results, raw_found) = extract_images(html, 0);
    assert_eq!(results.len(), 0);
    assert_eq!(raw_found, 1);
}

#[test]
fn document_order_is_preserved() {
    let html = r#"["https://b.com/x.png",1,1] filler ["https://a.com/y.png",2,2]"#;
    let results = parse_google_html(html);
    assert_eq!(results.len(), 2);
    assert_eq!(results[0].url, "https://b.com/x.png");
    assert_eq!(results[1].url, "https://a.com/y.png");
}

#[test]
fn malformed_literals_are_skipped() {
    // missing second integer, empty integer, and an unclosed quote
    let html = r#"["https://a.com/x.jpg",300] ["https://b.com/y.jpg",,200] ["https://c.com/z.jpg"#;
    let results = parse_google_html(html);
    assert_eq!(results.len(), 0);
}

#[test]
fn match_is_found_behind_a_stray_bracket() {
    let html = r#"[["https://a.com/x.jpg",1,2]"#;
    let results = parse_google_html(html);
    assert_eq!(results.len(), 1);
    assert_eq!(results[0].url, "https://a.com/x.jpg");
}

#[test]
fn failed_candidate_does_not_hide_a_later_match() {
    let html = r#"["https://a.com/x.txt",1,1]["https://a.com/y.jpg",2,2]"#;
    let results = parse_google_html(html);
    assert_eq!(results.len(), 1);
    assert_eq!(results[0].url, "https://a.com/y.jpg");
}

#[test]
fn query_string_after_extension_is_kept() {
    let html = r#"["https://example.com/pic.webp?w=640&h=480",640,480]"#;
    let results = parse_google_html(html);
    assert_eq!(results.len(), 1);
    assert_eq!(results[0].url, "https://example.com/pic.webp?w=640&h=480");
}

#[test]
fn escaped_ampersand_inside_match_is_decoded() {
    let html = r#"["https://example.com/pic.jpg?a=1&amp;b=2",10,10]"#;
    let results = parse_google_html(html);
    assert_eq!(results.len(), 1);
    assert_eq!(results[0].url, "https://example.com/pic.jpg?a=1&b=2");
}

#[test]
fn normalization_is_idempotent_on_cleaned_urls() {
    let raw = "  https:\\/\\/www.site.com\\/a\\u003Fb\\u003dc.jpg  ";
    let once = clean_url(raw);
    let twice = clean_url(&once);
    assert_eq!(once, twice);
}

#[test]
fn validator_accepts_plain_image_urls() {
    assert!(is_valid_image_url("https://example.com/a.jpg"));
    assert!(is_valid_image_url("http://example.com/b.jpeg?x=1"));
    assert!(is_valid_image_url("HTTPS://EXAMPLE.COM/C.PNG"));
}

#[test]
fn validator_rejects_blocklisted_whatever_the_extension() {
    assert!(!is_valid_image_url("https://example.com/logo.jpg"));
    assert!(!is_valid_image_url("https://encrypted-tbn0.example.com/a.png"));
    assert!(!is_valid_image_url("https://x.gstatic.com/a.gif"));
    assert!(!is_valid_image_url("https://example.com/icon.webp"));
    assert!(!is_valid_image_url("https://example.com/a.jpg?data=base64"));
    assert!(!is_valid_image_url("https://example.com/LOGO.jpg"));
}

#[test]
fn validator_rejects_without_scheme_or_extension() {
    assert!(!is_valid_image_url("ftp://example.com/a.jpg"));
    assert!(!is_valid_image_url("https://example.com/a.txt"));
    assert!(!is_valid_image_url(""));
}

#[test]
fn domain_of_parsable_url_strips_www() {
    assert_eq!(extract_domain("https://www.example.com/a.jpg"), "example.com");
    assert_eq!(extract_domain("https://example.com/a.jpg"), "example.com");
    // the removal is a global substring replace, not only a prefix strip
    assert_eq!(extract_domain("https://www.pics.www.example.com/a.jpg"), "pics.example.com");
}

#[test]
fn domain_of_unparsable_url_is_unknown() {
    assert_eq!(extract_domain("not a url"), "unknown");
    assert_eq!(extract_domain(""), "unknown");
}

#[test]
fn run_id_renders_nanoseconds_in_hexadecimal() {
    assert_eq!(run_id_from_nanos(Some(255)), "ff");
    assert_eq!(run_id_from_nanos(Some(0)), "0");
    assert_eq!(run_id_from_nanos(Some(0x1a2b3c)), "1a2b3c");
    assert_eq!(run_id_from_nanos(None), "0");
    // negative values render as their 64-bit two's-complement pattern
    assert_eq!(run_id_from_nanos(Some(-1)), "ffffffffffffffff");
}

#[test]
fn assembled_report_carries_fixed_parameters_and_counts() {
    let html = r#"["https://example.com/photo.jpg",300,200]"#;
    let (results, raw_found) = extract_images(html, 10);
    let report = assemble_report(
        "cute cats",
        "https://www.google.com/search?q=cute%20cats&tbm=isch&hl=en&safe=off",
        results,
        raw_found,
        Some(1_000),
        Some(2_000),
        42,
        7,
    );
    assert!(matches!(report.metadata.status, SearchStatus::Success));
    assert_eq!(report.metadata.run_id, "7d0");
    assert_eq!(
        report.metadata.request_url,
        "https://www.google.com/search?q=cute%20cats&tbm=isch&hl=en&safe=off"
    );
    assert_eq!(report.metadata.created_at_nanos, Some(1_000));
    assert_eq!(report.metadata.completed_at_nanos, Some(2_000));
    assert_eq!(report.metadata.elapsed_nanos, 42);
    assert_eq!(report.parameters.engine, "Google");
    assert_eq!(report.parameters.query, "cute cats");
    assert_eq!(report.parameters.locale, "en");
    assert_eq!(report.parameters.safe_mode, "off");
    assert_eq!(report.stats.raw_found, 1);
    assert_eq!(report.stats.after_filter, 1);
    assert_eq!(report.stats.parse_nanos, 7);
    assert_eq!(report.results.len(), 1);
    assert_eq!(report.results[0].url, "https://example.com/photo.jpg");
}

#[test]
fn user_agent_pool_serves_a_pool_entry() {
    let pool = UserAgentPool::new();
    assert_eq!(pool.agents.len(), 3);
    for _ in 0..20 {
        let ua = pool.get_random_user_agent();
        assert!(pool.agents.contains(ua));
        assert!(ua.starts_with("Mozilla/5.0"));
    }
}
