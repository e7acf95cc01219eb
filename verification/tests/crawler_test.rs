use adoc::crawler::{CrawlError, Crawler, CrawlerConfig, extract_page, search_url};

fn config() -> CrawlerConfig {
    CrawlerConfig { max_retries: 3, concurrency: 2, timeout_ms: 30000 }
}

#[test]
fn extract_full_page() {
    let html = "<html><body><h1>  Swift   Docs </h1>\
                <article> First  line \n\n Second line </article>\
                <a href=\"/documentation/uikit\">UIKit</a>\
                <a href=\"https://developer.apple.com/documentation/swiftui\">SwiftUI</a>\
                <a href=\"https://example.com/elsewhere\">Elsewhere</a>\
                <a name=\"no-href\">none</a></body></html>";
    let page = match extract_page(html, "https://developer.apple.com/documentation/swift") {
        Ok(p) => p,
        Err(_) => panic!("extraction failed"),
    };
    assert_eq!(page.title, "Swift Docs");
    assert_eq!(page.content, "First line\nSecond line");
    assert_eq!(page.url, "https://developer.apple.com/documentation/swift");
    assert_eq!(
        page.related_links,
        vec![
            "https://developer.apple.com/documentation/uikit".to_string(),
            "https://developer.apple.com/documentation/swiftui".to_string(),
        ]
    );
}

#[test]
fn extract_missing_title_and_content_degrade_to_empty() {
    let html = "<html><body><p>plain</p></body></html>";
    let page = match extract_page(html, "https://developer.apple.com/documentation/swift") {
        Ok(p) => p,
        Err(_) => panic!("extraction failed"),
    };
    assert_eq!(page.title, "");
    assert_eq!(page.content, "");
    assert!(page.related_links.is_empty());
}

#[test]
fn extract_rejects_invalid_source_url() {
    let html = "<html><body><h1>T</h1></body></html>";
    match extract_page(html, "not a url") {
        Ok(_) => panic!("expected an error"),
        Err(e) => assert_eq!(e, CrawlError::InvalidUrl),
    }
}

#[test]
fn foreign_host_never_in_related_links() {
    let html = "<html><body>\
                <a href=\"https://example.com/a\">a</a>\
                <a href=\"https://developer.apple.com.evil.example/b\">b</a>\
                <a href=\"https://developer.apple.com/c\">c</a></body></html>";
    let page = match extract_page(html, "https://developer.apple.com/") {
        Ok(p) => p,
        Err(_) => panic!("extraction failed"),
    };
    assert_eq!(page.related_links, vec!["https://developer.apple.com/c".to_string()]);
}

#[test]
fn nonrecursive_crawl_yields_seed_only_once() {
    let mut crawler = Crawler::new(config());
    let url = "https://developer.apple.com/documentation/swift".to_string();
    let html = "<html><body><h1>Swift</h1>\
                <a href=\"https://developer.apple.com/documentation/swiftui\">x</a></body></html>"
        .to_string();
    let no_links: Vec<Option<String>> = Vec::new();

    let first = crawler.crawl_url(&url, false, Some(&html), &no_links).unwrap();
    assert_eq!(first.len(), 1);
    assert_eq!(first[0].url, url);
    assert_eq!(first[0].title, "Swift");

    let second = crawler.crawl_url(&url, false, Some(&html), &no_links).unwrap();
    assert_eq!(second.len(), 0);
}

#[test]
fn seed_fetch_failure_is_fatal() {
    let mut crawler = Crawler::new(config());
    let url = "https://developer.apple.com/documentation/swift".to_string();
    let no_links: Vec<Option<String>> = Vec::new();
    match crawler.crawl_url(&url, false, None, &no_links) {
        Ok(_) => panic!("expected an error"),
        Err(e) => assert_eq!(e, CrawlError::FetchFailed),
    }
}

#[test]
fn recursive_crawl_seed_first_and_failures_tolerated() {
    let mut crawler = Crawler::new(config());
    let url = "https://developer.apple.com/documentation/swift".to_string();
    let seed_html = "<html><body><h1>Seed</h1>\
                     <a href=\"https://developer.apple.com/a\">a</a>\
                     <a href=\"https://developer.apple.com/b\">b</a>\
                     <a href=\"https://developer.apple.com/c\">c</a>\
                     <a href=\"https://example.com/external\">x</a></body></html>"
        .to_string();
    let page_a = "<html><body><h1>A</h1></body></html>".to_string();
    let page_c = "<html><body><h1>C</h1></body></html>".to_string();
    // The middle link's fetch fails; it contributes nothing.
    let link_htmls = vec![Some(page_a), None, Some(page_c)];

    let pages = crawler.crawl_url(&url, true, Some(&seed_html), &link_htmls).unwrap();
    assert_eq!(pages.len(), 3);
    assert_eq!(pages[0].url, url);
    assert_eq!(pages[0].title, "Seed");
    assert_eq!(pages[1].url, "https://developer.apple.com/a");
    assert_eq!(pages[1].title, "A");
    assert_eq!(pages[2].url, "https://developer.apple.com/c");
    assert_eq!(pages[2].title, "C");
    // The external link was filtered, so it was never a fetch candidate.
    assert_eq!(pages[0].related_links.len(), 3);
}

#[test]
fn recursive_crawl_deduplicates_links() {
    let mut crawler = Crawler::new(config());
    let url = "https://developer.apple.com/documentation/swift".to_string();
    let seed_html = "<html><body><h1>Seed</h1>\
                     <a href=\"https://developer.apple.com/a\">a</a>\
                     <a href=\"https://developer.apple.com/a\">again</a></body></html>"
        .to_string();
    let page_a = "<html><body><h1>A</h1></body></html>".to_string();
    let link_htmls = vec![Some(page_a.clone()), Some(page_a)];

    let pages = crawler.crawl_url(&url, true, Some(&seed_html), &link_htmls).unwrap();
    // The duplicated link is claimed once: seed plus one descendant.
    assert_eq!(pages.len(), 2);
    assert_eq!(pages[0].related_links.len(), 2);
    assert_eq!(pages[1].url, "https://developer.apple.com/a");
}

#[test]
fn recursive_crawl_skips_already_visited_links() {
    let mut crawler = Crawler::new(config());
    let first_url = "https://developer.apple.com/a".to_string();
    let first_html = "<html><body><h1>A</h1></body></html>".to_string();
    let no_links: Vec<Option<String>> = Vec::new();
    crawler.crawl_url(&first_url, false, Some(&first_html), &no_links).unwrap();

    let seed_url = "https://developer.apple.com/documentation/swift".to_string();
    let seed_html = "<html><body><h1>Seed</h1>\
                     <a href=\"https://developer.apple.com/a\">a</a>\
                     <a href=\"https://developer.apple.com/b\">b</a></body></html>"
        .to_string();
    let page_b = "<html><body><h1>B</h1></body></html>".to_string();
    // Only one link is still unclaimed, so only one fetch outcome is used.
    let link_htmls = vec![Some(page_b)];
    let pages = crawler.crawl_url(&seed_url, true, Some(&seed_html), &link_htmls).unwrap();
    assert_eq!(pages.len(), 2);
    assert_eq!(pages[1].url, "https://developer.apple.com/b");
    assert_eq!(pages[1].title, "B");
}

#[test]
fn search_url_percent_encodes_the_keyword() {
    assert_eq!(
        search_url("SwiftUI"),
        "https://developer.apple.com/search/index.php?q=SwiftUI"
    );
    assert_eq!(
        search_url("Swift UI"),
        "https://developer.apple.com/search/index.php?q=Swift%20UI"
    );
}

#[test]
fn search_and_crawl_crawls_the_search_url() {
    let mut crawler = Crawler::new(config());
    let html = "<html><body><h1>Results</h1></body></html>".to_string();
    let no_links: Vec<Option<String>> = Vec::new();
    let pages = crawler.search_and_crawl("SwiftUI", false, Some(&html), &no_links).unwrap();
    assert_eq!(pages.len(), 1);
    assert_eq!(pages[0].url, "https://developer.apple.com/search/index.php?q=SwiftUI");
    assert_eq!(pages[0].title, "Results");
}

#[test]
fn crawl_error_messages() {
    assert_eq!(CrawlError::FetchFailed.message(), "failed to fetch the seed page");
    assert_eq!(CrawlError::InvalidUrl.message(), "the seed URL is not a valid absolute URL");
}
