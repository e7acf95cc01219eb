use adoc::crawler::DocPage;
use adoc::output::{format_as_markdown, format_as_text, OutputFormat};
use adoc::registry::VisitedRegistry;
use adoc::retry::RetryPolicy;
use adoc::text::clean_text;

#[test]
fn claim_twice_yields_true_then_false() {
    let mut registry = VisitedRegistry::new();
    let url = "https://developer.apple.com/documentation/swift".to_string();
    assert!(registry.try_claim(&url));
    assert!(!registry.try_claim(&url));
}

#[test]
fn exactly_one_of_many_claims_is_granted() {
    // Racing claimers serialize on a lock, so any race is some sequential
    // order of claims; in every order exactly one claim is granted.
    let mut registry = VisitedRegistry::new();
    let url = "https://developer.apple.com/documentation/swiftui".to_string();
    let mut granted: usize = 0;
    for _ in 0..16 {
        if registry.try_claim(&url) {
            granted += 1;
        }
    }
    assert_eq!(granted, 1);
}

#[test]
fn distinct_urls_claim_independently() {
    let mut registry = VisitedRegistry::new();
    let a = "https://developer.apple.com/a".to_string();
    let b = "https://developer.apple.com/b".to_string();
    assert!(registry.try_claim(&a));
    assert!(registry.try_claim(&b));
    assert!(!registry.try_claim(&a));
    assert!(!registry.try_claim(&b));
}

#[test]
fn clean_text_normalizes_whitespace() {
    assert_eq!(clean_text("  Hello   world  \n\n  Foo  "), "Hello world\nFoo");
}

#[test]
fn clean_text_edge_cases() {
    assert_eq!(clean_text(""), "");
    assert_eq!(clean_text("   \n \t \n  "), "");
    assert_eq!(clean_text("one"), "one");
    assert_eq!(clean_text("a\r\nb"), "a\nb");
    assert_eq!(clean_text("a\rb"), "a b");
}

#[test]
fn retry_succeeds_on_the_kth_attempt() {
    let policy = RetryPolicy::for_budget(30000);
    let (result, attempts) = policy.run_retry(&vec![false, false, true]);
    assert_eq!(result, Some(2));
    assert_eq!(attempts, 3);
}

#[test]
fn retry_succeeds_immediately() {
    let policy = RetryPolicy::for_budget(30000);
    let (result, attempts) = policy.run_retry(&vec![true, false]);
    assert_eq!(result, Some(0));
    assert_eq!(attempts, 1);
}

#[test]
fn retry_stops_once_the_budget_is_exhausted() {
    // The first failure's 500 ms delay already exceeds a 0 ms budget:
    // no attempt follows it, even though a later one would succeed.
    let policy = RetryPolicy::for_budget(0);
    let (result, attempts) = policy.run_retry(&vec![false, true]);
    assert_eq!(result, None);
    assert_eq!(attempts, 1);

    // Delays run 500, 750: the second failure's accumulated 1250 ms
    // exceeds a 1000 ms budget, so the third attempt never happens.
    let policy = RetryPolicy::for_budget(1000);
    let (result, attempts) = policy.run_retry(&vec![false, false, true]);
    assert_eq!(result, None);
    assert_eq!(attempts, 2);
}

#[test]
fn retry_fails_when_all_attempts_fail() {
    let policy = RetryPolicy::for_budget(30000);
    let (result, attempts) = policy.run_retry(&vec![false, false, false, false, false]);
    assert_eq!(result, None);
    assert_eq!(attempts, 5);
}

#[test]
fn output_format_names() {
    assert_eq!(OutputFormat::Json.name(), "json");
    assert_eq!(OutputFormat::PrettyJson.name(), "pretty");
    assert_eq!(OutputFormat::Txt.name(), "txt");
    assert_eq!(OutputFormat::Markdown.name(), "markdown");
}

#[test]
fn text_format_of_one_page() {
    let page = DocPage {
        title: "T".to_string(),
        content: "C".to_string(),
        url: "U".to_string(),
        related_links: vec![],
    };
    assert_eq!(format_as_text(&vec![page]), "标题: T\nURL: U\n内容:\nC\n\n---\n\n");
}

#[test]
fn text_format_of_empty_list_is_empty() {
    assert_eq!(format_as_text(&vec![]), "");
}

#[test]
fn markdown_format_of_one_page() {
    let page = DocPage {
        title: "T".to_string(),
        content: "Para one.\n\n  Para two.  ".to_string(),
        url: "U".to_string(),
        related_links: vec!["L".to_string()],
    };
    let expected = "# Apple 开发者文档\n\n\
                    *由 adoc 工具爬取的文档内容*\n\n\
                    ## 目录\n\n\
                    1. [T](#doc-1)\n\
                    \n---\n\n\
                    ## <a id=\"doc-1\">T</a>\n\n\
                    > 原始链接: [U](U)\n\n\
                    ### 内容\n\n\
                    Para one.\n\n\
                    Para two.\n\n\
                    ### 相关链接\n\n\
                    - [L](L)\n\
                    \n\
                    ---\n\n\
                    ## 关于\n\n\
                    本文档由 [adoc](https://github.com/king-open/adoc) 自动生成。\n";
    assert_eq!(format_as_markdown(&vec![page]), expected);
}

#[test]
fn markdown_numbers_pages_from_one() {
    let pages: Vec<DocPage> = (1..=10)
        .map(|i| DocPage {
            title: format!("Doc {}", i),
            content: "".to_string(),
            url: "U".to_string(),
            related_links: vec![],
        })
        .collect();
    let out = format_as_markdown(&pages);
    assert!(out.contains("10. [Doc 10](#doc-10)\n"));
    assert!(out.contains("## <a id=\"doc-10\">Doc 10</a>\n\n"));
}
