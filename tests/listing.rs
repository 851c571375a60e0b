use cf_alias::listing::{Page, RuleListing};
use cf_alias::ForwardingRule;

fn rule(n: usize) -> ForwardingRule {
    ForwardingRule {
        id: format!("id{}", n),
        email: format!("alias{}@example.com", n),
        enabled: true,
        destination: "me@dest.com".to_string(),
    }
}

fn page(start: usize, size: usize, total_pages: Option<u64>) -> Page {
    Page { rules: (start..start + size).map(rule).collect(), total_pages, total_count: None }
}

fn emails(v: &[ForwardingRule]) -> Vec<String> {
    v.iter().map(|r| r.email.clone()).collect()
}

#[test]
fn listing_of_no_rules() {
    let mut l = RuleListing::new();
    assert_eq!(l.next_page, 1);
    assert!(!l.accept_page(page(0, 0, Some(0))));
    assert!(l.finish().unwrap().is_empty());
}

#[test]
fn listing_of_one_page() {
    let mut l = RuleListing::new();
    assert!(!l.accept_page(page(0, 3, Some(1))));
    let all = l.finish().unwrap();
    assert_eq!(emails(&all), vec!["alias0@example.com", "alias1@example.com", "alias2@example.com"]);
}

#[test]
fn listing_of_five_pages_keeps_order() {
    let sizes = [4usize, 2, 5, 1, 3];
    let mut l = RuleListing::new();
    let mut start = 0;
    for (i, size) in sizes.iter().enumerate() {
        assert_eq!(l.next_page, i as u64 + 1);
        let more = l.accept_page(page(start, *size, Some(5)));
        assert_eq!(more, i < 4);
        start += size;
    }
    let all = l.finish().unwrap();
    assert_eq!(all.len(), 15);
    let expected: Vec<String> = (0..15).map(|n| format!("alias{}@example.com", n)).collect();
    assert_eq!(emails(&all), expected);
}

#[test]
fn listing_without_total_stops_at_empty_page() {
    let mut l = RuleListing::new();
    assert!(l.accept_page(page(0, 2, None)));
    assert!(l.accept_page(page(2, 2, None)));
    assert!(!l.accept_page(page(4, 0, None)));
    assert_eq!(l.finish().unwrap().len(), 4);
}

#[test]
fn unfinished_listing_gives_nothing() {
    let mut l = RuleListing::new();
    assert!(l.accept_page(page(0, 2, Some(3))));
    assert!(l.finish().is_none());
}

#[test]
fn listing_stops_at_reported_rule_count() {
    let mut l = RuleListing::new();
    let mut first = page(0, 3, None);
    first.total_count = Some(5);
    assert!(l.accept_page(first));
    let mut second = page(3, 2, None);
    second.total_count = Some(5);
    assert!(!l.accept_page(second));
    assert_eq!(emails(&l.finish().unwrap()).len(), 5);
}
