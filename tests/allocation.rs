use cf_alias::alias::{
    allocate, allocate_explicit, allocate_random, candidate_from_seed, check_request, is_valid_local_part,
    make_address, AliasRequest,
};
use cf_alias::{AliasError, ForwardingRule};

fn rule(email: &str) -> ForwardingRule {
    ForwardingRule {
        id: format!("id-{}", email),
        email: email.to_string(),
        enabled: true,
        destination: "me@dest.com".to_string(),
    }
}

fn request(prefix: Option<&str>) -> AliasRequest {
    AliasRequest {
        desired_prefix: prefix.map(|p| p.to_string()),
        domain: "example.com".to_string(),
        forward_to: "me@dest.com".to_string(),
    }
}

#[test]
fn explicit_prefix_free_is_allocated() {
    let rules = vec![rule("abc@example.com"), rule("other@example.com")];
    let a = allocate(&request(Some("xyz")), &rules, &vec![]).unwrap();
    assert_eq!(a.local_part, "xyz");
    assert_eq!(a.full_address, "xyz@example.com");
}

#[test]
fn explicit_prefix_free_in_empty_rule_set() {
    let a = allocate_explicit("first.alias", "example.com", &vec![]).unwrap();
    assert_eq!(a.full_address, "first.alias@example.com");
}

#[test]
fn explicit_prefix_taken_is_refused() {
    let rules = vec![rule("other@example.com"), rule("abc@example.com")];
    let r = allocate(&request(Some("abc")), &rules, &vec![]);
    assert_eq!(r.unwrap_err(), AliasError::AliasTaken);
}

#[test]
fn same_prefix_under_other_domain_is_free() {
    let rules = vec![rule("abc@elsewhere.org")];
    let a = allocate(&request(Some("abc")), &rules, &vec![]).unwrap();
    assert_eq!(a.full_address, "abc@example.com");
}

#[test]
fn malformed_prefixes_are_invalid() {
    let rules = vec![rule("abc@example.com")];
    for p in ["a b", "a@b", "", "caf\u{e9}", "semi;colon"] {
        let r = allocate(&request(Some(p)), &rules, &vec![]);
        assert_eq!(r.unwrap_err(), AliasError::InvalidAlias, "prefix {:?}", p);
        assert_eq!(check_request(&request(Some(p))), Err(AliasError::InvalidAlias));
    }
}

#[test]
fn local_part_length_limit() {
    let longest = "a".repeat(64);
    let too_long = "a".repeat(65);
    assert!(is_valid_local_part(&longest));
    assert!(!is_valid_local_part(&too_long));
    assert!(is_valid_local_part("first.last+tag_1-x"));
}

#[test]
fn check_request_accepts_generated_and_valid() {
    assert_eq!(check_request(&request(None)), Ok(()));
    assert_eq!(check_request(&request(Some("ok.name"))), Ok(()));
}

#[test]
fn make_address_joins_with_at() {
    assert_eq!(make_address("xyz", "example.com"), "xyz@example.com");
}

#[test]
fn candidate_digits_exact() {
    assert_eq!(candidate_from_seed(0), "aaaaaaaaaa");
    assert_eq!(candidate_from_seed(1), "baaaaaaaaa");
    assert_eq!(candidate_from_seed(35), "9aaaaaaaaa");
    assert_eq!(candidate_from_seed(36), "abaaaaaaaa");
    let c = candidate_from_seed(u64::MAX);
    assert_eq!(c.len(), 10);
    assert!(is_valid_local_part(&c));
}

#[test]
fn random_allocation_skips_taken_candidates() {
    let rules = vec![rule("aaaaaaaaaa@example.com"), rule("baaaaaaaaa@example.com")];
    let a = allocate(&request(None), &rules, &vec![0, 1, 2, 3]).unwrap();
    assert_eq!(a.local_part, "caaaaaaaaa");
    assert_eq!(a.full_address, "caaaaaaaaa@example.com");
}

#[test]
fn random_allocation_never_returns_routed_local_part() {
    let rules: Vec<ForwardingRule> = (0..20u64)
        .map(|s| rule(&format!("{}@example.com", candidate_from_seed(s * 7))))
        .collect();
    for run in 0..50u64 {
        let seeds: Vec<u64> = (0..10u64).map(|k| (run * 13 + k * 7) % 200).collect();
        if let Ok(a) = allocate_random("example.com", &rules, &seeds) {
            assert!(rules.iter().all(|r| r.email != a.full_address));
            assert_eq!(a.full_address, format!("{}@example.com", a.local_part));
        }
    }
}

#[test]
fn random_allocation_exhausted() {
    let rules = vec![rule("aaaaaaaaaa@example.com")];
    let r = allocate_random("example.com", &rules, &vec![0; 10]);
    assert_eq!(r.unwrap_err(), AliasError::AllocationExhausted);
    let none = allocate_random("example.com", &rules, &vec![]);
    assert_eq!(none.unwrap_err(), AliasError::AllocationExhausted);
}

#[test]
fn random_allocation_tries_at_most_ten_candidates() {
    let rules = vec![rule("aaaaaaaaaa@example.com")];
    let mut seeds = vec![0u64; 10];
    seeds.push(1);
    let r = allocate_random("example.com", &rules, &seeds);
    assert_eq!(r.unwrap_err(), AliasError::AllocationExhausted);
}
