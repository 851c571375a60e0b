use vstd::prelude::*;
use vstd::string::*;

use crate::error::AliasError;
use crate::rule::{address_of, is_routed, routes_address, ForwardingRule};

verus! {

/// The longest local-part an address may carry.
pub const MAX_LOCAL_LEN: usize = 64;

/// How many generated candidates are tried before giving up.
pub const MAX_CANDIDATES: usize = 10;

/// The length of every generated local-part.
pub const CANDIDATE_LEN: usize = 10;

/// What a caller asks the allocator for.
#[derive(Debug, Clone)]
pub struct AliasRequest {
    /// The local-part wanted; `None` asks for a generated one.
    pub desired_prefix: Option<String>,
    /// The root domain under which the alias is created.
    pub domain: String,
    /// The mailbox the alias forwards to.
    pub forward_to: String,
}

/// A local-part chosen for a new alias, with its full address.
#[derive(Debug, Clone)]
pub struct AllocatedAlias {
    pub local_part: String,
    pub full_address: String,
}

/// A character that may stand in the local-part of an address.
pub open spec fn is_local_char(c: char) -> bool {
    ('a' <= c && c <= 'z') || ('A' <= c && c <= 'Z') || ('0' <= c && c <= '9') || c == '.'
        || c == '!' || c == '#' || c == '$' || c == '%' || c == '&' || c == '\''
        || c == '*' || c == '+' || c == '-' || c == '/' || c == '=' || c == '?'
        || c == '^' || c == '_' || c == '`' || c == '{' || c == '|' || c == '}' || c == '~'
}

/// A well-formed local-part: non-empty, at most 64 characters, all of them allowed.
pub open spec fn valid_local_part(s: Seq<char>) -> bool {
    0 < s.len() <= MAX_LOCAL_LEN && forall|i: int| 0 <= i < s.len() ==> is_local_char(#[trigger] s[i])
}

/// The characters a generated local-part is made of, in digit order.
pub open spec fn alphabet() -> Seq<char> {
    seq![
        'a', 'b', 'c', 'd', 'e', 'f', 'g', 'h', 'i', 'j', 'k', 'l', 'm', 'n', 'o', 'p', 'q', 'r',
        's', 't', 'u', 'v', 'w', 'x', 'y', 'z', '0', '1', '2', '3', '4', '5', '6', '7', '8', '9'
    ]
}

/// The first `n` base-36 digits of `seed`, least significant first, spelled over `alphabet()`.
pub open spec fn digits_of(seed: nat, n: nat) -> Seq<char>
    decreases n,
{
    if n == 0 {
        seq![]
    } else {
        seq![alphabet()[(seed % 36) as int]] + digits_of(seed / 36, (n - 1) as nat)
    }
}

/// The local-part generated from a random seed.
pub open spec fn candidate_of(seed: u64) -> Seq<char> {
    digits_of(seed as nat, CANDIDATE_LEN as nat)
}

/// Whether `c` may stand in a local-part.
pub fn is_local_char_exec(c: char) -> (r: bool)
    ensures
        r == is_local_char(c),
{
    ('a' <= c && c <= 'z') || ('A' <= c && c <= 'Z') || ('0' <= c && c <= '9') || c == '.'
        || c == '!' || c == '#' || c == '$' || c == '%' || c == '&' || c == '\''
        || c == '*' || c == '+' || c == '-' || c == '/' || c == '=' || c == '?'
        || c == '^' || c == '_' || c == '`' || c == '{' || c == '|' || c == '}' || c == '~'
}

/// Whether `s` is a well-formed local-part.
pub fn is_valid_local_part(s: &str) -> (r: bool)
    ensures
        r == valid_local_part(s@),
{
    let n = s.unicode_len();
    if n == 0 || n > MAX_LOCAL_LEN {
        return false;
    }
    let mut i: usize = 0;
    while i < n
        invariant
            n == s@.len(),
            i <= n,
            forall|j: int| 0 <= j < i ==> is_local_char(#[trigger] s@[j]),
        decreases n - i,
    {
        if !is_local_char_exec(s.get_char(i)) {
            return false;
        }
        i = i + 1;
    }
    true
}

/// Rejects a malformed requested local-part; a generated one needs no check.
pub fn check_request(request: &AliasRequest) -> (r: Result<(), AliasError>)
    ensures
        match request.desired_prefix {
            Some(p) => r == if valid_local_part(p@) {
                Ok::<(), AliasError>(())
            } else {
                Err(AliasError::InvalidAlias)
            },
            None => r == Ok::<(), AliasError>(()),
        },
{
    match &request.desired_prefix {
        Some(p) => if is_valid_local_part(p.as_str()) {
            Ok(())
        } else {
            Err(AliasError::InvalidAlias)
        },
        None => Ok(()),
    }
}

/// The address `local@domain`.
pub fn make_address(local: &str, domain: &str) -> (r: String)
    ensures
        r@ == address_of(local@, domain@),
{
    let mut s = String::from_str(local);
    proof {
        reveal_strlit("@");
    }
    s.append("@");
    s.append(domain);
    s
}

/// Every character of `alphabet()` may stand in a local-part.
proof fn lemma_alphabet_local()
    ensures
        alphabet().len() == 36,
        forall|d: int| 0 <= d < 36 ==> is_local_char(#[trigger] alphabet()[d]),
{
}

/// A generated local-part is well-formed and has the fixed length.
pub proof fn lemma_digits_valid(seed: nat, n: nat)
    ensures
        digits_of(seed, n).len() == n,
        forall|i: int| 0 <= i < n ==> is_local_char(#[trigger] digits_of(seed, n)[i]),
    decreases n,
{
    lemma_alphabet_local();
    if n > 0 {
        lemma_digits_valid(seed / 36, (n - 1) as nat);
        let head = seq![alphabet()[(seed % 36) as int]];
        let tail = digits_of(seed / 36, (n - 1) as nat);
        assert forall|i: int| 0 <= i < n implies is_local_char(#[trigger] digits_of(seed, n)[i]) by {
            if i > 0 {
                assert(digits_of(seed, n)[i] == tail[i - 1]);
            }
        }
    }
}

/// Every generated local-part is well-formed.
pub proof fn lemma_candidate_valid(seed: u64)
    ensures
        valid_local_part(candidate_of(seed)),
        candidate_of(seed).len() == CANDIDATE_LEN,
{
    lemma_digits_valid(seed as nat, CANDIDATE_LEN as nat);
}

/// The local-part generated from `seed`.
pub fn candidate_from_seed(seed: u64) -> (r: String)
    ensures
        r@ == candidate_of(seed),
{
    let letters = "abcdefghijklmnopqrstuvwxyz0123456789";
    proof {
        reveal_strlit("abcdefghijklmnopqrstuvwxyz0123456789");
        assert(letters@ =~= alphabet());
    }
    let mut out = String::new();
    let mut rest: u64 = seed;
    let mut i: usize = 0;
    while i < CANDIDATE_LEN
        invariant
            i <= CANDIDATE_LEN,
            letters@ == alphabet(),
            out@ + digits_of(rest as nat, (CANDIDATE_LEN - i) as nat) == candidate_of(seed),
        decreases CANDIDATE_LEN - i,
    {
        let d = (rest % 36) as usize;
        let piece = letters.substring_char(d, d + 1);
        proof {
            let n = (CANDIDATE_LEN - i) as nat;
            let tail = digits_of((rest / 36) as nat, (n - 1) as nat);
            assert(piece@ =~= seq![alphabet()[(rest % 36) as int]]);
            assert(digits_of(rest as nat, n) == piece@ + tail);
            assert(out@ + (piece@ + tail) =~= (out@ + piece@) + tail);
        }
        out.append(piece);
        rest = rest / 36;
        i = i + 1;
    }
    proof {
        assert(out@ =~= out@ + digits_of(rest as nat, 0));
    }
    out
}

/// `i` is the first seed, among the first `MAX_CANDIDATES`, whose candidate is free.
pub open spec fn first_free_seed(rules: Seq<ForwardingRule>, domain: Seq<char>, seeds: Seq<u64>, i: int) -> bool {
    0 <= i < seeds.len() && i < MAX_CANDIDATES
        && !is_routed(rules, address_of(candidate_of(seeds[i]), domain))
        && forall|j: int| 0 <= j < i ==> is_routed(rules, address_of(candidate_of(#[trigger] seeds[j]), domain))
}

/// Some seed among the first `MAX_CANDIDATES` gives a free candidate.
pub open spec fn some_seed_free(rules: Seq<ForwardingRule>, domain: Seq<char>, seeds: Seq<u64>) -> bool {
    exists|i: int| 0 <= i < seeds.len() && i < MAX_CANDIDATES
        && !is_routed(rules, address_of(candidate_of(#[trigger] seeds[i]), domain))
}

/// Allocates the explicitly requested local-part `prefix` under `domain`.
pub fn allocate_explicit(prefix: &str, domain: &str, rules: &Vec<ForwardingRule>) -> (r: Result<AllocatedAlias, AliasError>)
    ensures
        !valid_local_part(prefix@) ==> r == Err::<AllocatedAlias, AliasError>(AliasError::InvalidAlias),
        valid_local_part(prefix@) && is_routed(rules@, address_of(prefix@, domain@))
            ==> r == Err::<AllocatedAlias, AliasError>(AliasError::AliasTaken),
        valid_local_part(prefix@) && !is_routed(rules@, address_of(prefix@, domain@)) ==> r.is_ok(),
        r matches Ok(a) ==> a.local_part@ == prefix@ && a.full_address@ == address_of(prefix@, domain@),
{
    if !is_valid_local_part(prefix) {
        return Err(AliasError::InvalidAlias);
    }
    let full = make_address(prefix, domain);
    if routes_address(rules, &full) {
        return Err(AliasError::AliasTaken);
    }
    Ok(AllocatedAlias { local_part: String::from_str(prefix), full_address: full })
}

/// Allocates a generated local-part under `domain`, trying the candidates of
/// the first `MAX_CANDIDATES` seeds in order.
pub fn allocate_random(domain: &str, rules: &Vec<ForwardingRule>, seeds: &Vec<u64>) -> (r: Result<AllocatedAlias, AliasError>)
    ensures
        r.is_ok() == some_seed_free(rules@, domain@, seeds@),
        r matches Err(e) ==> e == AliasError::AllocationExhausted,
        r matches Ok(a) ==> exists|i: int| first_free_seed(rules@, domain@, seeds@, i)
            && a.local_part@ == candidate_of(#[trigger] seeds@[i])
            && a.full_address@ == address_of(a.local_part@, domain@),
        r matches Ok(a) ==> valid_local_part(a.local_part@) && !is_routed(rules@, a.full_address@),
{
    let mut i: usize = 0;
    while i < seeds.len() && i < MAX_CANDIDATES
        invariant
            i <= seeds.len(),
            i <= MAX_CANDIDATES,
            forall|j: int| 0 <= j < i ==> is_routed(rules@, address_of(candidate_of(#[trigger] seeds@[j]), domain@)),
        decreases seeds.len() - i,
    {
        let local = candidate_from_seed(seeds[i]);
        let full = make_address(local.as_str(), domain);
        if !routes_address(rules, &full) {
            proof {
                lemma_candidate_valid(seeds@[i as int]);
                assert(first_free_seed(rules@, domain@, seeds@, i as int));
            }
            return Ok(AllocatedAlias { local_part: local, full_address: full });
        }
        i = i + 1;
    }
    proof {
        assert forall|k: int| 0 <= k < seeds@.len() && k < MAX_CANDIDATES implies
            is_routed(rules@, address_of(candidate_of(#[trigger] seeds@[k]), domain@)) by {}
    }
    Err(AliasError::AllocationExhausted)
}

/// Allocates a local-part for `request` against the rule snapshot `rules`: the
/// requested one when given, else one generated from `seeds`.
pub fn allocate(request: &AliasRequest, rules: &Vec<ForwardingRule>, seeds: &Vec<u64>) -> (r: Result<AllocatedAlias, AliasError>)
    ensures
        match request.desired_prefix {
            Some(p) => {
                &&& !valid_local_part(p@) ==> r == Err::<AllocatedAlias, AliasError>(AliasError::InvalidAlias)
                &&& valid_local_part(p@) && is_routed(rules@, address_of(p@, request.domain@))
                    ==> r == Err::<AllocatedAlias, AliasError>(AliasError::AliasTaken)
                &&& valid_local_part(p@) && !is_routed(rules@, address_of(p@, request.domain@)) ==> r.is_ok()
                &&& r matches Ok(a) ==> a.local_part@ == p@
            },
            None => {
                &&& r.is_ok() == some_seed_free(rules@, request.domain@, seeds@)
                &&& r matches Err(e) ==> e == AliasError::AllocationExhausted
                &&& r matches Ok(a) ==> exists|i: int| first_free_seed(rules@, request.domain@, seeds@, i)
                    && a.local_part@ == candidate_of(#[trigger] seeds@[i])
            },
        },
        r matches Ok(a) ==> a.full_address@ == address_of(a.local_part@, request.domain@)
            && valid_local_part(a.local_part@) && !is_routed(rules@, a.full_address@),
{
    match &request.desired_prefix {
        Some(p) => allocate_explicit(p.as_str(), request.domain.as_str(), rules),
        None => allocate_random(request.domain.as_str(), rules, seeds),
    }
}

} // verus!
