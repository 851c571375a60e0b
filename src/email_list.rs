use vstd::prelude::*;
use vstd::string::*;

use crate::rule::ForwardingRule;

verus! {

broadcast use vstd::seq_lib::to_multiset_insert;

/// `a` comes before or equals `b` in the lexicographic order of characters,
/// which is the order of `String`s.
pub open spec fn lex_le(a: Seq<char>, b: Seq<char>) -> bool
    decreases a.len(),
{
    if a.len() == 0 {
        true
    } else if b.len() == 0 {
        false
    } else if a[0] != b[0] {
        a[0] < b[0]
    } else {
        lex_le(a.drop_first(), b.drop_first())
    }
}

/// Each string comes before or equals every later one.
pub open spec fn is_sorted(s: Seq<String>) -> bool {
    forall|i: int, j: int| 0 <= i < j < s.len() ==> lex_le((#[trigger] s[i])@, (#[trigger] s[j])@)
}

/// The routed addresses of `rules`, in their order.
pub open spec fn emails_of(rules: Seq<ForwardingRule>) -> Seq<String> {
    rules.map_values(|r: ForwardingRule| r.email)
}

/// The lines of `lines`, each but the last followed by a newline.
pub open spec fn joined(lines: Seq<String>) -> Seq<char>
    decreases lines.len(),
{
    if lines.len() == 0 {
        seq![]
    } else if lines.len() == 1 {
        lines[0]@
    } else {
        joined(lines.drop_last()) + seq!['\n'] + lines.last()@
    }
}

/// Of two strings, one comes before the other.
proof fn lemma_lex_total(a: Seq<char>, b: Seq<char>)
    ensures
        lex_le(a, b) || lex_le(b, a),
    decreases a.len(),
{
    if a.len() > 0 && b.len() > 0 && a[0] == b[0] {
        lemma_lex_total(a.drop_first(), b.drop_first());
    }
}

/// The order of strings is transitive.
proof fn lemma_lex_trans(a: Seq<char>, b: Seq<char>, c: Seq<char>)
    requires
        lex_le(a, b),
        lex_le(b, c),
    ensures
        lex_le(a, c),
    decreases a.len(),
{
    if a.len() > 0 && b.len() > 0 && c.len() > 0 && a[0] == b[0] && b[0] == c[0] {
        lemma_lex_trans(a.drop_first(), b.drop_first(), c.drop_first());
    }
}

/// Whether `a` comes before or equals `b`.
pub fn lex_le_exec(a: &str, b: &str) -> (r: bool)
    ensures
        r == lex_le(a@, b@),
{
    let n = a.unicode_len();
    let m = b.unicode_len();
    let mut i: usize = 0;
    assert(a@.skip(0) =~= a@);
    assert(b@.skip(0) =~= b@);
    while i < n && i < m
        invariant
            n == a@.len(),
            m == b@.len(),
            i <= n,
            i <= m,
            lex_le(a@, b@) == lex_le(a@.skip(i as int), b@.skip(i as int)),
        decreases n - i,
    {
        let x = a.get_char(i);
        let y = b.get_char(i);
        assert(a@.skip(i as int)[0] == x);
        assert(b@.skip(i as int)[0] == y);
        if x != y {
            return x < y;
        }
        assert(a@.skip(i as int).drop_first() =~= a@.skip(i + 1));
        assert(b@.skip(i as int).drop_first() =~= b@.skip(i + 1));
        i = i + 1;
    }
    i == n
}

/// The routed addresses of `rules`, sorted.
pub fn sorted_emails(rules: &Vec<ForwardingRule>) -> (r: Vec<String>)
    ensures
        is_sorted(r@),
        r@.to_multiset() == emails_of(rules@).to_multiset(),
{
    let mut out: Vec<String> = Vec::new();
    let mut k: usize = 0;
    assert(out@ =~= emails_of(rules@.take(0)));
    while k < rules.len()
        invariant
            k <= rules.len(),
            is_sorted(out@),
            out@.to_multiset() == emails_of(rules@.take(k as int)).to_multiset(),
        decreases rules.len() - k,
    {
        let email = rules[k].email.clone();
        let mut p: usize = 0;
        while p < out.len() && lex_le_exec(out[p].as_str(), email.as_str())
            invariant
                p <= out.len(),
                forall|j: int| 0 <= j < p ==> lex_le((#[trigger] out@[j])@, email@),
            decreases out.len() - p,
        {
            p = p + 1;
        }
        let ghost before = out@;
        proof {
            if p < out.len() {
                lemma_lex_total(email@, out@[p as int]@);
            }
            assert forall|j: int| p <= j < before.len() implies lex_le(email@, (#[trigger] before[j])@) by {
                if j > p {
                    lemma_lex_trans(email@, before[p as int]@, before[j]@);
                }
            }
        }
        out.insert(p, email);
        proof {
            assert(out@ == before.insert(p as int, rules@[k as int].email));
            assert forall|i: int, j: int| 0 <= i < j < out@.len() implies lex_le(
                (#[trigger] out@[i])@,
                (#[trigger] out@[j])@,
            ) by {
                if j < p {
                } else if j == p {
                } else if i < p {
                    lemma_lex_trans(out@[i]@, email@, out@[j]@);
                } else if i == p {
                } else {
                    assert(out@[i] == before[i - 1] && out@[j] == before[j - 1]);
                }
            }
            assert(emails_of(rules@.take(k + 1)) =~= emails_of(rules@.take(k as int)).push(rules@[k as int].email));
            vstd::seq_lib::to_multiset_build(emails_of(rules@.take(k as int)), rules@[k as int].email);
        }
        k = k + 1;
    }
    proof {
        assert(rules@.take(k as int) =~= rules@);
    }
    out
}

/// The lines joined with newlines, as the listing is printed.
pub fn join_lines(lines: &Vec<String>) -> (r: String)
    ensures
        r@ == joined(lines@),
{
    let mut out = String::new();
    let mut i: usize = 0;
    while i < lines.len()
        invariant
            i <= lines.len(),
            out@ == joined(lines@.take(i as int)),
        decreases lines.len() - i,
    {
        proof {
            reveal_strlit("\n");
            assert(lines@.take(i + 1).drop_last() =~= lines@.take(i as int));
        }
        if i > 0 {
            out.append("\n");
        }
        out.append(lines[i].as_str());
        i = i + 1;
    }
    proof {
        assert(lines@.take(i as int) =~= lines@);
    }
    out
}

} // verus!
