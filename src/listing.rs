use vstd::prelude::*;

use crate::rule::ForwardingRule;

verus! {

/// One page of the provider's rule listing.
#[derive(Debug, Clone)]
pub struct Page {
    /// The rules of this page, in the provider's order.
    pub rules: Vec<ForwardingRule>,
    /// The number of pages the provider reports, when it reports one.
    pub total_pages: Option<u64>,
    /// The number of rules in the whole listing, when the provider reports it.
    pub total_count: Option<u64>,
}

/// The pages in order, joined into one sequence.
pub open spec fn flatten(pages: Seq<Seq<ForwardingRule>>) -> Seq<ForwardingRule>
    decreases pages.len(),
{
    if pages.len() == 0 {
        seq![]
    } else {
        flatten(pages.drop_last()) + pages.last()
    }
}

/// The sum of the page sizes.
pub open spec fn total_len(pages: Seq<Seq<ForwardingRule>>) -> nat
    decreases pages.len(),
{
    if pages.len() == 0 {
        0
    } else {
        total_len(pages.drop_last()) + pages.last().len()
    }
}

/// Whether the page fetched as number `number`, holding `rules_len` rules and
/// bringing the rules received to `received`, is the last one: it is empty, or
/// it reaches the reported page count or rule count.
pub open spec fn is_last_page(number: u64, rules_len: nat, received: nat, page: Page) -> bool {
    ||| rules_len == 0
    ||| (page.total_pages matches Some(t) && number >= t)
    ||| (page.total_count matches Some(c) && received >= c)
}

/// A listing in progress: the pages received so far, joined, and the next page to request.
pub struct RuleListing {
    /// The rules of all pages received, in order.
    pub collected: Vec<ForwardingRule>,
    /// The 1-based number of the page to request next.
    pub next_page: u64,
    /// Whether the provider has signalled that no page follows.
    pub finished: bool,
    /// The pages received, one sequence per page.
    pub pages: Ghost<Seq<Seq<ForwardingRule>>>,
}

impl RuleListing {
    /// The collected rules are exactly the received pages joined, and the next
    /// page number follows the pages received.
    pub open spec fn wf(&self) -> bool {
        &&& self.collected@ == flatten(self.pages@)
        &&& self.next_page == self.pages@.len() + 1
    }

    /// A listing that has received nothing and asks for the first page.
    pub fn new() -> (r: RuleListing)
        ensures
            r.wf(),
            r.pages@ == Seq::<Seq<ForwardingRule>>::empty(),
            r.collected@ == Seq::<ForwardingRule>::empty(),
            r.next_page == 1,
            !r.finished,
    {
        RuleListing { collected: Vec::new(), next_page: 1, finished: false, pages: Ghost(Seq::empty()) }
    }

    /// Takes in the page numbered `self.next_page`; returns whether another page must be requested.
    pub fn accept_page(&mut self, page: Page) -> (more: bool)
        requires
            old(self).wf(),
            !old(self).finished,
            old(self).next_page < u64::MAX,
        ensures
            final(self).wf(),
            final(self).pages@ == old(self).pages@.push(page.rules@),
            final(self).collected@ == old(self).collected@ + page.rules@,
            final(self).next_page == old(self).next_page + 1,
            final(self).finished == is_last_page(
                old(self).next_page,
                page.rules@.len(),
                final(self).collected@.len(),
                page,
            ),
            more == !final(self).finished,
    {
        let ghost whole = page;
        let empty = page.rules.len() == 0;
        let pages_reached = match page.total_pages {
            Some(t) => self.next_page >= t,
            None => false,
        };
        let count = page.total_count;
        let ghost before = self.collected@;
        let ghost received = page.rules@;
        let mut rules = page.rules;
        self.collected.append(&mut rules);
        self.pages = Ghost(self.pages@.push(received));
        proof {
            assert(self.pages@.drop_last() =~= old(self).pages@);
            assert(self.collected@ =~= before + received);
        }
        let count_reached = match count {
            Some(c) => self.collected.len() as u64 >= c,
            None => false,
        };
        let last = empty || pages_reached || count_reached;
        proof {
            assert(last == is_last_page(old(self).next_page, whole.rules@.len(), self.collected@.len(), whole));
        }
        self.next_page = self.next_page + 1;
        self.finished = last;
        !last
    }

    /// The complete listing, or `None` while pages remain: partial results are never handed out.
    pub fn finish(self) -> (r: Option<Vec<ForwardingRule>>)
        requires
            self.wf(),
        ensures
            r is Some == self.finished,
            r matches Some(v) ==> v@ == flatten(self.pages@),
    {
        if self.finished {
            Some(self.collected)
        } else {
            None
        }
    }
}

/// Joining pages keeps every rule, in page order: the joined sequence is as
/// long as all pages together, and the `j`-th rule of page `i` stands after
/// the rules of the pages before it.
pub proof fn lemma_flatten_concatenates(pages: Seq<Seq<ForwardingRule>>)
    ensures
        flatten(pages).len() == total_len(pages),
        forall|i: int, j: int| 0 <= i < pages.len() && 0 <= j < pages[i].len()
            ==> flatten(pages)[total_len(pages.take(i)) + j] == #[trigger] pages[i][j],
    decreases pages.len(),
{
    if pages.len() > 0 {
        let init = pages.drop_last();
        lemma_flatten_concatenates(init);
        assert forall|i: int, j: int| 0 <= i < pages.len() && 0 <= j < pages[i].len()
            implies flatten(pages)[total_len(pages.take(i)) + j] == #[trigger] pages[i][j] by {
            if i < pages.len() - 1 {
                assert(pages.take(i) =~= init.take(i));
                assert(init[i] == pages[i]);
                lemma_prefix_len_bound(init, i);
            } else {
                assert(pages.take(i) =~= init);
            }
        }
    }
}

/// The pages before page `i` hold no more rules than all pages but the last page.
proof fn lemma_prefix_len_bound(pages: Seq<Seq<ForwardingRule>>, i: int)
    requires
        0 <= i < pages.len(),
    ensures
        total_len(pages.take(i)) + pages[i].len() <= total_len(pages),
    decreases pages.len(),
{
    let init = pages.drop_last();
    if i < pages.len() - 1 {
        assert(pages.take(i) =~= init.take(i));
        lemma_prefix_len_bound(init, i);
    } else {
        assert(pages.take(i) =~= init);
    }
}

} // verus!
