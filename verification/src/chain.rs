//! The chain of header filters: how a filter puts itself into it, and how it
//! hands a request on.
//!
//! `F` is whatever a filter is called through.

use vstd::prelude::*;

verus! {

/// Returned by a step that went well.
pub const NGX_OK: isize = 0;

/// Returned where a request cannot be handed on.
pub const NGX_ERROR: isize = -1;

/// What the installation of a filter leaves behind.
pub struct Installed<F> {
    /// The head that the filter has found, and calls next.
    pub next: Option<F>,
    /// The new head of the chain.
    pub top: Option<F>,
    /// What the installation reports.
    pub status: isize,
}

/// How a request leaves a filter.
pub enum Next<F> {
    /// Through this filter.
    Call(F),
    /// Not at all: this status is returned.
    Fail(isize),
}

/// `filter` in front of a chain whose head is `top`.
pub open spec fn in_front<F>(top: Option<F>, filter: F) -> Installed<F> {
    Installed { next: top, top: Some(filter), status: NGX_OK }
}

/// Where a request goes from a filter that has saved `next`.
pub open spec fn following<F>(next: Option<F>) -> Next<F> {
    match next {
        Some(filter) => Next::Call(filter),
        None => Next::Fail(NGX_ERROR),
    }
}

/// Installs a header filter: the current head is saved, and the filter put in
/// front of it.
pub fn postconfiguration<F>(top: Option<F>, filter: F) -> (r: Installed<F>)
    ensures
        r == in_front(top, filter),
        r.next == top,
        r.top == Some(filter),
        r.status == 0,
{
    let next = top;
    Installed { next, top: Some(filter), status: NGX_OK }
}

/// Hands a request to the next filter in the chain.
pub fn next_filter<F>(next: Option<F>) -> (r: Next<F>)
    ensures
        r == following(next),
        next is None ==> (r matches Next::Fail(status) && status == -1),
        next matches Some(filter) ==> r == Next::Call(filter),
{
    match next {
        Some(filter) => Next::Call(filter),
        None => Next::Fail(NGX_ERROR),
    }
}

/// A chain: its head, and what each filter in it has saved.
#[verifier::reject_recursive_types(F)]
pub struct Chain<F> {
    pub top: Option<F>,
    pub saved: Map<F, Option<F>>,
}

/// The chain once `filters` have installed themselves, the first of them first.
pub open spec fn chain_of<F>(filters: Seq<F>) -> Chain<F>
    decreases filters.len(),
{
    if filters.len() == 0 {
        Chain { top: None, saved: Map::empty() }
    } else {
        let before = chain_of(filters.drop_last());
        let installed = in_front(before.top, filters.last());
        Chain { top: installed.top, saved: before.saved.insert(filters.last(), installed.next) }
    }
}

/// The filters that a request passes from `next` on, as far as the first `steps`.
pub open spec fn passed<F>(saved: Map<F, Option<F>>, next: Option<F>, steps: nat) -> Seq<F>
    decreases steps,
{
    if steps == 0 {
        Seq::empty()
    } else {
        match following(next) {
            Next::Call(filter) => seq![filter] + passed(saved, saved[filter], (steps - 1) as nat),
            Next::Fail(_) => Seq::empty(),
        }
    }
}

/// The last of the first `k` filters, if there is one.
spec fn head_of<F>(filters: Seq<F>, k: int) -> Option<F> {
    if k == 0 {
        None
    } else {
        Some(filters[k - 1])
    }
}

/// Each filter has saved the one that was installed before it.
proof fn lemma_saved<F>(filters: Seq<F>)
    requires
        filters.no_duplicates(),
    ensures
        chain_of(filters).top == head_of(filters, filters.len() as int),
        forall|i: int|
            0 <= i < filters.len() ==> chain_of(filters).saved[#[trigger] filters[i]] == head_of(
                filters,
                i,
            ),
    decreases filters.len(),
{
    if filters.len() > 0 {
        let before = filters.drop_last();
        lemma_saved(before);
        assert forall|i: int| 0 <= i < filters.len() implies chain_of(
            filters,
        ).saved[#[trigger] filters[i]] == head_of(filters, i) by {
            if i < before.len() {
                assert(before[i] == filters[i]);
                assert(filters[i] != filters.last());
            }
        }
    }
}

/// From the filter installed `k`-th on, a request passes the first `k` of them
/// backwards.
proof fn lemma_passed<F>(filters: Seq<F>, saved: Map<F, Option<F>>, k: nat, steps: nat)
    requires
        k <= filters.len(),
        k <= steps,
        forall|i: int|
            0 <= i < filters.len() ==> saved[#[trigger] filters[i]] == head_of(filters, i),
    ensures
        passed(saved, head_of(filters, k as int), steps) == filters.take(k as int).reverse(),
    decreases k,
{
    if k > 0 {
        let earlier = (k - 1) as nat;
        lemma_passed(filters, saved, earlier, (steps - 1) as nat);
        assert(filters.take(k as int).reverse() =~= seq![filters[k - 1]] + filters.take(
            earlier as int,
        ).reverse());
    } else {
        assert(filters.take(0).reverse() =~= Seq::<F>::empty());
    }
}

/// The filter that was installed last runs first: a request passes the filters
/// in the reverse of the order in which they were installed, each once, and
/// there the chain ends.
pub proof fn law_last_installed_runs_first<F>(filters: Seq<F>, steps: nat)
    requires
        filters.no_duplicates(),
        steps >= filters.len(),
    ensures
        passed(chain_of(filters).saved, chain_of(filters).top, steps) == filters.reverse(),
{
    lemma_saved(filters);
    lemma_passed(filters, chain_of(filters).saved, filters.len(), steps);
    assert(filters.take(filters.len() as int) =~= filters);
}

} // verus!
