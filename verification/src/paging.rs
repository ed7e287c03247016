use vstd::prelude::*;
use crate::smartzone::{FilterContainer, QueryResults, QueryResultsView, Zone};
use vstd::arithmetic::div_mod::lemma_fundamental_div_mod;
use vstd::arithmetic::mul::lemma_mul_inequality;

verus! {

/// The caller-side pagination state for one zone and one entity type: the
/// filter container whose `page` advances between calls, the records
/// gathered so far in page order, and whether the controller has said that
/// no page remains.  The `hasMore` flag of the last page taken is the sole
/// termination signal.
pub struct Pagination<T> {
    pub filter: FilterContainer,
    pub items: Vec<T>,
    pub done: bool,
}

impl<T> Pagination<T> {
    /// Starts paging a zone: the zone's own filter, the first page, no
    /// records yet.
    pub fn start(zone: &Zone) -> (r: Pagination<T>)
        ensures
            r.filter@.or.len() == 1,
            r.filter@.or[0].ttype == "ZONE"@,
            r.filter@.or[0].value == zone@.id,
            r.filter@.or[0].operator == "eq"@,
            r.filter@.page == 1,
            r.filter@.limit == 30,
            r.items@ == Seq::<T>::empty(),
            !r.done,
    {
        let r = Pagination { filter: zone.to_filter_container(), items: Vec::new(), done: false };
        proof {
            assert(r.items@ =~= Seq::<T>::empty());
        }
        r
    }

    /// Takes one page in: appends its records to the accumulator in page
    /// order, advances the cursor to the next page, and is done exactly
    /// when the page reported no more.
    pub fn absorb(&mut self, page: QueryResults<T>)
        requires
            old(self).filter.page < usize::MAX,
        ensures
            final(self).items@ == old(self).items@ + page.list@,
            final(self).filter.page == old(self).filter.page + 1,
            final(self).filter.limit == old(self).filter.limit,
            final(self).filter.or == old(self).filter.or,
            final(self).done == !page.has_more,
    {
        self.done = !page.has_more;
        self.filter.page = self.filter.page + 1;
        let mut list = page.list;
        self.items.append(&mut list);
    }
}

/// The number of records listed over a run of pages.
pub open spec fn spec_total_listed<TV>(pages: Seq<QueryResultsView<TV>>) -> int
    decreases pages.len(),
{
    if pages.len() == 0 {
        0
    } else {
        pages[0].list.len() + spec_total_listed(pages.drop_first())
    }
}

/// A run of pages as a correctly behaving controller ends it: every page
/// before the last is full and says more remain, the last alone says no
/// more remain, and no more records are delivered in all than the reported
/// total.
pub open spec fn spec_pages_wf<TV>(
    pages: Seq<QueryResultsView<TV>>,
    total: int,
    limit: int,
) -> bool {
    &&& limit > 0
    &&& pages.len() > 0
    &&& forall|i: int|
        0 <= i < pages.len() - 1 ==> (#[trigger] pages[i]).has_more && pages[i].list.len() == limit
    &&& !pages.last().has_more
    &&& spec_total_listed(pages) <= total
}

proof fn lemma_total_listed_nonneg<TV>(pages: Seq<QueryResultsView<TV>>)
    ensures
        spec_total_listed(pages) >= 0,
    decreases pages.len(),
{
    if pages.len() > 0 {
        lemma_total_listed_nonneg(pages.drop_first());
    }
}

proof fn lemma_total_listed_lower<TV>(pages: Seq<QueryResultsView<TV>>, limit: int)
    requires
        limit >= 0,
        forall|i: int| 0 <= i < pages.len() - 1 ==> (#[trigger] pages[i]).list.len() == limit,
    ensures
        spec_total_listed(pages) >= (pages.len() - 1) * limit,
    decreases pages.len(),
{
    if pages.len() == 0 {
        assert(spec_total_listed(pages) == 0);
        assert((pages.len() - 1) * limit == -1 * limit) by (nonlinear_arith)
            requires
                pages.len() == 0,
        ;
        assert(-1 * limit <= 0) by (nonlinear_arith)
            requires
                limit >= 0,
        ;
    } else if pages.len() == 1 {
        assert((pages.len() - 1) * limit == 0) by (nonlinear_arith)
            requires
                pages.len() == 1,
        ;
        assert(spec_total_listed(pages) >= 0) by {
            lemma_total_listed_nonneg(pages);
        }
    } else {
        let rest = pages.drop_first();
        assert forall|i: int| 0 <= i < rest.len() - 1 implies (#[trigger] rest[i]).list.len()
            == limit by {
            assert(rest[i] == pages[i + 1]);
        }
        lemma_total_listed_lower(rest, limit);
        assert(pages[0].list.len() == limit);
        assert((pages.len() - 1) * limit == limit + (rest.len() - 1) * limit) by (nonlinear_arith)
            requires
                rest.len() == pages.len() - 1,
                pages.len() >= 2,
        ;
    }
}

/// Against a correctly behaving controller, pagination over one zone ends
/// after at most `total / limit + 1` pages, and the records gathered over
/// the whole run number at most the reported total.
pub proof fn lemma_pagination_bound<TV>(
    pages: Seq<QueryResultsView<TV>>,
    total: int,
    limit: int,
)
    requires
        spec_pages_wf(pages, total, limit),
    ensures
        pages.len() <= total / limit + 1,
        spec_total_listed(pages) <= total,
{
    lemma_total_listed_lower(pages, limit);
    let n = pages.len() - 1;
    assert(n * limit <= total);
    if n > total / limit {
        lemma_fundamental_div_mod(total, limit);
        lemma_mul_inequality(total / limit + 1, n, limit);
        assert((total / limit + 1) * limit == limit * (total / limit) + limit) by (nonlinear_arith);
        assert(false);
    }
}

} // verus!
