//! Lists of observations: which ones a query asks for, in which order, and on which page.
use crate::observation;
use crate::observation::{Observation, ObservationStatus, ObservationView, TenantId};
use crate::select;
use crate::sorting;
use crate::table;
use crate::text;
use vstd::prelude::*;

verus! {

/// The number of observations on a page where none is asked for.
pub const DEFAULT_PAGE_SIZE: usize = 100;

/// The largest number of observations on a page.
pub const MAX_PAGE_SIZE: usize = 1_000;

/// Which observations of a tenant are asked for.
#[derive(Debug, Clone, PartialEq, Eq)]
pub struct TenantQuery {
    pub tenant_id: u128,
    pub name: Option<String>,
    pub status: Option<String>,
    pub page: Option<usize>,
    pub page_size: Option<usize>,
}

impl TenantQuery {
    /// The observation is of the tenant, has the name asked for, and the status asked for. A status
    /// other than `ok` and `error` fits no observation.
    pub open spec fn fits(&self, item: ObservationView) -> bool {
        &&& item.tenant_id == TenantId(self.tenant_id)
        &&& self.name matches Some(name) ==> item.name == name@
        &&& self.status matches Some(status) ==> match item.status {
            ObservationStatus::Okay => status@ == "ok"@,
            ObservationStatus::Error => status@ == "error"@,
        }
    }

    /// The number of the page, from one on.
    pub open spec fn page_number(&self) -> int {
        match self.page {
            Some(page) => if page < 1 {
                1
            } else {
                page as int
            },
            None => 1,
        }
    }

    /// The number of observations on a page.
    pub open spec fn size(&self) -> int {
        match self.page_size {
            Some(size) => if size < 1 {
                1
            } else if size > MAX_PAGE_SIZE {
                MAX_PAGE_SIZE as int
            } else {
                size as int
            },
            None => DEFAULT_PAGE_SIZE as int,
        }
    }

    /// The observations that fit, from the first started to the last started.
    pub open spec fn matching(&self, items: Seq<ObservationView>) -> Seq<ObservationView> {
        table::by_start(items.filter(|item: ObservationView| self.fits(item)))
    }

    /// The page of the observations that fit.
    pub open spec fn answer(&self, items: Seq<ObservationView>) -> Seq<ObservationView> {
        page_of(self.matching(items), (self.page_number() - 1) * self.size(), self.size())
    }

    /// Whether the observation fits.
    fn is_fit(&self, item: &Observation) -> (r: bool)
        ensures
            r == self.fits(item@),
    {
        let name_fits: bool = match &self.name {
            Some(name) => text::same(item.name.as_str(), name.as_str()),
            None => true,
        };
        let status_fits: bool = match &self.status {
            Some(status) => match item.status {
                ObservationStatus::Okay => text::same(status.as_str(), "ok"),
                ObservationStatus::Error => text::same(status.as_str(), "error"),
            },
            None => true,
        };
        item.tenant_id == TenantId(self.tenant_id) && name_fits && status_fits
    }
}

/// At most `size` elements from position `start` on; none where that is behind the end.
pub open spec fn page_of<A>(all: Seq<A>, start: int, size: int) -> Seq<A> {
    if start >= all.len() {
        Seq::empty()
    } else if start + size >= all.len() {
        all.skip(start)
    } else {
        all.subrange(start, start + size)
    }
}

/// The product, or the largest number where it is larger.
fn capped_product(a: usize, b: usize) -> (r: usize)
    ensures
        r == if a * b <= usize::MAX {
            a * b
        } else {
            usize::MAX as int
        },
{
    match a.checked_mul(b) {
        Some(product) => product,
        None => usize::MAX,
    }
}

/// The observations that fit the query, from the first started to the last started, of the page
/// that it asks for.
pub fn filter_observations(items: Vec<Observation>, query: &TenantQuery) -> (r: Vec<Observation>)
    ensures
        observation::observation_views(r@) == query.answer(observation::observation_views(items@)),
{
    let ghost all = items@;
    let ghost views = observation::observation_views(all);
    let ghost keep = |item: ObservationView| query.fits(item);
    proof {
        select::lemma_filter_none(views, keep);
    }
    let mut kept: Vec<Observation> = Vec::new();
    assert(observation::observation_views(kept@) =~= views.take(0).filter(keep));
    for item in it: items
        invariant
            it.seq() == all,
            views == observation::observation_views(all),
            keep == (|item: ObservationView| query.fits(item)),
            observation::observation_views(kept@) == views.take(it.index()).filter(keep),
    {
        proof {
            select::lemma_filter_step(views, it.index(), keep);
            assert(views[it.index()] == item@);
        }
        if query.is_fit(&item) {
            let ghost held = kept@;
            kept.push(item);
            assert(observation::observation_views(kept@) =~= observation::observation_views(
                held,
            ).push(item@));
        }
    }
    assert(views.take(views.len() as int) =~= views);
    proof {
        table::lemma_sorted_views(kept@);
    }
    let sorted: Vec<Observation> = sorting::sort_by_time(kept);
    let ghost matching = query.matching(views);
    assert(observation::observation_views(sorted@) == matching);
    let page: usize = match query.page {
        Some(page) => if page < 1 {
            1
        } else {
            page
        },
        None => 1,
    };
    let size: usize = match query.page_size {
        Some(size) => if size < 1 {
            1
        } else if size > MAX_PAGE_SIZE {
            MAX_PAGE_SIZE
        } else {
            size
        },
        None => DEFAULT_PAGE_SIZE,
    };
    let start: usize = capped_product(page - 1, size);
    take_page(sorted, start, size, Ghost((page - 1) * size))
}

/// The elements of a page; `start` may be capped.
fn take_page(items: Vec<Observation>, start: usize, size: usize, Ghost(wanted): Ghost<int>) -> (r:
    Vec<Observation>)
    requires
        start == if wanted <= usize::MAX {
            wanted
        } else {
            usize::MAX as int
        },
        wanted >= 0,
        size > 0,
    ensures
        observation::observation_views(r@) == page_of(
            observation::observation_views(items@),
            wanted,
            size as int,
        ),
{
    let ghost all = items@;
    let count: usize = items.len();
    let mut r: Vec<Observation> = Vec::new();
    let mut i: usize = 0;
    for item in it: items
        invariant
            it.seq() == all,
            i == it.index(),
            all.len() == count,
            r@.len() == if i <= start {
                0
            } else if i - start <= size {
                i - start
            } else {
                size as int
            },
            forall|k: int| 0 <= k < r@.len() ==> #[trigger] r@[k] == all[start + k],
    {
        if i >= start && r.len() < size {
            r.push(item);
        }
        i += 1;
    }
    assert(observation::observation_views(r@) =~= page_of(
        observation::observation_views(all),
        wanted,
        size as int,
    ));
    r
}

/// Every observation of an answer was there, fits the query, and so is of its tenant; and the
/// answer is ordered by start, and no longer than a page.
pub proof fn answers_are_of_the_tenant(query: TenantQuery, items: Seq<ObservationView>)
    ensures
        forall|i: int|
            0 <= i < query.answer(items).len() ==> query.fits(#[trigger] query.answer(items)[i])
                && items.contains(query.answer(items)[i]) && query.answer(items)[i].tenant_id
                == TenantId(query.tenant_id),
        sorting::is_ordered(
            query.answer(items),
            |item: ObservationView| item.started_at_ms as int,
        ),
        query.answer(items).len() <= query.size() <= MAX_PAGE_SIZE,
{
    let keep = |item: ObservationView| query.fits(item);
    let time = |item: ObservationView| item.started_at_ms as int;
    let kept = items.filter(keep);
    let matching = query.matching(items);
    let start = (query.page_number() - 1) * query.size();
    select::lemma_filter_keeps(items, keep);
    sorting::sorting_orders_and_keeps(kept, time);
    broadcast use vstd::seq_lib::group_to_multiset_ensures;

    assert(start >= 0) by (nonlinear_arith)
        requires
            start == (query.page_number() - 1) * query.size(),
            query.page_number() >= 1,
            query.size() >= 1,
    ;
    assert forall|i: int| 0 <= i < query.answer(items).len() implies query.fits(
        #[trigger] query.answer(items)[i],
    ) && items.contains(query.answer(items)[i]) by {
        let item = matching[start + i];
        assert(query.answer(items)[i] == item);
        assert(matching.contains(item));
        assert(matching.to_multiset().count(item) > 0);
        assert(kept.to_multiset().count(item) > 0);
        assert(kept.contains(item));
        let at = choose|at: int| 0 <= at < kept.len() && kept[at] == item;
        assert(keep(kept[at]));
    }
    assert forall|i: int, j: int| 0 <= i <= j < query.answer(items).len() implies time(
        #[trigger] query.answer(items)[i],
    ) <= time(#[trigger] query.answer(items)[j]) by {
        assert(query.answer(items)[i] == matching[start + i]);
        assert(query.answer(items)[j] == matching[start + j]);
    }
}

/// Each observation that fits stands on exactly one page: the one that its position says.
pub proof fn pages_cover_everything(query: TenantQuery, items: Seq<ObservationView>, i: int)
    requires
        0 <= i < query.matching(items).len(),
        i / query.size() + 1 <= usize::MAX,
    ensures
        ({
            let page = TenantQuery { page: Some((i / query.size() + 1) as usize), ..query };
            &&& i % query.size() < page.answer(items).len()
            &&& page.answer(items)[i % query.size()] == query.matching(items)[i]
        }),
{
    let size = query.size();
    let page = TenantQuery { page: Some((i / size + 1) as usize), ..query };
    vstd::arithmetic::div_mod::lemma_fundamental_div_mod(i, size);
    vstd::arithmetic::div_mod::lemma_mod_bound(i, size);
    assert(i / size >= 0) by (nonlinear_arith)
        requires
            i >= 0,
            size >= 1,
    ;
    assert(page.matching(items) == query.matching(items)) by {
        assert((|item: ObservationView| page.fits(item)) =~= (|item: ObservationView| query.fits(
            item,
        )));
    }
    let start = (page.page_number() - 1) * page.size();
    assert(start == (i / size) * size);
    assert(start + i % size == i) by (nonlinear_arith)
        requires
            start == (i / size) * size,
            i == size * (i / size) + i % size,
    ;
}

/// An answer holds observations of the tenant alone, each with exactly the name asked for and the
/// status asked for, where a name or a status is asked for.
pub proof fn answers_have_the_name_and_the_status(
    items: Vec<Observation>,
    query: &TenantQuery,
    r: Vec<Observation>,
    k: int,
)
    requires
        call_ensures(filter_observations, (items, query), r),
        0 <= k < r@.len(),
    ensures
        r@[k].tenant_id.0 == query.tenant_id,
        query.name is Some ==> r@[k].name@ == query.name->0@,
        query.status is Some ==> {
            ||| query.status->0@ == "ok"@ && r@[k].status == ObservationStatus::Okay
            ||| query.status->0@ == "error"@ && r@[k].status == ObservationStatus::Error
        },
        exists|i: int| 0 <= i < items@.len() && (#[trigger] items@[i])@ == r@[k]@,
{
    let views = observation::observation_views(items@);
    answers_are_of_the_tenant(*query, views);
    assert(observation::observation_views(r@)[k] == r@[k]@);
    assert(query.fits(query.answer(views)[k]));
    assert(views.contains(r@[k]@));
    let i = choose|i: int| 0 <= i < views.len() && views[i] == r@[k]@;
    assert(items@[i]@ == r@[k]@);
}

/// An answer is a page of all observations of the tenant with the name and the status asked for,
/// from the first started to the last started. A page holds a hundred where no size is asked for,
/// and never fewer than one or more than a thousand; pages are counted from one on.
pub proof fn answers_are_pages_of_all_that_match(
    items: Vec<Observation>,
    query: &TenantQuery,
    r: Vec<Observation>,
    size: int,
    page: int,
)
    requires
        call_ensures(filter_observations, (items, query), r),
        query.page_size is None ==> size == 100,
        query.page_size == Some(0usize) ==> size == 1,
        query.page_size matches Some(n) && 1 <= n <= 1_000 ==> size == query.page_size->0,
        query.page_size matches Some(n) && n > 1_000 ==> size == 1_000,
        query.page is None || query.page == Some(0usize) ==> page == 1,
        query.page matches Some(n) && n >= 1 ==> page == query.page->0,
    ensures
        ({
            let all = sorting::in_order(
                observation::observation_views(items@).filter(
                    |item: ObservationView|
                        {
                            &&& item.tenant_id.0 == query.tenant_id
                            &&& query.name is Some ==> item.name == query.name->0@
                            &&& query.status is Some ==> {
                                ||| query.status->0@ == "ok"@ && item.status
                                    == ObservationStatus::Okay
                                ||| query.status->0@ == "error"@ && item.status
                                    == ObservationStatus::Error
                            }
                        },
                ),
                |item: ObservationView| item.started_at_ms as int,
            );
            let start = (page - 1) * size;
            &&& start >= all.len() ==> r@.len() == 0
            &&& start < all.len() <= start + size ==> r@.len() == all.len() - start
            &&& start + size < all.len() ==> r@.len() == size
            &&& forall|k: int| 0 <= k < r@.len() ==> (#[trigger] r@[k])@ == all[start + k]
        }),
{
    let keep = |item: ObservationView|
        {
            &&& item.tenant_id.0 == query.tenant_id
            &&& query.name is Some ==> item.name == query.name->0@
            &&& query.status is Some ==> {
                ||| query.status->0@ == "ok"@ && item.status == ObservationStatus::Okay
                ||| query.status->0@ == "error"@ && item.status == ObservationStatus::Error
            }
        };
    let views = observation::observation_views(items@);
    assert(keep =~= (|item: ObservationView| query.fits(item)));
    let all = query.matching(views);
    assert(size == query.size() && page == query.page_number());
    let start = (page - 1) * size;
    assert(start >= 0) by (nonlinear_arith)
        requires
            start == (page - 1) * size,
            page >= 1,
            size >= 1,
    ;
    let shown = observation::observation_views(r@);
    assert(shown == query.answer(views));
    assert(shown.len() == r@.len());
    assert forall|k: int| 0 <= k < r@.len() implies (#[trigger] r@[k])@ == all[start + k] by {
        assert(shown[k] == r@[k]@);
    }
}

/// Every observation of the tenant with the name and the status asked for is in the answer, where
/// all of them fit on the first page and no other page is asked for.
pub proof fn short_answers_are_complete(
    items: Vec<Observation>,
    query: &TenantQuery,
    r: Vec<Observation>,
    i: int,
)
    requires
        call_ensures(filter_observations, (items, query), r),
        query.page is None,
        query.page_size is None,
        items@.len() <= 100,
        0 <= i < items@.len(),
        items@[i].tenant_id.0 == query.tenant_id,
        query.name is Some ==> items@[i].name@ == query.name->0@,
        query.status is Some ==> {
            ||| query.status->0@ == "ok"@ && items@[i].status == ObservationStatus::Okay
            ||| query.status->0@ == "error"@ && items@[i].status == ObservationStatus::Error
        },
    ensures
        exists|k: int| 0 <= k < r@.len() && (#[trigger] r@[k])@ == items@[i]@,
{
    let views = observation::observation_views(items@);
    let keep = |item: ObservationView| query.fits(item);
    let time = |item: ObservationView| item.started_at_ms as int;
    let kept = views.filter(keep);
    assert(views[i] == items@[i]@);
    select::lemma_filter_has(views, keep, i);
    select::lemma_filter_keeps(views, keep);
    sorting::sorting_orders_and_keeps(kept, time);
    broadcast use vstd::seq_lib::group_to_multiset_ensures;

    let all = query.matching(views);
    assert(kept.to_multiset().count(views[i]) > 0);
    assert(all.to_multiset().count(views[i]) > 0);
    assert(all.contains(views[i]));
    let k = choose|k: int| 0 <= k < all.len() && all[k] == views[i];
    assert((query.page_number() - 1) * query.size() == 0) by (nonlinear_arith)
        requires
            query.page_number() == 1,
    ;
    assert(all.skip(0) =~= all);
    assert(query.answer(views) =~= all);
    assert(observation::observation_views(r@)[k] == r@[k]@);
}

} // verus!
