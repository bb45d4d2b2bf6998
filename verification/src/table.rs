//! The table of stored observations, one row for each id.
use crate::observation;
use crate::observation::{Observation, ObservationError, ObservationView};
use crate::select;
use crate::sorting;
use crate::sorting::Timed;
use crate::text;
use vstd::prelude::*;

verus! {

impl Timed for Observation {
    open spec fn time(&self) -> int {
        self.started_at_ms as int
    }

    fn time_ms(&self) -> (r: i64) {
        self.started_at_ms
    }
}

/// The observations from the first started to the last started.
pub open spec fn by_start(rows: Seq<ObservationView>) -> Seq<ObservationView> {
    sorting::in_order(rows, |row: ObservationView| row.started_at_ms as int)
}

/// Sorting observations sorts their values.
pub proof fn lemma_sorted_views(items: Seq<Observation>)
    ensures
        observation::observation_views(sorting::in_order(items, |item: Observation| item.time()))
            == by_start(observation::observation_views(items)),
{
    let seen = |item: Observation| item@;
    let time = |item: Observation| item.time();
    let new_time = |row: ObservationView| row.started_at_ms as int;
    sorting::sorting_commutes_with_map(items, seen, time, new_time);
    assert(observation::observation_views(items) =~= items.map_values(seen));
    let sorted = sorting::in_order(items, time);
    assert(observation::observation_views(sorted) =~= sorted.map_values(seen));
}

/// The rows without that of an id.
pub open spec fn without(rows: Seq<ObservationView>, id: u128) -> Seq<ObservationView> {
    rows.filter(|row: ObservationView| row.id != id)
}

/// The rows with an observation stored: it takes the place of an earlier one of its id.
pub open spec fn stored(rows: Seq<ObservationView>, observation: ObservationView) -> Seq<
    ObservationView,
> {
    without(rows, observation.id).push(observation)
}

/// The observations that are stored.
#[derive(Debug, PartialEq, Eq)]
pub struct ObservationTable {
    rows: Vec<Observation>,
}

impl View for ObservationTable {
    type V = Seq<ObservationView>;

    closed spec fn view(&self) -> Seq<ObservationView> {
        observation::observation_views(self.rows@)
    }
}

impl ObservationTable {
    /// The table without rows.
    pub fn new() -> (r: Self)
        ensures
            r@ == Seq::<ObservationView>::empty(),
    {
        let r: ObservationTable = ObservationTable { rows: Vec::new() };
        assert(r@ =~= Seq::empty());
        r
    }

    /// Stores an observation in the place of an earlier one of its id. One that is not valid is
    /// refused, and nothing changes.
    pub fn append(&mut self, observation: &Observation) -> (r: Result<(), ObservationError>)
        ensures
            match r {
                Ok(_) => observation@.flaw() is None && final(self)@ == stored(
                    old(self)@,
                    observation@,
                ),
                Err(error) => observation@.flaw() == Some(error) && final(self)@ == old(self)@,
            },
    {
        match observation.validate() {
            Ok(_) => {},
            Err(error) => {
                return Err(error);
            },
        }
        let ghost before = self@;
        let ghost keep = |row: ObservationView| row.id != observation.id;
        let mut rows: Vec<Observation> = Vec::new();
        std::mem::swap(&mut self.rows, &mut rows);
        let ghost all = rows@;
        proof {
            assert(observation::observation_views(all) =~= before);
            select::lemma_filter_none(before, keep);
        }
        let mut kept: Vec<Observation> = Vec::new();
        assert(observation::observation_views(kept@) =~= before.take(0).filter(keep));
        for row in it: rows
            invariant
                it.seq() == all,
                before == observation::observation_views(all),
                keep == (|row: ObservationView| row.id != observation.id),
                observation::observation_views(kept@) == before.take(it.index()).filter(keep),
        {
            proof {
                select::lemma_filter_step(before, it.index(), keep);
                assert(before[it.index()] == row@);
            }
            if row.id != observation.id {
                let ghost held = kept@;
                kept.push(row);
                assert(observation::observation_views(kept@) =~= observation::observation_views(
                    held,
                ).push(row@));
            }
        }
        assert(before.take(before.len() as int) =~= before);
        let ghost held = kept@;
        kept.push(observation.clone());
        assert(observation::observation_views(kept@) =~= observation::observation_views(held).push(
            observation@,
        ));
        self.rows = kept;
        Ok(())
    }

    /// The observations from the first started to the last started; those that started together
    /// in the order in which they were stored.
    pub fn list(&self) -> (r: Vec<Observation>)
        ensures
            observation::observation_views(r@) == by_start(self@),
    {
        let mut copies: Vec<Observation> = Vec::new();
        let mut i: usize = 0;
        while i < self.rows.len()
            invariant
                i <= self.rows@.len(),
                copies@.len() == i,
                forall|k: int| 0 <= k < i ==> (#[trigger] copies@[k])@ == self.rows@[k]@,
            decreases self.rows@.len() - i,
        {
            copies.push(self.rows[i].clone());
            i += 1;
        }
        assert(observation::observation_views(copies@) =~= self@);
        proof {
            lemma_sorted_views(copies@);
        }
        sorting::sort_by_time(copies)
    }
}

/// A stored observation is in the table, it is the only one of its id, and every other one is
/// still there.
pub proof fn a_stored_observation_is_read_back(
    rows: Seq<ObservationView>,
    observation: ObservationView,
)
    ensures
        by_start(stored(rows, observation)).contains(observation),
        forall|i: int|
            0 <= i < stored(rows, observation).len() && (#[trigger] stored(rows, observation)[i]).id
                == observation.id ==> stored(rows, observation)[i] == observation,
        forall|i: int|
            0 <= i < rows.len() && (#[trigger] rows[i]).id != observation.id ==> stored(
                rows,
                observation,
            ).contains(rows[i]),
{
    let keep = |row: ObservationView| row.id != observation.id;
    let now = stored(rows, observation);
    let time = |row: ObservationView| row.started_at_ms as int;
    select::lemma_filter_keeps(rows, keep);
    broadcast use vstd::seq_lib::group_to_multiset_ensures;

    sorting::sorting_orders_and_keeps(now, time);
    assert(now[now.len() - 1] == observation);
    assert(now.contains(observation));
    assert(now.to_multiset().count(observation) > 0);
    assert forall|i: int| 0 <= i < rows.len() && (#[trigger] rows[i]).id
        != observation.id implies now.contains(rows[i]) by {
        select::lemma_filter_has(rows, keep, i);
        let at = choose|at: int|
            0 <= at < rows.filter(keep).len() && rows.filter(keep)[at] == rows[i];
        assert(now[at] == rows[i]);
    }
}

/// Storing the same observation again changes nothing that a list shows of it: the table holds the
/// same rows.
pub proof fn storing_again_changes_nothing(
    rows: Seq<ObservationView>,
    observation: ObservationView,
)
    ensures
        stored(stored(rows, observation), observation) == stored(rows, observation),
{
    let keep = |row: ObservationView| row.id != observation.id;
    let kept = rows.filter(keep);
    select::lemma_filter_push(kept, observation, keep);
    select::lemma_filter_twice(rows, keep);
}

/// Storing an observation that is valid puts it in the table behind the others and takes an earlier
/// one of its id out; every other row stays, in its order. One that is not valid changes nothing.
pub proof fn a_table_holds_one_row_for_an_id(
    table: &mut ObservationTable,
    observation: &Observation,
    r: Result<(), ObservationError>,
)
    requires
        call_ensures(ObservationTable::append, (table, observation), r),
    ensures
        r is Ok ==> final(table)@ == old(table)@.filter(
            |row: ObservationView| row.id != observation.id,
        ).push(observation@),
        r is Err ==> final(table)@ == old(table)@,
        r is Ok <==> observation.duration_ms <= 86_400_000 && exists|i: int|
            0 <= i < observation.name@.len() && !text::white(#[trigger] observation.name@[i]),
{
    observation::a_flaw_is_a_blank_name_or_a_long_duration(observation@);
    assert(observation@.id == observation.id && observation@.name == observation.name@);
}

/// A list shows every row of the table once, from the first started to the last started; those that
/// started together in the order in which they were stored.
pub proof fn a_list_shows_every_row(table: &ObservationTable, r: Vec<Observation>, i: int, j: int)
    requires
        call_ensures(ObservationTable::list, (table,), r),
    ensures
        r@.len() == table@.len(),
        observation::observation_views(r@).to_multiset() == table@.to_multiset(),
        0 <= i <= j < r@.len() ==> r@[i].started_at_ms <= r@[j].started_at_ms,
        observation::observation_views(r@) == sorting::in_order(
            table@,
            |row: ObservationView| row.started_at_ms as int,
        ),
{
    let time = |row: ObservationView| row.started_at_ms as int;
    let views = observation::observation_views(r@);
    sorting::sorting_orders_and_keeps(table@, time);
    assert(views.len() == r@.len());
    if 0 <= i <= j < r@.len() {
        assert(time(views[i]) <= time(views[j]));
        assert(views[i] == r@[i]@ && views[j] == r@[j]@);
    }
}

/// A new table is empty.
pub proof fn a_new_table_is_empty(fresh: ObservationTable, r: Vec<Observation>)
    requires
        call_ensures(ObservationTable::new, (), fresh),
        call_ensures(ObservationTable::list, (&fresh,), r),
    ensures
        fresh@.len() == 0,
        r@.len() == 0,
{
    a_list_shows_every_row(&fresh, r, 0, 0);
}

} // verus!
