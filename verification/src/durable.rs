//! The ingestion queue: observations wait, are leased to a worker, come back, or end as dead
//! letters.
use crate::observation;
use crate::observation::{Observation, ObservationError, ObservationView, TenantId};
use crate::select;
use crate::sorting;
use crate::sorting::Timed;
use crate::text;
use vstd::prelude::*;

verus! {

/// The largest number of dead letters that one request lists.
pub const MAX_DEAD_LETTERS: usize = 1_000;

/// Where a queued observation stands.
#[derive(Debug, Clone, Copy, PartialEq, Eq, Structural)]
pub enum QueueState {
    Pending,
    Processing,
    DeadLetter,
}

/// What became of a queued observation whose processing failed.
#[derive(Debug, Clone, Copy, PartialEq, Eq, Structural)]
pub enum QueueDisposition {
    Pending,
    DeadLetter,
}

/// A queued observation with how it was dealt with so far.
#[derive(Debug, Clone, PartialEq, Eq)]
pub struct QueueRow {
    pub observation: Observation,
    pub state: QueueState,
    pub attempts: u32,
    pub enqueued_at_ms: i64,
    pub available_at_ms: i64,
    pub lease_until_ms: Option<i64>,
    pub last_error: Option<String>,
}

/// What a worker, or a list of dead letters, gets to see of a queued observation.
#[derive(Debug, Clone, PartialEq, Eq)]
pub struct ObservationQueueItem {
    pub id: u128,
    pub observation: Observation,
    pub attempts: u32,
    pub available_at_ms: i64,
    pub last_error: Option<String>,
}

/// How many observations of a tenant stand where.
#[derive(Debug, Clone, Copy, PartialEq, Eq, Structural)]
pub struct ObservationQueueStats {
    pub pending: u64,
    pub processing: u64,
    pub dead_letter: u64,
}

impl Default for ObservationQueueStats {
    fn default() -> (r: Self)
        ensures
            r == (ObservationQueueStats { pending: 0, processing: 0, dead_letter: 0 }),
    {
        ObservationQueueStats { pending: 0, processing: 0, dead_letter: 0 }
    }
}

/// The value of an optional text.
pub open spec fn text_view(text: Option<String>) -> Option<Seq<char>> {
    match text {
        Some(s) => Some(s@),
        None => None,
    }
}

/// The value of a queued observation.
#[verifier::ext_equal]
pub struct RowView {
    pub observation: ObservationView,
    pub state: QueueState,
    pub attempts: u32,
    pub enqueued_at_ms: i64,
    pub available_at_ms: i64,
    pub lease_until_ms: Option<i64>,
    pub last_error: Option<Seq<char>>,
}

/// The value of an item.
#[verifier::ext_equal]
pub struct ItemView {
    pub id: u128,
    pub observation: ObservationView,
    pub attempts: u32,
    pub available_at_ms: i64,
    pub last_error: Option<Seq<char>>,
}

impl View for QueueRow {
    type V = RowView;

    open spec fn view(&self) -> RowView {
        RowView {
            observation: self.observation@,
            state: self.state,
            attempts: self.attempts,
            enqueued_at_ms: self.enqueued_at_ms,
            available_at_ms: self.available_at_ms,
            lease_until_ms: self.lease_until_ms,
            last_error: text_view(self.last_error),
        }
    }
}

impl View for ObservationQueueItem {
    type V = ItemView;

    open spec fn view(&self) -> ItemView {
        ItemView {
            id: self.id,
            observation: self.observation@,
            attempts: self.attempts,
            available_at_ms: self.available_at_ms,
            last_error: text_view(self.last_error),
        }
    }
}

/// The values of rows.
pub open spec fn row_views(rows: Seq<QueueRow>) -> Seq<RowView> {
    Seq::new(rows.len(), |i: int| rows[i]@)
}

/// The values of items.
pub open spec fn item_views(items: Seq<ObservationQueueItem>) -> Seq<ItemView> {
    Seq::new(items.len(), |i: int| items[i]@)
}

impl RowView {
    /// The id of the queued observation.
    pub open spec fn id(self) -> u128 {
        self.observation.id
    }

    /// A newly queued observation.
    pub open spec fn fresh(observation: ObservationView, now_ms: i64) -> RowView {
        RowView {
            observation,
            state: QueueState::Pending,
            attempts: 0,
            enqueued_at_ms: now_ms,
            available_at_ms: now_ms,
            lease_until_ms: None,
            last_error: None,
        }
    }

    /// The lease of the worker has run out.
    pub open spec fn lapsed(self, now_ms: i64) -> bool {
        self.state == QueueState::Processing && (self.lease_until_ms matches Some(until) && until
            <= now_ms)
    }

    /// The row with a lapsed lease taken back.
    pub open spec fn recovered(self, now_ms: i64) -> RowView {
        if self.lapsed(now_ms) {
            RowView { state: QueueState::Pending, lease_until_ms: None, ..self }
        } else {
            self
        }
    }

    /// The row waits, and its time has come.
    pub open spec fn due(self, now_ms: i64) -> bool {
        self.state == QueueState::Pending && self.available_at_ms <= now_ms
    }

    /// The row comes before the other: it was available earlier, or queued earlier.
    pub open spec fn precedes(self, other: RowView) -> bool {
        ||| self.available_at_ms < other.available_at_ms
        ||| self.available_at_ms == other.available_at_ms && self.enqueued_at_ms
            < other.enqueued_at_ms
    }

    /// The row while a worker has it.
    pub open spec fn leased(self, lease_until_ms: i64) -> RowView {
        RowView {
            state: QueueState::Processing,
            attempts: (self.attempts + 1) as u32,
            lease_until_ms: Some(lease_until_ms),
            ..self
        }
    }

    /// What is seen of the row.
    pub open spec fn item(self) -> ItemView {
        ItemView {
            id: self.id(),
            observation: self.observation,
            attempts: self.attempts,
            available_at_ms: self.available_at_ms,
            last_error: self.last_error,
        }
    }

    /// Whether a failed row waits again: it ends as a dead letter once it was tried as often as
    /// allowed, and it is always tried once.
    pub open spec fn disposition(self, max_attempts: u32) -> QueueDisposition {
        if self.attempts >= max_attempts && self.attempts >= 1 {
            QueueDisposition::DeadLetter
        } else {
            QueueDisposition::Pending
        }
    }

    /// The row after its processing failed.
    pub open spec fn failed(
        self,
        error: Seq<char>,
        retry_at_ms: i64,
        max_attempts: u32,
    ) -> RowView {
        RowView {
            state: match self.disposition(max_attempts) {
                QueueDisposition::Pending => QueueState::Pending,
                QueueDisposition::DeadLetter => QueueState::DeadLetter,
            },
            available_at_ms: retry_at_ms,
            lease_until_ms: None,
            last_error: Some(error),
            ..self
        }
    }
}

/// The position of the row of an id, or the number of rows where there is none.
pub open spec fn row_at(rows: Seq<RowView>, id: u128) -> int
    decreases rows.len(),
{
    if rows.len() == 0 || rows[0].id() == id {
        0
    } else {
        1 + row_at(rows.drop_first(), id)
    }
}

/// The row of an id stands behind rows of other ids.
pub proof fn lemma_row_at(rows: Seq<RowView>, id: u128)
    ensures
        0 <= row_at(rows, id) <= rows.len(),
        row_at(rows, id) < rows.len() ==> rows[row_at(rows, id)].id() == id,
        forall|i: int| 0 <= i < row_at(rows, id) ==> (#[trigger] rows[i]).id() != id,
    decreases rows.len(),
{
    if rows.len() > 0 && rows[0].id() != id {
        let rest = rows.drop_first();
        lemma_row_at(rest, id);
        assert forall|i: int| 0 <= i < row_at(rows, id) implies (#[trigger] rows[i]).id() != id by {
            if i > 0 {
                assert(rest[i - 1] == rows[i]);
            }
        }
        if row_at(rows, id) < rows.len() {
            assert(rest[row_at(rest, id)] == rows[row_at(rows, id)]);
        }
    }
}

/// Where the first row of an id is known, it is the one that is found.
proof fn lemma_row_at_is(rows: Seq<RowView>, id: u128, at: int)
    requires
        0 <= at <= rows.len(),
        at < rows.len() ==> rows[at].id() == id,
        forall|i: int| 0 <= i < at ==> (#[trigger] rows[i]).id() != id,
    ensures
        row_at(rows, id) == at,
{
    lemma_row_at(rows, id);
    let found = row_at(rows, id);
    if found < at {
        assert(rows[found].id() == id);
    } else if at < found {
        assert(rows[at].id() == id);
    }
}

/// The id is queued.
pub open spec fn queued(rows: Seq<RowView>, id: u128) -> bool {
    row_at(rows, id) < rows.len()
}

/// No id is queued twice.
pub open spec fn ids_differ(rows: Seq<RowView>) -> bool {
    forall|i: int, j: int|
        0 <= i < j < rows.len() ==> (#[trigger] rows[i]).id() != (#[trigger] rows[j]).id()
}

/// The rows with those observations added whose ids are not queued yet.
pub open spec fn enqueued(
    rows: Seq<RowView>,
    observations: Seq<ObservationView>,
    now_ms: i64,
) -> Seq<RowView>
    decreases observations.len(),
{
    if observations.len() == 0 {
        rows
    } else {
        let before = enqueued(rows, observations.drop_last(), now_ms);
        if queued(before, observations.last().id) {
            before
        } else {
            before.push(RowView::fresh(observations.last(), now_ms))
        }
    }
}

/// What is wrong with the first observation that is not valid.
pub open spec fn first_flaw(observations: Seq<ObservationView>) -> Option<ObservationError>
    decreases observations.len(),
{
    if observations.len() == 0 {
        None
    } else {
        match first_flaw(observations.drop_last()) {
            Some(error) => Some(error),
            None => observations.last().flaw(),
        }
    }
}

/// The rows with lapsed leases taken back.
pub open spec fn recovered(rows: Seq<RowView>, now_ms: i64) -> Seq<RowView> {
    rows.map_values(|row: RowView| row.recovered(now_ms))
}

/// The position of the row that is due next, if any: of the rows that are due the first that no
/// other precedes.
pub open spec fn next_due(rows: Seq<RowView>, now_ms: i64) -> Option<int>
    decreases rows.len(),
{
    if rows.len() == 0 {
        None
    } else {
        match next_due(rows.drop_last(), now_ms) {
            Some(i) => if rows.last().due(now_ms) && rows.last().precedes(rows[i]) {
                Some(rows.len() - 1)
            } else {
                Some(i)
            },
            None => if rows.last().due(now_ms) {
                Some(rows.len() - 1)
            } else {
                None
            },
        }
    }
}

/// The rows after the next due one was leased.
pub open spec fn after_claim(rows: Seq<RowView>, now_ms: i64, lease_until_ms: i64) -> Seq<RowView> {
    let ready = recovered(rows, now_ms);
    match next_due(ready, now_ms) {
        Some(i) => ready.update(i, ready[i].leased(lease_until_ms)),
        None => ready,
    }
}

/// The item that a claim gives out.
pub open spec fn claimed(rows: Seq<RowView>, now_ms: i64, lease_until_ms: i64) -> Option<ItemView> {
    let ready = recovered(rows, now_ms);
    match next_due(ready, now_ms) {
        Some(i) => Some(ready[i].leased(lease_until_ms).item()),
        None => None,
    }
}

/// The attempts of the row that a claim gives out can be counted.
pub open spec fn claimable(rows: Seq<RowView>, now_ms: i64) -> bool {
    let ready = recovered(rows, now_ms);
    match next_due(ready, now_ms) {
        Some(i) => ready[i].attempts < u32::MAX,
        None => true,
    }
}

/// The rows after the processing of an id was completed: the row of the id goes, where a worker
/// had it.
pub open spec fn completed(rows: Seq<RowView>, id: u128) -> Seq<RowView> {
    let at = row_at(rows, id);
    if at < rows.len() && rows[at].state == QueueState::Processing {
        rows.remove(at)
    } else {
        rows
    }
}

/// A worker has the row of the id.
pub open spec fn processing(rows: Seq<RowView>, id: u128) -> bool {
    queued(rows, id) && rows[row_at(rows, id)].state == QueueState::Processing
}

/// The id is a dead letter of the tenant.
pub open spec fn dead_letter_of(rows: Seq<RowView>, tenant_id: TenantId, id: u128) -> bool {
    queued(rows, id) && rows[row_at(rows, id)].state == QueueState::DeadLetter
        && rows[row_at(rows, id)].observation.tenant_id == tenant_id
}

/// The rows of a tenant in a state, in order.
pub open spec fn rows_of(rows: Seq<RowView>, tenant_id: TenantId, state: QueueState) -> Seq<
    RowView,
> {
    rows.filter(|row: RowView| row.observation.tenant_id == tenant_id && row.state == state)
}

/// The number of dead letters to list: at least one, and no more than the limit.
pub open spec fn list_limit(limit: int) -> int {
    if limit < 1 {
        1
    } else if limit > MAX_DEAD_LETTERS {
        MAX_DEAD_LETTERS as int
    } else {
        limit
    }
}

/// The dead letters of a tenant, the first queued first, as many as are asked for.
pub open spec fn letters(rows: Seq<RowView>, tenant_id: TenantId, limit: int) -> Seq<RowView> {
    let all = sorting::in_order(
        rows_of(rows, tenant_id, QueueState::DeadLetter),
        |row: RowView| row.enqueued_at_ms as int,
    );
    if all.len() > list_limit(limit) {
        all.take(list_limit(limit))
    } else {
        all
    }
}

/// What is seen of rows.
pub open spec fn items_of(rows: Seq<RowView>) -> Seq<ItemView> {
    rows.map_values(|row: RowView| row.item())
}

/// The queue of observations that are to be stored.
#[derive(Debug, PartialEq, Eq)]
pub struct ObservationQueue {
    rows: Vec<QueueRow>,
}

impl View for ObservationQueue {
    type V = Seq<RowView>;

    /// The rows in the order in which they were queued first.
    closed spec fn view(&self) -> Seq<RowView> {
        row_views(self.rows@)
    }
}

impl ObservationQueue {
    #[verifier::type_invariant]
    spec fn well_formed(&self) -> bool {
        ids_differ(row_views(self.rows@))
    }

    /// The queue without rows.
    pub fn new() -> (r: Self)
        ensures
            r@ == Seq::<RowView>::empty(),
    {
        let r: ObservationQueue = ObservationQueue { rows: Vec::new() };
        assert(r@ =~= Seq::empty());
        r
    }

    /// The rows of the queue.
    pub fn rows(&self) -> (r: &Vec<QueueRow>)
        ensures
            row_views(r@) == self@,
            ids_differ(self@),
    {
        proof {
            use_type_invariant(self);
        }
        &self.rows
    }

    /// The queue of stored rows; nothing where an id occurs twice.
    pub fn from_rows(rows: Vec<QueueRow>) -> (r: Option<Self>)
        ensures
            match r {
                Some(queue) => queue@ == row_views(rows@) && ids_differ(row_views(rows@)),
                None => !ids_differ(row_views(rows@)),
            },
    {
        let mut j: usize = 0;
        while j < rows.len()
            invariant
                j <= rows.len(),
                ids_differ(row_views(rows@).take(j as int)),
            decreases rows.len() - j,
        {
            let mut i: usize = 0;
            while i < j
                invariant
                    i <= j < rows.len(),
                    forall|k: int|
                        0 <= k < i ==> (#[trigger] row_views(rows@)[k]).id() != row_views(
                            rows@,
                        )[j as int].id(),
                decreases j - i,
            {
                if rows[i].observation.id == rows[j].observation.id {
                    assert(row_views(rows@)[i as int].id() == row_views(rows@)[j as int].id());
                    return None;
                }
                i += 1;
            }
            assert(ids_differ(row_views(rows@).take(j + 1))) by {
                let views = row_views(rows@);
                assert forall|a: int, b: int| 0 <= a < b < j + 1 implies (#[trigger] views.take(
                    j + 1,
                )[a]).id() != (#[trigger] views.take(j + 1)[b]).id() by {
                    if b < j {
                        assert(views.take(j as int)[a].id() != views.take(j as int)[b].id());
                    } else {
                        assert(views[a].id() != views[b].id());
                    }
                }
            }
            j += 1;
        }
        assert(row_views(rows@).take(rows.len() as int) =~= row_views(rows@));
        Some(ObservationQueue { rows })
    }

    /// The position of the row of an id, or the number of rows.
    fn find(&self, id: u128) -> (r: usize)
        ensures
            r == row_at(self@, id),
            r <= self.rows@.len(),
    {
        let mut i: usize = 0;
        while i < self.rows.len() && self.rows[i].observation.id != id
            invariant
                i <= self.rows@.len(),
                forall|k: int| 0 <= k < i ==> (#[trigger] self@[k]).id() != id,
            decreases self.rows@.len() - i,
        {
            i += 1;
        }
        proof {
            lemma_row_at_is(self@, id, i as int);
        }
        i
    }
}

/// Copies an optional text.
fn copy_text(text: &Option<String>) -> (r: Option<String>)
    ensures
        text_view(r) == text_view(*text),
{
    match text {
        Some(s) => Some(s.clone()),
        None => None,
    }
}

impl QueueRow {
    /// What is seen of the row.
    fn item(&self) -> (r: ObservationQueueItem)
        ensures
            r@ == self@.item(),
    {
        ObservationQueueItem {
            id: self.observation.id,
            observation: self.observation.clone(),
            attempts: self.attempts,
            available_at_ms: self.available_at_ms,
            last_error: copy_text(&self.last_error),
        }
    }

    /// Whether the lease of the worker has run out.
    fn has_lapsed(&self, now_ms: i64) -> (r: bool)
        ensures
            r == self@.lapsed(now_ms),
    {
        self.state == QueueState::Processing && match self.lease_until_ms {
            Some(until) => until <= now_ms,
            None => false,
        }
    }

    /// Whether the row waits once a lapsed lease is taken back, and its time has come.
    fn is_due(&self, now_ms: i64) -> (r: bool)
        ensures
            r == self@.recovered(now_ms).due(now_ms),
    {
        (self.state == QueueState::Pending || self.has_lapsed(now_ms)) && self.available_at_ms
            <= now_ms
    }

    /// Whether the row comes before the other.
    fn comes_before(&self, other: &QueueRow) -> (r: bool)
        ensures
            r == self@.precedes(other@),
    {
        self.available_at_ms < other.available_at_ms || (self.available_at_ms
            == other.available_at_ms && self.enqueued_at_ms < other.enqueued_at_ms)
    }
}

/// The first observation that is not valid, if any, decides.
pub fn check_all(observations: &[Observation]) -> (r: Result<(), ObservationError>)
    ensures
        match r {
            Ok(_) => first_flaw(observation::observation_views(observations@)) is None,
            Err(error) => first_flaw(observation::observation_views(observations@)) == Some(error),
        },
{
    let ghost views = observation::observation_views(observations@);
    let mut i: usize = 0;
    assert(views.take(0) =~= Seq::empty());
    while i < observations.len()
        invariant
            i <= observations.len(),
            views == observation::observation_views(observations@),
            first_flaw(views.take(i as int)) is None,
        decreases observations.len() - i,
    {
        assert(views.take(i + 1).drop_last() =~= views.take(i as int));
        assert(views.take(i + 1).last() == observations@[i as int]@);
        match observations[i].validate() {
            Ok(_) => {},
            Err(error) => {
                proof {
                    lemma_first_flaw_prefix(views, i + 1);
                }
                return Err(error);
            },
        }
        i += 1;
    }
    assert(views.take(views.len() as int) =~= views);
    Ok(())
}

/// A flaw among the first observations decides.
proof fn lemma_first_flaw_prefix(observations: Seq<ObservationView>, i: int)
    requires
        0 <= i <= observations.len(),
        first_flaw(observations.take(i)) is Some,
    ensures
        first_flaw(observations) == first_flaw(observations.take(i)),
    decreases observations.len() - i,
{
    if i == observations.len() {
        assert(observations.take(i) =~= observations);
    } else {
        assert(observations.take(i + 1).drop_last() =~= observations.take(i));
        lemma_first_flaw_prefix(observations, i + 1);
    }
}

/// Adding a row of a new id keeps the ids different.
proof fn lemma_push_keeps_ids(rows: Seq<RowView>, row: RowView)
    requires
        ids_differ(rows),
        !queued(rows, row.id()),
    ensures
        ids_differ(rows.push(row)),
{
    lemma_row_at(rows, row.id());
    let now = rows.push(row);
    assert forall|i: int, j: int| 0 <= i < j < now.len() implies (#[trigger] now[i]).id() != (
    #[trigger] now[j]).id() by {
        if j < rows.len() {
            assert(rows[i].id() != rows[j].id());
        } else {
            assert(rows[i].id() != row.id());
        }
    }
}

/// Queueing more leaves the rows that are there as they are, adds at most one row for each
/// observation, and queues no id twice.
pub proof fn queueing_keeps_what_is_there(rows: Seq<RowView>, observations: Seq<ObservationView>, now_ms: i64)
    requires
        ids_differ(rows),
    ensures
        rows.is_prefix_of(enqueued(rows, observations, now_ms)),
        rows.len() <= enqueued(rows, observations, now_ms).len() <= rows.len()
            + observations.len(),
        ids_differ(enqueued(rows, observations, now_ms)),
    decreases observations.len(),
{
    if observations.len() > 0 {
        let before = enqueued(rows, observations.drop_last(), now_ms);
        queueing_keeps_what_is_there(rows, observations.drop_last(), now_ms);
        if !queued(before, observations.last().id) {
            lemma_push_keeps_ids(before, RowView::fresh(observations.last(), now_ms));
            assert(before.push(RowView::fresh(observations.last(), now_ms)).subrange(
                0,
                rows.len() as int,
            ) =~= before.subrange(0, rows.len() as int));
        }
    } else {
        assert(rows.subrange(0, rows.len() as int) =~= rows);
    }
}

impl ObservationQueue {
    /// Queues the observations whose ids are not queued yet, and says how many those were. Where
    /// one of the observations is not valid, none is queued.
    pub fn enqueue_batch(&mut self, observations: &[Observation], now_ms: i64) -> (r: Result<
        usize,
        ObservationError,
    >)
        ensures
            match r {
                Ok(inserted) => {
                    &&& first_flaw(observation::observation_views(observations@)) is None
                    &&& final(self)@ == enqueued(
                        old(self)@,
                        observation::observation_views(observations@),
                        now_ms,
                    )
                    &&& inserted == final(self)@.len() - old(self)@.len()
                },
                Err(error) => {
                    &&& first_flaw(observation::observation_views(observations@)) == Some(error)
                    &&& final(self)@ == old(self)@
                },
            },
    {
        match check_all(observations) {
            Ok(_) => {},
            Err(error) => {
                return Err(error);
            },
        }
        proof {
            use_type_invariant(&*self);
        }
        let ghost views = observation::observation_views(observations@);
        let mut inserted: usize = 0;
        let mut i: usize = 0;
        assert(views.take(0) =~= Seq::empty());
        while i < observations.len()
            invariant
                i <= observations.len(),
                inserted <= i,
                views == observation::observation_views(observations@),
                ids_differ(old(self)@),
                self@ == enqueued(old(self)@, views.take(i as int), now_ms),
                self@.len() == old(self)@.len() + inserted,
            decreases observations.len() - i,
        {
            assert(views.take(i + 1).drop_last() =~= views.take(i as int));
            assert(views.take(i + 1).last() == observations@[i as int]@);
            let at: usize = self.find(observations[i].id);
            if at == self.rows.len() {
                let row: QueueRow = QueueRow {
                    observation: observations[i].clone(),
                    state: QueueState::Pending,
                    attempts: 0,
                    enqueued_at_ms: now_ms,
                    available_at_ms: now_ms,
                    lease_until_ms: None,
                    last_error: None,
                };
                let ghost before = self@;
                proof {
                    use_type_invariant(&*self);
                    lemma_push_keeps_ids(before, row@);
                }
                let mut rows: Vec<QueueRow> = Vec::new();
                assert(row_views(rows@) =~= Seq::empty());
                std::mem::swap(&mut self.rows, &mut rows);
                rows.push(row);
                assert(row_views(rows@) =~= before.push(row@));
                self.rows = rows;
                inserted += 1;
            }
            i += 1;
        }
        assert(views.take(views.len() as int) =~= views);
        Ok(inserted)
    }
}

/// Taking back leases keeps the ids.
proof fn lemma_recovered_keeps_ids(rows: Seq<RowView>, now_ms: i64)
    requires
        ids_differ(rows),
    ensures
        ids_differ(recovered(rows, now_ms)),
{
    let now = recovered(rows, now_ms);
    assert forall|i: int, j: int| 0 <= i < j < now.len() implies (#[trigger] now[i]).id() != (
    #[trigger] now[j]).id() by {
        assert(rows[i].id() != rows[j].id());
    }
}

/// Replacing a row by one of the same id keeps the ids different.
proof fn lemma_update_keeps_ids(rows: Seq<RowView>, at: int, row: RowView)
    requires
        ids_differ(rows),
        0 <= at < rows.len(),
        row.id() == rows[at].id(),
    ensures
        ids_differ(rows.update(at, row)),
{
    let now = rows.update(at, row);
    assert forall|i: int, j: int| 0 <= i < j < now.len() implies (#[trigger] now[i]).id() != (
    #[trigger] now[j]).id() by {
        assert(rows[i].id() != rows[j].id());
    }
}

/// The next due row is due, no due row precedes it, and none before it is as early.
pub proof fn next_due_is_the_earliest(rows: Seq<RowView>, now_ms: i64)
    ensures
        match next_due(rows, now_ms) {
            Some(i) => {
                &&& 0 <= i < rows.len()
                &&& rows[i].due(now_ms)
                &&& forall|j: int|
                    0 <= j < rows.len() && (#[trigger] rows[j]).due(now_ms) ==> !rows[j].precedes(
                        rows[i],
                    )
                &&& forall|j: int|
                    0 <= j < i && (#[trigger] rows[j]).due(now_ms) ==> rows[i].precedes(rows[j])
            },
            None => forall|j: int| 0 <= j < rows.len() ==> !(#[trigger] rows[j]).due(now_ms),
        },
    decreases rows.len(),
{
    if rows.len() > 0 {
        let front = rows.drop_last();
        next_due_is_the_earliest(front, now_ms);
        assert forall|j: int| 0 <= j < rows.len() - 1 implies front[j] == #[trigger] rows[j] by {}
        match next_due(front, now_ms) {
            Some(i) => {
                assert(front[i] == rows[i]);
                assert forall|j: int|
                    0 <= j < rows.len() && (#[trigger] rows[j]).due(now_ms) implies !rows[j].precedes(
                    rows[next_due(rows, now_ms)->0],
                ) by {
                    if j < front.len() {
                        assert(front[j].due(now_ms));
                    }
                }
                assert forall|j: int|
                    0 <= j < next_due(rows, now_ms)->0 && (#[trigger] rows[j]).due(
                        now_ms,
                    ) implies rows[next_due(rows, now_ms)->0].precedes(rows[j]) by {
                    assert(front[j].due(now_ms));
                    assert(!front[j].precedes(front[i]));
                }
            },
            None => {
                assert forall|j: int| 0 <= j < front.len() implies !(#[trigger] rows[j]).due(
                    now_ms,
                ) by {
                    assert(!front[j].due(now_ms));
                }
            },
        }
    }
}

impl ObservationQueue {
    /// Takes back the leases that have lapsed.
    fn recover(&mut self, now_ms: i64)
        ensures
            final(self)@ == recovered(old(self)@, now_ms),
    {
        proof {
            use_type_invariant(&*self);
            lemma_recovered_keeps_ids(self@, now_ms);
        }
        let ghost before = self@;
        let mut rows: Vec<QueueRow> = Vec::new();
        assert(row_views(rows@) =~= Seq::empty());
        std::mem::swap(&mut self.rows, &mut rows);
        let mut i: usize = 0;
        while i < rows.len()
            invariant
                i <= rows.len() == before.len(),
                forall|k: int|
                    0 <= k < i ==> (#[trigger] row_views(rows@)[k]) == before[k].recovered(now_ms),
                forall|k: int| i <= k < rows.len() ==> (#[trigger] row_views(rows@)[k]) == before[k],
            decreases rows.len() - i,
        {
            assert(row_views(rows@)[i as int] == before[i as int]);
            let lapsed: bool = rows[i].has_lapsed(now_ms);
            let ghost held = rows@;
            if lapsed {
                rows[i].state = QueueState::Pending;
                rows[i].lease_until_ms = None;
            }
            assert forall|k: int| 0 <= k < rows.len() && k != i implies (#[trigger] row_views(
                rows@,
            )[k]) == row_views(held)[k] by {}
            i += 1;
        }
        assert(row_views(rows@) =~= recovered(before, now_ms));
        self.rows = rows;
    }

    /// The position of the row that is due next once lapsed leases are taken back.
    fn next(&self, now_ms: i64) -> (r: Option<usize>)
        ensures
            match r {
                Some(i) => next_due(recovered(self@, now_ms), now_ms) == Some(i as int) && i
                    < self@.len(),
                None => next_due(recovered(self@, now_ms), now_ms) is None,
            },
    {
        let ghost ready = recovered(self@, now_ms);
        let mut best: Option<usize> = None;
        let mut i: usize = 0;
        assert(ready.take(0) =~= Seq::empty());
        while i < self.rows.len()
            invariant
                i <= self.rows@.len(),
                ready == recovered(self@, now_ms),
                match best {
                    Some(b) => next_due(ready.take(i as int), now_ms) == Some(b as int) && b < i,
                    None => next_due(ready.take(i as int), now_ms) is None,
                },
            decreases self.rows@.len() - i,
        {
            assert(ready.take(i + 1).drop_last() =~= ready.take(i as int));
            assert(ready.take(i + 1).last() == self.rows@[i as int]@.recovered(now_ms));
            if self.rows[i].is_due(now_ms) {
                match best {
                    Some(b) => {
                        assert(ready.take(i + 1)[b as int] == self.rows@[b as int]@.recovered(
                            now_ms,
                        ));
                        if self.rows[i].comes_before(&self.rows[b]) {
                            best = Some(i);
                        }
                    },
                    None => {
                        best = Some(i);
                    },
                }
            }
            i += 1;
        }
        assert(ready.take(self.rows@.len() as int) =~= ready);
        best
    }

    /// Whether a claim would count within bounds.
    pub fn can_claim(&self, now_ms: i64) -> (r: bool)
        ensures
            r == claimable(self@, now_ms),
    {
        match self.next(now_ms) {
            Some(at) => {
                assert(recovered(self@, now_ms)[at as int].attempts == self.rows@[at as int].attempts);
                self.rows[at].attempts < u32::MAX
            },
            None => true,
        }
    }

    /// Takes back lapsed leases, then leases the next due observation until `lease_until_ms` and
    /// gives it out, where one is due.
    pub fn claim_next(&mut self, now_ms: i64, lease_until_ms: i64) -> (r: Option<
        ObservationQueueItem,
    >)
        requires
            claimable(old(self)@, now_ms),
        ensures
            ids_differ(old(self)@),
            final(self)@ == after_claim(old(self)@, now_ms, lease_until_ms),
            match r {
                Some(item) => claimed(old(self)@, now_ms, lease_until_ms) == Some(item@),
                None => claimed(old(self)@, now_ms, lease_until_ms) is None,
            },
    {
        proof {
            use_type_invariant(&*self);
        }
        let next: Option<usize> = self.next(now_ms);
        self.recover(now_ms);
        let ghost ready = self@;
        match next {
            Some(at) => {
                proof {
                    use_type_invariant(&*self);
                    assert(ready[at as int] == old(self)@[at as int].recovered(now_ms));
                    lemma_update_keeps_ids(
                        ready,
                        at as int,
                        ready[at as int].leased(lease_until_ms),
                    );
                }
                let mut rows: Vec<QueueRow> = Vec::new();
                assert(row_views(rows@) =~= Seq::empty());
                std::mem::swap(&mut self.rows, &mut rows);
                let ghost held = rows@;
                assert(held[at as int]@ == ready[at as int]);
                rows[at].state = QueueState::Processing;
                rows[at].attempts = rows[at].attempts + 1;
                rows[at].lease_until_ms = Some(lease_until_ms);
                let item: ObservationQueueItem = rows[at].item();
                assert(row_views(rows@) =~= ready.update(
                    at as int,
                    ready[at as int].leased(lease_until_ms),
                ));
                self.rows = rows;
                Some(item)
            },
            None => None,
        }
    }

    /// Removes the observation of an id, where a worker has it.
    pub fn complete(&mut self, id: u128)
        ensures
            final(self)@ == completed(old(self)@, id),
    {
        let at: usize = self.find(id);
        if at < self.rows.len() && self.rows[at].state == QueueState::Processing {
            let ghost before = self@;
            proof {
                use_type_invariant(&*self);
            }
            let mut rows: Vec<QueueRow> = Vec::new();
            assert(row_views(rows@) =~= Seq::empty());
            std::mem::swap(&mut self.rows, &mut rows);
            rows.remove(at);
            assert(row_views(rows@) =~= before.remove(at as int));
            assert(ids_differ(before.remove(at as int))) by {
                let now = before.remove(at as int);
                assert forall|i: int, j: int| 0 <= i < j < now.len() implies (
                #[trigger] now[i]).id() != (#[trigger] now[j]).id() by {
                    let a = if i < at { i } else { i + 1 };
                    let b = if j < at { j } else { j + 1 };
                    assert(before[a].id() != before[b].id());
                }
            }
            self.rows = rows;
        }
    }

    /// Puts back the observation of an id whose processing failed, or makes it a dead letter once
    /// it was tried as often as allowed. Fails where no worker has it.
    pub fn fail(&mut self, id: u128, error: &str, retry_at_ms: i64, max_attempts: u32) -> (r: Result<
        QueueDisposition,
        ObservationError,
    >)
        ensures
            match r {
                Ok(disposition) => {
                    let at = row_at(old(self)@, id);
                    &&& processing(old(self)@, id)
                    &&& disposition == old(self)@[at].disposition(max_attempts)
                    &&& final(self)@ == old(self)@.update(
                        at,
                        old(self)@[at].failed(error@, retry_at_ms, max_attempts),
                    )
                },
                Err(refusal) => {
                    &&& !processing(old(self)@, id)
                    &&& final(self)@ == old(self)@
                    &&& refusal matches ObservationError::Storage(message) && message@
                        == "queue item is not processing"@
                },
            },
    {
        let at: usize = self.find(id);
        if at == self.rows.len() || self.rows[at].state != QueueState::Processing {
            return Err(ObservationError::Storage("queue item is not processing".to_owned()));
        }
        let ghost before = self@;
        let attempts: u32 = self.rows[at].attempts;
        let disposition: QueueDisposition = if attempts >= max_attempts && attempts >= 1 {
            QueueDisposition::DeadLetter
        } else {
            QueueDisposition::Pending
        };
        proof {
            use_type_invariant(&*self);
            lemma_update_keeps_ids(
                before,
                at as int,
                before[at as int].failed(error@, retry_at_ms, max_attempts),
            );
        }
        let mut rows: Vec<QueueRow> = Vec::new();
        assert(row_views(rows@) =~= Seq::empty());
        std::mem::swap(&mut self.rows, &mut rows);
        rows[at].state = match disposition {
            QueueDisposition::Pending => QueueState::Pending,
            QueueDisposition::DeadLetter => QueueState::DeadLetter,
        };
        rows[at].available_at_ms = retry_at_ms;
        rows[at].lease_until_ms = None;
        rows[at].last_error = Some(error.to_owned());
        assert(row_views(rows@) =~= before.update(
            at as int,
            before[at as int].failed(error@, retry_at_ms, max_attempts),
        ));
        self.rows = rows;
        Ok(disposition)
    }

    /// Queues a dead letter of the tenant anew, where the id is one.
    pub fn requeue_dead_letter(&mut self, tenant_id: &TenantId, id: u128, now_ms: i64) -> (r: bool)
        ensures
            r == dead_letter_of(old(self)@, *tenant_id, id),
            r ==> {
                let at = row_at(old(self)@, id);
                final(self)@ == old(self)@.update(
                    at,
                    RowView::fresh(old(self)@[at].observation, now_ms),
                )
            },
            !r ==> final(self)@ == old(self)@,
    {
        let at: usize = self.find(id);
        if at == self.rows.len() || self.rows[at].state != QueueState::DeadLetter
            || self.rows[at].observation.tenant_id != *tenant_id {
            return false;
        }
        let ghost before = self@;
        let ghost row = RowView::fresh(before[at as int].observation, now_ms);
        proof {
            use_type_invariant(&*self);
            lemma_update_keeps_ids(before, at as int, row);
        }
        let mut rows: Vec<QueueRow> = Vec::new();
        assert(row_views(rows@) =~= Seq::empty());
        std::mem::swap(&mut self.rows, &mut rows);
        rows[at].state = QueueState::Pending;
        rows[at].attempts = 0;
        rows[at].enqueued_at_ms = now_ms;
        rows[at].available_at_ms = now_ms;
        rows[at].lease_until_ms = None;
        rows[at].last_error = None;
        assert(row_views(rows@) =~= before.update(at as int, row));
        self.rows = rows;
        true
    }
}

/// A dead letter with the time by which it is listed.
struct DeadLetter {
    enqueued_at_ms: i64,
    item: ObservationQueueItem,
}

impl Timed for DeadLetter {
    closed spec fn time(&self) -> int {
        self.enqueued_at_ms as int
    }

    fn time_ms(&self) -> (r: i64) {
        self.enqueued_at_ms
    }
}

impl ObservationQueue {
    /// How many observations of the tenant stand where.
    pub fn stats(&self, tenant_id: &TenantId) -> (r: ObservationQueueStats)
        ensures
            r.pending == rows_of(self@, *tenant_id, QueueState::Pending).len(),
            r.processing == rows_of(self@, *tenant_id, QueueState::Processing).len(),
            r.dead_letter == rows_of(self@, *tenant_id, QueueState::DeadLetter).len(),
    {
        let ghost all = self@;
        let ghost waits = |row: RowView|
            row.observation.tenant_id == *tenant_id && row.state == QueueState::Pending;
        let ghost runs = |row: RowView|
            row.observation.tenant_id == *tenant_id && row.state == QueueState::Processing;
        let ghost dead = |row: RowView|
            row.observation.tenant_id == *tenant_id && row.state == QueueState::DeadLetter;
        proof {
            select::lemma_filter_none(all, waits);
            select::lemma_filter_none(all, runs);
            select::lemma_filter_none(all, dead);
        }
        let mut stats: ObservationQueueStats = ObservationQueueStats {
            pending: 0,
            processing: 0,
            dead_letter: 0,
        };
        let mut i: usize = 0;
        while i < self.rows.len()
            invariant
                i <= self.rows@.len(),
                all == self@,
                waits == (|row: RowView|
                    row.observation.tenant_id == *tenant_id && row.state == QueueState::Pending),
                runs == (|row: RowView|
                    row.observation.tenant_id == *tenant_id && row.state == QueueState::Processing),
                dead == (|row: RowView|
                    row.observation.tenant_id == *tenant_id && row.state == QueueState::DeadLetter),
                stats.pending <= i,
                stats.processing <= i,
                stats.dead_letter <= i,
                stats.pending == all.take(i as int).filter(waits).len(),
                stats.processing == all.take(i as int).filter(runs).len(),
                stats.dead_letter == all.take(i as int).filter(dead).len(),
            decreases self.rows@.len() - i,
        {
            proof {
                select::lemma_filter_step(all, i as int, waits);
                select::lemma_filter_step(all, i as int, runs);
                select::lemma_filter_step(all, i as int, dead);
            }
            let row: &QueueRow = &self.rows[i];
            assert(all[i as int] == row@);
            if row.observation.tenant_id == *tenant_id {
                match row.state {
                    QueueState::Pending => {
                        stats.pending += 1;
                    },
                    QueueState::Processing => {
                        stats.processing += 1;
                    },
                    QueueState::DeadLetter => {
                        stats.dead_letter += 1;
                    },
                }
            }
            i += 1;
        }
        assert(all.take(all.len() as int) =~= all);
        stats
    }

    /// The dead letters of the tenant with the times at which they were queued.
    fn collect_dead_letters(&self, tenant_id: &TenantId) -> (r: Vec<DeadLetter>)
        ensures
            r@.map_values(|letter: DeadLetter| (letter.enqueued_at_ms as int, letter.item@))
                == rows_of(self@, *tenant_id, QueueState::DeadLetter).map_values(
                |row: RowView| (row.enqueued_at_ms as int, row.item()),
            ),
    {
        let ghost all = self@;
        let ghost dead = |row: RowView|
            row.observation.tenant_id == *tenant_id && row.state == QueueState::DeadLetter;
        let ghost seen = |row: RowView| (row.enqueued_at_ms as int, row.item());
        let ghost held = |letter: DeadLetter| (letter.enqueued_at_ms as int, letter.item@);
        proof {
            select::lemma_filter_none(all, dead);
        }
        let mut found: Vec<DeadLetter> = Vec::new();
        assert(found@.map_values(held) =~= all.take(0).filter(dead).map_values(seen));
        let mut i: usize = 0;
        while i < self.rows.len()
            invariant
                i <= self.rows@.len(),
                all == self@,
                dead == (|row: RowView|
                    row.observation.tenant_id == *tenant_id && row.state == QueueState::DeadLetter),
                seen == (|row: RowView| (row.enqueued_at_ms as int, row.item())),
                held == (|letter: DeadLetter| (letter.enqueued_at_ms as int, letter.item@)),
                found@.map_values(held) == all.take(i as int).filter(dead).map_values(seen),
            decreases self.rows@.len() - i,
        {
            proof {
                select::lemma_filter_step(all, i as int, dead);
            }
            let row: &QueueRow = &self.rows[i];
            assert(all[i as int] == row@);
            if row.observation.tenant_id == *tenant_id && row.state == QueueState::DeadLetter {
                let ghost before = found@;
                let letter: DeadLetter = DeadLetter {
                    enqueued_at_ms: row.enqueued_at_ms,
                    item: row.item(),
                };
                found.push(letter);
                assert(found@.map_values(held) =~= before.map_values(held).push(held(letter)));
                assert(all.take(i + 1).filter(dead).map_values(seen) =~= all.take(i as int).filter(
                    dead,
                ).map_values(seen).push(seen(row@)));
            }
            i += 1;
        }
        assert(all.take(all.len() as int) =~= all);
        found
    }

    /// The dead letters of the tenant, the first queued first: at most as many as asked for, and
    /// at least one where there is one.
    pub fn dead_letters(&self, tenant_id: &TenantId, limit: usize) -> (r: Vec<ObservationQueueItem>)
        ensures
            item_views(r@) == items_of(letters(self@, *tenant_id, limit as int)),
    {
        let found: Vec<DeadLetter> = self.collect_dead_letters(tenant_id);
        let ghost unsorted = found@;
        let sorted: Vec<DeadLetter> = sorting::sort_by_time(found);
        let ghost rows = rows_of(self@, *tenant_id, QueueState::DeadLetter);
        let ghost row_time = |row: RowView| row.enqueued_at_ms as int;
        let ghost letter_time = |letter: DeadLetter| letter.time();
        let ghost seen = |row: RowView| (row.enqueued_at_ms as int, row.item());
        let ghost held = |letter: DeadLetter| (letter.enqueued_at_ms as int, letter.item@);
        let ghost pair_time = |pair: (int, ItemView)| pair.0;
        let ghost ordered = sorting::in_order(rows, row_time);
        proof {
            sorting::sorting_commutes_with_map(rows, seen, row_time, pair_time);
            sorting::sorting_commutes_with_map(unsorted, held, letter_time, pair_time);
            assert(sorted@.map_values(held) == ordered.map_values(seen));
            assert(sorted@.map_values(held).len() == ordered.map_values(seen).len());
        }
        let count: usize = if limit < 1 {
            1
        } else if limit > MAX_DEAD_LETTERS {
            MAX_DEAD_LETTERS
        } else {
            limit
        };
        let ghost listed = letters(self@, *tenant_id, limit as int);
        let ghost all = sorted@;
        let mut r: Vec<ObservationQueueItem> = Vec::new();
        for letter in it: sorted
            invariant
                it.seq() == all,
                all.map_values(held) == ordered.map_values(seen),
                all.len() == ordered.len(),
                seen == (|row: RowView| (row.enqueued_at_ms as int, row.item())),
                held == (|letter: DeadLetter| (letter.enqueued_at_ms as int, letter.item@)),
                count == list_limit(limit as int),
                listed == (if ordered.len() > count {
                    ordered.take(count as int)
                } else {
                    ordered
                }),
                r@.len() == if it.index() < count {
                    it.index()
                } else {
                    count as int
                },
                forall|k: int| 0 <= k < r@.len() ==> (#[trigger] r@[k])@ == listed[k].item(),
        {
            if r.len() < count {
                proof {
                    let at = it.index() as int;
                    assert(all.map_values(held)[at] == ordered.map_values(seen)[at]);
                    assert(listed[at] == ordered[at]);
                }
                r.push(letter.item);
            }
        }
        assert(item_views(r@) =~= items_of(listed));
        r
    }
}

/// Queueing queues every id.
proof fn lemma_enqueued_queues(
    rows: Seq<RowView>,
    observations: Seq<ObservationView>,
    now_ms: i64,
    i: int,
)
    requires
        ids_differ(rows),
        0 <= i < observations.len(),
    ensures
        queued(enqueued(rows, observations, now_ms), observations[i].id),
    decreases observations.len(),
{
    let front = observations.drop_last();
    let before = enqueued(rows, front, now_ms);
    let after = enqueued(rows, observations, now_ms);
    let id = observations[i].id;
    lemma_row_at(before, id);
    lemma_row_at(after, id);
    if i < front.len() {
        lemma_enqueued_queues(rows, front, now_ms, i);
        assert(front[i] == observations[i]);
        assert(after[row_at(before, id)].id() == id);
    } else if !queued(before, id) {
        assert(after[before.len() as int].id() == id);
    }
}

/// Where every id is queued, queueing changes nothing.
proof fn lemma_enqueued_nothing(
    rows: Seq<RowView>,
    observations: Seq<ObservationView>,
    now_ms: i64,
)
    requires
        forall|i: int| 0 <= i < observations.len() ==> queued(rows, (#[trigger] observations[i]).id),
    ensures
        enqueued(rows, observations, now_ms) == rows,
    decreases observations.len(),
{
    if observations.len() > 0 {
        let front = observations.drop_last();
        assert forall|i: int| 0 <= i < front.len() implies queued(rows, (#[trigger] front[i]).id) by {
            assert(front[i] == observations[i]);
        }
        lemma_enqueued_nothing(rows, front, now_ms);
        assert(queued(rows, observations[observations.len() - 1].id));
    }
}

/// Queueing the same observations again, whenever, changes nothing.
pub proof fn queueing_again_changes_nothing(
    rows: Seq<RowView>,
    observations: Seq<ObservationView>,
    now_ms: i64,
    later_ms: i64,
)
    requires
        ids_differ(rows),
    ensures
        enqueued(enqueued(rows, observations, now_ms), observations, later_ms) == enqueued(
            rows,
            observations,
            now_ms,
        ),
{
    let after = enqueued(rows, observations, now_ms);
    assert forall|i: int| 0 <= i < observations.len() implies queued(
        after,
        (#[trigger] observations[i]).id,
    ) by {
        lemma_enqueued_queues(rows, observations, now_ms, i);
    }
    lemma_enqueued_nothing(after, observations, later_ms);
}

/// A claim leaves alone what a worker holds on a lease that still runs, and what is a dead letter.
pub proof fn claims_respect_leases_and_dead_letters(
    rows: Seq<RowView>,
    now_ms: i64,
    lease_until_ms: i64,
    i: int,
)
    requires
        0 <= i < rows.len(),
        rows[i].state == QueueState::DeadLetter || (rows[i].state == QueueState::Processing
            && !rows[i].lapsed(now_ms)),
    ensures
        after_claim(rows, now_ms, lease_until_ms)[i] == rows[i],
{
    next_due_is_the_earliest(recovered(rows, now_ms), now_ms);
}

/// A claim gives out an observation exactly where one is due or its lease has run out, and then no
/// other such observation was available, or queued, earlier.
pub proof fn claims_give_out_the_earliest(rows: Seq<RowView>, now_ms: i64, lease_until_ms: i64)
    ensures
        claimed(rows, now_ms, lease_until_ms) is Some <==> exists|i: int|
            0 <= i < rows.len() && (#[trigger] rows[i]).recovered(now_ms).due(now_ms),
        claimed(rows, now_ms, lease_until_ms) is Some ==> exists|i: int|
            {
                &&& 0 <= i < rows.len()
                &&& (#[trigger] rows[i]).recovered(now_ms).due(now_ms)
                &&& claimed(rows, now_ms, lease_until_ms) == Some(
                    rows[i].recovered(now_ms).leased(lease_until_ms).item(),
                )
                &&& forall|j: int|
                    0 <= j < rows.len() && (#[trigger] rows[j]).recovered(now_ms).due(now_ms)
                        ==> !rows[j].precedes(rows[i])
            },
{
    let ready = recovered(rows, now_ms);
    next_due_is_the_earliest(ready, now_ms);
    assert forall|j: int| 0 <= j < rows.len() implies ready[j] == (#[trigger] rows[j]).recovered(
        now_ms,
    ) by {}
    match next_due(ready, now_ms) {
        Some(i) => {
            assert(rows[i].recovered(now_ms).due(now_ms));
            assert forall|j: int|
                0 <= j < rows.len() && (#[trigger] rows[j]).recovered(now_ms).due(
                    now_ms,
                ) implies !rows[j].precedes(rows[i]) by {
                assert(ready[j].due(now_ms));
                assert(!ready[j].precedes(ready[i]));
            }
        },
        None => {
            assert forall|j: int| 0 <= j < rows.len() implies !(
            #[trigger] rows[j]).recovered(now_ms).due(now_ms) by {
                assert(!ready[j].due(now_ms));
            }
        },
    }
}

/// A claim keeps the number of rows and their ids, and the claimed id is with a worker after it.
pub proof fn a_claimed_id_is_with_a_worker(rows: Seq<RowView>, now_ms: i64, lease_until_ms: i64)
    requires
        ids_differ(rows),
    ensures
        after_claim(rows, now_ms, lease_until_ms).len() == rows.len(),
        ids_differ(after_claim(rows, now_ms, lease_until_ms)),
        forall|i: int|
            0 <= i < rows.len() ==> (#[trigger] after_claim(rows, now_ms, lease_until_ms)[i]).id()
                == rows[i].id(),
        claimed(rows, now_ms, lease_until_ms) matches Some(item) ==> processing(
            after_claim(rows, now_ms, lease_until_ms),
            item.id,
        ),
{
    let ready = recovered(rows, now_ms);
    lemma_recovered_keeps_ids(rows, now_ms);
    next_due_is_the_earliest(ready, now_ms);
    match next_due(ready, now_ms) {
        Some(i) => {
            let after = after_claim(rows, now_ms, lease_until_ms);
            lemma_update_keeps_ids(ready, i, ready[i].leased(lease_until_ms));
            assert(after[i] == ready[i].leased(lease_until_ms));
            assert forall|j: int| 0 <= j < i implies (#[trigger] after[j]).id() != ready[i].id() by {
                assert(after[j].id() != after[i].id());
            }
            lemma_row_at_is(after, ready[i].id(), i);
        },
        None => {},
    }
}

/// A claimed observation that is completed is gone from the queue, and every other row is still
/// there.
pub proof fn a_completed_claim_is_gone(rows: Seq<RowView>, now_ms: i64, lease_until_ms: i64)
    requires
        ids_differ(rows),
        claimed(rows, now_ms, lease_until_ms) is Some,
    ensures
        ({
            let id = claimed(rows, now_ms, lease_until_ms)->0.id;
            let after = after_claim(rows, now_ms, lease_until_ms);
            &&& !queued(completed(after, id), id)
            &&& completed(after, id).len() == rows.len() - 1
            &&& forall|i: int|
                0 <= i < after.len() && (#[trigger] after[i]).id() != id ==> completed(
                    after,
                    id,
                ).contains(after[i])
        }),
{
    let id = claimed(rows, now_ms, lease_until_ms)->0.id;
    let after = after_claim(rows, now_ms, lease_until_ms);
    a_claimed_id_is_with_a_worker(rows, now_ms, lease_until_ms);
    lemma_row_at(after, id);
    let at = row_at(after, id);
    let rest = completed(after, id);
    assert(rest == after.remove(at));
    assert forall|j: int| 0 <= j < rest.len() implies (#[trigger] rest[j]).id() != id by {
        let k = if j < at { j } else { j + 1 };
        assert(rest[j] == after[k]);
        assert(after[k].id() != after[at].id());
    }
    lemma_row_at(rest, id);
    assert forall|i: int| 0 <= i < after.len() && (#[trigger] after[i]).id()
        != id implies rest.contains(after[i]) by {
        let k = if i < at { i } else { i - 1 };
        assert(rest[k] == after[i]);
    }
}

/// A row whose attempt fails waits for the next one while attempts are left, and is due then; once
/// it was tried as often as allowed, and at least once, it is a dead letter.
pub proof fn attempts_are_bounded(
    row: RowView,
    lease_until_ms: i64,
    error: Seq<char>,
    retry_at_ms: i64,
    max_attempts: u32,
)
    requires
        row.attempts < u32::MAX,
    ensures
        ({
            let after = row.leased(lease_until_ms).failed(error, retry_at_ms, max_attempts);
            &&& row.attempts + 1 >= max_attempts ==> after.state == QueueState::DeadLetter
            &&& row.attempts + 1 < max_attempts ==> after.due(retry_at_ms) && forall|t: i64|
                t < retry_at_ms ==> !#[trigger] after.due(t)
            &&& after.attempts == row.attempts + 1
            &&& after.observation == row.observation
            &&& after.last_error == Some(error)
        }),
{
}

/// A dead letter that is queued anew is due at once, and none of its attempts count.
pub proof fn a_replayed_letter_starts_anew(rows: Seq<RowView>, id: u128, now_ms: i64)
    requires
        ids_differ(rows),
        queued(rows, id),
    ensures
        ({
            let at = row_at(rows, id);
            let after = rows.update(at, RowView::fresh(rows[at].observation, now_ms));
            &&& row_at(after, id) == at
            &&& after[at].due(now_ms)
            &&& after[at].attempts == 0
            &&& after[at].last_error is None
            &&& after[at].observation == rows[at].observation
            &&& ids_differ(after)
        }),
{
    lemma_row_at(rows, id);
    let at = row_at(rows, id);
    let fresh = RowView::fresh(rows[at].observation, now_ms);
    lemma_update_keeps_ids(rows, at, fresh);
    assert forall|i: int| 0 <= i < at implies (#[trigger] rows.update(at, fresh)[i]).id() != id by {
        assert(rows[i].id() != id);
    }
    lemma_row_at_is(rows.update(at, fresh), id, at);
}

/// What a tenant is told of its queue does not depend on the rows of other tenants.
pub proof fn tenants_see_their_own_rows(
    rows: Seq<RowView>,
    i: int,
    row: RowView,
    tenant_id: TenantId,
    state: QueueState,
    limit: int,
)
    requires
        0 <= i < rows.len(),
        rows[i].observation.tenant_id != tenant_id,
        row.observation.tenant_id != tenant_id,
    ensures
        rows_of(rows.update(i, row), tenant_id, state) == rows_of(rows, tenant_id, state),
        letters(rows.update(i, row), tenant_id, limit) == letters(rows, tenant_id, limit),
        forall|j: int|
            0 <= j < rows_of(rows, tenant_id, state).len() ==> (#[trigger] rows_of(
                rows,
                tenant_id,
                state,
            )[j]).observation.tenant_id == tenant_id,
{
    lemma_rows_of_update(rows, i, row, tenant_id, state);
    lemma_rows_of_update(rows, i, row, tenant_id, QueueState::DeadLetter);
    select::lemma_filter_keeps(
        rows,
        |row: RowView| row.observation.tenant_id == tenant_id && row.state == state,
    );
}

/// Changing a row of another tenant changes nothing for the tenant.
proof fn lemma_rows_of_update(
    rows: Seq<RowView>,
    i: int,
    row: RowView,
    tenant_id: TenantId,
    state: QueueState,
)
    requires
        0 <= i < rows.len(),
        rows[i].observation.tenant_id != tenant_id,
        row.observation.tenant_id != tenant_id,
    ensures
        rows_of(rows.update(i, row), tenant_id, state) == rows_of(rows, tenant_id, state),
    decreases rows.len(),
{
    reveal(Seq::filter);
    let front = rows.drop_last();
    if i < front.len() {
        lemma_rows_of_update(front, i, row, tenant_id, state);
        assert(rows.update(i, row).drop_last() =~= front.update(i, row));
    } else {
        assert(rows.update(i, row).drop_last() =~= front);
    }
}

/// Each row of a tenant stands in exactly one place: the counts add up to its rows.
pub proof fn counts_add_up(rows: Seq<RowView>, tenant_id: TenantId)
    ensures
        rows_of(rows, tenant_id, QueueState::Pending).len() + rows_of(
            rows,
            tenant_id,
            QueueState::Processing,
        ).len() + rows_of(rows, tenant_id, QueueState::DeadLetter).len() == rows.filter(
            |row: RowView| row.observation.tenant_id == tenant_id,
        ).len(),
    decreases rows.len(),
{
    reveal(Seq::filter);
    if rows.len() > 0 {
        counts_add_up(rows.drop_last(), tenant_id);
    }
}

/// A list of dead letters is ordered by when they were queued, and as long as asked for unless
/// there are fewer.
pub proof fn letters_are_listed_in_order(rows: Seq<RowView>, tenant_id: TenantId, limit: int)
    ensures
        sorting::is_ordered(
            letters(rows, tenant_id, limit),
            |row: RowView| row.enqueued_at_ms as int,
        ),
        1 <= list_limit(limit) <= MAX_DEAD_LETTERS,
        letters(rows, tenant_id, limit).len() == if rows_of(
            rows,
            tenant_id,
            QueueState::DeadLetter,
        ).len() > list_limit(limit) {
            list_limit(limit)
        } else {
            rows_of(rows, tenant_id, QueueState::DeadLetter).len() as int
        },
{
    sorting::sorting_orders_and_keeps(
        rows_of(rows, tenant_id, QueueState::DeadLetter),
        |row: RowView| row.enqueued_at_ms as int,
    );
}

/// A claim gives out a row exactly where one waits, or is with a worker whose lease has run out, and
/// its time has come.
pub proof fn a_claim_gives_out_what_waits(
    queue: &mut ObservationQueue,
    now_ms: i64,
    lease_until_ms: i64,
    r: Option<ObservationQueueItem>,
)
    requires
        call_ensures(ObservationQueue::claim_next, (queue, now_ms, lease_until_ms), r),
    ensures
        ({
            let rows = old(queue)@;
            r is Some <==> exists|i: int|
                0 <= i < rows.len() && (#[trigger] rows[i]).available_at_ms <= now_ms && {
                    ||| rows[i].state == QueueState::Pending
                    ||| rows[i].state == QueueState::Processing && rows[i].lease_until_ms is Some
                        && rows[i].lease_until_ms->0 <= now_ms
                }
        }),
{
    let rows = old(queue)@;
    let ready = recovered(rows, now_ms);
    next_due_is_the_earliest(ready, now_ms);
    assert forall|j: int| 0 <= j < rows.len() implies ready[j].due(now_ms) == ((
    #[trigger] rows[j]).available_at_ms <= now_ms && {
        ||| rows[j].state == QueueState::Pending
        ||| rows[j].state == QueueState::Processing && rows[j].lease_until_ms is Some
            && rows[j].lease_until_ms->0 <= now_ms
    }) by {}
    if let Some(i) = next_due(ready, now_ms) {
        assert(rows[i].available_at_ms <= now_ms);
    }
}

/// What a claim gives out was available first; of what was available together it was queued first,
/// and of what was queued together it stands first. It shows the row, with one more attempt.
pub proof fn a_claim_gives_out_the_first(
    queue: &mut ObservationQueue,
    now_ms: i64,
    lease_until_ms: i64,
    r: Option<ObservationQueueItem>,
)
    requires
        call_ensures(ObservationQueue::claim_next, (queue, now_ms, lease_until_ms), r),
        forall|i: int|
            0 <= i < old(queue)@.len() ==> (#[trigger] old(queue)@[i]).attempts < u32::MAX,
        r is Some,
    ensures
        ({
            let rows = old(queue)@;
            exists|i: int|
                {
                    &&& 0 <= i < rows.len()
                    &&& (#[trigger] rows[i]).available_at_ms <= now_ms
                    &&& {
                        ||| rows[i].state == QueueState::Pending
                        ||| rows[i].state == QueueState::Processing && rows[i].lease_until_ms is Some
                            && rows[i].lease_until_ms->0 <= now_ms
                    }
                    &&& r->0.id == rows[i].observation.id
                    &&& r->0.observation@ == rows[i].observation
                    &&& r->0.attempts == rows[i].attempts + 1
                    &&& r->0.available_at_ms == rows[i].available_at_ms
                    &&& text_view(r->0.last_error) == rows[i].last_error
                    &&& forall|j: int|
                        0 <= j < rows.len() && j != i && (#[trigger] rows[j]).available_at_ms
                            <= now_ms && {
                            ||| rows[j].state == QueueState::Pending
                            ||| rows[j].state == QueueState::Processing
                                && rows[j].lease_until_ms is Some && rows[j].lease_until_ms->0
                                <= now_ms
                        } ==> {
                            ||| rows[i].available_at_ms < rows[j].available_at_ms
                            ||| rows[i].available_at_ms == rows[j].available_at_ms
                                && rows[i].enqueued_at_ms < rows[j].enqueued_at_ms
                            ||| rows[i].available_at_ms == rows[j].available_at_ms
                                && rows[i].enqueued_at_ms == rows[j].enqueued_at_ms && i < j
                        }
                }
        }),
{
    let rows = old(queue)@;
    let ready = recovered(rows, now_ms);
    next_due_is_the_earliest(ready, now_ms);
    let i = next_due(ready, now_ms)->0;
    assert(ready[i] == rows[i].recovered(now_ms));
    assert forall|j: int|
        0 <= j < rows.len() && j != i && (#[trigger] rows[j]).available_at_ms <= now_ms && {
            ||| rows[j].state == QueueState::Pending
            ||| rows[j].state == QueueState::Processing && rows[j].lease_until_ms is Some
                && rows[j].lease_until_ms->0 <= now_ms
        } implies {
        ||| rows[i].available_at_ms < rows[j].available_at_ms
        ||| rows[i].available_at_ms == rows[j].available_at_ms && rows[i].enqueued_at_ms
            < rows[j].enqueued_at_ms
        ||| rows[i].available_at_ms == rows[j].available_at_ms && rows[i].enqueued_at_ms
            == rows[j].enqueued_at_ms && i < j
    } by {
        assert(ready[j] == rows[j].recovered(now_ms));
        assert(ready[j].due(now_ms));
        assert(!ready[j].precedes(ready[i]));
        if j < i {
            assert(ready[i].precedes(ready[j]));
        }
    }
    assert(rows[i].attempts < u32::MAX);
    assert(r->0@ == ready[i].leased(lease_until_ms).item());
}

/// After a claim the row of the claimed id is with the worker, for one more attempt and until the
/// end of the new lease. Every other lease that has run out is taken back, and nothing else changes.
pub proof fn a_claim_changes_nothing_else(
    queue: &mut ObservationQueue,
    now_ms: i64,
    lease_until_ms: i64,
    r: Option<ObservationQueueItem>,
    j: int,
)
    requires
        call_ensures(ObservationQueue::claim_next, (queue, now_ms, lease_until_ms), r),
        forall|i: int, k: int|
            0 <= i < k < old(queue)@.len() ==> (#[trigger] old(queue)@[i]).observation.id != (
            #[trigger] old(queue)@[k]).observation.id,
        0 <= j < old(queue)@.len(),
        old(queue)@[j].attempts < u32::MAX,
    ensures
        ({
            let before = old(queue)@[j];
            let after = final(queue)@[j];
            &&& final(queue)@.len() == old(queue)@.len()
            &&& after.observation == before.observation
            &&& after.enqueued_at_ms == before.enqueued_at_ms
            &&& after.available_at_ms == before.available_at_ms
            &&& after.last_error == before.last_error
            &&& r is Some && r->0.id == before.observation.id ==> after.state
                == QueueState::Processing && after.attempts == before.attempts + 1
                && after.lease_until_ms == Some(lease_until_ms)
            &&& r is None || r->0.id != before.observation.id ==> {
                &&& after.attempts == before.attempts
                &&& before.state == QueueState::Processing && before.lease_until_ms is Some
                    && before.lease_until_ms->0 <= now_ms ==> after.state == QueueState::Pending
                    && after.lease_until_ms is None
                &&& !(before.state == QueueState::Processing && before.lease_until_ms is Some
                    && before.lease_until_ms->0 <= now_ms) ==> after.state == before.state
                    && after.lease_until_ms == before.lease_until_ms
            }
        }),
{
    let rows = old(queue)@;
    let ready = recovered(rows, now_ms);
    next_due_is_the_earliest(ready, now_ms);
    assert(ready[j] == rows[j].recovered(now_ms));
    if let Some(i) = next_due(ready, now_ms) {
        assert(ready[i] == rows[i].recovered(now_ms));
        assert(r->0.id == rows[i].observation.id);
        if i < j {
            assert(rows[i].observation.id != rows[j].observation.id);
        } else if j < i {
            assert(rows[j].observation.id != rows[i].observation.id);
        }
    }
}

/// The only row of a queue, which a worker holds on a lease, is not given out before the lease ends,
/// and is given out whenever it is asked for from then on, however late that is.
pub proof fn a_lapsed_lease_is_claimed_again(
    queue: &mut ObservationQueue,
    now_ms: i64,
    lease_until_ms: i64,
    r: Option<ObservationQueueItem>,
    ends_ms: i64,
)
    requires
        call_ensures(ObservationQueue::claim_next, (queue, now_ms, lease_until_ms), r),
        old(queue)@.len() == 1,
        old(queue)@[0].state == QueueState::Processing,
        old(queue)@[0].lease_until_ms == Some(ends_ms),
        old(queue)@[0].available_at_ms <= ends_ms,
        old(queue)@[0].attempts < u32::MAX,
    ensures
        now_ms < ends_ms ==> r is None && final(queue)@ == old(queue)@,
        now_ms >= ends_ms ==> {
            &&& r is Some
            &&& r->0.id == old(queue)@[0].observation.id
            &&& r->0.observation@ == old(queue)@[0].observation
            &&& r->0.attempts == old(queue)@[0].attempts + 1
            &&& final(queue)@[0].lease_until_ms == Some(lease_until_ms)
        },
{
    let rows = old(queue)@;
    a_claim_gives_out_what_waits(queue, now_ms, lease_until_ms, r);
    a_claim_changes_nothing_else(queue, now_ms, lease_until_ms, r, 0);
    if r is Some {
        a_claim_gives_out_the_first(queue, now_ms, lease_until_ms, r);
    } else {
        assert(final(queue)@ =~= rows);
    }
    if now_ms >= ends_ms {
        assert(rows[0].available_at_ms <= now_ms);
    }
}

/// What is claimed can be claimed once: a second claim before the lease ends gives out another row,
/// or nothing.
pub proof fn a_running_lease_is_not_given_out_again(
    rows: Seq<RowView>,
    now_ms: i64,
    until_ms: i64,
    later_ms: i64,
    other_until_ms: i64,
)
    requires
        ids_differ(rows),
        claimed(rows, now_ms, until_ms) is Some,
        later_ms < until_ms,
        claimed(after_claim(rows, now_ms, until_ms), later_ms, other_until_ms) is Some,
    ensures
        claimed(rows, now_ms, until_ms)->0.id != claimed(
            after_claim(rows, now_ms, until_ms),
            later_ms,
            other_until_ms,
        )->0.id,
{
    let after = after_claim(rows, now_ms, until_ms);
    let ready = recovered(rows, now_ms);
    let again = recovered(after, later_ms);
    a_claimed_id_is_with_a_worker(rows, now_ms, until_ms);
    next_due_is_the_earliest(ready, now_ms);
    next_due_is_the_earliest(again, later_ms);
    let i = next_due(ready, now_ms)->0;
    let j = next_due(again, later_ms)->0;
    assert(after[i].state == QueueState::Processing && after[i].lease_until_ms == Some(until_ms));
    assert(again[i] == after[i]);
    assert(again[j].due(later_ms));
    assert(i != j);
    if i < j {
        assert(after[i].id() != after[j].id());
    } else {
        assert(after[j].id() != after[i].id());
    }
}

/// Where the id of an observation is queued already, queueing it changes nothing; else it stands
/// behind the others, waits from now on, and was never tried.
pub proof fn one_observation_is_queued_once(
    rows: Seq<RowView>,
    observation: ObservationView,
    now_ms: i64,
)
    ensures
        (exists|i: int| 0 <= i < rows.len() && (#[trigger] rows[i]).observation.id
            == observation.id) ==> enqueued(rows, seq![observation], now_ms) == rows,
        (forall|i: int| 0 <= i < rows.len() ==> (#[trigger] rows[i]).observation.id
            != observation.id) ==> enqueued(rows, seq![observation], now_ms) == rows.push(
            RowView {
                observation,
                state: QueueState::Pending,
                attempts: 0,
                enqueued_at_ms: now_ms,
                available_at_ms: now_ms,
                lease_until_ms: None,
                last_error: None,
            },
        ),
        enqueued(rows, Seq::empty(), now_ms) == rows,
{
    reveal_with_fuel(enqueued, 2);
    lemma_row_at(rows, observation.id);
    assert(seq![observation].drop_last() =~= Seq::empty());
}

/// Queueing a batch queues its observations one after the other: first those of its front, then
/// the rest.
pub proof fn a_batch_is_queued_in_order(
    rows: Seq<RowView>,
    front: Seq<ObservationView>,
    rest: Seq<ObservationView>,
    now_ms: i64,
)
    ensures
        enqueued(rows, front + rest, now_ms) == enqueued(
            enqueued(rows, front, now_ms),
            rest,
            now_ms,
        ),
    decreases rest.len(),
{
    if rest.len() == 0 {
        assert(front + rest =~= front);
    } else {
        a_batch_is_queued_in_order(rows, front, rest.drop_last(), now_ms);
        assert((front + rest).drop_last() =~= front + rest.drop_last());
        assert((front + rest).last() == rest.last());
    }
}

/// The first observation with a flaw decides: where there is none before it, it is the flaw of all;
/// and there is none where no observation has one.
pub proof fn the_first_flaw_decides(observations: Seq<ObservationView>, i: int)
    requires
        0 <= i <= observations.len(),
        forall|k: int| 0 <= k < i ==> (#[trigger] observations[k]).flaw() is None,
    ensures
        i == observations.len() ==> first_flaw(observations) is None,
        i < observations.len() && observations[i].flaw() is Some ==> first_flaw(observations)
            == observations[i].flaw(),
    decreases observations.len(),
{
    if observations.len() > 0 {
        let front = observations.drop_last();
        if i < observations.len() {
            assert forall|k: int| 0 <= k < i implies (#[trigger] front[k]).flaw() is None by {
                assert(front[k] == observations[k]);
            }
            the_first_flaw_decides(front, i);
            if i < front.len() {
                assert(front[i] == observations[i]);
            }
        } else {
            assert forall|k: int| 0 <= k < front.len() implies (
            #[trigger] front[k]).flaw() is None by {
                assert(front[k] == observations[k]);
            }
            the_first_flaw_decides(front, front.len() as int);
            assert(observations[observations.len() - 1].flaw() is None);
        }
    }
}

/// A batch is queued where every name holds something but white space and no duration is longer
/// than a day. Else nothing of it is queued, and the first observation that is at fault is blamed:
/// for its name before its duration.
pub proof fn a_batch_is_queued_whole_or_not_at_all(
    queue: &mut ObservationQueue,
    observations: &[Observation],
    now_ms: i64,
    r: Result<usize, ObservationError>,
    i: int,
)
    requires
        call_ensures(ObservationQueue::enqueue_batch, (queue, observations, now_ms), r),
        0 <= i <= observations@.len(),
        forall|k: int|
            0 <= k < i ==> (#[trigger] observations@[k]).duration_ms <= 86_400_000 && exists|c: int|
                0 <= c < observations@[k].name@.len() && !text::white(
                    #[trigger] observations@[k].name@[c],
                ),
    ensures
        r is Err ==> final(queue)@ == old(queue)@,
        i == observations@.len() ==> r is Ok,
        i < observations@.len() && (forall|c: int|
            0 <= c < observations@[i].name@.len() ==> text::white(
                #[trigger] observations@[i].name@[c],
            )) ==> r == Err::<usize, ObservationError>(ObservationError::EmptyName),
        i < observations@.len() && observations@[i].duration_ms > 86_400_000 && (exists|c: int|
            0 <= c < observations@[i].name@.len() && !text::white(
                #[trigger] observations@[i].name@[c],
            )) ==> r == Err::<usize, ObservationError>(ObservationError::DurationTooLarge),
{
    let views = observation::observation_views(observations@);
    assert forall|k: int| 0 <= k < i implies (#[trigger] views[k]).flaw() is None by {
        assert(views[k] == observations@[k]@);
        let c = choose|c: int|
            0 <= c < observations@[k].name@.len() && !text::white(
                #[trigger] observations@[k].name@[c],
            );
        assert(!text::white(views[k].name[c]));
    }
    the_first_flaw_decides(views, i);
    if i < observations@.len() {
        assert(views[i] == observations@[i]@);
        if text::blank(observations@[i].name@) {
            assert(views[i].flaw() == Some(ObservationError::EmptyName));
        } else if observations@[i].duration_ms > 86_400_000 {
            assert(views[i].flaw() == Some(ObservationError::DurationTooLarge));
        }
        if exists|c: int|
            0 <= c < observations@[i].name@.len() && !text::white(
                #[trigger] observations@[i].name@[c],
            ) {
            let c = choose|c: int|
                0 <= c < observations@[i].name@.len() && !text::white(
                    #[trigger] observations@[i].name@[c],
                );
            assert(!text::blank(observations@[i].name@));
        }
    }
}

/// Once a batch is queued every id of it is queued, and no id twice. What was queued stays in front
/// as it was, and each row that is added is counted.
pub proof fn a_queued_batch_is_in_the_queue(
    queue: &mut ObservationQueue,
    observations: &[Observation],
    now_ms: i64,
    r: Result<usize, ObservationError>,
    i: int,
)
    requires
        call_ensures(ObservationQueue::enqueue_batch, (queue, observations, now_ms), r),
        r is Ok,
        forall|i: int, j: int|
            0 <= i < j < old(queue)@.len() ==> (#[trigger] old(queue)@[i]).observation.id != (
            #[trigger] old(queue)@[j]).observation.id,
    ensures
        final(queue)@.len() == old(queue)@.len() + r->Ok_0,
        0 <= i < old(queue)@.len() ==> final(queue)@[i] == old(queue)@[i],
        0 <= i < observations@.len() ==> exists|j: int|
            0 <= j < final(queue)@.len() && (#[trigger] final(queue)@[j]).observation.id
                == observations@[i].id,
        forall|i: int, j: int|
            0 <= i < j < final(queue)@.len() ==> (#[trigger] final(queue)@[i]).observation.id != (
            #[trigger] final(queue)@[j]).observation.id,
{
    let views = observation::observation_views(observations@);
    let rows = old(queue)@;
    let after = final(queue)@;
    assert(ids_differ(rows));
    queueing_keeps_what_is_there(rows, views, now_ms);
    if 0 <= i < rows.len() {
        assert(after.subrange(0, rows.len() as int)[i] == rows[i]);
    }
    if 0 <= i < observations@.len() {
        lemma_enqueued_queues(rows, views, now_ms, i);
        lemma_row_at(after, views[i].id);
        assert(after[row_at(after, views[i].id)].id() == views[i].id);
    }
    assert forall|i: int, j: int| 0 <= i < j < after.len() implies (
    #[trigger] after[i]).observation.id != (#[trigger] after[j]).observation.id by {
        assert(after[i].id() != after[j].id());
    }
}

/// Each row that a batch adds is one of its observations, which waits from now on and was never
/// tried.
pub proof fn added_rows_wait_from_now_on(
    queue: &mut ObservationQueue,
    observations: &[Observation],
    now_ms: i64,
    r: Result<usize, ObservationError>,
    j: int,
)
    requires
        call_ensures(ObservationQueue::enqueue_batch, (queue, observations, now_ms), r),
        r is Ok,
        old(queue)@.len() <= j < final(queue)@.len(),
    ensures
        ({
            let row = final(queue)@[j];
            &&& row.state == QueueState::Pending
            &&& row.attempts == 0
            &&& row.enqueued_at_ms == now_ms
            &&& row.available_at_ms == now_ms
            &&& row.lease_until_ms is None
            &&& row.last_error is None
            &&& exists|i: int|
                0 <= i < observations@.len() && row.observation == (#[trigger] observations@[i])@
        }),
{
    let views = observation::observation_views(observations@);
    let row = final(queue)@[j];
    lemma_new_rows(old(queue)@, views, now_ms);
    assert(views.contains(row.observation));
    let i = choose|i: int| 0 <= i < views.len() && views[i] == row.observation;
    assert(observations@[i]@ == row.observation);
}

/// Rows that were added are new.
proof fn lemma_new_rows(rows: Seq<RowView>, observations: Seq<ObservationView>, now_ms: i64)
    ensures
        forall|j: int|
            rows.len() <= j < enqueued(rows, observations, now_ms).len() ==> {
                let row = #[trigger] enqueued(rows, observations, now_ms)[j];
                row == RowView::fresh(row.observation, now_ms) && observations.contains(
                    row.observation,
                )
            },
    decreases observations.len(),
{
    if observations.len() > 0 {
        let front = observations.drop_last();
        let before = enqueued(rows, front, now_ms);
        let after = enqueued(rows, observations, now_ms);
        lemma_new_rows(rows, front, now_ms);
        assert forall|j: int| rows.len() <= j < after.len() implies {
            let row = #[trigger] after[j];
            row == RowView::fresh(row.observation, now_ms) && observations.contains(row.observation)
        } by {
            if j < before.len() {
                assert(after[j] == before[j]);
                assert(front.contains(before[j].observation));
                let i = choose|i: int| 0 <= i < front.len() && front[i] == before[j].observation;
                assert(observations[i] == after[j].observation);
            } else {
                assert(observations[observations.len() - 1] == after[j].observation);
            }
        }
    }
}

/// Completing an id removes its row where a worker has it, and leaves every other row where it was;
/// a row that no worker has stays.
pub proof fn completing_removes_what_a_worker_has(
    queue: &mut ObservationQueue,
    id: u128,
    at: int,
)
    requires
        call_ensures(ObservationQueue::complete, (queue, id), ()),
        forall|i: int, j: int|
            0 <= i < j < old(queue)@.len() ==> (#[trigger] old(queue)@[i]).observation.id != (
            #[trigger] old(queue)@[j]).observation.id,
    ensures
        (forall|i: int| 0 <= i < old(queue)@.len() ==> (#[trigger] old(queue)@[i]).observation.id
            != id) ==> final(queue)@ == old(queue)@,
        0 <= at < old(queue)@.len() && old(queue)@[at].observation.id == id ==> {
            &&& old(queue)@[at].state == QueueState::Processing ==> final(queue)@
                == old(queue)@.take(at) + old(queue)@.skip(at + 1)
            &&& old(queue)@[at].state != QueueState::Processing ==> final(queue)@ == old(queue)@
        },
{
    let rows = old(queue)@;
    lemma_row_at(rows, id);
    if 0 <= at < rows.len() && rows[at].observation.id == id {
        lemma_row_at_is(rows, id, at);
        assert(rows.remove(at) =~= rows.take(at) + rows.skip(at + 1));
    }
}

/// A failure is reported for an id that a worker has, and refused for any other, which changes
/// nothing. The row is a dead letter once it was tried as often as allowed, and always tried once;
/// before that it waits until the time of the retry. The lease ends, the error is noted, and nothing
/// else changes.
pub proof fn a_failure_ends_the_attempt(
    queue: &mut ObservationQueue,
    id: u128,
    error: &str,
    retry_at_ms: i64,
    max_attempts: u32,
    r: Result<QueueDisposition, ObservationError>,
)
    requires
        call_ensures(
            ObservationQueue::fail,
            (queue, id, error, retry_at_ms, max_attempts),
            r,
        ),
        forall|i: int, j: int|
            0 <= i < j < old(queue)@.len() ==> (#[trigger] old(queue)@[i]).observation.id != (
            #[trigger] old(queue)@[j]).observation.id,
    ensures
        r is Ok <==> exists|i: int|
            0 <= i < old(queue)@.len() && (#[trigger] old(queue)@[i]).observation.id == id
                && old(queue)@[i].state == QueueState::Processing,
        r is Err ==> final(queue)@ == old(queue)@ && r->Err_0 is Storage && r->Err_0->Storage_0@
            == "queue item is not processing"@,
        r is Ok ==> final(queue)@.len() == old(queue)@.len(),
        forall|i: int|
            r is Ok && 0 <= i < old(queue)@.len() ==> if (#[trigger] old(queue)@[i]).observation.id
                == id {
                let dead = old(queue)@[i].attempts >= 1 && old(queue)@[i].attempts >= max_attempts;
                &&& dead ==> r->Ok_0 == QueueDisposition::DeadLetter && final(queue)@[i].state
                    == QueueState::DeadLetter
                &&& !dead ==> r->Ok_0 == QueueDisposition::Pending && final(queue)@[i].state
                    == QueueState::Pending
                &&& final(queue)@[i].available_at_ms == retry_at_ms
                &&& final(queue)@[i].lease_until_ms is None
                &&& final(queue)@[i].last_error == Some(error@)
                &&& final(queue)@[i].observation == old(queue)@[i].observation
                &&& final(queue)@[i].attempts == old(queue)@[i].attempts
                &&& final(queue)@[i].enqueued_at_ms == old(queue)@[i].enqueued_at_ms
            } else {
                final(queue)@[i] == old(queue)@[i]
            },
{
    let rows = old(queue)@;
    lemma_row_at(rows, id);
    let at = row_at(rows, id);
    assert forall|i: int| 0 <= i < rows.len() && (#[trigger] rows[i]).observation.id
        == id implies i == at by {
        lemma_row_at_is(rows, id, i);
    }
    if processing(rows, id) {
        assert(rows[at].observation.id == id);
    }
}

/// A dead letter is queued anew for its own tenant alone: it waits from now on as if it had never
/// been tried, and nothing else changes. Where the id is no dead letter of the tenant, nothing
/// changes at all.
pub proof fn a_dead_letter_is_replayed_for_its_tenant(
    queue: &mut ObservationQueue,
    tenant_id: &TenantId,
    id: u128,
    now_ms: i64,
    r: bool,
)
    requires
        call_ensures(ObservationQueue::requeue_dead_letter, (queue, tenant_id, id, now_ms), r),
        forall|i: int, j: int|
            0 <= i < j < old(queue)@.len() ==> (#[trigger] old(queue)@[i]).observation.id != (
            #[trigger] old(queue)@[j]).observation.id,
    ensures
        r <==> exists|i: int|
            0 <= i < old(queue)@.len() && (#[trigger] old(queue)@[i]).observation.id == id
                && old(queue)@[i].state == QueueState::DeadLetter
                && old(queue)@[i].observation.tenant_id == *tenant_id,
        !r ==> final(queue)@ == old(queue)@,
        r ==> final(queue)@.len() == old(queue)@.len(),
        forall|i: int|
            r && 0 <= i < old(queue)@.len() ==> if (#[trigger] old(queue)@[i]).observation.id
                == id {
                &&& final(queue)@[i].observation == old(queue)@[i].observation
                &&& final(queue)@[i].state == QueueState::Pending
                &&& final(queue)@[i].attempts == 0
                &&& final(queue)@[i].enqueued_at_ms == now_ms
                &&& final(queue)@[i].available_at_ms == now_ms
                &&& final(queue)@[i].lease_until_ms is None
                &&& final(queue)@[i].last_error is None
            } else {
                final(queue)@[i] == old(queue)@[i]
            },
{
    let rows = old(queue)@;
    lemma_row_at(rows, id);
    let at = row_at(rows, id);
    assert forall|i: int| 0 <= i < rows.len() && (#[trigger] rows[i]).observation.id
        == id implies i == at by {
        lemma_row_at_is(rows, id, i);
    }
    if dead_letter_of(rows, *tenant_id, id) {
        assert(rows[at].observation.id == id);
    }
}

/// The counts of a tenant are the numbers of its rows that wait, that a worker has, and that are
/// dead letters.
pub proof fn counts_are_of_the_tenant(
    queue: &ObservationQueue,
    tenant_id: &TenantId,
    r: ObservationQueueStats,
)
    requires
        call_ensures(ObservationQueue::stats, (queue, tenant_id), r),
    ensures
        r.pending == queue@.filter(
            |row: RowView|
                row.observation.tenant_id == *tenant_id && row.state == QueueState::Pending,
        ).len(),
        r.processing == queue@.filter(
            |row: RowView|
                row.observation.tenant_id == *tenant_id && row.state == QueueState::Processing,
        ).len(),
        r.dead_letter == queue@.filter(
            |row: RowView|
                row.observation.tenant_id == *tenant_id && row.state == QueueState::DeadLetter,
        ).len(),
{
}

/// A list of dead letters shows those of the tenant, the first queued first, each with its id, its
/// observation, its attempts, its time and its error: as many as asked for, but no fewer than one
/// and no more than a thousand, unless there are fewer.
pub proof fn a_list_shows_the_first_dead_letters(
    queue: &ObservationQueue,
    tenant_id: &TenantId,
    limit: usize,
    r: Vec<ObservationQueueItem>,
)
    requires
        call_ensures(ObservationQueue::dead_letters, (queue, tenant_id, limit), r),
    ensures
        ({
            let all = sorting::in_order(
                queue@.filter(
                    |row: RowView|
                        row.observation.tenant_id == *tenant_id && row.state
                            == QueueState::DeadLetter,
                ),
                |row: RowView| row.enqueued_at_ms as int,
            );
            &&& r@.len() <= all.len()
            &&& limit == 0 && all.len() >= 1 ==> r@.len() == 1
            &&& 1 <= limit <= 1_000 && all.len() >= limit ==> r@.len() == limit
            &&& limit >= 1_000 && all.len() >= 1_000 ==> r@.len() == 1_000
            &&& all.len() <= limit && all.len() <= 1_000 ==> r@.len() == all.len()
            &&& forall|k: int|
                0 <= k < r@.len() ==> {
                    &&& (#[trigger] r@[k]).id == all[k].observation.id
                    &&& r@[k].observation@ == all[k].observation
                    &&& r@[k].attempts == all[k].attempts
                    &&& r@[k].available_at_ms == all[k].available_at_ms
                    &&& text_view(r@[k].last_error) == all[k].last_error
                }
        }),
{
    let shown = letters(queue@, *tenant_id, limit as int);
    assert(item_views(r@).len() == r@.len());
    assert(items_of(shown).len() == shown.len());
    assert forall|k: int| 0 <= k < r@.len() implies (#[trigger] r@[k])@ == shown[k].item() by {
        assert(item_views(r@)[k] == r@[k]@);
        assert(items_of(shown)[k] == shown[k].item());
    }
}

/// A queue is made empty, or of rows of which no two have one id; rows with one id twice make none.
/// It shows the rows that it has.
pub proof fn a_queue_is_made_of_different_rows(
    fresh: ObservationQueue,
    rows: Vec<QueueRow>,
    r: Option<ObservationQueue>,
    queue: &ObservationQueue,
    shown: &Vec<QueueRow>,
)
    requires
        call_ensures(ObservationQueue::new, (), fresh),
        call_ensures(ObservationQueue::from_rows, (rows,), r),
        call_ensures(ObservationQueue::rows, (queue,), shown),
    ensures
        fresh@.len() == 0,
        r is Some <==> forall|i: int, j: int|
            0 <= i < j < rows@.len() ==> (#[trigger] rows@[i]).observation.id != (
            #[trigger] rows@[j]).observation.id,
        r is Some ==> r->0@.len() == rows@.len() && forall|i: int|
            0 <= i < rows@.len() ==> (#[trigger] rows@[i])@ == r->0@[i],
        shown@.len() == queue@.len(),
        forall|i: int| 0 <= i < shown@.len() ==> (#[trigger] shown@[i])@ == queue@[i],
{
    let views = row_views(rows@);
    assert(views.len() == rows@.len());
    assert forall|i: int| 0 <= i < rows@.len() implies (#[trigger] rows@[i])@ == views[i] by {}
    if ids_differ(views) {
        assert forall|i: int, j: int| 0 <= i < j < rows@.len() implies (
        #[trigger] rows@[i]).observation.id != (#[trigger] rows@[j]).observation.id by {
            assert(views[i].id() != views[j].id());
        }
    } else {
        let (i, j) = choose|i: int, j: int|
            0 <= i < j < views.len() && (#[trigger] views[i]).id() == (#[trigger] views[j]).id();
        assert(rows@[i].observation.id == rows@[j].observation.id);
    }
    assert(row_views(shown@).len() == shown@.len());
    assert forall|i: int| 0 <= i < shown@.len() implies (#[trigger] shown@[i])@ == queue@[i] by {
        assert(row_views(shown@)[i] == shown@[i]@);
    }
}

/// A claim can be counted wherever no row was tried as often as can be counted. New counts are zero.
pub proof fn claims_can_be_counted(
    queue: &ObservationQueue,
    now_ms: i64,
    r: bool,
    stats: ObservationQueueStats,
)
    requires
        call_ensures(ObservationQueue::can_claim, (queue, now_ms), r),
        forall|i: int| 0 <= i < queue@.len() ==> (#[trigger] queue@[i]).attempts < u32::MAX,
        call_ensures(ObservationQueueStats::default, (), stats),
    ensures
        r,
        claimable(queue@, now_ms),
        stats.pending == 0 && stats.processing == 0 && stats.dead_letter == 0,
{
    let ready = recovered(queue@, now_ms);
    next_due_is_the_earliest(ready, now_ms);
    if let Some(i) = next_due(ready, now_ms) {
        assert(ready[i] == queue@[i].recovered(now_ms));
    }
}

/// Observations are checked as each of them is: all of them pass, or the first that does not is
/// reported.
pub proof fn all_are_checked_in_order(
    observations: &[Observation],
    r: Result<(), ObservationError>,
    i: int,
    one: Result<(), ObservationError>,
)
    requires
        call_ensures(check_all, (observations,), r),
        0 <= i <= observations@.len(),
        forall|k: int| 0 <= k < i ==> (#[trigger] observations@[k])@.flaw() is None,
        i < observations@.len() ==> call_ensures(
            Observation::validate,
            (&observations@[i],),
            one,
        ),
    ensures
        i == observations@.len() ==> r is Ok,
        i < observations@.len() && one is Err ==> r is Err && r->Err_0 == one->Err_0,
{
    let views = observation::observation_views(observations@);
    assert forall|k: int| 0 <= k < i implies (#[trigger] views[k]).flaw() is None by {
        assert(views[k] == observations@[k]@);
    }
    the_first_flaw_decides(views, i);
    if i < observations@.len() {
        assert(views[i] == observations@[i]@);
    }
}

} // verus!
