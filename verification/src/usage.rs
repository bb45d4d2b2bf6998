//! The usage ledger and the monthly quote.
use crate::identity;
use crate::observation::{ObservationError, TenantId};
use crate::ordered;
use crate::ordered::{Key, OrderedMap, Relation};
use crate::text;
use vstd::prelude::*;
use vstd::string::StringExecFns;

verus! {

/// What is counted. The variants stand in the order in which a ledger lists them.
#[derive(Debug, Clone, Copy, PartialEq, Eq, PartialOrd, Ord, Structural)]
pub enum UsageKind {
    Observation,
    AgentRun,
    ToolCall,
    ModelToken,
}

/// The number of kinds.
pub const USAGE_KINDS: usize = 4;

impl UsageKind {
    /// The kind at a position of the order.
    pub open spec fn nth(i: int) -> UsageKind {
        if i == 0 {
            UsageKind::Observation
        } else if i == 1 {
            UsageKind::AgentRun
        } else if i == 2 {
            UsageKind::ToolCall
        } else {
            UsageKind::ModelToken
        }
    }

    /// The position of the kind in the order.
    pub open spec fn rank(self) -> int {
        match self {
            UsageKind::Observation => 0,
            UsageKind::AgentRun => 1,
            UsageKind::ToolCall => 2,
            UsageKind::ModelToken => 3,
        }
    }

    /// The kind at a position of the order.
    fn at(i: usize) -> (r: UsageKind)
        requires
            i < USAGE_KINDS,
        ensures
            r == Self::nth(i as int),
    {
        if i == 0 {
            UsageKind::Observation
        } else if i == 1 {
            UsageKind::AgentRun
        } else if i == 2 {
            UsageKind::ToolCall
        } else {
            UsageKind::ModelToken
        }
    }

    /// The position of the kind in the order.
    fn position(self) -> (r: u8)
        ensures
            r == self.rank(),
    {
        match self {
            UsageKind::Observation => 0,
            UsageKind::AgentRun => 1,
            UsageKind::ToolCall => 2,
            UsageKind::ModelToken => 3,
        }
    }

    /// The name under which a kind is stored.
    pub open spec fn named(self) -> Seq<char> {
        match self {
            UsageKind::Observation => "Observation"@,
            UsageKind::AgentRun => "AgentRun"@,
            UsageKind::ToolCall => "ToolCall"@,
            UsageKind::ModelToken => "ModelToken"@,
        }
    }

    /// The name under which a kind is stored.
    pub fn name(self) -> (r: &'static str)
        ensures
            r@ == self.named(),
    {
        match self {
            UsageKind::Observation => "Observation",
            UsageKind::AgentRun => "AgentRun",
            UsageKind::ToolCall => "ToolCall",
            UsageKind::ModelToken => "ModelToken",
        }
    }

    /// The kind of a stored name.
    pub open spec fn of_name(name: Seq<char>) -> Option<UsageKind> {
        if name == "Observation"@ {
            Some(UsageKind::Observation)
        } else if name == "AgentRun"@ {
            Some(UsageKind::AgentRun)
        } else if name == "ToolCall"@ {
            Some(UsageKind::ToolCall)
        } else if name == "ModelToken"@ {
            Some(UsageKind::ModelToken)
        } else {
            None
        }
    }

    /// The kind of a stored name.
    pub fn from_name(name: &str) -> (r: Option<UsageKind>)
        ensures
            r == Self::of_name(name@),
    {
        if text::same(name, "Observation") {
            Some(UsageKind::Observation)
        } else if text::same(name, "AgentRun") {
            Some(UsageKind::AgentRun)
        } else if text::same(name, "ToolCall") {
            Some(UsageKind::ToolCall)
        } else if text::same(name, "ModelToken") {
            Some(UsageKind::ModelToken)
        } else {
            None
        }
    }
}

/// Reading the stored name of a kind gives the kind back.
pub proof fn kind_names_round_trip(kind: UsageKind)
    ensures
        UsageKind::of_name(kind.named()) == Some(kind),
{
    reveal_strlit("Observation");
    reveal_strlit("AgentRun");
    reveal_strlit("ToolCall");
    reveal_strlit("ModelToken");
    assert("Observation"@.len() == 11);
    assert("AgentRun"@[0] == 'A');
    assert("ToolCall"@[0] == 'T');
    assert("ModelToken"@[0] == 'M');
}

/// An amount that a tenant used in a period.
#[derive(Debug, Clone, PartialEq, Eq)]
pub struct UsageEntry {
    pub tenant_id: TenantId,
    pub period: String,
    pub kind: UsageKind,
    pub quantity: u64,
}

/// The value of a usage entry.
#[verifier::ext_equal]
pub struct UsageEntryView {
    pub tenant_id: TenantId,
    pub period: Seq<char>,
    pub kind: UsageKind,
    pub quantity: u64,
}

impl View for UsageEntry {
    type V = UsageEntryView;

    open spec fn view(&self) -> UsageEntryView {
        UsageEntryView {
            tenant_id: self.tenant_id,
            period: self.period@,
            kind: self.kind,
            quantity: self.quantity,
        }
    }
}

/// The values of usage entries.
pub open spec fn entry_views(entries: Seq<UsageEntry>) -> Seq<UsageEntryView> {
    Seq::new(entries.len(), |i: int| entries[i]@)
}

/// Whose use of what, and when.
#[derive(Debug, PartialEq, Eq)]
pub struct UsageKey {
    tenant_id: TenantId,
    period: String,
    kind: UsageKind,
}

/// The value of a usage key: the tenant, the period and the kind.
pub type UsageKeyView = (TenantId, Seq<char>, UsageKind);

impl View for UsageKey {
    type V = UsageKeyView;

    closed spec fn view(&self) -> UsageKeyView {
        (self.tenant_id, self.period@, self.kind)
    }
}

impl Key for UsageKey {
    /// By tenant, then by period, then by kind.
    open spec fn before(a: UsageKeyView, b: UsageKeyView) -> bool {
        ||| a.0.0 < b.0.0
        ||| a.0 == b.0 && ordered::text_before(a.1, b.1)
        ||| a.0 == b.0 && a.1 == b.1 && a.2.rank() < b.2.rank()
    }

    proof fn irreflexive(a: UsageKeyView) {
        ordered::text_order_is_irreflexive(a.1);
    }

    proof fn transitive(a: UsageKeyView, b: UsageKeyView, c: UsageKeyView) {
        if a.0 == b.0 && b.0 == c.0 && ordered::text_before(a.1, b.1) && ordered::text_before(
            b.1,
            c.1,
        ) {
            ordered::text_order_is_transitive(a.1, b.1, c.1);
        }
    }

    fn relation(&self, other: &Self) -> (r: Relation) {
        if self.tenant_id.0 < other.tenant_id.0 {
            Relation::Before
        } else if self.tenant_id.0 > other.tenant_id.0 {
            Relation::Behind
        } else {
            match ordered::text_relation(self.period.as_str(), other.period.as_str()) {
                Relation::Before => Relation::Before,
                Relation::Behind => Relation::Behind,
                Relation::Same => if self.kind.position() < other.kind.position() {
                    Relation::Before
                } else if self.kind.position() > other.kind.position() {
                    Relation::Behind
                } else {
                    Relation::Same
                },
            }
        }
    }
}

/// The amounts of a ledger.
pub type Amounts = Map<UsageKeyView, u64>;

/// The amount that a ledger has for a key; zero where nothing was recorded.
pub open spec fn amount(amounts: Amounts, key: UsageKeyView) -> u64 {
    if amounts.contains_key(key) {
        amounts[key]
    } else {
        0
    }
}

impl UsageEntryView {
    /// What the entry is recorded under.
    pub open spec fn key(self) -> UsageKeyView {
        (self.tenant_id, self.period, self.kind)
    }

    /// The entry can be recorded: the sum fits.
    pub open spec fn fits(self, amounts: Amounts) -> bool {
        amount(amounts, self.key()) + self.quantity <= u64::MAX
    }

    /// The amounts with the entry recorded.
    pub open spec fn recorded(self, amounts: Amounts) -> Amounts {
        amounts.insert(self.key(), (amount(amounts, self.key()) + self.quantity) as u64)
    }
}

/// The amounts after the entries of a sequence, in order; nothing where a sum does not fit.
pub open spec fn summed(entries: Seq<UsageEntryView>) -> Option<Amounts>
    decreases entries.len(),
{
    if entries.len() == 0 {
        Some(Map::empty())
    } else {
        match summed(entries.drop_last()) {
            Some(before) if entries.last().fits(before) => Some(entries.last().recorded(before)),
            _ => None,
        }
    }
}

/// The entries of a tenant and a period among the first `n` kinds, in the order of the kinds.
pub open spec fn listed(
    amounts: Amounts,
    tenant_id: TenantId,
    period: Seq<char>,
    n: nat,
) -> Seq<UsageEntryView>
    decreases n,
{
    if n == 0 {
        Seq::empty()
    } else {
        let before = listed(amounts, tenant_id, period, (n - 1) as nat);
        let kind = UsageKind::nth(n - 1);
        if amounts.contains_key((tenant_id, period, kind)) {
            before.push(
                UsageEntryView {
                    tenant_id,
                    period,
                    kind,
                    quantity: amounts[(tenant_id, period, kind)],
                },
            )
        } else {
            before
        }
    }
}

/// The amounts that tenants used, by period and kind.
#[derive(Debug, PartialEq, Eq)]
pub struct UsageLedger {
    entries: OrderedMap<UsageKey, u64>,
}

impl View for UsageLedger {
    type V = Amounts;

    closed spec fn view(&self) -> Amounts {
        self.entries@
    }
}

impl Clone for UsageLedger {
    fn clone(&self) -> (r: Self)
        ensures
            r@ == self@,
    {
        let mut entries: OrderedMap<UsageKey, u64> = OrderedMap::new();
        let n: usize = self.entries.len();
        let mut i: usize = 0;
        while i < n
            invariant
                i <= n == self.entries.keys().len(),
                self.entries@.dom() == self.entries.keys().to_set(),
                forall|k: UsageKeyView| #[trigger]
                    entries@.contains_key(k) ==> self.entries@.contains_key(k) && entries@[k]
                        == self.entries@[k],
                forall|j: int|
                    0 <= j < i ==> entries@.contains_key(#[trigger] self.entries.keys()[j]),
            decreases n - i,
        {
            let (key, quantity) = self.entries.entry(i);
            entries.insert(
                UsageKey { tenant_id: key.tenant_id, period: key.period.clone(), kind: key.kind },
                *quantity,
            );
            i += 1;
        }
        assert forall|k: UsageKeyView| self.entries@.contains_key(k) implies entries@.contains_key(
            k,
        ) by {
            assert(self.entries.keys().to_set().contains(k));
            let j = choose|j: int|
                0 <= j < self.entries.keys().len() && self.entries.keys()[j] == k;
            assert(entries@.contains_key(self.entries.keys()[j]));
        }
        assert(entries@ =~= self.entries@);
        UsageLedger { entries }
    }
}

impl Default for UsageLedger {
    fn default() -> (r: Self)
        ensures
            r@ == Amounts::empty(),
    {
        UsageLedger { entries: OrderedMap::new() }
    }
}

impl UsageLedger {
    /// Whether an entry can be recorded without the sum running over.
    pub fn can_record(&self, entry: &UsageEntry) -> (r: bool)
        ensures
            r == entry@.fits(self@),
    {
        self.total(&entry.tenant_id, entry.period.as_str(), &entry.kind) <= u64::MAX
            - entry.quantity
    }

    /// Adds the quantity of the entry to what was recorded for its tenant, period and kind.
    pub fn record(&mut self, entry: UsageEntry)
        requires
            entry@.fits(old(self)@),
        ensures
            final(self)@ == entry@.recorded(old(self)@),
    {
        let sum: u64 = self.total(&entry.tenant_id, entry.period.as_str(), &entry.kind)
            + entry.quantity;
        self.entries.insert(
            UsageKey { tenant_id: entry.tenant_id, period: entry.period, kind: entry.kind },
            sum,
        );
    }

    /// What was recorded for a tenant, a period and a kind.
    pub fn total(&self, tenant_id: &TenantId, period: &str, kind: &UsageKind) -> (r: u64)
        ensures
            r == amount(self@, (*tenant_id, period@, *kind)),
    {
        let key: UsageKey = UsageKey {
            tenant_id: *tenant_id,
            period: period.to_owned(),
            kind: *kind,
        };
        match self.entries.get(&key) {
            Some(quantity) => *quantity,
            None => 0,
        }
    }

    /// The entries of a tenant and a period, in the order of the kinds.
    pub fn snapshot(&self, tenant_id: &TenantId, period: &str) -> (r: Vec<UsageEntry>)
        ensures
            entry_views(r@) == listed(self@, *tenant_id, period@, USAGE_KINDS as nat),
    {
        let mut r: Vec<UsageEntry> = Vec::new();
        let mut i: usize = 0;
        assert(entry_views(r@) =~= Seq::empty());
        while i < USAGE_KINDS
            invariant
                i <= USAGE_KINDS,
                entry_views(r@) == listed(self@, *tenant_id, period@, i as nat),
            decreases USAGE_KINDS - i,
        {
            let kind: UsageKind = UsageKind::at(i);
            let key: UsageKey = UsageKey {
                tenant_id: *tenant_id,
                period: period.to_owned(),
                kind,
            };
            if let Some(quantity) = self.entries.get(&key) {
                let ghost before = r@;
                r.push(
                    UsageEntry {
                        tenant_id: *tenant_id,
                        period: period.to_owned(),
                        kind,
                        quantity: *quantity,
                    },
                );
                assert(entry_views(r@) =~= entry_views(before).push(r@.last()@));
            }
            i += 1;
        }
        r
    }

    /// The ledger of stored entries, recorded in order; nothing where a sum runs over.
    pub fn restore(entries: Vec<UsageEntry>) -> (r: Option<UsageLedger>)
        ensures
            match r {
                Some(ledger) => summed(entry_views(entries@)) == Some(ledger@),
                None => summed(entry_views(entries@)) is None,
            },
    {
        let mut ledger: UsageLedger = UsageLedger::default();
        let ghost views = entry_views(entries@);
        proof {
            assert(views.take(0) =~= Seq::empty());
        }
        for entry in it: entries
            invariant
                views == entry_views(it.seq()),
                summed(views.take(it.index())) == Some(ledger@),
        {
            assert(views.take(it.index() + 1).drop_last() =~= views.take(it.index()));
            assert(views.take(it.index() + 1).last() == entry@);
            if !ledger.can_record(&entry) {
                proof {
                    lemma_summed_prefix(views, it.index() + 1);
                }
                return None;
            }
            ledger.record(entry);
        }
        assert(views.take(views.len() as int) =~= views);
        Some(ledger)
    }
}

/// Where the sums of a prefix do not fit, those of the whole do not.
proof fn lemma_summed_prefix(entries: Seq<UsageEntryView>, i: int)
    requires
        0 <= i <= entries.len(),
        summed(entries.take(i)) is None,
    ensures
        summed(entries) is None,
    decreases entries.len() - i,
{
    if i == entries.len() {
        assert(entries.take(i) =~= entries);
    } else {
        assert(entries.take(i + 1).drop_last() =~= entries.take(i));
        lemma_summed_prefix(entries, i + 1);
    }
}

/// A usage entry as a row of text and numbers: the tenant in the form of its id, the kind by its
/// name.
#[derive(Debug, Clone, PartialEq, Eq)]
pub struct UsageRow {
    pub tenant_id: String,
    pub period: String,
    pub kind: String,
    pub quantity: u64,
}

/// The value of a usage row.
#[verifier::ext_equal]
pub struct UsageRowView {
    pub tenant_id: Seq<char>,
    pub period: Seq<char>,
    pub kind: Seq<char>,
    pub quantity: u64,
}

impl View for UsageRow {
    type V = UsageRowView;

    open spec fn view(&self) -> UsageRowView {
        UsageRowView {
            tenant_id: self.tenant_id@,
            period: self.period@,
            kind: self.kind@,
            quantity: self.quantity,
        }
    }
}

/// The values of usage rows.
pub open spec fn row_views(rows: Seq<UsageRow>) -> Seq<UsageRowView> {
    Seq::new(rows.len(), |i: int| rows[i]@)
}

/// What is said of a name that no kind has.
pub open spec fn unknown_kind(name: Seq<char>) -> Seq<char> {
    "unknown variant `"@ + name
        + "`, expected one of `Observation`, `AgentRun`, `ToolCall`, `ModelToken`"@
}

impl UsageRowView {
    /// The entry of the row, or what is wrong with it: the tenant is read before the kind.
    pub open spec fn entry(self) -> Result<UsageEntryView, Seq<char>> {
        match identity::id_parsed(self.tenant_id) {
            Ok(id) => match UsageKind::of_name(self.kind) {
                Some(kind) => Ok(
                    UsageEntryView {
                        tenant_id: TenantId(id),
                        period: self.period,
                        kind,
                        quantity: self.quantity,
                    },
                ),
                None => Err(unknown_kind(self.kind)),
            },
            Err(message) => Err(message),
        }
    }
}

/// The entries of rows, or what is wrong with the first bad row.
pub open spec fn rows_read(rows: Seq<UsageRowView>) -> Result<Seq<UsageEntryView>, Seq<char>>
    decreases rows.len(),
{
    if rows.len() == 0 {
        Ok(Seq::empty())
    } else {
        match rows_read(rows.drop_last()) {
            Ok(before) => match rows.last().entry() {
                Ok(entry) => Ok(before.push(entry)),
                Err(message) => Err(message),
            },
            Err(message) => Err(message),
        }
    }
}

/// A bad row among the first ones decides.
proof fn lemma_rows_read_prefix(rows: Seq<UsageRowView>, i: int)
    requires
        0 <= i <= rows.len(),
        rows_read(rows.take(i)) is Err,
    ensures
        rows_read(rows) == rows_read(rows.take(i)),
    decreases rows.len() - i,
{
    if i == rows.len() {
        assert(rows.take(i) =~= rows);
    } else {
        assert(rows.take(i + 1).drop_last() =~= rows.take(i));
        lemma_rows_read_prefix(rows, i + 1);
    }
}

impl UsageRow {
    /// The row of an entry.
    pub fn of_entry(entry: &UsageEntry) -> (r: UsageRow)
        ensures
            r.tenant_id@ == identity::id_text(entry.tenant_id.0),
            r.period@ == entry.period@,
            r.kind@ == entry.kind.named(),
            r.quantity == entry.quantity,
            r@.entry() == Ok::<UsageEntryView, Seq<char>>(entry@),
    {
        proof {
            kind_names_round_trip(entry.kind);
        }
        UsageRow {
            tenant_id: identity::format_id(entry.tenant_id.0),
            period: entry.period.clone(),
            kind: entry.kind.name().to_owned(),
            quantity: entry.quantity,
        }
    }

    /// The entry of a row.
    pub fn into_entry(self) -> (r: Result<UsageEntry, ObservationError>)
        ensures
            match r {
                Ok(entry) => self@.entry() == Ok::<UsageEntryView, Seq<char>>(entry@),
                Err(error) => error matches ObservationError::Storage(message) && self@.entry()
                    == Err::<UsageEntryView, Seq<char>>(message@),
            },
    {
        match identity::parse_id(self.tenant_id.as_str()) {
            Ok(id) => match UsageKind::from_name(self.kind.as_str()) {
                Some(kind) => Ok(
                    UsageEntry {
                        tenant_id: TenantId(id),
                        period: self.period,
                        kind,
                        quantity: self.quantity,
                    },
                ),
                None => {
                    let mut message: String = "unknown variant `".to_owned();
                    message.append(self.kind.as_str());
                    message.append(
                        "`, expected one of `Observation`, `AgentRun`, `ToolCall`, `ModelToken`",
                    );
                    Err(ObservationError::Storage(message))
                },
            },
            Err(message) => Err(ObservationError::Storage(message)),
        }
    }
}

/// The entries of stored rows; the first bad row fails the whole.
pub fn read_rows(rows: Vec<UsageRow>) -> (r: Result<Vec<UsageEntry>, ObservationError>)
    ensures
        match r {
            Ok(entries) => rows_read(row_views(rows@)) matches Ok(read) && read == entry_views(
                entries@,
            ),
            Err(error) => error matches ObservationError::Storage(message) && (rows_read(
                row_views(rows@),
            ) matches Err(m) && m == message@),
        },
{
    let mut entries: Vec<UsageEntry> = Vec::new();
    let ghost views = row_views(rows@);
    proof {
        assert(views.take(0) =~= Seq::empty());
        assert(entry_views(entries@) =~= Seq::empty());
    }
    for row in it: rows
        invariant
            views == row_views(it.seq()),
            rows_read(views.take(it.index())) matches Ok(read) && read == entry_views(entries@),
    {
        assert(views.take(it.index() + 1).drop_last() =~= views.take(it.index()));
        assert(views.take(it.index() + 1).last() == row@);
        match row.into_entry() {
            Ok(entry) => {
                let ghost before = entries@;
                entries.push(entry);
                assert(entry_views(entries@) =~= entry_views(before).push(entry@));
            },
            Err(error) => {
                proof {
                    lemma_rows_read_prefix(views, it.index() + 1);
                }
                return Err(error);
            },
        }
    }
    assert(views.take(views.len() as int) =~= views);
    Ok(entries)
}

/// Recording an entry adds its quantity to the total of its tenant, period and kind, and leaves
/// every other total as it was.
pub proof fn recording_adds_to_one_total(
    entry: UsageEntryView,
    amounts: Amounts,
    other: UsageKeyView,
)
    requires
        entry.fits(amounts),
    ensures
        amount(entry.recorded(amounts), entry.key()) == amount(amounts, entry.key())
            + entry.quantity,
        other != entry.key() ==> amount(entry.recorded(amounts), other) == amount(amounts, other),
{
}

/// The order in which two entries are recorded makes no difference.
pub proof fn recording_commutes(a: UsageEntryView, b: UsageEntryView, amounts: Amounts)
    requires
        a.fits(amounts),
        b.fits(a.recorded(amounts)),
    ensures
        b.fits(amounts),
        a.fits(b.recorded(amounts)),
        b.recorded(a.recorded(amounts)) == a.recorded(b.recorded(amounts)),
{
    assert(b.recorded(a.recorded(amounts)) =~= a.recorded(b.recorded(amounts)));
}

/// Restoring stored entries with one more gives the ledger with that entry recorded: what was
/// appended before a restart is what is there after it.
pub proof fn restoring_follows_recording(entries: Seq<UsageEntryView>, entry: UsageEntryView)
    requires
        summed(entries) is Some,
        entry.fits(summed(entries)->0),
    ensures
        summed(entries.push(entry)) == Some(entry.recorded(summed(entries)->0)),
{
    assert(entries.push(entry).drop_last() =~= entries);
}

/// What a snapshot lists is of the tenant and the period asked for, and has the recorded amount.
pub proof fn snapshots_are_scoped(
    amounts: Amounts,
    tenant_id: TenantId,
    period: Seq<char>,
    n: nat,
    i: int,
)
    requires
        n <= USAGE_KINDS,
        0 <= i < listed(amounts, tenant_id, period, n).len(),
    ensures
        ({
            let entry = listed(amounts, tenant_id, period, n)[i];
            &&& entry.tenant_id == tenant_id
            &&& entry.period == period
            &&& amounts.contains_key(entry.key())
            &&& entry.quantity == amounts[entry.key()]
        }),
    decreases n,
{
    if i < listed(amounts, tenant_id, period, (n - 1) as nat).len() {
        snapshots_are_scoped(amounts, tenant_id, period, (n - 1) as nat, i);
    }
}

/// Every recorded kind of the tenant and the period is listed.
pub proof fn snapshots_are_complete(
    amounts: Amounts,
    tenant_id: TenantId,
    period: Seq<char>,
    kind: UsageKind,
    n: nat,
)
    requires
        kind.rank() < n <= USAGE_KINDS,
        amounts.contains_key((tenant_id, period, kind)),
    ensures
        listed(amounts, tenant_id, period, n).contains(
            UsageEntryView {
                tenant_id,
                period,
                kind,
                quantity: amounts[(tenant_id, period, kind)],
            },
        ),
    decreases n,
{
    let entry = UsageEntryView {
        tenant_id,
        period,
        kind,
        quantity: amounts[(tenant_id, period, kind)],
    };
    let before = listed(amounts, tenant_id, period, (n - 1) as nat);
    let now = listed(amounts, tenant_id, period, n);
    if kind.rank() < n - 1 {
        snapshots_are_complete(amounts, tenant_id, period, kind, (n - 1) as nat);
        let i = choose|i: int| 0 <= i < before.len() && before[i] == entry;
        assert(now[i] == entry);
    } else {
        assert(UsageKind::nth(n - 1) == kind);
        assert(now[now.len() - 1] == entry);
    }
}

/// Rows that were made of entries are read back as those entries, in order.
pub proof fn stored_usage_is_read_back(rows: Seq<UsageRowView>, entries: Seq<UsageEntryView>)
    requires
        rows.len() == entries.len(),
        forall|i: int|
            0 <= i < rows.len() ==> (#[trigger] rows[i]).entry() == Ok::<
                UsageEntryView,
                Seq<char>,
            >(entries[i]),
    ensures
        rows_read(rows) == Ok::<Seq<UsageEntryView>, Seq<char>>(entries),
    decreases rows.len(),
{
    if rows.len() > 0 {
        let front = rows.drop_last();
        let before = entries.drop_last();
        assert forall|i: int| 0 <= i < front.len() implies (#[trigger] front[i]).entry() == Ok::<
            UsageEntryView,
            Seq<char>,
        >(before[i]) by {
            assert(front[i] == rows[i]);
        }
        stored_usage_is_read_back(front, before);
        assert(rows[rows.len() - 1].entry() == Ok::<UsageEntryView, Seq<char>>(
            entries[entries.len() - 1],
        ));
        assert(before.push(entries.last()) =~= entries);
    } else {
        assert(entries =~= Seq::empty());
    }
}

/// Recording an entry raises the total of its tenant, its period and its kind by its quantity, and
/// no other total.
pub proof fn a_total_follows_what_is_recorded(
    ledger: &mut UsageLedger,
    entry: UsageEntry,
    tenant_id: &TenantId,
    period: &str,
    kind: &UsageKind,
    before: u64,
    after: u64,
)
    requires
        call_ensures(UsageLedger::record, (ledger, entry), ()),
        call_ensures(UsageLedger::total, (&*old(ledger), tenant_id, period, kind), before),
        call_ensures(UsageLedger::total, (&*final(ledger), tenant_id, period, kind), after),
        before + entry.quantity <= u64::MAX,
    ensures
        entry.tenant_id == *tenant_id && entry.period@ == period@ && entry.kind == *kind ==> after
            == before + entry.quantity,
        entry.tenant_id != *tenant_id || entry.period@ != period@ || entry.kind != *kind ==> after
            == before,
{
    assert(entry@.tenant_id == entry.tenant_id && entry@.period == entry.period@ && entry@.kind
        == entry.kind && entry@.quantity == entry.quantity);
}

/// A new ledger has nothing for anyone, and a copy has what the ledger has.
pub proof fn a_new_ledger_is_empty(
    fresh: UsageLedger,
    ledger: &UsageLedger,
    copy: UsageLedger,
    tenant_id: &TenantId,
    period: &str,
    kind: &UsageKind,
    nothing: u64,
    total: u64,
    copied: u64,
)
    requires
        call_ensures(UsageLedger::default, (), fresh),
        call_ensures(UsageLedger::clone, (ledger,), copy),
        call_ensures(UsageLedger::total, (&fresh, tenant_id, period, kind), nothing),
        call_ensures(UsageLedger::total, (ledger, tenant_id, period, kind), total),
        call_ensures(UsageLedger::total, (&copy, tenant_id, period, kind), copied),
    ensures
        nothing == 0,
        copied == total,
{
}

/// An entry can be recorded exactly where its quantity and the total of its tenant, period and kind
/// together are no larger than the largest number.
pub proof fn an_entry_fits_where_the_sum_does(
    ledger: &UsageLedger,
    entry: &UsageEntry,
    r: bool,
    period: &str,
    total: u64,
)
    requires
        call_ensures(UsageLedger::can_record, (ledger, entry), r),
        period@ == entry.period@,
        call_ensures(UsageLedger::total, (ledger, &entry.tenant_id, period, &entry.kind), total),
    ensures
        r <==> total + entry.quantity <= 0xffff_ffff_ffff_ffff,
{
    assert(entry@.key() == (entry.tenant_id, entry.period@, entry.kind));
}

/// A snapshot lists what was recorded for the tenant and the period: each entry with the total of
/// its kind, the kinds in their order, and every kind of which something was recorded.
pub proof fn a_snapshot_lists_the_totals(
    ledger: &UsageLedger,
    tenant_id: &TenantId,
    period: &str,
    r: Vec<UsageEntry>,
    kind: &UsageKind,
    total: u64,
)
    requires
        call_ensures(UsageLedger::snapshot, (ledger, tenant_id, period), r),
        call_ensures(UsageLedger::total, (ledger, tenant_id, period, kind), total),
    ensures
        forall|i: int|
            0 <= i < r@.len() ==> (#[trigger] r@[i]).tenant_id == *tenant_id && r@[i].period@
                == period@ && (r@[i].kind == *kind ==> r@[i].quantity == total),
        total > 0 ==> exists|i: int| 0 <= i < r@.len() && (#[trigger] r@[i]).kind == *kind,
        forall|i: int, j: int|
            0 <= i < j < r@.len() ==> match (#[trigger] r@[i]).kind {
                UsageKind::Observation => (#[trigger] r@[j]).kind != UsageKind::Observation,
                UsageKind::AgentRun => r@[j].kind == UsageKind::ToolCall || r@[j].kind
                    == UsageKind::ModelToken,
                UsageKind::ToolCall => r@[j].kind == UsageKind::ModelToken,
                UsageKind::ModelToken => false,
            },
{
    let all = listed(ledger@, *tenant_id, period@, USAGE_KINDS as nat);
    assert(entry_views(r@) == all);
    assert forall|i: int| 0 <= i < r@.len() implies (#[trigger] r@[i]).tenant_id == *tenant_id
        && r@[i].period@ == period@ && (r@[i].kind == *kind ==> r@[i].quantity == total) by {
        assert(all[i] == r@[i]@);
        snapshots_are_scoped(ledger@, *tenant_id, period@, USAGE_KINDS as nat, i);
    }
    if total > 0 {
        snapshots_are_complete(ledger@, *tenant_id, period@, *kind, USAGE_KINDS as nat);
        let entry = UsageEntryView {
            tenant_id: *tenant_id,
            period: period@,
            kind: *kind,
            quantity: ledger@[(*tenant_id, period@, *kind)],
        };
        let i = choose|i: int| 0 <= i < all.len() && all[i] == entry;
        assert(entry_views(r@)[i] == r@[i]@);
        assert(r@[i].kind == *kind);
    }
    lemma_listed_in_order(ledger@, *tenant_id, period@, USAGE_KINDS as nat);
    assert forall|i: int, j: int| 0 <= i < j < r@.len() implies (#[trigger] r@[i]).kind.rank() < (
    #[trigger] r@[j]).kind.rank() by {
        assert(all[i] == r@[i]@ && all[j] == r@[j]@);
    }
}

/// The kinds are listed in their order.
proof fn lemma_listed_in_order(amounts: Amounts, tenant_id: TenantId, period: Seq<char>, n: nat)
    requires
        n <= USAGE_KINDS,
    ensures
        forall|i: int|
            0 <= i < listed(amounts, tenant_id, period, n).len() ==> (#[trigger] listed(
                amounts,
                tenant_id,
                period,
                n,
            )[i]).kind.rank() < n,
        forall|i: int, j: int|
            0 <= i < j < listed(amounts, tenant_id, period, n).len() ==> (#[trigger] listed(
                amounts,
                tenant_id,
                period,
                n,
            )[i]).kind.rank() < (#[trigger] listed(amounts, tenant_id, period, n)[j]).kind.rank(),
    decreases n,
{
    if n > 0 {
        lemma_listed_in_order(amounts, tenant_id, period, (n - 1) as nat);
        let before = listed(amounts, tenant_id, period, (n - 1) as nat);
        let now = listed(amounts, tenant_id, period, n);
        assert(UsageKind::nth(n - 1).rank() == n - 1);
        assert forall|i: int| 0 <= i < now.len() implies (#[trigger] now[i]).kind.rank() < n by {
            if i < before.len() {
                assert(now[i] == before[i]);
            }
        }
        assert forall|i: int, j: int| 0 <= i < j < now.len() implies (
        #[trigger] now[i]).kind.rank() < (#[trigger] now[j]).kind.rank() by {
            assert(now[i] == before[i]);
            if j < before.len() {
                assert(now[j] == before[j]);
            }
        }
    }
}

/// Restoring no entries gives an empty ledger; and restoring one entry more raises the total of its
/// tenant, period and kind by its quantity, and no other, or fails where the sum is too large.
pub proof fn restoring_sums_the_entries(
    entries: Vec<UsageEntry>,
    longer: Vec<UsageEntry>,
    entry: UsageEntry,
    r: Option<UsageLedger>,
    r_longer: Option<UsageLedger>,
    tenant_id: &TenantId,
    period: &str,
    kind: &UsageKind,
    total: u64,
    total_longer: u64,
)
    requires
        call_ensures(UsageLedger::restore, (entries,), r),
        call_ensures(UsageLedger::restore, (longer,), r_longer),
        longer@ == entries@.push(entry),
        r is Some,
        call_ensures(UsageLedger::total, (&r->0, tenant_id, period, kind), total),
        r_longer is Some ==> call_ensures(
            UsageLedger::total,
            (&r_longer->0, tenant_id, period, kind),
            total_longer,
        ),
    ensures
        entries@.len() == 0 ==> total == 0,
        entry.tenant_id == *tenant_id && entry.period@ == period@ && entry.kind == *kind ==> (
        r_longer is Some <==> total + entry.quantity <= 0xffff_ffff_ffff_ffff),
        r_longer is Some ==> if entry.tenant_id == *tenant_id && entry.period@ == period@
            && entry.kind == *kind {
            total_longer == total + entry.quantity
        } else {
            total_longer == total
        },
{
    let a = entry_views(entries@);
    let b = entry_views(longer@);
    assert(b =~= a.push(entry@));
    assert(b.drop_last() =~= a);
    if entries@.len() == 0 {
        assert(a =~= Seq::empty());
    }
    assert(entry@.key() == (entry.tenant_id, entry.period@, entry.kind));
}

/// The kinds are stored under fixed names, each is read back from its name, and no other name is
/// one of a kind.
pub proof fn kinds_have_fixed_names(kind: UsageKind, name: &str, given: &str, r: Option<UsageKind>)
    requires
        call_ensures(UsageKind::name, (kind,), name),
        call_ensures(UsageKind::from_name, (given,), r),
    ensures
        kind == UsageKind::Observation ==> name@ == "Observation"@,
        kind == UsageKind::AgentRun ==> name@ == "AgentRun"@,
        kind == UsageKind::ToolCall ==> name@ == "ToolCall"@,
        kind == UsageKind::ModelToken ==> name@ == "ModelToken"@,
        given@ == name@ ==> r == Some(kind),
        given@ != "Observation"@ && given@ != "AgentRun"@ && given@ != "ToolCall"@ && given@
            != "ModelToken"@ ==> r is None,
{
    kind_names_round_trip(kind);
}

/// The row of an entry says the entry, and is read back as it.
pub proof fn a_row_is_read_back(
    entry: &UsageEntry,
    row: UsageRow,
    r: Result<UsageEntry, ObservationError>,
)
    requires
        call_ensures(UsageRow::of_entry, (entry,), row),
        call_ensures(UsageRow::into_entry, (row,), r),
    ensures
        row.period@ == entry.period@,
        row.quantity == entry.quantity,
        row.tenant_id@ == identity::id_text(entry.tenant_id.0),
        r is Ok,
        r->Ok_0.tenant_id == entry.tenant_id,
        r->Ok_0.period@ == entry.period@,
        r->Ok_0.kind == entry.kind,
        r->Ok_0.quantity == entry.quantity,
{
    let a = r->Ok_0@;
    let b = entry@;
    assert(a == b);
    assert(a.tenant_id == b.tenant_id && a.period == b.period && a.kind == b.kind && a.quantity
        == b.quantity);
}

/// A row whose tenant is no id, or whose kind has no such name, is refused, the tenant first; any
/// other row is an entry of just its tenant, period, kind and quantity.
pub proof fn a_row_says_its_entry(row: UsageRow, r: Result<UsageEntry, ObservationError>)
    requires
        call_ensures(UsageRow::into_entry, (row,), r),
    ensures
        r is Ok <==> identity::id_parsed(row.tenant_id@) is Ok && (row.kind@ == "Observation"@
            || row.kind@ == "AgentRun"@ || row.kind@ == "ToolCall"@ || row.kind@ == "ModelToken"@),
        r is Ok ==> {
            &&& identity::id_parsed(row.tenant_id@) == Ok::<u128, Seq<char>>(r->Ok_0.tenant_id.0)
            &&& r->Ok_0.period@ == row.period@
            &&& r->Ok_0.quantity == row.quantity
            &&& r->Ok_0.kind.named() == row.kind@
        },
        identity::id_parsed(row.tenant_id@) is Err ==> r->Err_0 is Storage
            && r->Err_0->Storage_0@ == identity::id_parsed(row.tenant_id@)->Err_0,
        identity::id_parsed(row.tenant_id@) is Ok && r is Err ==> r->Err_0 is Storage
            && r->Err_0->Storage_0@ == "unknown variant `"@ + row.kind@
            + "`, expected one of `Observation`, `AgentRun`, `ToolCall`, `ModelToken`"@,
{
    let view = row@;
    assert(view.tenant_id == row.tenant_id@ && view.period == row.period@ && view.kind == row.kind@
        && view.quantity == row.quantity);
    kind_names_round_trip(UsageKind::Observation);
    kind_names_round_trip(UsageKind::AgentRun);
    kind_names_round_trip(UsageKind::ToolCall);
    kind_names_round_trip(UsageKind::ModelToken);
    if r is Ok {
        let entry = r->Ok_0@;
        assert(entry.tenant_id == r->Ok_0.tenant_id && entry.period == r->Ok_0.period@);
        assert(entry.kind == r->Ok_0.kind && entry.quantity == r->Ok_0.quantity);
    }
}

/// Rows are read in order, one entry for each; the first row that is no entry fails the whole.
pub proof fn rows_are_read_in_order(
    rows: Vec<UsageRow>,
    r: Result<Vec<UsageEntry>, ObservationError>,
    i: int,
)
    requires
        call_ensures(read_rows, (rows,), r),
        0 <= i <= rows@.len(),
        forall|k: int| 0 <= k < i ==> (#[trigger] rows@[k])@.entry() is Ok,
    ensures
        i == rows@.len() ==> r is Ok && r->Ok_0@.len() == rows@.len() && forall|k: int|
            0 <= k < rows@.len() ==> (#[trigger] rows@[k])@.entry() == Ok::<
                UsageEntryView,
                Seq<char>,
            >(r->Ok_0@[k]@),
        i < rows@.len() && rows@[i]@.entry() is Err ==> r is Err && r->Err_0 is Storage
            && r->Err_0->Storage_0@ == rows@[i]@.entry()->Err_0,
{
    let views = row_views(rows@);
    let front = views.take(i);
    let read = Seq::new(i as nat, |k: int| views[k].entry()->Ok_0);
    assert forall|k: int| 0 <= k < front.len() implies (#[trigger] front[k]).entry() == Ok::<
        UsageEntryView,
        Seq<char>,
    >(read[k]) by {
        assert(views[k] == rows@[k]@);
    }
    stored_usage_is_read_back(front, read);
    if i == rows@.len() {
        assert(front =~= views);
        assert(entry_views(r->Ok_0@) == read);
        assert forall|k: int| 0 <= k < rows@.len() implies (#[trigger] rows@[k])@.entry() == Ok::<
            UsageEntryView,
            Seq<char>,
        >(r->Ok_0@[k]@) by {
            assert(entry_views(r->Ok_0@)[k] == r->Ok_0@[k]@);
            assert(front[k] == rows@[k]@);
        }
    } else if rows@[i]@.entry() is Err {
        assert(views.take(i + 1).drop_last() =~= front);
        assert(views.take(i + 1).last() == rows@[i]@);
        lemma_rows_read_prefix(views, i + 1);
    }
}

} // verus!
