//! Files of one JSON record per line: what is written for a record, and the records of a file.
use crate::observation::{Observation, ObservationError, ObservationView};
use crate::select;
use crate::text;
use vstd::prelude::*;

verus! {

/// The line of a record: its text and a line break.
pub open spec fn line_of(record: Seq<char>) -> Seq<char> {
    record.push('\n')
}

/// The file of records: their lines, one behind the other.
pub open spec fn file_of(records: Seq<Seq<char>>) -> Seq<char>
    decreases records.len(),
{
    if records.len() == 0 {
        Seq::empty()
    } else {
        line_of(records[0]) + file_of(records.drop_first())
    }
}

/// A line without the carriage return at its end.
pub open spec fn without_return(line: Seq<char>) -> Seq<char> {
    if line.len() > 0 && line.last() == '\r' {
        line.drop_last()
    } else {
        line
    }
}

/// The lines of a file, without the line break, or the carriage return and line break, at the end
/// of each. What stands behind the last line break is a line where it is not empty.
pub open spec fn lines_of(content: Seq<char>) -> Seq<Seq<char>>
    decreases content.len(),
{
    let at = text::mark_at(content, '\n');
    if content.len() == 0 {
        Seq::empty()
    } else if 0 <= at < content.len() {
        seq![without_return(content.take(at))] + lines_of(content.skip(at + 1))
    } else {
        seq![content]
    }
}

/// The line of a record.
pub fn write_line(record: &str) -> (r: String)
    ensures
        r@ == line_of(record@),
{
    let mut r: String = record.to_owned();
    r.push('\n');
    r
}

/// The lines of a file.
pub fn read_lines(content: &str) -> (r: Vec<String>)
    ensures
        text::views(r@) == lines_of(content@),
{
    let chars: Vec<char> = text::chars_of(content);
    let mut r: Vec<String> = Vec::new();
    let mut from: usize = 0;
    assert(chars@.skip(0) =~= content@);
    assert(text::views(r@) + lines_of(chars@.skip(0)) =~= lines_of(content@));
    while from < chars.len()
        invariant
            from <= chars.len(),
            text::views(r@) + lines_of(chars@.skip(from as int)) == lines_of(content@),
        decreases chars.len() - from,
    {
        let ghost rest = chars@.skip(from as int);
        let ghost done = r@;
        let at: usize = text::find_mark(&chars, from, '\n');
        if at == chars.len() {
            let line: String = text::string_of(&chars, from, at);
            assert(line@ =~= rest);
            r.push(line);
            assert(text::views(r@) =~= text::views(done) + seq![rest]);
            return r;
        }
        let to: usize = if at > from && chars[at - 1] == '\r' {
            at - 1
        } else {
            at
        };
        let line: String = text::string_of(&chars, from, to);
        assert(line@ =~= without_return(rest.take(at - from)));
        r.push(line);
        assert(rest.skip(at - from + 1) =~= chars@.skip(at + 1));
        assert(text::views(r@) + lines_of(chars@.skip(at + 1)) =~= text::views(done) + lines_of(
            rest,
        ));
        from = at + 1;
    }
    assert(chars@.skip(from as int) =~= Seq::empty());
    assert(text::views(r@) + lines_of(chars@.skip(from as int)) =~= text::views(r@));
    r
}

/// A record stands on one line: no line break in it, and no carriage return at its end.
pub open spec fn one_line(record: Seq<char>) -> bool {
    !record.contains('\n') && (record.len() > 0 ==> record.last() != '\r')
}

/// The records of a file come back as they were written, in order.
pub proof fn records_round_trip(records: Seq<Seq<char>>)
    requires
        forall|i: int| 0 <= i < records.len() ==> one_line(#[trigger] records[i]),
    ensures
        lines_of(file_of(records)) == records,
    decreases records.len(),
{
    if records.len() > 0 {
        let rest = records.drop_first();
        let content = file_of(records);
        let record = records[0];
        assert forall|i: int| 0 <= i < rest.len() implies one_line(#[trigger] rest[i]) by {
            assert(rest[i] == records[i + 1]);
        }
        records_round_trip(rest);
        assert(one_line(record));
        assert forall|i: int| 0 <= i < record.len() implies content[i] != '\n' by {
            assert(content[i] == record[i]);
            assert(record.contains(record[i]));
        }
        text::lemma_mark_at_is(content, '\n', record.len() as int);
        assert(content.take(record.len() as int) =~= record);
        assert(content.skip(record.len() as int + 1) =~= file_of(rest));
        assert(records =~= seq![record] + rest);
    }
}

/// Appending a record to a file adds its line behind those that are there.
pub proof fn appending_adds_a_line(records: Seq<Seq<char>>, record: Seq<char>)
    ensures
        file_of(records.push(record)) == file_of(records) + line_of(record),
    decreases records.len(),
{
    if records.len() == 0 {
        reveal_with_fuel(file_of, 2);
        assert(records.push(record).drop_first() =~= Seq::empty());
        assert(records.push(record)[0] == record);
        assert(file_of(records.push(record)) =~= line_of(record));
        assert(file_of(records) + line_of(record) =~= line_of(record));
    } else {
        let rest = records.drop_first();
        appending_adds_a_line(rest, record);
        assert(records.push(record).drop_first() =~= rest.push(record));
        assert(file_of(records.push(record)) =~= file_of(records) + line_of(record));
    }
}

/// The file after observations were appended one after the other, each as the record that `encode`
/// writes; one that is not valid adds nothing.
pub open spec fn appended(
    content: Seq<char>,
    items: Seq<ObservationView>,
    encode: spec_fn(ObservationView) -> Seq<char>,
) -> Seq<char>
    decreases items.len(),
{
    if items.len() == 0 {
        content
    } else {
        let before = appended(content, items.drop_last(), encode);
        if items.last().flaw() is None {
            before + line_of(encode(items.last()))
        } else {
            before
        }
    }
}

/// The observations that are valid, in order.
pub open spec fn valid_ones(items: Seq<ObservationView>) -> Seq<ObservationView> {
    items.filter(|item: ObservationView| item.flaw() is None)
}

/// What the lines read as, where each of them can be read.
pub open spec fn all_read<A>(
    lines: Seq<Seq<char>>,
    decode: spec_fn(Seq<char>) -> Option<A>,
) -> Option<Seq<A>>
    decreases lines.len(),
{
    if lines.len() == 0 {
        Some(Seq::empty())
    } else {
        match (all_read(lines.drop_last(), decode), decode(lines.last())) {
            (Some(before), Some(last)) => Some(before.push(last)),
            _ => None,
        }
    }
}

/// The file of appended observations holds the records of the valid ones.
proof fn lemma_appended(
    items: Seq<ObservationView>,
    encode: spec_fn(ObservationView) -> Seq<char>,
)
    ensures
        appended(Seq::empty(), items, encode) == file_of(valid_ones(items).map_values(encode)),
    decreases items.len(),
{
    let keep = |item: ObservationView| item.flaw() is None;
    if items.len() == 0 {
        reveal(Seq::filter);
        assert(valid_ones(items).map_values(encode) =~= Seq::empty());
    } else {
        let front = items.drop_last();
        lemma_appended(front, encode);
        assert(items =~= front.push(items.last()));
        select::lemma_filter_push(front, items.last(), keep);
        if items.last().flaw() is None {
            assert(valid_ones(items).map_values(encode) =~= valid_ones(front).map_values(
                encode,
            ).push(encode(items.last())));
            appending_adds_a_line(valid_ones(front).map_values(encode), encode(items.last()));
        }
    }
}

/// Records that read back as what they were written for are all read.
proof fn lemma_all_read<A>(
    items: Seq<A>,
    encode: spec_fn(A) -> Seq<char>,
    decode: spec_fn(Seq<char>) -> Option<A>,
)
    requires
        forall|item: A| decode(#[trigger] encode(item)) == Some(item),
    ensures
        all_read(items.map_values(encode), decode) == Some(items),
    decreases items.len(),
{
    let records = items.map_values(encode);
    if items.len() == 0 {
        assert(items =~= Seq::empty());
    } else {
        let front = items.drop_last();
        lemma_all_read(front, encode, decode);
        assert(records.drop_last() =~= front.map_values(encode));
        assert(records.last() == encode(items.last()));
        assert(front.push(items.last()) =~= items);
    }
}

/// Whatever way of writing records reads them back and puts each on one line: a file to which
/// observations were appended reads back as the valid ones of them, in order, each as often as it
/// was appended.
pub proof fn observations_round_trip(
    items: Seq<ObservationView>,
    encode: spec_fn(ObservationView) -> Seq<char>,
    decode: spec_fn(Seq<char>) -> Option<ObservationView>,
)
    requires
        forall|item: ObservationView| decode(#[trigger] encode(item)) == Some(item),
        forall|item: ObservationView| one_line(#[trigger] encode(item)),
    ensures
        all_read(lines_of(appended(Seq::empty(), items, encode)), decode) == Some(
            valid_ones(items),
        ),
{
    let records = valid_ones(items).map_values(encode);
    lemma_appended(items, encode);
    assert forall|i: int| 0 <= i < records.len() implies one_line(#[trigger] records[i]) by {
        assert(records[i] == encode(valid_ones(items)[i]));
    }
    records_round_trip(records);
    lemma_all_read(valid_ones(items), encode, decode);
}

/// The records of a file once each was read: all of them, or the failure of the first that could
/// not be.
pub fn all_or_error<T>(parsed: Vec<Result<T, String>>) -> (r: Result<Vec<T>, ObservationError>)
    ensures
        match r {
            Ok(items) => {
                &&& items@.len() == parsed@.len()
                &&& forall|i: int|
                    0 <= i < parsed@.len() ==> #[trigger] parsed@[i] == Ok::<T, String>(items@[i])
            },
            Err(error) => exists|i: int|
                {
                    &&& 0 <= i < parsed@.len()
                    &&& #[trigger] parsed@[i] is Err
                    &&& error == ObservationError::Storage(parsed@[i]->Err_0)
                    &&& forall|k: int| 0 <= k < i ==> #[trigger] parsed@[k] is Ok
                },
        },
{
    let ghost all = parsed@;
    let mut items: Vec<T> = Vec::new();
    for outcome in it: parsed
        invariant
            it.seq() == all,
            all == parsed@,
            items@.len() == it.index(),
            forall|k: int|
                0 <= k < it.index() ==> #[trigger] all[k] == Ok::<T, String>(items@[k]),
    {
        let ghost at = it.index();
        assert(all[at] == outcome);
        match outcome {
            Ok(item) => {
                items.push(item);
            },
            Err(message) => {
                assert(parsed@[at] is Err);
                return Err(ObservationError::Storage(message));
            },
        }
    }
    Ok(items)
}

/// The observations of a file.
#[derive(Debug, Clone, PartialEq, Eq)]
pub struct JsonlObservationStore {
    path: String,
}

impl JsonlObservationStore {
    /// The path of the file.
    pub closed spec fn location(&self) -> Seq<char> {
        self.path@
    }

    /// The store of the file at a path.
    pub fn new(path: &str) -> (r: Self)
        ensures
            r.location() == path@,
    {
        JsonlObservationStore { path: path.to_owned() }
    }

    /// The path of the file.
    pub fn path(&self) -> (r: &str)
        ensures
            r@ == self.location(),
    {
        self.path.as_str()
    }

    /// What is to be written behind the end of the file for an observation with the given JSON
    /// text. Nothing is written for one that is not valid.
    pub fn append(&self, observation: &Observation, record: &str) -> (r: Result<
        String,
        ObservationError,
    >)
        ensures
            match r {
                Ok(line) => observation@.flaw() is None && line@ == line_of(record@),
                Err(error) => observation@.flaw() == Some(error),
            },
    {
        match observation.validate() {
            Ok(_) => Ok(write_line(record)),
            Err(error) => Err(error),
        }
    }

    /// The JSON texts of the observations in the file; none where there is no file.
    pub fn list(&self, content: Option<&str>) -> (r: Vec<String>)
        ensures
            text::views(r@) == match content {
                Some(whole) => lines_of(whole@),
                None => Seq::empty(),
            },
    {
        read_optional(content)
    }
}

/// The lines of a file that may be missing.
fn read_optional(content: Option<&str>) -> (r: Vec<String>)
    ensures
        text::views(r@) == match content {
            Some(whole) => lines_of(whole@),
            None => Seq::empty(),
        },
{
    match content {
        Some(whole) => read_lines(whole),
        None => {
            let r: Vec<String> = Vec::new();
            assert(text::views(r@) =~= Seq::empty());
            r
        },
    }
}

/// The usage entries of a file.
#[derive(Debug, Clone, PartialEq, Eq)]
pub struct JsonlUsageStore {
    path: String,
}

impl JsonlUsageStore {
    /// The path of the file.
    pub closed spec fn location(&self) -> Seq<char> {
        self.path@
    }

    /// The store of the file at a path.
    pub fn new(path: &str) -> (r: Self)
        ensures
            r.location() == path@,
    {
        JsonlUsageStore { path: path.to_owned() }
    }

    /// The path of the file.
    pub fn path(&self) -> (r: &str)
        ensures
            r@ == self.location(),
    {
        self.path.as_str()
    }

    /// What is to be written behind the end of the file for an entry with the given JSON text.
    pub fn append(&self, record: &str) -> (r: String)
        ensures
            r@ == line_of(record@),
    {
        write_line(record)
    }

    /// The JSON texts of the entries in the file; none where there is no file.
    pub fn load(&self, content: Option<&str>) -> (r: Vec<String>)
        ensures
            text::views(r@) == match content {
                Some(whole) => lines_of(whole@),
                None => Seq::empty(),
            },
    {
        read_optional(content)
    }
}

/// A line ends at its line break, without the carriage return before it; what stands behind the last
/// line break is a line of its own unless it is empty.
pub proof fn lines_end_at_their_breaks(content: &str, r: Vec<String>, front: Seq<char>, rest: Seq<char>)
    requires
        call_ensures(read_lines, (content,), r),
        !front.contains('\n'),
    ensures
        content@.len() == 0 ==> r@.len() == 0,
        content@ == front && front.len() > 0 ==> r@.len() == 1 && r@[0]@ == front,
        content@ == front + seq!['\n'] + rest ==> {
            &&& r@.len() == 1 + lines_of(rest).len()
            &&& front.len() > 0 && front.last() == '\r' ==> r@[0]@ == front.drop_last()
            &&& front.len() == 0 || front.last() != '\r' ==> r@[0]@ == front
            &&& forall|i: int| 0 <= i < lines_of(rest).len() ==> (#[trigger] lines_of(rest)[i])
                == r@[i + 1]@
        },
{
    let whole = content@;
    let views = text::views(r@);
    assert forall|i: int| 0 <= i < front.len() implies front[i] != '\n' by {
        assert(front.contains(front[i]));
    }
    if whole == front && front.len() > 0 {
        text::lemma_mark_at_is(whole, '\n', front.len() as int);
        assert(views =~= seq![front]);
        assert(views[0] == r@[0]@);
    }
    if whole == front + seq!['\n'] + rest {
        text::lemma_mark_at_is(whole, '\n', front.len() as int);
        assert(whole.take(front.len() as int) =~= front);
        assert(whole.skip(front.len() as int + 1) =~= rest);
        assert(views == seq![without_return(front)] + lines_of(rest));
        assert(views[0] == r@[0]@);
        assert forall|i: int| 0 <= i < lines_of(rest).len() implies (#[trigger] lines_of(rest)[i])
            == r@[i + 1]@ by {
            assert(views[i + 1] == r@[i + 1]@);
        }
    }
}

/// A file that is empty or ends with a line break, with one more line behind it, has the lines that
/// it had and that one.
proof fn lemma_lines_append(content: Seq<char>, record: Seq<char>)
    requires
        content.len() == 0 || content.last() == '\n',
        one_line(record),
    ensures
        lines_of(content + line_of(record)) == lines_of(content).push(record),
    decreases content.len(),
{
    let whole = content + line_of(record);
    if content.len() == 0 {
        assert(whole =~= line_of(record));
        assert forall|i: int| 0 <= i < record.len() implies whole[i] != '\n' by {
            assert(record.contains(record[i]));
        }
        text::lemma_mark_at_is(whole, '\n', record.len() as int);
        assert(whole.take(record.len() as int) =~= record);
        let rest = whole.skip(record.len() as int + 1);
        assert(rest.len() == 0);
        assert(lines_of(rest) =~= Seq::empty());
        assert(lines_of(content) =~= Seq::empty());
        assert(without_return(record) == record);
        assert(lines_of(whole) == seq![record] + lines_of(rest));
        assert(lines_of(whole) =~= lines_of(content).push(record));
    } else {
        text::lemma_mark_at(content, '\n');
        let at = text::mark_at(content, '\n');
        assert(at < content.len()) by {
            if at == content.len() {
                assert(content[content.len() - 1] != '\n');
            }
        }
        text::lemma_mark_at_is(whole, '\n', at);
        let rest = content.skip(at + 1);
        assert(whole.take(at) =~= content.take(at));
        assert(whole.skip(at + 1) =~= rest + line_of(record));
        assert(rest.len() > 0 ==> rest.last() == content.last());
        lemma_lines_append(rest, record);
        assert(lines_of(whole) =~= lines_of(content).push(record));
    }
}

/// What is appended to the file of observations for a valid one is read back behind what was there
/// before, as it was written; nothing is appended for one that is not valid.
pub proof fn an_appended_observation_is_listed(
    store: &JsonlObservationStore,
    observation: &Observation,
    record: &str,
    written: Result<String, ObservationError>,
    content: &str,
    longer: &str,
    before: Vec<String>,
    after: Vec<String>,
)
    requires
        call_ensures(JsonlObservationStore::append, (store, observation, record), written),
        one_line(record@),
        content@.len() == 0 || content@.last() == '\n',
        written is Ok ==> longer@ == content@ + written->Ok_0@,
        call_ensures(JsonlObservationStore::list, (store, Some(content)), before),
        call_ensures(JsonlObservationStore::list, (store, Some(longer)), after),
    ensures
        written is Ok <==> observation.duration_ms <= 86_400_000 && exists|i: int|
            0 <= i < observation.name@.len() && !text::white(#[trigger] observation.name@[i]),
        written is Ok ==> text::views(after@) == text::views(before@).push(record@),
        written is Ok ==> written->Ok_0@ == record@ + seq!['\n'],
{
    crate::observation::a_flaw_is_a_blank_name_or_a_long_duration(observation@);
    assert(observation@.name == observation.name@);
    if written is Ok {
        lemma_lines_append(content@, record@);
        assert(line_of(record@) =~= record@ + seq!['\n']);
    }
}

/// What is appended to the file of usage entries is read back behind what was there before; a file
/// that is missing holds nothing.
pub proof fn an_appended_entry_is_loaded(
    store: &JsonlUsageStore,
    record: &str,
    written: String,
    content: &str,
    longer: &str,
    before: Vec<String>,
    after: Vec<String>,
    missing: Vec<String>,
    observations: &JsonlObservationStore,
    none: Vec<String>,
)
    requires
        call_ensures(JsonlUsageStore::append, (store, record), written),
        one_line(record@),
        content@.len() == 0 || content@.last() == '\n',
        longer@ == content@ + written@,
        call_ensures(JsonlUsageStore::load, (store, Some(content)), before),
        call_ensures(JsonlUsageStore::load, (store, Some(longer)), after),
        call_ensures(JsonlUsageStore::load, (store, None::<&str>), missing),
        call_ensures(JsonlObservationStore::list, (observations, None::<&str>), none),
    ensures
        text::views(after@) == text::views(before@).push(record@),
        missing@.len() == 0,
        none@.len() == 0,
{
    lemma_lines_append(content@, record@);
    assert(text::views(missing@).len() == missing@.len());
    assert(text::views(none@).len() == none@.len());
}

/// Every record is read, in order, where each can be; else the failure of the first that cannot is
/// the outcome.
pub proof fn all_records_are_read_or_none<T>(
    parsed: Vec<Result<T, String>>,
    r: Result<Vec<T>, ObservationError>,
    i: int,
)
    requires
        call_ensures(all_or_error::<T>, (parsed,), r),
        0 <= i <= parsed@.len(),
        forall|k: int| 0 <= k < i ==> #[trigger] parsed@[k] is Ok,
    ensures
        i == parsed@.len() ==> r is Ok && r->Ok_0@.len() == parsed@.len() && forall|k: int|
            0 <= k < parsed@.len() ==> (#[trigger] parsed@[k])->Ok_0 == r->Ok_0@[k],
        i < parsed@.len() && parsed@[i] is Err ==> r is Err && r->Err_0 is Storage
            && r->Err_0->Storage_0 == parsed@[i]->Err_0,
{
    if i < parsed@.len() && parsed@[i] is Err {
        assert(r is Err);
        let j = choose|j: int|
            {
                &&& 0 <= j < parsed@.len()
                &&& #[trigger] parsed@[j] is Err
                &&& r->Err_0 == ObservationError::Storage(parsed@[j]->Err_0)
                &&& forall|k: int| 0 <= k < j ==> #[trigger] parsed@[k] is Ok
            };
        assert(i == j) by {
            if i < j {
                assert(parsed@[i] is Ok);
            } else if j < i {
                assert(parsed@[j] is Ok);
            }
        }
    }
}

/// A store is of the file at the path that it is made with.
pub proof fn a_store_keeps_its_path(
    path: &str,
    observations: JsonlObservationStore,
    usage: JsonlUsageStore,
    one: &str,
    other: &str,
)
    requires
        call_ensures(JsonlObservationStore::new, (path,), observations),
        call_ensures(JsonlUsageStore::new, (path,), usage),
        call_ensures(JsonlObservationStore::path, (&observations,), one),
        call_ensures(JsonlUsageStore::path, (&usage,), other),
    ensures
        one@ == path@,
        other@ == path@,
{
}

} // verus!
