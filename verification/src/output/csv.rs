//! The CSV table of a run: a header, then one row per result.

use crate::dns::result::{result_views, LookupResult, LookupResultView};
use crate::error::ReverDNSError;
use crate::output::clock::{
    all_utc_timestamps, is_utc_timestamp, lemma_timestamp_characters, timestamp_now,
};
use crate::text::{decimal, decimal_string, join, texts_of};
use vstd::prelude::*;
use vstd::string::StringExecFns;

verus! {

/// A writer of the `csv` crate that collects its output in memory.
///
/// Trusted: the verifier sees nothing inside it. What it holds is known
/// only through `csv_records`, as far as the functions below say.
#[verifier::external_body]
pub struct CsvBuffer {
    inner: ::csv::Writer<Vec<u8>>,
}

/// The error of the `csv` crate.
#[verifier::external_type_specification]
#[verifier::external_body]
pub struct ExCsvError(::csv::Error);

/// The records that have been written to a writer, in order; each record is
/// the sequence of its fields.
pub uninterp spec fn csv_records(w: CsvBuffer) -> Seq<Seq<Seq<char>>>;

/// A character that makes quotes around its field necessary: the
/// delimiter, the quote, and the two line ends.
pub open spec fn is_special(c: char) -> bool {
    c == ',' || c == '"' || c == '\r' || c == '\n'
}

/// The field holds a character that makes quotes necessary.
pub open spec fn needs_quotes(field: Seq<char>) -> bool {
    exists|i: int| 0 <= i < field.len() && is_special(#[trigger] field[i])
}

/// The field with every quote written twice.
pub open spec fn doubled_quotes(field: Seq<char>) -> Seq<char>
    decreases field.len(),
{
    if field.len() == 0 {
        Seq::<char>::empty()
    } else if field.last() == '"' {
        doubled_quotes(field.drop_last()).push('"').push('"')
    } else {
        doubled_quotes(field.drop_last()).push(field.last())
    }
}

/// One field as it is written: as it is, or between quotes with its own
/// quotes doubled where it holds a special character.
pub open spec fn csv_field(field: Seq<char>) -> Seq<char> {
    if needs_quotes(field) {
        seq!['"'] + doubled_quotes(field) + seq!['"']
    } else {
        field
    }
}

/// The fields of one record as they are written, with commas between them.
pub open spec fn csv_fields(fields: Seq<Seq<char>>) -> Seq<char>
    decreases fields.len(),
{
    if fields.len() == 0 {
        Seq::<char>::empty()
    } else if fields.len() == 1 {
        csv_field(fields[0])
    } else {
        csv_fields(fields.drop_last()) + seq![','] + csv_field(fields.last())
    }
}

/// One record as a line: its fields and a line feed. A record that would
/// leave the line empty is written as a pair of quotes.
pub open spec fn csv_line(fields: Seq<Seq<char>>) -> Seq<char> {
    if csv_fields(fields).len() == 0 {
        seq!['"', '"', '\n']
    } else {
        csv_fields(fields).push('\n')
    }
}

/// The text that a writer with the default settings produces for the given
/// records: one line per record, in order.
pub open spec fn csv_text(records: Seq<Seq<Seq<char>>>) -> Seq<char>
    decreases records.len(),
{
    if records.len() == 0 {
        Seq::<char>::empty()
    } else {
        csv_text(records.drop_last()) + csv_line(records.last())
    }
}

/// A writer with the default settings that collects its output in memory.
///
/// Trusted: this is `csv::Writer::from_writer` on an empty byte vector.
/// Nothing has been written to the new writer.
#[verifier::external_body]
fn csv_writer() -> (w: CsvBuffer)
    ensures
        csv_records(w) == Seq::<Seq<Seq<char>>>::empty(),
{
    CsvBuffer { inner: ::csv::Writer::from_writer(Vec::new()) }
}

/// Writes one record and hands the writer back; a writer that failed is
/// given up.
///
/// Trusted: this is `csv::Writer::write_record`, which writes every field
/// and then the record terminator. A writer with the default settings
/// refuses a record that has another number of fields than the first one
/// written; it refuses nothing else, and writing to memory does not fail.
/// Where it succeeds, the record has been added after those written before.
#[verifier::external_body]
fn csv_write_record(w: CsvBuffer, fields: &Vec<String>) -> (r: Result<CsvBuffer, ::csv::Error>)
    ensures
        (csv_records(w).len() == 0 || fields@.len() == csv_records(w)[0].len()) ==> r is Ok,
        r matches Ok(after) ==> csv_records(after) == csv_records(w).push(texts_of(fields@)),
{
    let mut w = w;
    match w.inner.write_record(fields) {
        Ok(()) => Ok(w),
        Err(e) => Err(e),
    }
}

/// Ends the writing and hands out the text.
///
/// Trusted: this is `csv::Writer::into_inner`, which flushes the writer and
/// returns the bytes written, turned into a string. Flushing to memory does
/// not fail, and the bytes are those of the fields, which are strings, with
/// commas, quotes and line feeds between them, so they are a string too.
/// The text has one line per record: the fields with commas between them
/// and a line feed at the end. A field that holds a comma, a quote, a
/// carriage return or a line feed stands between quotes, with its own
/// quotes doubled; a record that would leave its line empty is written as a
/// pair of quotes.
#[verifier::external_body]
fn csv_finish(w: CsvBuffer) -> (r: Result<String, String>)
    ensures
        r is Ok,
        r matches Ok(text) ==> text@ == csv_text(csv_records(w)),
{
    match w.inner.into_inner() {
        Ok(bytes) => match String::from_utf8(bytes) {
            Ok(text) => Ok(text),
            Err(e) => Err(e.to_string()),
        },
        Err(e) => Err(e.to_string()),
    }
}

/// The message of an error of the `csv` crate.
///
/// Trusted: this is the `Display` text of `csv::Error`; nothing is claimed
/// of it.
#[verifier::external_body]
fn csv_error_text(e: &::csv::Error) -> (text: String) {
    e.to_string()
}

/// One result as a row of the CSV table.
#[derive(Debug, Clone)]
pub struct CsvRecord {
    pub ip: String,
    /// Empty where the lookup found no name.
    pub hostname: String,
    /// The lowercase name of the status.
    pub status: String,
    /// Empty where there is no TTL.
    pub ttl: String,
    pub latency_ms: u128,
    pub resolver: String,
    /// Empty where the lookup succeeded.
    pub error: String,
    /// When the row was rendered, as an RFC 3339 text.
    pub timestamp: String,
}

/// The mathematical value of a [`CsvRecord`].
pub struct CsvRecordView {
    pub ip: Seq<char>,
    pub hostname: Seq<char>,
    pub status: Seq<char>,
    pub ttl: Seq<char>,
    pub latency_ms: u128,
    pub resolver: Seq<char>,
    pub error: Seq<char>,
    pub timestamp: Seq<char>,
}

impl View for CsvRecord {
    type V = CsvRecordView;

    open spec fn view(&self) -> CsvRecordView {
        CsvRecordView {
            ip: self.ip@,
            hostname: self.hostname@,
            status: self.status@,
            ttl: self.ttl@,
            latency_ms: self.latency_ms,
            resolver: self.resolver@,
            error: self.error@,
            timestamp: self.timestamp@,
        }
    }
}

/// The text of an optional text; empty where it is absent.
pub open spec fn text_or_empty(o: Option<Seq<char>>) -> Seq<char> {
    match o {
        Some(t) => t,
        None => Seq::<char>::empty(),
    }
}

/// The row for a result that is rendered at `timestamp`.
pub open spec fn csv_record(r: LookupResultView, timestamp: Seq<char>) -> CsvRecordView {
    CsvRecordView {
        ip: r.ip,
        hostname: text_or_empty(r.hostname),
        status: r.status.name(),
        ttl: match r.ttl {
            Some(t) => decimal(t as nat),
            None => Seq::<char>::empty(),
        },
        latency_ms: r.latency_ms,
        resolver: r.resolver,
        error: text_or_empty(r.error),
        timestamp,
    }
}

impl CsvRecordView {
    /// The fields of the row, in the order of the header.
    pub open spec fn fields(self) -> Seq<Seq<char>> {
        seq![
            self.ip,
            self.hostname,
            self.status,
            self.ttl,
            decimal(self.latency_ms as nat),
            self.resolver,
            self.error,
            self.timestamp,
        ]
    }
}

/// The header of the CSV table.
pub open spec fn csv_header() -> Seq<Seq<char>> {
    seq![
        "ip"@,
        "hostname"@,
        "status"@,
        "ttl"@,
        "latency_ms"@,
        "resolver"@,
        "error"@,
        "timestamp"@,
    ]
}

/// The rows for `results`, in order, the `i`-th rendered at `stamps[i]`.
pub open spec fn csv_rows(results: Seq<LookupResultView>, stamps: Seq<Seq<char>>) -> Seq<
    Seq<Seq<char>>,
> {
    Seq::new(results.len(), |i: int| csv_record(results[i], stamps[i]).fields())
}

/// The CSV table for `results`: the header, then one row per result.
pub open spec fn csv_table(results: Seq<LookupResultView>, stamps: Seq<Seq<char>>) -> Seq<
    Seq<Seq<char>>,
> {
    seq![csv_header()] + csv_rows(results, stamps)
}

/// The line of the header.
pub open spec fn header_line() -> Seq<char> {
    "ip,hostname,status,ttl,latency_ms,resolver,error,timestamp\n"@
}

/// The text of records that follow other records follows their text.
pub proof fn lemma_csv_text_concat(a: Seq<Seq<Seq<char>>>, b: Seq<Seq<Seq<char>>>)
    ensures
        csv_text(a + b) == csv_text(a) + csv_text(b),
    decreases b.len(),
{
    if b.len() == 0 {
        assert(a + b =~= a);
        assert(csv_text(a) + csv_text(b) =~= csv_text(a));
    } else {
        lemma_csv_text_concat(a, b.drop_last());
        assert((a + b).drop_last() =~= a + b.drop_last());
        assert((a + b).last() == b.last());
        assert(csv_text(a + b) =~= csv_text(a) + (csv_text(b.drop_last()) + csv_line(b.last())));
    }
}

/// Fields without special characters are written as they are, with commas
/// between them.
pub proof fn lemma_plain_fields(fields: Seq<Seq<char>>)
    requires
        forall|i: int| 0 <= i < fields.len() ==> !needs_quotes(#[trigger] fields[i]),
    ensures
        csv_fields(fields) == join(fields, seq![',']),
    decreases fields.len(),
{
    if fields.len() >= 2 {
        let init = fields.drop_last();
        assert forall|i: int| 0 <= i < init.len() implies !needs_quotes(#[trigger] init[i]) by {
            assert(init[i] == fields[i]);
        }
        lemma_plain_fields(init);
    }
}

/// A timestamp is written as it is.
pub proof fn lemma_timestamp_is_plain(stamp: Seq<char>)
    requires
        is_utc_timestamp(stamp),
    ensures
        !needs_quotes(stamp),
        csv_field(stamp) == stamp,
{
    assert forall|i: int| 0 <= i < stamp.len() implies !is_special(#[trigger] stamp[i]) by {
        lemma_timestamp_characters(stamp, i);
    }
}

/// A number in decimal is written as it is.
pub proof fn lemma_decimal_is_plain(n: nat)
    ensures
        !needs_quotes(decimal(n)),
    decreases n,
{
    let t = decimal(n);
    if n >= 10 {
        lemma_decimal_is_plain(n / 10);
    }
    assert forall|i: int| 0 <= i < t.len() implies !is_special(#[trigger] t[i]) by {
        if n >= 10 && i < decimal(n / 10).len() {
            assert(t[i] == decimal(n / 10)[i]);
        }
    }
}

/// Some fields with commas between them are not empty, where there are
/// at least two fields.
pub proof fn lemma_fields_not_empty(fields: Seq<Seq<char>>)
    requires
        fields.len() >= 2,
    ensures
        csv_fields(fields).len() > 0,
{
}

/// The row of a result whose own texts hold no comma, quote or line end
/// is written as its eight fields as they are, with commas between them
/// and a line feed at the end.
pub proof fn lemma_plain_row(r: LookupResultView, stamp: Seq<char>)
    requires
        !needs_quotes(r.ip),
        !needs_quotes(text_or_empty(r.hostname)),
        !needs_quotes(r.resolver),
        !needs_quotes(text_or_empty(r.error)),
        is_utc_timestamp(stamp),
    ensures
        csv_record(r, stamp).fields().len() == 8,
        csv_line(csv_record(r, stamp).fields()) == join(
            csv_record(r, stamp).fields(),
            seq![','],
        ).push('\n'),
{
    let fields = csv_record(r, stamp).fields();
    reveal_strlit("success");
    reveal_strlit("failed");
    reveal_strlit("timeout");
    reveal_strlit("rate_limited");
    let name = r.status.name();
    assert(!needs_quotes(name)) by {
        assert forall|j: int| 0 <= j < name.len() implies !is_special(#[trigger] name[j]) by {}
    }
    assert(!needs_quotes(csv_record(r, stamp).ttl)) by {
        match r.ttl {
            Some(t) => {
                lemma_decimal_is_plain(t as nat);
            },
            None => {},
        }
    }
    lemma_decimal_is_plain(r.latency_ms as nat);
    lemma_timestamp_is_plain(stamp);
    assert forall|i: int| 0 <= i < fields.len() implies !needs_quotes(#[trigger] fields[i]) by {}
    lemma_plain_fields(fields);
    lemma_fields_not_empty(fields);
}

/// The texts of the result hold no comma, quote or line end.
pub open spec fn is_plain_result(r: LookupResultView) -> bool {
    &&& !needs_quotes(r.ip)
    &&& !needs_quotes(text_or_empty(r.hostname))
    &&& !needs_quotes(r.resolver)
    &&& !needs_quotes(text_or_empty(r.error))
}

/// The records as lines of fields that are written as they are, with
/// commas between them.
pub open spec fn plain_lines(records: Seq<Seq<Seq<char>>>) -> Seq<char>
    decreases records.len(),
{
    if records.len() == 0 {
        Seq::<char>::empty()
    } else {
        plain_lines(records.drop_last()) + join(records.last(), seq![',']).push('\n')
    }
}

/// For results whose own texts hold no comma, quote or line end, the rows
/// are written as one line per result, in order, each of eight fields as
/// they are.
pub proof fn lemma_plain_rows(results: Seq<LookupResultView>, stamps: Seq<Seq<char>>)
    requires
        stamps.len() == results.len(),
        all_utc_timestamps(stamps),
        forall|i: int| 0 <= i < results.len() ==> is_plain_result(#[trigger] results[i]),
    ensures
        csv_rows(results, stamps).len() == results.len(),
        forall|i: int| 0 <= i < results.len() ==> (#[trigger] csv_rows(results, stamps)[i]).len() == 8,
        csv_text(csv_rows(results, stamps)) == plain_lines(csv_rows(results, stamps)),
    decreases results.len(),
{
    let rows = csv_rows(results, stamps);
    if results.len() > 0 {
        let fewer = results.drop_last();
        let earlier = stamps.drop_last();
        assert forall|i: int| 0 <= i < fewer.len() implies is_plain_result(#[trigger] fewer[i]) by {
            assert(fewer[i] == results[i]);
        }
        assert forall|i: int| 0 <= i < earlier.len() implies is_utc_timestamp(
            #[trigger] earlier[i],
        ) by {
            assert(earlier[i] == stamps[i]);
        }
        lemma_plain_rows(fewer, earlier);
        assert(rows.drop_last() =~= csv_rows(fewer, earlier));
        assert(is_plain_result(results.last()));
        assert(is_utc_timestamp(stamps.last()));
        lemma_plain_row(results.last(), stamps.last());
        assert(rows.last() == csv_record(results.last(), stamps.last()).fields());
    }
}

/// The header is written as the line that names the eight columns.
pub proof fn lemma_header_line()
    ensures
        csv_line(csv_header()) == header_line(),
        csv_text(seq![csv_header()]) == header_line(),
{
    reveal_strlit("ip");
    reveal_strlit("hostname");
    reveal_strlit("status");
    reveal_strlit("ttl");
    reveal_strlit("latency_ms");
    reveal_strlit("resolver");
    reveal_strlit("error");
    reveal_strlit("timestamp");
    reveal_strlit("ip,hostname,status,ttl,latency_ms,resolver,error,timestamp\n");
    let h = csv_header();
    assert forall|i: int| 0 <= i < h.len() implies !needs_quotes(#[trigger] h[i]) by {
        assert forall|j: int| 0 <= j < h[i].len() implies !is_special(#[trigger] h[i][j]) by {}
    }
    lemma_plain_fields(h);
    reveal_with_fuel(join, 9);
    assert(join(h, seq![',']).push('\n') =~= header_line());
    let one = seq![h];
    assert(one.drop_last() =~= Seq::<Seq<Seq<char>>>::empty());
    assert(csv_text(one.drop_last()) =~= Seq::<char>::empty());
    assert(csv_text(one) =~= csv_line(h));
}

/// The text of a table is the header line, then the text of the rows.
pub proof fn lemma_csv_text_of_table(results: Seq<LookupResultView>, stamps: Seq<Seq<char>>)
    ensures
        csv_text(csv_table(results, stamps)) == header_line() + csv_text(
            csv_rows(results, stamps),
        ),
{
    lemma_header_line();
    lemma_csv_text_concat(seq![csv_header()], csv_rows(results, stamps));
}

/// A copy of an optional text; empty where it is absent.
fn copy_or_empty(o: &Option<String>) -> (s: String)
    ensures
        s@ == text_or_empty(crate::dns::result::opt_text(*o)),
{
    match o {
        Some(t) => t.clone(),
        None => String::new(),
    }
}

impl CsvRecord {
    /// The row for `result`, rendered at `timestamp`.
    pub fn new(result: &LookupResult, timestamp: String) -> (record: CsvRecord)
        ensures
            record@ == csv_record(result@, timestamp@),
    {
        CsvRecord {
            ip: result.ip.clone(),
            hostname: copy_or_empty(&result.hostname),
            status: result.status.to_string(),
            ttl: match result.ttl {
                Some(t) => decimal_string(t as u128),
                None => String::new(),
            },
            latency_ms: result.latency_ms,
            resolver: result.resolver.clone(),
            error: copy_or_empty(&result.error),
            timestamp,
        }
    }

    /// The fields of the row, in the order of the header.
    pub fn fields(&self) -> (fields: Vec<String>)
        ensures
            texts_of(fields@) == self@.fields(),
    {
        let mut fields: Vec<String> = Vec::new();
        fields.push(self.ip.clone());
        fields.push(self.hostname.clone());
        fields.push(self.status.clone());
        fields.push(self.ttl.clone());
        fields.push(decimal_string(self.latency_ms));
        fields.push(self.resolver.clone());
        fields.push(self.error.clone());
        fields.push(self.timestamp.clone());
        assert(texts_of(fields@) =~= self@.fields());
        fields
    }
}

/// The fields of the header.
fn header_fields() -> (fields: Vec<String>)
    ensures
        texts_of(fields@) == csv_header(),
{
    let mut fields: Vec<String> = Vec::new();
    fields.push(String::from_str("ip"));
    fields.push(String::from_str("hostname"));
    fields.push(String::from_str("status"));
    fields.push(String::from_str("ttl"));
    fields.push(String::from_str("latency_ms"));
    fields.push(String::from_str("resolver"));
    fields.push(String::from_str("error"));
    fields.push(String::from_str("timestamp"));
    assert(texts_of(fields@) =~= csv_header());
    fields
}

/// Renders `results` as a CSV table: the line of the header, once, then one
/// row per result, in order, each stamped with the time at which it was
/// rendered, as an RFC 3339 text in UTC. Absent optional values are empty
/// fields. Rendering succeeds for all results.
pub fn format_csv(results: &[LookupResult]) -> (r: Result<String, ReverDNSError>)
    ensures
        r is Ok,
        r matches Ok(text) ==> exists|stamps: Seq<Seq<char>>|
            {
                &&& stamps.len() == results@.len()
                &&& all_utc_timestamps(stamps)
                &&& text@ == csv_text(#[trigger] csv_table(result_views(results@), stamps))
                &&& text@ == header_line() + csv_text(csv_rows(result_views(results@), stamps))
            },
        r matches Ok(text) ==> (results@.len() == 0 ==> text@ == header_line()),
{
    let ghost views = result_views(results@);
    let header = header_fields();
    let mut w = match csv_write_record(csv_writer(), &header) {
        Ok(w) => w,
        Err(e) => {
            return Err(ReverDNSError::CsvError(csv_error_text(&e)));
        },
    };
    let ghost mut stamps: Seq<Seq<char>> = Seq::empty();
    assert(texts_of(header@).len() == 8);
    assert(csv_records(w) =~= csv_table(views.take(0), stamps));
    let mut i: usize = 0;
    while i < results.len()
        invariant
            i <= results.len(),
            views == result_views(results@),
            stamps.len() == i,
            all_utc_timestamps(stamps),
            csv_records(w) == csv_table(views.take(i as int), stamps),
            csv_records(w).len() >= 1,
            csv_records(w)[0].len() == 8,
        decreases results.len() - i,
    {
        let record = CsvRecord::new(&results[i], timestamp_now());
        let fields = record.fields();
        let ghost before = stamps;
        assert(texts_of(fields@).len() == 8);
        w = match csv_write_record(w, &fields) {
            Ok(w) => w,
            Err(e) => {
                return Err(ReverDNSError::CsvError(csv_error_text(&e)));
            },
        };
        proof {
            stamps = stamps.push(record.timestamp@);
            assert(views.take(i + 1)[i as int] == results@[i as int]@);
            assert(csv_table(views.take(i + 1), stamps) =~= csv_table(
                views.take(i as int),
                before,
            ).push(texts_of(fields@)));
        }
        i += 1;
    }
    assert(views.take(results.len() as int) =~= views);
    proof {
        lemma_csv_text_of_table(views, stamps);
        if results@.len() == 0 {
            assert(csv_rows(views, stamps) =~= Seq::<Seq<Seq<char>>>::empty());
            assert(header_line() + csv_text(csv_rows(views, stamps)) =~= header_line());
        }
    }
    match csv_finish(w) {
        Ok(text) => Ok(text),
        Err(message) => Err(ReverDNSError::CsvError(message)),
    }
}

} // verus!
