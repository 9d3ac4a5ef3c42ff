//! The SSE byte-stream parser and its event data model.
//!
//! The parser consumes raw byte chunks exactly as the transport delivers them
//! and produces a FIFO queue of completed events. Its whole behaviour is given
//! by the pure functions [`ingest_byte`] and [`ingest_bytes`] over the model
//! [`ParserModel`]: every executable operation is proved to agree with them,
//! so the parser's output depends only on the concatenation of the bytes fed
//! to it, never on where the chunk boundaries fall
//! (see [`lemma_chunk_boundary_independence`]).

use crate::errors::Error;
use crate::errors::ErrorCause;
use vstd::prelude::*;
use vstd::utf8::valid_utf8;

verus! {

/// Carriage return, one of the accepted line terminators.
pub const CR: u8 = 13;

/// Line feed, one of the accepted line terminators.
pub const LF: u8 = 10;

/// The colon that separates a field name from its value.
pub const COLON: u8 = 58;

/// A single space; one is stripped from the front of a field value.
pub const SPACE: u8 = 32;

/// One fully-parsed SSE event, immutable once produced.
#[derive(Debug)]
pub struct Event {
    /// The event type; `message` when the record gave none.
    pub event_type: Vec<u8>,
    /// The data payload: the record's `data` values joined with a line feed.
    pub data: Vec<u8>,
    /// The event id, raw bytes known to be valid UTF-8; empty when the record
    /// gave none.
    pub id: Vec<u8>,
}

/// The mathematical model of an [`Event`].
#[verifier::ext_equal]
pub struct EventModel {
    /// The event type.
    pub event_type: Seq<u8>,
    /// The data payload.
    pub data: Seq<u8>,
    /// The event id.
    pub id: Seq<u8>,
}

impl View for Event {
    type V = EventModel;

    open spec fn view(&self) -> EventModel {
        EventModel { event_type: self.event_type@, data: self.data@, id: self.id@ }
    }
}

/// The bytes of `message`, the type of an event whose record named none.
pub open spec fn default_event_type() -> Seq<u8> {
    seq![109u8, 101u8, 115u8, 115u8, 97u8, 103u8, 101u8]
}

/// The bytes of the field name `event`.
pub open spec fn event_field_name() -> Seq<u8> {
    seq![101u8, 118u8, 101u8, 110u8, 116u8]
}

/// The bytes of the field name `data`.
pub open spec fn data_field_name() -> Seq<u8> {
    seq![100u8, 97u8, 116u8, 97u8]
}

/// The bytes of the field name `id`.
pub open spec fn id_field_name() -> Seq<u8> {
    seq![105u8, 100u8]
}

/// The mathematical model of the parser: the partial line being accumulated,
/// the fields of the record being assembled, and the queue of completed
/// events.
#[verifier::ext_equal]
pub struct ParserModel {
    /// Bytes of the current line, not yet ended by a terminator.
    pub line: Seq<u8>,
    /// Whether the last byte seen was a carriage return, so that a line feed
    /// coming next belongs to the same terminator.
    pub saw_cr: bool,
    /// The current record's event type; empty when none was named yet.
    pub event_type: Seq<u8>,
    /// The current record's data values seen so far, joined with a line feed.
    pub data: Seq<u8>,
    /// Whether the current record has seen at least one `data` field.
    pub has_data: bool,
    /// The current record's id; empty when none was given.
    pub id: Seq<u8>,
    /// The completed events, oldest first.
    pub queue: Seq<EventModel>,
    /// Whether an `id` field with bytes that are not valid UTF-8 was seen;
    /// once set, further input is ignored.
    pub failed: bool,
}

/// The state of a freshly constructed parser: everything empty, nothing
/// failed.
pub open spec fn initial_parser() -> ParserModel {
    ParserModel {
        line: Seq::empty(),
        saw_cr: false,
        event_type: Seq::empty(),
        data: Seq::empty(),
        has_data: false,
        id: Seq::empty(),
        queue: Seq::empty(),
        failed: false,
    }
}

/// Index of the first occurrence of `b` in `s`, or `s.len()` when absent.
pub open spec fn find_byte(s: Seq<u8>, b: u8) -> int
    decreases s.len(),
{
    if s.len() == 0 {
        0
    } else if s[0] == b {
        0
    } else {
        1 + find_byte(s.drop_first(), b)
    }
}

/// Which field a record line names.
#[derive(Clone, Copy, Debug)]
pub enum FieldKind {
    /// The `event` field: names the event type.
    Event,
    /// The `data` field: contributes one line of the payload.
    Data,
    /// The `id` field: sets the event id.
    Id,
    /// A comment, the recognized-but-ignored `retry` field, or any
    /// unrecognized field: the line has no effect on the record's fields.
    Other,
}

/// The field that a line's name bytes select.
pub open spec fn spec_field_kind(name: Seq<u8>) -> FieldKind {
    if name == event_field_name() {
        FieldKind::Event
    } else if name == data_field_name() {
        FieldKind::Data
    } else if name == id_field_name() {
        FieldKind::Id
    } else {
        FieldKind::Other
    }
}

/// The record's fields after one named line: `event` replaces the type,
/// `data` appends one payload line, `id` replaces the id when its bytes are
/// valid UTF-8 and marks the parser failed when they are not; everything
/// else, comments and the `retry` field included, is ignored.
pub open spec fn apply_field(st: ParserModel, name: Seq<u8>, value: Seq<u8>) -> ParserModel {
    match spec_field_kind(name) {
        FieldKind::Event => ParserModel { event_type: value, ..st },
        FieldKind::Data => ParserModel {
            data: if st.has_data {
                st.data + seq![LF] + value
            } else {
                value
            },
            has_data: true,
            ..st
        },
        FieldKind::Id => if valid_utf8(value) {
            ParserModel { id: value, ..st }
        } else {
            ParserModel { failed: true, ..st }
        },
        FieldKind::Other => st,
    }
}

/// Whether the assembled record is dispatched as an event: it is skipped
/// only when it carries no data and no id.
pub open spec fn dispatches(st: ParserModel) -> bool {
    st.has_data || st.id.len() > 0
}

/// The event that the assembled record completes to, the type defaulting to
/// `message` when the record named none.
pub open spec fn completed_event(st: ParserModel) -> EventModel {
    EventModel {
        event_type: if st.event_type.len() == 0 {
            default_event_type()
        } else {
            st.event_type
        },
        data: st.data,
        id: st.id,
    }
}

/// The parser after a blank line: the record is queued when it dispatches,
/// and a fresh record begins either way.
pub open spec fn dispatch(st: ParserModel) -> ParserModel {
    ParserModel {
        queue: if dispatches(st) {
            st.queue.push(completed_event(st))
        } else {
            st.queue
        },
        event_type: Seq::empty(),
        data: Seq::empty(),
        has_data: false,
        id: Seq::empty(),
        ..st
    }
}

/// The parser after one completed line: a blank line ends the record; any
/// other line is split at its first colon into a name and a value, one
/// leading space of the value is stripped, and a line without a colon is a
/// field with an empty value.
pub open spec fn process_line(st: ParserModel, line: Seq<u8>) -> ParserModel {
    if line.len() == 0 {
        dispatch(st)
    } else {
        let c = find_byte(line, COLON);
        let name = line.subrange(0, c);
        let raw = if c == line.len() {
            Seq::<u8>::empty()
        } else {
            line.subrange(c + 1, line.len() as int)
        };
        let value = if raw.len() > 0 && raw[0] == SPACE {
            raw.drop_first()
        } else {
            raw
        };
        apply_field(st, name, value)
    }
}

/// The parser after one input byte: line feeds and carriage returns end the
/// current line, a line feed directly after a carriage return belongs to the
/// same terminator, and any other byte extends the line. A failed parser
/// ignores further input.
pub open spec fn ingest_byte(st: ParserModel, b: u8) -> ParserModel {
    if st.failed {
        st
    } else if st.saw_cr && b == LF {
        ParserModel { saw_cr: false, ..st }
    } else if b == CR {
        ParserModel { line: Seq::empty(), saw_cr: true, ..process_line(st, st.line) }
    } else if b == LF {
        ParserModel { line: Seq::empty(), saw_cr: false, ..process_line(st, st.line) }
    } else {
        ParserModel { line: st.line.push(b), saw_cr: false, ..st }
    }
}

/// The parser after a sequence of input bytes, first byte first.
pub open spec fn ingest_bytes(st: ParserModel, bytes: Seq<u8>) -> ParserModel
    decreases bytes.len(),
{
    if bytes.len() == 0 {
        st
    } else {
        ingest_bytes(ingest_byte(st, bytes[0]), bytes.drop_first())
    }
}

/// Feeding two byte sequences one after the other is the same as feeding
/// their concatenation at once.
pub proof fn lemma_ingest_bytes_concat(st: ParserModel, a: Seq<u8>, b: Seq<u8>)
    ensures
        ingest_bytes(ingest_bytes(st, a), b) == ingest_bytes(st, a + b),
    decreases a.len(),
{
    if a.len() == 0 {
        assert(a + b =~= b);
    } else {
        assert((a + b)[0] == a[0]);
        assert((a + b).drop_first() =~= a.drop_first() + b);
        lemma_ingest_bytes_concat(ingest_byte(st, a[0]), a.drop_first(), b);
    }
}

/// Feeding one extra byte after a sequence is the same as feeding the
/// sequence extended by that byte.
pub proof fn lemma_ingest_bytes_snoc(st: ParserModel, bytes: Seq<u8>, b: u8)
    ensures
        ingest_byte(ingest_bytes(st, bytes), b) == ingest_bytes(st, bytes.push(b)),
{
    lemma_ingest_bytes_concat(st, bytes, seq![b]);
    assert(bytes + seq![b] =~= bytes.push(b));
    let mid = ingest_bytes(st, bytes);
    let tail = seq![b].drop_first();
    assert(tail =~= Seq::<u8>::empty());
    assert(seq![b][0] == b);
    assert(ingest_bytes(mid, seq![b]) == ingest_bytes(ingest_byte(mid, b), tail));
    assert(ingest_bytes(ingest_byte(mid, b), tail) == ingest_byte(mid, b));
}

/// The concatenation of a sequence of chunks, first chunk first.
pub open spec fn concat_chunks(chunks: Seq<Seq<u8>>) -> Seq<u8>
    decreases chunks.len(),
{
    if chunks.len() == 0 {
        Seq::empty()
    } else {
        chunks[0] + concat_chunks(chunks.drop_first())
    }
}

/// The parser after a sequence of chunks, fed one chunk at a time.
pub open spec fn ingest_chunks(st: ParserModel, chunks: Seq<Seq<u8>>) -> ParserModel
    decreases chunks.len(),
{
    if chunks.len() == 0 {
        st
    } else {
        ingest_chunks(ingest_bytes(st, chunks[0]), chunks.drop_first())
    }
}

/// Chunk-boundary independence: feeding any sequence of chunks one at a time
/// leaves the parser exactly as feeding their whole concatenation as one
/// chunk would, so the events produced do not depend on where the transport
/// happened to split the bytes.
pub proof fn lemma_chunk_boundary_independence(st: ParserModel, chunks: Seq<Seq<u8>>)
    ensures
        ingest_chunks(st, chunks) == ingest_bytes(st, concat_chunks(chunks)),
    decreases chunks.len(),
{
    if chunks.len() == 0 {
    } else {
        lemma_ingest_bytes_concat(st, chunks[0], concat_chunks(chunks.drop_first()));
        lemma_chunk_boundary_independence(ingest_bytes(st, chunks[0]), chunks.drop_first());
    }
}

/// Bytes that hold no line terminator only accumulate into the current
/// line: nothing else of the parser changes.
pub proof fn lemma_ingest_plain_bytes(st: ParserModel, bytes: Seq<u8>)
    requires
        !st.failed,
        !st.saw_cr,
        forall|i: int| 0 <= i < bytes.len() ==> bytes[i] != CR && bytes[i] != LF,
    ensures
        ingest_bytes(st, bytes) == (ParserModel { line: st.line + bytes, saw_cr: false, ..st }),
    decreases bytes.len(),
{
    if bytes.len() == 0 {
        assert(st.line + bytes =~= st.line);
        assert(ingest_bytes(st, bytes) =~= (ParserModel {
            line: st.line + bytes,
            saw_cr: false,
            ..st
        }));
    } else {
        let st1 = ingest_byte(st, bytes[0]);
        assert(st1 == (ParserModel { line: st.line.push(bytes[0]), saw_cr: false, ..st }));
        lemma_ingest_plain_bytes(st1, bytes.drop_first());
        assert(st.line.push(bytes[0]) + bytes.drop_first() =~= st.line + bytes);
    }
}

/// A record made of a single line that is a comment, the `retry` field, the
/// `event` field, or any unrecognized field produces no event: fed to a
/// parser standing at a fresh record, the line and the blank line after it
/// leave the queue unchanged.
pub proof fn lemma_ignored_record_no_event(st: ParserModel, line: Seq<u8>)
    requires
        !st.failed,
        !st.saw_cr,
        st.line.len() == 0,
        !st.has_data,
        st.id.len() == 0,
        line.len() > 0,
        forall|i: int| 0 <= i < line.len() ==> line[i] != CR && line[i] != LF,
        !(spec_field_kind(line.subrange(0, find_byte(line, COLON))) is Data),
        !(spec_field_kind(line.subrange(0, find_byte(line, COLON))) is Id),
    ensures
        ingest_bytes(st, line + seq![LF, LF]).queue == st.queue,
        !ingest_bytes(st, line + seq![LF, LF]).failed,
{
    lemma_ingest_bytes_concat(st, line, seq![LF, LF]);
    lemma_ingest_plain_bytes(st, line);
    let st1 = ingest_bytes(st, line);
    assert(st1.line =~= line);
    let two = seq![LF, LF];
    assert(two[0] == LF);
    assert(two.drop_first() =~= seq![LF]);
    let st2 = ingest_byte(st1, LF);
    assert(!st2.has_data && st2.id.len() == 0 && st2.queue == st.queue && !st2.failed);
    assert(seq![LF][0] == LF);
    assert(seq![LF].drop_first() =~= Seq::<u8>::empty());
    let st3 = ingest_byte(st2, LF);
    assert(ingest_bytes(st1, two) == ingest_bytes(st2, two.drop_first()));
    assert(ingest_bytes(st2, seq![LF]) == ingest_bytes(st3, seq![LF].drop_first()));
    assert(ingest_bytes(st3, Seq::<u8>::empty()) == st3);
    assert(ingest_bytes(st, line + two) == st3);
    assert(st3.queue == st.queue);
}

/// The bytes of a record holding one `data` field with an empty value,
/// followed by the blank line ending the record.
pub open spec fn empty_data_record() -> Seq<u8> {
    seq![100u8, 97u8, 116u8, 97u8, 58u8, LF, LF]
}

/// A record with an empty `data:` line is dispatched, not skipped: fed to a
/// parser standing at a fresh record, it queues exactly one event, of the
/// default type, with empty data and no id.
pub proof fn lemma_empty_data_record_dispatches(st: ParserModel)
    requires
        !st.failed,
        !st.saw_cr,
        st.line.len() == 0,
        st.event_type.len() == 0,
        !st.has_data,
        st.id.len() == 0,
    ensures
        ingest_bytes(st, empty_data_record()).queue == st.queue.push(
            EventModel {
                event_type: default_event_type(),
                data: Seq::empty(),
                id: Seq::empty(),
            },
        ),
{
    let name = seq![100u8, 97u8, 116u8, 97u8, 58u8];
    assert(empty_data_record() =~= name + seq![LF, LF]);
    lemma_ingest_bytes_concat(st, name, seq![LF, LF]);
    lemma_ingest_plain_bytes(st, name);
    let st1 = ingest_bytes(st, name);
    assert(st1.line =~= name);
    assert(forall|j: int| 0 <= j < 4 ==> st1.line[j] != COLON);
    assert(st1.line[4] == COLON);
    lemma_find_byte_at(st1.line, COLON, 4);
    assert(st1.line.subrange(0, 4) =~= data_field_name());
    let two = seq![LF, LF];
    assert(two[0] == LF);
    assert(two.drop_first() =~= seq![LF]);
    let st2 = ingest_byte(st1, LF);
    assert(st1.line.subrange(5, 5) =~= Seq::<u8>::empty());
    assert(st2.has_data && st2.data.len() == 0 && st2.id.len() == 0 && st2.event_type.len() == 0);
    assert(st2.queue == st.queue);
    assert(seq![LF][0] == LF);
    assert(seq![LF].drop_first() =~= Seq::<u8>::empty());
    let st3 = ingest_byte(st2, LF);
    assert(ingest_bytes(st1, two) == ingest_bytes(st2, two.drop_first()));
    assert(ingest_bytes(st2, seq![LF]) == ingest_bytes(st3, seq![LF].drop_first()));
    assert(ingest_bytes(st3, Seq::<u8>::empty()) == st3);
    assert(ingest_bytes(st, empty_data_record()) == st3);
    assert(st2.data =~= Seq::<u8>::empty());
    assert(st2.id =~= Seq::<u8>::empty());
    assert(completed_event(st2) =~= (EventModel {
        event_type: default_event_type(),
        data: Seq::empty(),
        id: Seq::empty(),
    }));
    assert(st3.queue == st.queue.push(
        EventModel { event_type: default_event_type(), data: Seq::empty(), id: Seq::empty() },
    ));
}

/// The streaming SSE parser: accumulates bytes into lines, lines into
/// records, and completed records into a FIFO queue of events.
#[derive(Debug)]
pub struct EventParser {
    line: Vec<u8>,
    saw_cr: bool,
    event_type: Vec<u8>,
    data: Vec<u8>,
    has_data: bool,
    id: Vec<u8>,
    queue: Vec<Event>,
    failed: bool,
}

impl View for EventParser {
    type V = ParserModel;

    closed spec fn view(&self) -> ParserModel {
        ParserModel {
            line: self.line@,
            saw_cr: self.saw_cr,
            event_type: self.event_type@,
            data: self.data@,
            has_data: self.has_data,
            id: self.id@,
            queue: self.queue@.map_values(|e: Event| e@),
            failed: self.failed,
        }
    }
}

/// Relies on std's `str::from_utf8`: it returns `Ok` exactly when the bytes
/// are a valid UTF-8 encoding, which is what vstd's `valid_utf8` states.
#[verifier::external_body]
fn utf8_check(bytes: &[u8]) -> (r: bool)
    ensures
        r == valid_utf8(bytes@),
{
    std::str::from_utf8(bytes).is_ok()
}

/// `find_byte` yields the position before which `b` nowhere occurs.
proof fn lemma_find_byte_at(s: Seq<u8>, b: u8, i: int)
    requires
        0 <= i <= s.len(),
        forall|j: int| 0 <= j < i ==> s[j] != b,
        i < s.len() ==> s[i] == b,
    ensures
        find_byte(s, b) == i,
    decreases i,
{
    if i == 0 {
    } else {
        assert(forall|j: int| 0 <= j < i - 1 ==> s.drop_first()[j] == s[j + 1]);
        lemma_find_byte_at(s.drop_first(), b, i - 1);
    }
}

/// Index of the first colon in the line, or its length when it has none.
fn find_colon(line: &Vec<u8>) -> (r: usize)
    ensures
        r as int == find_byte(line@, COLON),
        r <= line.len(),
{
    let mut i: usize = 0;
    while i < line.len()
        invariant
            i <= line.len(),
            forall|j: int| 0 <= j < i ==> line@[j] != COLON,
        decreases line.len() - i,
    {
        if line[i] == COLON {
            proof {
                lemma_find_byte_at(line@, COLON, i as int);
            }
            return i;
        }
        i += 1;
    }
    proof {
        lemma_find_byte_at(line@, COLON, line@.len() as int);
    }
    line.len()
}

/// A copy of the bytes of `v` from `from` (inclusive) to `to` (exclusive).
fn copy_range(v: &Vec<u8>, from: usize, to: usize) -> (r: Vec<u8>)
    requires
        from <= to <= v.len(),
    ensures
        r@ == v@.subrange(from as int, to as int),
{
    let mut r: Vec<u8> = Vec::new();
    let mut i: usize = from;
    while i < to
        invariant
            from <= i <= to <= v.len(),
            r@ == v@.subrange(from as int, i as int),
        decreases to - i,
    {
        r.push(v[i]);
        proof {
            assert(v@.subrange(from as int, i + 1 as int) =~= v@.subrange(
                from as int,
                i as int,
            ).push(v@[i as int]));
        }
        i += 1;
    }
    r
}

/// The field that the first `name_end` bytes of the line select.
fn field_kind(line: &Vec<u8>, name_end: usize) -> (k: FieldKind)
    requires
        name_end <= line.len(),
    ensures
        k == spec_field_kind(line@.subrange(0, name_end as int)),
{
    let ghost name = line@.subrange(0, name_end as int);
    let is_event = name_end == 5 && line[0] == 101u8 && line[1] == 118u8 && line[2] == 101u8
        && line[3] == 110u8 && line[4] == 116u8;
    let is_data = name_end == 4 && line[0] == 100u8 && line[1] == 97u8 && line[2] == 116u8
        && line[3] == 97u8;
    let is_id = name_end == 2 && line[0] == 105u8 && line[1] == 100u8;
    proof {
        if is_event {
            assert(name =~= event_field_name());
        } else {
            if name == event_field_name() {
                assert(name.len() == 5);
                assert(line@[0] == name[0] && line@[1] == name[1] && line@[2] == name[2]
                    && line@[3] == name[3] && line@[4] == name[4]);
                assert(false);
            }
        }
        if is_data {
            assert(name =~= data_field_name());
        } else {
            if name == data_field_name() {
                assert(name.len() == 4);
                assert(line@[0] == name[0] && line@[1] == name[1] && line@[2] == name[2]
                    && line@[3] == name[3]);
                assert(false);
            }
        }
        if is_id {
            assert(name =~= id_field_name());
        } else {
            if name == id_field_name() {
                assert(name.len() == 2);
                assert(line@[0] == name[0] && line@[1] == name[1]);
                assert(false);
            }
        }
    }
    if is_event {
        FieldKind::Event
    } else if is_data {
        FieldKind::Data
    } else if is_id {
        FieldKind::Id
    } else {
        FieldKind::Other
    }
}

/// The bytes of `message` as a fresh vector.
fn default_event_type_vec() -> (r: Vec<u8>)
    ensures
        r@ == default_event_type(),
{
    let mut r: Vec<u8> = Vec::new();
    r.push(109u8);
    r.push(101u8);
    r.push(115u8);
    r.push(115u8);
    r.push(97u8);
    r.push(103u8);
    r.push(101u8);
    proof {
        assert(r@ =~= default_event_type());
    }
    r
}

impl EventParser {
    /// A parser with an empty buffer and an empty queue.
    pub fn new() -> (p: EventParser)
        ensures
            p@ == initial_parser(),
    {
        let p = EventParser {
            line: Vec::new(),
            saw_cr: false,
            event_type: Vec::new(),
            data: Vec::new(),
            has_data: false,
            id: Vec::new(),
            queue: Vec::new(),
            failed: false,
        };
        proof {
            assert(p@ =~= initial_parser());
        }
        p
    }

    /// End the current record: queue it when it dispatches, and begin a
    /// fresh one.
    fn finish_record(&mut self)
        ensures
            final(self)@ =~= dispatch(old(self)@),
    {
        let will_dispatch = self.has_data || self.id.len() > 0;
        let mut event_type: Vec<u8> = Vec::new();
        core::mem::swap(&mut event_type, &mut self.event_type);
        let mut data: Vec<u8> = Vec::new();
        core::mem::swap(&mut data, &mut self.data);
        let mut id: Vec<u8> = Vec::new();
        core::mem::swap(&mut id, &mut self.id);
        self.has_data = false;
        if will_dispatch {
            let event_type = if event_type.len() == 0 {
                default_event_type_vec()
            } else {
                event_type
            };
            let event = Event { event_type, data, id };
            proof {
                assert(event@ =~= completed_event(old(self)@));
            }
            self.queue.push(event);
            proof {
                assert(self.queue@.map_values(|e: Event| e@) =~= old(
                    self,
                ).queue@.map_values(|e: Event| e@).push(completed_event(old(self)@)));
            }
        }
    }

    /// Process the accumulated line as one completed line and clear it.
    fn handle_line(&mut self)
        ensures
            final(self)@ =~= (ParserModel {
                line: Seq::empty(),
                ..process_line(old(self)@, old(self)@.line)
            }),
    {
        let mut line: Vec<u8> = Vec::new();
        core::mem::swap(&mut line, &mut self.line);
        if line.len() == 0 {
            self.finish_record();
            return ;
        }
        let name_end = find_colon(&line);
        let kind = field_kind(&line, name_end);
        let raw_start = if name_end == line.len() {
            name_end
        } else {
            name_end + 1
        };
        let value_start = if raw_start < line.len() && line[raw_start] == SPACE {
            raw_start + 1
        } else {
            raw_start
        };
        proof {
            let c = find_byte(line@, COLON);
            let raw = if c == line@.len() {
                Seq::<u8>::empty()
            } else {
                line@.subrange(c + 1, line@.len() as int)
            };
            let value = if raw.len() > 0 && raw[0] == SPACE {
                raw.drop_first()
            } else {
                raw
            };
            assert(value =~= line@.subrange(value_start as int, line@.len() as int));
        }
        match kind {
            FieldKind::Event => {
                let v = copy_range(&line, value_start, line.len());
                self.event_type = v;
            },
            FieldKind::Data => {
                let mut v = copy_range(&line, value_start, line.len());
                if self.has_data {
                    self.data.push(LF);
                    self.data.append(&mut v);
                    proof {
                        assert(self.data@ =~= old(self)@.data + seq![LF] + line@.subrange(
                            value_start as int,
                            line@.len() as int,
                        ));
                    }
                } else {
                    self.data = v;
                }
                self.has_data = true;
            },
            FieldKind::Id => {
                let v = copy_range(&line, value_start, line.len());
                if utf8_check(v.as_slice()) {
                    self.id = v;
                } else {
                    self.failed = true;
                }
            },
            FieldKind::Other => {},
        }
    }

    /// Ingest one chunk of bytes, as the transport delivered it. The parser
    /// afterwards is exactly the model's `ingest_bytes` of the parser before;
    /// the call reports an error if and only if an `id` field whose bytes are
    /// not valid UTF-8 has been seen.
    pub fn process_bytes(&mut self, bytes: &Vec<u8>) -> (r: Result<(), Error>)
        ensures
            final(self)@ == ingest_bytes(old(self)@, bytes@),
            r is Err <==> final(self)@.failed,
            r matches Err(e) ==> e == Error::HttpStream(ErrorCause::InvalidEventId),
    {
        let mut i: usize = 0;
        while i < bytes.len()
            invariant
                i <= bytes.len(),
                self@ == ingest_bytes(old(self)@, bytes@.take(i as int)),
            decreases bytes.len() - i,
        {
            let b = bytes[i];
            let ghost pre = self@;
            if self.failed {
            } else if self.saw_cr && b == LF {
                self.saw_cr = false;
            } else if b == CR {
                self.handle_line();
                self.saw_cr = true;
            } else if b == LF {
                self.handle_line();
                self.saw_cr = false;
            } else {
                self.line.push(b);
                self.saw_cr = false;
            }
            proof {
                assert(self@ =~= ingest_byte(pre, b));
                lemma_ingest_bytes_snoc(old(self)@, bytes@.take(i as int), b);
                assert(bytes@.take(i as int).push(b) =~= bytes@.take(i + 1 as int));
            }
            i += 1;
        }
        proof {
            assert(bytes@.take(bytes@.len() as int) =~= bytes@);
        }
        if self.failed {
            Err(Error::HttpStream(ErrorCause::InvalidEventId))
        } else {
            Ok(())
        }
    }

    /// Remove and return the oldest queued event, or report that none is
    /// ready; an empty queue is not an error.
    pub fn get_event(&mut self) -> (r: Option<Event>)
        ensures
            old(self)@.queue.len() == 0 ==> r is None && final(self)@ == old(self)@,
            old(self)@.queue.len() > 0 ==> (r matches Some(e) && e@ == old(self)@.queue[0]
                && final(self)@ == (ParserModel {
                queue: old(self)@.queue.drop_first(),
                ..old(self)@
            })),
    {
        if self.queue.len() == 0 {
            proof {
                assert(final(self)@ =~= old(self)@);
            }
            None
        } else {
            let e = self.queue.remove(0);
            proof {
                assert(self.queue@.map_values(|ev: Event| ev@) =~= old(
                    self,
                ).queue@.map_values(|ev: Event| ev@).drop_first());
                assert(final(self)@ =~= (ParserModel {
                    queue: old(self)@.queue.drop_first(),
                    ..old(self)@
                }));
            }
            Some(e)
        }
    }
}

} // verus!
