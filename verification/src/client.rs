//! The client, its builder, and the reconnecting request: the state machine
//! that issues the HTTP request, drains body chunks into the parser, emits
//! parsed events, and on failure or disconnection backs off and retries.
//!
//! The machine is driven from outside: the owner of the actual connections,
//! bodies and timers observes what its pending operation yielded, reports it
//! as a [`StreamEvent`], and performs the [`StreamAction`] it gets back. All
//! decisions — what to send, when to back off and for how long, which errors
//! are fatal — are made here and verified.

use crate::config::next_delay_ms;
use crate::config::ReconnectOptions;
use crate::errors::Error;
use crate::errors::ErrorCause;
use crate::event_parser::ingest_bytes;
use crate::event_parser::initial_parser;
use crate::event_parser::Event;
use crate::event_parser::EventModel;
use crate::event_parser::EventParser;
use vstd::prelude::*;

verus! {

/// A single character of a header value is legal when it is a horizontal tab
/// or any character other than the control characters below space and the
/// delete character.
pub open spec fn header_value_char_ok(c: char) -> bool {
    c as u32 == 9 || (32 <= c as u32 && c as u32 != 127)
}

/// A header value given as text is legal when each of its characters is.
pub open spec fn header_value_str_ok(s: Seq<char>) -> bool {
    forall|i: int| 0 <= i < s.len() ==> header_value_char_ok(#[trigger] s[i])
}

/// A single byte of a header value is legal when it is a horizontal tab or
/// any byte other than the control bytes below space and the delete byte.
pub open spec fn header_value_byte_ok(b: u8) -> bool {
    b == 9 || (32 <= b && b != 127)
}

/// A header value given as bytes is legal when each of its bytes is.
pub open spec fn header_value_bytes_ok(s: Seq<u8>) -> bool {
    forall|i: int| 0 <= i < s.len() ==> header_value_byte_ok(#[trigger] s[i])
}

/// A character legal in a header name: the token characters of HTTP field
/// names — letters, digits, and `! # $ % & ' * + - . ^ _ ` | ~`.
pub open spec fn header_name_char_ok(c: char) -> bool {
    let u = c as u32;
    (97 <= u && u <= 122) || (65 <= u && u <= 90) || (48 <= u && u <= 57) || u == 33 || u == 35
        || u == 36 || u == 37 || u == 38 || u == 39 || u == 42 || u == 43 || u == 45 || u == 46
        || u == 94 || u == 95 || u == 96 || u == 124 || u == 126
}

/// A header name is legal when it is non-empty and made of token characters.
pub open spec fn valid_header_name(s: Seq<char>) -> bool {
    s.len() > 0 && (forall|i: int| 0 <= i < s.len() ==> header_name_char_ok(#[trigger] s[i]))
}

/// Whether a string parses as a URI. Relied-upon meaning: the result of
/// hyper's URI parser on this string, which depends on the string alone.
pub uninterp spec fn uri_ok(url: Seq<char>) -> bool;

/// Relies on hyper's `Uri` (`FromStr`): whether a string parses as a URI is a
/// function of the string alone; this reports that outcome.
#[verifier::external_body]
fn parse_uri_ok(url: &str) -> (r: bool)
    ensures
        r == uri_ok(url@),
{
    url.parse::<hyper::Uri>().is_ok()
}

/// One HTTP header of the request template.
#[derive(Debug)]
pub struct Header {
    /// The header's name.
    pub name: String,
    /// The header's value.
    pub value: String,
}

/// The mathematical model of a [`Header`].
#[verifier::ext_equal]
pub struct HeaderModel {
    /// The header's name.
    pub name: Seq<char>,
    /// The header's value.
    pub value: Seq<char>,
}

impl View for Header {
    type V = HeaderModel;

    open spec fn view(&self) -> HeaderModel {
        HeaderModel { name: self.name@, value: self.value@ }
    }
}

impl Clone for Header {
    /// An equal header under the model.
    fn clone(&self) -> (r: Header)
        ensures
            r@ == self@,
    {
        Header { name: self.name.clone(), value: self.value.clone() }
    }
}

/// The headers of a sequence, as models.
pub open spec fn headers_model(hs: Seq<Header>) -> Seq<HeaderModel> {
    hs.map_values(|h: Header| h@)
}

/// Index of the first header with the given name, or the sequence's length
/// when there is none.
pub open spec fn find_header(hs: Seq<HeaderModel>, name: Seq<char>) -> int
    decreases hs.len(),
{
    if hs.len() == 0 {
        0
    } else if hs[0].name == name {
        0
    } else {
        1 + find_header(hs.drop_first(), name)
    }
}

/// The headers after setting `name` to `value`: the first header of that name
/// is overwritten, or a new one is appended when none exists.
pub open spec fn insert_header(hs: Seq<HeaderModel>, name: Seq<char>, value: Seq<char>) -> Seq<
    HeaderModel,
> {
    let i = find_header(hs, name);
    if i == hs.len() {
        hs.push(HeaderModel { name, value })
    } else {
        hs.update(i, HeaderModel { name, value })
    }
}

/// The two headers every request template starts from.
pub open spec fn default_headers() -> Seq<HeaderModel> {
    seq![
        HeaderModel { name: "Accept"@, value: "text/event-stream"@ },
        HeaderModel { name: "Cache-Control"@, value: "no-cache"@ },
    ]
}

/// The resolved, immutable request template: target URL, header set, and the
/// reconnect policy. Cloned into each stream instance, never mutated.
#[derive(Debug)]
pub struct RequestProps {
    /// The target URL; it parses as a URI when built through [`Client::for_url`].
    pub url: String,
    /// The header set sent on every connection attempt.
    pub headers: Vec<Header>,
    /// The reconnect policy.
    pub reconnect_opts: ReconnectOptions,
}

/// The mathematical model of [`RequestProps`].
#[verifier::ext_equal]
pub struct RequestPropsModel {
    /// The target URL.
    pub url: Seq<char>,
    /// The header set.
    pub headers: Seq<HeaderModel>,
    /// The reconnect policy.
    pub reconnect_opts: ReconnectOptions,
}

impl View for RequestProps {
    type V = RequestPropsModel;

    open spec fn view(&self) -> RequestPropsModel {
        RequestPropsModel {
            url: self.url@,
            headers: headers_model(self.headers@),
            reconnect_opts: self.reconnect_opts,
        }
    }
}

/// A copy of a header list, equal under the model.
fn clone_headers(hs: &Vec<Header>) -> (r: Vec<Header>)
    ensures
        headers_model(r@) == headers_model(hs@),
{
    let mut r: Vec<Header> = Vec::new();
    let mut i: usize = 0;
    while i < hs.len()
        invariant
            i <= hs.len(),
            r@.len() == i,
            forall|j: int| 0 <= j < i ==> #[trigger] r@[j]@ == hs@[j]@,
        decreases hs.len() - i,
    {
        r.push(hs[i].clone());
        i += 1;
    }
    proof {
        assert forall|j: int| 0 <= j < hs@.len() implies headers_model(r@)[j] == headers_model(
            hs@,
        )[j] by {
            assert(r@[j]@ == hs@[j]@);
        }
        assert(headers_model(r@) =~= headers_model(hs@));
    }
    r
}

/// A copy of a byte vector.
fn clone_bytes(v: &Vec<u8>) -> (r: Vec<u8>)
    ensures
        r@ == v@,
{
    let mut r: Vec<u8> = Vec::new();
    let mut i: usize = 0;
    while i < v.len()
        invariant
            i <= v.len(),
            r@ == v@.take(i as int),
        decreases v.len() - i,
    {
        r.push(v[i]);
        proof {
            assert(r@ =~= v@.take(i + 1 as int));
        }
        i += 1;
    }
    proof {
        assert(v@.take(v@.len() as int) =~= v@);
    }
    r
}

impl Clone for RequestProps {
    /// An equal template under the model.
    fn clone(&self) -> (r: RequestProps)
        ensures
            r@ == self@,
    {
        let r = RequestProps {
            url: self.url.clone(),
            headers: clone_headers(&self.headers),
            reconnect_opts: self.reconnect_opts,
        };
        proof {
            assert(r@ =~= self@);
        }
        r
    }
}

/// Whether every character of `s` is a legal header value character.
pub fn check_header_value_str(s: &str) -> (r: bool)
    ensures
        r == header_value_str_ok(s@),
{
    let len = s.unicode_len();
    let mut i: usize = 0;
    while i < len
        invariant
            i <= len,
            len == s@.len(),
            forall|j: int| 0 <= j < i ==> header_value_char_ok(#[trigger] s@[j]),
        decreases len - i,
    {
        let c = s.get_char(i);
        let u = c as u32;
        if !(u == 9 || (32 <= u && u != 127)) {
            return false;
        }
        i += 1;
    }
    true
}

/// Whether every byte of `v` is a legal header value byte.
pub fn check_header_value_bytes(v: &Vec<u8>) -> (r: bool)
    ensures
        r == header_value_bytes_ok(v@),
{
    let mut i: usize = 0;
    while i < v.len()
        invariant
            i <= v.len(),
            forall|j: int| 0 <= j < i ==> header_value_byte_ok(#[trigger] v@[j]),
        decreases v.len() - i,
    {
        let b = v[i];
        if !(b == 9 || (32 <= b && b != 127)) {
            return false;
        }
        i += 1;
    }
    true
}

/// Whether `s` is a legal header name: non-empty and made of token
/// characters. Callers of [`ClientBuilder::header`] must check this first.
pub fn check_header_name(s: &str) -> (r: bool)
    ensures
        r == valid_header_name(s@),
{
    let len = s.unicode_len();
    if len == 0 {
        return false;
    }
    let mut i: usize = 0;
    while i < len
        invariant
            i <= len,
            len == s@.len(),
            forall|j: int| 0 <= j < i ==> header_name_char_ok(#[trigger] s@[j]),
        decreases len - i,
    {
        let c = s.get_char(i);
        let u = c as u32;
        let ok = (97 <= u && u <= 122) || (65 <= u && u <= 90) || (48 <= u && u <= 57) || u == 33
            || u == 35 || u == 36 || u == 37 || u == 38 || u == 39 || u == 42 || u == 43 || u == 45
            || u == 46 || u == 94 || u == 95 || u == 96 || u == 124 || u == 126;
        if !ok {
            return false;
        }
        i += 1;
    }
    true
}

/// Configures and assembles a [`Client`]: URL, headers, reconnect policy, and
/// the starting resumption id.
#[derive(Debug)]
pub struct ClientBuilder {
    /// The target URL, already known to parse as a URI.
    pub url: String,
    /// The header set so far.
    pub headers: Vec<Header>,
    /// The reconnect policy.
    pub reconnect_opts: ReconnectOptions,
    /// The resumption id the first connection attempt announces; empty for
    /// none.
    pub last_event_id: Vec<u8>,
}

impl ClientBuilder {
    /// Set an HTTP header on the SSE request, overwriting an existing header
    /// of the same name. Fails exactly when the value is not legal header
    /// text; the name must be a legal header name.
    pub fn header(self, key: &str, value: &str) -> (r: Result<ClientBuilder, Error>)
        requires
            valid_header_name(key@),
        ensures
            r is Ok <==> header_value_str_ok(value@),
            r matches Ok(b) ==> {
                &&& b.url@ == self.url@
                &&& headers_model(b.headers@) == insert_header(
                    headers_model(self.headers@),
                    key@,
                    value@,
                )
                &&& b.reconnect_opts == self.reconnect_opts
                &&& b.last_event_id@ == self.last_event_id@
            },
            r matches Err(e) ==> e == Error::HttpRequest(ErrorCause::InvalidHeaderValue),
    {
        if !check_header_value_str(value) {
            return Err(Error::HttpRequest(ErrorCause::InvalidHeaderValue));
        }
        let mut this = self;
        let key_owned: String = key.to_owned();
        let idx = find_header_exec(&this.headers, &key_owned);
        let ghost hs0 = headers_model(this.headers@);
        let ghost goal = insert_header(hs0, key@, value@);
        if idx == this.headers.len() {
            let replacement = Header { name: key_owned, value: value.to_owned() };
            proof {
                assert(replacement@ =~= (HeaderModel { name: key@, value: value@ }));
            }
            this.headers.push(replacement);
            proof {
                assert(headers_model(this.headers@) =~~= goal);
            }
        } else {
            let mut out: Vec<Header> = Vec::new();
            let mut k: usize = 0;
            while k < this.headers.len()
                invariant
                    k <= this.headers@.len(),
                    idx < this.headers@.len(),
                    valid_header_name(key@),
                    hs0 == headers_model(this.headers@),
                    goal == hs0.update(idx as int, HeaderModel { name: key@, value: value@ }),
                    out@.len() == k,
                    forall|j: int| 0 <= j < k ==> #[trigger] out@[j]@ == goal[j],
                decreases this.headers@.len() - k,
            {
                if k == idx {
                    let replacement = Header { name: key.to_owned(), value: value.to_owned() };
                    proof {
                        assert(replacement@ =~= (HeaderModel { name: key@, value: value@ }));
                    }
                    out.push(replacement);
                } else {
                    out.push(this.headers[k].clone());
                    proof {
                        assert(this.headers@[k as int]@ == hs0[k as int]);
                        assert(hs0[k as int] == goal[k as int]);
                    }
                }
                k += 1;
            }
            proof {
                assert forall|j: int| 0 <= j < goal.len() implies headers_model(out@)[j]
                    == goal[j] by {
                    assert(out@[j]@ == goal[j]);
                }
                assert(headers_model(out@) =~= goal);
            }
            this.headers = out;
        }
        Ok(this)
    }

    /// Set the resumption id announced on the stream's first connection
    /// attempt, so the server can replay missed events.
    pub fn last_event_id(self, last_event_id: String) -> (b: ClientBuilder)
        ensures
            b.url@ == self.url@,
            headers_model(b.headers@) == headers_model(self.headers@),
            b.reconnect_opts == self.reconnect_opts,
            b.last_event_id@ == vstd::utf8::encode_utf8(last_event_id@),
    {
        let mut this = self;
        this.last_event_id = last_event_id.as_str().as_bytes_vec();
        this
    }

    /// Replace the reconnect policy.
    pub fn reconnect(self, opts: ReconnectOptions) -> (b: ClientBuilder)
        ensures
            b.url@ == self.url@,
            headers_model(b.headers@) == headers_model(self.headers@),
            b.reconnect_opts == opts,
            b.last_event_id@ == self.last_event_id@,
    {
        let mut this = self;
        this.reconnect_opts = opts;
        this
    }

    /// Assemble the client: the transport-independent part that every build
    /// variant shares. The transport itself lives with the caller.
    pub fn build_client(self) -> (c: Client)
        ensures
            c.props@.url == self.url@,
            c.props@.headers == headers_model(self.headers@),
            c.props@.reconnect_opts == self.reconnect_opts,
            c.last_event_id@ == self.last_event_id@,
    {
        Client {
            props: RequestProps {
                url: self.url,
                headers: self.headers,
                reconnect_opts: self.reconnect_opts,
            },
            last_event_id: self.last_event_id,
        }
    }
}

/// Index of the first header named `name`, or the length when none is.
fn find_header_exec(hs: &Vec<Header>, name: &String) -> (r: usize)
    ensures
        r as int == find_header(headers_model(hs@), name@),
        r <= hs.len(),
{
    proof {
        assert(forall|j: int|
            0 <= j < hs@.len() ==> headers_model(hs@)[j] == #[trigger] hs@[j]@);
    }
    let mut i: usize = 0;
    while i < hs.len()
        invariant
            i <= hs.len(),
            forall|j: int| 0 <= j < i ==> headers_model(hs@)[j].name != name@,
            forall|j: int| 0 <= j < hs@.len() ==> headers_model(hs@)[j] == #[trigger] hs@[j]@,
        decreases hs.len() - i,
    {
        if hs[i].name.eq(name) {
            proof {
                lemma_find_header_at(headers_model(hs@), name@, i as int);
            }
            return i;
        }
        i += 1;
    }
    proof {
        lemma_find_header_at(headers_model(hs@), name@, hs@.len() as int);
    }
    hs.len()
}

/// `find_header` yields the position before which the name nowhere occurs.
proof fn lemma_find_header_at(hs: Seq<HeaderModel>, name: Seq<char>, i: int)
    requires
        0 <= i <= hs.len(),
        forall|j: int| 0 <= j < i ==> hs[j].name != name,
        i < hs.len() ==> hs[i].name == name,
    ensures
        find_header(hs, name) == i,
    decreases i,
{
    if i == 0 {
    } else {
        assert(forall|j: int| 0 <= j < i - 1 ==> hs.drop_first()[j] == hs[j + 1]);
        lemma_find_header_at(hs.drop_first(), name, i - 1);
    }
}

/// Connects to a server using the Server-Sent-Events protocol and hands out
/// event streams. Holds only the immutable request template and the starting
/// resumption id; the transport handle lives with the caller that drives the
/// streams.
#[derive(Debug)]
pub struct Client {
    /// The request template every stream starts from.
    pub props: RequestProps,
    /// The resumption id seeded into every new stream.
    pub last_event_id: Vec<u8>,
}

impl Client {
    /// Begin building a client for the given URL, seeded with the default
    /// headers (`Accept: text/event-stream`, `Cache-Control: no-cache`), the
    /// default reconnect policy, and no resumption id. Fails exactly when the
    /// URL does not parse as a URI.
    pub fn for_url(url: &str) -> (r: Result<ClientBuilder, Error>)
        ensures
            r is Ok <==> uri_ok(url@),
            r matches Ok(b) ==> {
                &&& b.url@ == url@
                &&& headers_model(b.headers@) == default_headers()
                &&& b.reconnect_opts == crate::config::default_reconnect_options()
                &&& b.last_event_id@ == Seq::<u8>::empty()
            },
            r matches Err(e) ==> e == Error::HttpRequest(ErrorCause::InvalidUrl),
    {
        if !parse_uri_ok(url) {
            return Err(Error::HttpRequest(ErrorCause::InvalidUrl));
        }
        let mut headers: Vec<Header> = Vec::new();
        headers.push(Header { name: "Accept".to_owned(), value: "text/event-stream".to_owned() });
        headers.push(
            Header { name: "Cache-Control".to_owned(), value: "no-cache".to_owned() },
        );
        proof {
            assert(headers_model(headers@) =~= default_headers());
        }
        Ok(
            ClientBuilder {
                url: url.to_owned(),
                headers,
                reconnect_opts: ReconnectOptions::default(),
                last_event_id: Vec::new(),
            },
        )
    }

    /// A new, independent reconnecting request against the configured
    /// endpoint: it shares the request template and the starting resumption
    /// id, but owns its parser, backoff state and resumption id, so streams
    /// never affect one another. No network activity happens until the
    /// returned machine is driven.
    pub fn stream(&self) -> (r: ReconnectingRequest)
        ensures
            r.props@ == self.props@,
            r.state == State::New,
            r.next_reconnect_delay == self.props.reconnect_opts.delay_ms,
            r.event_parser@ == initial_parser(),
            r.last_event_id@ == self.last_event_id@,
    {
        ReconnectingRequest::new(self.props.clone(), clone_bytes(&self.last_event_id))
    }
}

/// Where a stream stands: no request issued yet, a request in flight, a body
/// being read, or a backoff wait running. The in-flight request, body or
/// timer itself is owned by the driver.
#[derive(Clone, Copy, Debug, PartialEq, Eq, Structural)]
pub enum State {
    /// No request has been issued yet.
    New,
    /// The HTTP request is in flight; `retry` says whether a failure here is
    /// retried rather than surfaced.
    Connecting {
        /// Whether a transport failure of this attempt is retried.
        retry: bool,
    },
    /// A success response arrived; its body is being read.
    Connected,
    /// A backoff timer is running; the next request is issued when it fires.
    WaitingToReconnect,
}

/// The name of a state, for diagnostics.
pub open spec fn spec_state_name(s: State) -> Seq<char> {
    match s {
        State::New => "new"@,
        State::Connecting { retry: false } => "connecting(no-retry)"@,
        State::Connecting { retry: true } => "connecting(retry)"@,
        State::Connected => "connected"@,
        State::WaitingToReconnect => "waiting-to-reconnect"@,
    }
}

impl State {
    /// The state's name, for diagnostics.
    pub fn name(&self) -> (r: &'static str)
        ensures
            r@ == spec_state_name(*self),
    {
        match self {
            State::New => "new",
            State::Connecting { retry: false } => "connecting(no-retry)",
            State::Connecting { retry: true } => "connecting(retry)",
            State::Connected => "connected",
            State::WaitingToReconnect => "waiting-to-reconnect",
        }
    }
}

/// What the driver observed its pending operation yield.
#[derive(Debug)]
pub enum StreamEvent {
    /// The machine was polled while no request was issued yet.
    Poll,
    /// The awaited response arrived, with this HTTP status.
    Response(u16),
    /// The transport failed while awaiting the response.
    ConnectFailed,
    /// A body chunk arrived with these bytes.
    Chunk(Vec<u8>),
    /// The body ended cleanly.
    BodyEnd,
    /// The transport failed while reading the body.
    BodyFailed,
    /// The backoff timer fired.
    TimerExpired,
}

/// What the driver must do next.
#[derive(Debug)]
pub enum StreamAction {
    /// Issue this request and await its response.
    SendRequest(OutgoingRequest),
    /// Wait this many milliseconds, then report [`StreamEvent::TimerExpired`].
    Backoff(u64),
    /// Nothing pending changed state; drain events and step again.
    Continue,
    /// The stream ended gracefully: no more items, no error.
    End,
    /// The stream ended with this fatal error; do not step again.
    Fail(Error),
}

/// The request a connection attempt sends: method GET, the template's URL and
/// headers, and — when one is known — the resumption id to announce as the
/// `Last-Event-ID` header.
#[derive(Debug)]
pub struct OutgoingRequest {
    /// The target URL.
    pub url: String,
    /// The template headers.
    pub headers: Vec<Header>,
    /// The resumption id to send as the `Last-Event-ID` header; `None` when
    /// no resumption point is known.
    pub last_event_id: Option<Vec<u8>>,
}

/// The mathematical model of an [`OutgoingRequest`].
#[verifier::ext_equal]
pub struct OutgoingRequestModel {
    /// The target URL.
    pub url: Seq<char>,
    /// The template headers.
    pub headers: Seq<HeaderModel>,
    /// The announced resumption id, when one is known.
    pub last_event_id: Option<Seq<u8>>,
}

impl View for OutgoingRequest {
    type V = OutgoingRequestModel;

    open spec fn view(&self) -> OutgoingRequestModel {
        OutgoingRequestModel {
            url: self.url@,
            headers: headers_model(self.headers@),
            last_event_id: match self.last_event_id {
                Some(ref id) => Some(id@),
                None => None,
            },
        }
    }
}

/// The request that a template and a resumption id give: the id is announced
/// exactly when it is non-empty.
pub open spec fn spec_request(props: RequestPropsModel, id: Seq<u8>) -> OutgoingRequestModel {
    OutgoingRequestModel {
        url: props.url,
        headers: props.headers,
        last_event_id: if id.len() > 0 {
            Some(id)
        } else {
            None
        },
    }
}

/// A resumption id can be sent when it is empty (nothing is announced) or
/// legal as a header value.
pub open spec fn id_sendable(id: Seq<u8>) -> bool {
    id.len() == 0 || header_value_bytes_ok(id)
}

/// The resumption id after one event is emitted: the event's id when it has
/// one, the old id otherwise.
pub open spec fn updated_id(id: Seq<u8>, ev: EventModel) -> Seq<u8> {
    if ev.id.len() > 0 {
        ev.id
    } else {
        id
    }
}

/// A 2xx HTTP status.
pub open spec fn is_success_status(status: u16) -> bool {
    200 <= status && status < 300
}

/// Which events may be reported in which state: the driver reports only what
/// its current pending operation can yield.
pub open spec fn event_fits_state(s: State, ev: StreamEvent) -> bool {
    match ev {
        StreamEvent::Poll => s is New,
        StreamEvent::Response(_) => s is Connecting,
        StreamEvent::ConnectFailed => s is Connecting,
        StreamEvent::Chunk(_) => s is Connected,
        StreamEvent::BodyEnd => s is Connected,
        StreamEvent::BodyFailed => s is Connected,
        StreamEvent::TimerExpired => s is WaitingToReconnect,
    }
}

/// The machine's bookkeeping other than the parser is untouched.
pub open spec fn machine_unchanged(pre: ReconnectingRequest, post: ReconnectingRequest) -> bool {
    &&& post.state == pre.state
    &&& post.next_reconnect_delay == pre.next_reconnect_delay
    &&& post.event_parser == pre.event_parser
}

/// A connection attempt is started: the request announcing the current
/// resumption id is handed to the driver and the machine moves to Connecting
/// with the given retry flag — unless a non-empty resumption id cannot be
/// sent as a header value, which is a fatal construction error.
pub open spec fn sends_request(
    pre: ReconnectingRequest,
    post: ReconnectingRequest,
    r: StreamAction,
    retry: bool,
) -> bool {
    if id_sendable(pre.last_event_id@) {
        &&& (r matches StreamAction::SendRequest(req) && req@ == spec_request(
            pre.props@,
            pre.last_event_id@,
        ))
        &&& post.state == (State::Connecting { retry })
        &&& post.next_reconnect_delay == pre.next_reconnect_delay
        &&& post.event_parser == pre.event_parser
    } else {
        &&& r == StreamAction::Fail(Error::HttpRequest(ErrorCause::InvalidLastEventId))
        &&& machine_unchanged(pre, post)
    }
}

/// A backoff wait is scheduled: the driver is told to wait the current
/// delay, the stored delay grows (capped), and the machine waits to
/// reconnect.
pub open spec fn schedules_backoff(
    pre: ReconnectingRequest,
    post: ReconnectingRequest,
    r: StreamAction,
) -> bool {
    &&& r == StreamAction::Backoff(pre.next_reconnect_delay)
    &&& post.state == State::WaitingToReconnect
    &&& post.next_reconnect_delay as int == next_delay_ms(
        pre.props.reconnect_opts,
        pre.next_reconnect_delay,
    )
    &&& post.event_parser == pre.event_parser
}

/// One stream of events: the request template, the state of the connection,
/// the backoff bookkeeping, the parser, and the resumption id. Driven by
/// [`ReconnectingRequest::step`]; do not drive it further after a
/// [`StreamAction::Fail`] or a [`StreamAction::End`].
///
/// The stream keeps one parser for its whole lifetime: a record interrupted
/// by a disconnection deliberately continues accumulating into the same
/// partial buffer when the reconnected body resumes it.
#[derive(Debug)]
pub struct ReconnectingRequest {
    /// The immutable request template.
    pub props: RequestProps,
    /// Where the stream stands.
    pub state: State,
    /// The wait the next backoff occasion uses, in milliseconds.
    pub next_reconnect_delay: u64,
    /// The parser that turns body bytes into events.
    pub event_parser: EventParser,
    /// The id of the last event seen; empty when none carried one.
    pub last_event_id: Vec<u8>,
}

impl ReconnectingRequest {
    /// A fresh machine: nothing issued, the backoff at the policy's initial
    /// delay, an empty parser, and the given starting resumption id.
    pub fn new(props: RequestProps, last_event_id: Vec<u8>) -> (r: ReconnectingRequest)
        ensures
            r.props == props,
            r.state == State::New,
            r.next_reconnect_delay == props.reconnect_opts.delay_ms,
            r.event_parser@ == initial_parser(),
            r.last_event_id == last_event_id,
    {
        let next_reconnect_delay = props.reconnect_opts.delay_ms;
        ReconnectingRequest {
            props,
            state: State::New,
            next_reconnect_delay,
            event_parser: EventParser::new(),
            last_event_id,
        }
    }

    /// Build the request a connection attempt sends: the template's URL and
    /// headers, announcing the resumption id when one is known. Fails exactly
    /// when a non-empty resumption id cannot be sent as a header value.
    pub fn send_request(&self) -> (r: Result<OutgoingRequest, Error>)
        ensures
            r is Ok <==> id_sendable(self.last_event_id@),
            r matches Ok(req) ==> req@ == spec_request(self.props@, self.last_event_id@),
            r matches Err(e) ==> e == Error::HttpRequest(ErrorCause::InvalidLastEventId),
    {
        let last_event_id = if self.last_event_id.len() > 0 {
            if !check_header_value_bytes(&self.last_event_id) {
                return Err(Error::HttpRequest(ErrorCause::InvalidLastEventId));
            }
            Some(clone_bytes(&self.last_event_id))
        } else {
            None
        };
        let req = OutgoingRequest {
            url: self.url_clone(),
            headers: clone_headers(&self.props.headers),
            last_event_id,
        };
        proof {
            assert(req@ =~= spec_request(self.props@, self.last_event_id@));
        }
        Ok(req)
    }

    /// A copy of the template's URL.
    fn url_clone(&self) -> (r: String)
        ensures
            r@ == self.props.url@,
    {
        self.props.url.clone()
    }

    /// Take the wait for the backoff occasion being scheduled, and store the
    /// grown, capped wait for the next one.
    pub fn backoff(&mut self) -> (delay: u64)
        ensures
            delay == old(self).next_reconnect_delay,
            final(self).next_reconnect_delay as int == next_delay_ms(
                old(self).props.reconnect_opts,
                old(self).next_reconnect_delay,
            ),
            final(self).props == old(self).props,
            final(self).state == old(self).state,
            final(self).event_parser == old(self).event_parser,
            final(self).last_event_id == old(self).last_event_id,
    {
        let delay = self.next_reconnect_delay;
        let factor = self.props.reconnect_opts.backoff_factor;
        let max = self.props.reconnect_opts.delay_max_ms;
        proof {
            vstd::arithmetic::mul::lemma_mul_upper_bound(
                delay as int,
                u64::MAX as int,
                factor as int,
                u32::MAX as int,
            );
        }
        let grown: u128 = (delay as u128) * (factor as u128);
        let next: u64 = if grown >= (max as u128) {
            max
        } else {
            grown as u64
        };
        self.next_reconnect_delay = next;
        delay
    }

    /// Reset the stored wait to the policy's initial delay, as entering
    /// Connected does: backoff grows only across consecutive failures.
    pub fn reset_backoff(&mut self)
        ensures
            final(self).next_reconnect_delay == old(self).props.reconnect_opts.delay_ms,
            final(self).props == old(self).props,
            final(self).state == old(self).state,
            final(self).event_parser == old(self).event_parser,
            final(self).last_event_id == old(self).last_event_id,
    {
        self.next_reconnect_delay = self.props.reconnect_opts.delay_ms;
    }

    /// Remove and return the oldest parsed event, storing its id — when it
    /// has one — as the new resumption id. Returns nothing when no event is
    /// ready, leaving everything untouched.
    pub fn next_queued_event(&mut self) -> (r: Option<Event>)
        ensures
            final(self).props == old(self).props,
            final(self).state == old(self).state,
            final(self).next_reconnect_delay == old(self).next_reconnect_delay,
            old(self).event_parser@.queue.len() == 0 ==> r is None && final(self).event_parser@
                == old(self).event_parser@ && final(self).last_event_id == old(
                self,
            ).last_event_id,
            old(self).event_parser@.queue.len() > 0 ==> {
                &&& r matches Some(e)
                &&& e@ == old(self).event_parser@.queue[0]
                &&& final(self).event_parser@ == (crate::event_parser::ParserModel {
                    queue: old(self).event_parser@.queue.drop_first(),
                    ..old(self).event_parser@
                })
                &&& final(self).last_event_id@ == updated_id(
                    old(self).last_event_id@,
                    old(self).event_parser@.queue[0],
                )
            },
    {
        match self.event_parser.get_event() {
            None => None,
            Some(event) => {
                if event.id.len() > 0 {
                    self.last_event_id = clone_bytes(&event.id);
                }
                Some(event)
            },
        }
    }

    /// Advance the machine by one observed event, deciding the driver's next
    /// action. Each arm of the contract states one transition of the machine:
    /// what is sent, when a backoff wait is scheduled and for how long, which
    /// conditions end the stream gracefully, and which errors are fatal.
    pub fn step(&mut self, ev: StreamEvent) -> (r: StreamAction)
        requires
            event_fits_state(old(self).state, ev),
        ensures
            final(self).props == old(self).props,
            final(self).last_event_id == old(self).last_event_id,
            // No request issued yet: build and send one; the very first attempt
            // is retried on failure only when the policy says so.
            ev is Poll ==> sends_request(
                *old(self),
                *final(self),
                r,
                old(self).props.reconnect_opts.retry_initial,
            ),
            // The backoff wait ended: send a new request; every attempt after
            // the first is retried on failure.
            ev is TimerExpired ==> sends_request(*old(self), *final(self), r, true),
            // The response arrived: a non-success status is fatal whatever the
            // retry flag says; a success resets the backoff and starts the body.
            ev matches StreamEvent::Response(status) ==> (if is_success_status(status) {
                &&& r is Continue
                &&& final(self).state == State::Connected
                &&& final(self).next_reconnect_delay == old(self).props.reconnect_opts.delay_ms
                &&& final(self).event_parser == old(self).event_parser
            } else {
                &&& r == StreamAction::Fail(
                    Error::HttpRequest(ErrorCause::UnexpectedStatus(status)),
                )
                &&& machine_unchanged(*old(self), *final(self))
            }),
            // The connection attempt failed: retried with the current backoff
            // wait when the attempt's retry flag is set, fatal otherwise — and
            // then the machine never enters the waiting state.
            ev is ConnectFailed ==> (old(self).state matches State::Connecting { retry } ==> (
            if retry {
                schedules_backoff(*old(self), *final(self), r)
            } else {
                r == StreamAction::Fail(Error::HttpStream(ErrorCause::Transport))
                    && machine_unchanged(*old(self), *final(self))
            })),
            // A body chunk arrived: feed the parser; a bad `id` field is fatal.
            ev matches StreamEvent::Chunk(bytes) ==> {
                &&& final(self).event_parser@ == ingest_bytes(old(self).event_parser@, bytes@)
                &&& final(self).state == old(self).state
                &&& final(self).next_reconnect_delay == old(self).next_reconnect_delay
                &&& (if final(self).event_parser@.failed {
                    r == StreamAction::Fail(Error::HttpStream(ErrorCause::InvalidEventId))
                } else {
                    r is Continue
                })
            },
            // The body ended or broke: with `reconnect` set, either way a
            // backoff wait is scheduled; otherwise a clean end is graceful and
            // a broken read is fatal.
            (ev is BodyEnd || ev is BodyFailed) && old(self).props.reconnect_opts.reconnect
                ==> schedules_backoff(*old(self), *final(self), r),
            ev is BodyEnd && !old(self).props.reconnect_opts.reconnect ==> r is End
                && machine_unchanged(*old(self), *final(self)),
            ev is BodyFailed && !old(self).props.reconnect_opts.reconnect ==> r
                == StreamAction::Fail(Error::HttpStream(ErrorCause::Transport))
                && machine_unchanged(*old(self), *final(self)),
    {
        match ev {
            StreamEvent::Poll => {
                match self.send_request() {
                    Ok(req) => {
                        let retry = self.props.reconnect_opts.retry_initial;
                        self.state = State::Connecting { retry };
                        StreamAction::SendRequest(req)
                    },
                    Err(e) => StreamAction::Fail(e),
                }
            },
            StreamEvent::Response(status) => {
                if 200 <= status && status < 300 {
                    self.reset_backoff();
                    self.state = State::Connected;
                    StreamAction::Continue
                } else {
                    StreamAction::Fail(Error::HttpRequest(ErrorCause::UnexpectedStatus(status)))
                }
            },
            StreamEvent::ConnectFailed => {
                let retry = match self.state {
                    State::Connecting { retry } => retry,
                    _ => false,
                };
                if retry {
                    let delay = self.backoff();
                    self.state = State::WaitingToReconnect;
                    StreamAction::Backoff(delay)
                } else {
                    StreamAction::Fail(Error::HttpStream(ErrorCause::Transport))
                }
            },
            StreamEvent::Chunk(bytes) => {
                match self.event_parser.process_bytes(&bytes) {
                    Ok(()) => StreamAction::Continue,
                    Err(e) => StreamAction::Fail(e),
                }
            },
            StreamEvent::BodyEnd => {
                if self.props.reconnect_opts.reconnect {
                    let delay = self.backoff();
                    self.state = State::WaitingToReconnect;
                    StreamAction::Backoff(delay)
                } else {
                    StreamAction::End
                }
            },
            StreamEvent::BodyFailed => {
                if self.props.reconnect_opts.reconnect {
                    let delay = self.backoff();
                    self.state = State::WaitingToReconnect;
                    StreamAction::Backoff(delay)
                } else {
                    StreamAction::Fail(Error::HttpStream(ErrorCause::Transport))
                }
            },
            StreamEvent::TimerExpired => {
                match self.send_request() {
                    Ok(req) => {
                        self.state = State::Connecting { retry: true };
                        StreamAction::SendRequest(req)
                    },
                    Err(e) => StreamAction::Fail(e),
                }
            },
        }
    }
}

/// The resumption id that the next connection attempt announces is exactly
/// the id of the last emitted event that carried one: after an event with a
/// non-empty (and sendable) id, the next request built announces that id;
/// an event without an id leaves the stored id alone; and a request built
/// before any event announces the seeded id when one was given and nothing
/// otherwise.
pub proof fn lemma_resumption_id(props: RequestPropsModel, id0: Seq<u8>, ev: EventModel)
    ensures
        ev.id.len() > 0 ==> spec_request(props, updated_id(id0, ev)).last_event_id == Some(ev.id),
        ev.id.len() == 0 ==> updated_id(id0, ev) == id0,
        id0.len() > 0 ==> spec_request(props, id0).last_event_id == Some(id0),
        id0.len() == 0 ==> spec_request(props, id0).last_event_id is None,
{
}

} // verus!
