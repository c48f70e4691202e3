//! The handshake codec: bytes of an HTTP request go in, header fields and
//! values come out into a header map, and a flag says whether the request
//! asked for a protocol upgrade.
//!
//! The tokenizer is `http_muncher`'s `Parser`. It reports what it finds by
//! calling its handler; `HttpParser` is that handler, and what each call does
//! to it is verified here. What the tokenizer finds in given bytes is not
//! restated: the calls it makes and the two flags it leaves have names, each
//! a function of the chunks that the tokenizer was given, in the order and
//! with the cuts in which it was given them.

use vstd::prelude::*;
use crate::headers::{append_bytes, copy_bytes, HeaderMap};

verus! {

/// `http_muncher::Parser`, the tokenizer. Verus sees nothing inside it.
#[verifier::external_type_specification]
#[verifier::external_body]
#[verifier::reject_recursive_types(H)]
pub struct ExParser<H>(http_muncher::Parser<H>);

/// What a handler has collected: the header field that was reported last,
/// the value of that field as far as it has been reported, and the headers
/// entered so far.
pub struct Collected {
    pub field: Option<Seq<u8>>,
    pub value: Option<Seq<u8>>,
    pub headers: Map<Seq<u8>, Seq<u8>>,
}

/// A call that the tokenizer makes on its handler, with the bytes it passes.
/// The tokenizer may pass a field or a value in pieces, one call for each.
pub enum Callback {
    HeaderField(Seq<u8>),
    HeaderValue(Seq<u8>),
    HeadersComplete,
}

/// What a handler has collected before any call.
pub open spec fn nothing_collected() -> Collected {
    Collected { field: None, value: None, headers: Map::empty() }
}

/// What the handler answers the tokenizer after a call. It says no to a
/// value that no field precedes, which stops the tokenizer, and at the end
/// of the headers, which tells the tokenizer to leave the body alone.
pub open spec fn goes_on(state: Collected, call: Callback) -> bool {
    match call {
        Callback::HeaderField(bytes) => true,
        Callback::HeaderValue(bytes) => state.field is Some,
        Callback::HeadersComplete => false,
    }
}

/// What a handler has collected after a call.
///
/// Bytes of a field continue the field that was reported last while its
/// value has not begun, and begin a new field otherwise. Bytes of a value
/// continue the value of the field, and the value as it stands is entered
/// under the field, in place of what that name had before. A value that no
/// field precedes changes nothing, and neither does the end of the headers.
pub open spec fn after(state: Collected, call: Callback) -> Collected {
    match call {
        Callback::HeaderField(bytes) => Collected {
            field: Some(
                if state.field is Some && state.value is None {
                    state.field->Some_0 + bytes
                } else {
                    bytes
                },
            ),
            value: None,
            headers: state.headers,
        },
        Callback::HeaderValue(bytes) => if state.field is Some {
            let value = if state.value is Some {
                state.value->Some_0 + bytes
            } else {
                bytes
            };
            Collected {
                field: state.field,
                value: Some(value),
                headers: state.headers.insert(state.field->Some_0, value),
            }
        } else {
            state
        },
        Callback::HeadersComplete => state,
    }
}

/// What a handler has collected after a sequence of calls.
pub open spec fn after_all(state: Collected, calls: Seq<Callback>) -> Collected
    decreases calls.len(),
{
    if calls.len() == 0 {
        state
    } else {
        after(after_all(state, calls.drop_last()), calls.last())
    }
}

/// Whether two calls pass pieces of one field or of one value, when one
/// follows the other.
pub open spec fn continues(first: Callback, second: Callback) -> bool {
    ||| first is HeaderField && second is HeaderField
    ||| first is HeaderValue && second is HeaderValue
}

/// The one call that passes what two calls pass in pieces.
pub open spec fn join(first: Callback, second: Callback) -> Callback {
    match (first, second) {
        (Callback::HeaderField(a), Callback::HeaderField(b)) => Callback::HeaderField(a + b),
        (Callback::HeaderValue(a), Callback::HeaderValue(b)) => Callback::HeaderValue(a + b),
        _ => second,
    }
}

/// A sequence of calls with every run of pieces joined into one call.
pub open spec fn joined(calls: Seq<Callback>) -> Seq<Callback>
    decreases calls.len(),
{
    if calls.len() == 0 {
        calls
    } else {
        let head = joined(calls.drop_last());
        if head.len() > 0 && continues(head.last(), calls.last()) {
            head.drop_last().push(join(head.last(), calls.last()))
        } else {
            head.push(calls.last())
        }
    }
}

/// Calls made in two runs collect what the same calls collect in one run.
pub proof fn lemma_after_all_concat(state: Collected, first: Seq<Callback>, second: Seq<Callback>)
    ensures
        after_all(state, first + second) == after_all(after_all(state, first), second),
    decreases second.len(),
{
    if second.len() == 0 {
        assert(first + second =~= first);
    } else {
        lemma_after_all_concat(state, first, second.drop_last());
        assert((first + second).drop_last() =~= first + second.drop_last());
        assert((first + second).last() == second.last());
    }
}

/// A field or a value that comes in two pieces is collected as if it came
/// in one.
pub proof fn lemma_pieces_join(state: Collected, first: Callback, second: Callback)
    requires
        continues(first, second),
    ensures
        after(after(state, first), second) == after(state, join(first, second)),
{
    match (first, second) {
        (Callback::HeaderField(a), Callback::HeaderField(b)) => {
            if state.field is Some && state.value is None {
                assert((state.field->Some_0 + a) + b =~= state.field->Some_0 + (a + b));
            }
        },
        (Callback::HeaderValue(a), Callback::HeaderValue(b)) => {
            if state.field is Some {
                let name = state.field->Some_0;
                if state.value is Some {
                    assert((state.value->Some_0 + a) + b =~= state.value->Some_0 + (a + b));
                }
                let once = after(state, first);
                let whole = after(state, join(first, second));
                assert(once.headers.insert(name, whole.value->Some_0) =~= whole.headers);
            }
        },
        _ => {},
    }
}

/// Joining the pieces changes nothing of what is collected.
pub proof fn lemma_joined(state: Collected, calls: Seq<Callback>)
    ensures
        after_all(state, joined(calls)) == after_all(state, calls),
    decreases calls.len(),
{
    if calls.len() > 0 {
        let head = joined(calls.drop_last());
        lemma_joined(state, calls.drop_last());
        if head.len() > 0 && continues(head.last(), calls.last()) {
            let merged = head.drop_last().push(join(head.last(), calls.last()));
            assert(merged.drop_last() =~= head.drop_last());
            lemma_pieces_join(after_all(state, head.drop_last()), head.last(), calls.last());
        } else {
            assert(head.push(calls.last()).drop_last() =~= head);
        }
    }
}

/// However the tokenizer cut fields and values into pieces, the same is
/// collected: two sequences of calls that are the same once their pieces
/// are joined leave a handler in the same state.
pub proof fn lemma_pieces_do_not_matter(state: Collected, one: Seq<Callback>, other: Seq<Callback>)
    requires
        joined(one) == joined(other),
    ensures
        after_all(state, one) == after_all(state, other),
{
    lemma_joined(state, one);
    lemma_joined(state, other);
}

/// The handler of the tokenizer's calls. It keeps the header field that was
/// reported last and the value of that field as far as it was reported, and
/// enters the value into its header map.
pub struct HttpParser {
    current_key: Option<Vec<u8>>,
    current_value: Option<Vec<u8>>,
    headers: HeaderMap,
}

impl View for HttpParser {
    type V = Collected;

    closed spec fn view(&self) -> Collected {
        Collected {
            field: match self.current_key {
                Some(name) => Some(name@),
                None => None,
            },
            value: match self.current_value {
                Some(value) => Some(value@),
                None => None,
            },
            headers: self.headers@,
        }
    }
}

impl HttpParser {
    /// The header map is well formed.
    pub closed spec fn wf(&self) -> bool {
        self.headers.wf()
    }

    /// A handler that has collected nothing.
    pub fn new() -> (handler: HttpParser)
        ensures
            handler.wf(),
            handler@ == nothing_collected(),
    {
        HttpParser { current_key: None, current_value: None, headers: HeaderMap::new() }
    }

    /// The headers collected so far.
    pub fn headers(&self) -> (headers: &HeaderMap)
        requires
            self.wf(),
        ensures
            headers.wf(),
            headers@ == self@.headers,
    {
        &self.headers
    }

    /// The header field that was reported last.
    pub fn current_key(&self) -> (field: &Option<Vec<u8>>)
        ensures
            field is Some <==> self@.field is Some,
            field matches Some(name) ==> name@ == self@.field->Some_0,
    {
        &self.current_key
    }
}

impl http_muncher::ParserHandler for HttpParser {
    /// Bytes of a header field.
    fn on_header_field(&mut self, s: &[u8]) -> (go_on: bool)
        requires
            old(self).wf(),
        ensures
            final(self).wf(),
            final(self)@ == after(old(self)@, Callback::HeaderField(s@)),
            go_on == goes_on(old(self)@, Callback::HeaderField(s@)),
    {
        let mut field: Vec<u8> = Vec::new();
        if self.current_value.is_none() {
            match &self.current_key {
                Some(begun) => append_bytes(&mut field, begun.as_slice()),
                None => {},
            }
        }
        append_bytes(&mut field, s);
        self.current_key = Some(field);
        self.current_value = None;
        proof {
            let expected = after(old(self)@, Callback::HeaderField(s@));
            assert(self@.field->Some_0 =~= expected.field->Some_0);
        }
        true
    }

    /// Bytes of a header value.
    fn on_header_value(&mut self, s: &[u8]) -> (go_on: bool)
        requires
            old(self).wf(),
        ensures
            final(self).wf(),
            final(self)@ == after(old(self)@, Callback::HeaderValue(s@)),
            go_on == goes_on(old(self)@, Callback::HeaderValue(s@)),
    {
        match &self.current_key {
            None => false,
            Some(field) => {
                let name = copy_bytes(field.as_slice());
                let mut value: Vec<u8> = Vec::new();
                match &self.current_value {
                    Some(begun) => append_bytes(&mut value, begun.as_slice()),
                    None => {},
                }
                append_bytes(&mut value, s);
                let entered = copy_bytes(value.as_slice());
                proof {
                    let expected = after(old(self)@, Callback::HeaderValue(s@));
                    assert(value@ =~= expected.value->Some_0);
                }
                self.current_value = Some(value);
                self.headers.insert(name, entered);
                true
            },
        }
    }

    /// The end of the headers: the tokenizer is told to leave the body alone.
    fn on_headers_complete(&mut self) -> (go_on: bool)
        requires
            old(self).wf(),
        ensures
            final(self).wf(),
            final(self)@ == after(old(self)@, Callback::HeadersComplete),
            go_on == goes_on(old(self)@, Callback::HeadersComplete),
    {
        false
    }
}

/// The handler that a tokenizer holds.
pub uninterp spec fn parser_handler(parser: http_muncher::Parser<HttpParser>) -> HttpParser;

/// What `Parser::is_upgrade` returns for a tokenizer: whether the request
/// it has read asked for a protocol upgrade.
pub uninterp spec fn parser_upgrade(parser: http_muncher::Parser<HttpParser>) -> bool;

/// What `Parser::has_error` returns for a tokenizer: whether its last run
/// ended in an error.
pub uninterp spec fn parser_failed(parser: http_muncher::Parser<HttpParser>) -> bool;

/// The chunks that `Parser::parse` was given on a tokenizer since it was
/// made, in order.
pub uninterp spec fn parser_fed(parser: http_muncher::Parser<HttpParser>) -> Seq<Seq<u8>>;

/// The calls for header fields, header values and the end of the headers
/// that `Parser::parse` makes while it runs over the last of these chunks,
/// on a tokenizer that was made with a handler that had collected nothing
/// and was given the chunks before it.
pub uninterp spec fn tokenizer_calls(chunks: Seq<Seq<u8>>) -> Seq<Callback>;

/// The upgrade flag that `Parser::parse` leaves after the last of these
/// chunks, on such a tokenizer.
pub uninterp spec fn tokenizer_upgrade(chunks: Seq<Seq<u8>>) -> bool;

/// Whether `Parser::parse` leaves an error number other than zero after the
/// last of these chunks, on such a tokenizer.
pub uninterp spec fn tokenizer_failed(chunks: Seq<Seq<u8>>) -> bool;

/// `Parser::request`: a tokenizer for requests that holds the handler given
/// and has been given no chunk. Its flags start at zero, so it reports
/// neither an upgrade nor an error. The handler has collected nothing, so
/// that what it answers the tokenizer later depends on the chunks alone.
#[verifier::external_body]
fn request_parser(handler: HttpParser) -> (parser: http_muncher::Parser<HttpParser>)
    requires
        handler.wf(),
        handler@ == nothing_collected(),
    ensures
        parser_handler(parser) == handler,
        parser_fed(parser) == Seq::<Seq<u8>>::empty(),
        !parser_upgrade(parser),
        !parser_failed(parser),
{
    http_muncher::Parser::request(handler)
}

/// `Parser::parse`: the tokenizer runs over one more chunk. It reaches its
/// handler only by calling it, so the handler ends as the calls of this run
/// leave it. The tokenizer goes by its own state, the bytes and what the
/// handler answers, and all three follow from the chunks given so far: the
/// calls and the two flags are those that the names give for the chunks.
#[verifier::external_body]
fn parse_chunk(parser: &mut http_muncher::Parser<HttpParser>, data: &[u8])
    requires
        parser_handler(*old(parser)).wf(),
    ensures
        parser_handler(*final(parser)).wf(),
        parser_fed(*final(parser)) == parser_fed(*old(parser)).push(data@),
        parser_handler(*final(parser))@ == after_all(
            parser_handler(*old(parser))@,
            tokenizer_calls(parser_fed(*final(parser))),
        ),
        parser_upgrade(*final(parser)) == tokenizer_upgrade(parser_fed(*final(parser))),
        parser_failed(*final(parser)) == tokenizer_failed(parser_fed(*final(parser))),
{
    parser.parse(data);
}

/// `Parser::is_upgrade`: the upgrade flag as the tokenizer's last run left
/// it.
#[verifier::external_body]
fn upgrade_requested(parser: &http_muncher::Parser<HttpParser>) -> (upgrade: bool)
    ensures
        upgrade == parser_upgrade(*parser),
{
    parser.is_upgrade()
}

/// `Parser::has_error`: whether the tokenizer's last run left an error
/// number other than zero.
#[verifier::external_body]
fn parse_failed(parser: &http_muncher::Parser<HttpParser>) -> (failed: bool)
    ensures
        failed == parser_failed(*parser),
{
    parser.has_error()
}

/// `Parser::get`: the handler that the tokenizer holds. The tokenizer is
/// left as it was.
#[verifier::external_body]
fn handler_of(parser: &mut http_muncher::Parser<HttpParser>) -> (handler: &HttpParser)
    ensures
        *handler == parser_handler(*old(parser)),
        *final(parser) == *old(parser),
{
    parser.get()
}

/// What one run of the codec reports.
#[derive(Clone, Copy, Debug, PartialEq, Eq, Structural)]
pub struct ParseOutcome {
    /// The request asked for a protocol upgrade: the handshake headers are
    /// complete.
    pub upgrade: bool,
    /// The bytes were no well-formed request.
    pub failed: bool,
}

/// The codec of one connection: a tokenizer for requests with its handler.
pub struct HandshakeCodec {
    parser: http_muncher::Parser<HttpParser>,
}

impl HandshakeCodec {
    /// What the codec has collected.
    pub closed spec fn collected(&self) -> Collected {
        parser_handler(self.parser)@
    }

    /// Whether the tokenizer reports that the request asked for an upgrade.
    pub closed spec fn upgrade(&self) -> bool {
        parser_upgrade(self.parser)
    }

    /// Whether the tokenizer reports an error.
    pub closed spec fn failed(&self) -> bool {
        parser_failed(self.parser)
    }

    /// The chunks that the codec was fed, in order.
    pub closed spec fn fed(&self) -> Seq<Seq<u8>> {
        parser_fed(self.parser)
    }

    /// The handler's header map is well formed.
    pub closed spec fn wf(&self) -> bool {
        parser_handler(self.parser).wf()
    }

    /// A codec that has read nothing.
    pub fn new() -> (codec: HandshakeCodec)
        ensures
            codec.wf(),
            codec.collected() == nothing_collected(),
            codec.fed() == Seq::<Seq<u8>>::empty(),
            !codec.upgrade(),
            !codec.failed(),
    {
        HandshakeCodec { parser: request_parser(HttpParser::new()) }
    }

    /// Runs the tokenizer over the next bytes of the request. Every header
    /// that the tokenizer reports for them is in the header map when this
    /// returns, and the outcome is what the tokenizer makes of the chunks it
    /// has been fed so far.
    pub fn feed(&mut self, bytes: &[u8]) -> (outcome: ParseOutcome)
        requires
            old(self).wf(),
        ensures
            final(self).wf(),
            final(self).fed() == old(self).fed().push(bytes@),
            final(self).collected() == after_all(
                old(self).collected(),
                tokenizer_calls(final(self).fed()),
            ),
            outcome.upgrade == tokenizer_upgrade(final(self).fed()),
            outcome.failed == tokenizer_failed(final(self).fed()),
            final(self).upgrade() == outcome.upgrade,
            final(self).failed() == outcome.failed,
    {
        parse_chunk(&mut self.parser, bytes);
        ParseOutcome {
            upgrade: upgrade_requested(&self.parser),
            failed: parse_failed(&self.parser),
        }
    }

    /// The headers collected so far.
    pub fn headers(&mut self) -> (headers: &HeaderMap)
        requires
            old(self).wf(),
        ensures
            headers.wf(),
            headers@ == old(self).collected().headers,
            *final(self) == *old(self),
    {
        handler_of(&mut self.parser).headers()
    }
}

} // verus!
