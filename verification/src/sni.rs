//! Finding out where a TLS client wants to go, from the first bytes it
//! sends.

use vstd::prelude::*;
use vstd::slice::slice_subrange;
use vstd::utf8::decode_utf8;
use crate::error::ServerTaskError;
use crate::net::host::{lemma_host_of_server_name, Host, HostView, UpstreamAddr, UpstreamAddrView};
use crate::net::server_name::{parse_server_name, TlsServerName};
use crate::tls::client_hello::{ClientHello, ClientHelloParseError, ClientHelloView};
use crate::tls::extension::ExtensionType;
use crate::tls::handshake::{
    client_hello_of,
    is_message,
    HandshakeCoalesceError,
    HandshakeCoalescer,
    CLIENT_HELLO_TYPE,
};
use crate::tls::fragmentation::{fed_message, lemma_fragmentation_invariance};
use crate::tls::record::{
    consume,
    parse_record,
    parse_record_header,
    Consumption,
    ContentType,
    Record,
    RecordHeader,
    RecordParseError,
    MAX_FRAGMENT_SIZE,
};
use crate::tls::version::RawVersion;
use crate::wire::be16;

verus! {

/// What is known of the destination after some bytes were read.
pub ghost enum SniOutcome {
    /// The bytes end inside a record. The records before `offset` were
    /// read, and the coalescer holds `buffer`.
    NeedMoreData { offset: nat, buffer: Seq<u8> },
    Found(UpstreamAddrView),
    Failed(ServerTaskError),
}

/// The destination that a client hello names, on the given port.
pub open spec fn sni_upstream(hello: ClientHelloView, port: u16) -> Result<
    UpstreamAddrView,
    ServerTaskError,
> {
    match ClientHello::spec_get_ext(hello, ExtensionType::ServerName) {
        Ok(Some(data)) => match parse_server_name(data) {
            Ok(name) => Ok(UpstreamAddrView { host: HostView::Domain(decode_utf8(name)), port }),
            Err(_) => Err(
                ServerTaskError::InvalidClientProtocol(
                    "invalid server name in tls client hello message",
                ),
            ),
        },
        Ok(None) => Err(
            ServerTaskError::InvalidClientProtocol(
                "no server name found in tls client hello message",
            ),
        ),
        Err(_) => Err(
            ServerTaskError::InvalidClientProtocol("invalid extension in tls client hello request"),
        ),
    }
}

pub open spec fn outcome_of(r: Result<UpstreamAddrView, ServerTaskError>) -> SniOutcome {
    match r {
        Ok(u) => SniOutcome::Found(u),
        Err(e) => SniOutcome::Failed(e),
    }
}

/// The outcome once a handshake message was read as a client hello:
/// the destination it names, or `refusal` where it is no client hello.
pub open spec fn hello_outcome(
    hello: Result<ClientHelloView, ClientHelloParseError>,
    port: u16,
    refusal: &'static str,
) -> SniOutcome {
    match hello {
        Ok(h) => outcome_of(sni_upstream(h, port)),
        Err(_) => SniOutcome::Failed(ServerTaskError::InvalidClientProtocol(refusal)),
    }
}

/// What reading one record leads to.
pub ghost enum ScanStep {
    /// The search is over, or waits for more bytes.
    Done(SniOutcome),
    /// The record was read; the next one starts at `offset`.
    Next { offset: nat, buffer: Seq<u8> },
}

/// What the record that starts at `offset` in `data` tells, to a coalescer
/// that holds `buffer` and accepts `max` bytes.
///
/// The first handshake message must be a client hello, whole in this record
/// or made whole by it; its server name is the destination. A record that
/// carries no handshake data ends the search.
pub open spec fn scan_record(data: Seq<u8>, offset: nat, buffer: Seq<u8>, max: nat, port: u16)
    -> ScanStep {
    match parse_record(data.skip(offset as int)) {
        Err(RecordParseError::NeedMoreData(_)) => ScanStep::Done(
            SniOutcome::NeedMoreData { offset, buffer },
        ),
        Err(_) => ScanStep::Done(
            SniOutcome::Failed(
                ServerTaskError::InvalidClientProtocol("invalid tls client hello request"),
            ),
        ),
        Ok((header, fragment)) => match consume(header.content_type, fragment, buffer, max) {
            Err(_) => ScanStep::Done(
                SniOutcome::Failed(
                    ServerTaskError::InvalidClientProtocol("invalid tls client hello request"),
                ),
            ),
            Ok(Consumption::Message { msg_type, body, taken }) => ScanStep::Done(
                hello_outcome(
                    client_hello_of(msg_type, body),
                    port,
                    "invalid tls client hello request",
                ),
            ),
            Ok(Consumption::Absorbed { buffer: held, taken }) => if is_message(held) {
                ScanStep::Done(
                    hello_outcome(
                        client_hello_of(CLIENT_HELLO_TYPE, held.skip(4)),
                        port,
                        "invalid fragmented tls client hello request",
                    ),
                )
            } else if taken < fragment.len() {
                ScanStep::Done(
                    SniOutcome::Failed(
                        ServerTaskError::InvalidClientProtocol(
                            "partial fragmented tls client hello request",
                        ),
                    ),
                )
            } else {
                ScanStep::Next { offset: offset + 5 + fragment.len(), buffer: held }
            },
        },
    }
}

/// What the records in `data` from `offset` on tell: they are read one
/// after another until one ends the search or the bytes run out.
pub open spec fn scan_records(data: Seq<u8>, offset: nat, buffer: Seq<u8>, max: nat, port: u16)
    -> SniOutcome
    decreases data.len() - offset,
{
    if offset > data.len() {
        SniOutcome::NeedMoreData { offset, buffer }
    } else {
        match scan_record(data, offset, buffer, max, port) {
            ScanStep::Done(outcome) => outcome,
            ScanStep::Next { offset: next, buffer: held } => if next > offset {
                scan_records(data, next, held, max, port)
            } else {
                SniOutcome::NeedMoreData { offset, buffer }
            },
        }
    }
}

/// The destination that a client hello names.
pub fn parse_sni(ch: ClientHello, port: u16) -> (r: Result<UpstreamAddr, ServerTaskError>)
    ensures
        match sni_upstream(ch@, port) {
            Ok(u) => r matches Ok(addr) && addr@ == u,
            Err(e) => r == Err::<UpstreamAddr, ServerTaskError>(e),
        },
{
    match ch.get_ext(ExtensionType::ServerName) {
        Ok(Some(data)) => {
            match TlsServerName::from_extension_value(data) {
                Ok(sni) => {
                    proof {
                        lemma_host_of_server_name(sni);
                    }
                    Ok(UpstreamAddr::new(Host::from(sni), port))
                },
                Err(_) => Err(
                    ServerTaskError::InvalidClientProtocol(
                        "invalid server name in tls client hello message",
                    ),
                ),
            }
        },
        Ok(None) => Err(
            ServerTaskError::InvalidClientProtocol(
                "no server name found in tls client hello message",
            ),
        ),
        Err(_) => Err(
            ServerTaskError::InvalidClientProtocol("invalid extension in tls client hello request"),
        ),
    }
}

/// What a read from the client brought.
#[derive(Clone, Copy, Debug, PartialEq, Eq, Structural)]
pub enum ReadEvent {
    /// The client closed the connection.
    Closed,
    /// So many bytes were added to the buffer.
    Data(usize),
    /// The read failed.
    Failed,
}

/// What the parser asks of the caller, or tells it.
#[derive(Debug)]
pub enum SniParseStep {
    /// Read more from the client, then go on with the parser given back.
    NeedMoreData(SniRequestParser),
    /// The destination is known.
    Found(UpstreamAddr),
    /// The request is refused.
    Failed(ServerTaskError),
}

/// Reads the records that a client sends until its hello is whole.
///
/// The parser reads nothing itself. The caller keeps one buffer, appends to
/// it whatever the client sends, and hands the whole buffer to `advance`
/// each time.
#[derive(Debug)]
pub struct SniRequestParser {
    coalescer: HandshakeCoalescer,
    record_offset: usize,
    port: u16,
}

impl SniRequestParser {
    pub closed spec fn wf(&self) -> bool {
        &&& self.coalescer.wf()
        &&& !self.coalescer.consumed()
        &&& !is_message(self.coalescer.buffer())
    }

    /// Where in the buffer the next record starts.
    pub closed spec fn offset(&self) -> nat {
        self.record_offset as nat
    }

    /// What the coalescer holds.
    pub closed spec fn buffer(&self) -> Seq<u8> {
        self.coalescer.buffer()
    }

    /// The largest client hello that is accepted.
    pub closed spec fn limit(&self) -> nat {
        self.coalescer.limit()
    }

    pub closed spec fn port(&self) -> u16 {
        self.port
    }

    /// A parser for a connection that was accepted on `port`.
    pub fn new(port: u16, max_client_hello_size: u32) -> (r: Self)
        ensures
            r.wf(),
            r.offset() == 0,
            r.buffer() == Seq::<u8>::empty(),
            r.limit() == max_client_hello_size,
            r.port() == port,
    {
        SniRequestParser {
            coalescer: HandshakeCoalescer::new(max_client_hello_size),
            record_offset: 0,
            port,
        }
    }

    /// What to do after a read: give up where the client closed or the
    /// read failed, go on otherwise.
    pub fn on_read(event: ReadEvent) -> (r: Option<ServerTaskError>)
        ensures
            r == match event {
                ReadEvent::Closed => Some(ServerTaskError::ClosedByClient),
                ReadEvent::Data(n) => if n == 0 {
                    Some(ServerTaskError::ClosedByClient)
                } else {
                    None
                },
                ReadEvent::Failed => Some(ServerTaskError::ClientTcpReadFailed),
            },
    {
        match event {
            ReadEvent::Closed => Some(ServerTaskError::ClosedByClient),
            ReadEvent::Data(n) => {
                if n == 0 {
                    Some(ServerTaskError::ClosedByClient)
                } else {
                    None
                }
            },
            ReadEvent::Failed => Some(ServerTaskError::ClientTcpReadFailed),
        }
    }

    /// Whether `step` is what the parser returns for `outcome`.
    pub open spec fn answers(&self, step: SniParseStep, outcome: SniOutcome) -> bool {
        match outcome {
            SniOutcome::NeedMoreData { offset, buffer } => {
                &&& step matches SniParseStep::NeedMoreData(p)
                &&& p.wf()
                &&& p.offset() == offset
                &&& p.buffer() == buffer
                &&& p.limit() == self.limit()
                &&& p.port() == self.port()
            },
            SniOutcome::Found(u) => step matches SniParseStep::Found(addr) && addr@ == u,
            SniOutcome::Failed(e) => step matches SniParseStep::Failed(err) && err == e,
        }
    }

    /// Ends the search on a handshake message that was read as a client
    /// hello.
    fn conclude(
        &self,
        hello: Result<ClientHello, ClientHelloParseError>,
        refusal: &'static str,
        Ghost(view): Ghost<Result<ClientHelloView, ClientHelloParseError>>,
    ) -> (r: SniParseStep)
        requires
            match view {
                Ok(v) => hello matches Ok(h) && h@ == v,
                Err(e) => hello == Err::<ClientHello, ClientHelloParseError>(e),
            },
        ensures
            self.answers(r, hello_outcome(view, self.port(), refusal)),
    {
        match hello {
            Ok(ch) => match parse_sni(ch, self.port) {
                Ok(addr) => SniParseStep::Found(addr),
                Err(e) => SniParseStep::Failed(e),
            },
            Err(_) => SniParseStep::Failed(ServerTaskError::InvalidClientProtocol(refusal)),
        }
    }

    /// Reads the record that starts at the parser's offset.
    fn read_record(self, data: &[u8]) -> (r: Result<SniRequestParser, SniParseStep>)
        requires
            self.wf(),
            self.offset() <= data@.len(),
        ensures
            match scan_record(data@, self.offset(), self.buffer(), self.limit(), self.port()) {
                ScanStep::Done(outcome) => r matches Err(step) && self.answers(step, outcome),
                ScanStep::Next { offset, buffer } => {
                    &&& r matches Ok(p)
                    &&& p.wf()
                    &&& p.offset() == offset
                    &&& p.buffer() == buffer
                    &&& p.limit() == self.limit()
                    &&& p.port() == self.port()
                    &&& self.offset() < offset <= data@.len()
                },
            },
    {
        let mut parser = self;
        let rest = slice_subrange(data, parser.record_offset, data.len());
        assert(rest@ == data@.skip(parser.record_offset as int));
        let mut record = match Record::parse(rest) {
            Ok(r) => r,
            Err(RecordParseError::NeedMoreData(_)) => {
                return Err(SniParseStep::NeedMoreData(parser));
            },
            Err(_) => {
                return Err(
                    SniParseStep::Failed(
                        ServerTaskError::InvalidClientProtocol("invalid tls client hello request"),
                    ),
                );
            },
        };
        proof {
            record.lemma_bounds();
        }
        let next_offset = parser.record_offset + record.encoded_len();
        let ghost left = record.remaining();
        assert(left == record.fragment());
        match record.consume_handshake(&mut parser.coalescer) {
            Ok(Some(msg)) => Err(
                parser.conclude(
                    msg.parse_client_hello(),
                    "invalid tls client hello request",
                    Ghost(client_hello_of(msg.msg_type, msg.body@)),
                ),
            ),
            Ok(None) => {
                let ghost held = parser.coalescer.buffer();
                match parser.coalescer.parse_client_hello() {
                    Ok(Some(ch)) => Err(
                        parser.conclude(
                            Ok(ch),
                            "invalid fragmented tls client hello request",
                            Ghost(client_hello_of(CLIENT_HELLO_TYPE, held.skip(4))),
                        ),
                    ),
                    Ok(None) => {
                        if !record.consume_done() {
                            Err(
                                SniParseStep::Failed(
                                    ServerTaskError::InvalidClientProtocol(
                                        "partial fragmented tls client hello request",
                                    ),
                                ),
                            )
                        } else {
                            parser.record_offset = next_offset;
                            Ok(parser)
                        }
                    },
                    Err(e) => Err(
                        parser.conclude(
                            Err(e),
                            "invalid fragmented tls client hello request",
                            Ghost(client_hello_of(CLIENT_HELLO_TYPE, held.skip(4))),
                        ),
                    ),
                }
            },
            Err(_) => Err(
                SniParseStep::Failed(
                    ServerTaskError::InvalidClientProtocol("invalid tls client hello request"),
                ),
            ),
        }
    }

    /// Reads as many records of `data` as are whole.
    pub fn advance(self, data: &[u8]) -> (r: SniParseStep)
        requires
            self.wf(),
        ensures
            self.answers(
                r,
                scan_records(data@, self.offset(), self.buffer(), self.limit(), self.port()),
            ),
    {
        let mut parser = self;
        loop
            invariant
                parser.wf(),
                parser.limit() == self.limit(),
                parser.port() == self.port(),
                scan_records(data@, self.offset(), self.buffer(), self.limit(), self.port())
                    == scan_records(
                    data@,
                    parser.offset(),
                    parser.buffer(),
                    parser.limit(),
                    parser.port(),
                ),
            decreases data@.len() - parser.offset(),
        {
            if parser.record_offset > data.len() {
                return SniParseStep::NeedMoreData(parser);
            }
            match parser.read_record(data) {
                Ok(next) => {
                    parser = next;
                },
                Err(step) => {
                    return step;
                },
            }
        }
    }
}

/// A record that is whole in a buffer is read the same once more bytes
/// were appended to the buffer.
proof fn lemma_record_in_prefix(prefix: Seq<u8>, data: Seq<u8>, offset: nat)
    requires
        prefix.is_prefix_of(data),
        offset <= prefix.len(),
        parse_record(prefix.skip(offset as int)) is Ok,
    ensures
        parse_record(data.skip(offset as int)) == parse_record(prefix.skip(offset as int)),
{
    let p = prefix.skip(offset as int);
    let d = data.skip(offset as int);
    assert(forall|i: int| 0 <= i < p.len() ==> p[i] == d[i]);
    let (header, fragment) = parse_record(p)->Ok_0;
    assert(parse_record_header(d) == parse_record_header(p));
    assert(d.subrange(5, 5 + header.fragment_len as int) == fragment);
}

proof fn lemma_resume(
    prefix: Seq<u8>,
    data: Seq<u8>,
    offset: nat,
    buffer: Seq<u8>,
    max: nat,
    port: u16,
)
    requires
        prefix.is_prefix_of(data),
        scan_records(prefix, offset, buffer, max, port) is NeedMoreData,
    ensures
        ({
            let paused = scan_records(prefix, offset, buffer, max, port);
            &&& scan_records(data, offset, buffer, max, port) == scan_records(
                data,
                paused->offset,
                paused->buffer,
                max,
                port,
            )
            &&& offset <= data.len() ==> paused->offset <= data.len()
        }),
    decreases prefix.len() - offset,
{
    if offset <= prefix.len() {
        match scan_record(prefix, offset, buffer, max, port) {
            ScanStep::Done(outcome) => {},
            ScanStep::Next { offset: next, buffer: held } => {
                lemma_record_in_prefix(prefix, data, offset);
                assert(scan_record(data, offset, buffer, max, port) == scan_record(
                    prefix,
                    offset,
                    buffer,
                    max,
                    port,
                ));
                if next > offset {
                    lemma_resume(prefix, data, next, held, max, port);
                }
            },
        }
    }
}

/// Reading in several goes gives what reading in one go gives: where the
/// bytes read so far end inside a record, going on from there once more
/// bytes have come is the same as starting over on all the bytes.
pub proof fn lemma_reads_do_not_matter(prefix: Seq<u8>, data: Seq<u8>, max: nat, port: u16)
    requires
        prefix.is_prefix_of(data),
        scan_records(prefix, 0, Seq::empty(), max, port) is NeedMoreData,
    ensures
        ({
            let paused = scan_records(prefix, 0, Seq::empty(), max, port);
            scan_records(data, 0, Seq::empty(), max, port) == scan_records(
                data,
                paused->offset,
                paused->buffer,
                max,
                port,
            )
        }),
{
    lemma_resume(prefix, data, 0, Seq::empty(), max, port);
}

/// The bytes of one handshake record with the fragment `fragment`.
pub open spec fn encode_record(fragment: Seq<u8>, version: RawVersion) -> Seq<u8> {
    seq![
        ContentType::Handshake.code(),
        version.major,
        version.minor,
        (fragment.len() / 256) as u8,
        (fragment.len() % 256) as u8,
    ] + fragment
}

/// The bytes of handshake records with the fragments `parts`, one after
/// another.
pub open spec fn encode_records(parts: Seq<Seq<u8>>, version: RawVersion) -> Seq<u8>
    decreases parts.len(),
{
    if parts.len() == 0 {
        Seq::empty()
    } else {
        encode_record(parts.first(), version) + encode_records(parts.drop_first(), version)
    }
}

/// A record that was written is read back as it was written, whatever
/// follows it.
proof fn lemma_parse_encoded_record(fragment: Seq<u8>, version: RawVersion, tail: Seq<u8>)
    requires
        fragment.len() <= MAX_FRAGMENT_SIZE,
        version.is_known(),
    ensures
        parse_record(encode_record(fragment, version) + tail) == Ok::<
            (RecordHeader, Seq<u8>),
            RecordParseError,
        >(
            (
                RecordHeader {
                    version,
                    content_type: ContentType::Handshake,
                    fragment_len: fragment.len() as u16,
                },
                fragment,
            ),
        ),
        (encode_record(fragment, version) + tail).skip(5 + fragment.len() as int) == tail,
{
    let here = encode_record(fragment, version) + tail;
    assert(here.len() >= 5 + fragment.len());
    assert(here[0] == 22 && here[1] == version.major && here[2] == version.minor);
    assert(here[3] == (fragment.len() / 256) as u8 && here[4] == (fragment.len() % 256) as u8);
    assert(be16(here[3], here[4]) == fragment.len());
    assert(here.subrange(5, 5 + fragment.len() as int) == fragment);
    assert(here.skip(5 + fragment.len() as int) == tail);
}

/// Where the whole of a fragment went to the coalescer and no message is
/// whole yet, the next record is read.
proof fn lemma_scan_next(
    data: Seq<u8>,
    offset: nat,
    buffer: Seq<u8>,
    max: nat,
    port: u16,
    header: RecordHeader,
    fragment: Seq<u8>,
    held: Seq<u8>,
)
    requires
        offset <= data.len(),
        parse_record(data.skip(offset as int)) == Ok::<(RecordHeader, Seq<u8>), RecordParseError>(
            (header, fragment),
        ),
        consume(header.content_type, fragment, buffer, max) == Ok::<
            Consumption,
            HandshakeCoalesceError,
        >(Consumption::Absorbed { buffer: held, taken: fragment.len() }),
        !is_message(held),
    ensures
        scan_records(data, offset, buffer, max, port) == scan_records(
            data,
            offset + 5 + fragment.len(),
            held,
            max,
            port,
        ),
{
}

/// Where a record holds or completes the first message, the search ends
/// with what the message says.
proof fn lemma_scan_done(
    data: Seq<u8>,
    offset: nat,
    buffer: Seq<u8>,
    max: nat,
    port: u16,
    header: RecordHeader,
    fragment: Seq<u8>,
)
    requires
        offset <= data.len(),
        parse_record(data.skip(offset as int)) == Ok::<(RecordHeader, Seq<u8>), RecordParseError>(
            (header, fragment),
        ),
        consume(header.content_type, fragment, buffer, max) is Ok,
    ensures
        match consume(header.content_type, fragment, buffer, max)->Ok_0 {
            Consumption::Message { msg_type, body, taken } => client_hello_of(msg_type, body)
                matches Ok(hello) ==> scan_records(data, offset, buffer, max, port) == outcome_of(
                sni_upstream(hello, port),
            ),
            Consumption::Absorbed { buffer: held, taken } => is_message(held) ==> (client_hello_of(
                CLIENT_HELLO_TYPE,
                held.skip(4),
            ) matches Ok(hello) ==> scan_records(data, offset, buffer, max, port) == outcome_of(
                sni_upstream(hello, port),
            )),
        },
{
}

proof fn lemma_scan_follows_fragments(
    data: Seq<u8>,
    offset: nat,
    buffer: Seq<u8>,
    max: nat,
    port: u16,
    parts: Seq<Seq<u8>>,
    version: RawVersion,
)
    requires
        offset <= data.len(),
        data.skip(offset as int) == encode_records(parts, version),
        version.is_known(),
        forall|i: int| 0 <= i < parts.len() ==> (#[trigger] parts[i]).len() <= MAX_FRAGMENT_SIZE,
        fed_message(buffer, max, parts) is Some,
        client_hello_of(
            fed_message(buffer, max, parts)->Some_0.0,
            fed_message(buffer, max, parts)->Some_0.1,
        ) is Ok,
    ensures
        scan_records(data, offset, buffer, max, port) == outcome_of(
            sni_upstream(
                client_hello_of(
                    fed_message(buffer, max, parts)->Some_0.0,
                    fed_message(buffer, max, parts)->Some_0.1,
                )->Ok_0,
                port,
            ),
        ),
    decreases parts.len(),
{
    let first = parts.first();
    let rest = parts.drop_first();
    let tail = encode_records(rest, version);
    assert(first == parts[0]);
    lemma_parse_encoded_record(first, version, tail);
    let header = RecordHeader {
        version,
        content_type: ContentType::Handshake,
        fragment_len: first.len() as u16,
    };
    let consumed = consume(ContentType::Handshake, first, buffer, max);
    assert(consumed is Ok);
    lemma_scan_done(data, offset, buffer, max, port, header, first);
    match consumed->Ok_0 {
        Consumption::Message { msg_type, body, taken } => {},
        Consumption::Absorbed { buffer: held, taken } => {
            if !is_message(held) {
                let next = offset + 5 + first.len();
                assert(taken == first.len());
                lemma_scan_next(data, offset, buffer, max, port, header, first, held);
                assert(data.skip(next as int) == tail) by {
                    assert(data.skip(offset as int).skip(5 + first.len() as int) == data.skip(
                        next as int,
                    ));
                }
                assert forall|i: int| 0 <= i < rest.len() implies (#[trigger] rest[i]).len()
                    <= MAX_FRAGMENT_SIZE by {
                    assert(rest[i] == parts[i + 1]);
                }
                lemma_scan_follows_fragments(data, next, held, max, port, rest, version);
            }
        },
    }
}

/// However a client hello is cut into records, the destination comes out
/// the same: that of the hello. The cuts may fall anywhere, also inside
/// the header of the message, and records without data may stand between
/// the others.
pub proof fn lemma_records_do_not_matter(
    msg: Seq<u8>,
    max: nat,
    port: u16,
    parts: Seq<Seq<u8>>,
    version: RawVersion,
)
    requires
        is_message(msg),
        msg[0] == CLIENT_HELLO_TYPE,
        msg.len() <= max,
        client_hello_of(CLIENT_HELLO_TYPE, msg.skip(4)) is Ok,
        parts.flatten() == msg,
        forall|i: int| 0 <= i < parts.len() ==> (#[trigger] parts[i]).len() <= MAX_FRAGMENT_SIZE,
        version.is_known(),
    ensures
        scan_records(encode_records(parts, version), 0, Seq::empty(), max, port) == outcome_of(
            sni_upstream(client_hello_of(CLIENT_HELLO_TYPE, msg.skip(4))->Ok_0, port),
        ),
{
    lemma_fragmentation_invariance(msg, max, parts);
    let data = encode_records(parts, version);
    assert(data.skip(0) == data);
    lemma_scan_follows_fragments(data, 0, Seq::empty(), max, port, parts, version);
}

} // verus!
