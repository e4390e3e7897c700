//! The body of a client hello message.

use vstd::prelude::*;
use vstd::slice::{slice_subrange, slice_to_vec};
use crate::wire::{be16, read_be16};
use super::extension::{find_extension, get_extension, ExtensionParseError, ExtensionType};
use super::version::RawVersion;

verus! {

/// The longest session id that a hello message may carry.
pub const MAX_SESSION_ID_SIZE: usize = 32;

#[derive(Clone, Copy, Debug, PartialEq, Eq, Structural)]
pub enum ClientHelloParseError {
    /// The handshake message is of another type than client hello.
    InvalidMessageType(u8),
    /// The body ends before the field that is being read.
    NotEnoughData,
    /// The session id is longer than the protocol allows.
    InvalidSessionIdLength(u8),
    /// The cipher suites are empty or hold half a suite.
    InvalidCipherSuitesLength(u16),
    /// No compression method is offered.
    InvalidCompressionMethodsLength,
    /// The extensions do not fill the rest of the body exactly.
    InvalidExtensionsLength(u16),
}

/// A parsed client hello. It owns a copy of each field.
#[derive(Clone, Debug, PartialEq, Eq)]
pub struct ClientHello {
    pub legacy_version: RawVersion,
    random: Vec<u8>,
    session_id: Vec<u8>,
    cipher_suites: Vec<u8>,
    compression_methods: Vec<u8>,
    extensions: Option<Vec<u8>>,
}

/// What a client hello says, as mathematical values.
pub ghost struct ClientHelloView {
    pub legacy_version: RawVersion,
    pub random: Seq<u8>,
    pub session_id: Seq<u8>,
    pub cipher_suites: Seq<u8>,
    pub compression_methods: Seq<u8>,
    pub extensions: Option<Seq<u8>>,
}

impl View for ClientHello {
    type V = ClientHelloView;

    closed spec fn view(&self) -> ClientHelloView {
        ClientHelloView {
            legacy_version: self.legacy_version,
            random: self.random@,
            session_id: self.session_id@,
            cipher_suites: self.cipher_suites@,
            compression_methods: self.compression_methods@,
            extensions: match self.extensions {
                Some(e) => Some(e@),
                None => None,
            },
        }
    }
}

/// Offset of the cipher suites' length, given the body.
pub open spec fn cipher_suites_at(body: Seq<u8>) -> int {
    35 + body[34] as int
}

/// Offset of the compression methods' length, given the body.
pub open spec fn compression_at(body: Seq<u8>) -> int {
    let p = cipher_suites_at(body);
    p + 2 + be16(body[p], body[p + 1])
}

/// Offset of the extensions' length, given the body.
pub open spec fn extensions_at(body: Seq<u8>) -> int {
    let p = compression_at(body);
    p + 1 + body[p] as int
}

/// What the body of a client hello message says, or why it is refused.
///
/// The body holds, in this order: two bytes of version, 32 bytes of random,
/// a session id behind one byte of length, the cipher suites behind two
/// bytes of length, the compression methods behind one byte of length and,
/// if anything is left, the extensions behind two bytes of length, which
/// then fill the body to its end.
pub open spec fn parse_client_hello_body(body: Seq<u8>) -> Result<
    ClientHelloView,
    ClientHelloParseError,
> {
    let n = body.len() as int;
    if n < 35 {
        Err(ClientHelloParseError::NotEnoughData)
    } else if body[34] > MAX_SESSION_ID_SIZE {
        Err(ClientHelloParseError::InvalidSessionIdLength(body[34]))
    } else {
        let cs = cipher_suites_at(body);
        if n < cs + 2 {
            Err(ClientHelloParseError::NotEnoughData)
        } else {
            let cs_len = be16(body[cs], body[cs + 1]);
            if cs_len < 2 || cs_len % 2 != 0 {
                Err(ClientHelloParseError::InvalidCipherSuitesLength(cs_len as u16))
            } else {
                let cm = compression_at(body);
                if n < cm + 1 {
                    Err(ClientHelloParseError::NotEnoughData)
                } else if body[cm] == 0 {
                    Err(ClientHelloParseError::InvalidCompressionMethodsLength)
                } else {
                    let ex = extensions_at(body);
                    if n < ex {
                        Err(ClientHelloParseError::NotEnoughData)
                    } else {
                        let hello = ClientHelloView {
                            legacy_version: RawVersion { major: body[0], minor: body[1] },
                            random: body.subrange(2, 34),
                            session_id: body.subrange(35, cs),
                            cipher_suites: body.subrange(cs + 2, cm),
                            compression_methods: body.subrange(cm + 1, ex),
                            extensions: None,
                        };
                        if n == ex {
                            Ok(hello)
                        } else if n < ex + 2 {
                            Err(ClientHelloParseError::NotEnoughData)
                        } else {
                            let ex_len = be16(body[ex], body[ex + 1]);
                            if ex + 2 + ex_len != n {
                                Err(ClientHelloParseError::InvalidExtensionsLength(ex_len as u16))
                            } else {
                                Ok(
                                    ClientHelloView {
                                        extensions: Some(body.subrange(ex + 2, n)),
                                        ..hello
                                    },
                                )
                            }
                        }
                    }
                }
            }
        }
    }
}

/// The bytes that a client hello is written as: the inverse of parsing.
pub open spec fn encode_client_hello_body(hello: ClientHelloView) -> Seq<u8> {
    let head = seq![hello.legacy_version.major, hello.legacy_version.minor] + hello.random + seq![
        hello.session_id.len() as u8,
    ] + hello.session_id + seq![
        (hello.cipher_suites.len() / 256) as u8,
        (hello.cipher_suites.len() % 256) as u8,
    ] + hello.cipher_suites + seq![hello.compression_methods.len() as u8]
        + hello.compression_methods;
    match hello.extensions {
        None => head,
        Some(e) => head + seq![(e.len() / 256) as u8, (e.len() % 256) as u8] + e,
    }
}

/// Whether the fields of a hello have lengths that the format can carry.
pub open spec fn encodable_client_hello(hello: ClientHelloView) -> bool {
    &&& hello.random.len() == 32
    &&& hello.session_id.len() <= 32
    &&& 2 <= hello.cipher_suites.len() <= 0xffff
    &&& hello.cipher_suites.len() % 2 == 0
    &&& 1 <= hello.compression_methods.len() <= 0xff
    &&& match hello.extensions {
        Some(e) => e.len() <= 0xffff,
        None => true,
    }
}

impl ClientHello {
    /// Parses the body of a client hello message.
    pub fn parse_fragment(data: &[u8]) -> (r: Result<ClientHello, ClientHelloParseError>)
        ensures
            match parse_client_hello_body(data@) {
                Ok(v) => r matches Ok(h) && h@ == v,
                Err(e) => r == Err::<ClientHello, ClientHelloParseError>(e),
            },
    {
        let n = data.len();
        if n < 35 {
            return Err(ClientHelloParseError::NotEnoughData);
        }
        let sid_len = data[34];
        if sid_len as usize > MAX_SESSION_ID_SIZE {
            return Err(ClientHelloParseError::InvalidSessionIdLength(sid_len));
        }
        let cs: usize = 35 + sid_len as usize;
        if n < cs + 2 {
            return Err(ClientHelloParseError::NotEnoughData);
        }
        let cs_len = read_be16(data[cs], data[cs + 1]);
        if cs_len < 2 || cs_len % 2 != 0 {
            return Err(ClientHelloParseError::InvalidCipherSuitesLength(cs_len));
        }
        let cm: usize = cs + 2 + cs_len as usize;
        if n < cm + 1 {
            return Err(ClientHelloParseError::NotEnoughData);
        }
        let cm_len = data[cm];
        if cm_len == 0 {
            return Err(ClientHelloParseError::InvalidCompressionMethodsLength);
        }
        let ex: usize = cm + 1 + cm_len as usize;
        if n < ex {
            return Err(ClientHelloParseError::NotEnoughData);
        }
        let legacy_version = RawVersion { major: data[0], minor: data[1] };
        let random = slice_to_vec(slice_subrange(data, 2, 34));
        let session_id = slice_to_vec(slice_subrange(data, 35, cs));
        let cipher_suites = slice_to_vec(slice_subrange(data, cs + 2, cm));
        let compression_methods = slice_to_vec(slice_subrange(data, cm + 1, ex));
        if n == ex {
            return Ok(
                ClientHello {
                    legacy_version,
                    random,
                    session_id,
                    cipher_suites,
                    compression_methods,
                    extensions: None,
                },
            );
        }
        if n < ex + 2 {
            return Err(ClientHelloParseError::NotEnoughData);
        }
        let ex_len = read_be16(data[ex], data[ex + 1]);
        if n - ex - 2 != ex_len as usize {
            return Err(ClientHelloParseError::InvalidExtensionsLength(ex_len));
        }
        let extensions = slice_to_vec(slice_subrange(data, ex + 2, n));
        Ok(
            ClientHello {
                legacy_version,
                random,
                session_id,
                cipher_suites,
                compression_methods,
                extensions: Some(extensions),
            },
        )
    }

    pub fn random(&self) -> (r: &[u8])
        ensures
            r@ == self@.random,
    {
        self.random.as_slice()
    }

    pub fn session_id(&self) -> (r: &[u8])
        ensures
            r@ == self@.session_id,
    {
        self.session_id.as_slice()
    }

    pub fn cipher_suites(&self) -> (r: &[u8])
        ensures
            r@ == self@.cipher_suites,
    {
        self.cipher_suites.as_slice()
    }

    pub fn compression_methods(&self) -> (r: &[u8])
        ensures
            r@ == self@.compression_methods,
    {
        self.compression_methods.as_slice()
    }

    /// The value of the first extension of the given type: `None` where the
    /// hello has no extensions or none of that type.
    pub open spec fn spec_get_ext(hello: ClientHelloView, ext_type: ExtensionType) -> Result<
        Option<Seq<u8>>,
        ExtensionParseError,
    > {
        match hello.extensions {
            None => Ok(None),
            Some(e) => find_extension(e, ext_type.code()),
        }
    }

    /// Looks up an extension by type.
    pub fn get_ext(&self, ext_type: ExtensionType) -> (r: Result<
        Option<&[u8]>,
        ExtensionParseError,
    >)
        ensures
            match Self::spec_get_ext(self@, ext_type) {
                Ok(Some(v)) => r matches Ok(Some(s)) && s@ == v,
                Ok(None) => r matches Ok(None),
                Err(e) => r == Err::<Option<&[u8]>, ExtensionParseError>(e),
            },
    {
        match &self.extensions {
            None => Ok(None),
            Some(e) => get_extension(e.as_slice(), ext_type.to_u16()),
        }
    }
}

/// Parsing what was written gives back what was written.
pub proof fn lemma_client_hello_round_trip(hello: ClientHelloView)
    requires
        encodable_client_hello(hello),
    ensures
        parse_client_hello_body(encode_client_hello_body(hello)) == Ok::<
            ClientHelloView,
            ClientHelloParseError,
        >(hello),
{
    let body = encode_client_hello_body(hello);
    let sid = hello.session_id.len() as int;
    let csl = hello.cipher_suites.len() as int;
    let cml = hello.compression_methods.len() as int;
    let cs = 35 + sid;
    let cm = cs + 2 + csl;
    let ex = cm + 1 + cml;
    assert(body[34] == sid as u8);
    assert(cipher_suites_at(body) == cs);
    assert(body[cs] == (csl / 256) as u8 && body[cs + 1] == (csl % 256) as u8);
    assert(be16(body[cs], body[cs + 1]) == csl);
    assert(compression_at(body) == cm);
    assert(body[cm] == cml as u8);
    assert(extensions_at(body) == ex);
    assert(body.subrange(2, 34) == hello.random);
    assert(body.subrange(35, cs) == hello.session_id);
    assert(body.subrange(cs + 2, cm) == hello.cipher_suites);
    assert(body.subrange(cm + 1, ex) == hello.compression_methods);
    match hello.extensions {
        None => {
            assert(body.len() == ex);
        },
        Some(e) => {
            let el = e.len() as int;
            assert(body.len() == ex + 2 + el);
            assert(body[ex] == (el / 256) as u8 && body[ex + 1] == (el % 256) as u8);
            assert(be16(body[ex], body[ex + 1]) == el);
            assert(body.subrange(ex + 2, body.len() as int) == e);
        },
    }
}

} // verus!
