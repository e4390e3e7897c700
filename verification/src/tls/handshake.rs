//! Handshake messages, and how one that is split over several records is
//! put together again.

use vstd::prelude::*;
use vstd::slice::slice_subrange;
use crate::wire::{be24, read_be24};
use super::client_hello::{
    parse_client_hello_body,
    ClientHello,
    ClientHelloParseError,
    ClientHelloView,
};

verus! {

/// The handshake type of a client hello.
pub const CLIENT_HELLO_TYPE: u8 = 1;

/// The size limit of a coalescer that is given none: 64 KiB.
pub const DEFAULT_MAX_CLIENT_HELLO_SIZE: u32 = 65536;

#[derive(Clone, Copy, Debug, PartialEq, Eq, Structural)]
pub enum HandshakeCoalesceError {
    /// The record does not carry handshake data.
    InvalidContentType(u8),
    /// The first handshake message is not a client hello.
    UnexpectedMessageType(u8),
    /// The message is longer than the coalescer accepts.
    MessageTooLarge,
}

/// Length of the handshake message that starts with the header `s[0..4]`,
/// header included.
pub open spec fn message_len(s: Seq<u8>) -> nat
    recommends
        s.len() >= 4,
{
    4 + be24(s[1], s[2], s[3])
}

/// Whether `s` begins with a whole handshake message.
pub open spec fn starts_with_message(s: Seq<u8>) -> bool {
    s.len() >= 4 && s.len() >= message_len(s)
}

/// Whether `s` is one whole handshake message and nothing else.
pub open spec fn is_message(s: Seq<u8>) -> bool {
    s.len() >= 4 && s.len() == message_len(s)
}

/// What a whole handshake message says if read as a client hello.
pub open spec fn client_hello_of(msg_type: u8, body: Seq<u8>) -> Result<
    ClientHelloView,
    ClientHelloParseError,
> {
    if msg_type != CLIENT_HELLO_TYPE {
        Err(ClientHelloParseError::InvalidMessageType(msg_type))
    } else {
        parse_client_hello_body(body)
    }
}

/// The buffer of a coalescer that holds `buf`, accepts at most `max` bytes
/// and is offered the fragment `frag`.
///
/// The coalescer takes bytes from the front of the fragment until its
/// message is whole, and no more. It refuses a first byte that does not
/// announce a client hello, and a message longer than `max`, as soon as the
/// header tells the length.
pub open spec fn coalesce(buf: Seq<u8>, max: nat, frag: Seq<u8>) -> Result<
    Seq<u8>,
    HandshakeCoalesceError,
> {
    let all = buf + frag;
    if frag.len() == 0 {
        Ok(buf)
    } else if all[0] != CLIENT_HELLO_TYPE {
        Err(HandshakeCoalesceError::UnexpectedMessageType(all[0]))
    } else if all.len() < 4 {
        if all.len() > max {
            Err(HandshakeCoalesceError::MessageTooLarge)
        } else {
            Ok(all)
        }
    } else if message_len(all) > max {
        Err(HandshakeCoalesceError::MessageTooLarge)
    } else if all.len() > message_len(all) {
        Ok(all.take(message_len(all) as int))
    } else {
        Ok(all)
    }
}

/// A whole handshake message inside a record.
#[derive(Clone, Copy, Debug)]
pub struct HandshakeMessage<'a> {
    pub msg_type: u8,
    pub body: &'a [u8],
}

impl<'a> HandshakeMessage<'a> {
    /// Reads the message as a client hello.
    pub fn parse_client_hello(&self) -> (r: Result<ClientHello, ClientHelloParseError>)
        ensures
            match client_hello_of(self.msg_type, self.body@) {
                Ok(v) => r matches Ok(h) && h@ == v,
                Err(e) => r == Err::<ClientHello, ClientHelloParseError>(e),
            },
    {
        if self.msg_type != CLIENT_HELLO_TYPE {
            return Err(ClientHelloParseError::InvalidMessageType(self.msg_type));
        }
        ClientHello::parse_fragment(self.body)
    }
}

/// Collects a client hello whose bytes arrive in several fragments.
#[derive(Debug)]
pub struct HandshakeCoalescer {
    max_size: u32,
    buf: Vec<u8>,
    consumed: bool,
}

/// The states that a coalescer passes through.
pub ghost enum CoalescerState {
    /// Nothing was taken in yet.
    Empty,
    /// A proper prefix of the message is held.
    Partial,
    /// The whole message is held.
    Ready,
}

impl HandshakeCoalescer {
    /// What holds of every coalescer that this module hands out.
    pub closed spec fn wf(&self) -> bool {
        &&& self.buf@.len() <= self.max_size
        &&& self.buf@.len() >= 1 ==> self.buf@[0] == CLIENT_HELLO_TYPE
        &&& self.buf@.len() >= 4 ==> self.buf@.len() <= message_len(self.buf@) <= self.max_size
        &&& self.consumed ==> is_message(self.buf@)
    }

    /// The bytes taken in so far.
    pub closed spec fn buffer(&self) -> Seq<u8> {
        self.buf@
    }

    /// The largest message that is accepted, header included.
    pub closed spec fn limit(&self) -> nat {
        self.max_size as nat
    }

    /// Whether the message was handed out already.
    pub closed spec fn consumed(&self) -> bool {
        self.consumed
    }

    pub open spec fn state(&self) -> CoalescerState {
        if self.buffer().len() == 0 {
            CoalescerState::Empty
        } else if is_message(self.buffer()) {
            CoalescerState::Ready
        } else {
            CoalescerState::Partial
        }
    }

    /// In every state the buffer is within the limit, starts like a client
    /// hello and, once the header is known, does not run past the end of
    /// its message.
    pub proof fn lemma_bounds(&self)
        requires
            self.wf(),
        ensures
            self.buffer().len() <= self.limit() <= u32::MAX,
            self.buffer().len() >= 1 ==> self.buffer()[0] == CLIENT_HELLO_TYPE,
            self.buffer().len() >= 4 ==> self.buffer().len() <= message_len(self.buffer())
                <= self.limit(),
            self.consumed() ==> self.state() is Ready,
    {
    }

    /// Number of bytes held.
    pub fn len(&self) -> (n: usize)
        ensures
            n == self.buffer().len(),
    {
        self.buf.len()
    }

    /// A coalescer that holds nothing and accepts messages of up to
    /// `max_client_hello_size` bytes.
    pub fn new(max_client_hello_size: u32) -> (r: Self)
        ensures
            r.wf(),
            r.buffer() == Seq::<u8>::empty(),
            r.limit() == max_client_hello_size,
            !r.consumed(),
    {
        HandshakeCoalescer { max_size: max_client_hello_size, buf: Vec::new(), consumed: false }
    }

    pub fn is_empty(&self) -> (r: bool)
        ensures
            r == (self.state() is Empty),
    {
        self.buf.len() == 0
    }

    /// Whether the whole message has been taken in.
    pub fn finished(&self) -> (r: bool)
        requires
            self.wf(),
        ensures
            r == (self.state() is Ready),
    {
        let n = self.buf.len();
        if n < 4 {
            return false;
        }
        let expected = 4 + read_be24(self.buf[1], self.buf[2], self.buf[3]) as usize;
        n == expected
    }

    /// Takes bytes from the front of `frag` and says how many were taken.
    pub fn coalesce_fragment(&mut self, frag: &[u8]) -> (r: Result<usize, HandshakeCoalesceError>)
        requires
            old(self).wf(),
        ensures
            final(self).wf(),
            final(self).limit() == old(self).limit(),
            final(self).consumed() == old(self).consumed(),
            match coalesce(old(self).buffer(), old(self).limit(), frag@) {
                Ok(b) => {
                    &&& final(self).buffer() == b
                    &&& r matches Ok(n)
                    &&& n <= frag@.len()
                    &&& b == old(self).buffer() + frag@.take(n as int)
                },
                Err(e) => {
                    &&& final(self).buffer() == old(self).buffer()
                    &&& r == Err::<usize, HandshakeCoalesceError>(e)
                },
            },
    {
        let ghost all = self.buf@ + frag@;
        let held = self.buf.len();
        if frag.len() == 0 {
            assert(frag@.take(0) == Seq::<u8>::empty());
            assert(self.buf@ + Seq::<u8>::empty() == self.buf@);
            return Ok(0);
        }
        let first = if held > 0 {
            self.buf[0]
        } else {
            frag[0]
        };
        if first != CLIENT_HELLO_TYPE {
            return Err(HandshakeCoalesceError::UnexpectedMessageType(first));
        }
        if held < 4 && frag.len() < 4 - held {
            if held + frag.len() > self.max_size as usize {
                return Err(HandshakeCoalesceError::MessageTooLarge);
            }
            self.buf.extend_from_slice(frag);
            assert(frag@.take(frag@.len() as int) == frag@);
            return Ok(frag.len());
        }
        let b1 = if held > 1 {
            self.buf[1]
        } else {
            frag[1 - held]
        };
        let b2 = if held > 2 {
            self.buf[2]
        } else {
            frag[2 - held]
        };
        let b3 = if held > 3 {
            self.buf[3]
        } else {
            frag[3 - held]
        };
        assert(all[1] == b1 && all[2] == b2 && all[3] == b3);
        let expected = 4 + read_be24(b1, b2, b3) as usize;
        assert(expected == message_len(all));
        if expected > self.max_size as usize {
            return Err(HandshakeCoalesceError::MessageTooLarge);
        }
        assert(held >= 4 ==> message_len(self.buf@) == message_len(all));
        let missing = expected - held;
        let n = if frag.len() < missing {
            frag.len()
        } else {
            missing
        };
        self.buf.extend_from_slice(slice_subrange(frag, 0, n));
        assert(frag@.subrange(0, n as int) == frag@.take(n as int));
        assert(self.buf@ == old(self).buf@ + frag@.take(n as int));
        proof {
            if all.len() > message_len(all) {
                assert(self.buf@ == all.take(message_len(all) as int));
            } else {
                assert(frag@.take(n as int) == frag@);
            }
            assert(message_len(self.buf@) == message_len(all));
        }
        Ok(n)
    }

    /// Hands out the client hello once the message is whole: the first call
    /// after that returns it, or the reason why the message is no client
    /// hello; every later call returns `None`.
    pub fn parse_client_hello(&mut self) -> (r: Result<Option<ClientHello>, ClientHelloParseError>)
        requires
            old(self).wf(),
        ensures
            final(self).wf(),
            final(self).buffer() == old(self).buffer(),
            final(self).limit() == old(self).limit(),
            final(self).consumed() == (old(self).consumed() || old(self).state() is Ready),
            old(self).state() is Ready && !old(self).consumed() ==> match client_hello_of(
                CLIENT_HELLO_TYPE,
                old(self).buffer().skip(4),
            ) {
                Ok(v) => r matches Ok(Some(h)) && h@ == v,
                Err(e) => r == Err::<Option<ClientHello>, ClientHelloParseError>(e),
            },
            !(old(self).state() is Ready) || old(self).consumed() ==> r matches Ok(None),
    {
        if self.consumed || !self.finished() {
            return Ok(None);
        }
        self.consumed = true;
        let n = self.buf.len();
        let body = slice_subrange(self.buf.as_slice(), 4, n);
        assert(body@ == self.buf@.skip(4));
        match ClientHello::parse_fragment(body) {
            Ok(h) => Ok(Some(h)),
            Err(e) => Err(e),
        }
    }
}

impl Default for HandshakeCoalescer {
    fn default() -> (r: Self)
        ensures
            r.wf(),
            r.buffer() == Seq::<u8>::empty(),
            r.limit() == DEFAULT_MAX_CLIENT_HELLO_SIZE,
            !r.consumed(),
    {
        HandshakeCoalescer::new(DEFAULT_MAX_CLIENT_HELLO_SIZE)
    }
}

} // verus!
