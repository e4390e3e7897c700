//! The stream of handshake data that CRYPTO frames carry, put together by
//! offset.

use vstd::prelude::*;
use crate::tls::client_hello::{ClientHello, ClientHelloParseError};
use crate::tls::handshake::{client_hello_of, message_len, CLIENT_HELLO_TYPE};
use crate::wire::read_be24;

verus! {

#[derive(Clone, Copy, Debug, PartialEq, Eq, Structural)]
pub enum CryptoCoalesceError {
    /// The data lies, or the message ends, behind the limit.
    TooLarge,
    /// The stream does not start with a client hello.
    UnexpectedMessageType(u8),
}

/// The stream after `data` was put at `offset`: the bytes of `data` stand
/// there, but for bytes that were known before, which stay as they are;
/// the stream is as long as needed; what was never given stays unknown.
pub open spec fn place(cells: Seq<Option<u8>>, offset: nat, data: Seq<u8>) -> Seq<Option<u8>> {
    Seq::new(
        if cells.len() >= offset + data.len() {
            cells.len()
        } else {
            offset + data.len()
        },
        |i: int|
            if i < cells.len() && cells[i] is Some {
                cells[i]
            } else if offset <= i < offset + data.len() {
                Some(data[i - offset])
            } else {
                None
            },
    )
}

/// Whether the first `n` bytes of the stream are known.
pub open spec fn known_up_to(cells: Seq<Option<u8>>, n: nat) -> bool {
    n <= cells.len() && forall|i: int| 0 <= i < n ==> (#[trigger] cells[i]) is Some
}

/// The first `n` bytes of the stream.
pub open spec fn first_bytes(cells: Seq<Option<u8>>, n: nat) -> Seq<u8> {
    Seq::new(n, |i: int| cells[i]->Some_0)
}

/// The handshake message at the start of the stream, once all of it is
/// known.
pub open spec fn stream_message(cells: Seq<Option<u8>>) -> Option<Seq<u8>> {
    if known_up_to(cells, 4) && known_up_to(cells, message_len(first_bytes(cells, 4))) {
        Some(first_bytes(cells, message_len(first_bytes(cells, 4))))
    } else {
        None
    }
}

/// The stream after a CRYPTO frame with `data` at `offset`, for a
/// coalescer that accepts `max` bytes, or why the frame is refused.
///
/// Data behind the limit is refused, and so is a stream whose first byte
/// does not announce a client hello or whose message ends behind the
/// limit, as soon as that is known. A frame without data changes nothing.
pub open spec fn insert_crypto(cells: Seq<Option<u8>>, max: nat, offset: nat, data: Seq<u8>)
    -> Result<Seq<Option<u8>>, CryptoCoalesceError> {
    let after = place(cells, offset, data);
    if data.len() == 0 {
        Ok(cells)
    } else if offset + data.len() > max {
        Err(CryptoCoalesceError::TooLarge)
    } else if after[0] is Some && after[0]->Some_0 != CLIENT_HELLO_TYPE {
        Err(CryptoCoalesceError::UnexpectedMessageType(after[0]->Some_0))
    } else if known_up_to(after, 4) && message_len(first_bytes(after, 4)) > max {
        Err(CryptoCoalesceError::TooLarge)
    } else {
        Ok(after)
    }
}

/// Byte `i` of the stream, as a frame with `data` at `offset` gives it.
pub open spec fn frame_byte(offset: nat, data: Seq<u8>, i: int) -> u8 {
    data[i - offset]
}

/// Frames that agree where they overlap may come in any order: the stream
/// is the same.
pub proof fn lemma_place_commutes(
    cells: Seq<Option<u8>>,
    o1: nat,
    d1: Seq<u8>,
    o2: nat,
    d2: Seq<u8>,
)
    requires
        forall|i: int|
            o1 <= i < o1 + d1.len() && o2 <= i < o2 + d2.len() ==> #[trigger] frame_byte(
                o1,
                d1,
                i,
            ) == frame_byte(o2, d2, i),
    ensures
        place(place(cells, o1, d1), o2, d2) == place(place(cells, o2, d2), o1, d1),
{
    let a = place(place(cells, o1, d1), o2, d2);
    let b = place(place(cells, o2, d2), o1, d1);
    assert(a.len() == b.len());
    assert forall|i: int| 0 <= i < a.len() implies a[i] == b[i] by {
        if o1 <= i < o1 + d1.len() && o2 <= i < o2 + d2.len() {
            assert(frame_byte(o1, d1, i) == frame_byte(o2, d2, i));
        }
    }
    assert(a =~= b);
}

/// The stream after the frames `frames`, each an offset with its data,
/// were put in this order.
pub open spec fn place_all(cells: Seq<Option<u8>>, frames: Seq<(nat, Seq<u8>)>) -> Seq<Option<u8>>
    decreases frames.len(),
{
    if frames.len() == 0 {
        cells
    } else {
        place(place_all(cells, frames.drop_last()), frames.last().0, frames.last().1)
    }
}

/// Whether byte `i` of the stream lies in one of the frames.
pub open spec fn covered(frames: Seq<(nat, Seq<u8>)>, i: int) -> bool {
    exists|k: int|
        0 <= k < frames.len() && (#[trigger] frames[k]).0 <= i < frames[k].0 + frames[k].1.len()
}

/// Frames that were cut from one stream of bytes put that stream together
/// again, whatever their order and however they overlap: a byte is known
/// exactly where a frame covers it, and is then the byte of the stream.
pub proof fn lemma_rebuilt_by_offset(stream: Seq<u8>, frames: Seq<(nat, Seq<u8>)>)
    requires
        forall|k: int|
            0 <= k < frames.len() ==> (#[trigger] frames[k]).0 + frames[k].1.len() <= stream.len()
                && frames[k].1 == stream.subrange(
                frames[k].0 as int,
                (frames[k].0 + frames[k].1.len()) as int,
            ),
    ensures
        place_all(Seq::empty(), frames).len() <= stream.len(),
        forall|i: int|
            0 <= i < place_all(Seq::empty(), frames).len() ==> match #[trigger] place_all(
                Seq::empty(),
                frames,
            )[i] {
                Some(b) => b == stream[i] && covered(frames, i),
                None => !covered(frames, i),
            },
        forall|i: int|
            i >= place_all(Seq::empty(), frames).len() ==> !covered(frames, i),
    decreases frames.len(),
{
    if frames.len() > 0 {
        let before = frames.drop_last();
        let last = frames.last();
        assert(last == frames[frames.len() - 1]);
        assert forall|k: int| 0 <= k < before.len() implies (#[trigger] before[k]).0
            + before[k].1.len() <= stream.len() && before[k].1 == stream.subrange(
            before[k].0 as int,
            (before[k].0 + before[k].1.len()) as int,
        ) by {
            assert(before[k] == frames[k]);
        }
        lemma_rebuilt_by_offset(stream, before);
        let prev = place_all(Seq::empty(), before);
        let now = place_all(Seq::empty(), frames);
        assert forall|i: int| covered(before, i) implies covered(frames, i) by {
            let k = choose|k: int|
                0 <= k < before.len() && (#[trigger] before[k]).0 <= i < before[k].0
                    + before[k].1.len();
            assert(frames[k] == before[k]);
        }
        assert forall|i: int| covered(frames, i) && !(last.0 <= i < last.0 + last.1.len())
            implies covered(before, i) by {
            let k = choose|k: int|
                0 <= k < frames.len() && (#[trigger] frames[k]).0 <= i < frames[k].0
                    + frames[k].1.len();
            assert(k < before.len());
            assert(before[k] == frames[k]);
        }
        assert forall|i: int| 0 <= i < now.len() implies match #[trigger] now[i] {
            Some(b) => b == stream[i] && covered(frames, i),
            None => !covered(frames, i),
        } by {
            if last.0 <= i < last.0 + last.1.len() {
                assert(frames[frames.len() - 1].0 <= i);
            } else if i < prev.len() {
                assert(now[i] == prev[i]);
            }
        }
        assert forall|i: int| i >= now.len() implies !covered(frames, i) by {
            if covered(frames, i) {
                assert(covered(before, i));
            }
        }
    } else {
        assert forall|i: int| !covered(frames, i) by {}
    }
}

/// Collects the client hello that the CRYPTO frames of a connection's
/// first packets carry.
pub struct HandshakeCoalescer {
    max_size: u32,
    cells: Vec<Option<u8>>,
    consumed: bool,
}

impl HandshakeCoalescer {
    /// What holds of every coalescer that this module hands out.
    pub closed spec fn wf(&self) -> bool {
        &&& self.cells@.len() <= self.max_size
        &&& self.cells@.len() > 0 && self.cells@[0] is Some ==> self.cells@[0]->Some_0
            == CLIENT_HELLO_TYPE
        &&& known_up_to(self.cells@, 4) ==> message_len(first_bytes(self.cells@, 4))
            <= self.max_size
        &&& self.consumed ==> stream_message(self.cells@) is Some
    }

    /// The stream as far as it is known: one entry for each byte, up to
    /// the last byte that any frame gave.
    pub closed spec fn cells(&self) -> Seq<Option<u8>> {
        self.cells@
    }

    /// The largest message that is accepted, header included.
    pub closed spec fn limit(&self) -> nat {
        self.max_size as nat
    }

    /// Whether the message was handed out already.
    pub closed spec fn consumed(&self) -> bool {
        self.consumed
    }

    /// In every state the stream is within the limit and starts, as far as
    /// it is known, like a client hello that is within the limit.
    pub proof fn lemma_bounds(&self)
        requires
            self.wf(),
        ensures
            self.cells().len() <= self.limit() <= u32::MAX,
            self.cells().len() > 0 && self.cells()[0] is Some ==> self.cells()[0]->Some_0
                == CLIENT_HELLO_TYPE,
            stream_message(self.cells()) matches Some(m) ==> m.len() <= self.limit() && m[0]
                == CLIENT_HELLO_TYPE,
            self.consumed() ==> stream_message(self.cells()) is Some,
    {
    }

    /// A coalescer that knows nothing of the stream and accepts messages
    /// of up to `max_client_hello_size` bytes.
    pub fn new(max_client_hello_size: u32) -> (r: Self)
        ensures
            r.wf(),
            r.cells() == Seq::<Option<u8>>::empty(),
            r.limit() == max_client_hello_size,
            !r.consumed(),
    {
        HandshakeCoalescer { max_size: max_client_hello_size, cells: Vec::new(), consumed: false }
    }

    /// What stands at `i` once `data` is put at `start`.
    fn peek(&self, i: usize, start: usize, data: &[u8]) -> (r: Option<u8>)
        requires
            start + data@.len() <= u32::MAX,
            i < 4,
        ensures
            i < place(self.cells@, start as nat, data@).len() ==> r == place(
                self.cells@,
                start as nat,
                data@,
            )[i as int],
            i >= place(self.cells@, start as nat, data@).len() ==> r is None,
    {
        if i < self.cells.len() && self.cells[i].is_some() {
            self.cells[i]
        } else if start <= i && i - start < data.len() {
            Some(data[i - start])
        } else {
            None
        }
    }

    /// Takes in the data of a CRYPTO frame.
    pub fn insert(&mut self, offset: u64, data: &[u8]) -> (r: Result<(), CryptoCoalesceError>)
        requires
            old(self).wf(),
        ensures
            final(self).wf(),
            final(self).limit() == old(self).limit(),
            final(self).consumed() == old(self).consumed(),
            match insert_crypto(old(self).cells(), old(self).limit(), offset as nat, data@) {
                Ok(cells) => r is Ok && final(self).cells() == cells,
                Err(e) => r == Err::<(), CryptoCoalesceError>(e) && final(self).cells() == old(
                    self,
                ).cells(),
            },
    {
        let len = data.len();
        if len == 0 {
            return Ok(());
        }
        let max = self.max_size as u64;
        if offset > max || len as u64 > max - offset {
            return Err(CryptoCoalesceError::TooLarge);
        }
        let start = offset as usize;
        let end = start + len;
        let ghost before = self.cells@;
        let ghost after = place(before, offset as nat, data@);
        let b0 = self.peek(0, start, data);
        let b1 = self.peek(1, start, data);
        let b2 = self.peek(2, start, data);
        let b3 = self.peek(3, start, data);
        match b0 {
            Some(t) => {
                if t != CLIENT_HELLO_TYPE {
                    return Err(CryptoCoalesceError::UnexpectedMessageType(t));
                }
            },
            None => {},
        }
        match (b0, b1, b2, b3) {
            (Some(h0), Some(h1), Some(h2), Some(h3)) => {
                proof {
                    assert(known_up_to(after, 4));
                    assert(first_bytes(after, 4) =~= seq![h0, h1, h2, h3]);
                }
                if 4 + read_be24(h1, h2, h3) as u64 > max {
                    return Err(CryptoCoalesceError::TooLarge);
                }
            },
            _ => {
                proof {
                    if known_up_to(after, 4) {
                        assert(after[0] is Some && after[1] is Some && after[2] is Some
                            && after[3] is Some);
                    }
                }
            },
        }
        while self.cells.len() < end
            invariant
                self.max_size == old(self).max_size,
                self.consumed == old(self).consumed,
                end <= self.max_size,
                before.len() <= self.cells@.len(),
                self.cells@.len() <= end || self.cells@.len() == before.len(),
                forall|i: int| 0 <= i < before.len() ==> self.cells@[i] == before[i],
                forall|i: int| before.len() <= i < self.cells@.len() ==> self.cells@[i] is None,
            decreases end - self.cells@.len(),
        {
            self.cells.push(None);
        }
        let mut i: usize = 0;
        while i < len
            invariant
                i <= len,
                len == data@.len(),
                end == start + len,
                start == offset,
                self.max_size == old(self).max_size,
                self.consumed == old(self).consumed,
                self.cells@.len() == after.len(),
                after == place(before, offset as nat, data@),
                forall|j: int|
                    0 <= j < self.cells@.len() ==> self.cells@[j] == if j < before.len()
                        && before[j] is Some {
                        before[j]
                    } else if start <= j < start + i {
                        Some(data@[j - start])
                    } else {
                        None
                    },
            decreases len - i,
        {
            if self.cells[start + i].is_none() {
                self.cells[start + i] = Some(data[i]);
            }
            i = i + 1;
        }
        proof {
            assert(self.cells@ =~= after);
            if known_up_to(before, 4) {
                assert(known_up_to(after, 4)) by {
                    assert forall|j: int| 0 <= j < 4 implies (#[trigger] after[j]) is Some by {
                        assert(before[j] is Some);
                    }
                }
                assert(first_bytes(after, 4) =~= first_bytes(before, 4)) by {
                    assert(forall|j: int| 0 <= j < 4 ==> before[j] is Some);
                }
            }
            if old(self).consumed {
                let m = message_len(first_bytes(before, 4));
                assert forall|j: int| 0 <= j < m implies (#[trigger] after[j]) is Some by {
                    assert(before[j] is Some);
                }
            }
        }
        Ok(())
    }

    /// Whether the whole message is known.
    pub fn finished(&self) -> (r: bool)
        requires
            self.wf(),
        ensures
            r == (stream_message(self.cells()) is Some),
    {
        self.message_end().is_some()
    }

    /// Where the message ends, once all of it is known.
    fn message_end(&self) -> (r: Option<usize>)
        requires
            self.wf(),
        ensures
            match stream_message(self.cells@) {
                Some(m) => r == Some(m.len() as usize) && 4 <= m.len() <= self.cells@.len(),
                None => r is None,
            },
    {
        let n = self.cells.len();
        if n < 4 {
            return None;
        }
        let header = match (self.cells[0], self.cells[1], self.cells[2], self.cells[3]) {
            (Some(h0), Some(h1), Some(h2), Some(h3)) => (h0, h1, h2, h3),
            _ => {
                assert(!known_up_to(self.cells@, 4)) by {
                    if known_up_to(self.cells@, 4) {
                        assert(self.cells@[0] is Some && self.cells@[1] is Some
                            && self.cells@[2] is Some && self.cells@[3] is Some);
                    }
                }
                return None;
            },
        };
        assert(known_up_to(self.cells@, 4));
        assert(first_bytes(self.cells@, 4) =~= seq![header.0, header.1, header.2, header.3]);
        let expected = 4 + read_be24(header.1, header.2, header.3) as usize;
        if n < expected {
            return None;
        }
        let mut i: usize = 4;
        while i < expected
            invariant
                4 <= i <= expected <= n,
                n == self.cells@.len(),
                known_up_to(self.cells@, 4),
                expected == message_len(first_bytes(self.cells@, 4)),
                forall|j: int| 0 <= j < i ==> (#[trigger] self.cells@[j]) is Some,
            decreases expected - i,
        {
            if self.cells[i].is_none() {
                assert(!known_up_to(self.cells@, expected as nat)) by {
                    assert(self.cells@[i as int] is None);
                }
                return None;
            }
            i = i + 1;
        }
        Some(expected)
    }

    /// Hands out the client hello once the message is known: the first
    /// call after that returns it, or the reason why the message is no
    /// client hello; every later call returns `None`.
    pub fn parse_client_hello(&mut self) -> (r: Result<Option<ClientHello>, ClientHelloParseError>)
        requires
            old(self).wf(),
        ensures
            final(self).wf(),
            final(self).cells() == old(self).cells(),
            final(self).limit() == old(self).limit(),
            final(self).consumed() == (old(self).consumed() || stream_message(
                old(self).cells(),
            ) is Some),
            match stream_message(old(self).cells()) {
                Some(m) => if old(self).consumed() {
                    r matches Ok(None)
                } else {
                    match client_hello_of(CLIENT_HELLO_TYPE, m.skip(4)) {
                        Ok(v) => r matches Ok(Some(h)) && h@ == v,
                        Err(e) => r == Err::<Option<ClientHello>, ClientHelloParseError>(e),
                    }
                },
                None => r matches Ok(None),
            },
    {
        if self.consumed {
            return Ok(None);
        }
        let end = match self.message_end() {
            Some(e) => e,
            None => {
                return Ok(None);
            },
        };
        self.consumed = true;
        let ghost m = stream_message(self.cells@)->Some_0;
        let mut body: Vec<u8> = Vec::new();
        let mut i: usize = 4;
        while i < end
            invariant
                4 <= i <= end <= self.cells@.len(),
                end == m.len(),
                m == first_bytes(self.cells@, end as nat),
                known_up_to(self.cells@, end as nat),
                body@ == m.subrange(4, i as int),
            decreases end - i,
        {
            match self.cells[i] {
                Some(b) => {
                    body.push(b);
                },
                None => {},
            }
            assert(m.subrange(4, i as int + 1) == m.subrange(4, i as int).push(m[i as int]));
            i = i + 1;
        }
        assert(body@ == m.skip(4));
        match ClientHello::parse_fragment(body.as_slice()) {
            Ok(h) => Ok(Some(h)),
            Err(e) => Err(e),
        }
    }
}

} // verus!
