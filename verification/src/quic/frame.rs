//! The frames of an Initial packet.

use vstd::prelude::*;
use vstd::slice::slice_subrange;
use super::handshake::{insert_crypto, CryptoCoalesceError, HandshakeCoalescer};
use super::initial::InitialPacket;
use super::varint::{lemma_varint_bound, read_varint, varint_at};

verus! {

#[derive(Clone, Copy, Debug, PartialEq, Eq, Structural)]
pub enum FrameParseError {
    /// The payload ends inside a frame.
    NotEnoughData,
    /// The frame is of a type that an Initial packet may not hold.
    InvalidFrameType(u8),
}

#[derive(Clone, Copy, Debug, PartialEq, Eq, Structural)]
pub enum FrameConsumeError {
    Frame(FrameParseError),
    Crypto(CryptoCoalesceError),
}

/// A frame as values. Of frames that carry no handshake data, only the
/// kind is kept.
pub ghost enum FrameView {
    Padding,
    Ping,
    Ack,
    Crypto { offset: nat, data: Seq<u8> },
    ConnectionClose,
}

/// Total length of `count` integers of variable length that stand one
/// after another at the start of `data`; `None` where `data` ends first.
pub open spec fn varints_len(data: Seq<u8>, count: nat) -> Option<nat>
    decreases count,
{
    if count == 0 {
        Some(0)
    } else {
        match varint_at(data) {
            None => None,
            Some((_, n)) => match varints_len(data.skip(n as int), (count - 1) as nat) {
                None => None,
                Some(m) => Some(n + m),
            },
        }
    }
}

/// Length of an ACK frame without its type byte: largest acknowledged,
/// delay, range count and first range, then a gap and a length for each
/// further range, then three counts where the frame reports ECN.
#[verifier::opaque]
pub open spec fn ack_len(data: Seq<u8>, ecn: bool) -> Option<nat> {
    match varint_at(data) {
        None => None,
        Some((_, n1)) => match varint_at(data.skip(n1 as int)) {
            None => None,
            Some((_, n2)) => match varint_at(data.skip((n1 + n2) as int)) {
                None => None,
                Some((count, n3)) => match varints_len(
                    data.skip((n1 + n2 + n3) as int),
                    1 + 2 * count + if ecn {
                        3nat
                    } else {
                        0nat
                    },
                ) {
                    None => None,
                    Some(tail) => Some(n1 + n2 + n3 + tail),
                },
            },
        },
    }
}

/// Length of a CONNECTION_CLOSE frame without its type byte: an error
/// code, a frame type where the transport closes, and a reason behind its
/// length.
#[verifier::opaque]
pub open spec fn close_len(data: Seq<u8>, transport: bool) -> Option<nat> {
    let lead: nat = if transport {
        2
    } else {
        1
    };
    match varints_len(data, lead) {
        None => None,
        Some(head) => match varint_at(data.skip(head as int)) {
            None => None,
            Some((reason, n)) => if data.len() - (head + n) < reason {
                None
            } else {
                Some(head + n + reason)
            },
        },
    }
}

/// The offset, the data and the length of a CRYPTO frame without its type
/// byte: the offset, the length of the data, and the data.
#[verifier::opaque]
pub open spec fn crypto_at(data: Seq<u8>) -> Option<(nat, Seq<u8>, nat)> {
    match varint_at(data) {
        None => None,
        Some((offset, n1)) => match varint_at(data.skip(n1 as int)) {
            None => None,
            Some((len, n2)) => if data.len() - (n1 + n2) < len {
                None
            } else {
                Some((offset, data.subrange((n1 + n2) as int, (n1 + n2 + len) as int), n1 + n2 + len))
            },
        },
    }
}

/// The frame that `data` begins with, and its length.
pub open spec fn frame_at(data: Seq<u8>) -> Result<(FrameView, nat), FrameParseError> {
    if data.len() == 0 {
        Err(FrameParseError::NotEnoughData)
    } else if data[0] == 0x00 {
        Ok((FrameView::Padding, 1))
    } else if data[0] == 0x01 {
        Ok((FrameView::Ping, 1))
    } else if data[0] == 0x02 || data[0] == 0x03 {
        match ack_len(data.skip(1), data[0] == 0x03) {
            Some(n) => Ok((FrameView::Ack, 1 + n)),
            None => Err(FrameParseError::NotEnoughData),
        }
    } else if data[0] == 0x06 {
        match crypto_at(data.skip(1)) {
            Some((offset, bytes, n)) => Ok((FrameView::Crypto { offset, data: bytes }, 1 + n)),
            None => Err(FrameParseError::NotEnoughData),
        }
    } else if data[0] == 0x1c || data[0] == 0x1d {
        match close_len(data.skip(1), data[0] == 0x1c) {
            Some(n) => Ok((FrameView::ConnectionClose, 1 + n)),
            None => Err(FrameParseError::NotEnoughData),
        }
    } else {
        Err(FrameParseError::InvalidFrameType(data[0]))
    }
}

proof fn lemma_varints_len_bound(data: Seq<u8>, count: nat)
    ensures
        varints_len(data, count) matches Some(n) ==> count <= n <= data.len(),
    decreases count,
{
    if count > 0 {
        match varint_at(data) {
            None => {},
            Some((_, n)) => {
                lemma_varint_bound(data);
                lemma_varints_len_bound(data.skip(n as int), (count - 1) as nat);
            },
        }
    }
}

/// Skips `count` integers of variable length that start at `offset`.
/// Returns the offset behind them.
fn skip_varints(data: &[u8], offset: usize, count: u64) -> (r: Option<usize>)
    requires
        offset <= data@.len(),
    ensures
        match varints_len(data@.skip(offset as int), count as nat) {
            Some(n) => r == Some((offset + n) as usize) && offset + n <= data@.len(),
            None => r is None,
        },
{
    let total = data.len();
    let ghost start = data@.skip(offset as int);
    let mut at = offset;
    let mut left = count;
    while left > 0
        invariant
            offset <= at <= data@.len(),
            total == data@.len(),
            start == data@.skip(offset as int),
            match varints_len(data@.skip(at as int), left as nat) {
                Some(m) => varints_len(start, count as nat) == Some((at - offset + m) as nat),
                None => varints_len(start, count as nat) is None,
            },
        decreases left,
    {
        let ghost rest = data@.skip(at as int);
        match read_varint(data, at) {
            None => {
                return None;
            },
            Some((_, next)) => {
                proof {
                    assert(rest.skip(next - at) == data@.skip(next as int));
                }
                at = next;
                left = left - 1;
            },
        }
    }
    proof {
        lemma_varints_len_bound(start, count as nat);
    }
    Some(at)
}

/// The end of the ACK frame whose fields start at `offset`.
fn skip_ack(data: &[u8], offset: usize, ecn: bool) -> (r: Option<usize>)
    requires
        offset <= data@.len(),
    ensures
        match ack_len(data@.skip(offset as int), ecn) {
            Some(n) => r == Some((offset + n) as usize) && offset + n <= data@.len(),
            None => r is None,
        },
{
    reveal(ack_len);
    let total = data.len();
    let ghost rest = data@.skip(offset as int);
    let (_, end1) = match read_varint(data, offset) {
        Some(v) => v,
        None => {
            return None;
        },
    };
    assert(rest.skip(end1 - offset) == data@.skip(end1 as int));
    let (_, end2) = match read_varint(data, end1) {
        Some(v) => v,
        None => {
            return None;
        },
    };
    assert(rest.skip(end2 - offset) == data@.skip(end2 as int));
    let (count, end3) = match read_varint(data, end2) {
        Some(v) => v,
        None => {
            return None;
        },
    };
    assert(rest.skip(end3 - offset) == data@.skip(end3 as int));
    let extra: u64 = if ecn {
        3
    } else {
        0
    };
    let more = 1 + 2 * count + extra;
    skip_varints(data, end3, more)
}

/// The end of the CONNECTION_CLOSE frame whose fields start at `offset`.
fn skip_close(data: &[u8], offset: usize, transport: bool) -> (r: Option<usize>)
    requires
        offset <= data@.len(),
    ensures
        match close_len(data@.skip(offset as int), transport) {
            Some(n) => r == Some((offset + n) as usize) && offset + n <= data@.len(),
            None => r is None,
        },
{
    reveal(close_len);
    let total = data.len();
    let ghost rest = data@.skip(offset as int);
    let lead: u64 = if transport {
        2
    } else {
        1
    };
    let p = match skip_varints(data, offset, lead) {
        Some(p) => p,
        None => {
            return None;
        },
    };
    assert(rest.skip(p - offset) == data@.skip(p as int));
    let (reason, q) = match read_varint(data, p) {
        Some(v) => v,
        None => {
            return None;
        },
    };
    if ((total - q) as u64) < reason {
        return None;
    }
    Some(q + reason as usize)
}

/// Reads the fields of a CRYPTO frame that start at `offset`. Returns
/// the offset of the data in the stream, the data, and where the frame
/// ends.
fn read_crypto<'a>(payload: &'a [u8], offset: usize) -> (r: Option<(u64, &'a [u8], usize)>)
    requires
        offset <= payload@.len(),
    ensures
        match crypto_at(payload@.skip(offset as int)) {
            Some((at, data, n)) => r matches Some((o, d, end)) && o == at && d@ == data && end
                == offset + n && offset + n <= payload@.len() && n > 0,
            None => r is None,
        },
{
    reveal(crypto_at);
    let total = payload.len();
    let ghost rest = payload@.skip(offset as int);
    let (at, end1) = match read_varint(payload, offset) {
        Some(v) => v,
        None => {
            return None;
        },
    };
    assert(rest.skip(end1 - offset) == payload@.skip(end1 as int));
    let (len, end2) = match read_varint(payload, end1) {
        Some(v) => v,
        None => {
            return None;
        },
    };
    if ((total - end2) as u64) < len {
        return None;
    }
    let end = end2 + len as usize;
    let data = slice_subrange(payload, end2, end);
    assert(data@ == rest.subrange(end2 - offset, end - offset));
    Some((at, data, end))
}

/// A frame that was read: where it ends, and the handshake data that it
/// carries, if it carries any.
#[derive(Clone, Copy, Debug)]
pub struct Frame<'a> {
    pub end: usize,
    pub crypto: Option<(u64, &'a [u8])>,
}

/// The frame that stands at `offset` in `payload`, and its length.
pub open spec fn frame_in(payload: Seq<u8>, offset: nat) -> Result<(FrameView, nat), FrameParseError> {
    if offset > payload.len() {
        Err(FrameParseError::NotEnoughData)
    } else {
        frame_at(payload.skip(offset as int))
    }
}

/// Reads the frame that starts at `offset` in `payload`.
pub fn read_frame<'a>(payload: &'a [u8], offset: usize) -> (r: Result<Frame<'a>, FrameParseError>)
    ensures
        match frame_in(payload@, offset as nat) {
            Ok((frame, n)) => {
                &&& r matches Ok(f)
                &&& f.end == offset + n
                &&& offset < f.end <= payload@.len()
                &&& match frame {
                    FrameView::Crypto { offset: at, data } => f.crypto matches Some((o, d)) && o
                        == at && d@ == data,
                    _ => f.crypto is None,
                }
            },
            Err(e) => r matches Err(err) && err == e,
        },
{
    let total = payload.len();
    if offset >= total {
        return Err(FrameParseError::NotEnoughData);
    }
    let ghost rest = payload@.skip(offset as int);
    let ty = payload[offset];
    let body = offset + 1;
    assert(rest.skip(1) == payload@.skip(body as int));
    if ty == 0x00 || ty == 0x01 {
        Ok(Frame { end: body, crypto: None })
    } else if ty == 0x02 || ty == 0x03 {
        match skip_ack(payload, body, ty == 0x03) {
            Some(end) => Ok(Frame { end, crypto: None }),
            None => Err(FrameParseError::NotEnoughData),
        }
    } else if ty == 0x06 {
        match read_crypto(payload, body) {
            Some((at, data, end)) => Ok(Frame { end, crypto: Some((at, data)) }),
            None => Err(FrameParseError::NotEnoughData),
        }
    } else if ty == 0x1c || ty == 0x1d {
        match skip_close(payload, body, ty == 0x1c) {
            Some(end) => Ok(Frame { end, crypto: None }),
            None => Err(FrameParseError::NotEnoughData),
        }
    } else {
        Err(FrameParseError::InvalidFrameType(ty))
    }
}

/// What one frame does to the stream of handshake data: the stream after
/// it and the length of the frame, or why the frame is refused.
#[verifier::opaque]
pub open spec fn apply_frame(cells: Seq<Option<u8>>, max: nat, payload: Seq<u8>) -> Result<
    (Seq<Option<u8>>, nat),
    FrameConsumeError,
> {
    match frame_at(payload) {
        Err(e) => Err(FrameConsumeError::Frame(e)),
        Ok((FrameView::Crypto { offset, data }, n)) => match insert_crypto(
            cells,
            max,
            offset,
            data,
        ) {
            Err(e) => Err(FrameConsumeError::Crypto(e)),
            Ok(next) => Ok((next, n)),
        },
        Ok((_, n)) => Ok((cells, n)),
    }
}

/// The stream of handshake data after the frames of `payload` were read,
/// one after another, and the error that ended the reading, if one did.
/// Frames other than CRYPTO frames change nothing. A frame that is refused
/// changes nothing either; what the frames before it gave stays.
#[verifier::opaque]
pub open spec fn apply_frames(cells: Seq<Option<u8>>, max: nat, payload: Seq<u8>) -> (
    Seq<Option<u8>>,
    Option<FrameConsumeError>,
)
    decreases payload.len(),
{
    if payload.len() == 0 {
        (cells, None)
    } else {
        match apply_frame(cells, max, payload) {
            Err(e) => (cells, Some(e)),
            Ok((next, n)) => if 0 < n <= payload.len() {
                apply_frames(next, max, payload.skip(n as int))
            } else {
                (next, None)
            },
        }
    }
}

/// Frames are read one after another, each from where the one before it
/// ended.
pub proof fn lemma_apply_frames_step(cells: Seq<Option<u8>>, max: nat, payload: Seq<u8>)
    ensures
        payload.len() == 0 ==> apply_frames(cells, max, payload) == (
            cells,
            None::<FrameConsumeError>,
        ),
        payload.len() > 0 ==> apply_frames(cells, max, payload) == match apply_frame(
            cells,
            max,
            payload,
        ) {
            Err(e) => (cells, Some(e)),
            Ok((next, n)) => if 0 < n <= payload.len() {
                apply_frames(next, max, payload.skip(n as int))
            } else {
                (next, None)
            },
        },
{
    reveal(apply_frames);
}

/// Reads the frame at `offset` and hands its data to the coalescer, if it
/// carries any. Returns where the frame ends.
fn consume_frame(payload: &[u8], offset: usize, coalescer: &mut HandshakeCoalescer) -> (r: Result<
    usize,
    FrameConsumeError,
>)
    requires
        offset <= payload@.len(),
        old(coalescer).wf(),
    ensures
        final(coalescer).wf(),
        final(coalescer).limit() == old(coalescer).limit(),
        final(coalescer).consumed() == old(coalescer).consumed(),
        match apply_frame(
            old(coalescer).cells(),
            old(coalescer).limit(),
            payload@.skip(offset as int),
        ) {
            Ok((cells, n)) => r == Ok::<usize, FrameConsumeError>((offset + n) as usize)
                && final(coalescer).cells() == cells && 0 < n && offset + n <= payload@.len(),
            Err(e) => r == Err::<usize, FrameConsumeError>(e) && final(coalescer).cells() == old(
                coalescer,
            ).cells(),
        },
{
    reveal(apply_frame);
    let frame = match read_frame(payload, offset) {
        Ok(f) => f,
        Err(e) => {
            return Err(FrameConsumeError::Frame(e));
        },
    };
    match frame.crypto {
        Some((at, data)) => {
            match coalescer.insert(at, data) {
                Ok(()) => Ok(frame.end),
                Err(e) => Err(FrameConsumeError::Crypto(e)),
            }
        },
        None => Ok(frame.end),
    }
}

impl InitialPacket {
    /// Reads the frames of the packet and hands the data of its CRYPTO
    /// frames to the coalescer. Reading ends at the first frame that is
    /// refused; what the frames before it gave stays with the coalescer.
    pub fn consume_frames(&self, coalescer: &mut HandshakeCoalescer) -> (r: Result<
        (),
        FrameConsumeError,
    >)
        requires
            old(coalescer).wf(),
        ensures
            final(coalescer).wf(),
            final(coalescer).limit() == old(coalescer).limit(),
            final(coalescer).consumed() == old(coalescer).consumed(),
            final(coalescer).cells() == apply_frames(
                old(coalescer).cells(),
                old(coalescer).limit(),
                self@.payload,
            ).0,
            r == match apply_frames(
                old(coalescer).cells(),
                old(coalescer).limit(),
                self@.payload,
            ).1 {
                None => Ok::<(), FrameConsumeError>(()),
                Some(e) => Err::<(), FrameConsumeError>(e),
            },
    {
        let payload = self.payload();
        let total = payload.len();
        let mut offset: usize = 0;
        assert(payload@.skip(0) == payload@);
        while offset < total
            invariant
                offset <= total,
                total == payload@.len(),
                payload@ == self@.payload,
                coalescer.wf(),
                coalescer.limit() == old(coalescer).limit(),
                coalescer.consumed() == old(coalescer).consumed(),
                apply_frames(old(coalescer).cells(), old(coalescer).limit(), self@.payload)
                    == apply_frames(
                    coalescer.cells(),
                    coalescer.limit(),
                    payload@.skip(offset as int),
                ),
            decreases total - offset,
        {
            let ghost rest = payload@.skip(offset as int);
            proof {
                lemma_apply_frames_step(coalescer.cells(), coalescer.limit(), rest);
            }
            let next = match consume_frame(payload, offset, coalescer) {
                Ok(n) => n,
                Err(e) => {
                    return Err(e);
                },
            };
            assert(rest.skip(next - offset) == payload@.skip(next as int));
            offset = next;
        }
        proof {
            lemma_apply_frames_step(
                coalescer.cells(),
                coalescer.limit(),
                payload@.skip(offset as int),
            );
        }
        Ok(())
    }
}

} // verus!
