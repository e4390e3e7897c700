//! Close frames, written when the inspector ends a WebSocket stream.

use vstd::prelude::*;
use crate::wire::{be16, hi_byte, lo_byte, read_be16, write_be16};

verus! {

/// First byte of a close frame: final fragment, no extension bits, opcode
/// eight.
pub const CLOSE_FRAME_HEAD: u8 = 0x88;

/// Status code "going away".
pub const STATUS_GOING_AWAY: u16 = 1001;

/// Status code "internal error".
pub const STATUS_INTERNAL_ERROR: u16 = 1011;

/// The close frame that a server sends.
pub struct ServerCloseFrame {}

/// The close frame that a client sends.
pub struct ClientCloseFrame {}

/// Byte `i` of the payload of the frame `frame`, whose payload starts at
/// `start`: as it stands where the frame is not masked, and else with the
/// mask taken off, whose four bytes stand in front of the payload.
pub open spec fn payload_byte(frame: Seq<u8>, masked: bool, start: int, i: int) -> u8 {
    if masked {
        frame[start + i] ^ frame[2 + i % 4]
    } else {
        frame[start + i]
    }
}

/// The status code that a close frame carries.
///
/// `frame` must be one close frame and nothing else: the first byte says
/// final fragment and opcode eight; the second holds the mask bit and a
/// payload length of 125 at most; a masked frame goes on with four bytes of
/// mask; the payload starts with the status code in two bytes. `None` for
/// anything else, and for a close frame without a status code.
pub open spec fn close_status(frame: Seq<u8>) -> Option<u16> {
    if frame.len() < 2 || frame[0] != CLOSE_FRAME_HEAD {
        None
    } else {
        let masked = frame[1] >= 0x80;
        let len = frame[1] as int % 128;
        let start: int = if masked {
            6
        } else {
            2
        };
        if len > 125 || len < 2 || frame.len() != start + len {
            None
        } else {
            Some(
                be16(
                    payload_byte(frame, masked, start, 0),
                    payload_byte(frame, masked, start, 1),
                ) as u16,
            )
        }
    }
}

/// Whether a frame has its mask bit set, as every frame from a client must
/// and no frame from a server may.
pub open spec fn is_masked(frame: Seq<u8>) -> bool {
    frame.len() >= 2 && frame[1] >= 0x80
}

/// The bytes of the close frame of a server with the given status code.
pub open spec fn server_close_bytes(status_code: u16) -> Seq<u8> {
    seq![CLOSE_FRAME_HEAD, 0x02, hi_byte(status_code), lo_byte(status_code)]
}

/// The bytes of the close frame of a client with the given status code:
/// the mask is all zero, so the status code stands as it is.
pub open spec fn client_close_bytes(status_code: u16) -> Seq<u8> {
    seq![CLOSE_FRAME_HEAD, 0x82, 0, 0, 0, 0, hi_byte(status_code), lo_byte(status_code)]
}

impl ServerCloseFrame {
    pub fn encode_with_status_code(status_code: u16) -> (r: [u8; 4])
        ensures
            r@ == server_close_bytes(status_code),
    {
        let code = write_be16(status_code);
        let r = [CLOSE_FRAME_HEAD, 0x02, code.0, code.1];
        assert(r@ =~= server_close_bytes(status_code));
        r
    }
}

impl ClientCloseFrame {
    pub fn encode_with_status_code(status_code: u16) -> (r: [u8; 8])
        ensures
            r@ == client_close_bytes(status_code),
    {
        let code = write_be16(status_code);
        let r = [CLOSE_FRAME_HEAD, 0x82, 0x00, 0x00, 0x00, 0x00, code.0, code.1];
        assert(r@ =~= client_close_bytes(status_code));
        r
    }
}

/// Reads the status code of a close frame.
pub fn decode_close_status(frame: &[u8]) -> (r: Option<u16>)
    ensures
        r == close_status(frame@),
{
    if frame.len() < 2 || frame[0] != CLOSE_FRAME_HEAD {
        return None;
    }
    let masked = frame[1] >= 0x80;
    let len = (frame[1] % 128) as usize;
    let start: usize = if masked {
        6
    } else {
        2
    };
    if len > 125 || len < 2 || frame.len() != start + len {
        return None;
    }
    let (b0, b1) = if masked {
        (frame[start] ^ frame[2], frame[start + 1] ^ frame[3])
    } else {
        (frame[start], frame[start + 1])
    };
    Some(read_be16(b0, b1))
}

/// Every parser of the protocol reads from the close frame of a server the
/// status code that was written, and finds the frame unmasked.
pub proof fn lemma_server_close_round_trip(status_code: u16)
    ensures
        close_status(server_close_bytes(status_code)) == Some(status_code),
        !is_masked(server_close_bytes(status_code)),
        server_close_bytes(status_code).len() == 4,
{
}

/// Every parser of the protocol reads from the close frame of a client the
/// status code that was written, and finds the frame masked.
pub proof fn lemma_client_close_round_trip(status_code: u16)
    ensures
        close_status(client_close_bytes(status_code)) == Some(status_code),
        is_masked(client_close_bytes(status_code)),
        client_close_bytes(status_code).len() == 8,
{
    let hi = hi_byte(status_code);
    let lo = lo_byte(status_code);
    assert(hi ^ 0u8 == hi) by (bit_vector);
    assert(lo ^ 0u8 == lo) by (bit_vector);
    let frame = client_close_bytes(status_code);
    assert(payload_byte(frame, true, 6, 0) == hi);
    assert(payload_byte(frame, true, 6, 1) == lo);
}

/// The client frame is the server frame with the mask bit set and four
/// zero bytes of mask put in.
pub proof fn lemma_client_frame_is_masked_server_frame(status_code: u16)
    ensures
        client_close_bytes(status_code) == seq![
            server_close_bytes(status_code)[0],
            (server_close_bytes(status_code)[1] + 0x80) as u8,
        ] + seq![0u8, 0u8, 0u8, 0u8] + server_close_bytes(status_code).skip(2),
{
    let c = client_close_bytes(status_code);
    let s = server_close_bytes(status_code);
    assert(c =~= seq![s[0], (s[1] + 0x80) as u8] + seq![0u8, 0u8, 0u8, 0u8] + s.skip(2));
}

} // verus!
