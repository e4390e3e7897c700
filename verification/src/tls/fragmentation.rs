//! A client hello comes out the same however it was cut into records.

use vstd::prelude::*;
use super::client_hello::{ClientHelloParseError, ClientHelloView};
use super::handshake::{
    client_hello_of,
    coalesce,
    is_message,
    message_len,
    starts_with_message,
    HandshakeCoalesceError,
    CLIENT_HELLO_TYPE,
};
use super::record::{consume, Consumption, ContentType};

verus! {

/// The handshake message, as type and body, that comes out when the
/// fragments `parts` arrive in this order, each in a handshake record of its
/// own, at a coalescer that holds `buf` and accepts `max` bytes. `None`
/// where the fragments end before a message is whole, or one is refused.
pub open spec fn fed_message(buf: Seq<u8>, max: nat, parts: Seq<Seq<u8>>) -> Option<(u8, Seq<u8>)>
    decreases parts.len(),
{
    if parts.len() == 0 {
        None
    } else {
        match consume(ContentType::Handshake, parts.first(), buf, max) {
            Err(_) => None,
            Ok(Consumption::Message { msg_type, body, taken }) => Some((msg_type, body)),
            Ok(Consumption::Absorbed { buffer, taken }) => if is_message(buffer) {
                Some((CLIENT_HELLO_TYPE, buffer.skip(4)))
            } else {
                fed_message(buffer, max, parts.drop_first())
            },
        }
    }
}

/// The client hello that comes out of the fragments `parts`, read by a
/// coalescer that starts empty.
pub open spec fn fed_client_hello(max: nat, parts: Seq<Seq<u8>>) -> Option<
    Result<ClientHelloView, ClientHelloParseError>,
> {
    match fed_message(Seq::empty(), max, parts) {
        Some((msg_type, body)) => Some(client_hello_of(msg_type, body)),
        None => None,
    }
}

proof fn lemma_fed_rest(buf: Seq<u8>, msg: Seq<u8>, max: nat, parts: Seq<Seq<u8>>)
    requires
        is_message(msg),
        msg[0] == CLIENT_HELLO_TYPE,
        msg.len() <= max,
        buf.len() < msg.len(),
        buf + parts.flatten() == msg,
    ensures
        fed_message(buf, max, parts) == Some((CLIENT_HELLO_TYPE, msg.skip(4))),
    decreases parts.len(),
{
    if parts.len() == 0 {
        assert(buf + Seq::<u8>::empty() == buf);
    } else {
        let p = parts.first();
        let rest = parts.drop_first();
        let all = buf + p;
        assert(buf + (p + rest.flatten()) == all + rest.flatten());
        assert(all.len() <= msg.len());
        assert(forall|i: int| 0 <= i < all.len() ==> all[i] == msg[i]) by {
            assert forall|i: int| 0 <= i < all.len() implies all[i] == msg[i] by {
                assert((all + rest.flatten())[i] == all[i]);
            }
        }
        if all.len() >= 4 {
            assert(message_len(all) == message_len(msg));
        }
        if buf.len() >= 4 {
            assert(forall|i: int| 0 <= i < buf.len() ==> buf[i] == all[i]);
            assert(message_len(buf) == message_len(msg));
        }
        if buf.len() == 0 && starts_with_message(p) {
            assert(p == all);
            assert(all == msg);
            assert(p.subrange(4, message_len(p) as int) == msg.skip(4));
        } else if p.len() == 0 {
            assert(all == buf);
            assert(!is_message(buf));
            lemma_fed_rest(buf, msg, max, rest);
        } else if all.len() == msg.len() {
            assert(all == msg);
            assert(coalesce(buf, max, p) == Ok::<Seq<u8>, HandshakeCoalesceError>(all));
        } else {
            assert(coalesce(buf, max, p) == Ok::<Seq<u8>, HandshakeCoalesceError>(all));
            assert(!is_message(all));
            lemma_fed_rest(all, msg, max, rest);
        }
    }
}

/// However a client hello message is cut into fragments, the coalescer
/// gives the message that a single record with the whole of it gives, and
/// so the same client hello.
pub proof fn lemma_fragmentation_invariance(msg: Seq<u8>, max: nat, parts: Seq<Seq<u8>>)
    requires
        is_message(msg),
        msg[0] == CLIENT_HELLO_TYPE,
        msg.len() <= max,
        parts.flatten() == msg,
    ensures
        fed_message(Seq::empty(), max, parts) == Some((CLIENT_HELLO_TYPE, msg.skip(4))),
        fed_message(Seq::empty(), max, parts) == fed_message(Seq::empty(), max, seq![msg]),
        fed_client_hello(max, parts) == fed_client_hello(max, seq![msg]),
{
    assert(Seq::<u8>::empty() + parts.flatten() == msg);
    lemma_fed_rest(Seq::empty(), msg, max, parts);
    let one = seq![msg];
    assert(one.first() == msg);
    assert(one.drop_first().len() == 0);
    assert(one.flatten() == msg) by {
        one.lemma_flatten_one_element();
    }
    assert(Seq::<u8>::empty() + one.flatten() == msg);
    lemma_fed_rest(Seq::empty(), msg, max, one);
}

/// A message longer than the limit is refused as soon as its header is
/// known, whatever the coalescer holds.
pub proof fn lemma_oversize_is_refused(buf: Seq<u8>, max: nat, frag: Seq<u8>)
    requires
        frag.len() > 0,
        (buf + frag).len() >= 4,
        (buf + frag)[0] == CLIENT_HELLO_TYPE,
        message_len(buf + frag) > max,
    ensures
        coalesce(buf, max, frag) == Err::<Seq<u8>, HandshakeCoalesceError>(
            HandshakeCoalesceError::MessageTooLarge,
        ),
{
}

} // verus!
