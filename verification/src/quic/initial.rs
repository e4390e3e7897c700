//! Initial packets of a client: header, protection, payload.

use vstd::prelude::*;
use vstd::slice::{slice_subrange, slice_to_vec};
use super::crypto::{
    aes_128_gcm_plaintext,
    client_initial_keys,
    derive_client_initial_keys,
    header_mask,
    header_protection_mask,
    open_payload,
    InitialKeysView,
};
use super::varint::{be_value, read_varint, varint_at};

verus! {

/// The longest connection id of version 1.
pub const MAX_CONNECTION_ID_SIZE: u8 = 20;

/// Length of the tag that closes a protected payload.
pub const TAG_SIZE: usize = 16;

/// Length of the sample that the header protection is made from.
pub const SAMPLE_SIZE: usize = 16;

#[derive(Clone, Copy, Debug, PartialEq, Eq, Structural)]
pub enum PacketParseError {
    /// The packet is no Initial packet of version 1.
    InvalidHeader,
    /// The protection could not be taken off.
    DecryptFailed,
    /// The packet ends before its header or its payload does.
    ShortPacket,
}

/// The header of an Initial packet, as far as it stands unprotected.
#[derive(Debug)]
pub struct InitialHeader {
    dcid: Vec<u8>,
    scid: Vec<u8>,
    token: Vec<u8>,
    pn_offset: usize,
    length: usize,
}

/// A header as values.
pub ghost struct InitialHeaderView {
    pub dcid: Seq<u8>,
    pub scid: Seq<u8>,
    pub token: Seq<u8>,
    /// Where the packet number starts.
    pub pn_offset: nat,
    /// Length of packet number and protected payload together.
    pub length: nat,
}

impl View for InitialHeader {
    type V = InitialHeaderView;

    closed spec fn view(&self) -> InitialHeaderView {
        InitialHeaderView {
            dcid: self.dcid@,
            scid: self.scid@,
            token: self.token@,
            pn_offset: self.pn_offset as nat,
            length: self.length as nat,
        }
    }
}

/// The header that `data` begins with, or why it is refused.
///
/// The first byte must say long header, fixed bit and type Initial; the
/// version must be 1; then come the two connection ids, each behind one
/// byte of length and at most 20 bytes long, the token behind its length,
/// and the length of what follows: packet number and payload, long enough
/// for the sample and within `data`.
pub open spec fn parse_initial_header(data: Seq<u8>) -> Result<InitialHeaderView, PacketParseError> {
    if data.len() < 7 {
        Err(PacketParseError::ShortPacket)
    } else if data[0] < 0xc0 || (data[0] / 16) % 4 != 0 {
        Err(PacketParseError::InvalidHeader)
    } else if data[1] != 0 || data[2] != 0 || data[3] != 0 || data[4] != 1 {
        Err(PacketParseError::InvalidHeader)
    } else if data[5] > MAX_CONNECTION_ID_SIZE {
        Err(PacketParseError::InvalidHeader)
    } else if data.len() < 7 + data[5] {
        Err(PacketParseError::ShortPacket)
    } else if data[6 + data[5]] > MAX_CONNECTION_ID_SIZE {
        Err(PacketParseError::InvalidHeader)
    } else {
        let dl = data[5] as int;
        let sl = data[6 + dl] as int;
        let p = 7 + dl + sl;
        if data.len() < p {
            Err(PacketParseError::ShortPacket)
        } else {
            match varint_at(data.skip(p)) {
                None => Err(PacketParseError::ShortPacket),
                Some((token_len, n1)) => if data.len() - (p + n1) < token_len {
                    Err(PacketParseError::ShortPacket)
                } else {
                    let q = p + n1 + token_len;
                    match varint_at(data.skip(q)) {
                        None => Err(PacketParseError::ShortPacket),
                        Some((length, n2)) => if data.len() - (q + n2) < length || length < 4
                            + SAMPLE_SIZE {
                            Err(PacketParseError::ShortPacket)
                        } else {
                            Ok(
                                InitialHeaderView {
                                    dcid: data.subrange(6, 6 + dl),
                                    scid: data.subrange(7 + dl, p),
                                    token: data.subrange(p + n1, q),
                                    pn_offset: (q + n2) as nat,
                                    length,
                                },
                            )
                        },
                    }
                },
            }
        }
    }
}

/// Whether `header` can be the header of the packet `data`: packet number
/// and payload lie within `data` and are long enough for the sample.
pub open spec fn fits(header: InitialHeaderView, data: Seq<u8>) -> bool {
    header.pn_offset >= 1 && header.length >= 4 + SAMPLE_SIZE && header.pn_offset + header.length
        <= data.len()
}

/// The bytes of the packet that the header protection is made from: 16
/// bytes that start four bytes behind the start of the packet number.
pub open spec fn sample_of(data: Seq<u8>, header: InitialHeaderView) -> Seq<u8> {
    data.subrange(header.pn_offset as int + 4, header.pn_offset as int + 4 + SAMPLE_SIZE as int)
}

/// What stands in a packet once the protection is off its header.
pub ghost struct UnprotectedView {
    /// The first byte of the packet.
    pub first: u8,
    /// The bytes of the packet number.
    pub pn: Seq<u8>,
    pub nonce: Seq<u8>,
    /// What the payload is authenticated with: the header as it was before
    /// it was protected.
    pub aad: Seq<u8>,
    pub ciphertext: Seq<u8>,
    pub tag: Seq<u8>,
}

/// The first byte without its protection: the low four bits of the first
/// byte of the mask are taken off.
pub open spec fn unmask_first(first: u8, mask: Seq<u8>) -> u8 {
    first ^ (mask[0] % 16)
}

/// Length of the packet number, which the two lowest bits of the first
/// byte tell.
pub open spec fn pn_len_of(first: u8) -> nat {
    (first % 4 + 1) as nat
}

/// The packet with the protection off its header, ready for the payload
/// to be opened with the nonce, made from `iv` and the packet number.
pub open spec fn unprotect(data: Seq<u8>, header: InitialHeaderView, iv: Seq<u8>, mask: Seq<u8>)
    -> UnprotectedView {
    let first = unmask_first(data[0], mask);
    let n = pn_len_of(first) as int;
    let at = header.pn_offset as int;
    let end = at + header.length;
    let pn = Seq::new(n as nat, |i: int| data[at + i] ^ mask[1 + i]);
    UnprotectedView {
        first,
        pn,
        nonce: Seq::new(
            12,
            |i: int|
                if i < 12 - n {
                    iv[i]
                } else {
                    iv[i] ^ pn[i - (12 - n)]
                },
        ),
        aad: seq![first] + data.subrange(1, at) + pn,
        ciphertext: data.subrange(at + n, end - TAG_SIZE),
        tag: data.subrange(end - TAG_SIZE, end),
    }
}

/// An Initial packet as values.
pub ghost struct InitialPacketView {
    pub dcid: Seq<u8>,
    pub scid: Seq<u8>,
    pub token: Seq<u8>,
    pub packet_number: nat,
    /// The frames of the packet, protection taken off.
    pub payload: Seq<u8>,
}

/// The packet, given its header, what stands there with the protection
/// off the header, and what opening the payload gave.
///
/// A payload that does not open is a failure to decrypt. The two bits of
/// the first byte that are reserved must be zero, and the packet number
/// is four bytes long at most.
pub open spec fn finish_initial(
    header: InitialHeaderView,
    open: UnprotectedView,
    plaintext: Option<Seq<u8>>,
) -> Result<InitialPacketView, PacketParseError> {
    match plaintext {
        None => Err(PacketParseError::DecryptFailed),
        Some(payload) => if (open.first / 4) % 4 != 0 || open.pn.len() > 4 {
            Err(PacketParseError::InvalidHeader)
        } else {
            Ok(
                InitialPacketView {
                    dcid: header.dcid,
                    scid: header.scid,
                    token: header.token,
                    packet_number: be_value(open.pn),
                    payload,
                },
            )
        },
    }
}

/// What the bytes `data` hold if read as an Initial packet of a client.
pub open spec fn parse_client_initial(data: Seq<u8>) -> Result<InitialPacketView, PacketParseError> {
    match parse_initial_header(data) {
        Err(e) => Err(e),
        Ok(header) => {
            let keys = client_initial_keys(header.dcid);
            let open = unprotect(
                data,
                header,
                keys.iv,
                header_mask(keys.hp, sample_of(data, header)),
            );
            finish_initial(
                header,
                open,
                aes_128_gcm_plaintext(keys.key, open.nonce, open.aad, open.ciphertext, open.tag),
            )
        },
    }
}

/// What opening a payload gave, as values.
pub open spec fn opened(plaintext: Option<Vec<u8>>) -> Option<Seq<u8>> {
    match plaintext {
        Some(p) => Some(p@),
        None => None,
    }
}

/// A packet with the protection off its header.
#[derive(Debug)]
pub struct Unprotected {
    first: u8,
    pn: Vec<u8>,
    nonce: Vec<u8>,
    aad: Vec<u8>,
    ciphertext: Vec<u8>,
    tag: Vec<u8>,
}

impl View for Unprotected {
    type V = UnprotectedView;

    closed spec fn view(&self) -> UnprotectedView {
        UnprotectedView {
            first: self.first,
            pn: self.pn@,
            nonce: self.nonce@,
            aad: self.aad@,
            ciphertext: self.ciphertext@,
            tag: self.tag@,
        }
    }
}

proof fn lemma_be_value_4(s: Seq<u8>)
    requires
        s.len() <= 4,
    ensures
        be_value(s) <= 0xffff_ffff,
    decreases s.len(),
{
    reveal_with_fuel(be_value, 5);
    if s.len() > 0 {
        lemma_be_value_4(s.drop_last());
        if s.len() > 1 {
            lemma_be_value_4(s.drop_last().drop_last());
        }
    }
    if s.len() == 4 {
        let a = s.drop_last();
        let b = a.drop_last();
        let c = b.drop_last();
        assert(c.drop_last().len() == 0);
    } else if s.len() == 3 {
        let a = s.drop_last();
        let b = a.drop_last();
        assert(b.drop_last().len() == 0);
    } else if s.len() == 2 {
        let a = s.drop_last();
        assert(a.drop_last().len() == 0);
    }
}

impl InitialHeader {
    /// Reads the header of an Initial packet.
    pub fn parse(data: &[u8]) -> (r: Result<InitialHeader, PacketParseError>)
        ensures
            match parse_initial_header(data@) {
                Ok(h) => r matches Ok(header) && header@ == h && fits(h, data@) && h.dcid.len()
                    <= 20,
                Err(e) => r == Err::<InitialHeader, PacketParseError>(e),
            },
    {
        let n = data.len();
        if n < 7 {
            return Err(PacketParseError::ShortPacket);
        }
        if data[0] < 0xc0 || (data[0] / 16) % 4 != 0 {
            return Err(PacketParseError::InvalidHeader);
        }
        if data[1] != 0 || data[2] != 0 || data[3] != 0 || data[4] != 1 {
            return Err(PacketParseError::InvalidHeader);
        }
        let dl = data[5] as usize;
        if data[5] > MAX_CONNECTION_ID_SIZE {
            return Err(PacketParseError::InvalidHeader);
        }
        if n < 7 + dl {
            return Err(PacketParseError::ShortPacket);
        }
        let sl = data[6 + dl] as usize;
        if data[6 + dl] > MAX_CONNECTION_ID_SIZE {
            return Err(PacketParseError::InvalidHeader);
        }
        let p = 7 + dl + sl;
        if n < p {
            return Err(PacketParseError::ShortPacket);
        }
        let (token_len, end1) = match read_varint(data, p) {
            Some(v) => v,
            None => {
                return Err(PacketParseError::ShortPacket);
            },
        };
        if ((n - end1) as u64) < token_len {
            return Err(PacketParseError::ShortPacket);
        }
        let q = end1 + token_len as usize;
        let (length, pn_offset) = match read_varint(data, q) {
            Some(v) => v,
            None => {
                return Err(PacketParseError::ShortPacket);
            },
        };
        if ((n - pn_offset) as u64) < length || length < 20 {
            return Err(PacketParseError::ShortPacket);
        }
        Ok(
            InitialHeader {
                dcid: slice_to_vec(slice_subrange(data, 6, 6 + dl)),
                scid: slice_to_vec(slice_subrange(data, 7 + dl, p)),
                token: slice_to_vec(slice_subrange(data, end1, q)),
                pn_offset,
                length: length as usize,
            },
        )
    }

    pub fn dcid(&self) -> (r: &[u8])
        ensures
            r@ == self@.dcid,
    {
        self.dcid.as_slice()
    }

    /// Whether this can be the header of the packet `data`.
    pub fn fits_packet(&self, data: &[u8]) -> (r: bool)
        ensures
            r == fits(self@, data@),
    {
        self.pn_offset >= 1 && self.length >= 20 && self.pn_offset <= data.len() && self.length
            <= data.len() - self.pn_offset
    }

    /// The sample of the packet that the header protection is made from;
    /// `None` where this cannot be the header of `data`.
    pub fn sample<'a>(&self, data: &'a [u8]) -> (r: Option<&'a [u8]>)
        ensures
            fits(self@, data@) ==> (r matches Some(s) && s@ == sample_of(data@, self@)),
            !fits(self@, data@) ==> r is None,
    {
        if !self.fits_packet(data) {
            return None;
        }
        let total = data.len();
        assert(self.pn_offset + 20 <= total);
        Some(slice_subrange(data, self.pn_offset + 4, self.pn_offset + 20))
    }

    /// Takes the protection off the header of `data` with the mask
    /// `mask`, five bytes long, and makes the nonce from `iv`, twelve bytes
    /// long. `None` where the lengths are others, or this cannot be the
    /// header of `data`.
    pub fn unprotect(&self, data: &[u8], iv: &[u8], mask: &[u8]) -> (r: Option<Unprotected>)
        ensures
            fits(self@, data@) && iv@.len() == 12 && mask@.len() == 5 ==> (r matches Some(open)
                && open@ == unprotect(data@, self@, iv@, mask@) && open@.pn.len() <= 4),
            !(fits(self@, data@) && iv@.len() == 12 && mask@.len() == 5) ==> r is None,
    {
        if !self.fits_packet(data) || iv.len() != 12 || mask.len() != 5 {
            return None;
        }
        let total = data.len();
        let first = data[0] ^ (mask[0] % 16);
        let n = (first % 4 + 1) as usize;
        let at = self.pn_offset;
        let end = at + self.length;
        let mut pn: Vec<u8> = Vec::new();
        let mut i: usize = 0;
        while i < n
            invariant
                i <= n <= 4,
                total == data@.len(),
                at + 20 <= data@.len(),
                mask@.len() == 5,
                pn@.len() == i,
                forall|j: int| 0 <= j < i ==> pn@[j] == data@[at + j] ^ mask@[1 + j],
            decreases n - i,
        {
            pn.push(data[at + i] ^ mask[1 + i]);
            i = i + 1;
        }
        let mut nonce: Vec<u8> = Vec::new();
        let mut k: usize = 0;
        while k < 12
            invariant
                k <= 12,
                1 <= n <= 4,
                iv@.len() == 12,
                pn@.len() == n,
                nonce@.len() == k,
                forall|j: int|
                    0 <= j < k ==> nonce@[j] == if j < 12 - n {
                        iv@[j]
                    } else {
                        iv@[j] ^ pn@[j - (12 - n)]
                    },
            decreases 12 - k,
        {
            if k < 12 - n {
                nonce.push(iv[k]);
            } else {
                nonce.push(iv[k] ^ pn[k - (12 - n)]);
            }
            k = k + 1;
        }
        let mut aad: Vec<u8> = Vec::new();
        aad.push(first);
        aad.extend_from_slice(slice_subrange(data, 1, at));
        aad.extend_from_slice(pn.as_slice());
        let r = Unprotected {
            first,
            pn,
            nonce,
            aad,
            ciphertext: slice_to_vec(slice_subrange(data, at + n, end - TAG_SIZE)),
            tag: slice_to_vec(slice_subrange(data, end - TAG_SIZE, end)),
        };
        proof {
            let v = unprotect(data@, self@, iv@, mask@);
            assert(r.pn@ =~= v.pn);
            assert(r.nonce@ =~= v.nonce);
            assert(r.aad@ =~= v.aad);
        }
        Some(r)
    }
}

impl Unprotected {
    pub fn nonce(&self) -> (r: &[u8])
        ensures
            r@ == self@.nonce,
    {
        self.nonce.as_slice()
    }

    pub fn aad(&self) -> (r: &[u8])
        ensures
            r@ == self@.aad,
    {
        self.aad.as_slice()
    }

    pub fn ciphertext(&self) -> (r: &[u8])
        ensures
            r@ == self@.ciphertext,
    {
        self.ciphertext.as_slice()
    }

    pub fn tag(&self) -> (r: &[u8])
        ensures
            r@ == self@.tag,
    {
        self.tag.as_slice()
    }
}

/// An Initial packet with its payload in the clear.
#[derive(Debug)]
pub struct InitialPacket {
    dcid: Vec<u8>,
    scid: Vec<u8>,
    token: Vec<u8>,
    packet_number: u32,
    payload: Vec<u8>,
}

impl View for InitialPacket {
    type V = InitialPacketView;

    closed spec fn view(&self) -> InitialPacketView {
        InitialPacketView {
            dcid: self.dcid@,
            scid: self.scid@,
            token: self.token@,
            packet_number: self.packet_number as nat,
            payload: self.payload@,
        }
    }
}

impl InitialPacket {
    /// Puts the packet together from its header, what stands there with
    /// the protection off the header, and what opening the payload gave.
    pub fn finish(header: InitialHeader, open: Unprotected, plaintext: Option<Vec<u8>>) -> (r:
        Result<InitialPacket, PacketParseError>)
        ensures
            match finish_initial(header@, open@, opened(plaintext)) {
                Ok(v) => r matches Ok(p) && p@ == v,
                Err(e) => r == Err::<InitialPacket, PacketParseError>(e),
            },
    {
        let payload = match plaintext {
            Some(p) => p,
            None => {
                return Err(PacketParseError::DecryptFailed);
            },
        };
        if (open.first / 4) % 4 != 0 || open.pn.len() > 4 {
            return Err(PacketParseError::InvalidHeader);
        }
        let mut number: u32 = 0;
        let mut i: usize = 0;
        while i < open.pn.len()
            invariant
                i <= open.pn@.len() <= 4,
                number == be_value(open.pn@.take(i as int)),
            decreases open.pn@.len() - i,
        {
            proof {
                let next = open.pn@.take(i as int + 1);
                assert(next.drop_last() == open.pn@.take(i as int));
                lemma_be_value_4(next);
            }
            number = number * 256 + open.pn[i] as u32;
            i = i + 1;
        }
        assert(open.pn@.take(open.pn@.len() as int) == open.pn@);
        Ok(
            InitialPacket {
                dcid: header.dcid,
                scid: header.scid,
                token: header.token,
                packet_number: number,
                payload,
            },
        )
    }

    /// Reads an Initial packet that a client sent: the header is parsed,
    /// the keys are derived from the destination connection id, and the
    /// protection is taken off header and payload.
    ///
    /// A header that is refused is refused for the reason that
    /// `parse_initial_header` gives. Behind a good header, a packet that is
    /// returned is the one that `parse_client_initial` describes; a
    /// failure to decrypt is reported where the payload does not open, and
    /// also where the cryptographic library fails.
    pub fn parse_client(data: &[u8]) -> (r: Result<InitialPacket, PacketParseError>)
        ensures
            match parse_initial_header(data@) {
                Err(e) => r == Err::<InitialPacket, PacketParseError>(e),
                Ok(_) => match r {
                    Ok(p) => parse_client_initial(data@) == Ok::<
                        InitialPacketView,
                        PacketParseError,
                    >(p@),
                    Err(e) => e == PacketParseError::DecryptFailed || (parse_client_initial(data@)
                        == Err::<InitialPacketView, PacketParseError>(e) && e
                        == PacketParseError::InvalidHeader),
                },
            },
    {
        let header = match InitialHeader::parse(data) {
            Ok(h) => h,
            Err(e) => {
                return Err(e);
            },
        };
        let keys = match derive_client_initial_keys(header.dcid()) {
            Some(k) => k,
            None => {
                return Err(PacketParseError::DecryptFailed);
            },
        };
        let sample = match header.sample(data) {
            Some(s) => s,
            None => {
                return Err(PacketParseError::ShortPacket);
            },
        };
        let mask = match header_protection_mask(keys.hp.as_slice(), sample) {
            Some(m) => m,
            None => {
                return Err(PacketParseError::DecryptFailed);
            },
        };
        let open = match header.unprotect(data, keys.iv.as_slice(), mask.as_slice()) {
            Some(o) => o,
            None => {
                return Err(PacketParseError::DecryptFailed);
            },
        };
        let plaintext = open_payload(
            keys.key.as_slice(),
            open.nonce(),
            open.aad(),
            open.ciphertext(),
            open.tag(),
        );
        if plaintext.is_none() {
            return Err(PacketParseError::DecryptFailed);
        }
        let ghost view = open@;
        let ghost given = opened(plaintext);
        assert(given == aes_128_gcm_plaintext(
            keys.key@,
            view.nonce,
            view.aad,
            view.ciphertext,
            view.tag,
        ));
        let ghost h = header@;
        let r = InitialPacket::finish(header, open, plaintext);
        assert(finish_initial(h, view, given) == parse_client_initial(data@));
        r
    }

    pub fn packet_number(&self) -> (r: u32)
        ensures
            r == self@.packet_number,
    {
        self.packet_number
    }

    pub fn dcid(&self) -> (r: &[u8])
        ensures
            r@ == self@.dcid,
    {
        self.dcid.as_slice()
    }

    pub fn scid(&self) -> (r: &[u8])
        ensures
            r@ == self@.scid,
    {
        self.scid.as_slice()
    }

    pub fn token(&self) -> (r: &[u8])
        ensures
            r@ == self@.token,
    {
        self.token.as_slice()
    }

    /// The frames of the packet.
    pub fn payload(&self) -> (r: &[u8])
        ensures
            r@ == self@.payload,
    {
        self.payload.as_slice()
    }
}

} // verus!
