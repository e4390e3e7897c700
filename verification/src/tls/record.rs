//! The record layer: headers, fragments, and the handshake data in them.

use vstd::prelude::*;
use vstd::slice::slice_subrange;
use crate::wire::{be16, read_be16, read_be24};
use super::handshake::{
    coalesce,
    message_len,
    starts_with_message,
    HandshakeCoalesceError,
    HandshakeCoalescer,
    HandshakeMessage,
};
use super::version::RawVersion;

verus! {

/// Length of a record's header: type, version, fragment length.
pub const RECORD_HEADER_SIZE: usize = 5;

/// The longest fragment that any record may carry: 2^14 bytes of plaintext
/// and 2048 bytes of expansion.
pub const MAX_FRAGMENT_SIZE: usize = 18432;

#[derive(Clone, Copy, Debug, PartialEq, Eq, Structural, Hash)]
pub enum ContentType {
    ChangeCipherSpec,
    Alert,
    Handshake,
    ApplicationData,
    Heartbeat,
}

impl ContentType {
    /// The number that stands for the content type on the wire.
    pub open spec fn code(self) -> u8 {
        match self {
            ContentType::ChangeCipherSpec => 20,
            ContentType::Alert => 21,
            ContentType::Handshake => 22,
            ContentType::ApplicationData => 23,
            ContentType::Heartbeat => 24,
        }
    }

    /// The content type that a number stands for, if any.
    pub open spec fn of_code(code: u8) -> Option<ContentType> {
        if code == 20 {
            Some(ContentType::ChangeCipherSpec)
        } else if code == 21 {
            Some(ContentType::Alert)
        } else if code == 22 {
            Some(ContentType::Handshake)
        } else if code == 23 {
            Some(ContentType::ApplicationData)
        } else if code == 24 {
            Some(ContentType::Heartbeat)
        } else {
            None
        }
    }

    pub fn to_u8(&self) -> (r: u8)
        ensures
            r == self.code(),
    {
        match self {
            ContentType::ChangeCipherSpec => 20,
            ContentType::Alert => 21,
            ContentType::Handshake => 22,
            ContentType::ApplicationData => 23,
            ContentType::Heartbeat => 24,
        }
    }

    pub fn from_u8(code: u8) -> (r: Option<ContentType>)
        ensures
            r == Self::of_code(code),
    {
        match code {
            20 => Some(ContentType::ChangeCipherSpec),
            21 => Some(ContentType::Alert),
            22 => Some(ContentType::Handshake),
            23 => Some(ContentType::ApplicationData),
            24 => Some(ContentType::Heartbeat),
            _ => None,
        }
    }
}

/// A content type is read back from the number it is written as.
pub proof fn lemma_content_type_round_trip(t: ContentType)
    ensures
        ContentType::of_code(t.code()) == Some(t),
{
}

#[derive(Clone, Copy, Debug, PartialEq, Eq, Structural)]
pub enum RecordParseError {
    /// The data ends before the record does; so many bytes are missing.
    NeedMoreData(usize),
    InvalidContentType(u8),
    InvalidVersion(RawVersion),
    FragmentTooLarge(u16),
}

#[derive(Clone, Copy, Debug, PartialEq, Eq, Structural)]
pub struct RecordHeader {
    pub version: RawVersion,
    pub content_type: ContentType,
    pub fragment_len: u16,
}

/// The header that `data` begins with, or why there is none.
///
/// Fewer than five bytes are never refused: the rest may still come.
pub open spec fn parse_record_header(data: Seq<u8>) -> Result<RecordHeader, RecordParseError> {
    if data.len() < 5 {
        Err(RecordParseError::NeedMoreData((5 - data.len()) as usize))
    } else {
        let version = RawVersion { major: data[1], minor: data[2] };
        let len = be16(data[3], data[4]);
        match ContentType::of_code(data[0]) {
            None => Err(RecordParseError::InvalidContentType(data[0])),
            Some(content_type) => if !version.is_known() {
                Err(RecordParseError::InvalidVersion(version))
            } else if len > MAX_FRAGMENT_SIZE {
                Err(RecordParseError::FragmentTooLarge(len as u16))
            } else {
                Ok(RecordHeader { version, content_type, fragment_len: len as u16 })
            },
        }
    }
}

/// The record that `data` begins with, as its header and its fragment, or
/// why there is none.
pub open spec fn parse_record(data: Seq<u8>) -> Result<(RecordHeader, Seq<u8>), RecordParseError> {
    match parse_record_header(data) {
        Err(e) => Err(e),
        Ok(h) => {
            let end = 5 + h.fragment_len as int;
            if data.len() < end {
                Err(RecordParseError::NeedMoreData((end - data.len()) as usize))
            } else {
                Ok((h, data.subrange(5, end)))
            }
        },
    }
}

/// More data is asked for, and nothing is refused, where fewer than five
/// bytes are there, and where a good header is there but the fragment is
/// not there in full; the number of bytes that are missing is told.
pub proof fn lemma_need_more_data(data: Seq<u8>)
    ensures
        data.len() < 5 ==> parse_record(data) == Err::<(RecordHeader, Seq<u8>), RecordParseError>(
            RecordParseError::NeedMoreData((5 - data.len()) as usize),
        ),
        parse_record_header(data) matches Ok(h) ==> (data.len() < 5 + h.fragment_len
            ==> parse_record(data) == Err::<(RecordHeader, Seq<u8>), RecordParseError>(
            RecordParseError::NeedMoreData((5 + h.fragment_len - data.len()) as usize),
        )),
        parse_record(data) matches Err(RecordParseError::NeedMoreData(missing)) ==> missing > 0,
        parse_record(data) matches Ok((h, fragment)) ==> fragment.len() == h.fragment_len
            && 5 + fragment.len() <= data.len(),
{
}

/// What a record does with the handshake data it has left.
pub ghost enum Consumption {
    /// A whole message stood at the front and is handed out.
    Message { msg_type: u8, body: Seq<u8>, taken: nat },
    /// The coalescer took bytes in and now holds `buffer`.
    Absorbed { buffer: Seq<u8>, taken: nat },
}

/// What becomes of the unread bytes `left` of a record of type
/// `content_type`, given a coalescer that holds `buf` and accepts `max`
/// bytes.
///
/// With an empty coalescer, a whole message at the front of `left` is
/// handed out as it stands. Anything else is offered to the coalescer.
pub open spec fn consume(content_type: ContentType, left: Seq<u8>, buf: Seq<u8>, max: nat) -> Result<
    Consumption,
    HandshakeCoalesceError,
> {
    if content_type != ContentType::Handshake {
        Err(HandshakeCoalesceError::InvalidContentType(content_type.code()))
    } else if buf.len() == 0 && starts_with_message(left) {
        Ok(
            Consumption::Message {
                msg_type: left[0],
                body: left.subrange(4, message_len(left) as int),
                taken: message_len(left),
            },
        )
    } else {
        match coalesce(buf, max, left) {
            Err(e) => Err(e),
            Ok(b) => Ok(Consumption::Absorbed { buffer: b, taken: (b.len() - buf.len()) as nat }),
        }
    }
}

impl RecordHeader {
    pub fn parse(data: &[u8]) -> (r: Result<RecordHeader, RecordParseError>)
        ensures
            r == parse_record_header(data@),
    {
        if data.len() < RECORD_HEADER_SIZE {
            return Err(RecordParseError::NeedMoreData(RECORD_HEADER_SIZE - data.len()));
        }
        let version = RawVersion { major: data[1], minor: data[2] };
        let len = read_be16(data[3], data[4]);
        match ContentType::from_u8(data[0]) {
            None => Err(RecordParseError::InvalidContentType(data[0])),
            Some(content_type) => {
                if !version.known() {
                    Err(RecordParseError::InvalidVersion(version))
                } else if len as usize > MAX_FRAGMENT_SIZE {
                    Err(RecordParseError::FragmentTooLarge(len))
                } else {
                    Ok(RecordHeader { version, content_type, fragment_len: len })
                }
            },
        }
    }
}

/// One record, with a mark of how much of its fragment was read.
#[derive(Debug)]
pub struct Record<'a> {
    header: RecordHeader,
    fragment: &'a [u8],
    consume_offset: usize,
}

impl<'a> Record<'a> {
    /// What holds of every record that this module hands out.
    pub closed spec fn wf(&self) -> bool {
        &&& self.fragment@.len() == self.header.fragment_len
        &&& self.fragment@.len() <= MAX_FRAGMENT_SIZE
        &&& self.consume_offset <= self.fragment@.len()
    }

    pub closed spec fn header(&self) -> RecordHeader {
        self.header
    }

    /// The bytes that the record carries.
    pub closed spec fn fragment(&self) -> Seq<u8> {
        self.fragment@
    }

    /// How many bytes of the fragment were read.
    pub closed spec fn consumed(&self) -> nat {
        self.consume_offset as nat
    }

    /// The bytes of the fragment that were not read yet.
    pub open spec fn remaining(&self) -> Seq<u8> {
        self.fragment().skip(self.consumed() as int)
    }

    /// Never more is read than the fragment holds, and the fragment is as
    /// long as the header says.
    pub proof fn lemma_bounds(&self)
        requires
            self.wf(),
        ensures
            self.consumed() <= self.fragment().len(),
            self.fragment().len() == self.header().fragment_len,
            self.fragment().len() <= MAX_FRAGMENT_SIZE,
    {
    }

    /// Reads the record that `data` begins with.
    pub fn parse(data: &'a [u8]) -> (r: Result<Record<'a>, RecordParseError>)
        ensures
            match parse_record(data@) {
                Ok((h, f)) => {
                    &&& r matches Ok(rec)
                    &&& rec.wf()
                    &&& rec.header() == h
                    &&& rec.fragment() == f
                    &&& rec.consumed() == 0
                },
                Err(e) => r == Err::<Record<'a>, RecordParseError>(e),
            },
    {
        let header = match RecordHeader::parse(data) {
            Ok(h) => h,
            Err(e) => {
                return Err(e);
            },
        };
        let end = RECORD_HEADER_SIZE + header.fragment_len as usize;
        if data.len() < end {
            return Err(RecordParseError::NeedMoreData(end - data.len()));
        }
        Ok(Record { header, fragment: slice_subrange(data, RECORD_HEADER_SIZE, end), consume_offset: 0 })
    }

    pub fn content_type(&self) -> (r: ContentType)
        ensures
            r == self.header().content_type,
    {
        self.header.content_type
    }

    pub fn version(&self) -> (r: RawVersion)
        ensures
            r == self.header().version,
    {
        self.header.version
    }

    /// Length of the record on the wire: header and fragment.
    pub fn encoded_len(&self) -> (r: usize)
        requires
            self.wf(),
        ensures
            r == 5 + self.fragment().len(),
    {
        RECORD_HEADER_SIZE + self.fragment.len()
    }

    /// Whether the whole fragment was read.
    pub fn consume_done(&self) -> (r: bool)
        requires
            self.wf(),
        ensures
            r == (self.consumed() == self.fragment().len()),
            r == (self.remaining().len() == 0),
    {
        self.consume_offset >= self.fragment.len()
    }

    /// Reads handshake data from the record.
    ///
    /// Returns the message that stands at the front of the unread bytes, if
    /// the coalescer is empty and the message is whole. Otherwise the
    /// coalescer takes what it needs of the unread bytes, and `None` is
    /// returned.
    pub fn consume_handshake(&mut self, coalescer: &mut HandshakeCoalescer) -> (r: Result<
        Option<HandshakeMessage<'a>>,
        HandshakeCoalesceError,
    >)
        requires
            old(self).wf(),
            old(coalescer).wf(),
        ensures
            final(self).wf(),
            final(coalescer).wf(),
            final(self).header() == old(self).header(),
            final(self).fragment() == old(self).fragment(),
            final(coalescer).limit() == old(coalescer).limit(),
            final(coalescer).consumed() == old(coalescer).consumed(),
            match consume(
                old(self).header().content_type,
                old(self).remaining(),
                old(coalescer).buffer(),
                old(coalescer).limit(),
            ) {
                Ok(Consumption::Message { msg_type, body, taken }) => {
                    &&& r matches Ok(Some(m))
                    &&& m.msg_type == msg_type
                    &&& m.body@ == body
                    &&& final(self).consumed() == old(self).consumed() + taken
                    &&& final(coalescer).buffer() == old(coalescer).buffer()
                },
                Ok(Consumption::Absorbed { buffer, taken }) => {
                    &&& r matches Ok(None)
                    &&& final(self).consumed() == old(self).consumed() + taken
                    &&& final(coalescer).buffer() == buffer
                },
                Err(e) => {
                    &&& r == Err::<Option<HandshakeMessage<'a>>, HandshakeCoalesceError>(e)
                    &&& final(self).consumed() == old(self).consumed()
                    &&& final(coalescer).buffer() == old(coalescer).buffer()
                },
            },
    {
        if self.header.content_type.to_u8() != ContentType::Handshake.to_u8() {
            return Err(
                HandshakeCoalesceError::InvalidContentType(self.header.content_type.to_u8()),
            );
        }
        let whole: &'a [u8] = self.fragment;
        let left = slice_subrange(whole, self.consume_offset, whole.len());
        assert(left@ == self.remaining());
        if coalescer.is_empty() && left.len() >= 4 {
            let msg_len = 4 + read_be24(left[1], left[2], left[3]) as usize;
            if left.len() >= msg_len {
                let msg = HandshakeMessage {
                    msg_type: left[0],
                    body: slice_subrange(left, 4, msg_len),
                };
                self.consume_offset = self.consume_offset + msg_len;
                return Ok(Some(msg));
            }
        }
        match coalescer.coalesce_fragment(left) {
            Ok(n) => {
                self.consume_offset = self.consume_offset + n;
                Ok(None)
            },
            Err(e) => Err(e),
        }
    }
}

} // verus!
