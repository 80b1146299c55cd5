//! The headers of a log and their bytes: every number little-endian, each
//! header padded to a multiple of its alignment with zero bytes.

use vstd::prelude::*;
use vstd::bytes::{
    lemma_auto_spec_u16_to_from_le_bytes, lemma_auto_spec_u32_to_from_le_bytes,
    lemma_auto_spec_u64_to_from_le_bytes, spec_u16_from_le_bytes, spec_u16_to_le_bytes,
    spec_u32_from_le_bytes, spec_u32_to_le_bytes, spec_u64_from_le_bytes, spec_u64_to_le_bytes,
    u16_from_le_bytes, u16_to_le_bytes, u32_from_le_bytes, u32_to_le_bytes, u64_from_le_bytes,
    u64_to_le_bytes,
};
use crate::time::Time;

verus! {

/// The first bytes of every log.
pub const MAGIC: u32 = 0xFEEDFACEu32;

/// The version of the layout that this module writes and reads.
pub const VERSION: u8 = 1u8;

/// Bytes of a file header.
pub const FILE_HEADER_SIZE: usize = 8usize;

/// Bytes of a message header.
pub const MESSAGE_HEADER_SIZE: usize = 32usize;

/// The header at the start of a log.
#[derive(Clone, Copy, Debug, PartialEq, Eq, Structural)]
pub struct FileHeader {
    pub magic: u32,
    pub version: u8,
    pub msg_header_size: u8,
    pub file_header_size: u8,
}

/// The header before each message of a log.
#[derive(Clone, Copy, Debug, PartialEq, Eq, Structural)]
pub struct MessageHeader {
    pub time: Time,
    pub seqnum: u64,
    pub length: u32,
    pub checksum: u32,
    pub msg_type: u16,
}

/// The bytes of a file header: magic, version, message header size, file
/// header size, one byte of padding.
pub open spec fn file_header_bytes(h: FileHeader) -> Seq<u8> {
    spec_u32_to_le_bytes(h.magic) + seq![h.version, h.msg_header_size, h.file_header_size, 0u8]
}

/// The file header that the first bytes of `b` hold.
pub open spec fn decode_file_header(b: Seq<u8>) -> FileHeader {
    FileHeader {
        magic: spec_u32_from_le_bytes(b.subrange(0, 4)),
        version: b[4],
        msg_header_size: b[5],
        file_header_size: b[6],
    }
}

/// The bytes of a message header: instant, sequence number, length,
/// checksum, type, six bytes of padding.
pub open spec fn message_header_bytes(h: MessageHeader) -> Seq<u8> {
    spec_u64_to_le_bytes(h.time.ns) + spec_u64_to_le_bytes(h.seqnum) + spec_u32_to_le_bytes(
        h.length,
    ) + spec_u32_to_le_bytes(h.checksum) + spec_u16_to_le_bytes(h.msg_type) + seq![
        0u8,
        0u8,
        0u8,
        0u8,
        0u8,
        0u8,
    ]
}

/// The message header that the first bytes of `b` hold.
pub open spec fn decode_message_header(b: Seq<u8>) -> MessageHeader {
    MessageHeader {
        time: Time { ns: spec_u64_from_le_bytes(b.subrange(0, 8)) },
        seqnum: spec_u64_from_le_bytes(b.subrange(8, 16)),
        length: spec_u32_from_le_bytes(b.subrange(16, 20)),
        checksum: spec_u32_from_le_bytes(b.subrange(20, 24)),
        msg_type: spec_u16_from_le_bytes(b.subrange(24, 26)),
    }
}

impl FileHeader {
    /// The header a new log starts with.
    pub fn for_new_log() -> (h: FileHeader)
        ensures
            h == (FileHeader {
                magic: MAGIC,
                version: VERSION,
                msg_header_size: MESSAGE_HEADER_SIZE as u8,
                file_header_size: FILE_HEADER_SIZE as u8,
            }),
    {
        FileHeader {
            magic: MAGIC,
            version: VERSION,
            msg_header_size: 32u8,
            file_header_size: 8u8,
        }
    }

    /// Bytes of each message header, as the log says.
    pub fn msg_header_size(&self) -> (n: u8)
        ensures
            n == self.msg_header_size,
    {
        self.msg_header_size
    }

    /// Bytes of the file header, as the log says.
    pub fn file_header_size(&self) -> (n: u8)
        ensures
            n == self.file_header_size,
    {
        self.file_header_size
    }

    /// The bytes of this header.
    pub fn to_bytes(&self) -> (b: Vec<u8>)
        ensures
            b@ == file_header_bytes(*self),
            b@.len() == FILE_HEADER_SIZE,
    {
        let mut b = u32_to_le_bytes(self.magic);
        b.push(self.version);
        b.push(self.msg_header_size);
        b.push(self.file_header_size);
        b.push(0u8);
        assert(b@ =~= file_header_bytes(*self));
        b
    }

    /// The header that the first bytes of `b` hold.
    pub fn from_bytes(b: &[u8]) -> (h: FileHeader)
        requires
            b@.len() >= FILE_HEADER_SIZE,
        ensures
            h == decode_file_header(b@),
    {
        let magic = u32_from_le_bytes(&b[0..4]);
        FileHeader { magic, version: b[4], msg_header_size: b[5], file_header_size: b[6] }
    }
}

impl MessageHeader {
    /// The header of the message numbered `seqnum`, of type `msg_type`,
    /// `length` bytes long, logged at `time`.
    pub fn new(time: Time, seqnum: u64, length: u32, checksum: u32, msg_type: u16) -> (h:
        MessageHeader)
        ensures
            h == (MessageHeader { time, seqnum, length, checksum, msg_type }),
    {
        MessageHeader { time, seqnum, length, checksum, msg_type }
    }

    /// When the message was logged.
    pub fn time(&self) -> (t: Time)
        ensures
            t == self.time,
    {
        self.time
    }

    /// The message's number in the log.
    pub fn seqnum(&self) -> (n: u64)
        ensures
            n == self.seqnum,
    {
        self.seqnum
    }

    /// Bytes of the message after its header.
    pub fn length(&self) -> (n: u32)
        ensures
            n == self.length,
    {
        self.length
    }

    /// The checksum field.
    pub fn checksum(&self) -> (c: u32)
        ensures
            c == self.checksum,
    {
        self.checksum
    }

    /// The message's type.
    pub fn msg_type(&self) -> (t: u16)
        ensures
            t == self.msg_type,
    {
        self.msg_type
    }

    /// The bytes of this header.
    pub fn to_bytes(&self) -> (b: Vec<u8>)
        ensures
            b@ == message_header_bytes(*self),
            b@.len() == MESSAGE_HEADER_SIZE,
    {
        let mut b = u64_to_le_bytes(self.time.ns);
        let mut seq = u64_to_le_bytes(self.seqnum);
        b.append(&mut seq);
        let mut len = u32_to_le_bytes(self.length);
        b.append(&mut len);
        let mut sum = u32_to_le_bytes(self.checksum);
        b.append(&mut sum);
        let mut ty = u16_to_le_bytes(self.msg_type);
        b.append(&mut ty);
        let mut i: usize = 0;
        while i < 6
            invariant
                i <= 6,
                b@ == spec_u64_to_le_bytes(self.time.ns) + spec_u64_to_le_bytes(self.seqnum)
                    + spec_u32_to_le_bytes(self.length) + spec_u32_to_le_bytes(self.checksum)
                    + spec_u16_to_le_bytes(self.msg_type) + Seq::new(i as nat, |k: int| 0u8),
            decreases 6 - i,
        {
            b.push(0u8);
            i = i + 1;
            assert(Seq::new((i - 1) as nat, |k: int| 0u8).push(0u8) =~= Seq::new(
                i as nat,
                |k: int| 0u8,
            ));
        }
        assert(Seq::new(6, |k: int| 0u8) =~= seq![0u8, 0u8, 0u8, 0u8, 0u8, 0u8]);
        b
    }

    /// The header that the first bytes of `b` hold.
    pub fn from_bytes(b: &[u8]) -> (h: MessageHeader)
        requires
            b@.len() >= MESSAGE_HEADER_SIZE,
        ensures
            h == decode_message_header(b@),
    {
        let time = u64_from_le_bytes(&b[0..8]);
        let seqnum = u64_from_le_bytes(&b[8..16]);
        let length = u32_from_le_bytes(&b[16..20]);
        let checksum = u32_from_le_bytes(&b[20..24]);
        let msg_type = u16_from_le_bytes(&b[24..26]);
        MessageHeader { time: Time { ns: time }, seqnum, length, checksum, msg_type }
    }
}

/// Reading a file header back from its bytes gives the header.
pub proof fn lemma_file_header_round_trip(h: FileHeader)
    ensures
        file_header_bytes(h).len() == FILE_HEADER_SIZE,
        decode_file_header(file_header_bytes(h)) == h,
{
    lemma_auto_spec_u32_to_from_le_bytes();
    let b = file_header_bytes(h);
    assert(b.subrange(0, 4) =~= spec_u32_to_le_bytes(h.magic));
}

/// Reading a message header back from its bytes gives the header.
pub proof fn lemma_message_header_round_trip(h: MessageHeader)
    ensures
        message_header_bytes(h).len() == MESSAGE_HEADER_SIZE,
        decode_message_header(message_header_bytes(h)) == h,
{
    lemma_auto_spec_u64_to_from_le_bytes();
    lemma_auto_spec_u32_to_from_le_bytes();
    lemma_auto_spec_u16_to_from_le_bytes();
    let b = message_header_bytes(h);
    assert(b.subrange(0, 8) =~= spec_u64_to_le_bytes(h.time.ns));
    assert(b.subrange(8, 16) =~= spec_u64_to_le_bytes(h.seqnum));
    assert(b.subrange(16, 20) =~= spec_u32_to_le_bytes(h.length));
    assert(b.subrange(20, 24) =~= spec_u32_to_le_bytes(h.checksum));
    assert(b.subrange(24, 26) =~= spec_u16_to_le_bytes(h.msg_type));
}

/// Where each field of a message header lies in its bytes: the instant at
/// bytes 0..8, the sequence number at 8..16, the length at 16..20, the
/// checksum at 20..24, the type at 24..26, all little-endian, then six zero
/// bytes.
pub proof fn law_message_header_layout(h: MessageHeader)
    ensures
        message_header_bytes(h).len() == 32,
        message_header_bytes(h).subrange(0, 8) == spec_u64_to_le_bytes(h.time.ns),
        message_header_bytes(h).subrange(8, 16) == spec_u64_to_le_bytes(h.seqnum),
        message_header_bytes(h).subrange(16, 20) == spec_u32_to_le_bytes(h.length),
        message_header_bytes(h).subrange(20, 24) == spec_u32_to_le_bytes(h.checksum),
        message_header_bytes(h).subrange(24, 26) == spec_u16_to_le_bytes(h.msg_type),
        forall|i: int| 26 <= i < 32 ==> #[trigger] message_header_bytes(h)[i] == 0u8,
{
    lemma_auto_spec_u64_to_from_le_bytes();
    lemma_auto_spec_u32_to_from_le_bytes();
    lemma_auto_spec_u16_to_from_le_bytes();
    let b = message_header_bytes(h);
    assert(b.subrange(0, 8) =~= spec_u64_to_le_bytes(h.time.ns));
    assert(b.subrange(8, 16) =~= spec_u64_to_le_bytes(h.seqnum));
    assert(b.subrange(16, 20) =~= spec_u32_to_le_bytes(h.length));
    assert(b.subrange(20, 24) =~= spec_u32_to_le_bytes(h.checksum));
    assert(b.subrange(24, 26) =~= spec_u16_to_le_bytes(h.msg_type));
}

/// Where each field of a file header lies in its bytes: the magic number at
/// bytes 0..4, little-endian, then the version, the message header size and
/// the file header size, one byte each, then a zero byte.
pub proof fn law_file_header_layout(h: FileHeader)
    ensures
        file_header_bytes(h).len() == 8,
        file_header_bytes(h).subrange(0, 4) == spec_u32_to_le_bytes(h.magic),
        file_header_bytes(h)[4] == h.version,
        file_header_bytes(h)[5] == h.msg_header_size,
        file_header_bytes(h)[6] == h.file_header_size,
        file_header_bytes(h)[7] == 0u8,
{
    lemma_auto_spec_u32_to_from_le_bytes();
    assert(file_header_bytes(h).subrange(0, 4) =~= spec_u32_to_le_bytes(h.magic));
}

/// The record of a message appended as number `seqnum`: 32 header bytes with
/// the instant at 0..8, the number at 8..16, the length of `data` (its low 32
/// bits) at 16..20, a zero checksum at 20..24 and the type at 24..26, all
/// little-endian, six zero bytes, then `data` itself.
pub proof fn law_record_layout(seqnum: u64, time: Time, msg_type: u16, data: Seq<u8>)
    ensures
        ({
            let r = message_record(seqnum, time, msg_type, data);
            &&& r.len() == 32 + data.len()
            &&& r.subrange(0, 8) == spec_u64_to_le_bytes(time.ns)
            &&& r.subrange(8, 16) == spec_u64_to_le_bytes(seqnum)
            &&& r.subrange(16, 20) == spec_u32_to_le_bytes(data.len() as u32)
            &&& r.subrange(20, 24) == spec_u32_to_le_bytes(0u32)
            &&& r.subrange(24, 26) == spec_u16_to_le_bytes(msg_type)
            &&& (forall|i: int| 26 <= i < 32 ==> #[trigger] r[i] == 0u8)
            &&& r.subrange(32, r.len() as int) == data
        }),
{
    let h = MessageHeader { time, seqnum, length: data.len() as u32, checksum: 0, msg_type };
    law_message_header_layout(h);
    let b = message_header_bytes(h);
    let r = message_record(seqnum, time, msg_type, data);
    assert(r.subrange(0, 8) =~= b.subrange(0, 8));
    assert(r.subrange(8, 16) =~= b.subrange(8, 16));
    assert(r.subrange(16, 20) =~= b.subrange(16, 20));
    assert(r.subrange(20, 24) =~= b.subrange(20, 24));
    assert(r.subrange(24, 26) =~= b.subrange(24, 26));
    assert forall|i: int| 26 <= i < 32 implies #[trigger] r[i] == 0u8 by {
        assert(r[i] == b[i]);
    }
    assert(r.subrange(32, r.len() as int) =~= data);
}

/// Whether a log is opened for reading only or for appending too.
#[derive(Clone, Copy, Debug, PartialEq, Eq, Structural)]
pub enum Permission {
    Read,
    ReadWrite,
}

impl Permission {
    /// Whether the log may be written.
    pub fn writeable(&self) -> (w: bool)
        ensures
            w == (*self == Permission::ReadWrite),
    {
        match self {
            Permission::ReadWrite => true,
            _ => false,
        }
    }
}

/// The number that the next message appended to a log gets.
pub struct LogState {
    seqnum: u64,
}

/// The bytes that append a message to a log: its header, then `data`.
pub open spec fn message_record(seqnum: u64, time: Time, msg_type: u16, data: Seq<u8>) -> Seq<u8> {
    message_header_bytes(
        MessageHeader { time, seqnum, length: data.len() as u32, checksum: 0, msg_type },
    ) + data
}

impl LogState {
    /// The number of the next message.
    pub closed spec fn next_seqnum(&self) -> u64 {
        self.seqnum
    }

    /// A log whose next message is numbered `seqnum`.
    pub fn starting_at(seqnum: u64) -> (s: LogState)
        ensures
            s.next_seqnum() == seqnum,
    {
        LogState { seqnum }
    }

    /// The number of the next message.
    pub fn seqnum(&self) -> (n: u64)
        ensures
            n == self.next_seqnum(),
    {
        self.seqnum
    }

    /// The bytes that append `data`, of type `msg_type`, logged at `time`,
    /// as the next message. The length field holds the low 32 bits of
    /// `data`'s length.
    pub fn record(&self, time: Time, msg_type: u16, data: &[u8]) -> (b: Vec<u8>)
        ensures
            b@ == message_record(self.next_seqnum(), time, msg_type, data@),
    {
        let hdr = MessageHeader::new(time, self.seqnum, data.len() as u32, 0, msg_type);
        let mut b = hdr.to_bytes();
        let mut i: usize = 0;
        let ghost head = b@;
        while i < data.len()
            invariant
                i <= data@.len(),
                b@ == head + data@.subrange(0, i as int),
            decreases data@.len() - i,
        {
            b.push(data[i]);
            i = i + 1;
            assert(b@ =~= head + data@.subrange(0, i as int));
        }
        assert(data@.subrange(0, data@.len() as int) =~= data@);
        b
    }

    /// Takes the number of the message just appended and moves on to the
    /// next.
    pub fn advance(&mut self) -> (n: u64)
        requires
            old(self).next_seqnum() < u64::MAX,
        ensures
            n == old(self).next_seqnum(),
            final(self).next_seqnum() == old(self).next_seqnum() + 1,
    {
        self.seqnum += 1;
        self.seqnum - 1
    }
}

} // verus!
