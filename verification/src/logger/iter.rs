//! Reading a log back from its bytes: the file header, then one message
//! after another, as long as the bytes the file header leaves account for
//! them.

use vstd::prelude::*;
use super::error::{LogError, LogResult};
use super::logfile::{
    decode_file_header, decode_message_header, file_header_bytes, lemma_file_header_round_trip,
    lemma_message_header_round_trip, message_header_bytes, message_record, FileHeader,
    MessageHeader, FILE_HEADER_SIZE, MAGIC, MESSAGE_HEADER_SIZE, VERSION,
};
use crate::time::Time;

verus! {

/// A message read back from a log.
pub struct Message {
    pub hdr: MessageHeader,
    pub data: Vec<u8>,
}

/// `n` bytes of `file` from `pos` on, zero where the file ends first.
pub open spec fn block(file: Seq<u8>, pos: nat, n: nat) -> Seq<u8> {
    Seq::new(n, |i: int| if pos + i < file.len() { file[pos + i] } else { 0u8 })
}

/// The read position after reading `n` bytes from `pos`: it stops at the
/// end of the file.
pub open spec fn advanced(len: nat, pos: nat, n: nat) -> nat {
    if pos + n <= len {
        pos + n
    } else {
        len
    }
}

/// The bytes a message header is decoded from: those read for it, with zero
/// bytes added where fewer than a full header were read.
pub open spec fn header_block(b: Seq<u8>) -> Seq<u8> {
    if b.len() >= MESSAGE_HEADER_SIZE {
        b
    } else {
        b + Seq::new((MESSAGE_HEADER_SIZE - b.len()) as nat, |i: int| 0u8)
    }
}

/// What one step of reading messages yields.
pub enum Step {
    /// The log holds no more messages.
    End,
    /// The log is damaged; the message says how.
    Failed(Seq<char>),
    /// A message: its header (checksum left at zero) and its bytes.
    Read(MessageHeader, Seq<u8>),
}

/// The message read at `pos` when `rem` bytes of the log are unaccounted for
/// and message headers take `hsize` bytes: what is read, the new read
/// position, and the bytes left unaccounted for.
pub open spec fn step(file: Seq<u8>, pos: nat, hsize: nat, rem: int) -> (Step, nat, int) {
    if rem <= 0 {
        (Step::End, pos, rem)
    } else if rem < hsize {
        (Step::Failed("Not enough space for header"@), pos, 0)
    } else {
        let rem1 = rem - hsize;
        let hdr = decode_message_header(header_block(block(file, pos, hsize)));
        let pos1 = advanced(file.len(), pos, hsize);
        if rem1 < hdr.length {
            (Step::Failed("invalid message size"@), pos1, 0)
        } else {
            let data = block(file, pos1, hdr.length as nat);
            (
                Step::Read(
                    MessageHeader {
                        time: hdr.time,
                        seqnum: hdr.seqnum,
                        length: hdr.length,
                        checksum: 0,
                        msg_type: hdr.msg_type,
                    },
                    data,
                ),
                advanced(file.len(), pos1, hdr.length as nat),
                rem1 - hdr.length,
            )
        }
    }
}

/// Reads `n` bytes of `file` from `pos` (zero past its end); also says where
/// reading stopped.
fn read_block(file: &[u8], pos: usize, n: usize) -> (r: (Vec<u8>, usize))
    requires
        pos <= file@.len(),
    ensures
        r.0@ == block(file@, pos as nat, n as nat),
        r.1 == advanced(file@.len(), pos as nat, n as nat),
{
    let avail = file.len() - pos;
    let mut out: Vec<u8> = Vec::new();
    let mut i: usize = 0;
    while i < n
        invariant
            avail == file@.len() - pos,
            pos + avail <= usize::MAX,
            pos <= file@.len(),
            i <= n,
            out@ =~= block(file@, pos as nat, n as nat).subrange(0, i as int),
        decreases n - i,
    {
        if i < avail {
            out.push(file[pos + i]);
        } else {
            out.push(0u8);
        }
        i = i + 1;
    }
    assert(block(file@, pos as nat, n as nat).subrange(0, n as int) =~= block(
        file@,
        pos as nat,
        n as nat,
    ));
    let end = if n <= avail { pos + n } else { file.len() };
    (out, end)
}

/// Reads message after message from the bytes of a log.
pub struct MessageIterator<'a> {
    file: &'a [u8],
    pos: usize,
    header_size: usize,
    remaining_size: i64,
}

impl<'a> MessageIterator<'a> {
    /// The bytes of the log.
    pub closed spec fn bytes(&self) -> Seq<u8> {
        self.file@
    }

    /// Where the next message starts.
    pub closed spec fn position(&self) -> nat {
        self.pos as nat
    }

    /// Bytes of each message header.
    pub closed spec fn header_len(&self) -> nat {
        self.header_size as nat
    }

    /// Bytes of the log not yet accounted for by the messages read.
    pub closed spec fn unread(&self) -> int {
        self.remaining_size as int
    }

    /// The position lies within the log; headers are at most 255 bytes.
    pub closed spec fn wf(&self) -> bool {
        &&& self.pos <= self.file@.len()
        &&& self.header_size <= 255
    }

    /// The next message, an error where the log is damaged (after which no
    /// more is read), or `None` once every byte is accounted for.
    pub fn next(&mut self) -> (r: Option<LogResult<Message>>)
        requires
            old(self).wf(),
        ensures
            final(self).wf(),
            final(self).bytes() == old(self).bytes(),
            final(self).header_len() == old(self).header_len(),
            ({
                let (res, p, rem) = step(
                    old(self).bytes(),
                    old(self).position(),
                    old(self).header_len(),
                    old(self).unread(),
                );
                &&& final(self).position() == p
                &&& final(self).unread() == rem
                &&& match res {
                    Step::End => r is None,
                    Step::Failed(m) => r matches Some(Err(e)) && e@ == m,
                    Step::Read(h, d) => r matches Some(Ok(msg)) && msg.hdr == h && msg.data@
                        == d,
                }
            }),
    {
        if self.remaining_size <= 0 {
            return None;
        }
        if (self.remaining_size as u64) < self.header_size as u64 {
            self.remaining_size = 0;
            return Some(Err(LogError::from_str("Not enough space for header")));
        }
        self.remaining_size -= self.header_size as i64;
        let (mut buff, pos1) = read_block(self.file, self.pos, self.header_size);
        self.pos = pos1;
        let ghost read = buff@;
        while buff.len() < MESSAGE_HEADER_SIZE
            invariant
                buff@.len() <= MESSAGE_HEADER_SIZE || buff@ == read,
                read.len() < MESSAGE_HEADER_SIZE ==> buff@ == read + Seq::new(
                    (buff@.len() - read.len()) as nat,
                    |i: int| 0u8,
                ),
                read.len() >= MESSAGE_HEADER_SIZE ==> buff@ == read,
                buff@.len() >= read.len(),
            decreases MESSAGE_HEADER_SIZE - buff@.len(),
        {
            buff.push(0u8);
            assert(buff@ =~= read + Seq::new((buff@.len() - read.len()) as nat, |i: int| 0u8));
        }
        assert(buff@ =~= header_block(read));
        let hdr = MessageHeader::from_bytes(buff.as_slice());
        if self.remaining_size < hdr.length as i64 {
            self.remaining_size = 0;
            return Some(Err(LogError::from_str("invalid message size")));
        }
        self.remaining_size -= hdr.length as i64;
        let (data, pos2) = read_block(self.file, self.pos, hdr.length as usize);
        self.pos = pos2;
        let hdr = MessageHeader::new(hdr.time, hdr.seqnum, hdr.length, 0, hdr.msg_type);
        Some(Ok(Message { hdr, data }))
    }
}

/// A log's bytes, about to be read.
pub struct LogFileParser<'a> {
    file: &'a [u8],
    size: i64,
}

/// A log whose file header has been read.
pub struct LogFileIterator<'a> {
    file: &'a [u8],
    header: FileHeader,
    size: i64,
}

impl<'a> LogFileParser<'a> {
    /// The bytes of the log.
    pub closed spec fn bytes(&self) -> Seq<u8> {
        self.file@
    }

    /// The recorded size is that of the bytes.
    pub closed spec fn wf(&self) -> bool {
        self.size == self.file@.len()
    }

    /// The log made of `file`.
    pub fn new(file: &'a [u8]) -> (p: LogFileParser<'a>)
        requires
            file@.len() <= i64::MAX,
        ensures
            p.wf(),
            p.bytes() == file@,
    {
        LogFileParser { file, size: file.len() as i64 }
    }

    /// Reads the file header: an error where the log is too short to hold
    /// one. The messages then account for the bytes beyond the size the
    /// header gives for itself.
    pub fn parse(&self) -> (r: LogResult<LogFileIterator<'a>>)
        requires
            self.wf(),
        ensures
            self.bytes().len() < FILE_HEADER_SIZE ==> (r matches Err(e) && e@
                == "file does not have header too small"@),
            self.bytes().len() >= FILE_HEADER_SIZE ==> (r matches Ok(it) && it.bytes()
                == self.bytes() && it.header_spec() == decode_file_header(self.bytes())
                && it.message_bytes() == self.bytes().len()
                - decode_file_header(self.bytes()).file_header_size),
    {
        if (self.size as u64) < FILE_HEADER_SIZE as u64 {
            return Err(LogError::from_str("file does not have header too small"));
        }
        let header = FileHeader::from_bytes(self.file);
        let size = self.size - header.file_header_size as i64;
        Ok(LogFileIterator { file: self.file, header, size })
    }
}

impl<'a> LogFileIterator<'a> {
    /// The bytes of the log.
    pub closed spec fn bytes(&self) -> Seq<u8> {
        self.file@
    }

    /// The file header.
    pub closed spec fn header_spec(&self) -> FileHeader {
        self.header
    }

    /// How many bytes the messages account for.
    pub closed spec fn message_bytes(&self) -> int {
        self.size as int
    }

    /// The file header.
    pub fn header(&self) -> (h: FileHeader)
        ensures
            h == self.header_spec(),
    {
        self.header
    }

    /// The messages, read from just after the file header's own bytes.
    pub fn into_iter(&self) -> (it: MessageIterator<'a>)
        requires
            self.bytes().len() >= FILE_HEADER_SIZE,
        ensures
            it.wf(),
            it.bytes() == self.bytes(),
            it.position() == FILE_HEADER_SIZE,
            it.header_len() == self.header_spec().msg_header_size,
            it.unread() == self.message_bytes(),
    {
        MessageIterator {
            file: self.file,
            pos: FILE_HEADER_SIZE,
            header_size: self.header.msg_header_size as usize,
            remaining_size: self.size,
        }
    }
}

/// The number of messages read from `pos` on until every byte is accounted
/// for, counting from `count`, or the error of the first damaged message.
pub open spec fn scan(file: Seq<u8>, pos: nat, hsize: nat, rem: int, count: nat) -> Result<
    nat,
    Seq<char>,
>
    decreases (if rem > 0 {
        rem
    } else {
        0
    }) as nat,
{
    let (res, p, r) = step(file, pos, hsize, rem);
    match res {
        Step::End => Ok(count),
        Step::Failed(m) => Err(m),
        Step::Read(_, _) => if 0 <= r < rem {
            scan(file, p, hsize, r, count + 1)
        } else {
            Ok(count + 1)
        },
    }
}

/// What checking a log gives: an error where its magic or version is wrong
/// or a message is damaged, else the number of its messages.
pub open spec fn validation(file: Seq<u8>) -> Result<nat, Seq<char>> {
    let h = decode_file_header(file);
    if h.magic != MAGIC {
        Err("invalid magic"@)
    } else if h.version != VERSION {
        Err("invalid version"@)
    } else {
        scan(
            file,
            FILE_HEADER_SIZE as nat,
            h.msg_header_size as nat,
            file.len() - h.file_header_size,
            0,
        )
    }
}

/// Checks the log held in `file` and counts its messages.
pub fn validate(file: &[u8]) -> (r: LogResult<u64>)
    requires
        FILE_HEADER_SIZE <= file@.len() <= i64::MAX,
        decode_file_header(file@).msg_header_size > 0,
    ensures
        match r {
            Ok(n) => validation(file@) == Ok::<nat, Seq<char>>(n as nat),
            Err(e) => validation(file@) == Err::<nat, Seq<char>>(e@),
        },
{
    let parser = LogFileParser::new(file);
    let parsed = parser.parse();
    let iter = match parsed {
        Ok(it) => it,
        Err(e) => {
            return Err(e);
        },
    };
    let header = iter.header();
    if header.magic != MAGIC {
        return Err(LogError::from_str("invalid magic"));
    }
    if header.version != VERSION {
        return Err(LogError::from_str("invalid version"));
    }
    let mut messages = iter.into_iter();
    let ghost start = messages.unread();
    let mut seqnum: u64 = 0;
    loop
        invariant
            messages.wf(),
            messages.bytes() == file@,
            messages.header_len() == header.msg_header_size,
            messages.header_len() > 0,
            header == decode_file_header(file@),
            start <= i64::MAX,
            messages.unread() <= start,
            seqnum <= start - messages.unread() || messages.unread() < 0 && seqnum <= start,
            validation(file@) == scan(
                file@,
                messages.position(),
                messages.header_len(),
                messages.unread(),
                seqnum as nat,
            ),
        decreases (if messages.unread() > 0 {
            messages.unread()
        } else {
            0
        }),
    {
        match messages.next() {
            None => {
                return Ok(seqnum);
            },
            Some(Err(e)) => {
                return Err(e);
            },
            Some(Ok(_)) => {
                seqnum = seqnum + 1;
            },
        }
    }
}

/// A message appended with `LogState::record` reads back as it was written:
/// the same instant, number, type and bytes, its checksum zero, and reading
/// moves past exactly its bytes.
pub proof fn law_record_reads_back(
    prefix: Seq<u8>,
    seqnum: u64,
    time: Time,
    msg_type: u16,
    data: Seq<u8>,
    suffix: Seq<u8>,
    rem: int,
)
    requires
        data.len() <= u32::MAX,
        rem >= MESSAGE_HEADER_SIZE + data.len(),
    ensures
        step(
            prefix + message_record(seqnum, time, msg_type, data) + suffix,
            prefix.len(),
            MESSAGE_HEADER_SIZE as nat,
            rem,
        ) == (
            Step::Read(
                MessageHeader { time, seqnum, length: data.len() as u32, checksum: 0, msg_type },
                data,
            ),
            (prefix.len() + MESSAGE_HEADER_SIZE + data.len()) as nat,
            rem - MESSAGE_HEADER_SIZE - data.len(),
        ),
{
    let h = MessageHeader { time, seqnum, length: data.len() as u32, checksum: 0, msg_type };
    let file = prefix + message_record(seqnum, time, msg_type, data) + suffix;
    let pos = prefix.len();
    lemma_message_header_round_trip(h);
    let hb = message_header_bytes(h);
    assert(block(file, pos, MESSAGE_HEADER_SIZE as nat) =~= hb) by {
        assert forall|i: int| 0 <= i < MESSAGE_HEADER_SIZE implies #[trigger] block(
            file,
            pos,
            MESSAGE_HEADER_SIZE as nat,
        )[i] == hb[i] by {
            assert(file[pos + i] == hb[i]);
        }
    }
    assert(header_block(hb) == hb);
    assert(block(file, (pos + MESSAGE_HEADER_SIZE) as nat, data.len()) =~= data) by {
        assert forall|i: int| 0 <= i < data.len() implies #[trigger] block(
            file,
            (pos + MESSAGE_HEADER_SIZE) as nat,
            data.len(),
        )[i] == data[i] by {
            assert(file[pos + MESSAGE_HEADER_SIZE + i] == data[i]);
        }
    }
}

/// The bytes of messages appended one after the other: each its record.
pub open spec fn records(msgs: Seq<(u64, Time, u16, Seq<u8>)>) -> Seq<u8>
    decreases msgs.len(),
{
    if msgs.len() == 0 {
        Seq::empty()
    } else {
        let (seqnum, time, msg_type, data) = msgs[0];
        message_record(seqnum, time, msg_type, data) + records(msgs.drop_first())
    }
}

/// Every message fits the 32-bit length field.
pub open spec fn lengths_fit(msgs: Seq<(u64, Time, u16, Seq<u8>)>) -> bool {
    forall|i: int| 0 <= i < msgs.len() ==> (#[trigger] msgs[i]).3.len() <= u32::MAX
}

/// `count` bytes of `file` from `pos` on, when that many are there, are the
/// bytes read.
proof fn lemma_block_at(prefix: Seq<u8>, mid: Seq<u8>, suffix: Seq<u8>)
    ensures
        block(prefix + mid + suffix, prefix.len(), mid.len()) == mid,
        advanced((prefix + mid + suffix).len(), prefix.len(), mid.len()) == prefix.len()
            + mid.len(),
{
    let file = prefix + mid + suffix;
    assert forall|i: int| 0 <= i < mid.len() implies #[trigger] block(
        file,
        prefix.len(),
        mid.len(),
    )[i] == mid[i] by {
        assert(file[prefix.len() + i] == mid[i]);
    }
    assert(block(file, prefix.len(), mid.len()) =~= mid);
}

/// Reading well-formed records one after the other counts each and ends
/// just after them, whatever follows.
proof fn lemma_scan_records(
    prefix: Seq<u8>,
    msgs: Seq<(u64, Time, u16, Seq<u8>)>,
    suffix: Seq<u8>,
    count: nat,
)
    requires
        lengths_fit(msgs),
    ensures
        scan(
            prefix + records(msgs) + suffix,
            prefix.len(),
            MESSAGE_HEADER_SIZE as nat,
            (records(msgs).len() + suffix.len()) as int,
            count,
        ) == scan(
            prefix + records(msgs) + suffix,
            prefix.len() + records(msgs).len(),
            MESSAGE_HEADER_SIZE as nat,
            suffix.len() as int,
            count + msgs.len(),
        ),
    decreases msgs.len(),
{
    let file = prefix + records(msgs) + suffix;
    if msgs.len() == 0 {
        assert(records(msgs).len() == 0);
    } else {
        let (seqnum, time, msg_type, data) = msgs[0];
        let rest = records(msgs.drop_first());
        let rec = message_record(seqnum, time, msg_type, data);
        assert(msgs[0].3.len() <= u32::MAX);
        lemma_message_header_round_trip(
            MessageHeader { time, seqnum, length: data.len() as u32, checksum: 0, msg_type },
        );
        assert(rec.len() == MESSAGE_HEADER_SIZE + data.len());
        assert(records(msgs) == rec + rest);
        assert(file =~= prefix + rec + (rest + suffix));
        law_record_reads_back(
            prefix,
            seqnum,
            time,
            msg_type,
            data,
            rest + suffix,
            (records(msgs).len() + suffix.len()) as int,
        );
        assert(lengths_fit(msgs.drop_first())) by {
            assert forall|i: int| 0 <= i < msgs.drop_first().len() implies (
            #[trigger] msgs.drop_first()[i]).3.len() <= u32::MAX by {
                assert(msgs.drop_first()[i] == msgs[i + 1]);
            }
        }
        lemma_scan_records(prefix + rec, msgs.drop_first(), suffix, count + 1);
        assert(prefix + rec + rest + suffix =~= file);
        assert((prefix + rec).len() == prefix.len() + MESSAGE_HEADER_SIZE + data.len());
        assert(scan(
            file,
            prefix.len(),
            MESSAGE_HEADER_SIZE as nat,
            (records(msgs).len() + suffix.len()) as int,
            count,
        ) == scan(
            file,
            (prefix + rec).len(),
            MESSAGE_HEADER_SIZE as nat,
            (rest.len() + suffix.len()) as int,
            count + 1,
        ));
    }
}

/// The header a new log starts with.
pub open spec fn new_log_header() -> FileHeader {
    FileHeader {
        magic: MAGIC,
        version: VERSION,
        msg_header_size: MESSAGE_HEADER_SIZE as u8,
        file_header_size: FILE_HEADER_SIZE as u8,
    }
}

/// A new log's header followed by any bytes: checking it reads the messages
/// from just after the header, with every byte after it to account for.
proof fn lemma_validation_of_new_log(rest: Seq<u8>)
    ensures
        validation(file_header_bytes(new_log_header()) + rest) == scan(
            file_header_bytes(new_log_header()) + rest,
            FILE_HEADER_SIZE as nat,
            MESSAGE_HEADER_SIZE as nat,
            rest.len() as int,
            0,
        ),
{
    let h = new_log_header();
    let hb = file_header_bytes(h);
    let file = hb + rest;
    lemma_file_header_round_trip(h);
    assert(file.subrange(0, 4) =~= hb.subrange(0, 4));
    assert(decode_file_header(file) == decode_file_header(hb));
}

/// A log whose well-formed records are followed by bytes too few for a
/// message header (an append cut short) fails to check out with "Not enough
/// space for header", however many messages come before the damage.
pub proof fn law_cut_short_header_fails(msgs: Seq<(u64, Time, u16, Seq<u8>)>, tail: Seq<u8>)
    requires
        lengths_fit(msgs),
        0 < tail.len() < MESSAGE_HEADER_SIZE,
    ensures
        validation(file_header_bytes(new_log_header()) + records(msgs) + tail)
            == Err::<nat, Seq<char>>("Not enough space for header"@),
{
    let hb = file_header_bytes(new_log_header());
    let file = hb + records(msgs) + tail;
    lemma_file_header_round_trip(new_log_header());
    lemma_validation_of_new_log(records(msgs) + tail);
    assert(hb + (records(msgs) + tail) =~= file);
    lemma_scan_records(hb, msgs, tail, 0);
}

/// A log whose well-formed records are followed by a message header whose
/// length exceeds the bytes left after it fails to check out with "invalid
/// message size", however many messages come before the damage.
pub proof fn law_cut_short_data_fails(
    msgs: Seq<(u64, Time, u16, Seq<u8>)>,
    h: MessageHeader,
    data: Seq<u8>,
)
    requires
        lengths_fit(msgs),
        data.len() < h.length,
    ensures
        validation(
            file_header_bytes(new_log_header()) + records(msgs) + message_header_bytes(h) + data,
        ) == Err::<nat, Seq<char>>("invalid message size"@),
{
    let hb = file_header_bytes(new_log_header());
    let mb = message_header_bytes(h);
    let tail = mb + data;
    let file = hb + records(msgs) + tail;
    assert(file =~= hb + records(msgs) + mb + data);
    lemma_file_header_round_trip(new_log_header());
    lemma_message_header_round_trip(h);
    lemma_validation_of_new_log(records(msgs) + tail);
    assert(hb + (records(msgs) + tail) =~= file);
    lemma_scan_records(hb, msgs, tail, 0);
    lemma_block_at(hb + records(msgs), mb, data);
    assert(hb + records(msgs) + mb + data =~= file);
    assert(header_block(mb) == mb);
}

/// A log written from scratch, its file header then its messages' records,
/// checks out and counts exactly those messages.
pub proof fn law_written_log_validates(msgs: Seq<(u64, Time, u16, Seq<u8>)>)
    requires
        lengths_fit(msgs),
    ensures
        validation(file_header_bytes(new_log_header()) + records(msgs)) == Ok::<nat, Seq<char>>(
            msgs.len(),
        ),
{
    let hb = file_header_bytes(new_log_header());
    let file = hb + records(msgs);
    lemma_file_header_round_trip(new_log_header());
    lemma_validation_of_new_log(records(msgs));
    lemma_scan_records(hb, msgs, Seq::empty(), 0);
    assert(hb + records(msgs) + Seq::<u8>::empty() =~= file);
}

} // verus!
