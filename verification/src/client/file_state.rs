//! The bookkeeping of a remote file opened by the client: its cursor, its
//! read-ahead window and the operations in flight.
//!
//! Reads run ahead of the cursor: up to `DEFAULT_READ_DEPTH` read requests of
//! one chunk length each are in flight, and the chunks that have come back
//! wait, keyed by their offset, until the cursor reaches them.  The first
//! short or empty reply, or an end-of-file status, fixes where the file ends.
//! The requests themselves are sent and awaited by the caller, which reports
//! each outcome back here.

use std::collections::BTreeMap;

use vstd::prelude::*;

verus! {

broadcast use vstd::std_specs::btree::group_btree_axioms, vstd::laws_cmp::group_laws_cmp;

/// Longest read requested when the server states no limit.
pub const MAX_READ_LENGTH: u64 = 261120;

/// Longest write sent when the server states no limit.
pub const MAX_WRITE_LENGTH: u64 = 261120;

/// How many read requests may be in flight at once.
pub const DEFAULT_READ_DEPTH: usize = 64;

/// The state of a file, as the contracts speak of it.
pub struct FileStateView {
    /// Read requests in flight.
    pub pending: nat,
    /// Chunks that came back, by offset, not yet handed out.
    pub ready: Map<u64, Seq<u8>>,
    /// Offset of the next read request.
    pub next_offset: u64,
    /// Where the file ends, once a reply has shown it.
    pub eof: Option<u64>,
    /// How many read requests may be in flight.
    pub depth: nat,
    /// The cursor.
    pub pos: u64,
    /// A seek was started and not yet completed.
    pub seek_pending: bool,
    /// The handle was closed.
    pub closed: bool,
}

/// Every waiting chunk holds data and ends within the range of offsets.
pub open spec fn ready_wf(ready: Map<u64, Seq<u8>>) -> bool {
    forall|k: u64|
        #[trigger] ready.contains_key(k) ==> ready[k].len() > 0 && k + ready[k].len() <= u64::MAX
}

/// How many more read requests the window takes: none once the end of the
/// file is known, else one per free slot.
pub open spec fn read_slots(eof: Option<u64>, depth: nat, pending: nat) -> nat {
    if eof is Some || pending >= depth {
        0
    } else {
        (depth - pending) as nat
    }
}

/// The length of each read request: the server's limit, or
/// `MAX_READ_LENGTH`, and at most `u32::MAX`.
pub open spec fn spec_read_len(limit: Option<u64>) -> u32 {
    let l = match limit {
        Some(l) => l,
        None => MAX_READ_LENGTH,
    };
    if l > u32::MAX as u64 {
        u32::MAX
    } else {
        l as u32
    }
}

/// The length of the next write: the whole buffer, up to the server's limit
/// or `MAX_WRITE_LENGTH`.
pub open spec fn spec_write_len(buf_len: usize, limit: Option<u64>) -> usize {
    let l = match limit {
        Some(l) => l,
        None => MAX_WRITE_LENGTH,
    };
    if (buf_len as u64) <= l {
        buf_len
    } else {
        l as usize
    }
}

impl FileStateView {
    pub open spec fn wf(self) -> bool {
        &&& ready_wf(self.ready)
        &&& self.ready.dom().finite()
        &&& self.depth == DEFAULT_READ_DEPTH as nat
        &&& self.pending <= self.depth
    }

    /// Forgets the read-ahead: the next reads start at `offset`.
    pub open spec fn reset_read(self, offset: u64) -> FileStateView {
        FileStateView { pending: 0, ready: Map::empty(), next_offset: offset, eof: None, ..self }
    }

    /// At the start of a read: a window that has drained and no longer
    /// lines up with the cursor restarts at the cursor.
    pub open spec fn realign(self) -> FileStateView {
        if self.pending == 0 && self.ready.is_empty() && self.next_offset != self.pos {
            self.reset_read(self.pos)
        } else {
            self
        }
    }

    /// Hands out as much of the chunk at the cursor as `room` takes; what is
    /// left waits at the new cursor.
    pub open spec fn take_ready(self, room: nat) -> (FileStateView, Seq<u8>) {
        let chunk = self.ready[self.pos];
        let n: nat = if chunk.len() <= room {
            chunk.len()
        } else {
            room
        };
        let rest = self.ready.remove(self.pos);
        let ready = if n < chunk.len() {
            rest.insert((self.pos + n) as u64, chunk.skip(n as int))
        } else {
            rest
        };
        (FileStateView { ready, pos: (self.pos + n) as u64, ..self }, chunk.take(n as int))
    }

    /// Records where the file ends, unless that is known already.
    pub open spec fn with_eof(self, end: u64) -> FileStateView {
        if self.eof is Some {
            self
        } else {
            FileStateView { eof: Some(end), ..self }
        }
    }

    /// Records the reply to the read request at `offset` of `len` bytes:
    /// `None` for an end-of-file status.  An empty or short reply shows where
    /// the file ends; data is kept unless it starts at or past that end.
    pub open spec fn record_read(self, offset: u64, len: u32, data: Option<Seq<u8>>) -> FileStateView {
        let s = FileStateView { pending: (self.pending - 1) as nat, ..self };
        match data {
            None => s.with_eof(offset),
            Some(d) => if d.len() == 0 {
                s.with_eof(offset)
            } else {
                let s2 = if d.len() < len {
                    s.with_eof((offset + d.len()) as u64)
                } else {
                    s
                };
                if s2.eof is None || offset < s2.eof->Some_0 {
                    FileStateView { ready: s2.ready.insert(offset, d), ..s2 }
                } else {
                    s2
                }
            },
        }
    }
}

/// Handing out the chunk at the cursor loses and reorders nothing: the bytes
/// handed out start the chunk and fit the room, the cursor moves past exactly
/// them, and the rest of the chunk waits at the new cursor.
pub proof fn lemma_take_ready_keeps_bytes(s: FileStateView, room: nat)
    requires
        s.wf(),
        s.ready.contains_key(s.pos),
        room > 0,
    ensures
        ({
            let (t, out) = s.take_ready(room);
            &&& t.wf()
            &&& 0 < out.len() <= room
            &&& t.pos == s.pos + out.len()
            &&& out.len() == s.ready[s.pos].len() || (t.ready.contains_key(t.pos) && out
                + t.ready[t.pos] == s.ready[s.pos])
        }),
{
    let (t, out) = s.take_ready(room);
    let chunk = s.ready[s.pos];
    assert(ready_wf(t.ready)) by {
        assert forall|k: u64| #[trigger] t.ready.contains_key(k) implies t.ready[k].len() > 0 && k
            + t.ready[k].len() <= u64::MAX by {
            if k != t.pos || out.len() == chunk.len() {
                assert(s.ready.contains_key(k));
            }
        }
    }
    if out.len() < chunk.len() {
        assert(out + t.ready[t.pos] =~= chunk);
    }
}

/// Once a reply has shown where the file ends, later replies neither move
/// that end nor store data at or past it.
pub proof fn lemma_eof_is_stable(s: FileStateView, offset: u64, len: u32, data: Option<Seq<u8>>)
    requires
        s.eof is Some,
    ensures
        s.record_read(offset, len, data).eof == s.eof,
        offset >= s.eof->Some_0 ==> s.record_read(offset, len, data).ready == s.ready,
{
}

/// Every waiting chunk holds the bytes of `f`, the remote file's content, at
/// its offset.
pub open spec fn ready_agrees(ready: Map<u64, Seq<u8>>, f: Seq<u8>) -> bool {
    forall|k: u64|
        #[trigger] ready.contains_key(k) ==> k + ready[k].len() <= f.len() && ready[k]
            == f.subrange(k as int, k + ready[k].len())
}

/// A reply to the read at `offset` holds the bytes of `f` there (an
/// end-of-file status holds none).
pub open spec fn reply_agrees(offset: u64, data: Option<Seq<u8>>, f: Seq<u8>) -> bool {
    data matches Some(d) ==> offset + d.len() <= f.len() && d == f.subrange(
        offset as int,
        offset + d.len(),
    )
}

/// A read hands out the file's own bytes from the cursor on: when every
/// waiting chunk holds the bytes of the file `f` at its offset, the `k` bytes
/// handed out are `f[pos..pos + k]`, the cursor moves to `pos + k`, and the
/// chunks left waiting still hold the file's bytes.
pub proof fn lemma_read_hands_out_file_bytes(s: FileStateView, f: Seq<u8>, room: nat)
    requires
        s.wf(),
        ready_agrees(s.ready, f),
        s.ready.contains_key(s.pos),
        room > 0,
    ensures
        ({
            let (t, out) = s.take_ready(room);
            &&& out == f.subrange(s.pos as int, s.pos + out.len())
            &&& 0 < out.len() <= room
            &&& t.pos == s.pos + out.len()
            &&& ready_agrees(t.ready, f)
        }),
{
    let (t, out) = s.take_ready(room);
    let chunk = s.ready[s.pos];
    let n = out.len();
    lemma_take_ready_keeps_bytes(s, room);
    assert(chunk == f.subrange(s.pos as int, s.pos + chunk.len()));
    assert(out =~= f.subrange(s.pos as int, s.pos + n));
    assert forall|k: u64| #[trigger] t.ready.contains_key(k) implies k + t.ready[k].len()
        <= f.len() && t.ready[k] == f.subrange(k as int, k + t.ready[k].len()) by {
        if n < chunk.len() && k == t.pos {
            assert(t.ready[k] =~= f.subrange(k as int, k + t.ready[k].len()));
        } else {
            assert(s.ready.contains_key(k));
        }
    }
}

/// Recording a reply that holds the file's bytes keeps every waiting chunk
/// holding the file's bytes.
pub proof fn lemma_record_read_keeps_file_bytes(
    s: FileStateView,
    f: Seq<u8>,
    offset: u64,
    len: u32,
    data: Option<Seq<u8>>,
)
    requires
        ready_agrees(s.ready, f),
        reply_agrees(offset, data, f),
    ensures
        ready_agrees(s.record_read(offset, len, data).ready, f),
{
    let t = s.record_read(offset, len, data);
    assert forall|k: u64| #[trigger] t.ready.contains_key(k) implies k + t.ready[k].len()
        <= f.len() && t.ready[k] == f.subrange(k as int, k + t.ready[k].len()) by {
        if !s.ready.contains_key(k) || k == offset {
            assert(k == offset);
        }
    }
}

/// Restarting the read-ahead at the cursor keeps every waiting chunk holding
/// the file's bytes.
pub proof fn lemma_realign_keeps_file_bytes(s: FileStateView, f: Seq<u8>)
    requires
        ready_agrees(s.ready, f),
    ensures
        ready_agrees(s.realign().ready, f),
        ready_agrees(s.reset_read(s.pos).ready, f),
{
}

/// The reply that a server holding the file `f` gives to a read of `len`
/// bytes at `offset`: the file's bytes from `offset`, up to `len` of them, or,
/// at or past the end, an end-of-file status or no bytes.
pub open spec fn honest_reply(offset: u64, len: u32, data: Option<Seq<u8>>, f: Seq<u8>) -> bool {
    if offset >= f.len() {
        data is None || data == Some(Seq::<u8>::empty())
    } else {
        data == Some(
            f.subrange(
                offset as int,
                if offset + len <= f.len() {
                    offset + len
                } else {
                    f.len() as int
                },
            ),
        )
    }
}

/// No end of file comes early: when every reply is the one a server holding
/// the file `f` gives, a recorded end is never before the end of `f`, so a
/// read that ends empty at the cursor ends at or past the end of the file.
/// The reply to the request that covers the end of `f` records exactly that
/// end, unless an end was recorded before (a reply to a later request that
/// arrived first records its own offset).
pub proof fn lemma_eof_never_early(
    s: FileStateView,
    f: Seq<u8>,
    offset: u64,
    len: u32,
    data: Option<Seq<u8>>,
)
    requires
        s.eof matches Some(e) ==> e >= f.len(),
        honest_reply(offset, len, data, f),
        len > 0,
        f.len() <= u64::MAX,
    ensures
        ({
            let t = s.record_read(offset, len, data);
            &&& t.eof matches Some(e) ==> e >= f.len()
            &&& t.eof == Some(t.pos) ==> t.pos >= f.len()
            &&& s.eof is None && offset <= f.len() < offset + len ==> t.eof == Some(
                f.len() as u64,
            )
        }),
{
}

/// A window that has drained (nothing in flight, nothing waiting) restarts
/// at the cursor: the next request starts there, and an end of file recorded
/// for another start is forgotten.
pub proof fn lemma_drained_window_restarts_at_cursor(s: FileStateView)
    requires
        s.pending == 0,
        s.ready.is_empty(),
    ensures
        s.realign().next_offset == s.pos,
        s.realign().pos == s.pos,
        s.realign().pending == 0,
        s.realign().ready.is_empty(),
        s.next_offset != s.pos ==> s.realign().eof is None,
{
}

/// A seek from the current position lands at the cursor moved by the offset,
/// a seek from the start at the given position, a seek from the end at the
/// size moved by the offset, whenever that lies within `0..=i64::MAX`.
pub proof fn lemma_seek_lands_where_asked(cur: u64, off: i64, p: u64, size: Option<u64>)
    ensures
        p <= i64::MAX ==> seek_base(SeekFrom::Start(p), cur, size) == Some(p as int),
        cur <= i64::MAX ==> seek_base(SeekFrom::Current(off), cur, size) == Some(cur + off),
        size matches Some(sz) ==> (sz <= i64::MAX ==> seek_base(SeekFrom::End(off), cur, size)
            == Some(sz + off)),
        size is None ==> seek_base(SeekFrom::End(off), cur, size) is None,
{
}

/// What a read does first.
#[derive(Debug)]
pub enum ReadBegin {
    /// The read is over: these bytes (none, when the caller's buffer has no
    /// room) go to the caller.
    Ready(Vec<u8>),
    /// Send these read requests, `(offset, length)`, then wait for replies.
    Wait(Vec<(u64, u32)>),
}

/// How a seek moves the cursor.
#[derive(Debug, Clone, Copy, PartialEq, Eq, Structural)]
pub enum SeekFrom {
    Start(u64),
    End(i64),
    Current(i64),
}

/// Why a file operation was refused.
#[derive(Debug, Clone, Copy, PartialEq, Eq, Structural)]
pub enum FileOpError {
    /// A seek was started while reads are in flight.
    ReadPending,
    /// A seek was started while another one is not complete.
    OtherPending,
    /// A seek from the end of a file whose size the server did not state.
    SizeUnknown,
    /// A seek to before the start of the file.
    BeforeStart,
}

impl FileOpError {
    /// The text of the I/O error that reports it.
    pub fn message(&self) -> (s: String)
        ensures
            *self == FileOpError::ReadPending ==> s@ == "read operation is pending, poll it before start_seek"@,
            *self == FileOpError::OtherPending ==> s@
                == "other file operation is pending, call poll_complete before start_seek"@,
            *self == FileOpError::SizeUnknown ==> s@ == "file size unknown"@,
            *self == FileOpError::BeforeStart ==> s@ == "cannot move file pointer before the beginning"@,
    {
        match self {
            FileOpError::ReadPending => "read operation is pending, poll it before start_seek".to_owned(),
            FileOpError::OtherPending => "other file operation is pending, call poll_complete before start_seek".to_owned(),
            FileOpError::SizeUnknown => "file size unknown".to_owned(),
            FileOpError::BeforeStart => "cannot move file pointer before the beginning".to_owned(),
        }
    }
}

/// The bytes of a reply, if any.
pub open spec fn opt_bytes(data: Option<Vec<u8>>) -> Option<Seq<u8>> {
    match data {
        Some(d) => Some(d@),
        None => None,
    }
}

/// The signed reading of a cursor, as a 64-bit two's-complement cast gives it.
pub open spec fn signed(x: u64) -> int {
    if x <= i64::MAX as u64 {
        x as int
    } else {
        x as int - 0x1_0000_0000_0000_0000
    }
}

/// Where a seek lands, before the check that it is not before the start:
/// `None` when it is from the end and the size is unknown.
pub open spec fn seek_base(position: SeekFrom, cur: u64, size: Option<u64>) -> Option<int> {
    match position {
        SeekFrom::Start(p) => Some(signed(p)),
        SeekFrom::Current(off) => Some(signed(cur) + off),
        SeekFrom::End(off) => match size {
            Some(sz) => Some(signed(sz) + off),
            None => None,
        },
    }
}

/// The length of each read request for a server limit (`None`: no limit).
pub fn read_len(limit: Option<u64>) -> (r: u32)
    ensures
        r == spec_read_len(limit),
        limit is None ==> r == 261120,
        limit matches Some(l) ==> (l <= u32::MAX ==> r == l) && (l > u32::MAX ==> r == u32::MAX),
{
    let l = match limit {
        Some(l) => l,
        None => MAX_READ_LENGTH,
    };
    if l > u32::MAX as u64 {
        u32::MAX
    } else {
        l as u32
    }
}

/// The length of the next write of a buffer of `buf_len` bytes, for a server
/// limit (`None`: no limit).
pub fn write_len(buf_len: usize, limit: Option<u64>) -> (r: usize)
    ensures
        r == spec_write_len(buf_len, limit),
        r <= buf_len,
        limit is None ==> r == (if buf_len <= 261120 { buf_len } else { 261120 }),
        limit matches Some(l) ==> r == (if buf_len <= l { buf_len as int } else { l as int }),
{
    let l = match limit {
        Some(l) => l,
        None => MAX_WRITE_LENGTH,
    };
    if (buf_len as u64) <= l {
        buf_len
    } else {
        l as usize
    }
}

/// Where a seek lands, from the cursor `cur` when it started and, for a seek
/// from the end, the size that the server stated (`None`: not stated).
pub fn seek_target(position: SeekFrom, cur: u64, size: Option<u64>) -> (r: Result<u64, FileOpError>)
    requires
        seek_base(position, cur, size) matches Some(b) ==> i64::MIN <= b <= i64::MAX,
    ensures
        match seek_base(position, cur, size) {
            None => r == Err::<u64, FileOpError>(FileOpError::SizeUnknown),
            Some(b) => if b < 0 {
                r == Err::<u64, FileOpError>(FileOpError::BeforeStart)
            } else {
                r == Ok::<u64, FileOpError>(b as u64)
            },
        },
        match position {
            SeekFrom::Start(p) => p <= i64::MAX ==> r == Ok::<u64, FileOpError>(p),
            SeekFrom::Current(off) => cur <= i64::MAX ==> if 0 <= cur + off {
                r == Ok::<u64, FileOpError>((cur + off) as u64)
            } else {
                r == Err::<u64, FileOpError>(FileOpError::BeforeStart)
            },
            SeekFrom::End(off) => match size {
                None => r == Err::<u64, FileOpError>(FileOpError::SizeUnknown),
                Some(sz) => sz <= i64::MAX && 0 <= sz + off ==> r == Ok::<u64, FileOpError>(
                    (sz + off) as u64,
                ),
            },
        },
{
    let base: i128 = match position {
        SeekFrom::Start(p) => signed_of(p),
        SeekFrom::Current(off) => signed_of(cur) + off as i128,
        SeekFrom::End(off) => match size {
            Some(sz) => signed_of(sz) + off as i128,
            None => return Err(FileOpError::SizeUnknown),
        },
    };
    if base < 0 {
        Err(FileOpError::BeforeStart)
    } else {
        Ok(base as u64)
    }
}

fn signed_of(x: u64) -> (r: i128)
    ensures
        r == signed(x),
{
    if x <= i64::MAX as u64 {
        x as i128
    } else {
        x as i128 - 0x1_0000_0000_0000_0000i128
    }
}

/// The bookkeeping of an open remote file.
#[derive(Debug)]
pub struct FileState {
    read_pending: usize,
    read_ready: BTreeMap<u64, Vec<u8>>,
    read_next_offset: u64,
    read_eof: Option<u64>,
    read_depth: usize,
    seek_pending: bool,
    pos: u64,
    closed: bool,
}

impl View for FileState {
    type V = FileStateView;

    closed spec fn view(&self) -> FileStateView {
        FileStateView {
            pending: self.read_pending as nat,
            ready: self.read_ready@.map_values(|v: Vec<u8>| v@),
            next_offset: self.read_next_offset,
            eof: self.read_eof,
            depth: self.read_depth as nat,
            pos: self.pos,
            seek_pending: self.seek_pending,
            closed: self.closed,
        }
    }
}

impl FileState {
    /// A file just opened: cursor at the start, nothing in flight.
    pub fn new() -> (s: FileState)
        ensures
            s@.wf(),
            s@.pending == 0,
            s@.ready == Map::<u64, Seq<u8>>::empty(),
            s@.next_offset == 0,
            s@.eof is None,
            s@.pos == 0,
            !s@.seek_pending,
            !s@.closed,
    {
        let s = FileState {
            read_pending: 0,
            read_ready: BTreeMap::new(),
            read_next_offset: 0,
            read_eof: None,
            read_depth: DEFAULT_READ_DEPTH,
            seek_pending: false,
            pos: 0,
            closed: false,
        };
        assert(s@.ready =~= Map::<u64, Seq<u8>>::empty());
        s
    }

    /// The cursor.
    pub fn position(&self) -> (p: u64)
        ensures
            p == self@.pos,
    {
        self.pos
    }

    /// Read requests in flight.
    pub fn pending_reads(&self) -> (n: usize)
        ensures
            n == self@.pending,
    {
        self.read_pending
    }

    /// Forgets the read-ahead; the caller drops the requests in flight.
    pub fn reset_read(&mut self, offset: u64)
        requires
            old(self)@.wf(),
        ensures
            final(self)@ == old(self)@.reset_read(offset),
            final(self)@.wf(),
    {
        self.read_pending = 0;
        self.read_ready = BTreeMap::new();
        self.read_next_offset = offset;
        self.read_eof = None;
        assert(self@.ready =~= Map::<u64, Seq<u8>>::empty());
        assert(self@ == old(self)@.reset_read(offset));
    }

    /// Hands out the front of the chunk at the cursor, if one waits there.
    fn take_at_pos(&mut self, room: usize) -> (r: Option<Vec<u8>>)
        requires
            old(self)@.wf(),
            room > 0,
        ensures
            final(self)@.wf(),
            old(self)@.ready.contains_key(old(self)@.pos) ==> (r matches Some(d) && (final(self)@, d@)
                == old(self)@.take_ready(room as nat)),
            !old(self)@.ready.contains_key(old(self)@.pos) ==> r is None && final(self)@ == old(
                self,
            )@,
    {
        let pos = self.pos;
        let ghost s0 = self@;
        let ghost m0 = self.read_ready@;
        match self.read_ready.remove(&pos) {
            None => {
                assert(!s0.ready.contains_key(pos));
                assert(self.read_ready@ =~= m0);
                assert(self@ == s0);
                None
            },
            Some(mut data) => {
                assert(s0.ready.contains_key(pos));
                assert(s0.ready[pos] == data@);
                let len = if data.len() <= room {
                    data.len()
                } else {
                    room
                };
                let rest = data.split_off(len);
                self.pos = pos + len as u64;
                if len < data.len() + rest.len() {
                    let ghost m1 = self.read_ready@;
                    self.read_ready.insert(self.pos, rest);
                    assert(self.read_ready@ == m1.insert((pos + len) as u64, rest));
                } else {
                }
                let ghost expect = s0.take_ready(room as nat);
                assert(self@.ready =~= expect.0.ready);
                assert(data@ =~= expect.1);
                assert(self@ == expect.0);
                Some(data)
            },
        }
    }

    /// Starts a read into a buffer with room for `room` bytes, for a server
    /// read limit (`None`: no limit).  When nothing waits at the cursor, it
    /// issues read requests into the free slots of the window, one chunk
    /// after the other, for the caller to send.
    pub fn poll_read_begin(&mut self, room: usize, limit: Option<u64>) -> (r: ReadBegin)
        requires
            old(self)@.wf(),
        ensures
            final(self)@.wf(),
            room == 0 ==> (r matches ReadBegin::Ready(d) && d@.len() == 0 && final(self)@ == old(
                self,
            )@),
            room > 0 && old(self)@.realign().ready.contains_key(old(self)@.realign().pos) ==> (
            r matches ReadBegin::Ready(d) && (final(self)@, d@) == old(self)@.realign().take_ready(
                room as nat,
            )),
            room > 0 && !old(self)@.realign().ready.contains_key(old(self)@.realign().pos) ==> (
            r matches ReadBegin::Wait(reqs) && {
                let s = old(self)@.realign();
                let len = spec_read_len(limit);
                let k = reqs@.len();
                &&& k <= read_slots(s.eof, s.depth, s.pending)
                &&& (forall|i: int|
                    0 <= i < k ==> #[trigger] reqs@[i] == ((s.next_offset + i * len) as u64, len))
                &&& s.next_offset + k * len <= u64::MAX
                &&& (k == read_slots(s.eof, s.depth, s.pending) || s.next_offset + (k + 1) * len
                    > u64::MAX)
                &&& final(self)@ == FileStateView {
                    pending: s.pending + k,
                    next_offset: (s.next_offset + k * len) as u64,
                    ..s
                }
            }),
            room > 0 && old(self)@.pending == 0 && old(self)@.ready.is_empty() ==> (
            r matches ReadBegin::Wait(reqs) && {
                let len = spec_read_len(limit);
                let pos = old(self)@.pos;
                &&& (forall|i: int|
                    0 <= i < reqs@.len() ==> #[trigger] reqs@[i] == ((pos + i * len) as u64, len))
                &&& (old(self)@.next_offset != pos && pos + len <= u64::MAX ==> reqs@.len() > 0)
                &&& final(self)@.pos == pos
            }),
    {
        if room == 0 {
            return ReadBegin::Ready(Vec::new());
        }
        if self.read_pending == 0 && self.read_ready.is_empty() && self.read_next_offset != self.pos {
            let pos = self.pos;
            self.reset_read(pos);
        }
        assert(self@ == old(self)@.realign());
        if let Some(d) = self.take_at_pos(room) {
            return ReadBegin::Ready(d);
        }
        let ghost s = self@;
        let len = read_len(limit);
        let mut reqs: Vec<(u64, u32)> = Vec::new();
        let ghost slots = read_slots(s.eof, s.depth, s.pending);
        let mut full = false;
        while !full && self.read_eof.is_none() && self.read_pending < self.read_depth
            invariant
                self@.wf(),
                s.wf(),
                self@.eof == s.eof,
                self@.ready == s.ready,
                self@.pos == s.pos,
                self@.depth == s.depth,
                self@.seek_pending == s.seek_pending,
                self@.closed == s.closed,
                slots == read_slots(s.eof, s.depth, s.pending),
                reqs@.len() <= slots,
                full ==> s.next_offset + (reqs@.len() + 1) * len > u64::MAX,
                self@.pending == s.pending + reqs@.len(),
                self@.next_offset == s.next_offset + reqs@.len() * len,
                s.eof is None ==> slots == s.depth - s.pending,
                forall|i: int|
                    0 <= i < reqs@.len() ==> #[trigger] reqs@[i] == (
                        (s.next_offset + i * len) as u64,
                        len,
                    ),
            decreases self.read_depth - self.read_pending + (if full { 0int } else { 1int }),
        {
            let offset = self.read_next_offset;
            if offset > u64::MAX - len as u64 {
                proof {
                    let k = reqs@.len();
                    assert(s.next_offset + (k + 1) * len == s.next_offset + k * len + len)
                        by (nonlinear_arith);
                }
                full = true;
            } else {
                let ghost k = reqs@.len();
                reqs.push((offset, len));
                self.read_next_offset = offset + len as u64;
                self.read_pending = self.read_pending + 1;
                proof {
                    assert(s.next_offset + (k + 1) * len == s.next_offset + k * len + len)
                        by (nonlinear_arith);
                }
            }
        }
        proof {
            let k = reqs@.len();
            let o = old(self)@;
            if o.pending == 0 && o.ready.is_empty() {
                assert(s.next_offset == o.pos);
                assert(s.pos == o.pos);
                if o.next_offset != o.pos {
                    assert(s.eof is None);
                    assert(read_slots(s.eof, s.depth, s.pending) == 64);
                    if k == 0 {
                        assert((k + 1) * len == len) by (nonlinear_arith)
                            requires
                                k == 0,
                        ;
                    }
                }
            }
            assert(self@ == FileStateView {
                pending: s.pending + k,
                next_offset: (s.next_offset + k * len) as u64,
                ..s
            });
        }
        ReadBegin::Wait(reqs)
    }

    /// While waiting for replies, and none has come: is the read over, the
    /// cursor standing at the end of the file?
    pub fn poll_read_idle(&self) -> (done: bool)
        ensures
            done == (self@.eof == Some(self@.pos)),
    {
        match self.read_eof {
            Some(e) => e == self.pos,
            None => false,
        }
    }

    /// Records a failed read request; the read fails with its error.
    pub fn poll_read_failed(&mut self)
        requires
            old(self)@.wf(),
            old(self)@.pending > 0,
        ensures
            final(self)@.wf(),
            final(self)@ == (FileStateView { pending: (old(self)@.pending - 1) as nat, ..old(self)@ }),
    {
        self.read_pending = self.read_pending - 1;
    }

    /// Records the reply to the read request at `offset` of `len` bytes
    /// (`None`: an end-of-file status) into a buffer with room for `room`
    /// bytes.  `Some` ends the read with these bytes for the caller (none
    /// when the file ends at the cursor); `None` waits for the next reply.
    pub fn poll_read_reply(&mut self, room: usize, offset: u64, len: u32, data: Option<Vec<u8>>) -> (r:
        Option<Vec<u8>>)
        requires
            old(self)@.wf(),
            old(self)@.pending > 0,
            room > 0,
            data matches Some(d) ==> offset + d@.len() <= u64::MAX,
        ensures
            final(self)@.wf(),
            ({
                let s = old(self)@.record_read(offset, len, opt_bytes(data));
                if s.ready.contains_key(s.pos) {
                    r matches Some(d) && (final(self)@, d@) == s.take_ready(room as nat)
                } else if s.eof == Some(s.pos) && s.pending == 0 {
                    r matches Some(d) && d@.len() == 0 && final(self)@ == s
                } else {
                    r is None && final(self)@ == s
                }
            }),
    {
        let ghost sdata = opt_bytes(data);
        let ghost expect = old(self)@.record_read(offset, len, sdata);
        self.read_pending = self.read_pending - 1;
        match data {
            None => {
                if self.read_eof.is_none() {
                    self.read_eof = Some(offset);
                }
            },
            Some(d) => {
                if d.len() == 0 {
                    if self.read_eof.is_none() {
                        self.read_eof = Some(offset);
                    }
                } else {
                    if d.len() < len as usize && self.read_eof.is_none() {
                        self.read_eof = Some(offset + d.len() as u64);
                    }
                    let keep = match self.read_eof {
                        None => true,
                        Some(e) => offset < e,
                    };
                    if keep {
                        let ghost m1 = self.read_ready@;
                        let ghost dv = d@;
                        self.read_ready.insert(offset, d);
                        assert(self@.ready =~= m1.map_values(|v: Vec<u8>| v@).insert(offset, dv));
                    }
                }
            },
        }
        assert(self@ == expect);
        if let Some(d) = self.take_at_pos(room) {
            return Some(d);
        }
        if self.read_pending == 0 && self.poll_read_idle() {
            return Some(Vec::new());
        }
        None
    }

    /// Starts a seek; returns the cursor it starts from.  Refused while
    /// reads are in flight or another seek is not complete.
    pub fn start_seek(&mut self) -> (r: Result<u64, FileOpError>)
        ensures
            old(self)@.pending > 0 ==> r == Err::<u64, FileOpError>(FileOpError::ReadPending)
                && final(self)@ == old(self)@,
            old(self)@.pending == 0 && old(self)@.seek_pending ==> r == Err::<u64, FileOpError>(
                FileOpError::OtherPending,
            ) && final(self)@ == old(self)@,
            old(self)@.pending == 0 && !old(self)@.seek_pending ==> r == Ok::<u64, FileOpError>(
                old(self)@.pos,
            ) && final(self)@ == (FileStateView { seek_pending: true, ..old(self)@ }),
    {
        if self.read_pending > 0 {
            return Err(FileOpError::ReadPending);
        }
        if self.seek_pending {
            return Err(FileOpError::OtherPending);
        }
        self.seek_pending = true;
        Ok(self.pos)
    }

    /// Completes a seek at `pos`: the cursor moves there and the read-ahead
    /// restarts there (the caller drops the requests in flight).
    pub fn complete_seek(&mut self, pos: u64) -> (p: u64)
        requires
            old(self)@.wf(),
        ensures
            final(self)@.wf(),
            p == pos,
            final(self)@ == (FileStateView { pos, seek_pending: false, ..old(self)@ }).reset_read(
                pos,
            ),
    {
        self.pos = pos;
        self.seek_pending = false;
        self.reset_read(pos);
        pos
    }

    /// Records a completed write of `len` bytes at the cursor.
    pub fn complete_write(&mut self, len: usize)
        requires
            old(self)@.pos + len <= u64::MAX,
        ensures
            final(self)@ == (FileStateView { pos: (old(self)@.pos + len) as u64, ..old(self)@ }),
    {
        self.pos = self.pos + len as u64;
    }

    /// Marks the handle closed; `true` when it was open, so that a close
    /// request is to be sent, `false` when it was closed already.
    pub fn begin_close(&mut self) -> (send: bool)
        ensures
            send == !old(self)@.closed,
            final(self)@ == (FileStateView { closed: true, ..old(self)@ }),
    {
        let send = !self.closed;
        self.closed = true;
        send
    }

    /// Is a close request still owed when the file is dropped?
    pub fn needs_close(&self) -> (r: bool)
        ensures
            r == !self@.closed,
    {
        !self.closed
    }
}

} // verus!
