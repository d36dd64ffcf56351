use vstd::prelude::*;

verus! {

/// The transfer of one guest memory range `[gpa, gpa + length)`, which the
/// memory primitives may move a part at a time.
pub struct RangeTransfer {
    gpa: u64,
    length: u64,
    offset: u64,
}

impl RangeTransfer {
    /// The transfer's range start, length and bytes moved so far.
    pub closed spec fn view(&self) -> (u64, u64, u64) {
        (self.gpa, self.length, self.offset)
    }

    /// Bytes moved never exceed the range, and the range fits in 64 bits.
    pub open spec fn wf(&self) -> bool {
        self@.2 <= self@.1 && self@.0 + self@.1 <= u64::MAX
    }

    /// Starts the transfer of `length` bytes at `gpa`.
    pub fn new(gpa: u64, length: u64) -> (r: RangeTransfer)
        requires
            gpa + length <= u64::MAX,
        ensures
            r.wf(),
            r@ == (gpa, length, 0u64),
    {
        RangeTransfer { gpa, length, offset: 0 }
    }

    /// Bytes moved so far.
    pub fn offset(&self) -> (r: u64)
        ensures
            r == self@.2,
    {
        self.offset
    }

    /// Where the next call of the memory primitive starts, and how many
    /// bytes it is asked for: the rest of the range.
    pub fn next_chunk(&self) -> (r: (u64, u64))
        requires
            self.wf(),
        ensures
            r == ((self@.0 + self@.2) as u64, (self@.1 - self@.2) as u64),
    {
        (self.gpa + self.offset, self.length - self.offset)
    }

    /// Records that the primitive moved `moved` bytes (at most what it was
    /// asked for) and tells whether the whole range has now been moved.
    pub fn advance(&mut self, moved: u64) -> (done: bool)
        requires
            old(self).wf(),
            moved <= old(self)@.1 - old(self)@.2,
        ensures
            final(self).wf(),
            final(self)@ == (old(self)@.0, old(self)@.1, (old(self)@.2 + moved) as u64),
            done == (final(self)@.2 == final(self)@.1),
    {
        self.offset = self.offset + moved;
        self.offset == self.length
    }

    /// Whether the whole range has been moved.
    pub fn is_done(&self) -> (r: bool)
        ensures
            r == (self@.2 == self@.1),
    {
        self.offset == self.length
    }
}

/// Number of payload bytes of a memory-fd request: the slot number.
pub const MEMORY_FD_PAYLOAD_LEN: u64 = 4;

/// The payload of a memory-fd request: the slot number as four
/// little-endian bytes.
pub fn memory_fd_payload(slot: u32) -> (r: Vec<u8>)
    ensures
        r@.len() == MEMORY_FD_PAYLOAD_LEN,
        r@[0] + r@[1] * 256 + r@[2] * 65536 + r@[3] * 16777216 == slot,
{
    let mut out: Vec<u8> = Vec::new();
    out.push((slot % 256) as u8);
    out.push((slot / 256 % 256) as u8);
    out.push((slot / 65536 % 256) as u8);
    out.push((slot / 16777216) as u8);
    out
}

/// What follows the peer's reply to a memory-fd request.
#[derive(Clone, Copy, Debug, PartialEq, Eq, Structural)]
pub enum FdReplyAction {
    /// Go on with the next slot.
    Continue,
    /// Send an abandon request, read its reply, and fail the migration.
    Abandon,
}

/// Decides what follows the peer's reply to a memory-fd request: a reply
/// other than OK abandons the migration.
pub fn memory_fd_reply_action(status_ok: bool) -> (r: FdReplyAction)
    ensures
        r == (if status_ok {
            FdReplyAction::Continue
        } else {
            FdReplyAction::Abandon
        }),
{
    if status_ok {
        FdReplyAction::Continue
    } else {
        FdReplyAction::Abandon
    }
}

/// Merges the dirty-page tables of the memory and device layers into one:
/// the memory ranges first, then the device ranges.
pub fn merge_dirty_tables(memory: Vec<(u64, u64)>, devices: Vec<(u64, u64)>) -> (r: Vec<
    (u64, u64),
>)
    ensures
        r@ == memory@ + devices@,
{
    let mut out = memory;
    let mut other = devices;
    out.append(&mut other);
    out
}

} // verus!
