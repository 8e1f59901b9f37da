//! Events of the tape lifecycle and their fixed byte layout: an 8-byte
//! discriminator (the event kind, then zeros) followed by the fields,
//! numbers as 8 little-endian bytes.
use vstd::prelude::*;
use vstd::bytes::{spec_u64_from_le_bytes, spec_u64_to_le_bytes};
use crate::hash::append_bytes;

verus! {

/// Kinds of events.
#[derive(Clone, Copy, PartialEq, Eq, Debug, Structural)]
pub enum EventType {
    Unknown,
    WriteEvent,
    UpdateEvent,
    FinalizeEvent,
}

/// Why event bytes could not be read.
#[derive(Clone, Copy, PartialEq, Eq, Debug, Structural)]
pub enum EventError {
    /// Fewer than 8 bytes.
    TooShortForDiscriminator,
    /// The first byte names another kind of event.
    InvalidDiscriminator,
    /// Too few bytes for the fields.
    TooShortForStruct,
}

/// Segments were appended to a tape.
#[derive(Clone, Copy, PartialEq, Eq, Debug)]
pub struct WriteEvent {
    pub num_added: u64,
    pub num_total: u64,
    pub prev_slot: u64,
    pub address: [u8; 32],
}

/// A segment of a tape was replaced.
#[derive(Clone, Copy, PartialEq, Eq, Debug)]
pub struct UpdateEvent {
    pub segment_number: u64,
    pub prev_slot: u64,
    pub address: [u8; 32],
}

/// A tape was finalized.
#[derive(Clone, Copy, PartialEq, Eq, Debug)]
pub struct FinalizeEvent {
    pub tape: u64,
    pub address: [u8; 32],
}

/// The discriminator of an event kind: its number, then seven zeros.
pub open spec fn discriminator_bytes(code: u8) -> Seq<u8> {
    seq![code, 0u8, 0u8, 0u8, 0u8, 0u8, 0u8, 0u8]
}

/// The bytes of a write event.
pub open spec fn write_event_bytes(e: WriteEvent) -> Seq<u8> {
    discriminator_bytes(1) + spec_u64_to_le_bytes(e.num_added) + spec_u64_to_le_bytes(e.num_total)
        + spec_u64_to_le_bytes(e.prev_slot) + e.address@
}

/// The bytes of an update event.
pub open spec fn update_event_bytes(e: UpdateEvent) -> Seq<u8> {
    discriminator_bytes(2) + spec_u64_to_le_bytes(e.segment_number) + spec_u64_to_le_bytes(e.prev_slot)
        + e.address@
}

/// The bytes of a finalize event.
pub open spec fn finalize_event_bytes(e: FinalizeEvent) -> Seq<u8> {
    discriminator_bytes(3) + spec_u64_to_le_bytes(e.tape) + e.address@
}

/// The number in bytes `at .. at + 8` of `data`.
pub open spec fn u64_at(data: Seq<u8>, at: int) -> u64 {
    spec_u64_from_le_bytes(data.subrange(at, at + 8))
}

/// What reading an event of kind `code` with `size` bytes of fields finds
/// wrong with `data`, if anything.
pub open spec fn event_error(data: Seq<u8>, code: u8, size: int) -> Option<EventError> {
    if data.len() < 8 {
        Some(EventError::TooShortForDiscriminator)
    } else if data[0] != code {
        Some(EventError::InvalidDiscriminator)
    } else if data.len() < 8 + size {
        Some(EventError::TooShortForStruct)
    } else {
        None
    }
}

fn push_discriminator(buf: &mut Vec<u8>, code: u8)
    ensures
        final(buf)@ == old(buf)@ + discriminator_bytes(code),
{
    buf.push(code);
    let mut i: usize = 0;
    while i < 7
        invariant
            i <= 7,
            buf@ == old(buf)@ + seq![code] + Seq::new(i as nat, |k: int| 0u8),
        decreases 7 - i,
    {
        buf.push(0u8);
        i = i + 1;
        assert(buf@ =~= old(buf)@ + seq![code] + Seq::new(i as nat, |k: int| 0u8));
    }
    assert(buf@ =~= old(buf)@ + discriminator_bytes(code));
}

fn push_u64(buf: &mut Vec<u8>, x: u64)
    ensures
        final(buf)@ == old(buf)@ + spec_u64_to_le_bytes(x),
{
    let bytes = vstd::bytes::u64_to_le_bytes(x);
    append_bytes(buf, bytes.as_slice());
}

fn read_u64(data: &[u8], at: usize) -> (r: u64)
    requires
        at + 8 <= data@.len(),
    ensures
        r == u64_at(data@, at as int),
{
    let n = data.len();
    assert(at + 8 <= n);
    vstd::bytes::u64_from_le_bytes(vstd::slice::slice_subrange(data, at, at + 8))
}

fn read_address(data: &[u8], at: usize) -> (r: [u8; 32])
    requires
        at + 32 <= data@.len(),
    ensures
        r@ == data@.subrange(at as int, at + 32),
{
    let n = data.len();
    let mut out: [u8; 32] = [0u8; 32];
    let mut i: usize = 0;
    while i < 32
        invariant
            i <= 32,
            at + 32 <= n,
            n == data@.len(),
            forall|j: int| 0 <= j < i ==> #[trigger] out@[j] == data@[at + j],
        decreases 32 - i,
    {
        out[i] = data[at + i];
        i = i + 1;
    }
    assert(out@ =~= data@.subrange(at as int, at + 32));
    out
}

fn to_array<const N: usize>(v: &Vec<u8>) -> (r: [u8; N])
    requires
        v@.len() == N,
    ensures
        r@ == v@,
{
    let mut out: [u8; N] = vstd::array::array_fill_for_copy_types::<u8, N>(0u8);
    let mut i: usize = 0;
    while i < N
        invariant
            i <= N,
            v@.len() == N,
            forall|j: int| 0 <= j < i ==> #[trigger] out@[j] == v@[j],
        decreases N - i,
    {
        out[i] = v[i];
        i = i + 1;
    }
    assert(out@ =~= v@);
    out
}

proof fn lemma_le_bytes_len(x: u64)
    ensures
        spec_u64_to_le_bytes(x).len() == 8,
        spec_u64_from_le_bytes(spec_u64_to_le_bytes(x)) == x,
{
    vstd::bytes::lemma_auto_spec_u64_to_from_le_bytes();
}

impl WriteEvent {
    /// Bytes of the event with its discriminator.
    pub fn size_of() -> (r: usize)
        ensures
            r == 64,
    {
        64
    }

    /// The event's bytes.
    pub fn to_bytes(&self) -> (r: [u8; 64])
        ensures
            r@ == write_event_bytes(*self),
    {
        let mut buf: Vec<u8> = Vec::new();
        push_discriminator(&mut buf, 1);
        push_u64(&mut buf, self.num_added);
        push_u64(&mut buf, self.num_total);
        push_u64(&mut buf, self.prev_slot);
        append_bytes(&mut buf, self.address.as_slice());
        proof {
            lemma_le_bytes_len(self.num_added);
            lemma_le_bytes_len(self.num_total);
            lemma_le_bytes_len(self.prev_slot);
        }
        to_array::<64>(&buf)
    }

    /// Reads an event from its bytes.
    pub fn try_from_bytes(data: &[u8]) -> (r: Result<WriteEvent, EventError>)
        ensures
            event_error(data@, 1, 56) matches Some(e) ==> r == Err::<WriteEvent, EventError>(e),
            event_error(data@, 1, 56) is None ==> r is Ok && ({
                let e = r->Ok_0;
                &&& e.num_added == u64_at(data@, 8)
                &&& e.num_total == u64_at(data@, 16)
                &&& e.prev_slot == u64_at(data@, 24)
                &&& e.address@ == data@.subrange(32, 64)
            }),
    {
        if data.len() < 8 {
            return Err(EventError::TooShortForDiscriminator);
        }
        if data[0] != 1 {
            return Err(EventError::InvalidDiscriminator);
        }
        if data.len() < 64 {
            return Err(EventError::TooShortForStruct);
        }
        Ok(WriteEvent {
            num_added: read_u64(data, 8),
            num_total: read_u64(data, 16),
            prev_slot: read_u64(data, 24),
            address: read_address(data, 32),
        })
    }

    /// Emits the event; the host has no log here, so only its bytes are built.
    pub fn log(&self) {
        let _bytes = self.to_bytes();
    }
}

impl UpdateEvent {
    /// Bytes of the event with its discriminator.
    pub fn size_of() -> (r: usize)
        ensures
            r == 56,
    {
        56
    }

    /// The event's bytes.
    pub fn to_bytes(&self) -> (r: [u8; 56])
        ensures
            r@ == update_event_bytes(*self),
    {
        let mut buf: Vec<u8> = Vec::new();
        push_discriminator(&mut buf, 2);
        push_u64(&mut buf, self.segment_number);
        push_u64(&mut buf, self.prev_slot);
        append_bytes(&mut buf, self.address.as_slice());
        proof {
            lemma_le_bytes_len(self.segment_number);
            lemma_le_bytes_len(self.prev_slot);
        }
        to_array::<56>(&buf)
    }

    /// Reads an event from its bytes.
    pub fn try_from_bytes(data: &[u8]) -> (r: Result<UpdateEvent, EventError>)
        ensures
            event_error(data@, 2, 48) matches Some(e) ==> r == Err::<UpdateEvent, EventError>(e),
            event_error(data@, 2, 48) is None ==> r is Ok && ({
                let e = r->Ok_0;
                &&& e.segment_number == u64_at(data@, 8)
                &&& e.prev_slot == u64_at(data@, 16)
                &&& e.address@ == data@.subrange(24, 56)
            }),
    {
        if data.len() < 8 {
            return Err(EventError::TooShortForDiscriminator);
        }
        if data[0] != 2 {
            return Err(EventError::InvalidDiscriminator);
        }
        if data.len() < 56 {
            return Err(EventError::TooShortForStruct);
        }
        Ok(UpdateEvent {
            segment_number: read_u64(data, 8),
            prev_slot: read_u64(data, 16),
            address: read_address(data, 24),
        })
    }

    /// Emits the event; the host has no log here, so only its bytes are built.
    pub fn log(&self) {
        let _bytes = self.to_bytes();
    }
}

impl FinalizeEvent {
    /// Bytes of the event with its discriminator.
    pub fn size_of() -> (r: usize)
        ensures
            r == 48,
    {
        48
    }

    /// The event's bytes.
    pub fn to_bytes(&self) -> (r: [u8; 48])
        ensures
            r@ == finalize_event_bytes(*self),
    {
        let mut buf: Vec<u8> = Vec::new();
        push_discriminator(&mut buf, 3);
        push_u64(&mut buf, self.tape);
        append_bytes(&mut buf, self.address.as_slice());
        proof {
            lemma_le_bytes_len(self.tape);
        }
        to_array::<48>(&buf)
    }

    /// Reads an event from its bytes.
    pub fn try_from_bytes(data: &[u8]) -> (r: Result<FinalizeEvent, EventError>)
        ensures
            event_error(data@, 3, 40) matches Some(e) ==> r == Err::<FinalizeEvent, EventError>(e),
            event_error(data@, 3, 40) is None ==> r is Ok && ({
                let e = r->Ok_0;
                &&& e.tape == u64_at(data@, 8)
                &&& e.address@ == data@.subrange(16, 48)
            }),
    {
        if data.len() < 8 {
            return Err(EventError::TooShortForDiscriminator);
        }
        if data[0] != 3 {
            return Err(EventError::InvalidDiscriminator);
        }
        if data.len() < 48 {
            return Err(EventError::TooShortForStruct);
        }
        Ok(FinalizeEvent { tape: read_u64(data, 8), address: read_address(data, 16) })
    }

    /// Emits the event; the host has no log here, so only its bytes are built.
    pub fn log(&self) {
        let _bytes = self.to_bytes();
    }
}

/// Reading a write event's bytes gives the event back.
pub proof fn lemma_write_event_round_trip(e: WriteEvent)
    ensures
        event_error(write_event_bytes(e), 1, 56) is None,
        u64_at(write_event_bytes(e), 8) == e.num_added,
        u64_at(write_event_bytes(e), 16) == e.num_total,
        u64_at(write_event_bytes(e), 24) == e.prev_slot,
        write_event_bytes(e).subrange(32, 64) == e.address@,
{
    lemma_le_bytes_len(e.num_added);
    lemma_le_bytes_len(e.num_total);
    lemma_le_bytes_len(e.prev_slot);
    let b = write_event_bytes(e);
    assert(b.subrange(8, 16) =~= spec_u64_to_le_bytes(e.num_added));
    assert(b.subrange(16, 24) =~= spec_u64_to_le_bytes(e.num_total));
    assert(b.subrange(24, 32) =~= spec_u64_to_le_bytes(e.prev_slot));
    assert(b.subrange(32, 64) =~= e.address@);
}

} // verus!
