//! Replaying captured video payloads: which records of a manifest are
//! replayed, the fence id and destination each is sent with, the sequence
//! patch, and the address ring the payloads advance through.
use vstd::prelude::*;

use crate::bytes::le_u32;
use crate::text::{hex_fixed, push_char, push_hex};

verus! {

/// What the replay reads of one manifest record.
#[derive(Clone, Copy, Debug, PartialEq, Eq)]
pub struct ReplayRecordInfo {
    /// The record's index in the capture.
    pub index: usize,
    /// The video command type of the record.
    pub video_type: u32,
    /// The fence id the record was captured with.
    pub sequence: u32,
    /// The destination address the record was captured with.
    pub dest: u32,
}

/// Which records are replayed: a single index, a range of indices, a video
/// type; each filter that is set must hold.
#[derive(Clone, Copy, Debug, PartialEq, Eq)]
pub struct ReplayFilter {
    pub record: Option<usize>,
    pub record_start: Option<usize>,
    pub record_end: Option<usize>,
    pub video_type: Option<u32>,
}

/// Whether the filter lets a record through.
pub open spec fn spec_record_selected(f: ReplayFilter, r: ReplayRecordInfo) -> bool {
    &&& (f.record matches Some(i) ==> r.index == i)
    &&& (f.record_start matches Some(s) ==> r.index >= s)
    &&& (f.record_end matches Some(e) ==> r.index <= e)
    &&& (f.video_type matches Some(t) ==> r.video_type == t)
}

/// Whether the filter lets a record through.
pub fn record_selected(f: &ReplayFilter, r: &ReplayRecordInfo) -> (b: bool)
    ensures
        b == spec_record_selected(*f, *r),
{
    let by_index = match f.record {
        Some(i) => r.index == i,
        None => true,
    };
    let by_start = match f.record_start {
        Some(s) => r.index >= s,
        None => true,
    };
    let by_end = match f.record_end {
        Some(e) => r.index <= e,
        None => true,
    };
    let by_type = match f.video_type {
        Some(t) => r.video_type == t,
        None => true,
    };
    by_index && by_start && by_end && by_type
}

/// The positions, among the first `n` records, of those the filter lets
/// through, in manifest order.
pub open spec fn selected_positions(f: ReplayFilter, records: Seq<ReplayRecordInfo>, n: nat) -> Seq<
    usize,
>
    decreases n,
{
    if n == 0 {
        Seq::empty()
    } else if spec_record_selected(f, records[n - 1]) {
        selected_positions(f, records, (n - 1) as nat).push((n - 1) as usize)
    } else {
        selected_positions(f, records, (n - 1) as nat)
    }
}

/// The positions of the records to replay, in manifest order; an error for
/// an empty manifest or an empty selection.
pub fn select_records(f: &ReplayFilter, records: &[ReplayRecordInfo]) -> (out: Result<
    Vec<usize>,
    String,
>)
    ensures
        records@.len() == 0 ==> (out matches Err(e) && e@ == "replay manifest contains no records"@),
        records@.len() > 0 && selected_positions(*f, records@, records@.len()).len() == 0 ==> (out matches Err(e)
            && e@ == "selected replay range contains no records"@),
        records@.len() > 0 && selected_positions(*f, records@, records@.len()).len() > 0 ==> (out matches Ok(v)
            && v@ == selected_positions(*f, records@, records@.len())),
{
    if records.len() == 0 {
        return Err(String::from_str("replay manifest contains no records"));
    }
    let mut selected: Vec<usize> = Vec::new();
    let mut k: usize = 0;
    while k < records.len()
        invariant
            0 <= k <= records@.len(),
            selected@ == selected_positions(*f, records@, k as nat),
        decreases records@.len() - k,
    {
        if record_selected(f, &records[k]) {
            selected.push(k);
        }
        k = k + 1;
    }
    if selected.len() == 0 {
        return Err(String::from_str("selected replay range contains no records"));
    }
    Ok(selected)
}

/// Every position `select_records` gives is that of a record the filter
/// lets through, and the positions rise.
pub proof fn lemma_selected_positions_sound(f: ReplayFilter, records: Seq<ReplayRecordInfo>, n: nat)
    requires
        n <= records.len(),
        records.len() <= usize::MAX,
    ensures
        forall|k: int|
            0 <= k < selected_positions(f, records, n).len() ==> {
                let p = #[trigger] selected_positions(f, records, n)[k];
                &&& p < n
                &&& spec_record_selected(f, records[p as int])
            },
        forall|j: int, k: int|
            0 <= j < k < selected_positions(f, records, n).len() ==> selected_positions(
                f,
                records,
                n,
            )[j] < selected_positions(f, records, n)[k],
    decreases n,
{
    if n > 0 {
        let m = (n - 1) as nat;
        lemma_selected_positions_sound(f, records, m);
        let prev = selected_positions(f, records, m);
        let cur = selected_positions(f, records, n);
        if spec_record_selected(f, records[m as int]) {
            assert(cur == prev.push(m as usize));
            assert forall|k: int| 0 <= k < cur.len() implies {
                let p = #[trigger] cur[k];
                &&& p < n
                &&& spec_record_selected(f, records[p as int])
            } by {
                if k < prev.len() {
                    assert(cur[k] == prev[k]);
                }
            }
            assert forall|j: int, k: int| 0 <= j < k < cur.len() implies cur[j] < cur[k] by {
                assert(cur[j] == prev[j]);
                if k < prev.len() {
                    assert(cur[k] == prev[k]);
                }
            }
        } else {
            assert(cur == prev);
        }
    }
}

/// Writes the fence id into bytes 8 to 11 of a payload (little-endian);
/// an error for a payload shorter than 12 bytes.
pub fn patch_payload_sequence(payload: &mut [u8], sequence: u32) -> (out: Result<(), String>)
    ensures
        old(payload)@.len() < 12 ==> (out matches Err(e) && e@
            == "payload is too small to patch sequence"@) && final(payload)@ == old(payload)@,
        old(payload)@.len() >= 12 ==> out is Ok && final(payload)@ == old(payload)@.subrange(0, 8)
            + le_u32(sequence) + old(payload)@.subrange(12, old(payload)@.len() as int),
{
    if payload.len() < 12 {
        return Err(String::from_str("payload is too small to patch sequence"));
    }
    let ghost before = payload@;
    payload[8] = (sequence % 256) as u8;
    payload[9] = ((sequence / 256) % 256) as u8;
    payload[10] = ((sequence / 65536) % 256) as u8;
    payload[11] = (sequence / 16777216) as u8;
    assert(payload@ =~= before.subrange(0, 8) + le_u32(sequence) + before.subrange(
        12,
        before.len() as int,
    ));
    Ok(())
}

/// Where the payload after one of `payload_len` bytes at `payload_addr`
/// goes: the length (cut to 32 bits) rounded up to a KiB, saturating, less
/// 32 bytes (not below zero), added with wrap-around.
pub open spec fn spec_next_ring_addr(payload_addr: u32, payload_len: usize) -> u32 {
    let len = payload_len as int % 0x1_0000_0000;
    let padded = if len + 0x3ff > u32::MAX {
        u32::MAX as int
    } else {
        len + 0x3ff
    };
    let aligned = padded - padded % 1024;
    let step = if aligned >= 32 {
        aligned - 32
    } else {
        0
    };
    ((payload_addr + step) % 0x1_0000_0000) as u32
}

/// The address of the payload that follows one at `payload_addr`.
pub fn next_ring_addr(payload_addr: u32, payload_len: usize) -> (addr: u32)
    ensures
        addr == spec_next_ring_addr(payload_addr, payload_len),
{
    let len = #[verifier::truncate] (payload_len as u32);
    assert(len == payload_len as int % 0x1_0000_0000) by (bit_vector)
        requires
            len == #[verifier::truncate] (payload_len as u32),
    ;
    let padded = len.saturating_add(0x3ff);
    let aligned = padded & !0x3ffu32;
    assert(aligned == padded - padded % 1024) by (bit_vector)
        requires
            aligned == padded & !0x3ffu32,
    ;
    payload_addr.wrapping_add(aligned.saturating_sub(32))
}

/// Where the replay stands: the fence id and address for the next record,
/// where they are set on the command line rather than taken from the
/// records.
#[derive(Clone, Copy, Debug, PartialEq, Eq)]
pub struct ReplayCursor {
    pub sequence: Option<u32>,
    pub payload_addr: Option<u32>,
}

/// How one record is sent.
#[derive(Clone, Copy, Debug, PartialEq, Eq)]
pub struct ReplayStep {
    /// The destination address of the payload.
    pub cmd_dest: u32,
    /// The fence id the payload carries.
    pub fence_id: u32,
    /// Whether the fence id must be written into the payload.
    pub patch_sequence: bool,
}

/// How a record is sent from where the replay stands.
pub open spec fn spec_replay_step(c: ReplayCursor, r: ReplayRecordInfo) -> ReplayStep {
    ReplayStep {
        cmd_dest: match c.payload_addr {
            Some(a) => a,
            None => r.dest,
        },
        fence_id: match c.sequence {
            Some(s) => s,
            None => r.sequence,
        },
        patch_sequence: c.sequence is Some,
    }
}

/// Where the replay stands after a payload of `payload_len` bytes: the
/// fence id one on (wrapping), the address one ring step on.
pub open spec fn spec_replay_advance(c: ReplayCursor, payload_len: usize) -> ReplayCursor {
    ReplayCursor {
        sequence: match c.sequence {
            Some(s) => Some(if s == u32::MAX {
                0u32
            } else {
                (s + 1) as u32
            }),
            None => None,
        },
        payload_addr: match c.payload_addr {
            Some(a) => Some(spec_next_ring_addr(a, payload_len)),
            None => None,
        },
    }
}

impl ReplayCursor {
    /// How the record is sent from here.
    pub fn step(&self, r: &ReplayRecordInfo) -> (s: ReplayStep)
        ensures
            s == spec_replay_step(*self, *r),
    {
        ReplayStep {
            cmd_dest: match self.payload_addr {
                Some(a) => a,
                None => r.dest,
            },
            fence_id: match self.sequence {
                Some(s) => s,
                None => r.sequence,
            },
            patch_sequence: self.sequence.is_some(),
        }
    }

    /// Moves past a payload of `payload_len` bytes.
    pub fn advance(&mut self, payload_len: usize)
        ensures
            *final(self) == spec_replay_advance(*old(self), payload_len),
    {
        if let Some(current) = self.sequence {
            self.sequence = Some(current.wrapping_add(1));
        }
        if let Some(current) = self.payload_addr {
            self.payload_addr = Some(next_ring_addr(current, payload_len));
        }
    }
}

/// The bytes as two lower-case hex digits each, separated by spaces.
pub open spec fn hex_text(bytes: Seq<u8>, n: nat) -> Seq<char>
    decreases n,
{
    if n == 0 {
        Seq::empty()
    } else if n == 1 {
        hex_fixed(bytes[0] as nat, 2)
    } else {
        hex_text(bytes, (n - 1) as nat).push(' ') + hex_fixed(bytes[n - 1] as nat, 2)
    }
}

/// The bytes as two lower-case hex digits each, separated by spaces.
pub fn hex_bytes(bytes: &[u8]) -> (s: String)
    ensures
        s@ == hex_text(bytes@, bytes@.len()),
{
    let mut out = String::new();
    let mut k: usize = 0;
    while k < bytes.len()
        invariant
            0 <= k <= bytes@.len(),
            out@ == hex_text(bytes@, k as nat),
        decreases bytes@.len() - k,
    {
        let ghost before = out@;
        if k > 0 {
            push_char(&mut out, ' ');
        }
        push_hex(&mut out, bytes[k] as u64, 2);
        proof {
            if k == 0 {
                assert(out@ =~= hex_fixed(bytes@[0] as nat, 2));
            }
        }
        k = k + 1;
    }
    out
}

} // verus!
