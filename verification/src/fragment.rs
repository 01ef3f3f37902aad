//! Splitting a payload into bulk transfers of at most `max_packet_size` bytes.
use vstd::prelude::*;

verus! {

/// One bulk transfer's share of a payload.
#[derive(Clone, Copy, Debug, PartialEq, Eq)]
pub struct Fragment {
    pub offset: u32,
    pub size: u32,
    pub more: bool,
}

/// Number of fragments: the payload length divided by the packet size,
/// rounded up; none when either is zero.
pub open spec fn spec_fragment_count(payload_length: u32, max_packet_size: u32) -> nat {
    if payload_length == 0 || max_packet_size == 0 {
        0
    } else {
        ((payload_length + max_packet_size - 1) / (max_packet_size as int)) as nat
    }
}

/// Offset of fragment `index`: `index` whole packets.
pub open spec fn spec_fragment_offset(max_packet_size: u32, index: int) -> int {
    max_packet_size * index
}

/// Size of fragment `index`: what is left of the payload after its offset,
/// at most one packet; zero past the end.
pub open spec fn spec_fragment_size(payload_length: u32, max_packet_size: u32, index: int) -> int {
    let offset = spec_fragment_offset(max_packet_size, index);
    if max_packet_size == 0 || offset >= payload_length {
        0
    } else if payload_length - offset < max_packet_size {
        payload_length - offset
    } else {
        max_packet_size as int
    }
}

/// Fragment `index` of a payload, with `more` set when bytes follow it.
pub open spec fn spec_fragment(payload_length: u32, max_packet_size: u32, index: int) -> Fragment {
    let offset = spec_fragment_offset(max_packet_size, index);
    let size = spec_fragment_size(payload_length, max_packet_size, index);
    Fragment { offset: offset as u32, size: size as u32, more: offset + size < payload_length }
}

/// The fragments of a payload, in order.
pub fn fragments(payload_length: u32, max_packet_size: u32) -> (out: Vec<Fragment>)
    ensures
        out@.len() == spec_fragment_count(payload_length, max_packet_size),
        forall|i: int|
            0 <= i < out@.len() ==> #[trigger] out@[i] == spec_fragment(
                payload_length,
                max_packet_size,
                i,
            ),
{
    let count = fragment_count(payload_length, max_packet_size);
    let mut out: Vec<Fragment> = Vec::new();
    let mut index: u32 = 0;
    while index < count
        invariant
            count == spec_fragment_count(payload_length, max_packet_size),
            index <= count,
            out@.len() == index,
            forall|i: int|
                0 <= i < index ==> #[trigger] out@[i] == spec_fragment(
                    payload_length,
                    max_packet_size,
                    i,
                ),
        decreases count - index,
    {
        proof {
            lemma_offset_inside(payload_length, max_packet_size, index as int);
        }
        let offset = fragment_offset(max_packet_size, index);
        let size = fragment_size(payload_length, max_packet_size, index);
        out.push(Fragment { offset, size, more: offset + size < payload_length });
        index = index + 1;
    }
    out
}

/// Number of fragments a payload needs.
pub fn fragment_count(payload_length: u32, max_packet_size: u32) -> (count: u32)
    ensures
        count == spec_fragment_count(payload_length, max_packet_size),
{
    if payload_length == 0 || max_packet_size == 0 {
        return 0;
    }
    let q = payload_length / max_packet_size;
    if payload_length % max_packet_size == 0 {
        proof {
            lemma_div_ceil(payload_length as int, max_packet_size as int);
        }
        q
    } else {
        proof {
            lemma_div_ceil(payload_length as int, max_packet_size as int);
        }
        q + 1
    }
}

/// Size of fragment `fragment_index` of a payload.
pub fn fragment_size(payload_length: u32, max_packet_size: u32, fragment_index: u32) -> (size: u32)
    requires
        max_packet_size * fragment_index <= u32::MAX,
    ensures
        size == spec_fragment_size(payload_length, max_packet_size, fragment_index as int),
{
    let offset = fragment_offset(max_packet_size, fragment_index);
    if max_packet_size == 0 || offset >= payload_length {
        return 0;
    }
    let left = payload_length - offset;
    if left < max_packet_size {
        left
    } else {
        max_packet_size
    }
}

/// Offset of fragment `fragment_index`.
pub fn fragment_offset(max_packet_size: u32, fragment_index: u32) -> (offset: u32)
    requires
        max_packet_size * fragment_index <= u32::MAX,
    ensures
        offset == spec_fragment_offset(max_packet_size, fragment_index as int),
{
    max_packet_size * fragment_index
}

proof fn lemma_div_ceil(n: int, d: int)
    requires
        n > 0,
        d > 0,
    ensures
        (n + d - 1) / d == if n % d == 0 {
            n / d
        } else {
            n / d + 1
        },
        n / d <= n,
        n % d != 0 ==> n / d < n,
{
    let q = n / d;
    let r = n % d;
    assert(n == q * d + r && 0 <= r < d) by (nonlinear_arith)
        requires
            d > 0,
            q == n / d,
            r == n % d,
    ;
    if r == 0 {
        assert((n + d - 1) / d == q) by (nonlinear_arith)
            requires
                n == q * d,
                d > 0,
        ;
    } else {
        assert((n + d - 1) / d == q + 1) by (nonlinear_arith)
            requires
                n == q * d + r,
                0 < r < d,
        ;
    }
    assert(q <= n) by (nonlinear_arith)
        requires
            n == q * d + r,
            0 <= r,
            d > 0,
            n > 0,
    ;
    if r != 0 {
        assert(d >= 2);
        assert(q * d >= q * 2) by (nonlinear_arith)
            requires
                d >= 2,
                q >= 0,
        ;
        assert(q < n);
    }
}

/// Every fragment below the count starts inside the payload.
proof fn lemma_offset_inside(payload_length: u32, max_packet_size: u32, index: int)
    requires
        0 <= index < spec_fragment_count(payload_length, max_packet_size),
    ensures
        spec_fragment_offset(max_packet_size, index) < payload_length,
        spec_fragment_offset(max_packet_size, index) <= u32::MAX,
{
    let n = payload_length as int;
    let d = max_packet_size as int;
    let c = (n + d - 1) / d;
    assert(d * c <= n + d - 1) by (nonlinear_arith)
        requires
            d > 0,
            n > 0,
            c == (n + d - 1) / d,
    ;
    assert(d * index <= d * (c - 1)) by (nonlinear_arith)
        requires
            d > 0,
            0 <= index <= c - 1,
    ;
    assert(d * (c - 1) == d * c - d) by (nonlinear_arith);
    assert(d * index < n);
}

/// The fragments tile the payload: fragment `i` is non-empty, at most one
/// packet long, ends where fragment `i + 1` starts (the last one ends at the
/// payload's end), and carries the continue flag exactly when it is not
/// the last.
pub proof fn lemma_fragments_tile_payload(payload_length: u32, max_packet_size: u32, i: int)
    requires
        0 <= i < spec_fragment_count(payload_length, max_packet_size),
    ensures
        0 < spec_fragment_size(payload_length, max_packet_size, i) <= max_packet_size,
        spec_fragment_offset(max_packet_size, i) + spec_fragment_size(
            payload_length,
            max_packet_size,
            i,
        ) == if i + 1 < spec_fragment_count(payload_length, max_packet_size) {
            spec_fragment_offset(max_packet_size, i + 1)
        } else {
            payload_length as int
        },
        spec_fragment(payload_length, max_packet_size, i).more <==> i + 1 < spec_fragment_count(
            payload_length,
            max_packet_size,
        ),
        spec_fragment(payload_length, max_packet_size, i).offset == spec_fragment_offset(
            max_packet_size,
            i,
        ),
        spec_fragment(payload_length, max_packet_size, i).size == spec_fragment_size(
            payload_length,
            max_packet_size,
            i,
        ),
{
    let n = payload_length as int;
    let d = max_packet_size as int;
    let c = spec_fragment_count(payload_length, max_packet_size) as int;
    lemma_offset_inside(payload_length, max_packet_size, i);
    assert(c == (n + d - 1) / d);
    assert(d * (i + 1) == d * i + d) by (nonlinear_arith);
    if i + 1 < c {
        assert(d * (i + 1) < n) by (nonlinear_arith)
            requires
                d > 0,
                c == (n + d - 1) / d,
                0 <= i + 1 < c,
        ;
    } else {
        assert(n <= d * (i + 1)) by (nonlinear_arith)
            requires
                d > 0,
                c == (n + d - 1) / d,
                i + 1 >= c,
                n > 0,
        ;
    }
}

} // verus!
