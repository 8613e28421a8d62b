//! Byte-level encodings: big-endian 16-bit values, address-window payloads,
//! RGB565 pixel payloads, and the partition of a payload into fixed-size
//! bursts.

use vstd::prelude::*;
use vstd::seq_lib::lemma_flatten_concat;

verus! {

/// A 16-bit value as two bytes, most significant first.
pub open spec fn be16(v: u16) -> Seq<u8> {
    seq![(v >> 8) as u8, (v & 0xFF) as u8]
}

/// The two bytes of `be16` recombine to the encoded value, so the encoding
/// is big-endian and lossless.
pub proof fn lemma_be16_value(v: u16)
    ensures
        be16(v).len() == 2,
        be16(v)[0] * 256 + be16(v)[1] == v,
{
    assert(((v >> 8) as u8) * 256 + ((v & 0xFF) as u8) == v) by (bit_vector);
}

/// The two bytes of a 16-bit value, most significant first.
pub fn be16_bytes(v: u16) -> (r: (u8, u8))
    ensures
        r.0 == be16(v)[0],
        r.1 == be16(v)[1],
{
    ((v >> 8) as u8, (v & 0xFF) as u8)
}

/// The 4-byte payload of a CASET or RASET command: the start and end
/// addresses of the window, each big-endian 16-bit.
pub open spec fn window_payload(start: u16, end: u16) -> Seq<u8> {
    be16(start) + be16(end)
}

/// An address-window payload is the two bounds in big-endian 16-bit: four
/// bytes whose first pair recombines to the start address and whose second
/// pair recombines to the end address.
pub proof fn lemma_window_payload_values(start: u16, end: u16)
    ensures
        window_payload(start, end).len() == 4,
        window_payload(start, end)[0] * 256 + window_payload(start, end)[1] == start,
        window_payload(start, end)[2] * 256 + window_payload(start, end)[3] == end,
{
    lemma_be16_value(start);
    lemma_be16_value(end);
    assert(window_payload(start, end)[0] == be16(start)[0]);
    assert(window_payload(start, end)[1] == be16(start)[1]);
    assert(window_payload(start, end)[2] == be16(end)[0]);
    assert(window_payload(start, end)[3] == be16(end)[1]);
}

/// The wire bytes of a sequence of RGB565 pixels: two bytes per pixel,
/// most significant first, in order.
pub open spec fn encode_pixels(colors: Seq<u16>) -> Seq<u8>
    decreases colors.len(),
{
    if colors.len() == 0 {
        seq![]
    } else {
        encode_pixels(colors.drop_last()) + be16(colors.last())
    }
}

/// Every pixel costs exactly two payload bytes.
pub proof fn lemma_encode_pixels_len(colors: Seq<u16>)
    ensures
        encode_pixels(colors).len() == 2 * colors.len(),
    decreases colors.len(),
{
    if colors.len() > 0 {
        lemma_encode_pixels_len(colors.drop_last());
    }
}

/// The partition of a payload into bursts of at most `cap` bytes: full
/// bursts of exactly `cap` bytes, then one final burst with whatever
/// remains.  An empty payload yields no burst at all.
pub open spec fn chunks(payload: Seq<u8>, cap: nat) -> Seq<Seq<u8>>
    decreases payload.len(),
    when cap > 0
{
    if payload.len() == 0 {
        seq![]
    } else if payload.len() <= cap {
        seq![payload]
    } else {
        seq![payload.take(cap as int)] + chunks(payload.skip(cap as int), cap)
    }
}

/// The smallest number of bursts of size `cap` that hold `n` bytes.
pub open spec fn ceil_div(n: nat, cap: nat) -> nat
    recommends
        cap > 0,
{
    ((n + cap - 1) / cap as int) as nat
}

/// Re-concatenating the bursts of a payload yields the payload: chunking
/// loses, duplicates and reorders nothing.
pub proof fn lemma_chunks_flatten(payload: Seq<u8>, cap: nat)
    requires
        cap > 0,
    ensures
        chunks(payload, cap).flatten() == payload,
    decreases payload.len(),
{
    if payload.len() == 0 {
        assert(chunks(payload, cap).flatten() =~= payload);
    } else if payload.len() <= cap {
        chunks(payload, cap).lemma_flatten_one_element();
    } else {
        let head = seq![payload.take(cap as int)];
        let rest = chunks(payload.skip(cap as int), cap);
        lemma_chunks_flatten(payload.skip(cap as int), cap);
        lemma_flatten_concat(head, rest);
        head.lemma_flatten_one_element();
        assert(chunks(payload, cap).flatten() =~= payload);
    }
}

/// A payload of `n > 0` bytes is carried by exactly `ceil(n / cap)` bursts:
/// in particular a payload of exactly `cap` bytes takes one burst, not two,
/// and one of `cap + 1` bytes takes two.
pub proof fn lemma_chunks_count(payload: Seq<u8>, cap: nat)
    requires
        cap > 0,
    ensures
        chunks(payload, cap).len() == ceil_div(payload.len(), cap),
    decreases payload.len(),
{
    let n = payload.len();
    if n == 0 {
        assert(ceil_div(0, cap) == 0) by {
            assert((cap - 1) / cap as int == 0) by (nonlinear_arith)
                requires cap > 0;
        }
    } else if n <= cap {
        assert(ceil_div(n, cap) == 1) by {
            assert((n + cap - 1) / cap as int == 1) by (nonlinear_arith)
                requires 0 < n <= cap;
        }
    } else {
        lemma_chunks_count(payload.skip(cap as int), cap);
        assert(ceil_div((n - cap) as nat, cap) + 1 == ceil_div(n, cap)) by {
            assert((n - cap + cap - 1) / cap as int + 1 == (n + cap - 1) / cap as int)
                by (nonlinear_arith)
                requires n > cap > 0;
        }
    }
}

/// Every burst but the last is exactly `cap` bytes; no burst is larger than
/// `cap`; and the last burst of a non-empty payload of `n` bytes holds
/// `n % cap` bytes, or `cap` when `cap` divides `n` evenly.
pub proof fn lemma_chunks_sizes(payload: Seq<u8>, cap: nat)
    requires
        cap > 0,
    ensures
        forall|i: int| 0 <= i < chunks(payload, cap).len() ==> #[trigger] chunks(payload, cap)[i].len() <= cap,
        forall|i: int| 0 <= i < chunks(payload, cap).len() - 1 ==> #[trigger] chunks(payload, cap)[i].len() == cap,
        payload.len() > 0 ==> chunks(payload, cap).last().len() == (
            if payload.len() % cap == 0 { cap as int } else { (payload.len() % cap) as int }
        ),
    decreases payload.len(),
{
    let n = payload.len();
    let cs = chunks(payload, cap);
    if n == 0 {
    } else if n <= cap {
        if n < cap {
            assert(n % cap == n) by (nonlinear_arith)
                requires 0 < n < cap;
        } else {
            assert(n % cap == 0) by (nonlinear_arith)
                requires n == cap, cap > 0;
        }
    } else {
        let rest = payload.skip(cap as int);
        lemma_chunks_sizes(rest, cap);
        let rcs = chunks(rest, cap);
        assert(forall|i: int| 0 <= i < cs.len() - 1 ==> #[trigger] cs[i].len() == cap) by {
            assert(forall|i: int| 0 < i < cs.len() ==> cs[i] == #[trigger] rcs[i - 1]);
        }
        assert(n as int % cap as int == (n - cap) % cap as int) by (nonlinear_arith)
            requires n > cap > 0;
        assert(cs.last() == rcs.last());
    }
}

} // verus!
