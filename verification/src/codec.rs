use vstd::prelude::*;

use crate::state::{spec_encoded_len, Record, RecordModel};

verus! {

/// The value of the 4-byte little-endian unsigned integer at offset `i`.
pub open spec fn spec_le32_at(b: Seq<u8>, i: int) -> int
    recommends
        0 <= i,
        i + 4 <= b.len(),
{
    b[i] + 256 * b[i + 1] + 65536 * b[i + 2] + 16777216 * b[i + 3]
}

/// The 4-byte little-endian encoding of `n`.
pub open spec fn spec_le32_bytes(n: int) -> Seq<u8>
    recommends
        0 <= n < 0x1_0000_0000,
{
    seq![
        (n % 256) as u8,
        ((n / 256) % 256) as u8,
        ((n / 65536) % 256) as u8,
        ((n / 16777216) % 256) as u8,
    ]
}

/// Reading back the four little-endian bytes of `n` yields `n`.
proof fn lemma_le32_bytes_value(n: int)
    requires
        0 <= n < 0x1_0000_0000,
    ensures
        spec_le32_at(spec_le32_bytes(n), 0) == n,
{
    let b = spec_le32_bytes(n);
    assert(b[0] + 256 * b[1] + 65536 * b[2] + 16777216 * b[3] == n) by (nonlinear_arith)
        requires
            b[0] == n % 256,
            b[1] == (n / 256) % 256,
            b[2] == (n / 65536) % 256,
            b[3] == (n / 16777216) % 256,
            0 <= n < 0x1_0000_0000,
    {
    }
}

/// Fixed binary layout of a record: the flag byte, then the name and the
/// message, each prefixed by its 4-byte little-endian length.
pub open spec fn spec_encode(m: RecordModel) -> Seq<u8> {
    seq![if m.initialized { 1u8 } else { 0u8 }] + spec_le32_bytes(m.name.len() as int) + m.name
        + spec_le32_bytes(m.message.len() as int) + m.message
}

/// Decode a buffer under the fixed layout.  Bytes past the encoded record are
/// padding and are ignored, so an all-zero buffer decodes to an uninitialized
/// record with empty name and message.  `None` means the buffer is truncated
/// or its flag byte is neither 0 nor 1.
pub open spec fn spec_decode(b: Seq<u8>) -> Option<RecordModel> {
    if b.len() < 5 {
        None
    } else if b[0] != 0 && b[0] != 1 {
        None
    } else {
        let l1 = spec_le32_at(b, 1);
        if b.len() < 9 + l1 {
            None
        } else {
            let l2 = spec_le32_at(b, 5 + l1);
            if b.len() < 9 + l1 + l2 {
                None
            } else {
                Some(
                    RecordModel {
                        initialized: b[0] == 1,
                        name: b.subrange(5, 5 + l1),
                        message: b.subrange(9 + l1, 9 + l1 + l2),
                    },
                )
            }
        }
    }
}

/// Append the 4-byte little-endian encoding of `n`.
fn push_le32(out: &mut Vec<u8>, n: usize)
    requires
        n < 0x1_0000_0000,
    ensures
        final(out)@ == old(out)@ + spec_le32_bytes(n as int),
{
    out.push((n % 256) as u8);
    out.push(((n / 256) % 256) as u8);
    out.push(((n / 65536) % 256) as u8);
    out.push(((n / 16777216) % 256) as u8);
    proof {
        assert(out@ =~= old(out)@ + spec_le32_bytes(n as int));
    }
}

/// Copy `data[start..end]` into a fresh vector.
pub fn copy_range(data: &Vec<u8>, start: usize, end: usize) -> (r: Vec<u8>)
    requires
        start <= end <= data@.len(),
    ensures
        r@ == data@.subrange(start as int, end as int),
{
    let mut r: Vec<u8> = Vec::new();
    let mut i: usize = start;
    while i < end
        invariant
            start <= i <= end,
            end <= data@.len(),
            r@ == data@.subrange(start as int, i as int),
        decreases end - i,
    {
        r.push(data[i]);
        proof {
            assert(r@ =~= data@.subrange(start as int, i + 1 as int));
        }
        i = i + 1;
    }
    r
}

/// Encode a record into an owned buffer holding exactly its fixed layout.
/// Copying that buffer into a storage object, leaving everything after it
/// untouched, is how the hosting environment persists a record.
pub fn encode(r: &Record) -> (out: Vec<u8>)
    requires
        r.name@.len() < 0x1_0000_0000,
        r.message@.len() < 0x1_0000_0000,
    ensures
        out@ == spec_encode(r.model()),
        out@.len() == spec_encoded_len(r.model()),
{
    let mut out: Vec<u8> = Vec::new();
    out.push(if r.initialized { 1 } else { 0 });
    push_le32(&mut out, r.name.len());
    let mut i: usize = 0;
    while i < r.name.len()
        invariant
            i <= r.name@.len(),
            out@ == seq![if r.initialized { 1u8 } else { 0u8 }] + spec_le32_bytes(
                r.name@.len() as int,
            ) + r.name@.subrange(0, i as int),
        decreases r.name@.len() - i,
    {
        out.push(r.name[i]);
        proof {
            assert(out@ =~= seq![if r.initialized { 1u8 } else { 0u8 }] + spec_le32_bytes(
                r.name@.len() as int,
            ) + r.name@.subrange(0, i + 1 as int));
        }
        i = i + 1;
    }
    push_le32(&mut out, r.message.len());
    let mut j: usize = 0;
    while j < r.message.len()
        invariant
            j <= r.message@.len(),
            out@ == seq![if r.initialized { 1u8 } else { 0u8 }] + spec_le32_bytes(
                r.name@.len() as int,
            ) + r.name@.subrange(0, r.name@.len() as int) + spec_le32_bytes(
                r.message@.len() as int,
            ) + r.message@.subrange(0, j as int),
        decreases r.message@.len() - j,
    {
        out.push(r.message[j]);
        proof {
            assert(out@ =~= seq![if r.initialized { 1u8 } else { 0u8 }] + spec_le32_bytes(
                r.name@.len() as int,
            ) + r.name@.subrange(0, r.name@.len() as int) + spec_le32_bytes(
                r.message@.len() as int,
            ) + r.message@.subrange(0, j + 1 as int));
        }
        j = j + 1;
    }
    proof {
        assert(r.name@.subrange(0, r.name@.len() as int) =~= r.name@);
        assert(r.message@.subrange(0, r.message@.len() as int) =~= r.message@);
        assert(out@ =~= spec_encode(r.model()));
    }
    out
}

/// Read the 4-byte little-endian unsigned integer at offset `i`.
pub(crate) fn read_le32(data: &Vec<u8>, i: usize) -> (r: u64)
    requires
        i + 4 <= data@.len(),
    ensures
        r == spec_le32_at(data@, i as int),
        r < 0x1_0000_0000,
{
    let n = data.len();
    assert(i + 4 <= n);
    let b0 = data[i] as u64;
    let b1 = data[i + 1] as u64;
    let b2 = data[i + 2] as u64;
    let b3 = data[i + 3] as u64;
    b0 + 256 * b1 + 65536 * b2 + 16777216 * b3
}

/// Decode a record from a buffer, ignoring any padding after the encoding.
/// Returns `None` exactly when the buffer is truncated or its flag byte is
/// neither 0 nor 1; decoding never panics, whatever the buffer holds.
pub fn decode(data: &Vec<u8>) -> (r: Option<Record>)
    ensures
        r is Some <==> spec_decode(data@) is Some,
        r matches Some(rec) ==> spec_decode(data@) == Some(rec.model()),
{
    if data.len() < 5 {
        return None;
    }
    let flag = data[0];
    if flag != 0 && flag != 1 {
        return None;
    }
    let l1 = read_le32(data, 1);
    if (data.len() as u64) < 9 + l1 {
        return None;
    }
    let l1s = l1 as usize;
    let l2 = read_le32(data, 5 + l1s);
    if (data.len() as u64) < 9 + l1 + l2 {
        return None;
    }
    let l2s = l2 as usize;
    let name = copy_range(data, 5, 5 + l1s);
    let message = copy_range(data, 9 + l1s, 9 + l1s + l2s);
    let rec = Record { initialized: flag == 1, name, message };
    proof {
        assert(spec_decode(data@) == Some(rec.model()));
    }
    Some(rec)
}

/// Decoding an encoded record gives the record back, whatever padding follows
/// the encoding in the buffer.
pub proof fn lemma_encode_decode_padded(m: RecordModel, pad: Seq<u8>)
    requires
        m.name.len() < 0x1_0000_0000,
        m.message.len() < 0x1_0000_0000,
    ensures
        spec_decode(spec_encode(m) + pad) == Some(m),
{
    let e = spec_encode(m) + pad;
    let n1 = m.name.len() as int;
    let n2 = m.message.len() as int;
    lemma_le32_bytes_value(n1);
    lemma_le32_bytes_value(n2);
    assert(e.len() == 9 + n1 + n2 + pad.len());
    assert(e[0] == if m.initialized { 1u8 } else { 0u8 });
    assert forall|k: int| 0 <= k < 4 implies e[1 + k] == spec_le32_bytes(n1)[k] by {}
    assert(spec_le32_at(e, 1) == spec_le32_at(spec_le32_bytes(n1), 0));
    assert forall|k: int| 0 <= k < n1 implies e[5 + k] == m.name[k] by {}
    assert forall|k: int| 0 <= k < 4 implies e[5 + n1 + k] == spec_le32_bytes(n2)[k] by {}
    assert(spec_le32_at(e, 5 + n1) == spec_le32_at(spec_le32_bytes(n2), 0));
    assert forall|k: int| 0 <= k < n2 implies e[9 + n1 + k] == m.message[k] by {}
    assert(e.subrange(5, 5 + n1) =~= m.name);
    assert(e.subrange(9 + n1, 9 + n1 + n2) =~= m.message);
    assert(spec_decode(e) == Some(m));
}

/// Round trip: a record whose encoding fits the fixed storage capacity
/// decodes back to exactly itself.
pub proof fn lemma_round_trip(m: RecordModel)
    requires
        spec_encoded_len(m) <= 1000,
    ensures
        spec_decode(spec_encode(m)) == Some(m),
{
    lemma_encode_decode_padded(m, Seq::empty());
    assert(spec_encode(m) + Seq::<u8>::empty() =~= spec_encode(m));
}

/// An all-zero buffer of at least the minimal layout size decodes, without
/// failure, to an uninitialized record with empty name and message.
pub proof fn lemma_decode_all_zero(b: Seq<u8>)
    requires
        b.len() >= 9,
        forall|i: int| 0 <= i < b.len() ==> b[i] == 0,
    ensures
        spec_decode(b) == Some(RecordModel { initialized: false, name: Seq::empty(), message: Seq::empty() }),
{
    assert(spec_le32_at(b, 1) == 0);
    assert(spec_le32_at(b, 5) == 0);
    assert(b.subrange(5, 5) =~= Seq::<u8>::empty());
    assert(b.subrange(9, 9) =~= Seq::<u8>::empty());
}

} // verus!
