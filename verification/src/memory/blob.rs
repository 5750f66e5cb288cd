//! Stored vectors: each number by its bit pattern, little-endian.

use vstd::prelude::*;

verus! {

/// The four bytes of a bit pattern, the lowest first.
pub open spec fn le_bytes(n: u32) -> Seq<u8> {
    seq![
        (n % 0x100) as u8,
        (n / 0x100 % 0x100) as u8,
        (n / 0x1_0000 % 0x100) as u8,
        (n / 0x100_0000) as u8,
    ]
}

/// The bit pattern of four bytes, the lowest first.
pub open spec fn le_number(b: Seq<u8>) -> u32 {
    (b[0] + b[1] * 0x100 + b[2] * 0x1_0000 + b[3] * 0x100_0000) as u32
}

/// The bytes of a vector.
pub open spec fn blob(v: Seq<u32>) -> Seq<u8>
    decreases v.len(),
{
    if v.len() == 0 {
        Seq::empty()
    } else {
        blob(v.drop_last()) + le_bytes(v.last())
    }
}

/// The vector of bytes: one number for every four of them. Bytes that are left
/// over are ignored.
pub open spec fn numbers(b: Seq<u8>) -> Seq<u32> {
    Seq::new(b.len() / 4, |i: int| le_number(b.subrange(4 * i, 4 * i + 4)))
}

/// The bytes of a vector, each number given by its bit pattern.
pub fn vec_to_blob(vector: &Vec<u32>) -> (r: Vec<u8>)
    ensures
        r@ == blob(vector@),
{
    let mut out: Vec<u8> = Vec::new();
    let mut i: usize = 0;
    while i < vector.len()
        invariant
            i <= vector@.len(),
            out@ == blob(vector@.take(i as int)),
        decreases vector@.len() - i,
    {
        let ghost before = out@;
        let ghost next = vector@.take(i + 1);
        assert(next.drop_last() =~= vector@.take(i as int));
        let n: u32 = vector[i];
        out.push((n % 0x100) as u8);
        out.push((n / 0x100 % 0x100) as u8);
        out.push((n / 0x1_0000 % 0x100) as u8);
        out.push((n / 0x100_0000) as u8);
        assert(out@ =~= before + le_bytes(n));
        i = i + 1;
    }
    assert(vector@.take(i as int) =~= vector@);
    out
}

/// The vector of bytes, each number given by its bit pattern.
pub fn blob_to_vec(bytes: &Vec<u8>) -> (r: Vec<u32>)
    ensures
        r@ == numbers(bytes@),
{
    let total: usize = bytes.len();
    let count: usize = total / 4;
    let mut out: Vec<u32> = Vec::new();
    let mut i: usize = 0;
    while i < count
        invariant
            i <= count,
            total == bytes@.len(),
            count == total / 4,
            out@.len() == i,
            forall|k: int|
                0 <= k < i ==> #[trigger] out@[k] == le_number(bytes@.subrange(4 * k, 4 * k + 4)),
        decreases count - i,
    {
        assert(4 * i + 4 <= bytes@.len());
        let p: usize = 4 * i;
        let ghost four = bytes@.subrange(4 * i, 4 * i + 4);
        assert(four[0] == bytes@[p as int] && four[1] == bytes@[p + 1] && four[2] == bytes@[p + 2]
            && four[3] == bytes@[p + 3]);
        let n: u32 = bytes[p] as u32 + bytes[p + 1] as u32 * 0x100 + bytes[p + 2] as u32 * 0x1_0000
            + bytes[p + 3] as u32 * 0x100_0000;
        out.push(n);
        i = i + 1;
    }
    assert(out@ =~= numbers(bytes@));
    out
}

proof fn lemma_four_bytes(n: u32)
    ensures
        le_number(le_bytes(n)) == n,
{
    let a = n % 0x100;
    let b = n / 0x100 % 0x100;
    let c = n / 0x1_0000 % 0x100;
    let d = n / 0x100_0000;
    assert(d < 0x100 && a + b * 0x100 + c * 0x1_0000 + d * 0x100_0000 == n) by (bit_vector)
        requires
            a == n % 0x100,
            b == n / 0x100 % 0x100,
            c == n / 0x1_0000 % 0x100,
            d == n / 0x100_0000,
    ;
}

proof fn lemma_blob(v: Seq<u32>)
    ensures
        blob(v).len() == 4 * v.len(),
        forall|i: int| 0 <= i < v.len() ==> #[trigger] blob(v).subrange(4 * i, 4 * i + 4) == le_bytes(
            v[i],
        ),
    decreases v.len(),
{
    if v.len() > 0 {
        let front = v.drop_last();
        lemma_blob(front);
        assert forall|i: int| 0 <= i < v.len() implies #[trigger] blob(v).subrange(
            4 * i,
            4 * i + 4,
        ) == le_bytes(v[i]) by {
            if i < front.len() {
                assert(blob(v).subrange(4 * i, 4 * i + 4) =~= blob(front).subrange(
                    4 * i,
                    4 * i + 4,
                ));
                assert(front[i] == v[i]);
            } else {
                assert(blob(v).subrange(4 * i, 4 * i + 4) =~= le_bytes(v[i]));
            }
        }
    }
}

/// A vector that is stored is read back as it was.
pub proof fn law_blob_reads_back(v: Seq<u32>)
    ensures
        numbers(blob(v)) == v,
{
    lemma_blob(v);
    assert forall|i: int| 0 <= i < v.len() implies #[trigger] numbers(blob(v))[i] == v[i] by {
        lemma_four_bytes(v[i]);
        assert(blob(v).subrange(4 * i, 4 * i + 4) == le_bytes(v[i]));
    }
    assert(numbers(blob(v)) =~= v);
}

/// A vector is stored number by number, four bytes each, the lowest byte
/// first.
pub proof fn law_lowest_byte_comes_first(v: Seq<u32>, i: int)
    requires
        0 <= i < v.len(),
    ensures
        blob(v).len() == 4 * v.len(),
        blob(v)[4 * i] == v[i] % 256,
        blob(v)[4 * i + 1] == v[i] / 256 % 256,
        blob(v)[4 * i + 2] == v[i] / 65536 % 256,
        blob(v)[4 * i + 3] == v[i] / 16777216,
{
    lemma_blob(v);
    let four = blob(v).subrange(4 * i, 4 * i + 4);
    assert(four == le_bytes(v[i]));
    assert(four[0] == blob(v)[4 * i] && four[1] == blob(v)[4 * i + 1]);
    assert(four[2] == blob(v)[4 * i + 2] && four[3] == blob(v)[4 * i + 3]);
}

} // verus!
