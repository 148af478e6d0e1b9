//! The binary dataset format: a little-endian `u32` count `n`, followed by
//! exactly `n` little-endian `i32` values.

use vstd::prelude::*;

verus! {

/// The unsigned little-endian 32-bit integer stored at `b[i..i + 4]`.
pub open spec fn le_u32(b: Seq<u8>, i: int) -> int {
    b[i] as int + 256 * b[i + 1] as int + 65536 * b[i + 2] as int + 16777216 * b[i + 3] as int
}

/// The signed (two's complement) little-endian 32-bit integer stored at `b[i..i + 4]`.
pub open spec fn le_i32(b: Seq<u8>, i: int) -> int {
    let u = le_u32(b, i);
    if u >= 0x8000_0000 {
        u - 0x1_0000_0000
    } else {
        u
    }
}

/// The element count that the header declares.
pub open spec fn declared_count(b: Seq<u8>) -> int {
    le_u32(b, 0)
}

/// A file whose length is exactly the header plus the declared elements.
pub open spec fn is_well_formed(b: Seq<u8>) -> bool {
    b.len() >= 4 && b.len() == 4 + 4 * declared_count(b)
}

/// The values of a well-formed file, in file order.
pub open spec fn dataset_values(b: Seq<u8>) -> Seq<i32> {
    Seq::new(declared_count(b) as nat, |k: int| le_i32(b, 4 + 4 * k) as i32)
}

/// Why a byte buffer is not a dataset.
#[derive(Debug, Clone, Copy, PartialEq, Eq, Structural)]
pub enum FormatError {
    /// Fewer than four bytes: the count header itself is missing.
    MissingHeader,
    /// The length differs from the `4 + 4 * n` bytes the header asks for.
    SizeMismatch { expected: u64, actual: usize },
}

/// What decoding `b` yields: the values, or the error that rejects it.
pub open spec fn decoded(b: Seq<u8>) -> Result<Seq<i32>, FormatError> {
    if b.len() < 4 {
        Err(FormatError::MissingHeader)
    } else if !is_well_formed(b) {
        Err(FormatError::SizeMismatch { expected: (4 + 4 * declared_count(b)) as u64, actual: b.len() as usize })
    } else {
        Ok(dataset_values(b))
    }
}

fn read_u32_le(b: &[u8], i: usize) -> (r: u64)
    requires
        i + 4 <= b@.len(),
    ensures
        r as int == le_u32(b@, i as int),
        r < 0x1_0000_0000,
{
    (b[i] as u64) + 256 * (b[i + 1] as u64) + 65536 * (b[i + 2] as u64) + 16777216 * (b[i + 3] as u64)
}

fn read_i32_le(b: &[u8], i: usize) -> (r: i32)
    requires
        i + 4 <= b@.len(),
    ensures
        r as int == le_i32(b@, i as int),
{
    let u = read_u32_le(b, i);
    if u >= 0x8000_0000 {
        let v: i64 = (u as i64) - 0x1_0000_0000;
        v as i32
    } else {
        u as i32
    }
}

/// Decodes a whole dataset file held in memory.
pub fn decode_int32_le(buf: &[u8]) -> (r: Result<Vec<i32>, FormatError>)
    ensures
        match r {
            Ok(v) => decoded(buf@) == Ok::<Seq<i32>, FormatError>(v@),
            Err(e) => decoded(buf@) == Err::<Seq<i32>, FormatError>(e),
        },
{
    if buf.len() < 4 {
        return Err(FormatError::MissingHeader);
    }
    let n = read_u32_le(buf, 0);
    let expected: u64 = 4 + 4 * n;
    if buf.len() as u64 != expected {
        return Err(FormatError::SizeMismatch { expected, actual: buf.len() });
    }
    let count = n as usize;
    let len = buf.len();
    let mut out: Vec<i32> = Vec::with_capacity(count);
    let mut k: usize = 0;
    while k < count
        invariant
            count as int == declared_count(buf@),
            buf@.len() == 4 + 4 * count,
            len == buf@.len(),
            k <= count,
            out@.len() == k,
            forall|j: int| 0 <= j < k ==> out@[j] == dataset_values(buf@)[j],
        decreases count - k,
    {
        let v = read_i32_le(buf, 4 + 4 * k);
        out.push(v);
        k = k + 1;
    }
    assert(out@ =~= dataset_values(buf@));
    Ok(out)
}

/// A well-formed file decodes to exactly the declared number of values, and
/// a file one byte shorter or one byte longer is rejected.
pub proof fn lemma_exact_length(b: Seq<u8>, extra: u8)
    requires
        is_well_formed(b),
    ensures
        decoded(b) is Ok,
        decoded(b)->Ok_0.len() == declared_count(b),
        decoded(b.drop_last()) is Err,
        decoded(b.push(extra)) is Err,
{
    let shorter = b.drop_last();
    let longer = b.push(extra);
    if shorter.len() >= 4 {
        assert(le_u32(shorter, 0) == le_u32(b, 0));
    }
    assert(le_u32(longer, 0) == le_u32(b, 0));
}

} // verus!
