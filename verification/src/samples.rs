//! The numbers in a waterfall file: four bytes each, the least significant
//! first.

use byteorder::ByteOrder;
use vstd::prelude::*;

verus! {

/// The number in the first four bytes.
pub open spec fn word(bytes: Seq<u8>) -> u32 {
    (bytes[0] + 0x100 * bytes[1] + 0x1_0000 * bytes[2] + 0x100_0000 * bytes[3]) as u32
}

/// The numbers in as many groups of four bytes as there are.
pub open spec fn words(bytes: Seq<u8>) -> Seq<u32> {
    Seq::new(bytes.len() / 4, |i: int| word(bytes.skip(4 * i)))
}

/// Calls `byteorder::LittleEndian::read_u32`, which reads the first four bytes
/// and panics on fewer.
#[verifier::external_body]
fn read_u32(bytes: &[u8]) -> (r: u32)
    requires
        bytes@.len() >= 4,
    ensures
        r == word(bytes@),
{
    byteorder::LittleEndian::read_u32(bytes)
}

/// Reads the number at the start of `bytes`.
pub fn read_word(bytes: &[u8]) -> (r: u32)
    requires
        bytes@.len() >= 4,
    ensures
        r == word(bytes@),
{
    read_u32(bytes)
}

/// Reads all numbers in `bytes`. What is left over at the end is not read.
pub fn read_words(bytes: &[u8]) -> (r: Vec<u32>)
    ensures
        r@ == words(bytes@),
{
    let mut r: Vec<u32> = Vec::new();
    let len: usize = bytes.len();
    let n: usize = len / 4;
    let mut i: usize = 0;
    while i < n
        invariant
            i <= n,
            len == bytes@.len(),
            n == len / 4,
            r@.len() == i,
            forall|j: int| 0 <= j < i ==> r@[j] == words(bytes@)[j],
        decreases n - i,
    {
        let group = vstd::slice::slice_subrange(bytes, 4 * i, len);
        assert(group@ =~= bytes@.skip(4 * i));
        r.push(read_u32(group));
        i = i + 1;
    }
    assert(r@ =~= words(bytes@));
    r
}

/// A byte sequence of whole numbers is read without loss: the numbers of two
/// parts are the numbers of the whole.
pub proof fn law_words_of_parts(a: Seq<u8>, b: Seq<u8>)
    requires
        a.len() % 4 == 0,
    ensures
        words(a + b) == words(a) + words(b),
{
    let whole = a + b;
    assert forall|i: int| 0 <= i < words(whole).len() implies words(whole)[i] == (words(a)
        + words(b))[i] by {
        let p = whole.skip(4 * i);
        let q = if i < words(a).len() {
            a.skip(4 * i)
        } else {
            b.skip(4 * (i - words(a).len()))
        };
        assert(p[0] == q[0] && p[1] == q[1] && p[2] == q[2] && p[3] == q[3]);
    }
    assert(words(whole) =~= words(a) + words(b));
}

} // verus!
