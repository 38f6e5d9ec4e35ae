//! Client data in pieces: where a TLS record ends, and how it is cut.

use crate::config::Int32Range;
use crate::relay::sum;
use vstd::prelude::*;

verus! {

/// The bytes before the content of a TLS record.
pub const RECORD_HEADER: usize = 5;

/// The length of the TLS record with this header, which is part of it. The content's
/// length stands in the last two bytes of the header.
pub fn record_size(header: &[u8]) -> (r: usize)
    requires
        header@.len() == RECORD_HEADER,
    ensures
        r == RECORD_HEADER + 256 * header@[3] + header@[4],
{
    RECORD_HEADER + 256 * header[3] as usize + header[4] as usize
}

/// `rand::Rng::gen_range` with `rand::thread_rng` on a range with both ends: some number
/// of the range, which one is left to chance. Without a source of randomness in the
/// system the generator panics.
#[verifier::external_body]
fn draw(min: i32, max: i32) -> (r: i32)
    requires
        min <= max,
    ensures
        min <= r <= max,
{
    rand::Rng::gen_range(&mut rand::thread_rng(), min..=max)
}

/// The length of the next piece, where so much is left and the piece is to be `length`
/// long.
pub fn next_piece(left: usize, length: i32) -> (r: usize)
    requires
        length >= 1,
    ensures
        r == (if length <= left {
            length as int
        } else {
            left as int
        }),
{
    if length as usize <= left {
        length as usize
    } else {
        left
    }
}

/// The lengths of the pieces of so many bytes, drawn from the range. They make up the
/// whole, and only the last one may be shorter than the range.
pub fn fragment_lengths(len: usize, length: Int32Range) -> (r: Vec<usize>)
    requires
        1 <= length.min <= length.max,
    ensures
        sum(r@) == len,
        forall|i: int| 0 <= i < r@.len() ==> 1 <= #[trigger] r@[i] <= length.max,
        forall|i: int| 0 <= i < r@.len() - 1 ==> length.min <= #[trigger] r@[i],
{
    let mut lengths: Vec<usize> = Vec::new();
    let mut left: usize = len;
    while left > 0
        invariant
            1 <= length.min <= length.max,
            left <= len,
            sum(lengths@) == len - left,
            forall|i: int| 0 <= i < lengths@.len() ==> 1 <= #[trigger] lengths@[i] <= length.max,
            forall|i: int| 0 <= i < lengths@.len() - 1 ==> length.min <= #[trigger] lengths@[i],
            left > 0 && lengths@.len() > 0 ==> length.min <= lengths@.last(),
        decreases left,
    {
        let piece: usize = next_piece(left, draw(length.min, length.max));
        let ghost before = lengths@;
        lengths.push(piece);
        assert(lengths@.drop_last() =~= before);
        left = left - piece;
    }
    lengths
}

/// How long to wait before the next piece, in milliseconds.
pub fn pause_ms(interval: Int32Range) -> (r: u64)
    requires
        0 <= interval.min <= interval.max,
    ensures
        interval.min <= r <= interval.max,
{
    draw(interval.min, interval.max) as u64
}

} // verus!
