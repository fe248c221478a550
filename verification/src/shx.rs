//! Deriving a feature count from an index file's header-declared total
//! file length, measured in 16-bit words.
use vstd::prelude::*;

use crate::dbf::Error;

verus! {

/// Size in bytes of the fixed file header shared by the index and
/// geometry file family.
pub const FIXED_FILE_HEADER_SIZE: i64 = 100;

/// Size in bytes of one index record: two 32-bit fields (offset and
/// content length) per feature.
pub const INDEX_RECORD_SIZE: i64 = 8;

/// Derive the number of stored features from the index header's total
/// file length in 16-bit words.
///
/// A numerator that would be negative or is not an exact multiple of the
/// index record size signals a corrupt or truncated index and is surfaced
/// as an error rather than truncated away by integer division.
pub fn feature_count_from_words(file_length_words: i32) -> (r: Result<i32, Error>)
    ensures
        ({
            let numerator = 2 * file_length_words - FIXED_FILE_HEADER_SIZE;
            if 0 <= numerator && numerator % (INDEX_RECORD_SIZE as int) == 0 {
                r == Result::<i32, Error>::Ok((numerator / (INDEX_RECORD_SIZE as int)) as i32)
            } else {
                r == Result::<i32, Error>::Err(Error::ArithmeticInconsistency(numerator as i64))
            }
        }),
{
    let numerator: i64 = 2 * (file_length_words as i64) - FIXED_FILE_HEADER_SIZE;
    if numerator < 0 || numerator % INDEX_RECORD_SIZE != 0 {
        Err(Error::ArithmeticInconsistency(numerator))
    } else {
        Ok((numerator / INDEX_RECORD_SIZE) as i32)
    }
}

} // verus!
