//! The gallery's records, shared with the database layer, and the name
//! under which a generated image is saved.
use vstd::prelude::*;
pub use crate::db::{ComponentInfo, Folder, FolderNode, Tag};
use crate::numbers::{signed_decimal, signed_decimal_string};
use crate::text::{concat, decimal, decimal_string};

verus! {

/// The file name of an image generated at `timestamp` (seconds since the
/// Unix epoch) with `seed`: "flux_{timestamp}_{seed}.png".
pub open spec fn output_file_name_text(timestamp: u64, seed: i64) -> Seq<char> {
    "flux_"@ + decimal(timestamp as nat) + "_"@ + signed_decimal(seed as int) + ".png"@
}

/// The file name under which an image generated at `timestamp` with
/// `seed` is saved.
pub fn output_file_name(timestamp: u64, seed: i64) -> (r: String)
    ensures
        r@ == output_file_name_text(timestamp, seed),
{
    let mut name = concat("flux_", decimal_string(timestamp).as_str());
    name = concat(name.as_str(), "_");
    name = concat(name.as_str(), signed_decimal_string(seed).as_str());
    concat(name.as_str(), ".png")
}

} // verus!
