//! Tables for the terminal: lines of cells that tabs keep apart are laid out
//! in columns.

use std::io::Write;
use tabwriter::TabWriter;
use vstd::prelude::*;
use vstd::string::StringSliceAdditionalSpecFns;

verus! {

/// The bytes that a `tabwriter::TabWriter` with its default settings leaves in
/// a byte vector when `text` is written to it and it is flushed: the text with
/// the cells of neighbouring lines padded to columns. Nothing where the writer
/// reports a failure.
pub uninterp spec fn tab_aligned(text: Seq<u8>) -> Option<Seq<u8>>;

/// `tabwriter::TabWriter::new` over an empty byte vector, then `write_all`
/// and `flush` of its `std::io::Write`, then `TabWriter::into_inner`: the
/// bytes that the writer leaves in the vector. A failure that the writer
/// reports gives nothing.
#[verifier::external_body]
fn tab_align(text: &[u8]) -> (table: Option<Vec<u8>>)
    ensures
        match tab_aligned(text@) {
            Some(aligned) => table matches Some(bytes) && bytes@ == aligned,
            None => table is None,
        },
{
    let mut writer = TabWriter::new(Vec::new());
    writer.write_all(text).ok()?;
    writer.flush().ok()?;
    writer.into_inner().ok()
}

/// Lays the lines of `text` out in columns.
pub fn align(text: &str) -> (table: Option<Vec<u8>>)
    ensures
        match tab_aligned(text.spec_bytes()) {
            Some(aligned) => table matches Some(bytes) && bytes@ == aligned,
            None => table is None,
        },
{
    tab_align(text.as_bytes())
}

} // verus!
