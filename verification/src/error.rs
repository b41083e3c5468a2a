//! The failures and diagnostics that decoding reports to its caller.

use vstd::prelude::*;

verus! {

/// Why a decode entry point gave no value, or what it found amiss in the
/// value it gave.
#[derive(Clone, Copy, Debug, PartialEq, Eq, Structural)]
pub enum AssetError {
    /// The bytes of a file are missing, cut short, or not a whole number of
    /// entries.
    IoError,
    /// Header fields contradict the format.
    FormatError,
    /// A frame beyond the end of the offset table was asked for.
    IndexOutOfRange,
    /// A declared count disagrees with what was found. This is a diagnostic
    /// that goes with a result; nothing fails with it.
    CountMismatch,
}

} // verus!
