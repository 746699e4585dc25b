//! File system paths.
use std::path::PathBuf;
use vstd::prelude::*;

verus! {

/// `std::path::PathBuf`, a path.
#[verifier::external_type_specification]
#[verifier::external_body]
pub struct ExPathBuf(PathBuf);

/// The bytes that a path consists of.
pub uninterp spec fn path_bytes(path: std::path::PathBuf) -> Seq<u8>;

/// `std::path::PathBuf::new` gives the empty path.
pub assume_specification[ PathBuf::new ]() -> (path: PathBuf)
    ensures
        path_bytes(path) == Seq::<u8>::empty(),
;

/// A clone of a `std::path::PathBuf` consists of the same bytes.
pub assume_specification[ <PathBuf as Clone>::clone ](path: &PathBuf) -> (copy: PathBuf)
    ensures
        path_bytes(copy) == path_bytes(*path),
;

} // verus!
