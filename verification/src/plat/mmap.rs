//! Memory protection of a mapping.

use vstd::prelude::*;

verus! {

/// How a mapped region may be accessed.
#[derive(Clone, Copy, Debug, PartialEq, Eq, Structural)]
pub enum Protection {
    NoAccess,
    Exec,
    Read,
    Write,
    ReadWrite,
}

/// The `PROT_*` flag value of a protection.
pub open spec fn protection_flags(p: Protection) -> i32 {
    match p {
        Protection::NoAccess => 0,
        Protection::Exec => 4,
        Protection::Read => 1,
        Protection::Write => 2,
        Protection::ReadWrite => 6,
    }
}

impl From<Protection> for i32 {
    fn from(p: Protection) -> (flags: i32) {
        match p {
            Protection::NoAccess => 0,
            Protection::Exec => 4,
            Protection::Read => 1,
            Protection::Write => 2,
            Protection::ReadWrite => 6,
        }
    }
}

impl vstd::std_specs::convert::FromSpecImpl<Protection> for i32 {
    open spec fn obeys_from_spec() -> bool {
        true
    }

    open spec fn from_spec(p: Protection) -> i32 {
        protection_flags(p)
    }
}

} // verus!
