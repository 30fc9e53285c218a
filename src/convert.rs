//! Conversions of plain values into `Scalar`.

use crate::format::Scalar;
use vstd::prelude::*;
use vstd::string::StringExecFns;

verus! {

impl From<i32> for Scalar {
    fn from(x: i32) -> (r: Scalar)
        ensures
            r == Scalar::Int(x as i64),
    {
        Scalar::Int(x as i64)
    }
}

impl vstd::std_specs::convert::FromSpecImpl<i32> for Scalar {
    open spec fn obeys_from_spec() -> bool {
        true
    }

    open spec fn from_spec(x: i32) -> Scalar {
        Scalar::Int(x as i64)
    }
}

impl From<i64> for Scalar {
    fn from(x: i64) -> (r: Scalar)
        ensures
            r == Scalar::Int(x),
    {
        Scalar::Int(x)
    }
}

impl vstd::std_specs::convert::FromSpecImpl<i64> for Scalar {
    open spec fn obeys_from_spec() -> bool {
        true
    }

    open spec fn from_spec(x: i64) -> Scalar {
        Scalar::Int(x)
    }
}

impl From<u32> for Scalar {
    fn from(x: u32) -> (r: Scalar)
        ensures
            r == Scalar::UInt(x as u64),
    {
        Scalar::UInt(x as u64)
    }
}

impl vstd::std_specs::convert::FromSpecImpl<u32> for Scalar {
    open spec fn obeys_from_spec() -> bool {
        true
    }

    open spec fn from_spec(x: u32) -> Scalar {
        Scalar::UInt(x as u64)
    }
}

impl From<u64> for Scalar {
    fn from(x: u64) -> (r: Scalar)
        ensures
            r == Scalar::UInt(x),
    {
        Scalar::UInt(x)
    }
}

impl vstd::std_specs::convert::FromSpecImpl<u64> for Scalar {
    open spec fn obeys_from_spec() -> bool {
        true
    }

    open spec fn from_spec(x: u64) -> Scalar {
        Scalar::UInt(x)
    }
}

impl From<String> for Scalar {
    fn from(x: String) -> (r: Scalar)
        ensures
            r == Scalar::String(x),
    {
        Scalar::String(x)
    }
}

impl vstd::std_specs::convert::FromSpecImpl<String> for Scalar {
    open spec fn obeys_from_spec() -> bool {
        true
    }

    open spec fn from_spec(x: String) -> Scalar {
        Scalar::String(x)
    }
}

impl From<&str> for Scalar {
    fn from(x: &str) -> (r: Scalar)
        ensures
            r matches Scalar::String(s) && s@ == x@,
    {
        Scalar::String(String::from_str(x))
    }
}

/// Only the text of the resulting string is fixed; `from` states it.
impl vstd::std_specs::convert::FromSpecImpl<&str> for Scalar {
    open spec fn obeys_from_spec() -> bool {
        false
    }

    open spec fn from_spec(x: &str) -> Scalar {
        Scalar::String(choose|s: String| s@ == x@)
    }
}

impl From<char> for Scalar {
    fn from(x: char) -> (r: Scalar)
        ensures
            r == Scalar::Char(x),
    {
        Scalar::Char(x)
    }
}

impl vstd::std_specs::convert::FromSpecImpl<char> for Scalar {
    open spec fn obeys_from_spec() -> bool {
        true
    }

    open spec fn from_spec(x: char) -> Scalar {
        Scalar::Char(x)
    }
}

impl From<bool> for Scalar {
    fn from(x: bool) -> (r: Scalar)
        ensures
            r == Scalar::Bool(x),
    {
        Scalar::Bool(x)
    }
}

impl vstd::std_specs::convert::FromSpecImpl<bool> for Scalar {
    open spec fn obeys_from_spec() -> bool {
        true
    }

    open spec fn from_spec(x: bool) -> Scalar {
        Scalar::Bool(x)
    }
}

} // verus!
