use vstd::prelude::*;
use crate::text::same_text;

verus! {

/// A boolean written as `1` or `0`, as sysfs writes flags.
#[derive(Debug)]
pub struct IntBool(bool);

/// The text was neither `0` nor `1`.
#[derive(Debug, Clone, Copy, PartialEq, Eq)]
pub struct ParseIntBoolError;

/// The flag that `s` denotes: `Some(true)` for `1`, `Some(false)` for `0`.
pub open spec fn int_bool_of(s: Seq<char>) -> Option<bool> {
    if s == "1"@ {
        Some(true)
    } else if s == "0"@ {
        Some(false)
    } else {
        None
    }
}

impl IntBool {
    pub closed spec fn spec_value(&self) -> bool {
        self.0
    }

    /// Parses the string `1` as true and `0` as false; any other text is an error.
    pub fn from_str(s: &str) -> (r: Result<IntBool, ParseIntBoolError>)
        ensures
            r is Ok <==> int_bool_of(s@) is Some,
            r is Ok ==> r->Ok_0.spec_value() == int_bool_of(s@)->0,
    {
        if same_text(s, "1") {
            Ok(IntBool(true))
        } else if same_text(s, "0") {
            Ok(IntBool(false))
        } else {
            Err(ParseIntBoolError)
        }
    }

    pub fn value(&self) -> (r: bool)
        ensures
            r == self.spec_value(),
    {
        self.0
    }
}

impl From<IntBool> for bool {
    fn from(b: IntBool) -> (r: bool) {
        b.0
    }
}

impl vstd::std_specs::convert::FromSpecImpl<IntBool> for bool {
    open spec fn obeys_from_spec() -> bool {
        true
    }

    open spec fn from_spec(b: IntBool) -> bool {
        b.spec_value()
    }
}

impl ParseIntBoolError {
    /// The message that describes this error.
    pub fn to_string(&self) -> (r: String)
        ensures
            r@ == "provided string was not `0` or `1`"@,
    {
        String::from_str("provided string was not `0` or `1`")
    }
}

} // verus!
