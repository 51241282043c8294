//! The values that the future-chaining examples compute, and their two
//! error types.

use crate::text::join;
use core::cmp::Ordering;
use vstd::prelude::*;
use vstd::std_specs::cmp::PartialOrdSpec;
use vstd::string::StringExecFns;

verus! {

/// The value of the first example computation: 100.
pub fn my_fn() -> (r: u32)
    ensures
        r == 100,
{
    100
}

/// The square of `i`, which must fit in a `u32`.
pub fn my_fn_squared(i: u32) -> (r: u32)
    requires
        i * i <= u32::MAX,
    ensures
        r == i * i,
{
    i * i
}

/// `i` less 50; `i` must be at least 50.
pub fn fn_plain(i: u32) -> (r: u32)
    requires
        i >= 50,
    ensures
        r == i - 50,
{
    i - 50
}

/// The smaller of two values by `<`: `a1` when it is less than `a2`, and
/// `a2` otherwise (also when they are equal or unordered).
pub fn fut_generic_own<A: PartialOrd>(a1: A, a2: A) -> (r: A)
    ensures
        A::obeys_partial_cmp_spec() ==> r == (if a1.partial_cmp_spec(&a2) == Some(Ordering::Less) {
            a1
        } else {
            a2
        }),
        r == a1 || r == a2,
{
    if a1 < a2 {
        a1
    } else {
        a2
    }
}

/// The message of a chained future that received `s`: "received == <s>".
pub fn received_message(s: &str) -> (m: String)
    ensures
        m@ == "received == "@ + s@,
{
    join("received == ", s)
}

/// The first example error.
#[derive(Debug, Clone, Copy, PartialEq, Eq, Structural)]
pub struct ErrorA {}

/// The second example error.
#[derive(Debug, Clone, Copy, PartialEq, Eq, Structural)]
pub struct ErrorB {}

impl Default for ErrorA {
    fn default() -> (e: ErrorA)
        ensures
            e == (ErrorA {}),
    {
        ErrorA {}
    }
}

impl Default for ErrorB {
    fn default() -> (e: ErrorB)
        ensures
            e == (ErrorB {}),
    {
        ErrorB {}
    }
}

impl ErrorA {
    /// The text the error displays as: "ErrorA!".
    pub fn to_message(&self) -> (m: String)
        ensures
            m@ == "ErrorA!"@,
    {
        String::from_str("ErrorA!")
    }

    /// The error's description: "Description for ErrorA".
    pub fn description(&self) -> (d: &'static str)
        ensures
            d@ == "Description for ErrorA"@,
    {
        "Description for ErrorA"
    }
}

impl ErrorB {
    /// The text the error displays as: "ErrorB!".
    pub fn to_message(&self) -> (m: String)
        ensures
            m@ == "ErrorB!"@,
    {
        String::from_str("ErrorB!")
    }

    /// The error's description: "Description for ErrorB".
    pub fn description(&self) -> (d: &'static str)
        ensures
            d@ == "Description for ErrorB"@,
    {
        "Description for ErrorB"
    }
}

} // verus!
