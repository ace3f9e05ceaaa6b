//! Numbers that are given or not, in the types that datasets have for them.
use vstd::prelude::*;

verus! {

/// A number that is given or not, or the message that it is negative or larger than `max`.
pub open spec fn limited(value: Option<i64>, name: Seq<char>, max: int) -> Result<
    Option<int>,
    Seq<char>,
> {
    match value {
        None => Ok(None),
        Some(n) => if n < 0 {
            Err(name + " must be non-negative"@)
        } else if n > max {
            Err(name + " is too large"@)
        } else {
            Ok(Some(n as int))
        },
    }
}

/// A number or a message, as an integer and a sequence of characters.
pub open spec fn u64_outcome(r: Result<Option<u64>, String>) -> Result<Option<int>, Seq<char>> {
    match r {
        Ok(Some(n)) => Ok(Some(n as int)),
        Ok(None) => Ok(None),
        Err(message) => Err(message@),
    }
}

/// A number or a message, as an integer and a sequence of characters.
pub open spec fn usize_outcome(r: Result<Option<usize>, String>) -> Result<Option<int>, Seq<char>> {
    match r {
        Ok(Some(n)) => Ok(Some(n as int)),
        Ok(None) => Ok(None),
        Err(message) => Err(message@),
    }
}

fn complaint(name: &str, fault: &str) -> (message: String)
    ensures
        message@ == name@ + fault@,
{
    let mut message = name.to_owned();
    message.append(fault);
    message
}

/// A number that is given or not; fails where it is negative.
pub fn optional_u64(value: Option<i64>, name: &str) -> (r: Result<Option<u64>, String>)
    ensures
        u64_outcome(r) == limited(value, name@, u64::MAX as int),
{
    match value {
        None => Ok(None),
        Some(n) => if n < 0 {
            Err(complaint(name, " must be non-negative"))
        } else {
            Ok(Some(n as u64))
        },
    }
}

/// A number that is given or not; fails where it is negative or too large.
pub fn optional_usize(value: Option<i64>, name: &str) -> (r: Result<Option<usize>, String>)
    ensures
        usize_outcome(r) == limited(value, name@, usize::MAX as int),
{
    match value {
        None => Ok(None),
        Some(n) => if n < 0 {
            Err(complaint(name, " must be non-negative"))
        } else if n as u64 > usize::MAX as u64 {
            Err(complaint(name, " is too large"))
        } else {
            Ok(Some(n as usize))
        },
    }
}

/// A number that is given is handed on unchanged, one that is not stays so, and only a negative
/// number, or one above the limit, is refused.
pub proof fn numbers_are_handed_on(value: Option<i64>, name: Seq<char>, max: int)
    requires
        max >= 0,
    ensures
        value is None ==> limited(value, name, max) == Ok::<Option<int>, Seq<char>>(None),
        value matches Some(n) ==> {
            &&& 0 <= n <= max ==> limited(value, name, max) == Ok::<Option<int>, Seq<char>>(
                Some(n as int),
            )
            &&& n < 0 ==> limited(value, name, max) == Err::<Option<int>, Seq<char>>(
                name + " must be non-negative"@,
            )
            &&& n > max ==> limited(value, name, max) == Err::<Option<int>, Seq<char>>(
                name + " is too large"@,
            )
        },
{
}

} // verus!
