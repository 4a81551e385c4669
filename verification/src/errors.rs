//! The library's error type.

use vstd::prelude::*;

verus! {

/// Errors the library reports. `InvalidCommand` carries the message shown to the user.
#[derive(Clone, Debug, PartialEq, Eq)]
pub enum AppError {
    /// A command, argument or session transition was rejected.
    InvalidCommand(String),
    /// The platform has no data directory for the session database.
    NoDataDir,
}

/// `e` is an `InvalidCommand` error with message `msg`.
pub open spec fn invalid_with(e: AppError, msg: Seq<char>) -> bool {
    e matches AppError::InvalidCommand(m) && m@ == msg
}

/// The message shown for an error.
pub open spec fn error_message(e: AppError) -> Seq<char> {
    match e {
        AppError::InvalidCommand(m) => m@,
        AppError::NoDataDir => "no data directory available"@,
    }
}

impl AppError {
    /// The text shown to the user for this error (what a toast displays).
    pub fn message(&self) -> (r: String)
        ensures
            r@ == error_message(*self),
    {
        match self {
            AppError::InvalidCommand(m) => m.clone(),
            AppError::NoDataDir => String::from_str("no data directory available"),
        }
    }
}

/// An `InvalidCommand` error whose message is `prefix` followed by `arg`.
pub fn invalid_command(prefix: &str, arg: &Vec<char>) -> (e: AppError)
    ensures
        invalid_with(e, prefix@ + arg@),
{
    let mut v: Vec<char> = crate::text::chars_of(prefix);
    let mut i: usize = 0;
    let ghost base = v@;
    while i < arg.len()
        invariant
            i <= arg@.len(),
            base == prefix@,
            v@ == base + arg@.subrange(0, i as int),
        decreases arg@.len() - i,
    {
        v.push(arg[i]);
        i = i + 1;
        assert(v@ =~= base + arg@.subrange(0, i as int));
    }
    assert(arg@.subrange(0, i as int) =~= arg@);
    AppError::InvalidCommand(crate::text::string_of(v.as_slice()))
}

/// An `InvalidCommand` error with the fixed message `msg`.
pub fn invalid_message(msg: &str) -> (e: AppError)
    ensures
        invalid_with(e, msg@),
{
    AppError::InvalidCommand(String::from_str(msg))
}

} // verus!
