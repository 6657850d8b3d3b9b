//! Signals that can be raised on key combinations, tied to their `libc` numbers.
use vstd::prelude::*;

verus! {

/// A signal, described by a type that carries its `libc` number.
pub trait Signal {
    /// The signal's number.
    fn to_sig() -> i32;

    /// The key that, pressed together with Ctrl, raises the signal by default.
    fn default_ctrl_key() -> char;
}

/// The interrupt signal, by default raised by Ctrl-C.
pub struct SIGINT;

/// The terminal stop signal, by default raised by Ctrl-Z.
pub struct SIGTSTP;

/// The quit signal, by default raised by Ctrl-\.
pub struct SIGQUIT;

/// `libc::SIGINT`. Claimed: it is 2 (the value that `libc` defines for every platform).
#[verifier::external_body]
fn libc_sigint() -> (r: i32)
    ensures
        r == 2,
{
    libc::SIGINT
}

/// `libc::SIGTSTP`. Claimed: it is one of the values that `libc` defines for the platforms: 13,
/// 18, 20 or 24 (which of them depends on the platform).
#[verifier::external_body]
fn libc_sigtstp() -> (r: i32)
    ensures
        r == 13 || r == 18 || r == 20 || r == 24,
{
    libc::SIGTSTP
}

/// `libc::SIGQUIT`. Claimed: it is 3 (the value that `libc` defines for every platform).
#[verifier::external_body]
fn libc_sigquit() -> (r: i32)
    ensures
        r == 3,
{
    libc::SIGQUIT
}

impl Signal for SIGINT {
    /// The number 2.
    fn to_sig() -> (r: i32)
        ensures
            r == 2,
    {
        libc_sigint()
    }

    /// Ctrl-C.
    fn default_ctrl_key() -> (r: char)
        ensures
            r == 'c',
    {
        'c'
    }
}

impl Signal for SIGTSTP {
    /// The platform's number of the signal: 13, 18, 20 or 24.
    fn to_sig() -> (r: i32)
        ensures
            r == 13 || r == 18 || r == 20 || r == 24,
    {
        libc_sigtstp()
    }

    /// Ctrl-Z.
    fn default_ctrl_key() -> (r: char)
        ensures
            r == 'z',
    {
        'z'
    }
}

impl Signal for SIGQUIT {
    /// The number 3.
    fn to_sig() -> (r: i32)
        ensures
            r == 3,
    {
        libc_sigquit()
    }

    /// Ctrl-\.
    fn default_ctrl_key() -> (r: char)
        ensures
            r == '\\',
    {
        '\\'
    }
}

} // verus!
