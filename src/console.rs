//! The process's standard input and output, paired as one channel.
//!
//! Reads come from standard input and writes go to standard output. The
//! handles are blocking: a console cannot be switched to non-blocking mode,
//! so a read of this channel may wait for the user.

use vstd::prelude::*;
use std::io::{Stdin, Stdout};

verus! {

#[verifier::external_type_specification]
#[verifier::external_body]
pub struct ExStdin(Stdin);

#[verifier::external_type_specification]
#[verifier::external_body]
pub struct ExStdout(Stdout);

/// Relies on `std::io::stdin`: a handle to the process's standard input.
#[verifier::external_body]
fn stdin_handle() -> Stdin {
    std::io::stdin()
}

/// Relies on `std::io::stdout`: a handle to the process's standard output.
#[verifier::external_body]
fn stdout_handle() -> Stdout {
    std::io::stdout()
}

/// Standard input and standard output together.
pub struct Stdio {
    pub stdin: Stdin,
    pub stdout: Stdout,
}

impl Stdio {
    /// The pair of the process's standard input and output.
    pub fn new() -> Stdio {
        Stdio { stdin: stdin_handle(), stdout: stdout_handle() }
    }
}

} // verus!
