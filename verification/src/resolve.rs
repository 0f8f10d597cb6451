//! Resolution of one external command invocation into a revision hash.
//!
//! The library does not spawn the command itself: the caller runs the
//! revision query (for example `git rev-parse HEAD`), records what became of
//! it as a [`CommandOutcome`], and hands that to [`resolve`].

use vstd::prelude::*;

use crate::hash::HASH_BYTES;
use crate::hex::{all_hex, hex_byte_val, hex_digit_value, hex_to_bytes, is_hex_byte, is_hex_char};

verus! {

/// Why a resolution attempt failed.
#[derive(Debug, Clone, Copy, PartialEq, Eq, Structural)]
pub enum Error {
    /// The external command could not be launched at all.
    Command,
    /// The command ran but finished with a non-success exit status.
    StatusCode,
    /// The command's output could not be parsed as a revision hash.
    Parse,
}

impl Error {
    /// A short description of the failure.
    pub fn message(self) -> (r: &'static str)
        ensures
            self is Command ==> r@ == "Failed to execute git"@,
            self is StatusCode ==> r@ == "git returned a non-success exit code"@,
            self is Parse ==> r@ == "the output of git could not be parsed"@,
    {
        match self {
            Error::Command => "Failed to execute git",
            Error::StatusCode => "git returned a non-success exit code",
            Error::Parse => "the output of git could not be parsed",
        }
    }
}

/// What became of one invocation of the external command.
pub enum CommandOutcome {
    /// The command could not be launched.
    NotLaunched,
    /// The command ran to completion, with this exit condition and this
    /// captured standard output.
    Completed { success: bool, stdout: Vec<u8> },
}

/// The mathematical content of a command outcome.
pub enum OutcomeView {
    /// The command could not be launched.
    NotLaunched,
    /// The command ran to completion.
    Completed { success: bool, stdout: Seq<u8> },
}

impl View for CommandOutcome {
    type V = OutcomeView;

    open spec fn view(&self) -> OutcomeView {
        match self {
            CommandOutcome::NotLaunched => OutcomeView::NotLaunched,
            CommandOutcome::Completed { success, stdout } => OutcomeView::Completed {
                success: *success,
                stdout: stdout@,
            },
        }
    }
}

/// The first forty bytes of the command's standard output, read as the
/// characters their ASCII codes name.
pub open spec fn output_digits(stdout: Seq<u8>) -> Seq<char>
    recommends
        stdout.len() >= 2 * HASH_BYTES,
{
    Seq::new(2 * HASH_BYTES as nat, |i: int| stdout[i] as char)
}

/// What resolution returns for a given command outcome: the twenty decoded
/// bytes where the command succeeded and its first forty output bytes are
/// hexadecimal digits, and otherwise the error that names what went wrong.
///
/// The output is truncated to forty bytes before anything else is checked,
/// so trailing content (such as a newline) is ignored.
pub open spec fn resolution_of(o: OutcomeView) -> Result<Seq<u8>, Error> {
    match o {
        OutcomeView::NotLaunched => Err(Error::Command),
        OutcomeView::Completed { success, stdout } => {
            if !success {
                Err(Error::StatusCode)
            } else if stdout.len() < 2 * HASH_BYTES {
                Err(Error::Parse)
            } else if all_hex(output_digits(stdout)) {
                Ok(hex_to_bytes(output_digits(stdout)))
            } else {
                Err(Error::Parse)
            }
        },
    }
}

/// Law: resolution is a function of the command outcome alone; two attempts
/// that observe equal outcomes resolve to equal results, so repeated calls
/// against an unchanged repository state agree.
pub proof fn lemma_resolution_deterministic(a: OutcomeView, b: OutcomeView)
    requires
        a == b,
    ensures
        resolution_of(a) == resolution_of(b),
{
}

/// Decides one resolution attempt from what became of the external command:
/// exactly [`resolution_of`] on the outcome's content.
pub fn resolve(outcome: CommandOutcome) -> (r: Result<crate::hash::Hash, Error>)
    ensures
        r is Ok <==> resolution_of(outcome@) is Ok,
        r is Ok ==> r->Ok_0@ == resolution_of(outcome@)->Ok_0,
        r is Err ==> r->Err_0 == resolution_of(outcome@)->Err_0,
{
    match outcome {
        CommandOutcome::NotLaunched => Err(Error::Command),
        CommandOutcome::Completed { success, stdout } => {
            if !success {
                Err(Error::StatusCode)
            } else if stdout.len() < 2 * HASH_BYTES {
                Err(Error::Parse)
            } else {
                let mut bytes: Vec<u8> = Vec::new();
                let mut i: usize = 0;
                while i < HASH_BYTES
                    invariant
                        outcome@ == (OutcomeView::Completed { success: true, stdout: stdout@ }),
                        stdout@.len() >= 2 * HASH_BYTES,
                        i <= HASH_BYTES,
                        bytes@.len() == i,
                        forall|j: int| 0 <= j < 2 * i ==> is_hex_byte(#[trigger] stdout@[j]),
                        forall|j: int|
                            0 <= j < i ==> #[trigger] bytes@[j] == (16 * hex_byte_val(
                                stdout@[2 * j],
                            ) + hex_byte_val(stdout@[2 * j + 1])) as u8,
                    decreases HASH_BYTES - i,
                {
                    let hi = hex_digit_value(stdout[2 * i]);
                    let lo = hex_digit_value(stdout[2 * i + 1]);
                    match (hi, lo) {
                        (Some(h), Some(l)) => {
                            bytes.push(16 * h + l);
                        },
                        _ => {
                            proof {
                                let d = output_digits(stdout@);
                                let bad: int = if hi is None {
                                    2 * (i as int)
                                } else {
                                    2 * (i as int) + 1
                                };
                                assert(d[bad] == stdout@[bad] as char);
                                assert(!is_hex_char(d[bad]));
                            }
                            return Err(Error::Parse);
                        },
                    }
                    i += 1;
                }
                proof {
                    let d = output_digits(stdout@);
                    assert forall|k: int| 0 <= k < d.len() implies is_hex_char(
                        #[trigger] d[k],
                    ) by {
                        assert(d[k] == stdout@[k] as char);
                        assert(is_hex_byte(stdout@[k]));
                    }
                    assert forall|j: int| 0 <= j < HASH_BYTES implies hex_to_bytes(d)[j]
                        == bytes@[j] by {
                        assert(d[2 * j] == stdout@[2 * j] as char);
                        assert(d[2 * j + 1] == stdout@[2 * j + 1] as char);
                    }
                    assert(hex_to_bytes(d) =~= bytes@);
                }
                match crate::hash::Hash::from_bytes(bytes) {
                    Some(h) => Ok(h),
                    None => {
                        proof {
                            assert(false);
                        }
                        Err(Error::Parse)
                    },
                }
            }
        },
    }
}

} // verus!
