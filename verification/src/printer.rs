use crate::text::push_char;
use vstd::prelude::*;

verus! {

/// Whether `c` is an ASCII letter or digit.
pub open spec fn is_ascii_alphanumeric(c: char) -> bool {
    ||| '0' <= c && c <= '9'
    ||| 'a' <= c && c <= 'z'
    ||| 'A' <= c && c <= 'Z'
}

/// A printer name with every character that is no ASCII letter or digit
/// replaced by an underscore.
pub open spec fn sanitized(name: Seq<char>) -> Seq<char> {
    Seq::new(
        name.len(),
        |i: int|
            if is_ascii_alphanumeric(name[i]) {
                name[i]
            } else {
                '_'
            },
    )
}

/// Makes a printer name safe for use in a file name: ASCII letters and
/// digits stay, every other character becomes an underscore.
pub fn sanitize_printer_name(s: &str) -> (out: String)
    ensures
        out@ == sanitized(s@),
{
    let mut out: String = String::new();
    for c in it: s.chars()
        invariant
            it.seq() == s@,
            out@ == sanitized(it.seq().take(it.index())),
    {
        let keep: bool = (c >= '0' && c <= '9') || (c >= 'a' && c <= 'z') || (c >= 'A' && c
            <= 'Z');
        push_char(
            &mut out,
            if keep {
                c
            } else {
                '_'
            },
        );
        proof {
            assert(out@ =~= sanitized(s@.take(it.index() + 1)));
        }
    }
    proof {
        assert(s@.take(s@.len() as int) =~= s@);
    }
    out
}

/// The name of the file that stands in for a printer where there is no
/// spooler: the sanitized printer name and a fixed ending.
pub fn fallback_file_name(printer_name: &str) -> (out: String)
    ensures
        out@ == sanitized(printer_name@) + "_epl_output.bin"@,
{
    let mut out: String = sanitize_printer_name(printer_name);
    out.append("_epl_output.bin");
    out
}

/// Why a job did not reach the printer.
#[derive(Clone, Copy, Debug, PartialEq, Eq, Structural)]
pub enum SendError {
    /// There is no printer of that name.
    NotFound,
    /// The printer may not be used.
    AccessDenied,
    /// The printer did not take the job.
    IOFailure,
    /// The printer took fewer bytes than the job holds.
    PartialWrite,
}

/// Why a printer could not be opened, from the error code of the system:
/// access denied for code 5, not found for any other.
pub fn open_failure(code: u32) -> (e: SendError)
    ensures
        e == (if code == 5 {
            SendError::AccessDenied
        } else {
            SendError::NotFound
        }),
{
    if code == 5 {
        SendError::AccessDenied
    } else {
        SendError::NotFound
    }
}

/// What a write to the printer comes to: a failure where the printer did
/// not accept the write, a partial write where it took another number of
/// bytes than the job holds, success otherwise.
pub open spec fn spec_write_outcome(accepted: bool, written: nat, expected: nat) -> Result<
    (),
    SendError,
> {
    if !accepted {
        Err(SendError::IOFailure)
    } else if written != expected {
        Err(SendError::PartialWrite)
    } else {
        Ok(())
    }
}

/// Judges a write of `expected` bytes of which the printer reports
/// `written` as taken.
pub fn write_outcome(accepted: bool, written: usize, expected: usize) -> (out: Result<
    (),
    SendError,
>)
    ensures
        out == spec_write_outcome(accepted, written as nat, expected as nat),
{
    if !accepted {
        Err(SendError::IOFailure)
    } else if written != expected {
        Err(SendError::PartialWrite)
    } else {
        Ok(())
    }
}

} // verus!
