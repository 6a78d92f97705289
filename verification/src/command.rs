//! The command-line surface: one size token in, one report line out.

use crate::decimal::{decimal_digits, push_decimal};
use crate::size::{parse, spec_parse, spec_to_bytes, to_bytes};
use vstd::prelude::*;
use vstd::string::*;

verus! {

/// Why a run produces no report.
#[derive(Clone, Copy, Debug, PartialEq, Eq, Structural)]
pub enum CommandError {
    /// The command was not given exactly one size token.
    Usage,
    /// The size token has no readable magnitude.
    Format,
}

impl CommandError {
    /// The diagnostic for this error, as issued by the program `program`.
    pub open spec fn spec_message(self, program: Seq<char>) -> Seq<char> {
        match self {
            CommandError::Usage => "Usage: "@ + program + " <file size in bytes>"@,
            CommandError::Format => {
                "Invalid file size format. Use <number> <unit> format. Example: 10 kb"@
            },
        }
    }

    /// The diagnostic for this error, as issued by the program `program`.
    pub fn message(&self, program: &str) -> (text: String)
        ensures
            text@ == self.spec_message(program@),
    {
        match self {
            CommandError::Usage => {
                let mut text = String::from_str("Usage: ");
                text.append(program);
                text.append(" <file size in bytes>");
                text
            },
            CommandError::Format => String::from_str(
                "Invalid file size format. Use <number> <unit> format. Example: 10 kb",
            ),
        }
    }

    /// The status with which the process ends on this error.
    pub fn exit_code(&self) -> (code: i32)
        ensures
            code == 1,
    {
        1
    }
}

/// The byte count that the argument list `args` asks for. The list holds the
/// program's name and then exactly one size token; any other length is a
/// usage error, and a token without meaning a format error.
pub open spec fn spec_bytes_from_args(args: Seq<String>) -> Result<u64, CommandError> {
    if args.len() != 2 {
        Err(CommandError::Usage)
    } else {
        match spec_parse(args[1]@) {
            Ok(input) => Ok(spec_to_bytes(input)),
            Err(_) => Err(CommandError::Format),
        }
    }
}

/// The report on a byte count, given the texts of its three scaled figures.
pub open spec fn spec_report_line(
    bytes: u64,
    kilobytes: Seq<char>,
    megabytes: Seq<char>,
    gigabytes: Seq<char>,
) -> Seq<char> {
    "Sizes { bytes: "@ + decimal_digits(bytes as nat) + " bytes, kilobytes: "@ + kilobytes
        + " kilobytes, megabytes: "@ + megabytes + " megabytes, gigabytes: "@ + gigabytes
        + " gigabytes }"@
}

/// The byte count that the argument list `args` asks for.
pub fn bytes_from_args(args: &[String]) -> (result: Result<u64, CommandError>)
    ensures
        result == spec_bytes_from_args(args@),
{
    if args.len() != 2 {
        return Err(CommandError::Usage);
    }
    match parse(args[1].as_str()) {
        Ok(input) => Ok(to_bytes(input)),
        Err(_) => Err(CommandError::Format),
    }
}

/// The report on a byte count, given the texts of its three scaled figures.
pub fn report_line(
    bytes: u64,
    kilobytes: &str,
    megabytes: &str,
    gigabytes: &str,
) -> (line: String)
    ensures
        line@ == spec_report_line(bytes, kilobytes@, megabytes@, gigabytes@),
{
    let mut line = String::from_str("Sizes { bytes: ");
    push_decimal(&mut line, bytes);
    line.append(" bytes, kilobytes: ");
    line.append(kilobytes);
    line.append(" kilobytes, megabytes: ");
    line.append(megabytes);
    line.append(" megabytes, gigabytes: ");
    line.append(gigabytes);
    line.append(" gigabytes }");
    line
}

} // verus!
