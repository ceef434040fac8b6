use vstd::prelude::*;

use crate::engine::{SanitizationOutcome, BLOCK_SIZE};
use crate::volume::SanitizeError;

verus! {

/// The decimal digit character of `d < 10`.
pub open spec fn digit_char(d: nat) -> char {
    if d == 0 { '0' }
    else if d == 1 { '1' }
    else if d == 2 { '2' }
    else if d == 3 { '3' }
    else if d == 4 { '4' }
    else if d == 5 { '5' }
    else if d == 6 { '6' }
    else if d == 7 { '7' }
    else if d == 8 { '8' }
    else { '9' }
}

/// The decimal notation of `n`, without leading zeros.
pub open spec fn decimal(n: nat) -> Seq<char>
    decreases n,
{
    if n < 10 {
        seq![digit_char(n)]
    } else {
        decimal(n / 10).push(digit_char(n % 10))
    }
}

fn digit_text(d: u64) -> (s: &'static str)
    requires
        d < 10,
    ensures
        s@ == seq![digit_char(d as nat)],
{
    if d == 0 {
        proof { reveal_strlit("0"); }
        "0"
    } else if d == 1 {
        proof { reveal_strlit("1"); }
        "1"
    } else if d == 2 {
        proof { reveal_strlit("2"); }
        "2"
    } else if d == 3 {
        proof { reveal_strlit("3"); }
        "3"
    } else if d == 4 {
        proof { reveal_strlit("4"); }
        "4"
    } else if d == 5 {
        proof { reveal_strlit("5"); }
        "5"
    } else if d == 6 {
        proof { reveal_strlit("6"); }
        "6"
    } else if d == 7 {
        proof { reveal_strlit("7"); }
        "7"
    } else if d == 8 {
        proof { reveal_strlit("8"); }
        "8"
    } else {
        proof { reveal_strlit("9"); }
        "9"
    }
}

/// The decimal notation of `n`.
pub fn decimal_text(n: u64) -> (s: String)
    ensures
        s@ == decimal(n as nat),
    decreases n,
{
    if n < 10 {
        String::from_str(digit_text(n))
    } else {
        let mut s = decimal_text(n / 10);
        s.append(digit_text(n % 10));
        s
    }
}

/// The user-facing summary of a completed overwrite: target, method, and
/// mebibytes written, with the limit of a scratch-file overwrite made plain.
pub open spec fn summary_of(identifier: Seq<char>, passes: nat, mebibytes: nat) -> Seq<char> {
    "Sanitized "@ + identifier + " with a "@ + decimal(passes)
        + "-pass overwrite (zeros, ones, random): "@ + decimal(mebibytes)
        + " MB written to a scratch file on the volume; data deleted earlier elsewhere on the volume is not guaranteed to be erased"@
}

impl SanitizationOutcome {
    /// The summary reported to the user.
    pub fn summary(&self) -> (s: String)
        ensures
            s@ == summary_of(self.identifier@, self.passes as nat, (self.bytes_written / BLOCK_SIZE) as nat),
    {
        let mut s = String::from_str("Sanitized ");
        s.append(self.identifier.as_str());
        s.append(" with a ");
        s.append(decimal_text(self.passes).as_str());
        s.append("-pass overwrite (zeros, ones, random): ");
        s.append(decimal_text(self.bytes_written / BLOCK_SIZE).as_str());
        s.append(" MB written to a scratch file on the volume; data deleted earlier elsewhere on the volume is not guaranteed to be erased");
        s
    }
}

/// The human-readable message of each failure.
pub open spec fn message_of(e: SanitizeError) -> Seq<char> {
    match e {
        SanitizeError::EnumerationFailure => "Failed to enumerate volumes"@,
        SanitizeError::NotFound => "Drive not found"@,
        SanitizeError::SystemVolumeProtected => "Cannot sanitize system drive"@,
        SanitizeError::ConfirmationRequired => "Confirmation required to proceed"@,
        SanitizeError::IoFailure(detail) => "I/O failure during overwrite: "@ + detail@,
    }
}

impl SanitizeError {
    /// The message that reports this failure to the user.
    pub fn message(&self) -> (s: String)
        ensures
            s@ == message_of(*self),
    {
        match self {
            SanitizeError::EnumerationFailure => String::from_str("Failed to enumerate volumes"),
            SanitizeError::NotFound => String::from_str("Drive not found"),
            SanitizeError::SystemVolumeProtected => String::from_str("Cannot sanitize system drive"),
            SanitizeError::ConfirmationRequired => String::from_str("Confirmation required to proceed"),
            SanitizeError::IoFailure(detail) => {
                let mut s = String::from_str("I/O failure during overwrite: ");
                s.append(detail.as_str());
                s
            },
        }
    }
}

/// The greeting shown for `name`, or the refusal of an empty name.
pub open spec fn greeting_of(name: Seq<char>) -> Result<Seq<char>, Seq<char>> {
    if name.len() == 0 {
        Err("Name cannot be empty"@)
    } else {
        Ok("Hello, "@ + name + "! Welcome to Data Sanitizer Pro."@)
    }
}

/// Greets the user by name; an empty name is refused.
pub fn greet(name: &str) -> (r: Result<String, String>)
    ensures
        match (r, greeting_of(name@)) {
            (Ok(s), Ok(g)) => s@ == g,
            (Err(s), Err(g)) => s@ == g,
            _ => false,
        },
{
    if name.is_empty() {
        Err(String::from_str("Name cannot be empty"))
    } else {
        let mut s = String::from_str("Hello, ");
        s.append(name);
        s.append("! Welcome to Data Sanitizer Pro.");
        Ok(s)
    }
}

} // verus!
