//! The command line, and the texts that the program prints before its interface opens.
use vstd::prelude::*;
use vstd::string::*;

use crate::text::{
    char_is_space, chars_of, decimal, is_space, joined, joined3, lowercase, number, to_lowercase,
};

verus! {

/// What the command line says.
#[derive(Debug, PartialEq, Eq)]
pub struct Cli {
    pub subcommand: Option<Commands>,
}

/// What the program is to do in place of opening its interface.
#[derive(Debug, PartialEq, Eq)]
pub enum Commands {
    /// Print the version and the license.
    Version,
    /// Make a key for this device.
    Keygen(KeygenArgs),
}

/// Where a key is to be written.
#[derive(Debug, PartialEq, Eq)]
pub struct KeygenArgs {
    pub output: String,
}

/// The license.
pub open spec fn license_text() -> Seq<char> {
    "todoers, Copyright (C) 2026 Analetta \"Annie\" Ehler\n\ntodoers comes with ABSOLUTELY NO WARRANTY. This is free\nsoftware, and you are welcome to redistribute it under\ncertain conditions."@
}

/// The license.
pub fn license() -> (r: &'static str)
    ensures
        r@ == license_text(),
{
    "todoers, Copyright (C) 2026 Analetta \"Annie\" Ehler\n\ntodoers comes with ABSOLUTELY NO WARRANTY. This is free\nsoftware, and you are welcome to redistribute it under\ncertain conditions."
}

/// The version of a build: its number, what the repository says of it, and its day.
pub open spec fn build_text(version: Seq<char>, describe: Seq<char>, day: Seq<char>) -> Seq<char> {
    version + "-"@ + describe + " ("@ + day + ")"@
}

/// The version of a build.
pub fn version_message(version: &str, describe: &str, day: &str) -> (r: String)
    ensures
        r@ == build_text(version@, describe@, day@),
{
    let mut s = joined3(version, "-", describe);
    s.append(" (");
    s.append(day);
    s.append(")");
    proof {
        assert(s@ =~= build_text(version@, describe@, day@));
    }
    s
}

/// What `version` prints.
pub open spec fn version_text(
    message: Seq<char>,
    author: Seq<char>,
    config_dir: Seq<char>,
    data_dir: Seq<char>,
) -> Seq<char> {
    message + "\n\nAuthors: "@ + author + "\n\nConfig directory: "@ + config_dir
        + "\nData directory: "@ + data_dir + "\n\n"@ + license_text()
}

/// What `version` prints.
pub fn version(message: &str, author: &str, config_dir: &str, data_dir: &str) -> (r: String)
    ensures
        r@ == version_text(message@, author@, config_dir@, data_dir@),
{
    let mut s = joined3(message, "\n\nAuthors: ", author);
    s.append("\n\nConfig directory: ");
    s.append(config_dir);
    s.append("\nData directory: ");
    s.append(data_dir);
    s.append("\n\n");
    s.append(license());
    proof {
        assert(s@ =~= version_text(message@, author@, config_dir@, data_dir@));
    }
    s
}

/// What `keygen` prints, once the key was written.
pub fn keygen_message(output: &str, public_key: &str) -> (r: String)
    ensures
        r@ == "Device vault key generated and saved to "@ + output@ + ".\nPublic key:\n\n"@
            + public_key@
            + "\n\nSave this public key in your configuration as:\n\n    [device_unlock]\n    enabled = true\n    recipient = \"<your-public-key>\"\n\n"@,
{
    let mut s = joined3(
        "Device vault key generated and saved to ",
        output,
        ".\nPublic key:\n\n",
    );
    s.append(public_key);
    s.append(
        "\n\nSave this public key in your configuration as:\n\n    [device_unlock]\n    enabled = true\n    recipient = \"<your-public-key>\"\n\n",
    );
    s
}

/// The environment variable that sets the level of the log.
pub fn log_env(project: &str) -> (r: String)
    ensures
        r@ == project@ + "_LOG_LEVEL"@,
{
    joined(project, "_LOG_LEVEL")
}

/// The name of the log.
pub fn log_file(package: &str) -> (r: String)
    ensures
        r@ == package@ + ".log"@,
{
    joined(package, ".log")
}

// ── The recovery key ────────────────────────────────────────────────────────

/// How often the recovery key is asked for.
pub const MAX_ATTEMPTS: u32 = 5;

/// A text without its spaces and dashes.
pub open spec fn without_gaps(s: Seq<char>) -> Seq<char>
    decreases s.len(),
{
    if s.len() == 0 {
        s
    } else if is_space(s.last()) || s.last() == '-' {
        without_gaps(s.drop_last())
    } else {
        without_gaps(s.drop_last()).push(s.last())
    }
}

/// A recovery key as it counts: dashes, spaces and case are ignored.
pub fn recovery_text(typed: &str) -> (r: String)
    ensures
        r@ == lowercase(without_gaps(typed@)),
{
    let v = chars_of(typed);
    let mut kept = String::new();
    let mut i: usize = 0;
    proof {
        assert(typed@.take(0) =~= Seq::<char>::empty());
        assert(kept@ =~= Seq::<char>::empty());
    }
    while i < v.len()
        invariant
            i <= v@.len(),
            v@ == typed@,
            kept@ == without_gaps(typed@.take(i as int)),
        decreases v@.len() - i,
    {
        proof {
            assert(typed@.take(i + 1).drop_last() =~= typed@.take(i as int));
            assert(typed@.take(i + 1).last() == typed@[i as int]);
        }
        if !char_is_space(v[i]) && v[i] != '-' {
            kept.push(v[i]);
        }
        i = i + 1;
    }
    proof {
        assert(typed@.take(typed@.len() as int) =~= typed@);
    }
    to_lowercase(kept.as_str())
}

/// What a recovery key that was typed is.
#[derive(Clone, Copy, Debug, PartialEq, Eq, Structural)]
pub enum Typed {
    /// Nothing was typed.
    Nothing,
    /// It opens nothing.
    Wrong,
    /// It opens the database.
    Right,
}

/// What follows on a recovery key that was typed.
#[derive(Clone, Copy, Debug, PartialEq, Eq, Structural)]
pub enum Recovery {
    /// It is asked for once more.
    Again(u32),
    /// The database is open.
    Open,
    /// Nothing was typed, and the program ends.
    NothingTyped,
    /// It was asked for often enough, and the program ends.
    GaveUp,
}

/// What follows on a recovery key that was typed at an attempt, counted from one.
pub fn recovery_step(attempt: u32, typed: Typed) -> (r: Recovery)
    requires
        1 <= attempt <= MAX_ATTEMPTS,
    ensures
        r == (match typed {
            Typed::Nothing => Recovery::NothingTyped,
            Typed::Right => Recovery::Open,
            Typed::Wrong => if attempt < MAX_ATTEMPTS {
                Recovery::Again((attempt + 1) as u32)
            } else {
                Recovery::GaveUp
            },
        }),
{
    match typed {
        Typed::Nothing => Recovery::NothingTyped,
        Typed::Right => Recovery::Open,
        Typed::Wrong => {
            if attempt < MAX_ATTEMPTS {
                Recovery::Again(attempt + 1)
            } else {
                Recovery::GaveUp
            }
        },
    }
}

/// What is said of a recovery key that was typed differently the second time.
pub fn mismatch_message(attempt: u32) -> (r: &'static str)
    ensures
        r@ == (if attempt < MAX_ATTEMPTS {
            "Keys don't match, try again."@
        } else {
            "Out of attempts, giving up."@
        }),
{
    if attempt < MAX_ATTEMPTS {
        "Keys don't match, try again."
    } else {
        "Out of attempts, giving up."
    }
}

/// What is said of a recovery key that opens nothing.
pub fn wrong_key_message(attempt: u32) -> (r: String)
    ensures
        r@ == "That recovery key did not work (attempt "@ + decimal(attempt as nat) + " of "@
            + decimal(5) + "). Try again."@,
{
    let a = number(attempt as u64);
    let m = number(5);
    let mut s = joined3("That recovery key did not work (attempt ", a.as_str(), " of ");
    s.append(m.as_str());
    s.append("). Try again.");
    s
}

} // verus!
