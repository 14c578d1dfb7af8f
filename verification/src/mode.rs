//! What the program is asked to do, as its arguments say.

use crate::text::{contains_text, occurs_in, same_text, texts};
use vstd::prelude::*;

verus! {

/// What the program is asked to do.
#[derive(Debug, Clone, Copy, PartialEq, Eq, Structural)]
pub enum ActionMode {
    /// Seal a secret under the policy that a configuration describes.
    Encrypt,
    /// Release a sealed secret.
    Decrypt,
    /// Show a summary of the program.
    Summary,
    /// Show how the program is used.
    Help,
}

/// Why no mode could be told from the arguments.
#[derive(Debug, Clone, Copy, PartialEq, Eq, Structural)]
pub enum CommandError {
    /// The arguments name neither encryption nor decryption.
    NoCommand,
}

impl CommandError {
    /// The text shown to the user for this error.
    pub open spec fn message_text(self) -> Seq<char> {
        match self {
            CommandError::NoCommand => "No command specified"@,
        }
    }

    /// Gives the text shown to the user for this error.
    pub fn message(&self) -> (text: &'static str)
        ensures
            text@ == self.message_text(),
    {
        match self {
            CommandError::NoCommand => "No command specified",
        }
    }
}

/// The mode that the arguments ask for, and the place among them of the
/// configuration to encrypt under, where the mode takes one. `args[0]` is
/// the name the program was called by. The first rule that applies decides:
///
/// 1. `--summary` as first argument asks for the summary;
/// 2. `--help` as first argument, or input from a terminal, asks for help;
/// 3. a program name that holds `encrypt`, with an argument after it,
///    encrypts under that argument;
/// 4. a program name that holds `decrypt` decrypts;
/// 5. `encrypt` as first argument, with an argument after it, encrypts under
///    that one; `decrypt` as first argument decrypts;
/// 6. anything else names no command.
pub open spec fn selected(args: Seq<Seq<char>>, on_terminal: bool) -> Result<
    (ActionMode, Option<usize>),
    CommandError,
>
    recommends
        args.len() > 0 || on_terminal,
{
    if args.len() > 1 && args[1] == "--summary"@ {
        Ok((ActionMode::Summary, None))
    } else if args.len() > 1 && args[1] == "--help"@ {
        Ok((ActionMode::Help, None))
    } else if on_terminal {
        Ok((ActionMode::Help, None))
    } else if occurs_in("encrypt"@, args[0]) && args.len() >= 2 {
        Ok((ActionMode::Encrypt, Some(1usize)))
    } else if occurs_in("decrypt"@, args[0]) {
        Ok((ActionMode::Decrypt, None))
    } else if args.len() > 1 && args[1] == "encrypt"@ && args.len() >= 3 {
        Ok((ActionMode::Encrypt, Some(2usize)))
    } else if args.len() > 1 && args[1] == "decrypt"@ {
        Ok((ActionMode::Decrypt, None))
    } else {
        Err(CommandError::NoCommand)
    }
}

/// Tells the mode that the arguments ask for and, for an encryption, which
/// of the arguments holds the configuration. `stdin_is_terminal` says
/// whether the program reads its input from a terminal.
pub fn get_mode_and_cfg(args: &[String], stdin_is_terminal: bool) -> (outcome: Result<
    (ActionMode, Option<usize>),
    CommandError,
>)
    requires
        args@.len() > 0 || stdin_is_terminal,
    ensures
        outcome == selected(texts(args@), stdin_is_terminal),
        outcome matches Ok((_, Some(place))) ==> place < args@.len(),
{
    if args.len() > 1 && same_text(args[1].as_str(), "--summary") {
        return Ok((ActionMode::Summary, None));
    }
    if args.len() > 1 && same_text(args[1].as_str(), "--help") {
        return Ok((ActionMode::Help, None));
    }
    if stdin_is_terminal {
        return Ok((ActionMode::Help, None));
    }
    if contains_text(args[0].as_str(), "encrypt") && args.len() >= 2 {
        Ok((ActionMode::Encrypt, Some(1)))
    } else if contains_text(args[0].as_str(), "decrypt") {
        Ok((ActionMode::Decrypt, None))
    } else if args.len() > 1 {
        if same_text(args[1].as_str(), "encrypt") && args.len() >= 3 {
            Ok((ActionMode::Encrypt, Some(2)))
        } else if same_text(args[1].as_str(), "decrypt") {
            Ok((ActionMode::Decrypt, None))
        } else {
            Err(CommandError::NoCommand)
        }
    } else {
        Err(CommandError::NoCommand)
    }
}

} // verus!
