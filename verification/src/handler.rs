//! The bot's decisions on the events it receives.

use vstd::prelude::*;
use crate::utils::text::str_eq;

verus! {

/// The commands the bot answers.
#[derive(Debug, Clone, Copy, PartialEq, Eq)]
pub enum BotCommand {
    AddRegexRule,
    Setup,
    NotImplemented,
}

/// The command that a slash command's name asks for.
pub fn command_for(name: &str) -> (res: BotCommand)
    ensures
        name@ == "addregexrule"@ ==> res == BotCommand::AddRegexRule,
        name@ == "setup"@ ==> res == BotCommand::Setup,
        name@ != "addregexrule"@ && name@ != "setup"@ ==> res == BotCommand::NotImplemented,
{
    proof {
        reveal_strlit("addregexrule");
        reveal_strlit("setup");
        assert("addregexrule"@.len() != "setup"@.len());
    }
    if str_eq(name, "addregexrule") {
        BotCommand::AddRegexRule
    } else if str_eq(name, "setup") {
        BotCommand::Setup
    } else {
        BotCommand::NotImplemented
    }
}

/// The answer to a command the bot does not know.
pub fn not_implemented_reply() -> (res: String)
    ensures
        res@ == "not implemented :("@,
{
    "not implemented :(".to_string()
}

} // verus!
