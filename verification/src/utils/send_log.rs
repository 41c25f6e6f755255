//! What the bot writes to a server's log channel, and where.

use vstd::prelude::*;
use crate::utils::command_parser::{parse_u64, parse_u64_text};

verus! {

/// The log channel's id, or `None` where the server has set none.
pub fn log_channel_target(log_channel: &str) -> (res: Option<u64>)
    requires
        log_channel@.len() > 0 ==> parse_u64(log_channel@) is Some,
    ensures
        log_channel@.len() == 0 ==> res is None,
        log_channel@.len() > 0 ==> res == parse_u64(log_channel@),
{
    if log_channel.unicode_len() == 0 {
        None
    } else {
        parse_u64_text(log_channel)
    }
}

/// The log entry for a blocked message.
pub fn block_log_description(user: &str, content: &str) -> (res: String)
    ensures
        res@ == "User: "@ + user@ + " \n Message: ```"@ + content@ + "```"@,
{
    let mut t = "User: ".to_string();
    t.append(user);
    t.append(" \n Message: ```");
    t.append(content);
    t.append("```");
    t
}

/// The footer of the log entry for a blocked message: the rule that blocked it.
pub fn block_log_footer(filter: &str) -> (res: String)
    ensures
        res@ == "Filter: "@ + filter@,
{
    let mut t = "Filter: ".to_string();
    t.append(filter);
    t
}

/// The log entry for a new rule.
pub fn new_filter_log_description(filter: &str, kind: &str) -> (res: String)
    ensures
        res@ == "Filter: "@ + filter@ + "\n Type: "@ + kind@,
{
    let mut t = "Filter: ".to_string();
    t.append(filter);
    t.append("\n Type: ");
    t.append(kind);
    t
}

} // verus!
