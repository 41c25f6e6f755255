//! The message sent to the author of a blocked message.

use vstd::prelude::*;

verus! {

pub open spec fn blocked_description_text(content: Seq<char>) -> Seq<char> {
    "Your message was detected to violate server rules! If you think this is error please contact server staff. \nYou sent the message:\n```"@
        + content + "```"@
}

/// The body of the warning: the message that was blocked, quoted.
pub fn blocked_message_description(content: &str) -> (res: String)
    ensures
        res@ == blocked_description_text(content@),
        res@ == "Your message was detected to violate server rules! If you think this is error please contact server staff. \nYou sent the message:\n```"@
            + content@ + "```"@,
{
    let mut t = "Your message was detected to violate server rules! If you think this is error please contact server staff. \nYou sent the message:\n```".to_string();
    t.append(content);
    t.append("```");
    t
}

/// The footer of the warning: the rule that blocked the message.
pub fn blocked_message_footer(rule: &str) -> (res: String)
    ensures
        res@ == "Rule: "@ + rule@,
{
    let mut t = "Rule: ".to_string();
    t.append(rule);
    t
}

} // verus!
