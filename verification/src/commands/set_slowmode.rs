//! The decisions of the command that sets a channel's slow mode.

use vstd::prelude::*;
use crate::utils::command_parser::{parse_u64, parse_u64_text};
use crate::utils::text::{decimal_text, u64_text};

verus! {

/// Seconds of slow mode for a requested number: at most `u16::MAX`.
pub open spec fn slowmode_of(n: u64) -> u16 {
    if n > u16::MAX {
        u16::MAX
    } else {
        n as u16
    }
}

/// What the command does: `Some(seconds)` of slow mode to set, or `None`;
/// and its answer.
pub open spec fn plans_slowmode(can_manage_channels: bool, seconds: Option<Seq<char>>, res: (
    Option<u16>,
    String,
)) -> bool {
    if !can_manage_channels {
        res.0 is None && res.1@ == "You need to be manager of channels to use this command"@
    } else {
        match seconds {
            Some(t) => {
                let s = slowmode_of(parse_u64(t)->0);
                &&& res.0 == Some(s)
                &&& res.1@ == "Successfully set slowmode to "@ + decimal_text(s as nat)
                    + " seconds"@
            },
            None => res.0 is None && res.1@ == "Hi"@,
        }
    }
}

/// The options can be read: a given number of seconds is a number.
pub open spec fn slowmode_readable(can_manage_channels: bool, seconds: Option<Seq<char>>) -> bool {
    can_manage_channels && seconds is Some ==> parse_u64(seconds->0) is Some
}

/// The number of seconds of slow mode that `text` asks for.
pub fn slowmode_seconds(text: &str) -> (res: u16)
    requires
        parse_u64(text@) is Some,
    ensures
        res == slowmode_of(parse_u64(text@)->0),
        parse_u64(text@)->0 <= 65535 ==> res as int == parse_u64(text@)->0 as int,
        parse_u64(text@)->0 > 65535 ==> res == 65535,
{
    let n = parse_u64_text(text).unwrap();
    if n > 65535 {
        65535
    } else {
        n as u16
    }
}

/// Decides what the command does for a member who may or may not manage
/// channels and the seconds option, where given.
pub fn plan_slowmode(can_manage_channels: bool, seconds: Option<&str>) -> (res: (Option<u16>, String))
    requires
        slowmode_readable(
            can_manage_channels,
            match seconds {
                Some(t) => Some(t@),
                None => None,
            },
        ),
    ensures
        plans_slowmode(
            can_manage_channels,
            match seconds {
                Some(t) => Some(t@),
                None => None,
            },
            res,
        ),
        !can_manage_channels ==> res.0 is None && res.1@
            == "You need to be manager of channels to use this command"@,
        can_manage_channels && seconds is None ==> res.0 is None && res.1@ == "Hi"@,
        can_manage_channels && seconds is Some ==> (res.0 matches Some(n) && (parse_u64(
            seconds->0@,
        )->0 <= 65535 ==> n as int == parse_u64(seconds->0@)->0 as int) && (parse_u64(seconds->0@)->0
            > 65535 ==> n == 65535) && res.1@ == "Successfully set slowmode to "@ + decimal_text(
            n as nat,
        ) + " seconds"@),
{
    if !can_manage_channels {
        return (None, "You need to be manager of channels to use this command".to_string());
    }
    match seconds {
        Some(t) => {
            let s = slowmode_seconds(t);
            let mut reply = "Successfully set slowmode to ".to_string();
            let number = u64_text(s as u64);
            reply.append(number.as_str());
            reply.append(" seconds");
            (Some(s), reply)
        },
        None => (None, "Hi".to_string()),
    }
}

} // verus!
