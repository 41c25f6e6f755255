//! The decisions of the command that chooses a server's log channel.

use vstd::prelude::*;
use crate::mongo::servers_settings::ServerSettings;
use crate::utils::command_parser::{all_ascii_digits, decimal_value, is_ascii_digit, parse_u64};
use crate::utils::text::{decimal_text, u64_text};

verus! {

/// Makes the channel `channel_id` the server's log channel.
pub fn set_log_channel(settings: &mut ServerSettings, channel_id: u64)
    ensures
        final(settings)._id == old(settings)._id,
        final(settings).discord_id == old(settings).discord_id,
        final(settings).log_channel@ == decimal_text(channel_id as nat),
{
    settings.log_channel = u64_text(channel_id);
}

/// The answer of the command, by whether a channel was given.
pub fn setup_reply(channel_given: bool) -> (res: String)
    ensures
        channel_given ==> res@ == "Successfully set log channel"@,
        !channel_given ==> res@ == "Failed to set log channel"@,
{
    if channel_given {
        "Successfully set log channel".to_string()
    } else {
        "Failed to set log channel".to_string()
    }
}

} // verus!

verus! {

proof fn lemma_decimal_text_digits(n: nat)
    ensures
        decimal_text(n).len() > 0,
        all_ascii_digits(decimal_text(n)),
        decimal_value(decimal_text(n)) == n,
    decreases n,
{
    let d = n % 10;
    assert((0x30 + d) as char as u32 == 0x30 + d);
    if n < 10 {
        let s = decimal_text(n);
        assert(s.drop_last() =~= Seq::<char>::empty());
        assert(s.last() == (0x30 + d) as char);
        assert(decimal_value(s) == decimal_value(s.drop_last()) * 10 + ((s.last() as u32) - 0x30) as nat);
        assert(decimal_value(s.drop_last()) == 0);
    } else {
        lemma_decimal_text_digits(n / 10);
        let s = decimal_text(n);
        let p = decimal_text(n / 10);
        assert(s.drop_last() =~= p);
        assert(s.last() == (0x30 + d) as char);
        assert(n == (n / 10) * 10 + d);
        assert forall|i: int| 0 <= i < s.len() implies #[trigger] is_ascii_digit(s[i]) by {
            if i < p.len() {
                assert(s[i] == p[i]);
            }
        }
    }
}

/// The log channel that the setup command stores is the channel the log is
/// written to: reading back the stored channel text gives the channel's id.
pub proof fn lemma_log_channel_roundtrip(channel_id: u64)
    ensures
        decimal_text(channel_id as nat).len() > 0,
        parse_u64(decimal_text(channel_id as nat)) == Some(channel_id),
{
    lemma_decimal_text_digits(channel_id as nat);
    let s = decimal_text(channel_id as nat);
    assert(is_ascii_digit(s[0]));
}

} // verus!
