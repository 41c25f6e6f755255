use presence_bot::commands::list::{
    describe_punishment, describe_scanner, filter_field, page_footer, plan_list, LIST_PAGE_SIZE,
};
use presence_bot::commands::set_slowmode::{plan_slowmode, slowmode_seconds};
use presence_bot::commands::setup::{set_log_channel, setup_reply};
use presence_bot::handler::{command_for, not_implemented_reply, BotCommand};
use presence_bot::messages::block::{blocked_message_description, blocked_message_footer};
use presence_bot::mongo::scanner::{Scanner, ScannerType};
use presence_bot::mongo::servers_settings::ServerSettings;
use presence_bot::scanners::punishments::{Ban, Kick, NoPunishment, Punishment, Timeout};
use presence_bot::scanners::regex::Pattern;
use presence_bot::scanners::word::Word;
use presence_bot::utils::send_log::{
    block_log_description, block_log_footer, log_channel_target, new_filter_log_description,
};
use presence_bot::utils::text::{hex_of_id, i64_text, u64_text};

#[test]
fn list_page_choice() {
    assert_eq!(LIST_PAGE_SIZE, 10);
    assert_eq!(plan_list(true, None, 3), Ok(1));
    assert_eq!(plan_list(true, Some(2), 3), Ok(2));
    assert_eq!(plan_list(true, Some(9), 3), Ok(3));
    assert_eq!(plan_list(true, Some(-4), 3), Ok(-4));
    assert_eq!(
        plan_list(false, Some(1), 3),
        Err("You need to be an administrator to use this command".to_string())
    );
}

#[test]
fn list_texts() {
    let p = ScannerType::Pattern(Pattern::new("a+", false, true));
    assert_eq!(describe_scanner(&p), "Pattern: a+\nCase Insensitive: true\nMultiline: false");
    let w = ScannerType::Word(Word::new("bad", true, false));
    assert_eq!(describe_scanner(&w), "Word: bad\nCase Insensitive: true");
    assert_eq!(
        describe_punishment(&Punishment::Ban(Ban { reason: "r".to_string(), duration: -12 })),
        "Ban: r\nDuration: -12"
    );
    assert_eq!(describe_punishment(&Punishment::Kick(Kick { reason: "k".to_string() })), "Kick: k");
    assert_eq!(
        describe_punishment(&Punishment::Timeout(Timeout { reason: "t".to_string(), duration: 600 })),
        "Timeout: t\nDuration: 600"
    );
    assert_eq!(describe_punishment(&Punishment::No(NoPunishment {})), "No punishment");
    assert_eq!(page_footer(2, 5), "Page 2/5");
}

#[test]
fn list_field_uses_hex_id() {
    let s = Scanner {
        _id: [0x65, 0x0f, 0, 1, 2, 3, 4, 5, 6, 7, 0xab, 0xff],
        discord_id: "1".to_string(),
        scanner_backend: ScannerType::Word(Word::new("x", false, false)),
        punishment: Punishment::No(NoPunishment {}),
    };
    let (name, value, inline) = filter_field(&s);
    assert_eq!(name, "650f0001020304050607abff: Word: x\nCase Insensitive: false");
    assert_eq!(value, "No punishment");
    assert!(!inline);
}

#[test]
fn numbers_in_text() {
    assert_eq!(u64_text(0), "0");
    assert_eq!(u64_text(u64::MAX), u64::MAX.to_string());
    assert_eq!(i64_text(i64::MIN), i64::MIN.to_string());
    assert_eq!(i64_text(-7), "-7");
    assert_eq!(hex_of_id(&[0; 12]), "000000000000000000000000");
}

#[test]
fn slowmode_plans() {
    assert_eq!(slowmode_seconds("30"), 30);
    assert_eq!(slowmode_seconds("100000"), 65535);
    assert_eq!(
        plan_slowmode(true, Some("30")),
        (Some(30), "Successfully set slowmode to 30 seconds".to_string())
    );
    assert_eq!(
        plan_slowmode(true, Some("70000")),
        (Some(65535), "Successfully set slowmode to 65535 seconds".to_string())
    );
    assert_eq!(plan_slowmode(true, None), (None, "Hi".to_string()));
    assert_eq!(
        plan_slowmode(false, Some("x")),
        (None, "You need to be manager of channels to use this command".to_string())
    );
}

#[test]
fn setup_sets_channel() {
    let mut s = ServerSettings { _id: [1; 12], discord_id: "5".to_string(), log_channel: "".to_string() };
    set_log_channel(&mut s, 1234567890123);
    assert_eq!(s.log_channel, "1234567890123");
    assert_eq!(s.discord_id, "5");
    assert_eq!(setup_reply(true), "Successfully set log channel");
    assert_eq!(setup_reply(false), "Failed to set log channel");
}

#[test]
fn command_names() {
    assert_eq!(command_for("addregexrule"), BotCommand::AddRegexRule);
    assert_eq!(command_for("setup"), BotCommand::Setup);
    assert_eq!(command_for("ping"), BotCommand::NotImplemented);
    assert_eq!(not_implemented_reply(), "not implemented :(");
}

#[test]
fn blocked_message_texts() {
    assert_eq!(
        blocked_message_description("hi"),
        "Your message was detected to violate server rules! If you think this is error please contact server staff. \nYou sent the message:\n```hi```"
    );
    assert_eq!(blocked_message_footer("abc"), "Rule: abc");
}

#[test]
fn log_texts() {
    assert_eq!(block_log_description("bob", "hey"), "User: bob \n Message: ```hey```");
    assert_eq!(block_log_footer("f"), "Filter: f");
    assert_eq!(new_filter_log_description("f", "Pattern"), "Filter: f\n Type: Pattern");
    assert_eq!(log_channel_target(""), None);
    assert_eq!(log_channel_target("987"), Some(987));
}
