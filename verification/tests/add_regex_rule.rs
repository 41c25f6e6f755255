use presence_bot::commands::add_regex_rule::{
    parse_punishment, plan_regex_rule, punishment_readable, rule_stored_reply, try_parse_punishment,
    try_plan_regex_rule,
};
use presence_bot::scanners::punishments::{Ban, Kick, NoPunishment, Punishment, Timeout};

fn ban(duration: i32) -> Punishment {
    Punishment::Ban(Ban { reason: "Ban via punishment of rule $RULE".to_string(), duration })
}

fn mute(duration: i32) -> Punishment {
    Punishment::Timeout(Timeout { reason: "Mute via punishment of rule $RULE".to_string(), duration })
}

#[test]
fn punishment_kinds() {
    assert_eq!(parse_punishment("ban 1d"), ban(86400));
    assert_eq!(parse_punishment("mute 10m"), mute(600));
    assert_eq!(
        parse_punishment("kick"),
        Punishment::Kick(Kick { reason: "Kick via punishment of rule $RULE".to_string() })
    );
    assert_eq!(parse_punishment("nothing"), Punishment::No(NoPunishment {}));
}

#[test]
fn punishment_keyword_anywhere() {
    assert_eq!(parse_punishment("ban"), ban(0));
    assert_eq!(parse_punishment("unbanned"), ban(0));
    assert_eq!(parse_punishment("kick then ban 1h"), ban(3600));
    assert_eq!(parse_punishment("mute"), mute(0));
}

#[test]
fn punishment_duration_between_keywords() {
    assert_eq!(parse_punishment("ban 1hban 2h"), ban(3600));
    assert_eq!(try_parse_punishment("ban 1d ban 2d"), None);
    assert!(!punishment_readable("mute 1h mute"));
}

#[test]
fn punishment_duration_truncated_to_i32() {
    assert_eq!(parse_punishment("ban 100000w"), ban(350457856));
}

#[test]
fn punishment_unreadable() {
    assert_eq!(try_parse_punishment("ban forever"), None);
    assert_eq!(try_parse_punishment("mute 5x"), None);
    assert_eq!(try_parse_punishment("kick 5x"), Some(Punishment::Kick(Kick {
        reason: "Kick via punishment of rule $RULE".to_string()
    })));
}

#[test]
fn plan_rule_missing_options() {
    let long = "Your inputs were wrong, please recheck them, no clue how you would ever see this, this would only happen if you REALLY messed something, and discord should make this impostable.";
    assert_eq!(plan_regex_rule(None, Some("ban"), None, None), Err(long.to_string()));
    assert_eq!(
        plan_regex_rule(Some("a+"), None, Some(true), None),
        Err("Punishment is required".to_string())
    );
}

#[test]
fn plan_rule_builds_pattern() {
    let (pattern, punishment) = plan_regex_rule(Some("a+"), Some("kick"), None, Some(true)).unwrap();
    assert_eq!(pattern.regex, "a+");
    assert!(!pattern.case_insensitive);
    assert!(pattern.multiline);
    assert!(matches!(punishment, Punishment::Kick(_)));
    assert_eq!(try_plan_regex_rule(Some("a+"), Some("ban x"), None, None), None);
    assert!(try_plan_regex_rule(None, Some("ban x"), None, None).is_some());
}

#[test]
fn stored_replies() {
    assert_eq!(rule_stored_reply(true), "Successfully added regex rule");
    assert_eq!(rule_stored_reply(false), "Failed to add regex rule");
}
