//! The decisions of the command that adds a regular-expression rule: reading
//! the punishment text and checking the options.

use vstd::prelude::*;
use crate::scanners::punishments::{Ban, Kick, NoPunishment, Punishment, Timeout};
use crate::scanners::regex::Pattern;
use crate::utils::command_parser::{checked_time_length, convert_text_to_time_length, time_length};
use crate::utils::text::{
    chars_of, contains_chars, contains_seq, occurs_at, find_first_from, find_from, lemma_find_from,
};

verus! {

/// What `s.split(sep).nth(1)` gives for a non-empty `sep`: the text between the
/// first occurrence of `sep` and the next one after it (or the end).
pub open spec fn second_piece(s: Seq<char>, sep: Seq<char>) -> Option<Seq<char>> {
    match find_from(s, sep, 0) {
        None => None,
        Some(k) => {
            let start = k + sep.len();
            match find_from(s, sep, start) {
                Some(e) => Some(s.subrange(start, e)),
                None => Some(s.subrange(start, s.len() as int)),
            }
        },
    }
}

/// The duration text after a keyword: the second piece, or the empty text.
pub open spec fn duration_piece(s: Seq<char>, sep: Seq<char>) -> Seq<char> {
    match second_piece(s, sep) {
        Some(p) => p,
        None => Seq::empty(),
    }
}

/// Reading `text` as a punishment succeeds: where it names a ban or a mute,
/// the duration after the keyword is a duration text.
pub open spec fn punishment_defined(text: Seq<char>) -> bool {
    if contains_seq(text, "ban"@) {
        time_length(duration_piece(text, "ban "@)) is Some
    } else if contains_seq(text, "kick"@) {
        true
    } else if contains_seq(text, "mute"@) {
        time_length(duration_piece(text, "mute "@)) is Some
    } else {
        true
    }
}

/// `p` is the punishment that `text` names: the first of `ban`, `kick`, `mute`
/// that occurs anywhere in it decides; the duration of a ban or mute is the
/// duration text after `ban ` or `mute `, in seconds, truncated to `i32`.
pub open spec fn names_punishment(text: Seq<char>, p: Punishment) -> bool {
    if contains_seq(text, "ban"@) {
        &&& p matches Punishment::Ban(b)
        &&& b.reason@ == "Ban via punishment of rule $RULE"@
        &&& b.duration == time_length(duration_piece(text, "ban "@))->0 as i32
    } else if contains_seq(text, "kick"@) {
        &&& p matches Punishment::Kick(k)
        &&& k.reason@ == "Kick via punishment of rule $RULE"@
    } else if contains_seq(text, "mute"@) {
        &&& p matches Punishment::Timeout(t)
        &&& t.reason@ == "Mute via punishment of rule $RULE"@
        &&& t.duration == time_length(duration_piece(text, "mute "@))->0 as i32
    } else {
        p matches Punishment::No(_)
    }
}

proof fn lemma_punishment_durations(text: Seq<char>, sep: Seq<char>)
    ensures
        ({
            let x = time_length(duration_piece(text, sep))->0;
            x <= i32::MAX ==> (x as i32) as int == x as int
        }),
{
    let x = time_length(duration_piece(text, sep))->0;
    assert(x <= 0x7fff_ffff ==> (x as i32) as int == x as int) by (bit_vector);
}

/// What a punishment text names: a ban where `ban` occurs anywhere in it;
/// otherwise a kick where `kick` occurs; otherwise a timeout where `mute`
/// occurs; otherwise none; each with its fixed reason. A ban or a mute lasts
/// the seconds of the duration text after `ban ` or `mute `, kept exactly up
/// to the largest `i32` (and truncated to `i32` beyond it).
pub proof fn lemma_punishment_duration_law(text: Seq<char>, p: Punishment)
    requires
        names_punishment(text, p),
    ensures
        contains_seq(text, "ban"@) ==> (p matches Punishment::Ban(b) && b.duration == time_length(
            duration_piece(text, "ban "@),
        )->0 as i32 && (time_length(duration_piece(text, "ban "@))->0 <= i32::MAX ==> b.duration as int
            == time_length(duration_piece(text, "ban "@))->0 as int)),
        contains_seq(text, "ban"@) ==> (p matches Punishment::Ban(b) && b.reason@
            == "Ban via punishment of rule $RULE"@),
        !contains_seq(text, "ban"@) && contains_seq(text, "kick"@) ==> (p matches Punishment::Kick(k)
            && k.reason@ == "Kick via punishment of rule $RULE"@),
        !contains_seq(text, "ban"@) && !contains_seq(text, "kick"@) && contains_seq(text, "mute"@)
            ==> (p matches Punishment::Timeout(t) && t.reason@ == "Mute via punishment of rule $RULE"@),
        !contains_seq(text, "ban"@) && !contains_seq(text, "kick"@) && !contains_seq(text, "mute"@)
            ==> p matches Punishment::No(_),
        !contains_seq(text, "ban"@) && !contains_seq(text, "kick"@) && contains_seq(text, "mute"@)
            ==> (p matches Punishment::Timeout(t) && t.duration == time_length(
            duration_piece(text, "mute "@),
        )->0 as i32 && (time_length(duration_piece(text, "mute "@))->0 <= i32::MAX ==> t.duration as int
            == time_length(duration_piece(text, "mute "@))->0 as int)),
{
    lemma_punishment_durations(text, "ban "@);
    lemma_punishment_durations(text, "mute "@);
}

/// The text after the first `sep` in `text`, up to the next `sep` or the end;
/// the empty text where `sep` does not occur.
fn piece_after<'a>(text: &'a str, sep: &str) -> (res: &'a str)
    ensures
        res@ == duration_piece(text@, sep@),
{
    let chars = chars_of(text);
    let sep_chars = chars_of(sep);
    let n = chars.len();
    proof {
        lemma_find_from(chars@, sep_chars@, 0);
    }
    match find_first_from(&chars, &sep_chars, 0) {
        None => {
            proof {
                reveal_strlit("");
            }
            ""
        },
        Some(k) => {
            assert(occurs_at(chars@, sep_chars@, k as int));
            let start = k + sep_chars.len();
            proof {
                lemma_find_from(chars@, sep_chars@, start as int);
            }
            match find_first_from(&chars, &sep_chars, start) {
                Some(e) => text.substring_char(start, e),
                None => text.substring_char(start, n),
            }
        },
    }
}

/// Reads the punishment that the text of a rule command names.
pub fn parse_punishment(text: &str) -> (res: Punishment)
    requires
        punishment_defined(text@),
    ensures
        names_punishment(text@, res),
        contains_seq(text@, "ban"@) ==> (res matches Punishment::Ban(b) && b.reason@
            == "Ban via punishment of rule $RULE"@),
        !contains_seq(text@, "ban"@) && contains_seq(text@, "kick"@) ==> (res matches Punishment::Kick(
            k,
        ) && k.reason@ == "Kick via punishment of rule $RULE"@),
        !contains_seq(text@, "ban"@) && !contains_seq(text@, "kick"@) && contains_seq(text@, "mute"@)
            ==> (res matches Punishment::Timeout(t) && t.reason@ == "Mute via punishment of rule $RULE"@),
        !contains_seq(text@, "ban"@) && !contains_seq(text@, "kick"@) && !contains_seq(text@, "mute"@)
            ==> res matches Punishment::No(_),
        contains_seq(text@, "ban"@) ==> (res matches Punishment::Ban(b) && b.duration
            == time_length(duration_piece(text@, "ban "@))->0 as i32 && (time_length(
            duration_piece(text@, "ban "@),
        )->0 <= i32::MAX ==> b.duration as int == time_length(duration_piece(text@, "ban "@))->0 as int)),
        !contains_seq(text@, "ban"@) && !contains_seq(text@, "kick"@) && contains_seq(text@, "mute"@)
            ==> (res matches Punishment::Timeout(t) && t.duration == time_length(
            duration_piece(text@, "mute "@),
        )->0 as i32 && (time_length(duration_piece(text@, "mute "@))->0 <= i32::MAX ==> t.duration as int
            == time_length(duration_piece(text@, "mute "@))->0 as int)),
{
    proof {
        lemma_punishment_durations(text@, "ban "@);
        lemma_punishment_durations(text@, "mute "@);
    }
    if str_has(text, "ban") {
        let duration = convert_text_to_time_length(piece_after(text, "ban "));
        Punishment::Ban(Ban { reason: "Ban via punishment of rule $RULE".to_string(), duration: duration as i32 })
    } else if str_has(text, "kick") {
        Punishment::Kick(Kick { reason: "Kick via punishment of rule $RULE".to_string() })
    } else if str_has(text, "mute") {
        let duration = convert_text_to_time_length(piece_after(text, "mute "));
        Punishment::Timeout(Timeout { reason: "Mute via punishment of rule $RULE".to_string(), duration: duration as i32 })
    } else {
        Punishment::No(NoPunishment {})
    }
}

fn str_has(hay: &str, pat: &str) -> (res: bool)
    ensures
        res == contains_seq(hay@, pat@),
{
    contains_chars(&chars_of(hay), &chars_of(pat))
}

/// Whether `parse_punishment` can read `text`.
pub fn punishment_readable(text: &str) -> (res: bool)
    ensures
        res == punishment_defined(text@),
{
    if str_has(text, "ban") {
        checked_time_length(piece_after(text, "ban ")).is_some()
    } else if str_has(text, "kick") {
        true
    } else if str_has(text, "mute") {
        checked_time_length(piece_after(text, "mute ")).is_some()
    } else {
        true
    }
}

/// The punishment that `text` names, or `None` where its duration cannot be read.
pub fn try_parse_punishment(text: &str) -> (res: Option<Punishment>)
    ensures
        res is Some <==> punishment_defined(text@),
        res matches Some(p) ==> names_punishment(text@, p),
{
    if punishment_readable(text) {
        Some(parse_punishment(text))
    } else {
        None
    }
}

} // verus!

verus! {

/// The answer where the command lacks its pattern.
pub open spec fn wrong_input_reply() -> Seq<char> {
    "Your inputs were wrong, please recheck them, no clue how you would ever see this, this would only happen if you REALLY messed something, and discord should make this impostable."@
}

/// What the command builds from its options: the pattern with its flags
/// (each `false` where not given) and the punishment that the punishment text
/// names; or the answer to give where the pattern or the punishment is missing.
pub open spec fn plans_rule(
    regex: Option<Seq<char>>,
    punishment: Option<Seq<char>>,
    case_insensitive: Option<bool>,
    multiline: Option<bool>,
    res: Result<(Pattern, Punishment), String>,
) -> bool {
    match (regex, punishment) {
        (None, _) => res matches Err(m) && m@ == wrong_input_reply(),
        (Some(_), None) => res matches Err(m) && m@ == "Punishment is required"@,
        (Some(r), Some(p)) => {
            &&& res matches Ok((pattern, pun))
            &&& pattern.regex@ == r
            &&& pattern.case_insensitive == (case_insensitive matches Some(b) && b)
            &&& pattern.multiline == (multiline matches Some(b) && b)
            &&& names_punishment(p, pun)
        },
    }
}

/// The rule the command plans has the pattern text it was given and each
/// flag exactly as given, `false` where a flag is not given; it is planned
/// exactly when both the pattern and the punishment are given.
pub proof fn lemma_planned_rule_flags(
    regex: Option<Seq<char>>,
    punishment: Option<Seq<char>>,
    case_insensitive: Option<bool>,
    multiline: Option<bool>,
    res: Result<(Pattern, Punishment), String>,
)
    requires
        plans_rule(regex, punishment, case_insensitive, multiline, res),
    ensures
        res is Ok <==> regex is Some && punishment is Some,
        regex is None ==> (res matches Err(m) && m@ == "Your inputs were wrong, please recheck them, no clue how you would ever see this, this would only happen if you REALLY messed something, and discord should make this impostable."@),
        regex is Some && punishment is None ==> (res matches Err(m) && m@
            == "Punishment is required"@),
        match res {
            Ok((pattern, _)) => {
                &&& regex == Some(pattern.regex@)
                &&& pattern.multiline == (multiline == Some(true))
                &&& pattern.case_insensitive == (case_insensitive == Some(true))
                &&& multiline is None ==> !pattern.multiline
                &&& case_insensitive is None ==> !pattern.case_insensitive
            },
            Err(_) => true,
        },
{
}

/// The options can be read: where pattern and punishment are both given, the
/// punishment text can be read.
pub open spec fn rule_options_readable(regex: Option<Seq<char>>, punishment: Option<Seq<char>>) -> bool {
    match (regex, punishment) {
        (Some(_), Some(p)) => punishment_defined(p),
        _ => true,
    }
}

pub open spec fn view_opt(s: Option<&str>) -> Option<Seq<char>> {
    match s {
        Some(t) => Some(t@),
        None => None,
    }
}

/// Checks the options of the command and builds the rule they describe.
pub fn plan_regex_rule(
    regex: Option<&str>,
    punishment: Option<&str>,
    case_insensitive: Option<bool>,
    multiline: Option<bool>,
) -> (res: Result<(Pattern, Punishment), String>)
    requires
        rule_options_readable(view_opt(regex), view_opt(punishment)),
    ensures
        plans_rule(view_opt(regex), view_opt(punishment), case_insensitive, multiline, res),
        match res {
            Ok((pattern, _)) => {
                &&& regex matches Some(r) && pattern.regex@ == r@
                &&& pattern.multiline == (multiline == Some(true))
                &&& pattern.case_insensitive == (case_insensitive == Some(true))
            },
            Err(m) => {
                &&& regex is None ==> m@ == "Your inputs were wrong, please recheck them, no clue how you would ever see this, this would only happen if you REALLY messed something, and discord should make this impostable."@
                &&& regex is Some ==> punishment is None && m@ == "Punishment is required"@
            },
        },
{
    match regex {
        None => Err(
            "Your inputs were wrong, please recheck them, no clue how you would ever see this, this would only happen if you REALLY messed something, and discord should make this impostable.".to_string(),
        ),
        Some(r) => {
            let ci = match case_insensitive {
                Some(b) => b,
                None => false,
            };
            let ml = match multiline {
                Some(b) => b,
                None => false,
            };
            match punishment {
                None => Err("Punishment is required".to_string()),
                Some(p) => {
                    let pun = parse_punishment(p);
                    Ok((Pattern::new(r, ml, ci), pun))
                },
            }
        },
    }
}

/// As `plan_regex_rule`, or `None` where the punishment text cannot be read.
pub fn try_plan_regex_rule(
    regex: Option<&str>,
    punishment: Option<&str>,
    case_insensitive: Option<bool>,
    multiline: Option<bool>,
) -> (res: Option<Result<(Pattern, Punishment), String>>)
    ensures
        res is Some <==> rule_options_readable(view_opt(regex), view_opt(punishment)),
        res matches Some(r) ==> plans_rule(
            view_opt(regex),
            view_opt(punishment),
            case_insensitive,
            multiline,
            r,
        ),
{
    let readable = match (regex, punishment) {
        (Some(_), Some(p)) => punishment_readable(p),
        _ => true,
    };
    if readable {
        Some(plan_regex_rule(regex, punishment, case_insensitive, multiline))
    } else {
        None
    }
}

} // verus!

verus! {

/// The answer of the command once the database has stored the rule or not.
pub fn rule_stored_reply(stored: bool) -> (res: String)
    ensures
        stored ==> res@ == "Successfully added regex rule"@,
        !stored ==> res@ == "Failed to add regex rule"@,
{
    if stored {
        "Successfully added regex rule".to_string()
    } else {
        "Failed to add regex rule".to_string()
    }
}

} // verus!
