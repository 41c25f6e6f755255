//! The decisions of the command that lists a server's rules, and the text
//! it shows for each rule.

use vstd::prelude::*;
use crate::mongo::scanner::{Scanner, ScannerType};
use crate::scanners::punishments::Punishment;
use crate::utils::text::{bool_str, bool_text, hex_of_id, hex_text, i64_text, signed_decimal_text};

verus! {

/// The rules shown on one page.
pub const LIST_PAGE_SIZE: i32 = 10;

/// The page to show: the one asked for (the first where none is), but no
/// later than the last page; or the answer to a member who may not manage
/// the server.
pub open spec fn list_page_of(can_manage_guild: bool, requested: Option<i64>, page_count: i32) -> Result<i64, Seq<char>> {
    if !can_manage_guild {
        Err("You need to be an administrator to use this command"@)
    } else {
        let page = match requested {
            Some(p) => p,
            None => 1,
        };
        Ok(if page > page_count { page_count as i64 } else { page })
    }
}

/// Decides which page of rules to show.
pub fn plan_list(can_manage_guild: bool, requested: Option<i64>, page_count: i32) -> (res: Result<i64, String>)
    ensures
        match (res, list_page_of(can_manage_guild, requested, page_count)) {
            (Ok(p), Ok(q)) => p == q,
            (Err(m), Err(n)) => m@ == n,
            _ => false,
        },
        !can_manage_guild ==> (res matches Err(m) && m@
            == "You need to be an administrator to use this command"@),
        can_manage_guild ==> (res matches Ok(p) && p <= page_count as i64 && (requested is None
            && 1 <= page_count ==> p == 1) && (requested is None && 1 > page_count ==> p
            == page_count as i64) && (requested is Some && requested->0 <= page_count ==> p
            == requested->0) && (requested is Some && requested->0 > page_count ==> p
            == page_count as i64)),
{
    if !can_manage_guild {
        return Err("You need to be an administrator to use this command".to_string());
    }
    let mut page: i64 = 1;
    if let Some(p) = requested {
        page = p;
    }
    if page > page_count as i64 {
        page = page_count as i64;
    }
    Ok(page)
}

/// The text that shows a rule's test.
pub open spec fn scanner_text(s: ScannerType) -> Seq<char> {
    match s {
        ScannerType::Pattern(p) => "Pattern: "@ + p.regex@ + "\nCase Insensitive: "@ + bool_text(
            p.case_insensitive,
        ) + "\nMultiline: "@ + bool_text(p.multiline),
        ScannerType::Word(w) => "Word: "@ + w.word@ + "\nCase Insensitive: "@ + bool_text(
            w.case_insensitive,
        ),
    }
}

/// The text that shows a rule's punishment.
pub open spec fn punishment_text(p: Punishment) -> Seq<char> {
    match p {
        Punishment::Ban(b) => "Ban: "@ + b.reason@ + "\nDuration: "@ + signed_decimal_text(
            b.duration as int,
        ),
        Punishment::Kick(k) => "Kick: "@ + k.reason@,
        Punishment::Timeout(t) => "Timeout: "@ + t.reason@ + "\nDuration: "@ + signed_decimal_text(
            t.duration as int,
        ),
        Punishment::No(_) => "No punishment"@,
    }
}

pub fn describe_scanner(s: &ScannerType) -> (res: String)
    ensures
        res@ == scanner_text(*s),
        match *s {
            ScannerType::Pattern(p) => res@ == "Pattern: "@ + p.regex@ + "\nCase Insensitive: "@ + (
            if p.case_insensitive {
                "true"@
            } else {
                "false"@
            }) + "\nMultiline: "@ + (if p.multiline {
                "true"@
            } else {
                "false"@
            }),
            ScannerType::Word(w) => res@ == "Word: "@ + w.word@ + "\nCase Insensitive: "@ + (
            if w.case_insensitive {
                "true"@
            } else {
                "false"@
            }),
        },
{
    match s {
        ScannerType::Pattern(p) => {
            let mut t = "Pattern: ".to_string();
            t.append(p.regex.as_str());
            t.append("\nCase Insensitive: ");
            t.append(bool_str(p.case_insensitive));
            t.append("\nMultiline: ");
            t.append(bool_str(p.multiline));
            t
        },
        ScannerType::Word(w) => {
            let mut t = "Word: ".to_string();
            t.append(w.word.as_str());
            t.append("\nCase Insensitive: ");
            t.append(bool_str(w.case_insensitive));
            t
        },
    }
}

pub fn describe_punishment(p: &Punishment) -> (res: String)
    ensures
        res@ == punishment_text(*p),
        match *p {
            Punishment::Ban(b) => res@ == "Ban: "@ + b.reason@ + "\nDuration: "@
                + signed_decimal_text(b.duration as int),
            Punishment::Kick(k) => res@ == "Kick: "@ + k.reason@,
            Punishment::Timeout(t) => res@ == "Timeout: "@ + t.reason@ + "\nDuration: "@
                + signed_decimal_text(t.duration as int),
            Punishment::No(_) => res@ == "No punishment"@,
        },
{
    match p {
        Punishment::Ban(b) => {
            let mut t = "Ban: ".to_string();
            t.append(b.reason.as_str());
            t.append("\nDuration: ");
            t.append(i64_text(b.duration as i64).as_str());
            t
        },
        Punishment::Kick(k) => {
            let mut t = "Kick: ".to_string();
            t.append(k.reason.as_str());
            t
        },
        Punishment::Timeout(x) => {
            let mut t = "Timeout: ".to_string();
            t.append(x.reason.as_str());
            t.append("\nDuration: ");
            t.append(i64_text(x.duration as i64).as_str());
            t
        },
        Punishment::No(_) => "No punishment".to_string(),
    }
}

/// The listing of one rule: its id and test, its punishment, and `false`
/// (shown on a line of its own).
pub fn filter_field(f: &Scanner) -> (res: (String, String, bool))
    ensures
        res.0@ == hex_text(f._id@) + ": "@ + scanner_text(f.scanner_backend),
        res.1@ == punishment_text(f.punishment),
        !res.2,
{
    let mut name = hex_of_id(&f._id);
    name.append(": ");
    name.append(describe_scanner(&f.scanner_backend).as_str());
    (name, describe_punishment(&f.punishment), false)
}

/// The footer of a page of rules.
pub fn page_footer(page: i64, page_count: i32) -> (res: String)
    ensures
        res@ == "Page "@ + signed_decimal_text(page as int) + "/"@ + signed_decimal_text(
            page_count as int,
        ),
{
    let mut t = "Page ".to_string();
    t.append(i64_text(page).as_str());
    t.append("/");
    t.append(i64_text(page_count as i64).as_str());
    t
}

} // verus!
