//! The names under which the bot caches a server's rules and settings.

use vstd::prelude::*;

verus! {

pub open spec fn scanners_key(discord_id: Seq<char>) -> Seq<char> {
    discord_id + "_scanners"@
}

pub open spec fn settings_key(discord_id: Seq<char>) -> Seq<char> {
    discord_id + "_settings"@
}

/// The cache entry of a server's rules.
pub fn scanners_cache_key(discord_id: &str) -> (res: String)
    ensures
        res@ == scanners_key(discord_id@),
        res@ == discord_id@ + "_scanners"@,
{
    let mut t = discord_id.to_string();
    t.append("_scanners");
    t
}

/// The cache entry of a server's settings.
pub fn settings_cache_key(discord_id: &str) -> (res: String)
    ensures
        res@ == settings_key(discord_id@),
        res@ == discord_id@ + "_settings"@,
{
    let mut t = discord_id.to_string();
    t.append("_settings");
    t
}

/// Each server has cache entries of its own, and the entry of a server's rules
/// is never the entry of any server's settings.
pub proof fn lemma_cache_keys_distinct(a: Seq<char>, b: Seq<char>)
    ensures
        scanners_key(a) == scanners_key(b) ==> a == b,
        settings_key(a) == settings_key(b) ==> a == b,
        scanners_key(a) != settings_key(b),
{
    reveal_strlit("_scanners");
    reveal_strlit("_settings");
    assert("_scanners"@.len() == 9 && "_settings"@.len() == 9);
    if scanners_key(a) == scanners_key(b) {
        assert(a =~= scanners_key(a).take(a.len() as int));
        assert(b =~= scanners_key(b).take(b.len() as int));
    }
    if settings_key(a) == settings_key(b) {
        assert(settings_key(a).len() == a.len() + 9);
        assert(settings_key(b).len() == b.len() + 9);
        assert(a =~= settings_key(a).take(a.len() as int));
        assert(b =~= settings_key(b).take(b.len() as int));
    }
    if scanners_key(a) == settings_key(b) {
        let n = scanners_key(a).len();
        assert(scanners_key(a)[n - 7] == "_scanners"@[2]);
        assert(settings_key(b)[n - 7] == "_settings"@[2]);
    }
}

} // verus!
