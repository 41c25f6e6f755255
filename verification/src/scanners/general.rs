//! What every scanner offers, and the Unicode clean-up that word rules use.

use vstd::prelude::*;

verus! {

/// A rule that looks at the text of a message.
pub trait ScannerBackend {
    /// The rule can look at `text` (its pattern compiles, its text clean-up
    /// succeeds).
    spec fn can_scan(&self, text: Seq<char>) -> bool;

    /// The rule blocks `text`.
    spec fn scans(&self, text: Seq<char>) -> bool;

    fn scan(&self, text: &str) -> (res: bool)
        requires
            self.can_scan(text@),
        ensures
            res == self.scans(text@),
    ;
}

} // verus!

verus! {

/// The text that `decancer::cure` gives for `text` with the default options
/// and capitalization kept, or `None` where it reports an error.
pub uninterp spec fn cured(text: Seq<char>) -> Option<Seq<char>>;

/// Calls `decancer::cure(text, Options::default().retain_capitalization())`
/// and turns the cured string into a `String`. Claims that the outcome is
/// `cured` of the text: the cured text, or `None` where decancer reports an
/// error (it does where the bidirectional algorithm cannot be applied).
#[verifier::external_body]
fn cure_text(text: &str) -> (res: Option<String>)
    ensures
        match res {
            Some(s) => cured(text@) == Some(s@),
            None => cured(text@) is None,
        },
{
    match decancer::cure(text, decancer::Options::default().retain_capitalization()) {
        Ok(cured_string) => Some(cured_string.to_string()),
        Err(_) => None,
    }
}

/// Whether `convert_all_unicode_to_ascii` can clean `text`.
pub fn can_convert_to_ascii(text: &str) -> (res: bool)
    ensures
        res == cured(text@) is Some,
{
    cure_text(text).is_some()
}

/// Replaces look-alike Unicode characters with the ASCII text they imitate.
pub fn convert_all_unicode_to_ascii(text: &str) -> (res: String)
    requires
        cured(text@) is Some,
    ensures
        cured(text@) == Some(res@),
{
    cure_text(text).unwrap()
}

} // verus!
