//! The ticket that a commit message refers to.

use vstd::prelude::*;
use vstd::string::StringExecFns;

verus! {

/// The text of the first match of the regular expression `pattern` in `text`,
/// the leftmost one; `None` where there is no match or `pattern` is no
/// regular expression. It stands for `regex::Regex::new` and
/// `regex::Regex::find`.
pub uninterp spec fn first_match(pattern: Seq<char>, text: Seq<char>) -> Option<Seq<char>>;

/// Trusted: compiles `pattern` with `regex::Regex::new` and searches `text`
/// with `regex::Regex::find`. The result depends on the two strings alone.
#[verifier::external_body]
fn find_first(pattern: &str, text: &str) -> (r: Option<String>)
    ensures
        match r {
            Some(m) => first_match(pattern@, text@) == Some(m@),
            None => first_match(pattern@, text@) is None,
        },
{
    regex::Regex::new(pattern).ok()?.find(text).map(|m| m.as_str().to_string())
}

/// The shape of a ticket key: one or more upper-case letters or digits, a
/// hyphen, and one or more digits.
pub open spec fn ticket_pattern() -> Seq<char> {
    "[A-Z0-9]+-\\d+"@
}

/// The first ticket key in a commit message, where it holds one.
pub fn extract_jira_key(message: &str) -> (key: Option<String>)
    ensures
        match key {
            Some(k) => first_match(ticket_pattern(), message@) == Some(k@),
            None => first_match(ticket_pattern(), message@) is None,
        },
{
    find_first("[A-Z0-9]+-\\d+", message)
}

/// The address of a ticket in the tracker at `base`.
pub open spec fn ticket_url(base: Seq<char>, key: Seq<char>) -> Seq<char> {
    base + "/browse/"@ + key
}

/// The address of a commit's ticket: that of its key in the tracker at
/// `base`, where the message holds a key and a tracker is known.
pub fn jira_url(base: Option<&str>, key: Option<&str>) -> (url: Option<String>)
    ensures
        match (base, key) {
            (Some(b), Some(k)) => url matches Some(u) && u@ == ticket_url(b@, k@),
            _ => url is None,
        },
{
    match (base, key) {
        (Some(b), Some(k)) => {
            let mut url = b.to_owned();
            url.append("/browse/");
            url.append(k);
            Some(url)
        },
        _ => None,
    }
}

} // verus!
