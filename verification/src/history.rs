//! Which commits of a history are wanted: the window of dates and the author
//! filter.

use vstd::prelude::*;
use crate::text::{
    chars_of, contains, has_substring, same_chars, split, split_on, trim, trimmed,
};

verus! {

/// The second, counted from the start of 1970 in UTC, that is `hour`, `min`
/// and `sec` into the calendar day which `text` names when read by the format
/// `format`; `None` where `text` names no day in that format or the time of
/// day is none. It stands for what chrono's `NaiveDate::parse_from_str`,
/// `and_hms_opt`, `and_utc` and `timestamp` give in turn.
pub uninterp spec fn utc_timestamp(
    text: Seq<char>,
    format: Seq<char>,
    hour: u32,
    min: u32,
    sec: u32,
) -> Option<i64>;

/// Trusted: `chrono::NaiveDate::parse_from_str` on `text` and `format`, and,
/// where it gives a date, the timestamp in UTC of the given time on that day.
/// The result depends on the arguments alone.
#[verifier::external_body]
fn timestamp_on(text: &str, format: &str, hour: u32, min: u32, sec: u32) -> (r: Option<i64>)
    ensures
        r == utc_timestamp(text@, format@, hour, min, sec),
{
    let date = chrono::NaiveDate::parse_from_str(text, format).ok()?;
    Some(date.and_hms_opt(hour, min, sec)?.and_utc().timestamp())
}

/// The format of a calendar date: year, month and day, with hyphens between.
pub open spec fn date_format() -> Seq<char> {
    "%Y-%m-%d"@
}

/// The first second of the day that `date` names, where it names one.
pub open spec fn day_start(date: Seq<char>) -> Option<i64> {
    utc_timestamp(date, date_format(), 0, 0, 0)
}

/// The last second of the day that `date` names, where it names one.
pub open spec fn day_end(date: Seq<char>) -> Option<i64> {
    utc_timestamp(date, date_format(), 23, 59, 59)
}

/// A range of time. A side that is `None` is open.
#[derive(Clone, Copy, Debug)]
pub struct DateWindow {
    /// The first second of the range.
    pub start: Option<i64>,
    /// The last second of the range.
    pub end: Option<i64>,
}

impl DateWindow {
    /// `time` lies in the range, its first and last second included.
    pub open spec fn holds(self, time: i64) -> bool {
        &&& self.start matches Some(s) ==> s <= time
        &&& self.end matches Some(e) ==> time <= e
    }

    /// `time` lies before the window's first second.
    pub open spec fn precedes(self, time: i64) -> bool {
        self.start matches Some(s) && time < s
    }

    /// The window from the first second of the day `start_date` to the last
    /// second of the day `end_date`. A date that is missing or cannot be read
    /// leaves its side open.
    pub open spec fn of(start_date: Option<Seq<char>>, end_date: Option<Seq<char>>) -> DateWindow {
        DateWindow {
            start: match start_date {
                Some(d) => day_start(d),
                None => None,
            },
            end: match end_date {
                Some(d) => day_end(d),
                None => None,
            },
        }
    }

    pub fn new(start_date: Option<&str>, end_date: Option<&str>) -> (w: DateWindow)
        ensures
            w == DateWindow::of(
                match start_date {
                    Some(d) => Some(d@),
                    None => None,
                },
                match end_date {
                    Some(d) => Some(d@),
                    None => None,
                },
            ),
    {
        let start = match start_date {
            Some(d) => timestamp_on(d, "%Y-%m-%d", 0, 0, 0),
            None => None,
        };
        let end = match end_date {
            Some(d) => timestamp_on(d, "%Y-%m-%d", 23, 59, 59),
            None => None,
        };
        DateWindow { start, end }
    }

    /// Whether `time` lies before the window: a walk that goes back in time
    /// finds nothing more from there on.
    pub fn is_before(&self, time: i64) -> (b: bool)
        ensures
            b == self.precedes(time),
            b ==> !self.holds(time),
    {
        match self.start {
            Some(s) => time < s,
            None => false,
        }
    }

    /// Whether a commit made at `time` falls in the window.
    pub fn admits(&self, time: i64) -> (b: bool)
        ensures
            b == self.holds(time),
    {
        let after_start = match self.start {
            Some(s) => s <= time,
            None => true,
        };
        let before_end = match self.end {
            Some(e) => time <= e,
            None => true,
        };
        after_start && before_end
    }
}

/// The pieces of a filter between its commas, each trimmed.
pub open spec fn trimmed_pieces(filter: Seq<char>) -> Seq<Seq<char>> {
    split(filter, ',').map_values(|p: Seq<char>| trim(p))
}

/// The sequences of `s` that are not empty, in order.
pub open spec fn nonempty_of(s: Seq<Seq<char>>) -> Seq<Seq<char>> {
    s.filter(|t: Seq<char>| t.len() > 0)
}

/// The tokens of an author filter: its comma-separated pieces, trimmed, those
/// left out that are empty or hold white space only.
pub open spec fn tokens_of(filter: Seq<char>) -> Seq<Seq<char>> {
    nonempty_of(trimmed_pieces(filter))
}

/// One token matches an author: it is the email, or stands in the email, or
/// stands in the name.
pub open spec fn token_hits(token: Seq<char>, email: Seq<char>, name: Seq<char>) -> bool {
    email == token || contains(email, token) || contains(name, token)
}

/// An author passes a list of tokens when the list is empty or one of its
/// tokens matches.
pub open spec fn tokens_pass(tokens: Seq<Seq<char>>, email: Seq<char>, name: Seq<char>) -> bool {
    tokens.len() == 0 || exists|k: int|
        0 <= k < tokens.len() && token_hits(#[trigger] tokens[k], email, name)
}

/// An author passes a filter: there is none, or its tokens let the author
/// pass.
pub open spec fn author_passes(filter: Option<Seq<char>>, email: Seq<char>, name: Seq<char>) -> bool {
    match filter {
        Some(f) => tokens_pass(tokens_of(f), email, name),
        None => true,
    }
}

/// The character sequences of a list of character vectors.
pub open spec fn views(v: Seq<Vec<char>>) -> Seq<Seq<char>> {
    v.map_values(|x: Vec<char>| x@)
}

/// Reads an author filter into its tokens.
pub fn author_tokens(filter: &str) -> (tokens: Vec<Vec<char>>)
    ensures
        views(tokens@) == tokens_of(filter@),
{
    let chars = chars_of(filter);
    let pieces = split_on(&chars, ',');
    let ghost all = trimmed_pieces(filter@);
    let mut tokens: Vec<Vec<char>> = Vec::new();
    let mut k: usize = 0;
    proof {
        assert(all.take(0) =~= Seq::<Seq<char>>::empty());
        assert(views(tokens@) =~= Seq::<Seq<char>>::empty());
    }
    while k < pieces.len()
        invariant
            k <= pieces.len() == all.len(),
            all == trimmed_pieces(filter@),
            chars@ == filter@,
            forall|j: int| 0 <= j < pieces.len() ==> (#[trigger] pieces[j])@ == split(chars@, ',')[j],
            views(tokens@) == nonempty_of(all.take(k as int)),
        decreases pieces.len() - k,
    {
        let token = trimmed(&pieces[k]);
        proof {
            assert(all.take(k + 1).drop_last() =~= all.take(k as int));
            assert(all.take(k + 1).last() == token@);
            reveal(Seq::filter);
        }
        if token.len() > 0 {
            let ghost before = tokens@;
            tokens.push(token);
            assert(views(tokens@) =~= views(before).push(token@));
        }
        k += 1;
    }
    assert(all.take(k as int) =~= all);
    tokens
}

/// Whether an author passes a list of tokens.
pub fn author_matches(tokens: &Vec<Vec<char>>, email: &str, name: &str) -> (b: bool)
    ensures
        b == tokens_pass(views(tokens@), email@, name@),
{
    if tokens.len() == 0 {
        return true;
    }
    let email_chars = chars_of(email);
    let name_chars = chars_of(name);
    let mut k: usize = 0;
    while k < tokens.len()
        invariant
            k <= tokens.len(),
            email_chars@ == email@,
            name_chars@ == name@,
            forall|j: int| 0 <= j < k ==> !token_hits(#[trigger] views(tokens@)[j], email@, name@),
        decreases tokens.len() - k,
    {
        let token = &tokens[k];
        assert(views(tokens@)[k as int] == token@);
        if same_chars(&email_chars, token) || has_substring(&email_chars, token) || has_substring(
            &name_chars,
            token,
        ) {
            return true;
        }
        k += 1;
    }
    false
}

/// Whether an author passes an optional filter.
pub fn author_allowed(filter: Option<&str>, email: &str, name: &str) -> (b: bool)
    ensures
        b == author_passes(
            match filter {
                Some(f) => Some(f@),
                None => None,
            },
            email@,
            name@,
        ),
{
    match filter {
        Some(f) => {
            let tokens = author_tokens(f);
            author_matches(&tokens, email, name)
        },
        None => true,
    }
}

} // verus!
