use vstd::prelude::*;

verus! {

/// The pattern that finds a station's status on the status page: a colour code, then, later
/// on the same line, the four-letter station code.
pub const STATUS_PATTERN: &'static str = "(33FF33|FFFF00|0000FF|FF0000).*([A-Z]{4})";

/// The colour code of a station that is online.
pub const ONLINE_COLOR: &'static str = "33FF33";

/// What the regular expression `pattern` finds in `text`: `None` where the pattern does not
/// compile, else, for each match from left to right, the texts of capture groups 1 and 2.
pub uninterp spec fn regex_pairs(pattern: Seq<char>, text: Seq<char>) -> Option<
    Seq<(Seq<char>, Seq<char>)>,
>;

/// The texts of a sequence of string pairs.
pub open spec fn pairs_view(v: Seq<(String, String)>) -> Seq<(Seq<char>, Seq<char>)> {
    v.map_values(|p: (String, String)| (p.0@, p.1@))
}

/// Relies on `regex::Regex::new`, which fails only for a pattern that does not compile, and
/// on `Regex::captures_iter`, which lists the non-overlapping matches from left to right;
/// a group that takes no part in a match gives an empty text. The result depends on the
/// pattern and the text alone.
#[verifier::external_body]
fn capture_pairs(pattern: &str, text: &str) -> (r: Option<Vec<(String, String)>>)
    ensures
        match r {
            Some(v) => regex_pairs(pattern@, text@) == Some(pairs_view(v@)),
            None => regex_pairs(pattern@, text@) is None,
        },
{
    let re = regex::Regex::new(pattern).ok()?;
    let group = |c: &regex::Captures, i: usize| {
        c.get(i).map_or(String::new(), |m| m.as_str().to_string())
    };
    Some(re.captures_iter(text).map(|c| (group(&c, 1), group(&c, 2))).collect())
}

/// The stations and whether each is online, from the pattern's matches on the status page:
/// each match gives its colour code and its station code.
pub fn statuses_from_matches(found: &Vec<(String, String)>) -> (r: Vec<(String, bool)>)
    ensures
        r@.len() == found@.len(),
        forall|i: int|
            0 <= i < found@.len() ==> (#[trigger] r@[i]).0@ == found@[i].1@ && r@[i].1 == (
            found@[i].0@ == ONLINE_COLOR@),
{
    let mut out: Vec<(String, bool)> = Vec::new();
    let online = ONLINE_COLOR.to_owned();
    let mut i: usize = 0;
    while i < found.len()
        invariant
            i <= found@.len(),
            online@ == ONLINE_COLOR@,
            out@.len() == i,
            forall|j: int|
                0 <= j < i ==> (#[trigger] out@[j]).0@ == found@[j].1@ && out@[j].1 == (
                found@[j].0@ == ONLINE_COLOR@),
        decreases found@.len() - i,
    {
        let (color, code) = &found[i];
        let is_online = *color == online;
        out.push((code.clone(), is_online));
        i = i + 1;
    }
    out
}

/// Reads the stations and whether each is online from the text of the status page, in the
/// order of the page.
pub fn station_statuses(page: &str) -> (r: Vec<(String, bool)>)
    ensures
        match regex_pairs(STATUS_PATTERN@, page@) {
            Some(found) => {
                &&& r@.len() == found.len()
                &&& forall|i: int|
                    0 <= i < found.len() ==> (#[trigger] r@[i]).0@ == found[i].1 && r@[i].1 == (
                    found[i].0 == ONLINE_COLOR@)
            },
            None => r@.len() == 0,
        },
{
    match capture_pairs(STATUS_PATTERN, page) {
        Some(found) => statuses_from_matches(&found),
        None => Vec::new(),
    }
}

} // verus!
