//! The regular expressions that the commands match text against.
use vstd::prelude::*;

verus! {

/// The pattern of a fenced code block that ends the text: an optional word,
/// spaces, three backticks, an optional language, the code, three backticks.
pub open spec fn codeblock_pattern() -> Seq<char> {
    r"(\w*)\s*(?:```)(\w*)?([\s\S]*)(?:```$)"@
}

/// The pattern of an inventory entry line: name, role, priority, location
/// and display name, separated by whitespace.
pub open spec fn entry_pattern() -> Seq<char> {
    r"(?x)(.+?)\s+(\S*:\S*)\s+(-?\d+)\s+(\S+)\s+(.*)"@
}

/// The capture groups (after the whole match) of the first match of
/// `pattern` in `text`, each `None` where it took no part in the match;
/// `None` where the pattern does not match.
pub uninterp spec fn regex_groups(pattern: Seq<char>, text: Seq<char>) -> Option<
    Seq<Option<Seq<char>>>,
>;

/// `Regex::new` and `Regex::captures`, then the groups after the whole
/// match. The contract names the result, a function of the pattern and the
/// text alone, and gives the number of groups of each pattern.
#[verifier::external_body]
pub(crate) fn capture_groups(pattern: &str, text: &str) -> (r: Option<Vec<Option<String>>>)
    requires
        pattern@ == codeblock_pattern() || pattern@ == entry_pattern(),
    ensures
        r.deep_view() == regex_groups(pattern@, text@),
        r matches Some(g) ==> (pattern@ == codeblock_pattern() ==> g.len() == 3) && (pattern@
            == entry_pattern() ==> g.len() == 5),
{
    let re = regex::Regex::new(pattern).unwrap();
    match re.captures(text) {
        Some(caps) => {
            let mut groups = Vec::new();
            for g in caps.iter().skip(1) {
                match g {
                    Some(m) => groups.push(Some(m.as_str().to_string())),
                    None => groups.push(None),
                }
            }
            Some(groups)
        },
        None => None,
    }
}

/// The pieces of `s` between the matches of the pattern `--|=`, the first
/// continuing `cur`: matches are found left to right without overlap.
pub open spec fn flag_split_from(s: Seq<char>, cur: Seq<char>) -> Seq<Seq<char>>
    decreases s.len(),
{
    if s.len() == 0 {
        seq![cur]
    } else if s.len() >= 2 && s[0] == '-' && s[1] == '-' {
        seq![cur] + flag_split_from(s.skip(2), Seq::empty())
    } else if s[0] == '=' {
        seq![cur] + flag_split_from(s.drop_first(), Seq::empty())
    } else {
        flag_split_from(s.drop_first(), cur.push(s[0]))
    }
}

/// The pieces of `s` between the matches of the pattern `--|=`.
pub open spec fn flag_split(s: Seq<char>) -> Seq<Seq<char>> {
    flag_split_from(s, Seq::empty())
}

/// `Regex::new(r"--|=")` and `Regex::split`: the pieces of `arg` between the
/// matches, found left to right without overlap. The contract states the
/// regex crate's documented splitting for this pattern of two literals.
#[verifier::external_body]
pub(crate) fn split_flags(arg: &str) -> (r: Vec<String>)
    ensures
        r.deep_view() == flag_split(arg@),
{
    let re = regex::Regex::new(r"--|=").unwrap();
    let mut out = Vec::new();
    for piece in re.split(arg) {
        out.push(piece.to_string());
    }
    out
}

} // verus!
