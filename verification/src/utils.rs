//! Helpers for telling repository URLs from plain names.

use crate::text::{chars_of, ends_with, starts_with, string_of};
use vstd::prelude::*;

verus! {

/// Whether `s` reads as the address of a git repository: it begins with a
/// known scheme or ends in `.git`.
pub open spec fn looks_like_git_url(s: Seq<char>) -> bool {
    ||| "http://"@.is_prefix_of(s)
    ||| "https://"@.is_prefix_of(s)
    ||| "git@"@.is_prefix_of(s)
    ||| "ssh://"@.is_prefix_of(s)
    ||| ".git"@.is_suffix_of(s)
}

/// Checks if the string looks like a git URL.
pub fn is_git_url(s: &str) -> (b: bool)
    ensures
        b == looks_like_git_url(s@),
{
    let chars = chars_of(s);
    assert(chars@.take(chars@.len() as int) =~= chars@);
    starts_with(&chars, &chars_of("http://")) || starts_with(&chars, &chars_of("https://"))
        || starts_with(&chars, &chars_of("git@")) || starts_with(&chars, &chars_of("ssh://"))
        || ends_with(&chars, chars.len(), &chars_of(".git"))
}

/// `s` without the run of `c` at its end.
pub open spec fn trim_end_char(s: Seq<char>, c: char) -> Seq<char>
    decreases s.len(),
{
    if s.len() > 0 && s.last() == c {
        trim_end_char(s.drop_last(), c)
    } else {
        s
    }
}

/// `s` without the repetitions of `pat` at its end.
pub open spec fn trim_end_text(s: Seq<char>, pat: Seq<char>) -> Seq<char>
    decreases s.len(),
{
    if pat.len() > 0 && pat.is_suffix_of(s) {
        trim_end_text(s.take(s.len() - pat.len()), pat)
    } else {
        s
    }
}

/// The characters that part the segments of a repository address.
pub open spec fn is_separator(c: char) -> bool {
    c == '/' || c == ':'
}

/// What follows the last separator of `s`; all of `s` where it has none.
pub open spec fn last_segment(s: Seq<char>) -> Seq<char>
    decreases s.len(),
{
    if s.len() == 0 || is_separator(s.last()) {
        Seq::empty()
    } else {
        last_segment(s.drop_last()).push(s.last())
    }
}

/// The directory name for a clone of `url`: its last segment, trailing
/// slashes and `.git` suffixes set aside, or `cloned-repo` where that is empty.
pub open spec fn repo_name(url: Seq<char>) -> Seq<char> {
    let segment = last_segment(trim_end_text(trim_end_char(url, '/'), ".git"@));
    if segment.len() > 0 {
        segment
    } else {
        "cloned-repo"@
    }
}

/// The last segment is the longest tail of `s` that holds no separator.
pub proof fn lemma_last_segment(s: Seq<char>)
    ensures
        last_segment(s).len() <= s.len(),
        last_segment(s) == s.skip(s.len() - last_segment(s).len()),
        forall|i: int| 0 <= i < last_segment(s).len() ==> !is_separator(#[trigger] last_segment(s)[i]),
        last_segment(s).len() < s.len() ==> is_separator(s[s.len() - last_segment(s).len() - 1]),
    decreases s.len(),
{
    if s.len() == 0 || is_separator(s.last()) {
        assert(last_segment(s) =~= s.skip(s.len() as int));
    } else {
        let rest = s.drop_last();
        lemma_last_segment(rest);
        let seg = last_segment(rest);
        assert(last_segment(s) =~= s.skip(s.len() - seg.len() - 1));
    }
}

/// Extracts a clean repository name, as in `github.com/tobi/try.git` -> `try`.
pub fn extract_repo_name(url: &str) -> (name: String)
    ensures
        name@ == repo_name(url@),
{
    let chars = chars_of(url);
    let mut end: usize = chars.len();
    assert(chars@.take(end as int) =~= chars@);
    while end > 0 && chars[end - 1] == '/'
        invariant
            end <= chars@.len(),
            trim_end_char(chars@, '/') == trim_end_char(chars@.take(end as int), '/'),
        decreases end,
    {
        assert(chars@.take(end as int).drop_last() =~= chars@.take(end - 1));
        end -= 1;
    }
    let ghost slashless = chars@.take(end as int);
    let suffix = chars_of(".git");
    proof {
        reveal_strlit(".git");
    }
    while ends_with(&chars, end, &suffix)
        invariant
            end <= chars@.len(),
            suffix@ == ".git"@,
            suffix@.len() == 4,
            trim_end_text(slashless, ".git"@) == trim_end_text(chars@.take(end as int), ".git"@),
        decreases end,
    {
        assert(chars@.take(end as int).take(end - 4) =~= chars@.take(end - 4));
        end -= 4;
    }
    let ghost clean = chars@.take(end as int);
    let mut start: usize = end;
    assert(clean.take(start as int) =~= clean && clean.skip(start as int) =~= Seq::<char>::empty());
    assert(last_segment(clean) + Seq::<char>::empty() =~= last_segment(clean));
    while start > 0 && chars[start - 1] != '/' && chars[start - 1] != ':'
        invariant
            start <= end <= chars@.len(),
            clean == chars@.take(end as int),
            last_segment(clean) == last_segment(clean.take(start as int)) + clean.skip(start as int),
        decreases start,
    {
        let ghost head = clean.take(start as int);
        assert(head.drop_last() =~= clean.take(start - 1));
        assert(last_segment(head.drop_last()).push(head.last()) + clean.skip(start as int)
            =~= last_segment(head.drop_last()) + clean.skip(start - 1));
        start -= 1;
    }
    assert(last_segment(clean) =~= chars@.subrange(start as int, end as int));
    if start < end {
        string_of(&chars, start, end)
    } else {
        "cloned-repo".to_owned()
    }
}

/// A configured path after the leading `~` was looked at.
#[derive(Debug)]
pub enum ExpandedPath {
    /// The path lies below the home directory; this is what follows `~/`.
    BelowHome(String),
    /// The path is taken as it was written.
    Literal(String),
}

impl View for ExpandedPath {
    type V = Result<Seq<char>, Seq<char>>;

    open spec fn view(&self) -> Result<Seq<char>, Seq<char>> {
        match self {
            ExpandedPath::BelowHome(rest) => Ok(rest@),
            ExpandedPath::Literal(path) => Err(path@),
        }
    }
}

/// Whether `path` begins with `~` and a separator: `/`, or `\` too where
/// the platform parts its paths with backslashes.
pub open spec fn begins_at_home(path: Seq<char>, backslash_separates: bool) -> bool {
    path.len() >= 2 && path[0] == '~' && (path[1] == '/' || (backslash_separates && path[1]
        == '\\'))
}

/// Replaces a leading `~` with the home directory, where one is known: a
/// path written as `~/rest` is `rest` below the home directory; any other
/// path, and every path while the home directory is unknown, stays as written.
pub fn expand_path(path_str: &str, home_known: bool, backslash_separates: bool) -> (expanded:
    ExpandedPath)
    ensures
        expanded@ == if home_known && begins_at_home(path_str@, backslash_separates) {
            Ok::<Seq<char>, Seq<char>>(path_str@.skip(2))
        } else {
            Err::<Seq<char>, Seq<char>>(path_str@)
        },
{
    let chars = chars_of(path_str);
    if home_known && chars.len() >= 2 && chars[0] == '~' && (chars[1] == '/' || (
    backslash_separates && chars[1] == '\\')) {
        assert(chars@.subrange(2, chars@.len() as int) =~= chars@.skip(2));
        ExpandedPath::BelowHome(string_of(&chars, 2, chars.len()))
    } else {
        ExpandedPath::Literal(path_str.to_owned())
    }
}

} // verus!
