//! Naming rules: directory names, display names, skill ids and their namespaces.
use vstd::prelude::*;
use crate::text::{lemma_count_char_none, has_prefix, text_starts_with, concat, is_blank, is_blank_text, count_char, count_char_text, char_index, is_space, char_is_space, trim_char, trim_start_char, trim_end_char, chars_of, string_of, string_of_range, trim, before_char, find_char, lemma_char_index_bounds, trim_text};

verus! {

/// An ASCII letter or digit.
pub open spec fn is_ascii_alnum(c: char) -> bool {
    ('0' <= c && c <= '9') || ('a' <= c && c <= 'z') || ('A' <= c && c <= 'Z')
}

/// The ASCII lower-case form of `c`; other characters stay as they are.
pub open spec fn ascii_lower(c: char) -> char {
    if 'A' <= c && c <= 'Z' {
        ((c as u32) + 32) as char
    } else {
        c
    }
}

/// What one character of a name becomes in a directory name: kept (ASCII
/// lower-cased) when it is an ASCII letter or digit or one of `-_.`, a `-`
/// when it is white space or one of `/\:`, dropped otherwise.
pub open spec fn sanitized_char(c: char) -> Option<char> {
    if is_ascii_alnum(c) || c == '-' || c == '_' || c == '.' {
        Some(ascii_lower(c))
    } else if is_space(c) || c == '/' || c == '\\' || c == ':' {
        Some('-')
    } else {
        None
    }
}

/// Every character of `s` mapped by `sanitized_char`, dropped ones left out.
pub open spec fn sanitized_chars(s: Seq<char>) -> Seq<char>
    decreases s.len(),
{
    if s.len() == 0 {
        s
    } else {
        match sanitized_char(s.last()) {
            Some(m) => sanitized_chars(s.drop_last()).push(m),
            None => sanitized_chars(s.drop_last()),
        }
    }
}

/// `s` with every run of `-` cut down to one `-`.
pub open spec fn collapse_dashes(s: Seq<char>) -> Seq<char>
    decreases s.len(),
{
    if s.len() == 0 {
        s
    } else if s.len() >= 2 && s.last() == '-' && s[s.len() - 2] == '-' {
        collapse_dashes(s.drop_last())
    } else {
        collapse_dashes(s.drop_last()).push(s.last())
    }
}

/// The directory-name form of a name: sanitized characters, dash runs
/// collapsed, dashes trimmed at both ends.
pub open spec fn sanitized(s: Seq<char>) -> Seq<char> {
    trim_char(collapse_dashes(sanitized_chars(s)), '-')
}

fn lower_char(c: char) -> (r: char)
    ensures
        r == ascii_lower(c),
{
    if 'A' <= c && c <= 'Z' {
        let b: u8 = (c as u8) + 32;
        b as char
    } else {
        c
    }
}

fn sanitize_one(c: char) -> (r: Option<char>)
    ensures
        r == sanitized_char(c),
{
    if ('0' <= c && c <= '9') || ('a' <= c && c <= 'z') || ('A' <= c && c <= 'Z') || c == '-'
        || c == '_' || c == '.' {
        Some(lower_char(c))
    } else if char_is_space(c) || c == '/' || c == '\\' || c == ':' {
        Some('-')
    } else {
        None
    }
}

/// `s` with every leading and trailing `c` removed.
pub fn trim_char_chars(v: &Vec<char>, c: char) -> (r: Vec<char>)
    ensures
        r@ == trim_char(v@, c),
{
    let mut lo: usize = 0;
    assert(v@.skip(0) =~= v@);
    while lo < v.len() && v[lo] == c
        invariant
            lo <= v@.len(),
            trim_start_char(v@, c) == trim_start_char(v@.skip(lo as int), c),
        decreases v@.len() - lo,
    {
        assert(v@.skip(lo as int).drop_first() =~= v@.skip(lo + 1));
        lo = lo + 1;
    }
    assert(trim_start_char(v@, c) == v@.skip(lo as int)) by {
        if lo == v.len() {
            assert(v@.skip(lo as int) =~= Seq::<char>::empty());
        }
    }
    let mut hi: usize = v.len();
    while hi > lo && v[hi - 1] == c
        invariant
            lo <= hi <= v@.len(),
            trim_start_char(v@, c) == v@.skip(lo as int),
            trim_char(v@, c) == trim_end_char(v@.subrange(lo as int, hi as int), c),
        decreases hi,
    {
        assert(v@.subrange(lo as int, hi as int).drop_last() =~= v@.subrange(lo as int, hi - 1));
        hi = hi - 1;
    }
    assert(v@.skip(lo as int) =~= v@.subrange(lo as int, v@.len() as int));
    let mut r: Vec<char> = Vec::new();
    let mut i = lo;
    while i < hi
        invariant
            lo <= i <= hi <= v@.len(),
            r@ == v@.subrange(lo as int, i as int),
        decreases hi - i,
    {
        r.push(v[i]);
        i = i + 1;
        assert(r@ =~= v@.subrange(lo as int, i as int));
    }
    r
}

/// The directory-name form of `name`, as the skill store names directories.
pub fn sanitize_name(name: &str) -> (r: String)
    ensures
        r@ == sanitized(name@),
{
    let v = chars_of(name);
    let mut raw: Vec<char> = Vec::new();
    let mut i: usize = 0;
    while i < v.len()
        invariant
            i <= v@.len(),
            v@ == name@,
            raw@ == sanitized_chars(v@.take(i as int)),
        decreases v@.len() - i,
    {
        assert(v@.take(i + 1).drop_last() =~= v@.take(i as int));
        match sanitize_one(v[i]) {
            Some(m) => raw.push(m),
            None => {},
        }
        i = i + 1;
    }
    assert(v@.take(v@.len() as int) =~= v@);
    let mut collapsed: Vec<char> = Vec::new();
    let mut j: usize = 0;
    while j < raw.len()
        invariant
            j <= raw@.len(),
            collapsed@ == collapse_dashes(raw@.take(j as int)),
        decreases raw@.len() - j,
    {
        assert(raw@.take(j + 1).drop_last() =~= raw@.take(j as int));
        if !(j >= 1 && raw[j] == '-' && raw[j - 1] == '-') {
            collapsed.push(raw[j]);
        }
        j = j + 1;
    }
    assert(raw@.take(raw@.len() as int) =~= raw@);
    let trimmed = trim_char_chars(&collapsed, '-');
    string_of(&trimmed)
}

/// The display name a directory name stands for: the part before the first
/// `~`, trimmed.
pub open spec fn display_name(dir_name: Seq<char>) -> Seq<char> {
    trim(before_char(dir_name, '~'))
}

/// The display name of a directory: `review~2` is shown as `review`.
pub fn normalize_display_name(dir_name: &str) -> (r: String)
    ensures
        r@ == display_name(dir_name@),
{
    let v = chars_of(dir_name);
    let k = find_char(&v, '~');
    proof { lemma_char_index_bounds(v@, '~'); }
    let head = string_of_range(&v, 0, k);
    trim_text(head.as_str())
}


/// The text every skill id starts with.
pub open spec fn skill_id_prefix() -> Seq<char> {
    seq!['s', 'k', 'i', 'l', 'l', ':']
}

/// The namespace of a source or skill id: for `skill:ns/name` the `ns`, for
/// any other text the part before its first `:`.
pub open spec fn namespace_of(source: Seq<char>) -> Seq<char> {
    if has_prefix(source, skill_id_prefix()) {
        before_char(source.skip(6), '/')
    } else {
        before_char(source, ':')
    }
}

/// The namespace of a source or skill id.
pub fn source_namespace(source: &str) -> (r: String)
    ensures
        r@ == namespace_of(source@),
{
    let v = chars_of(source);
    proof { reveal_strlit("skill:"); }
    let prefix = "skill:";
    assert(prefix@ == skill_id_prefix());
    if text_starts_with(source, prefix) {
        let mut rest: Vec<char> = Vec::new();
        let mut i: usize = 6;
        while i < v.len()
            invariant
                6 <= i <= v@.len(),
                rest@ == v@.subrange(6, i as int),
            decreases v@.len() - i,
        {
            rest.push(v[i]);
            i = i + 1;
            assert(rest@ =~= v@.subrange(6, i as int));
        }
        assert(rest@ =~= source@.skip(6));
        let k = find_char(&rest, '/');
        proof { lemma_char_index_bounds(rest@, '/'); }
        string_of_range(&rest, 0, k)
    } else {
        let k = find_char(&v, ':');
        proof { lemma_char_index_bounds(v@, ':'); }
        string_of_range(&v, 0, k)
    }
}

/// The id of a skill named `name` in namespace `namespace`.
pub open spec fn skill_id_of(namespace: Seq<char>, name: Seq<char>) -> Seq<char> {
    skill_id_prefix() + sanitized(namespace) + seq!['/'] + sanitized(name)
}

/// A new skill id, `skill:<namespace>/<name>` with both parts sanitized.
pub fn new_skill_id(namespace: &str, name: &str) -> (r: String)
    ensures
        r@ == skill_id_of(namespace@, name@),
{
    proof { reveal_strlit("skill:"); reveal_strlit("/"); }
    let ns = sanitize_name(namespace);
    let nm = sanitize_name(name);
    let a = concat("skill:", ns.as_str());
    let b = concat(a.as_str(), "/");
    let r = concat(b.as_str(), nm.as_str());
    assert(r@ =~= skill_id_of(namespace@, name@));
    r
}

/// `repo` has the form `owner/repo`: exactly one `/`, with text that is not
/// blank on both sides of it.
pub open spec fn repo_is_valid(repo: Seq<char>) -> bool {
    &&& count_char(repo, '/') == 1
    &&& !is_blank(before_char(repo, '/'))
    &&& !is_blank(repo.skip(char_index(repo, '/') + 1))
}

/// Checks the `owner/repo` form; the test shared by every place that takes a repo.
pub fn repo_well_formed(repo: &str) -> (b: bool)
    ensures
        b == repo_is_valid(repo@),
{
    let v = chars_of(repo);
    let n = count_char_text(&v, '/');
    if n != 1 {
        return false;
    }
    let k = find_char(&v, '/');
    proof { lemma_char_index_bounds(v@, '/'); }
    if k >= v.len() {
        proof { lemma_count_char_none(v@, '/'); }
        return false;
    }
    let head = string_of_range(&v, 0, k);
    let tail = string_of_range(&v, k + 1, v.len());
    assert(tail@ =~= repo@.skip(k + 1));
    !is_blank_text(head.as_str()) && !is_blank_text(tail.as_str())
}

/// The error a malformed repo gives when a skill is added from GitHub.
pub open spec fn repo_format_error() -> Seq<char> {
    "GitHub repo must use owner/repo format."@
}

/// Accepts `owner/repo`; any other text is refused.
pub fn validate_repo(repo: &str) -> (r: Result<(), String>)
    ensures
        r is Ok <==> repo_is_valid(repo@),
        r matches Err(e) ==> e@ == repo_format_error(),
{
    if repo_well_formed(repo) {
        Ok(())
    } else {
        Err(String::from_str("GitHub repo must use owner/repo format."))
    }
}

/// `yes` or `no`.
pub open spec fn yes_no_text(value: bool) -> Seq<char> {
    if value { seq!['y', 'e', 's'] } else { seq!['n', 'o'] }
}

/// `yes` for true, `no` for false.
pub fn yes_no(value: bool) -> (r: &'static str)
    ensures
        r@ == yes_no_text(value),
{
    proof { reveal_strlit("yes"); reveal_strlit("no"); }
    if value { "yes" } else { "no" }
}

} // verus!
