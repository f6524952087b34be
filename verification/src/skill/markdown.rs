//! What the store reads from a skill's `SKILL.md`: its title and the first
//! line of its description.
use vstd::prelude::*;
use crate::seqs::{first_match, lemma_first_match};
use crate::text::{
    char_index, lemma_char_index, lemma_char_index_bounds, trim, trim_start, trim_start_char,
    chars_of, string_of, string_of_range, trim_text, char_is_space, is_space,
};

verus! {

/// A line without the `\r` of a `\r\n` ending.
pub open spec fn strip_cr(line: Seq<char>) -> Seq<char> {
    if line.len() > 0 && line.last() == '\r' {
        line.drop_last()
    } else {
        line
    }
}

/// The lines of a text as `str::lines` yields them: split at `\n`, a `\r`
/// before a `\n` dropped, no empty line after a final `\n`.
pub open spec fn text_lines(s: Seq<char>) -> Seq<Seq<char>>
    decreases s.len(),
{
    if s.len() == 0 {
        Seq::empty()
    } else {
        let k = char_index(s, '\n');
        if k >= s.len() {
            seq![s]
        } else {
            proof {
                lemma_char_index_bounds(s, '\n');
            }
            seq![strip_cr(s.take(k))] + text_lines(s.skip(k + 1))
        }
    }
}

/// The lines of a text.
pub fn split_lines(s: &str) -> (r: Vec<Vec<char>>)
    ensures
        r@.map_values(|l: Vec<char>| l@) == text_lines(s@),
{
    let v = chars_of(s);
    let mut out: Vec<Vec<char>> = Vec::new();
    let mut start: usize = 0;
    let mut i: usize = 0;
    assert(v@.skip(0) =~= v@);
    while i < v.len()
        invariant
            start <= i <= v@.len(),
            v@ == s@,
            forall|j: int| start <= j < i ==> v@[j] != '\n',
            out@.map_values(|l: Vec<char>| l@) + text_lines(v@.skip(start as int)) == text_lines(v@),
        decreases v@.len() - i,
    {
        if v[i] == '\n' {
            let mut end = i;
            if end > start && v[end - 1] == '\r' {
                end = end - 1;
            }
            let mut line: Vec<char> = Vec::new();
            let mut j = start;
            while j < end
                invariant
                    start <= j <= end <= i < v@.len(),
                    line@ == v@.subrange(start as int, j as int),
                decreases end - j,
            {
                line.push(v[j]);
                j = j + 1;
                assert(line@ =~= v@.subrange(start as int, j as int));
            }
            proof {
                let rest = v@.skip(start as int);
                lemma_char_index(rest, '\n', i - start);
                assert(rest.take(i - start) =~= v@.subrange(start as int, i as int));
                assert(rest.skip(i - start + 1) =~= v@.skip(i + 1));
                assert(line@ =~= strip_cr(rest.take(i - start)));
            }
            let ghost before = out@.map_values(|l: Vec<char>| l@);
            out.push(line);
            assert(out@.map_values(|l: Vec<char>| l@) =~= before.push(v@.subrange(start as int, end as int)));
            start = i + 1;
        }
        i = i + 1;
    }
    if start < v.len() {
        let mut line: Vec<char> = Vec::new();
        let mut j = start;
        while j < v.len()
            invariant
                start <= j <= v@.len(),
                line@ == v@.subrange(start as int, j as int),
            decreases v@.len() - j,
        {
            line.push(v[j]);
            j = j + 1;
            assert(line@ =~= v@.subrange(start as int, j as int));
        }
        proof {
            let rest = v@.skip(start as int);
            lemma_char_index(rest, '\n', rest.len() as int);
            assert(rest =~= v@.subrange(start as int, v@.len() as int));
        }
        let ghost before = out@.map_values(|l: Vec<char>| l@);
        out.push(line);
        assert(out@.map_values(|l: Vec<char>| l@) =~= before.push(v@.subrange(start as int, v@.len() as int)));
    } else {
        assert(v@.skip(start as int) =~= Seq::<char>::empty());
        assert(out@.map_values(|l: Vec<char>| l@) =~= text_lines(v@));
    }
    out
}

/// A trimmed line that can describe a skill: not empty and not a heading.
pub open spec fn is_description_line(l: Seq<char>) -> bool {
    l.len() > 0 && l[0] != '#'
}

/// The description a `SKILL.md` gives: its first trimmed line that is not
/// empty and not a heading, or nothing.
pub open spec fn markdown_description(text: Seq<char>) -> Option<Seq<char>> {
    let ls = text_lines(text).map_values(|l: Seq<char>| trim(l));
    let k = first_match(ls, |l: Seq<char>| is_description_line(l));
    if k < ls.len() {
        Some(ls[k])
    } else {
        None
    }
}

/// The title a heading line carries: the line trimmed, its leading `#`s
/// removed, trimmed again.
pub open spec fn heading_title(line: Seq<char>) -> Seq<char> {
    trim(trim_start_char(trim(line), '#'))
}

/// A heading line with a title.
pub open spec fn is_titled_heading(line: Seq<char>) -> bool {
    let t = trim_start(line);
    t.len() > 0 && t[0] == '#' && heading_title(line).len() > 0
}

/// The title a `SKILL.md` gives: that of its first heading with a title.
pub open spec fn markdown_title(text: Seq<char>) -> Option<Seq<char>> {
    let ls = text_lines(text);
    let k = first_match(ls, |l: Seq<char>| is_titled_heading(l));
    if k < ls.len() {
        Some(heading_title(ls[k]))
    } else {
        None
    }
}

fn first_non_space(v: &Vec<char>) -> (k: usize)
    ensures
        k <= v@.len(),
        trim_start(v@) == v@.skip(k as int),
{
    let mut k: usize = 0;
    assert(v@.skip(0) =~= v@);
    while k < v.len() && char_is_space(v[k])
        invariant
            k <= v@.len(),
            trim_start(v@) == trim_start(v@.skip(k as int)),
        decreases v@.len() - k,
    {
        assert(v@.skip(k as int).drop_first() =~= v@.skip(k + 1));
        k = k + 1;
    }
    if k == v.len() {
        assert(v@.skip(k as int) =~= Seq::<char>::empty());
    }
    k
}

/// The description line of a `SKILL.md` text.
pub fn read_description(text: &str) -> (r: Option<String>)
    ensures
        match r {
            Some(d) => markdown_description(text@) == Some(d@),
            None => markdown_description(text@) is None,
        },
{
    let lines = split_lines(text);
    let ghost ls = text_lines(text@).map_values(|l: Seq<char>| trim(l));
    let mut i: usize = 0;
    while i < lines.len()
        invariant
            i <= lines@.len(),
            lines@.map_values(|l: Vec<char>| l@) == text_lines(text@),
            ls == text_lines(text@).map_values(|l: Seq<char>| trim(l)),
            forall|j: int| 0 <= j < i ==> !is_description_line(#[trigger] ls[j]),
        decreases lines@.len() - i,
    {
        let raw = string_of(&lines[i]);
        let t = trim_text(raw.as_str());
        let tv = chars_of(t.as_str());
        assert(ls[i as int] == t@);
        if tv.len() > 0 && tv[0] != '#' {
            proof {
                lemma_first_match(ls, |l: Seq<char>| is_description_line(l), i as int);
            }
            return Some(t);
        }
        i = i + 1;
    }
    proof {
        lemma_first_match(ls, |l: Seq<char>| is_description_line(l), lines@.len() as int);
    }
    None
}

/// The title of a `SKILL.md` text.
pub fn read_title(text: &str) -> (r: Option<String>)
    ensures
        match r {
            Some(t) => markdown_title(text@) == Some(t@),
            None => markdown_title(text@) is None,
        },
{
    let lines = split_lines(text);
    let ghost ls = text_lines(text@);
    let mut i: usize = 0;
    while i < lines.len()
        invariant
            i <= lines@.len(),
            lines@.map_values(|l: Vec<char>| l@) == ls,
            ls == text_lines(text@),
            forall|j: int| 0 <= j < i ==> !is_titled_heading(#[trigger] ls[j]),
        decreases lines@.len() - i,
    {
        let line = &lines[i];
        assert(ls[i as int] == line@);
        let k = first_non_space(line);
        let whole = string_of(line);
        let t1 = trim_text(whole.as_str());
        let t1v = chars_of(t1.as_str());
        let mut h: usize = 0;
        assert(t1v@.skip(0) =~= t1v@);
        while h < t1v.len() && t1v[h] == '#'
            invariant
                h <= t1v@.len(),
                trim_start_char(t1v@, '#') == trim_start_char(t1v@.skip(h as int), '#'),
            decreases t1v@.len() - h,
        {
            assert(t1v@.skip(h as int).drop_first() =~= t1v@.skip(h + 1));
            h = h + 1;
        }
        if h == t1v.len() {
            assert(t1v@.skip(h as int) =~= Seq::<char>::empty());
        }
        assert(t1v@.skip(h as int) =~= t1v@.subrange(h as int, t1v@.len() as int));
        let rest = string_of_range(&t1v, h, t1v.len());
        let title = trim_text(rest.as_str());
        let title_len = chars_of(title.as_str()).len();
        if k < line.len() && line[k] == '#' && title_len > 0 {
            proof {
                assert(trim_start(line@)[0] == line@[k as int]);
                lemma_first_match(ls, |l: Seq<char>| is_titled_heading(l), i as int);
            }
            return Some(title);
        }
        proof {
            if k < line@.len() {
                assert(trim_start(line@)[0] == line@[k as int]);
            }
        }
        i = i + 1;
    }
    proof {
        lemma_first_match(ls, |l: Seq<char>| is_titled_heading(l), lines@.len() as int);
    }
    None
}

} // verus!
