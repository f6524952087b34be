//! The text the skill commands answer with.
use vstd::prelude::*;
use vstd::utf8::encode_utf8;
use crate::text::{trim_end, is_space, char_is_space, chars_of, string_of, push_char, decimal, decimal_text, concat};
use crate::skill::model::{SkillEntry, EntryView, SkillDoctorIssue, IssueView};
use crate::skill::names::{yes_no, yes_no_text};
use crate::skill::lookup::entry_views;
use crate::skill::scan::issue_views;

verus! {

/// The length of a text in UTF-8 bytes, as `str::len` gives it.
pub open spec fn byte_len(s: Seq<char>) -> nat {
    (encode_utf8(s).len() as usize) as nat
}

/// How many columns a skill table has: six, and three more in the long form.
pub open spec fn table_width(long: bool) -> nat {
    if long { 9 } else { 6 }
}

/// The column headers of a skill table. The long form adds the skill id and
/// the copy's creation and update times.
pub open spec fn table_headers(long: bool) -> Seq<Seq<char>> {
    let short = seq!["NAME"@, "DIR_NAME"@, "INSTANCE_ID"@, "ENABLED"@, "SOURCE"@, "PATH"@];
    if long { short + seq!["SKILL_ID"@, "CREATED_AT"@, "UPDATED_AT"@] } else { short }
}

/// The cells of an entry's row, under the headers of `table_headers(long)`.
pub open spec fn entry_row(e: EntryView, long: bool) -> Seq<Seq<char>> {
    let short = seq![
        e.skill.name,
        e.installed.dir_name,
        e.installed.instance_id,
        yes_no_text(e.installed.enabled),
        e.installed.source,
        e.installed.install_path,
    ];
    if long { short + seq![e.skill.id, e.installed.created_at, e.installed.updated_at] } else { short }
}

/// The header row followed by one row per entry.
pub open spec fn table_rows(entries: Seq<EntryView>, long: bool) -> Seq<Seq<Seq<char>>> {
    seq![table_headers(long)] + entries.map_values(|e: EntryView| entry_row(e, long))
}

/// The widest cell of column `j`, in bytes.
pub open spec fn column_width(rows: Seq<Seq<Seq<char>>>, j: int) -> nat
    decreases rows.len(),
{
    if rows.len() == 0 {
        0
    } else {
        let w = column_width(rows.drop_last(), j);
        let b = byte_len(rows.last()[j]);
        if w < b { b } else { w }
    }
}

/// Two more than `w`, saturating at the largest `usize`.
pub open spec fn column_space(w: nat) -> nat {
    if w + 2 > usize::MAX { usize::MAX as nat } else { w + 2 }
}

/// `cell` followed by spaces up to `width` characters, as `{:<width$}` writes it.
pub open spec fn padded(cell: Seq<char>, width: nat) -> Seq<char> {
    cell + Seq::new(if cell.len() < width { (width - cell.len()) as nat } else { 0 }, |k: int| ' ')
}

/// The first `n` cells of a row, each padded to its column's space.
pub open spec fn row_cells(rows: Seq<Seq<Seq<char>>>, row: Seq<Seq<char>>, n: int) -> Seq<char>
    decreases n,
{
    if n <= 0 {
        Seq::empty()
    } else {
        row_cells(rows, row, n - 1) + padded(row[n - 1], column_space(column_width(rows, n - 1)))
    }
}

/// One line of the table, without trailing white space.
pub open spec fn table_line(rows: Seq<Seq<Seq<char>>>, row: Seq<Seq<char>>) -> Seq<char> {
    trim_end(row_cells(rows, row, row.len() as int))
}

/// Lines joined by `\n`.
pub open spec fn join_lines(lines: Seq<Seq<char>>) -> Seq<char>
    decreases lines.len(),
{
    if lines.len() == 0 {
        Seq::empty()
    } else if lines.len() == 1 {
        lines[0]
    } else {
        join_lines(lines.drop_last()) + seq!['\n'] + lines.last()
    }
}

/// The table `skill list` and `skill instances` print; `long` asks for the
/// fuller columns.
pub open spec fn entry_table(entries: Seq<EntryView>, long: bool) -> Seq<char> {
    let rows = table_rows(entries, long);
    join_lines(rows.map_values(|r: Seq<Seq<char>>| table_line(rows, r)))
}

/// `s` without white space at its end.
pub fn trim_end_text(s: &str) -> (r: String)
    ensures
        r@ == trim_end(s@),
{
    let v = chars_of(s);
    let mut hi = v.len();
    assert(v@.take(hi as int) =~= v@);
    while hi > 0 && char_is_space(v[hi - 1])
        invariant
            hi <= v@.len(),
            v@ == s@,
            trim_end(s@) == trim_end(v@.take(hi as int)),
        decreases hi,
    {
        assert(v@.take(hi as int).drop_last() =~= v@.take(hi - 1));
        hi = hi - 1;
    }
    let r = crate::text::string_of_range(&v, 0, hi);
    assert(v@.subrange(0, hi as int) =~= v@.take(hi as int));
    r
}

/// Lines joined by `\n`.
pub fn join_lines_text(lines: &Vec<String>) -> (r: String)
    ensures
        r@ == join_lines(lines@.map_values(|l: String| l@)),
{
    let ghost lv = lines@.map_values(|l: String| l@);
    let mut r = String::new();
    let mut i: usize = 0;
    while i < lines.len()
        invariant
            i <= lines@.len(),
            lv == lines@.map_values(|l: String| l@),
            r@ == join_lines(lv.take(i as int)),
        decreases lines@.len() - i,
    {
        proof { reveal_strlit("\n"); }
        assert(lv.take(i + 1).drop_last() =~= lv.take(i as int));
        if i > 0 {
            r.append("\n");
        }
        r.append(lines[i].as_str());
        i = i + 1;
        assert(lv.take(i as int).last() == lv[i - 1]);
        if i == 1 {
            assert(r@ =~= join_lines(lv.take(i as int)));
        } else {
            assert(r@ =~= join_lines(lv.take(i as int)));
        }
    }
    assert(lv.take(lines@.len() as int) =~= lv);
    r
}

fn entry_row_cells(e: &SkillEntry, long: bool) -> (r: Vec<String>)
    ensures
        r@.map_values(|c: String| c@) == entry_row(e@, long),
{
    let mut r: Vec<String> = Vec::new();
    r.push(e.skill.name.clone());
    r.push(e.installed.dir_name.clone());
    r.push(e.installed.instance_id.clone());
    r.push(String::from_str(yes_no(e.installed.enabled)));
    r.push(e.installed.source.clone());
    r.push(e.installed.install_path.clone());
    if long {
        r.push(e.skill.id.clone());
        r.push(e.installed.created_at.clone());
        r.push(e.installed.updated_at.clone());
    }
    assert(r@.map_values(|c: String| c@) =~= entry_row(e@, long));
    r
}

fn header_cells(long: bool) -> (r: Vec<String>)
    ensures
        r@.map_values(|c: String| c@) == table_headers(long),
{
    let mut r: Vec<String> = Vec::new();
    r.push(String::from_str("NAME"));
    r.push(String::from_str("DIR_NAME"));
    r.push(String::from_str("INSTANCE_ID"));
    r.push(String::from_str("ENABLED"));
    r.push(String::from_str("SOURCE"));
    r.push(String::from_str("PATH"));
    if long {
        r.push(String::from_str("SKILL_ID"));
        r.push(String::from_str("CREATED_AT"));
        r.push(String::from_str("UPDATED_AT"));
    }
    assert(r@.map_values(|c: String| c@) =~= table_headers(long));
    r
}

pub open spec fn row_views(rows: Seq<Vec<String>>) -> Seq<Seq<Seq<char>>> {
    rows.map_values(|r: Vec<String>| r@.map_values(|c: String| c@))
}

/// The table of entries that the list commands print.
pub fn format_entry_table(entries: &Vec<SkillEntry>, long: bool) -> (s: String)
    ensures
        s@ == entry_table(entry_views(entries@), long),
{
    let ghost ev = entry_views(entries@);
    let ghost rows_v = table_rows(ev, long);
    let n: usize = if long { 9 } else { 6 };
    let mut rows: Vec<Vec<String>> = Vec::new();
    rows.push(header_cells(long));
    let mut i: usize = 0;
    while i < entries.len()
        invariant
            i <= entries@.len(),
            ev == entry_views(entries@),
            rows_v == table_rows(ev, long),
            row_views(rows@) == rows_v.take(i + 1),
        decreases entries@.len() - i,
    {
        let ghost before = row_views(rows@);
        let cells = entry_row_cells(&entries[i], long);
        assert(ev[i as int] == entries@[i as int]@);
        rows.push(cells);
        assert(row_views(rows@) =~= before.push(rows_v[i + 1]));
        assert(rows_v.take(i + 2) =~= rows_v.take(i + 1).push(rows_v[i + 1]));
        i = i + 1;
    }
    assert(rows_v.take(entries@.len() as int + 1) =~= rows_v);
    let mut widths: Vec<usize> = Vec::new();
    let mut j: usize = 0;
    while j < n
        invariant
            j <= n,
            n == table_width(long),
            row_views(rows@) == rows_v,
            rows_v.len() >= 1,
            forall|r: int| 0 <= r < rows_v.len() ==> (#[trigger] rows_v[r]).len() == n,
            widths@.len() == j,
            forall|x: int| 0 <= x < j ==> widths@[x] == column_width(rows_v, x),
        decreases n - j,
    {
        let mut w: usize = 0;
        let mut r: usize = 0;
        while r < rows.len()
            invariant
                j < n,
                r <= rows@.len() == rows_v.len(),
                row_views(rows@) == rows_v,
                forall|y: int| 0 <= y < rows_v.len() ==> (#[trigger] rows_v[y]).len() == n,
                w == column_width(rows_v.take(r as int), j as int),
            decreases rows@.len() - r,
        {
            assert(rows_v.take(r + 1).drop_last() =~= rows_v.take(r as int));
            assert(rows_v[r as int] == rows@[r as int]@.map_values(|c: String| c@));
            assert(rows@[r as int]@.len() == n);
            let cell_text = rows[r][j].as_str();
            let b = cell_text.len();
            assert(cell_text@ == rows_v[r as int][j as int]);
            assert(b == byte_len(rows_v[r as int][j as int]));
            if w < b {
                w = b;
            }
            r = r + 1;
        }
        assert(rows_v.take(rows@.len() as int) =~= rows_v);
        widths.push(w);
        j = j + 1;
    }
    let mut lines: Vec<String> = Vec::new();
    let mut r: usize = 0;
    while r < rows.len()
        invariant
            r <= rows@.len() == rows_v.len(),
            row_views(rows@) == rows_v,
            forall|y: int| 0 <= y < rows_v.len() ==> (#[trigger] rows_v[y]).len() == n,
            widths@.len() == n,
            n == table_width(long),
            forall|x: int| 0 <= x < n ==> widths@[x] == column_width(rows_v, x),
            lines@.map_values(|l: String| l@) == rows_v.take(r as int).map_values(|row: Seq<Seq<char>>| table_line(rows_v, row)),
        decreases rows@.len() - r,
    {
        let row = &rows[r];
        let ghost rv = rows_v[r as int];
        assert(rv == row@.map_values(|c: String| c@));
        let mut line: Vec<char> = Vec::new();
        let mut c: usize = 0;
        while c < n
            invariant
                c <= n,
                row@.len() == n,
                rv == row@.map_values(|c: String| c@),
                widths@.len() == n,
            n == table_width(long),
                forall|x: int| 0 <= x < n ==> widths@[x] == column_width(rows_v, x),
                line@ == row_cells(rows_v, rv, c as int),
            decreases n - c,
        {
            let cell = chars_of(row[c].as_str());
            assert(cell@ == rv[c as int]);
            let width = widths[c].saturating_add(2);
            let ghost before = line@;
            let mut k: usize = 0;
            while k < cell.len()
                invariant
                    k <= cell@.len(),
                    line@ == before + cell@.take(k as int),
                decreases cell@.len() - k,
            {
                line.push(cell[k]);
                k = k + 1;
                assert(line@ =~= before + cell@.take(k as int));
            }
            assert(cell@.take(cell@.len() as int) =~= cell@);
            let ghost mid = line@;
            let mut fill = cell.len();
            while fill < width
                invariant
                    cell@.len() <= fill <= width || (fill == cell@.len() && fill >= width),
                    line@ == mid + Seq::new((fill - cell@.len()) as nat, |q: int| ' '),
                decreases width - fill,
            {
                line.push(' ');
                fill = fill + 1;
                assert(line@ =~= mid + Seq::new((fill - cell@.len()) as nat, |q: int| ' '));
            }
            assert(width == column_space(column_width(rows_v, c as int)));
            assert(line@ =~= before + padded(rv[c as int], column_space(column_width(rows_v, c as int))));
            c = c + 1;
        }
        let text = string_of(&line);
        let trimmed = trim_end_text(text.as_str());
        let ghost before = lines@.map_values(|l: String| l@);
        lines.push(trimmed);
        assert(lines@.map_values(|l: String| l@) =~= before.push(table_line(rows_v, rv)));
        assert(rows_v.take(r + 1) =~= rows_v.take(r as int).push(rv));
        r = r + 1;
    }
    assert(rows_v.take(rows@.len() as int) =~= rows_v);
    join_lines_text(&lines)
}


/// One line of the doctor report: `[level] code: message`.
pub open spec fn issue_line(i: IssueView) -> Seq<char> {
    "["@ + i.level + "] "@ + i.code + ": "@ + i.message
}

/// The doctor report.
pub open spec fn doctor_text(issues: Seq<IssueView>) -> Seq<char> {
    if issues.len() == 0 {
        "skill 状态正常。"@
    } else {
        join_lines(issues.map_values(|i: IssueView| issue_line(i)))
    }
}

/// The doctor report for a list of issues.
pub fn format_doctor(issues: &Vec<SkillDoctorIssue>) -> (s: String)
    ensures
        s@ == doctor_text(issue_views(issues@)),
{
    if issues.len() == 0 {
        return String::from_str("skill 状态正常。");
    }
    let ghost iv = issue_views(issues@);
    let mut lines: Vec<String> = Vec::new();
    let mut i: usize = 0;
    while i < issues.len()
        invariant
            i <= issues@.len(),
            iv == issue_views(issues@),
            lines@.map_values(|l: String| l@) == iv.take(i as int).map_values(|x: IssueView| issue_line(x)),
        decreases issues@.len() - i,
    {
        let it = &issues[i];
        assert(iv[i as int] == it@);
        let mut l = String::from_str("[");
        l.append(it.level.as_str());
        l.append("] ");
        l.append(it.code.as_str());
        l.append(": ");
        l.append(it.message.as_str());
        let ghost before = lines@.map_values(|l: String| l@);
        lines.push(l);
        assert(lines@.map_values(|l: String| l@) =~= before.push(issue_line(iv[i as int])));
        assert(iv.take(i + 1) =~= iv.take(i as int).push(iv[i as int]));
        i = i + 1;
    }
    assert(iv.take(issues@.len() as int) =~= iv);
    join_lines_text(&lines)
}

/// What `skill view` prints for an entry.
pub open spec fn view_text(e: EntryView) -> Seq<char> {
    "skill_id: "@ + e.skill.id + "\ninstance_id: "@ + e.installed.instance_id + "\nname: "@ + e.skill.name
        + "\ndir_name: "@ + e.installed.dir_name + "\ndescription: "@ + e.skill.description
        + "\nsource: "@ + e.installed.source + "\npath: "@ + e.installed.install_path + "\nenabled: "@
        + yes_no_text(e.installed.enabled)
}

/// The details of one entry.
pub fn format_view(e: &SkillEntry) -> (s: String)
    ensures
        s@ == view_text(e@),
{
    let mut s = String::from_str("skill_id: ");
    s.append(e.skill.id.as_str());
    s.append("\ninstance_id: ");
    s.append(e.installed.instance_id.as_str());
    s.append("\nname: ");
    s.append(e.skill.name.as_str());
    s.append("\ndir_name: ");
    s.append(e.installed.dir_name.as_str());
    s.append("\ndescription: ");
    s.append(e.skill.description.as_str());
    s.append("\nsource: ");
    s.append(e.installed.source.as_str());
    s.append("\npath: ");
    s.append(e.installed.install_path.as_str());
    s.append("\nenabled: ");
    s.append(yes_no(e.installed.enabled));
    s
}

/// The counts a scan reports after a change.
pub open spec fn scan_summary(added: nat, updated: nat, removed: nat) -> Seq<char> {
    "扫描结果: 新增 "@ + decimal(added) + ", 更新 "@ + decimal(updated) + ", 移除 "@ + decimal(removed)
}

pub fn format_scan_summary(added: usize, updated: usize, removed: usize) -> (s: String)
    ensures
        s@ == scan_summary(added as nat, updated as nat, removed as nat),
{
    let mut s = String::from_str("扫描结果: 新增 ");
    s.append(decimal_text(added as u64).as_str());
    s.append(", 更新 ");
    s.append(decimal_text(updated as u64).as_str());
    s.append(", 移除 ");
    s.append(decimal_text(removed as u64).as_str());
    s
}

/// What `skill rescan` prints.
pub open spec fn rescan_text(added: nat, updated: nat, removed: nat, issues: nat) -> Seq<char> {
    "rescan 完成。\n新增: "@ + decimal(added) + "\n更新: "@ + decimal(updated) + "\n移除: "@ + decimal(removed)
        + "\n问题: "@ + decimal(issues)
}

pub fn format_rescan(added: usize, updated: usize, removed: usize, issues: usize) -> (s: String)
    ensures
        s@ == rescan_text(added as nat, updated as nat, removed as nat, issues as nat),
{
    let mut s = String::from_str("rescan 完成。\n新增: ");
    s.append(decimal_text(added as u64).as_str());
    s.append("\n更新: ");
    s.append(decimal_text(updated as u64).as_str());
    s.append("\n移除: ");
    s.append(decimal_text(removed as u64).as_str());
    s.append("\n问题: ");
    s.append(decimal_text(issues as u64).as_str());
    s
}

/// What `skill edit` prints: whether an editor was run on the file.
pub open spec fn edit_text(path: Seq<char>, edited: bool) -> Seq<char> {
    if edited { "已更新 skill 元数据: "@ + path } else { "请编辑文件: "@ + path }
}

/// The message after `skill edit`.
pub fn edit_message(path: &str, edited: bool) -> (s: String)
    ensures
        s@ == edit_text(path@, edited),
{
    if edited {
        concat("已更新 skill 元数据: ", path)
    } else {
        concat("请编辑文件: ", path)
    }
}

} // verus!
