//! Finding skills: pairing installed copies with their definitions and
//! resolving the references users type.
use vstd::prelude::*;
use crate::seqs::{first_match, lemma_first_match, last_match, lemma_last_match};
use crate::text::{concat, decimal, decimal_text, text_lt, text_less, lemma_text_lt_total, lemma_text_lt_transitive, lemma_text_lt_irreflexive};
use crate::skill::model::{Skill, SkillView, InstalledSkill, InstalledView, SkillEntry, EntryView};

verus! {

pub open spec fn skill_views(s: Seq<Skill>) -> Seq<SkillView> {
    s.map_values(|x: Skill| x@)
}

pub open spec fn installed_views(s: Seq<InstalledSkill>) -> Seq<InstalledView> {
    s.map_values(|x: InstalledSkill| x@)
}

pub open spec fn entry_views(s: Seq<SkillEntry>) -> Seq<EntryView> {
    s.map_values(|x: SkillEntry| x@)
}

/// The view of a lookup's outcome.
pub open spec fn outcome_view(r: Result<SkillEntry, String>) -> Result<EntryView, Seq<char>> {
    match r {
        Ok(e) => Ok(e@),
        Err(m) => Err(m@),
    }
}

/// The error for an installed copy whose definition is missing.
pub open spec fn missing_definition_message(skill_id: Seq<char>) -> Seq<char> {
    "注册表缺少 skill 定义: "@ + skill_id
}

/// Where the first definition with id `id` stands in `skills`.
pub open spec fn definition_index(skills: Seq<SkillView>, id: Seq<char>) -> int {
    first_match(skills, |s: SkillView| s.id == id)
}

/// An installed copy paired with the first definition of its skill id.
pub open spec fn entry_for(skills: Seq<SkillView>, inst: InstalledView) -> Result<EntryView, Seq<char>> {
    let k = definition_index(skills, inst.skill_id);
    if k < skills.len() {
        Ok(EntryView { skill: skills[k], installed: inst })
    } else {
        Err(missing_definition_message(inst.skill_id))
    }
}

fn find_definition(skills: &[Skill], id: &String) -> (k: usize)
    ensures
        k == definition_index(skill_views(skills@), id@),
{
    let ghost sv = skill_views(skills@);
    let mut k: usize = 0;
    while k < skills.len() && !(skills[k].id == *id)
        invariant
            k <= skills@.len(),
            sv == skill_views(skills@),
            forall|j: int| 0 <= j < k ==> sv[j].id != id@,
        decreases skills@.len() - k,
    {
        k = k + 1;
    }
    proof {
        lemma_first_match(sv, |s: SkillView| s.id == id@, k as int);
    }
    k
}

/// Pairs an installed copy with the definition of its skill.
pub fn build_skill_entry(skills: &[Skill], installed: InstalledSkill) -> (r: Result<SkillEntry, String>)
    ensures
        outcome_view(r) == entry_for(skill_views(skills@), installed@),
{
    let k = find_definition(skills, &installed.skill_id);
    if k < skills.len() {
        Ok(SkillEntry { skill: skills[k].clone(), installed })
    } else {
        Err(concat("注册表缺少 skill 定义: ", installed.skill_id.as_str()))
    }
}

/// The copies whose skill id is `id`.
pub open spec fn copies_of(installed: Seq<InstalledView>, id: Seq<char>) -> Seq<InstalledView> {
    installed.filter(|i: InstalledView| i.skill_id == id)
}

/// The copy's skill is first defined under the name `name`.
pub open spec fn is_named(skills: Seq<SkillView>, inst: InstalledView, name: Seq<char>) -> bool {
    let k = definition_index(skills, inst.skill_id);
    k < skills.len() && skills[k].name == name
}

/// The copies whose skill is named `name`.
pub open spec fn copies_named(skills: Seq<SkillView>, installed: Seq<InstalledView>, name: Seq<char>) -> Seq<InstalledView> {
    installed.filter(|i: InstalledView| is_named(skills, i, name))
}

pub open spec fn ambiguous_id_message(reference: Seq<char>, n: nat) -> Seq<char> {
    "skill_id `"@ + reference + "` 对应 "@ + decimal(n) + " 个实例，请改用 instance_id 或 dir_name。"@
}

pub open spec fn unknown_reference_message(reference: Seq<char>) -> Seq<char> {
    "未找到 skill: "@ + reference
}

pub open spec fn ambiguous_name_message(reference: Seq<char>) -> Seq<char> {
    "名称 `"@ + reference + "` 命中多个实例，请改用 instance_id、dir_name 或 skill_id。"@
}

/// What a reference resolves to. An instance id wins, then a directory
/// name, then a skill id held by exactly one copy, then a name held by
/// exactly one copy; a skill id or name held by several copies, or by none,
/// is an error.
pub open spec fn resolution(
    skills: Seq<SkillView>,
    installed: Seq<InstalledView>,
    reference: Seq<char>,
) -> Result<EntryView, Seq<char>> {
    let a = first_match(installed, |i: InstalledView| i.instance_id == reference);
    let b = first_match(installed, |i: InstalledView| i.dir_name == reference);
    if a < installed.len() {
        entry_for(skills, installed[a])
    } else if b < installed.len() {
        entry_for(skills, installed[b])
    } else if definition_index(skills, reference) < skills.len() {
        let m = copies_of(installed, reference);
        if m.len() == 1 {
            entry_for(skills, m[0])
        } else {
            Err(ambiguous_id_message(reference, m.len()))
        }
    } else {
        let m = copies_named(skills, installed, reference);
        if m.len() == 0 {
            Err(unknown_reference_message(reference))
        } else if m.len() == 1 {
            entry_for(skills, m[0])
        } else {
            Err(ambiguous_name_message(reference))
        }
    }
}

/// Resolves what a user typed to one installed copy and its definition.
pub fn resolve_skill_reference(
    skills: &[Skill],
    installed_skills: &[InstalledSkill],
    reference: &str,
) -> (r: Result<SkillEntry, String>)
    ensures
        outcome_view(r) == resolution(skill_views(skills@), installed_views(installed_skills@), reference@),
{
    let ghost sv = skill_views(skills@);
    let ghost iv = installed_views(installed_skills@);
    let rs = String::from_str(reference);
    assert(rs@ == reference@);
    let n = installed_skills.len();

    let mut a: usize = 0;
    while a < n && !(installed_skills[a].instance_id == rs)
        invariant
            a <= n == installed_skills@.len(),
            iv == installed_views(installed_skills@),
            rs@ == reference@,
            forall|j: int| 0 <= j < a ==> iv[j].instance_id != reference@,
        decreases n - a,
    {
        assert(iv[a as int] == installed_skills@[a as int]@);
        assert(installed_skills@[a as int].instance_id@ != rs@);
        a = a + 1;
    }
    proof { lemma_first_match(iv, |i: InstalledView| i.instance_id == reference@, a as int); }
    if a < n {
        return build_skill_entry(skills, installed_skills[a].clone());
    }

    let mut b: usize = 0;
    while b < n && !(installed_skills[b].dir_name == rs)
        invariant
            b <= n == installed_skills@.len(),
            iv == installed_views(installed_skills@),
            rs@ == reference@,
            forall|j: int| 0 <= j < b ==> iv[j].dir_name != reference@,
        decreases n - b,
    {
        assert(iv[b as int] == installed_skills@[b as int]@);
        b = b + 1;
    }
    proof { lemma_first_match(iv, |i: InstalledView| i.dir_name == reference@, b as int); }
    if b < n {
        return build_skill_entry(skills, installed_skills[b].clone());
    }

    if find_definition(skills, &rs) < skills.len() {
        let mut matches: Vec<InstalledSkill> = Vec::new();
        let mut i: usize = 0;
        while i < n
            invariant
                i <= n == installed_skills@.len(),
                iv == installed_views(installed_skills@),
                rs@ == reference@,
            rs@ == reference@,
                installed_views(matches@) == copies_of(iv.take(i as int), reference@),
            decreases n - i,
        {
            proof {
                assert(iv[i as int] == installed_skills@[i as int]@);
                assert(iv.take(i + 1) =~= iv.take(i as int).push(iv[i as int]));
                iv.take(i as int).lemma_filter_push(iv[i as int], |x: InstalledView| x.skill_id == reference@);
            }
            if installed_skills[i].skill_id == rs {
                let ghost before = installed_views(matches@);
                matches.push(installed_skills[i].clone());
                assert(installed_views(matches@) =~= before.push(iv[i as int]));
            }
            i = i + 1;
        }
        assert(iv.take(n as int) =~= iv);
        if matches.len() != 1 {
            let mut m = concat("skill_id `", reference);
            m.append("` 对应 ");
            let count = decimal_text(matches.len() as u64);
            m.append(count.as_str());
            m.append(" 个实例，请改用 instance_id 或 dir_name。");
            return Err(m);
        }
        return build_skill_entry(skills, matches[0].clone());
    }

    let mut matches: Vec<InstalledSkill> = Vec::new();
    let mut i: usize = 0;
    while i < n
        invariant
            i <= n == installed_skills@.len(),
            iv == installed_views(installed_skills@),
            rs@ == reference@,
            sv == skill_views(skills@),
            installed_views(matches@) == copies_named(sv, iv.take(i as int), reference@),
        decreases n - i,
    {
        proof {
            assert(iv[i as int] == installed_skills@[i as int]@);
            assert(iv.take(i + 1) =~= iv.take(i as int).push(iv[i as int]));
            iv.take(i as int).lemma_filter_push(iv[i as int], |x: InstalledView| is_named(sv, x, reference@));
        }
        let k = find_definition(skills, &installed_skills[i].skill_id);
        if k < skills.len() && skills[k].name == rs {
            let ghost before = installed_views(matches@);
            matches.push(installed_skills[i].clone());
            assert(installed_views(matches@) =~= before.push(iv[i as int]));
        }
        i = i + 1;
    }
    assert(iv.take(n as int) =~= iv);
    if matches.len() == 0 {
        Err(concat("未找到 skill: ", reference))
    } else if matches.len() == 1 {
        build_skill_entry(skills, matches[0].clone())
    } else {
        let mut m = concat("名称 `", reference);
        m.append("` 命中多个实例，请改用 instance_id、dir_name 或 skill_id。");
        Err(m)
    }
}


/// Entries are listed by skill name, then by directory name.
pub open spec fn entry_lt(a: EntryView, b: EntryView) -> bool {
    text_lt(a.skill.name, b.skill.name) || (a.skill.name == b.skill.name && text_lt(
        a.installed.dir_name,
        b.installed.dir_name,
    ))
}

/// No entry comes before an earlier one.
pub open spec fn entries_sorted(s: Seq<EntryView>) -> bool {
    forall|a: int, b: int| 0 <= a < b < s.len() ==> !entry_lt(s[b], s[a])
}

/// The entries whose skill name is `name` and directory name is `dir`, in order.
pub open spec fn with_key(s: Seq<EntryView>, name: Seq<char>, dir: Seq<char>) -> Seq<EntryView> {
    s.filter(|e: EntryView| e.skill.name == name && e.installed.dir_name == dir)
}

/// Where the last definition with id `id` stands in `skills` (a later
/// definition replaces an earlier one with the same id).
pub open spec fn last_definition_index(skills: Seq<SkillView>, id: Seq<char>) -> int {
    last_match(skills, |s: SkillView| s.id == id)
}

/// Each installed copy, in order, paired with the last definition of its
/// skill; copies without a definition are left out.
pub open spec fn joined_entries(skills: Seq<SkillView>, installed: Seq<InstalledView>) -> Seq<EntryView>
    decreases installed.len(),
{
    if installed.len() == 0 {
        Seq::empty()
    } else {
        let rest = joined_entries(skills, installed.drop_last());
        let k = last_definition_index(skills, installed.last().skill_id);
        if k < skills.len() {
            rest.push(EntryView { skill: skills[k], installed: installed.last() })
        } else {
            rest
        }
    }
}

/// Where `x` goes in a listing: before the first entry that comes after it.
pub open spec fn entry_position(s: Seq<EntryView>, x: EntryView) -> int {
    first_match(s, |y: EntryView| entry_lt(x, y))
}

/// Entries in listing order, each placed after those that do not come
/// after it (a stable sort by skill name and directory name).
pub open spec fn in_list_order(s: Seq<EntryView>) -> Seq<EntryView>
    decreases s.len(),
{
    if s.len() == 0 {
        Seq::empty()
    } else {
        let t = in_list_order(s.drop_last());
        t.insert(entry_position(t, s.last()), s.last())
    }
}

pub proof fn lemma_entry_lt_total(a: EntryView, b: EntryView)
    ensures
        (a.skill.name == b.skill.name && a.installed.dir_name == b.installed.dir_name) || entry_lt(a, b)
            || entry_lt(b, a),
        !(entry_lt(a, b) && entry_lt(b, a)),
{
    lemma_text_lt_total(a.skill.name, b.skill.name);
    lemma_text_lt_total(a.installed.dir_name, b.installed.dir_name);
}

pub proof fn lemma_entry_lt_transitive(a: EntryView, b: EntryView, c: EntryView)
    requires
        entry_lt(a, b),
        entry_lt(b, c),
    ensures
        entry_lt(a, c),
{
    if text_lt(a.skill.name, b.skill.name) && text_lt(b.skill.name, c.skill.name) {
        lemma_text_lt_transitive(a.skill.name, b.skill.name, c.skill.name);
    }
    if a.skill.name == b.skill.name && b.skill.name == c.skill.name {
        lemma_text_lt_irreflexive(a.skill.name);
        lemma_text_lt_transitive(a.installed.dir_name, b.installed.dir_name, c.installed.dir_name);
    }
}

/// Inserting `x` after every entry that does not come after it keeps the
/// list sorted, and appends `x` to the entries that share its key.
proof fn lemma_insert_sorted(s: Seq<EntryView>, x: EntryView, pos: int)
    requires
        entries_sorted(s),
        0 <= pos <= s.len(),
        forall|j: int| 0 <= j < pos ==> !entry_lt(x, #[trigger] s[j]),
        pos < s.len() ==> entry_lt(x, s[pos]),
    ensures
        entries_sorted(s.insert(pos, x)),
        forall|name: Seq<char>, dir: Seq<char>|
            #[trigger] with_key(s.insert(pos, x), name, dir) == if x.skill.name == name && x.installed.dir_name == dir {
                with_key(s, name, dir).push(x)
            } else {
                with_key(s, name, dir)
            },
{
    broadcast use vstd::seq_lib::group_seq_properties;
    let t = s.insert(pos, x);
    assert forall|j: int| pos <= j < s.len() implies entry_lt(x, #[trigger] s[j]) by {
        if j > pos {
            lemma_entry_lt_total(s[pos], s[j]);
            if entry_lt(s[pos], s[j]) {
                lemma_entry_lt_transitive(x, s[pos], s[j]);
            }
        }
    }
    assert forall|a: int, b: int| 0 <= a < b < t.len() implies !entry_lt(t[b], t[a]) by {
        if b < pos {
        } else if a > pos {
            assert(t[a] == s[a - 1] && t[b] == s[b - 1]);
        } else if a == pos {
            lemma_entry_lt_total(x, s[b - 1]);
        } else if b == pos {
            lemma_entry_lt_total(x, s[a]);
        } else {
            assert(t[b] == s[b - 1]);
        }
    }
    assert(t =~= s.take(pos) + seq![x] + s.skip(pos));
    assert(s =~= s.take(pos) + s.skip(pos));
    assert forall|name: Seq<char>, dir: Seq<char>|
        #[trigger] with_key(t, name, dir) == if x.skill.name == name && x.installed.dir_name == dir {
            with_key(s, name, dir).push(x)
        } else {
            with_key(s, name, dir)
        } by {
        let p = |e: EntryView| e.skill.name == name && e.installed.dir_name == dir;
        let front = s.take(pos);
        let back = s.skip(pos);
        Seq::filter_distributes_over_add(front + seq![x], back, p);
        Seq::filter_distributes_over_add(front, seq![x], p);
        Seq::filter_distributes_over_add(front, back, p);
        seq![x].lemma_filter_push(x, p);
        assert(seq![x] =~= Seq::<EntryView>::empty().push(x));
        Seq::<EntryView>::empty().lemma_filter_push(x, p);
        assert(Seq::<EntryView>::empty().filter(p) =~= Seq::<EntryView>::empty()) by {
            reveal(Seq::filter);
        }
        if p(x) {
            assert forall|j: int| 0 <= j < back.len() implies !p(#[trigger] back[j]) by {
                assert(back[j] == s[pos + j]);
                lemma_text_lt_irreflexive(x.skill.name);
                lemma_text_lt_irreflexive(x.installed.dir_name);
            }
            assert(back.all(|e: EntryView| !p(e)));
            back.lemma_all_neg_filter_empty(p);
            assert(back.filter(p) =~= Seq::<EntryView>::empty());
            assert(with_key(t, name, dir) =~= with_key(s, name, dir).push(x));
        } else {
            assert(with_key(t, name, dir) =~= with_key(s, name, dir));
        }
    }
}

fn entry_less(a: &SkillEntry, b: &SkillEntry) -> (r: bool)
    ensures
        r == entry_lt(a@, b@),
{
    text_less(a.skill.name.as_str(), b.skill.name.as_str()) || (a.skill.name == b.skill.name
        && text_less(a.installed.dir_name.as_str(), b.installed.dir_name.as_str()))
}

fn find_last_definition(skills: &[Skill], id: &String) -> (k: usize)
    ensures
        k == last_definition_index(skill_views(skills@), id@),
{
    let ghost sv = skill_views(skills@);
    let mut k: usize = skills.len();
    let mut i: usize = 0;
    while i < skills.len()
        invariant
            i <= skills@.len(),
            sv == skill_views(skills@),
            k == skills@.len() || (k < i && sv[k as int].id == id@),
            forall|j: int| k < j < i ==> sv[j].id != id@,
            k == skills@.len() ==> forall|j: int| 0 <= j < i ==> sv[j].id != id@,
        decreases skills@.len() - i,
    {
        assert(sv[i as int] == skills@[i as int]@);
        if skills[i].id == *id {
            k = i;
        }
        i = i + 1;
    }
    proof {
        lemma_last_match(sv, |s: SkillView| s.id == id@, k as int);
    }
    k
}

/// Every installed copy with its skill definition, listed by skill name and
/// then directory name; copies with equal names keep their order.
pub fn join_skill_entries(skills: &[Skill], installed_skills: &[InstalledSkill]) -> (r: Vec<SkillEntry>)
    ensures
        entry_views(r@) == in_list_order(joined_entries(skill_views(skills@), installed_views(installed_skills@))),
        entries_sorted(entry_views(r@)),
        forall|name: Seq<char>, dir: Seq<char>|
            #[trigger] with_key(entry_views(r@), name, dir) == with_key(
                joined_entries(skill_views(skills@), installed_views(installed_skills@)),
                name,
                dir,
            ),
{
    let ghost sv = skill_views(skills@);
    let ghost iv = installed_views(installed_skills@);
    let mut out: Vec<SkillEntry> = Vec::new();
    let mut i: usize = 0;
    while i < installed_skills.len()
        invariant
            i <= installed_skills@.len(),
            sv == skill_views(skills@),
            iv == installed_views(installed_skills@),
            entries_sorted(entry_views(out@)),
            entry_views(out@) == in_list_order(joined_entries(sv, iv.take(i as int))),
            forall|name: Seq<char>, dir: Seq<char>|
                #[trigger] with_key(entry_views(out@), name, dir) == with_key(
                    joined_entries(sv, iv.take(i as int)),
                    name,
                    dir,
                ),
        decreases installed_skills@.len() - i,
    {
        proof {
            assert(iv.take(i + 1).drop_last() =~= iv.take(i as int));
            assert(iv.take(i + 1).last() == installed_skills@[i as int]@);
        }
        let k = find_last_definition(skills, &installed_skills[i].skill_id);
        if k < skills.len() {
            let e = SkillEntry { skill: skills[k].clone(), installed: installed_skills[i].clone() };
            let ghost ev = entry_views(out@);
            let mut pos: usize = 0;
            while pos < out.len() && !entry_less(&e, &out[pos])
                invariant
                    pos <= out@.len(),
                    ev == entry_views(out@),
                    forall|j: int| 0 <= j < pos ==> !entry_lt(e@, #[trigger] ev[j]),
                decreases out@.len() - pos,
            {
                assert(ev[pos as int] == out@[pos as int]@);
                pos = pos + 1;
            }
            proof {
                if pos < out@.len() {
                    assert(ev[pos as int] == out@[pos as int]@);
                }
                lemma_insert_sorted(ev, e@, pos as int);
                lemma_first_match(ev, |y: EntryView| entry_lt(e@, y), pos as int);
            }
            out.insert(pos, e);
            assert(entry_views(out@) =~= ev.insert(pos as int, e@));
            proof {
                let je = joined_entries(sv, iv.take(i as int));
                assert(sv[k as int] == skills@[k as int]@);
                assert(e@ == EntryView { skill: sv[k as int], installed: iv[i as int] });
                assert(joined_entries(sv, iv.take(i + 1)) == je.push(e@));
                assert(je.push(e@).drop_last() =~= je);
                assert forall|name: Seq<char>, dir: Seq<char>|
                    #[trigger] with_key(entry_views(out@), name, dir) == with_key(
                        joined_entries(sv, iv.take(i + 1)),
                        name,
                        dir,
                    ) by {
                    je.lemma_filter_push(e@, |x: EntryView| x.skill.name == name && x.installed.dir_name == dir);
                    assert(with_key(ev.insert(pos as int, e@), name, dir) == with_key(entry_views(out@), name, dir));
                }
            }
        } else {
            assert(joined_entries(sv, iv.take(i + 1)) == joined_entries(sv, iv.take(i as int)));
        }
        i = i + 1;
    }
    assert(iv.take(installed_skills@.len() as int) =~= iv);
    out
}

} // verus!
