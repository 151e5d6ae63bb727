use vstd::prelude::*;

use crate::keyed::KeyedMap;
use crate::markdown::SkillSourceKind;
use crate::setting::{notice_is, KeyedNotice, NoticeLevel};
use crate::text;
use crate::text::{
    concat_str, from_chars, has_prefix, sort_string_list, split_lines, str_eq, sub_vec, to_chars,
    trim_char_vec, trim_str, trim_vec,
};

verus! {

// ---------------------------------------------------------------------------
// Registries in the configuration
// ---------------------------------------------------------------------------

/// The configuration of one skills registry: where it lives, and the skills installed from it.
#[derive(Debug)]
pub struct SkillsRegistryConfig {
    pub address: String,
    pub installed: Vec<String>,
}

/// Whether `x` occurs in `s`.
pub open spec fn has_name(s: Seq<Seq<char>>, x: Seq<char>) -> bool {
    exists|i: int| 0 <= i < s.len() && s[i] == x
}

/// `s` without the occurrences of `x`, the others in order.
pub open spec fn without_name(s: Seq<Seq<char>>, x: Seq<char>) -> Seq<Seq<char>>
    decreases s.len(),
{
    if s.len() == 0 {
        s
    } else if s.last() == x {
        without_name(s.drop_last(), x)
    } else {
        without_name(s.drop_last(), x).push(s.last())
    }
}

proof fn lemma_without_name(s: Seq<Seq<char>>, x: Seq<char>)
    ensures
        without_name(s, x).len() <= s.len(),
        without_name(s, x).len() == s.len() <==> !has_name(s, x),
        !has_name(without_name(s, x), x),
    decreases s.len(),
{
    if s.len() > 0 {
        let t = s.drop_last();
        lemma_without_name(t, x);
        if has_name(t, x) {
            let i = choose|i: int| 0 <= i < t.len() && t[i] == x;
            assert(s[i] == x);
        }
        if has_name(s, x) && s.last() != x {
            let i = choose|i: int| 0 <= i < s.len() && s[i] == x;
            assert(t[i] == x);
        }
        if s.last() != x {
            let w = without_name(t, x).push(s.last());
            if has_name(w, x) {
                let i = choose|i: int| 0 <= i < w.len() && w[i] == x;
                assert(without_name(t, x)[i] == x);
            }
        }
    }
}

/// `v` without the strings equal to `x`.
fn remove_name(v: &Vec<String>, x: &str) -> (r: Vec<String>)
    ensures
        text::string_views(r@) == without_name(text::string_views(v@), x@),
{
    let ghost all = text::string_views(v@);
    let mut r: Vec<String> = Vec::new();
    let mut i: usize = 0;
    assert(all.take(0) =~= Seq::<Seq<char>>::empty());
    assert(text::string_views(r@) =~= Seq::<Seq<char>>::empty());
    while i < v.len()
        invariant
            i <= v.len(),
            all == text::string_views(v@),
            text::string_views(r@) == without_name(all.take(i as int), x@),
        decreases v.len() - i,
    {
        assert(all.take(i + 1).drop_last() =~= all.take(i as int));
        assert(all.take(i + 1).last() == v@[i as int]@);
        if !str_eq(v[i].as_str(), x) {
            let ghost before = r@;
            r.push(v[i].clone());
            assert(text::string_views(r@) =~= text::string_views(before).push(v@[i as int]@));
        }
        i = i + 1;
    }
    assert(all.take(v.len() as int) =~= all);
    r
}

/// Whether some string of `v` equals `x`.
fn contains_name(v: &Vec<String>, x: &str) -> (r: bool)
    ensures
        r == has_name(text::string_views(v@), x@),
{
    let mut i: usize = 0;
    while i < v.len()
        invariant
            i <= v.len(),
            forall|j: int| 0 <= j < i ==> (#[trigger] v@[j])@ != x@,
        decreases v.len() - i,
    {
        if str_eq(v[i].as_str(), x) {
            assert(text::string_views(v@)[i as int] == x@);
            return true;
        }
        i = i + 1;
    }
    proof {
        if has_name(text::string_views(v@), x@) {
            let k = choose|k: int|
                0 <= k < text::string_views(v@).len() && text::string_views(v@)[k] == x@;
            assert(v@[k]@ == x@);
        }
    }
    false
}

/// A copy of a list of strings.
pub fn clone_strings(v: &Vec<String>) -> (r: Vec<String>)
    ensures
        r@ == v@,
{
    let mut r: Vec<String> = Vec::new();
    let mut i: usize = 0;
    while i < v.len()
        invariant
            i <= v.len(),
            r@ == v@.take(i as int),
        decreases v.len() - i,
    {
        r.push(v[i].clone());
        assert(v@.take(i + 1) =~= v@.take(i as int).push(v@[i as int]));
        i = i + 1;
    }
    assert(v@.take(v.len() as int) =~= v@);
    r
}

/// Drops `skill_name` from the installed list of registry `registry_name`; the flag tells
/// whether anything was dropped. Other registries, and a missing registry, stay as they are.
pub fn remove_skill_from_config(
    registries: KeyedMap<SkillsRegistryConfig>,
    registry_name: &str,
    skill_name: &str,
) -> (r: (KeyedMap<SkillsRegistryConfig>, bool))
    ensures
        !registries@.dom().contains(registry_name@) ==> r.0@ == registries@ && !r.1,
        registries@.dom().contains(registry_name@) ==> {
            let old_reg = registries@[registry_name@];
            let new_reg = r.0@[registry_name@];
            &&& r.0@.dom() == registries@.dom()
            &&& forall|k: Seq<char>|
                k != registry_name@ && #[trigger] registries@.dom().contains(k) ==> r.0@[k]
                    == registries@[k]
            &&& new_reg.address == old_reg.address
            &&& text::string_views(new_reg.installed@) == without_name(
                text::string_views(old_reg.installed@),
                skill_name@,
            )
            &&& r.1 == has_name(text::string_views(old_reg.installed@), skill_name@)
        },
{
    let mut registries = registries;
    let ghost before = registries@;
    match registries.remove(registry_name) {
        None => {
            assert(registries@ =~= before);
            (registries, false)
        },
        Some(reg) => {
            let installed = remove_name(&reg.installed, skill_name);
            proof {
                lemma_without_name(text::string_views(reg.installed@), skill_name@);
            }
            let changed = installed.len() != reg.installed.len();
            let updated = SkillsRegistryConfig { address: reg.address, installed };
            registries.insert(registry_name.to_owned(), updated);
            assert(registries@.dom() =~= before.dom());
            (registries, changed)
        },
    }
}

/// Adds `skill_name` to the installed list of registry `registry_name` and sorts the list;
/// the flag tells whether it was added. A skill already listed, or a missing registry,
/// leaves everything as it is.
pub fn add_skill_to_config(
    registries: KeyedMap<SkillsRegistryConfig>,
    registry_name: &str,
    skill_name: &str,
) -> (r: (KeyedMap<SkillsRegistryConfig>, bool))
    ensures
        !registries@.dom().contains(registry_name@) ==> r.0@ == registries@ && !r.1,
        registries@.dom().contains(registry_name@) ==> {
            let old_reg = registries@[registry_name@];
            let new_reg = r.0@[registry_name@];
            let listed = has_name(text::string_views(old_reg.installed@), skill_name@);
            &&& r.1 == !listed
            &&& listed ==> r.0@ == registries@
            &&& !listed ==> {
                &&& r.0@.dom() == registries@.dom()
                &&& forall|k: Seq<char>|
                    k != registry_name@ && #[trigger] registries@.dom().contains(k) ==> r.0@[k]
                        == registries@[k]
                &&& new_reg.address == old_reg.address
                &&& text::string_views(new_reg.installed@) == text::sort_seqs(
                    text::string_views(old_reg.installed@).push(skill_name@),
                )
            }
        },
{
    let mut registries = registries;
    let ghost before = registries@;
    match registries.remove(registry_name) {
        None => {
            assert(registries@ =~= before);
            (registries, false)
        },
        Some(reg) => {
            if contains_name(&reg.installed, skill_name) {
                registries.insert(registry_name.to_owned(), reg);
                assert(registries@ =~= before);
                return (registries, false);
            }
            let mut installed = reg.installed;
            let ghost old_list = installed@;
            installed.push(skill_name.to_owned());
            assert(text::string_views(installed@) =~= text::string_views(old_list).push(
                skill_name@,
            ));
            let sorted = sort_string_list(installed);
            let updated = SkillsRegistryConfig { address: reg.address, installed: sorted };
            registries.insert(registry_name.to_owned(), updated);
            assert(registries@.dom() =~= before.dom());
            (registries, true)
        },
    }
}

/// Adding a skill that is not listed yet lists it once more than before, and the list
/// comes out sorted.
pub proof fn lemma_added_skill_listed(installed: Seq<Seq<char>>, skill: Seq<char>)
    ensures
        text::sort_seqs(installed.push(skill)).to_multiset() == installed.to_multiset().insert(
            skill,
        ),
        text::seqs_sorted(text::sort_seqs(installed.push(skill))),
        has_name(text::sort_seqs(installed.push(skill)), skill),
{
    text::lemma_sort_seqs(installed.push(skill));
    vstd::seq_lib::to_multiset_build(installed, skill);
    let out = text::sort_seqs(installed.push(skill));
    assert(out.to_multiset().count(skill) > 0);
    vstd::seq_lib::to_multiset_contains(out, skill);
    assert(out.contains(skill));
}

/// Removing a skill leaves no copy of it in the list.
pub proof fn lemma_removed_skill_gone(installed: Seq<Seq<char>>, skill: Seq<char>)
    ensures
        !has_name(without_name(installed, skill), skill),
        without_name(installed, skill).len() < installed.len() <==> has_name(installed, skill),
{
    lemma_without_name(installed, skill);
}

/// A list without a name it does not hold is the list itself.
proof fn lemma_without_absent(s: Seq<Seq<char>>, x: Seq<char>)
    requires
        !has_name(s, x),
    ensures
        without_name(s, x) == s,
    decreases s.len(),
{
    if s.len() > 0 {
        let t = s.drop_last();
        assert(!has_name(t, x)) by {
            if has_name(t, x) {
                let i = choose|i: int| 0 <= i < t.len() && t[i] == x;
                assert(s[i] == x);
            }
        }
        assert(s.last() != x) by {
            assert(s[s.len() - 1] == s.last());
        }
        lemma_without_absent(t, x);
        assert(t.push(s.last()) =~= s);
    }
}

/// Dropping a name from two lists joined is dropping it from each.
proof fn lemma_without_concat(a: Seq<Seq<char>>, b: Seq<Seq<char>>, x: Seq<char>)
    ensures
        without_name(a + b, x) == without_name(a, x) + without_name(b, x),
    decreases b.len(),
{
    if b.len() == 0 {
        assert(a + b =~= a);
        assert(without_name(a, x) + without_name(b, x) =~= without_name(a, x));
    } else {
        assert((a + b).drop_last() =~= a + b.drop_last());
        assert((a + b).last() == b.last());
        lemma_without_concat(a, b.drop_last(), x);
        if b.last() != x {
            assert((without_name(a, x) + without_name(b.drop_last(), x)).push(b.last())
                =~= without_name(a, x) + without_name(b.drop_last(), x).push(b.last()));
        }
    }
}

/// Where every entry of `r` comes no later than `key`, `key` goes at the end.
proof fn lemma_first_after_all(r: Seq<Seq<char>>, key: Seq<char>)
    requires
        forall|k: int| 0 <= k < r.len() ==> text::seq_le(#[trigger] r[k], key),
    ensures
        text::first_after_seq(r, key) == r.len(),
    decreases r.len(),
{
    if r.len() > 0 {
        let t = r.drop_first();
        assert forall|k: int| 0 <= k < t.len() implies text::seq_le(#[trigger] t[k], key) by {
            assert(t[k] == r[k + 1]);
        }
        assert(text::seq_le(r[0], key));
        lemma_first_after_all(t, key);
    }
}

/// Sorting a sorted list leaves it as it is.
proof fn lemma_sort_sorted(s: Seq<Seq<char>>)
    requires
        text::seqs_sorted(s),
    ensures
        text::sort_seqs(s) == s,
    decreases s.len(),
{
    if s.len() > 0 {
        let t = s.drop_last();
        assert(text::seqs_sorted(t)) by {
            assert forall|i: int, j: int| 0 <= i < j < t.len() implies text::seq_le(
                #[trigger] t[i],
                #[trigger] t[j],
            ) by {
                assert(t[i] == s[i] && t[j] == s[j]);
            }
        }
        lemma_sort_sorted(t);
        assert forall|k: int| 0 <= k < t.len() implies text::seq_le(#[trigger] t[k], s.last()) by {
            assert(t[k] == s[k]);
            assert(s[s.len() - 1] == s.last());
        }
        lemma_first_after_all(t, s.last());
        assert(t.insert(t.len() as int, s.last()) =~= s);
    }
}

/// Removing a skill just added to a registry's list gives the list back, when the list
/// was sorted and did not hold the skill.
pub proof fn lemma_remove_undoes_add(installed: Seq<Seq<char>>, skill: Seq<char>)
    requires
        text::seqs_sorted(installed),
        !has_name(installed, skill),
    ensures
        has_name(text::sort_seqs(installed.push(skill)), skill),
        without_name(text::sort_seqs(installed.push(skill)), skill) == installed,
{
    lemma_added_skill_listed(installed, skill);
    let s = installed.push(skill);
    assert(s.drop_last() =~= installed);
    lemma_sort_sorted(installed);
    let p = text::first_after_seq(installed, skill) as int;
    text::lemma_first_after_seq(installed, skill);
    let out = installed.insert(p, skill);
    assert(text::sort_seqs(s) == out);
    let a = installed.take(p);
    let b = installed.skip(p);
    assert(out =~= a + seq![skill] + b);
    assert(installed =~= a + b);
    assert(!has_name(a, skill)) by {
        if has_name(a, skill) {
            let i = choose|i: int| 0 <= i < a.len() && a[i] == skill;
            assert(installed[i] == skill);
        }
    }
    assert(!has_name(b, skill)) by {
        if has_name(b, skill) {
            let i = choose|i: int| 0 <= i < b.len() && b[i] == skill;
            assert(installed[p + i] == skill);
        }
    }
    lemma_without_concat(a + seq![skill], b, skill);
    lemma_without_concat(a, seq![skill], skill);
    assert(without_name(seq![skill], skill) =~= Seq::<Seq<char>>::empty()) by {
        let e = Seq::<Seq<char>>::empty();
        assert(without_name(e, skill) == e);
        assert(seq![skill].drop_last() =~= e);
        assert(seq![skill].last() == skill);
    }
    lemma_without_absent(a, skill);
    lemma_without_absent(b, skill);
    assert(a + Seq::<Seq<char>>::empty() =~= a);
}

/// The views of a list of string pairs.
pub open spec fn pair_views(v: Seq<(String, String)>) -> Seq<(Seq<char>, Seq<char>)> {
    v.map_values(|p: (String, String)| (p.0@, p.1@))
}

/// Each registry's name and address, in name order.
pub open spec fn source_pairs(registries: KeyedMap<SkillsRegistryConfig>) -> Seq<(Seq<char>, Seq<char>)> {
    registries.key_order().map_values(|k: Seq<char>| (k, registries@[k].address@))
}

/// The skills installed from the first `n` registries, as (registry, skill) pairs:
/// registry by registry in name order, each registry's skills in their listed order.
pub open spec fn installed_pairs_upto(registries: KeyedMap<SkillsRegistryConfig>, n: int) -> Seq<
    (Seq<char>, Seq<char>),
>
    decreases n,
{
    if n <= 0 {
        Seq::empty()
    } else {
        let k = registries.key_order()[n - 1];
        installed_pairs_upto(registries, n - 1) + text::string_views(
            registries@[k].installed@,
        ).map_values(|s: Seq<char>| (k, s))
    }
}

/// The names and addresses of the registries that the skill store synchronizes.
pub fn registry_sources(registries: &KeyedMap<SkillsRegistryConfig>) -> (r: Vec<(String, String)>)
    ensures
        pair_views(r@) == source_pairs(*registries),
{
    let n = registries.len();
    let mut out: Vec<(String, String)> = Vec::new();
    let mut i: usize = 0;
    while i < n
        invariant
            i <= n,
            n == registries.key_order().len(),
            pair_views(out@) == source_pairs(*registries).take(i as int),
        decreases n - i,
    {
        let (name, reg) = registries.entry_at(i);
        let ghost before = out@;
        out.push((name.clone(), reg.address.clone()));
        proof {
            let pair = (name@, reg.address@);
            assert(pair_views(out@) =~= pair_views(before).push(pair));
            assert(source_pairs(*registries)[i as int] == pair);
            assert(source_pairs(*registries).take(i + 1) =~= source_pairs(*registries).take(i as int).push(pair));
        }
        i = i + 1;
    }
    assert(source_pairs(*registries).take(n as int) =~= source_pairs(*registries));
    out
}

/// The (registry, skill) pairs of all skills installed from registries.
pub fn installed_skill_pairs(registries: &KeyedMap<SkillsRegistryConfig>) -> (r: Vec<(String, String)>)
    ensures
        pair_views(r@) == installed_pairs_upto(
            *registries,
            registries.key_order().len() as int,
        ),
{
    let n = registries.len();
    let mut out: Vec<(String, String)> = Vec::new();
    let mut i: usize = 0;
    while i < n
        invariant
            i <= n,
            n == registries.key_order().len(),
            pair_views(out@) == installed_pairs_upto(*registries, i as int),
        decreases n - i,
    {
        let (name, reg) = registries.entry_at(i);
        let ghost start = pair_views(out@);
        let ghost skills = text::string_views(reg.installed@).map_values(|s: Seq<char>| (name@, s));
        let mut j: usize = 0;
        while j < reg.installed.len()
            invariant
                j <= reg.installed@.len(),
                skills == text::string_views(reg.installed@).map_values(|s: Seq<char>| (name@, s)),
                pair_views(out@) == start + skills.take(j as int),
            decreases reg.installed@.len() - j,
        {
            let ghost before = out@;
            out.push((name.clone(), reg.installed[j].clone()));
            proof {
                let pair = (name@, reg.installed@[j as int]@);
                assert(pair_views(out@) =~= pair_views(before).push(pair));
                assert(skills[j as int] == pair);
                assert(skills.take(j + 1) =~= skills.take(j as int).push(pair));
                assert(start + skills.take(j + 1) =~= (start + skills.take(j as int)).push(pair));
            }
            j = j + 1;
        }
        assert(skills.take(reg.installed@.len() as int) =~= skills);
        assert(pair_views(out@) =~= installed_pairs_upto(*registries, i + 1));
        i = i + 1;
    }
    out
}

// ---------------------------------------------------------------------------
// Local skills
// ---------------------------------------------------------------------------

/// The name of a `# <name>` heading line (already trimmed).
pub open spec fn heading_name(t: Seq<char>) -> Seq<char> {
    text::trim(t.skip(2))
}

/// The value of a `name: <value>` line (already trimmed), without surrounding quotes.
pub open spec fn field_name(t: Seq<char>) -> Seq<char> {
    text::trim_char(text::trim_char(text::trim(t.skip(5)), '"'), '\'')
}

/// The skill name that one line of a SKILL.md gives, if any.
pub open spec fn skill_name_in_line(line: Seq<char>) -> Option<Seq<char>> {
    let t = text::trim(line);
    if text::starts_with(t, "# "@) && heading_name(t).len() > 0 {
        Some(heading_name(t))
    } else if text::starts_with(t, "name:"@) && field_name(t).len() > 0 {
        Some(field_name(t))
    } else {
        None
    }
}

/// The skill name of the first line that gives one.
pub open spec fn skill_name_in_lines(ls: Seq<Seq<char>>) -> Option<Seq<char>>
    decreases ls.len(),
{
    if ls.len() == 0 {
        None
    } else {
        match skill_name_in_line(ls[0]) {
            Some(n) => Some(n),
            None => skill_name_in_lines(ls.drop_first()),
        }
    }
}

/// The skill name a SKILL.md declares, by a `# <name>` heading or a `name:` field.
pub fn parse_skill_name_from_markdown(markdown: &str) -> (r: Option<String>)
    ensures
        match r {
            Some(s) => skill_name_in_lines(text::lines_of(markdown@)) == Some(s@),
            None => skill_name_in_lines(text::lines_of(markdown@)) is None,
        },
{
    proof {
        reveal_strlit("# ");
        reveal_strlit("name:");
    }
    let chars = to_chars(markdown);
    let ls = split_lines(&chars);
    let heading = to_chars("# ");
    let field = to_chars("name:");
    let ghost all = text::views(ls@);
    let mut i: usize = 0;
    assert(all.skip(0) =~= all);
    while i < ls.len()
        invariant
            i <= ls.len(),
            all == text::views(ls@),
            all == text::lines_of(markdown@),
            heading@ == "# "@,
            field@ == "name:"@,
            heading@.len() == 2,
            field@.len() == 5,
            skill_name_in_lines(all) == skill_name_in_lines(all.skip(i as int)),
        decreases ls.len() - i,
    {
        assert(all.skip(i as int).drop_first() =~= all.skip(i + 1));
        assert(all.skip(i as int)[0] == ls@[i as int]@);
        let t = trim_vec(&ls[i]);
        if has_prefix(&t, &heading) {
            let rest = sub_vec(&t, 2, t.len());
            let value = trim_vec(&rest);
            assert(rest@ =~= t@.skip(2));
            if value.len() > 0 {
                return Some(from_chars(&value));
            }
        }
        if has_prefix(&t, &field) {
            let rest = sub_vec(&t, 5, t.len());
            assert(rest@ =~= t@.skip(5));
            let a = trim_vec(&rest);
            let b = trim_char_vec(&a, '"');
            let value = trim_char_vec(&b, '\'');
            if value.len() > 0 {
                return Some(from_chars(&value));
            }
        }
        i = i + 1;
    }
    assert(all.skip(i as int) =~= Seq::<Seq<char>>::empty());
    None
}

/// A character allowed in a local skill name: an ASCII letter or digit, `-` or `_`.
pub open spec fn is_skill_name_char(c: char) -> bool {
    ('a' <= c && c <= 'z') || ('A' <= c && c <= 'Z') || ('0' <= c && c <= '9') || c == '-' || c
        == '_'
}

/// Checks the name of a local skill: not blank, and made of `[a-zA-Z0-9_-]` once trimmed.
pub fn validate_local_skill_name(name: &str) -> (r: Result<(), String>)
    ensures
        text::trim(name@).len() == 0 ==> r is Err && r->Err_0@ == "Skill name cannot be empty"@,
        text::trim(name@).len() > 0 && !(forall|i: int|
            0 <= i < text::trim(name@).len() ==> is_skill_name_char(#[trigger] text::trim(name@)[i]))
            ==> r is Err && r->Err_0@ == "Invalid skill name `"@ + text::trim(name@)
            + "`; only [a-zA-Z0-9_-] are allowed"@,
        text::trim(name@).len() > 0 && (forall|i: int|
            0 <= i < text::trim(name@).len() ==> is_skill_name_char(#[trigger] text::trim(name@)[i]))
            ==> r is Ok,
{
    let trimmed = trim_str(name);
    let chars = to_chars(trimmed.as_str());
    if chars.len() == 0 {
        return Err("Skill name cannot be empty".to_owned());
    }
    let mut i: usize = 0;
    while i < chars.len()
        invariant
            i <= chars.len(),
            chars@ == text::trim(name@),
            trimmed@ == text::trim(name@),
            forall|j: int| 0 <= j < i ==> is_skill_name_char(#[trigger] chars@[j]),
        decreases chars.len() - i,
    {
        let c = chars[i];
        let ok = ('a' <= c && c <= 'z') || ('A' <= c && c <= 'Z') || ('0' <= c && c <= '9') || c
            == '-' || c == '_';
        if !ok {
            let head = concat_str("Invalid skill name `", trimmed.as_str());
            let msg = concat_str(head.as_str(), "`; only [a-zA-Z0-9_-] are allowed");
            assert(msg@ =~= "Invalid skill name `"@ + text::trim(name@)
                + "`; only [a-zA-Z0-9_-] are allowed"@);
            return Err(msg);
        }
        i = i + 1;
    }
    Ok(())
}

/// A skill already installed, as the manager lists it.
#[derive(Debug)]
pub struct SkillSummary {
    pub name: String,
    pub source_kind: SkillSourceKind,
    pub stale: Option<bool>,
}

/// Whether a skill named `name` is managed by a registry.
pub open spec fn registry_managed(installed: Seq<SkillSummary>, name: Seq<char>) -> bool {
    exists|i: int|
        0 <= i < installed.len() && (#[trigger] installed[i]).name@ == name
            && installed[i].source_kind == SkillSourceKind::Registry
}

/// Checks the file picked for a local install: it must be a `SKILL.md`.
pub fn check_local_skill_file(file_name: &str) -> (r: Result<(), String>)
    ensures
        file_name@ == "SKILL.md"@ ==> r is Ok,
        file_name@ != "SKILL.md"@ ==> r is Err && r->Err_0@ == "Please select a file named SKILL.md"@,
{
    if str_eq(file_name, "SKILL.md") {
        Ok(())
    } else {
        Err("Please select a file named SKILL.md".to_owned())
    }
}

/// The name under which a local SKILL.md is installed: the name it declares, when that
/// name is valid and no registry manages a skill of that name.
pub fn local_skill_name(content: &str, installed: &Vec<SkillSummary>) -> (r: Result<String, String>)
    ensures
        match skill_name_in_lines(text::lines_of(content@)) {
            None => r is Err && r->Err_0@
                == "Invalid SKILL.md format: missing skill name (`# <name>` or `name: <name>`)"@,
            Some(n) => {
                let t = text::trim(n);
                let valid = t.len() > 0 && forall|i: int|
                    0 <= i < t.len() ==> is_skill_name_char(#[trigger] t[i]);
                &&& t.len() == 0 ==> r is Err && r->Err_0@ == "Skill name cannot be empty"@
                &&& t.len() > 0 && !valid ==> r is Err && r->Err_0@ == "Invalid skill name `"@ + t
                    + "`; only [a-zA-Z0-9_-] are allowed"@
                &&& valid && registry_managed(installed@, n) ==> r is Err && r->Err_0@
                    == "Skill `"@ + n + "` is already managed by a registry; uninstall it first"@
                &&& valid && !registry_managed(installed@, n) ==> r is Ok && r->Ok_0@ == n
            },
        },
{
    let name = match parse_skill_name_from_markdown(content) {
        Some(n) => n,
        None => {
            return Err(
                "Invalid SKILL.md format: missing skill name (`# <name>` or `name: <name>`)".to_owned(),
            );
        },
    };
    match validate_local_skill_name(name.as_str()) {
        Err(e) => {
            return Err(e);
        },
        Ok(()) => {},
    }
    let mut i: usize = 0;
    while i < installed.len()
        invariant
            i <= installed.len(),
            skill_name_in_lines(text::lines_of(content@)) == Some(name@),
            text::trim(name@).len() > 0,
            forall|k: int|
                0 <= k < text::trim(name@).len() ==> is_skill_name_char(#[trigger] text::trim(name@)[k]),
            forall|j: int|
                0 <= j < i ==> !((#[trigger] installed@[j]).name@ == name@ && installed@[j].source_kind
                    == SkillSourceKind::Registry),
        decreases installed.len() - i,
    {
        if str_eq(installed[i].name.as_str(), name.as_str()) && installed[i].source_kind
            == SkillSourceKind::Registry {
            let head = concat_str("Skill `", name.as_str());
            let msg = concat_str(head.as_str(), "` is already managed by a registry; uninstall it first");
            assert(msg@ =~= "Skill `"@ + name@ + "` is already managed by a registry; uninstall it first"@);
            assert(installed@[i as int].name@ == name@);
            assert(registry_managed(installed@, name@));
            return Err(msg);
        }
        i = i + 1;
    }
    Ok(name)
}

// ---------------------------------------------------------------------------
// Skills of a registry
// ---------------------------------------------------------------------------

/// A skill that a registry offers.
#[derive(Debug)]
pub struct RegistrySkillSummary {
    pub id: String,
    pub name: String,
    pub local_path: String,
}

/// The selector that installs a registry skill: its id, else its name, else the registry's
/// name, each trimmed, the first that is not blank.
pub open spec fn skill_selector(id: Seq<char>, name: Seq<char>, registry: Seq<char>) -> Seq<char> {
    if text::trim(id).len() > 0 {
        text::trim(id)
    } else if text::trim(name).len() > 0 {
        text::trim(name)
    } else {
        text::trim(registry)
    }
}

/// The selector that installs `skill` from registry `registry_name`.
pub fn registry_skill_selector(skill: &RegistrySkillSummary, registry_name: &str) -> (r: String)
    ensures
        r@ == skill_selector(skill.id@, skill.name@, registry_name@),
{
    let id = trim_str(skill.id.as_str());
    if !id.as_str().is_empty() {
        return id;
    }
    let name = trim_str(skill.name.as_str());
    if !name.as_str().is_empty() {
        return name;
    }
    trim_str(registry_name)
}

/// What uninstalling a skill removed.
#[derive(Debug)]
pub struct SkillUninstallResult {
    pub removed_managed: bool,
    pub removed_local: bool,
}

/// `b` as `Display` writes it.
pub open spec fn bool_text(b: bool) -> Seq<char> {
    if b {
        "true"@
    } else {
        "false"@
    }
}

fn bool_string(b: bool) -> (r: String)
    ensures
        r@ == bool_text(b),
{
    if b {
        "true".to_owned()
    } else {
        "false".to_owned()
    }
}

/// The notice after a skill was uninstalled.
pub fn format_uninstall_result(
    skill_name: &str,
    registry: Option<&str>,
    result: &SkillUninstallResult,
) -> (r: String)
    ensures
        r@ == "Removed "@ + (match registry {
            Some(reg) => "registry skill `"@ + skill_name@ + "` from `"@ + reg@ + "`"@,
            None => "local skill `"@ + skill_name@ + "`"@,
        }) + " (managed index: "@ + bool_text(result.removed_managed) + ", local files: "@
            + bool_text(result.removed_local) + ")"@,
{
    let scope = match registry {
        Some(reg) => {
            let a = concat_str("registry skill `", skill_name);
            let b = concat_str(a.as_str(), "` from `");
            let c = concat_str(b.as_str(), reg);
            concat_str(c.as_str(), "`")
        },
        None => {
            let a = concat_str("local skill `", skill_name);
            concat_str(a.as_str(), "`")
        },
    };
    let a = concat_str("Removed ", scope.as_str());
    let b = concat_str(a.as_str(), " (managed index: ");
    let c = concat_str(b.as_str(), bool_string(result.removed_managed).as_str());
    let d = concat_str(c.as_str(), ", local files: ");
    let e = concat_str(d.as_str(), bool_string(result.removed_local).as_str());
    let r = concat_str(e.as_str(), ")");
    proof {
        let sc = match registry {
            Some(reg) => "registry skill `"@ + skill_name@ + "` from `"@ + reg@ + "`"@,
            None => "local skill `"@ + skill_name@ + "`"@,
        };
        assert(scope@ =~= sc);
        assert(r@ =~= "Removed "@ + sc + " (managed index: "@ + bool_text(result.removed_managed)
            + ", local files: "@ + bool_text(result.removed_local) + ")"@);
    }
    r
}

/// How fresh an installed registry skill is.
#[derive(Clone, Copy, Debug, PartialEq, Eq, Structural)]
pub enum StaleStatus {
    Stale,
    Fresh,
    Unknown,
}

/// The freshness a skill's stale flag stands for.
pub fn skill_stale_status(stale: Option<bool>) -> (r: StaleStatus)
    ensures
        r == (match stale {
            Some(true) => StaleStatus::Stale,
            Some(false) => StaleStatus::Fresh,
            None => StaleStatus::Unknown,
        }),
{
    match stale {
        Some(true) => StaleStatus::Stale,
        Some(false) => StaleStatus::Fresh,
        None => StaleStatus::Unknown,
    }
}

impl StaleStatus {
    /// The word shown for the status.
    pub fn label(&self) -> (r: &'static str)
        ensures
            r@ == (match *self {
                StaleStatus::Stale => "stale"@,
                StaleStatus::Fresh => "fresh"@,
                StaleStatus::Unknown => "-"@,
            }),
    {
        match self {
            StaleStatus::Stale => "stale",
            StaleStatus::Fresh => "fresh",
            StaleStatus::Unknown => "-",
        }
    }
}

/// The word shown for where an installed skill comes from.
pub fn source_label(kind: SkillSourceKind) -> (r: &'static str)
    ensures
        r@ == (match kind {
            SkillSourceKind::Local => "local"@,
            SkillSourceKind::Registry => "registry"@,
        }),
{
    match kind {
        SkillSourceKind::Local => "local",
        SkillSourceKind::Registry => "registry",
    }
}


// ---------------------------------------------------------------------------
// Installing and uninstalling
// ---------------------------------------------------------------------------

/// Whether `previous` names one of `names`.
pub open spec fn still_listed(previous: Option<&str>, names: Set<Seq<char>>) -> bool {
    match previous {
        Some(p) => names.contains(p@),
        None => false,
    }
}

/// The registry the install window shows: the one it showed before while that registry
/// still exists, else the first registry by name; none when no registry is configured.
pub fn install_window_registry(previous: Option<&str>, registries: &KeyedMap<SkillsRegistryConfig>) -> (r:
    Option<String>)
    ensures
        r is None <==> registries@.dom() == Set::<Seq<char>>::empty(),
        r matches Some(n) ==> registries@.dom().contains(n@),
        still_listed(previous, registries@.dom()) ==> r is Some && r->0@ == previous->0@,
        !still_listed(previous, registries@.dom()) && r is Some ==> forall|other: Seq<char>|
            #[trigger] registries@.dom().contains(other) ==> text::seq_le(r->0@, other),
{
    if let Some(p) = previous {
        if registries.contains_key(p) {
            return Some(p.to_string());
        }
    }
    registries.first_key()
}

/// Whether the skill shown in the detail window is still installed.
pub open spec fn detail_listed(detail: Option<String>, items: Seq<SkillSummary>) -> bool {
    match detail {
        Some(d) => exists|i: int| 0 <= i < items.len() && (#[trigger] items[i]).name@ == d@,
        None => true,
    }
}

/// Whether the detail window keeps its skill once the installed skills were listed again.
pub fn keeps_detail(detail: &Option<String>, items: &Vec<SkillSummary>) -> (b: bool)
    ensures
        b == detail_listed(*detail, items@),
{
    match detail.as_ref() {
        None => true,
        Some(d) => {
            let mut i: usize = 0;
            while i < items.len()
                invariant
                    i <= items@.len(),
                    *detail == Some(*d),
                    forall|j: int| 0 <= j < i ==> (#[trigger] items@[j]).name@ != d@,
                decreases items@.len() - i,
            {
                if str_eq(items[i].name.as_str(), d.as_str()) {
                    assert(items@[i as int].name@ == d@);
                    assert(exists|k: int| 0 <= k < items@.len() && (#[trigger] items@[k]).name@ == d@);
                    return true;
                }
                i = i + 1;
            }
            false
        },
    }
}

/// How installing a skill from a registry went.
#[derive(Debug)]
pub enum InstallStep {
    /// The configuration could not be saved.
    SaveFailed(String),
    /// The configuration lists the skill already; nothing was installed.
    AlreadyInstalled,
    Installed,
    /// The configuration lists the skill, but installing its files failed.
    InstallFailed(String),
}

/// The notice after installing skill `skill_id` of registry `registry`.
pub fn install_notice(registry: &str, skill_id: &str, step: InstallStep) -> (n: crate::panels::Notice)
    ensures
        match step {
            InstallStep::SaveFailed(e) => n matches crate::panels::Notice::Error(m) && m@
                == "Failed to save installed skill `"@ + skill_id@ + "` to config: "@ + e@,
            InstallStep::AlreadyInstalled => n matches crate::panels::Notice::Info(m) && m@ == "`"@
                + skill_id@ + "` is already installed"@,
            InstallStep::Installed => n matches crate::panels::Notice::Success(m) && m@ == "Installed `"@
                + skill_id@ + "` from registry `"@ + registry@ + "`"@,
            InstallStep::InstallFailed(e) => n matches crate::panels::Notice::Warning(m) && m@
                == "Saved `"@ + skill_id@ + "` in config, but install did not complete immediately: "@
                + e@,
        },
{
    match step {
        InstallStep::SaveFailed(e) => {
            let a = concat_str("Failed to save installed skill `", skill_id);
            let b = concat_str(a.as_str(), "` to config: ");
            crate::panels::Notice::Error(concat_str(b.as_str(), e.as_str()))
        },
        InstallStep::AlreadyInstalled => {
            let a = concat_str("`", skill_id);
            crate::panels::Notice::Info(concat_str(a.as_str(), "` is already installed"))
        },
        InstallStep::Installed => {
            let a = concat_str("Installed `", skill_id);
            let b = concat_str(a.as_str(), "` from registry `");
            let c = concat_str(b.as_str(), registry);
            crate::panels::Notice::Success(concat_str(c.as_str(), "`"))
        },
        InstallStep::InstallFailed(e) => {
            let a = concat_str("Saved `", skill_id);
            let b = concat_str(a.as_str(), "` in config, but install did not complete immediately: ");
            crate::panels::Notice::Warning(concat_str(b.as_str(), e.as_str()))
        },
    }
}

/// How uninstalling a skill of a registry from the install window went.
#[derive(Debug)]
pub enum RegistryUninstallStep {
    /// The configuration could not be saved.
    SaveFailed(String),
    /// The configuration did not list the skill; nothing was removed.
    NotInstalled,
    Uninstalled,
    /// The configuration no longer lists the skill, but removing it from the registry
    /// store failed.
    UninstallFailed(String),
}

/// The notice after uninstalling skill `skill_id` of registry `registry` from the install
/// window.
pub fn registry_uninstall_notice(registry: &str, skill_id: &str, step: RegistryUninstallStep) -> (n:
    crate::panels::Notice)
    ensures
        match step {
            RegistryUninstallStep::SaveFailed(e) => n matches crate::panels::Notice::Error(m) && m@
                == "Failed to update config while uninstalling `"@ + skill_id@ + "`: "@ + e@,
            RegistryUninstallStep::NotInstalled => n matches crate::panels::Notice::Info(m) && m@
                == "`"@ + skill_id@ + "` is not installed"@,
            RegistryUninstallStep::Uninstalled => n matches crate::panels::Notice::Success(m) && m@
                == "Uninstalled `"@ + skill_id@ + "` from registry `"@ + registry@ + "`"@,
            RegistryUninstallStep::UninstallFailed(e) => n matches crate::panels::Notice::Warning(m)
                && m@ == "Removed `"@ + skill_id@
                + "` from config, but registry uninstall did not complete immediately: "@ + e@,
        },
{
    match step {
        RegistryUninstallStep::SaveFailed(e) => {
            let a = concat_str("Failed to update config while uninstalling `", skill_id);
            let b = concat_str(a.as_str(), "`: ");
            crate::panels::Notice::Error(concat_str(b.as_str(), e.as_str()))
        },
        RegistryUninstallStep::NotInstalled => {
            let a = concat_str("`", skill_id);
            crate::panels::Notice::Info(concat_str(a.as_str(), "` is not installed"))
        },
        RegistryUninstallStep::Uninstalled => {
            let a = concat_str("Uninstalled `", skill_id);
            let b = concat_str(a.as_str(), "` from registry `");
            let c = concat_str(b.as_str(), registry);
            crate::panels::Notice::Success(concat_str(c.as_str(), "`"))
        },
        RegistryUninstallStep::UninstallFailed(e) => {
            let a = concat_str("Removed `", skill_id);
            let b = concat_str(
                a.as_str(),
                "` from config, but registry uninstall did not complete immediately: ",
            );
            crate::panels::Notice::Warning(concat_str(b.as_str(), e.as_str()))
        },
    }
}

/// How uninstalling an installed skill went.
#[derive(Debug)]
pub enum UninstallStep {
    /// Removing the skill from its registry's configuration failed; nothing else was done.
    ConfigFailed(String),
    /// The files were removed; `config_updated` tells whether the configuration listed it.
    Removed { config_updated: bool, result: SkillUninstallResult },
    /// Removing the files failed.
    CleanupFailed { config_updated: bool, error: String },
}

/// The notice after uninstalling skill `skill_name`, installed from `registry` or locally.
pub fn uninstall_notice(skill_name: &str, registry: Option<&str>, step: UninstallStep) -> (n:
    crate::panels::Notice)
    ensures
        match step {
            UninstallStep::ConfigFailed(e) => n matches crate::panels::Notice::Error(m) && m@
                == "Failed to remove `"@ + skill_name@ + "` from registry config: "@ + e@,
            UninstallStep::Removed { config_updated, result } => n matches crate::panels::Notice::Success(
                m,
            ) && m@ == "Removed "@ + (match registry {
                Some(reg) => "registry skill `"@ + skill_name@ + "` from `"@ + reg@ + "`"@,
                None => "local skill `"@ + skill_name@ + "`"@,
            }) + " (managed index: "@ + bool_text(result.removed_managed) + ", local files: "@
                + bool_text(result.removed_local) + ")"@,
            UninstallStep::CleanupFailed { config_updated, error } => if config_updated {
                n matches crate::panels::Notice::Warning(m) && m@ == "Removed `"@ + skill_name@
                    + "` from config, but local cleanup failed: "@ + error@
            } else {
                n matches crate::panels::Notice::Error(m) && m@ == "Failed to uninstall `"@
                    + skill_name@ + "`: "@ + error@
            },
        },
{
    match step {
        UninstallStep::ConfigFailed(e) => {
            let a = concat_str("Failed to remove `", skill_name);
            let b = concat_str(a.as_str(), "` from registry config: ");
            crate::panels::Notice::Error(concat_str(b.as_str(), e.as_str()))
        },
        UninstallStep::Removed { config_updated: _, result } => {
            crate::panels::Notice::Success(format_uninstall_result(skill_name, registry, &result))
        },
        UninstallStep::CleanupFailed { config_updated, error } => {
            if config_updated {
                let a = concat_str("Removed `", skill_name);
                let b = concat_str(a.as_str(), "` from config, but local cleanup failed: ");
                crate::panels::Notice::Warning(concat_str(b.as_str(), error.as_str()))
            } else {
                let a = concat_str("Failed to uninstall `", skill_name);
                let b = concat_str(a.as_str(), "`: ");
                crate::panels::Notice::Error(concat_str(b.as_str(), error.as_str()))
            }
        },
    }
}

// ---------------------------------------------------------------------------
// The registry form
// ---------------------------------------------------------------------------

/// The form that adds or edits a skills registry.
#[derive(Debug)]
pub struct SkillsRegistryForm {
    pub original_name: Option<String>,
    pub name: String,
    pub address: String,
    pub installed_skills: Vec<String>,
}

/// Which title the registry form window shows.
#[derive(Clone, Copy, Debug, PartialEq, Eq, Structural)]
pub enum FormMode {
    Add,
    Edit,
}

impl SkillsRegistryForm {
    /// An empty form for a new registry.
    pub fn new() -> (f: Self)
        ensures
            f.original_name is None,
            f.name@ == Seq::<char>::empty(),
            f.address@ == Seq::<char>::empty(),
            f.installed_skills@.len() == 0,
    {
        SkillsRegistryForm {
            original_name: None,
            name: String::new(),
            address: String::new(),
            installed_skills: Vec::new(),
        }
    }

    /// A form that edits registry `name`.
    pub fn edit(name: &str, registry: &SkillsRegistryConfig) -> (f: Self)
        ensures
            f.original_name is Some && f.original_name->0@ == name@,
            f.name@ == name@,
            f.address == registry.address,
            f.installed_skills@ == registry.installed@,
    {
        SkillsRegistryForm {
            original_name: Some(name.to_owned()),
            name: name.to_owned(),
            address: registry.address.clone(),
            installed_skills: clone_strings(&registry.installed),
        }
    }

    /// Whether the form edits a registry or adds one.
    pub fn title(&self) -> (m: FormMode)
        ensures
            m == (if self.original_name is Some {
                FormMode::Edit
            } else {
                FormMode::Add
            }),
    {
        if self.original_name.is_some() {
            FormMode::Edit
        } else {
            FormMode::Add
        }
    }

    /// The registry name, trimmed.
    pub fn normalized_name(&self) -> (r: String)
        ensures
            r@ == text::trim(self.name@),
    {
        trim_str(self.name.as_str())
    }

    /// The registry the form describes: its address trimmed, its installed skills as listed.
    pub fn to_config(&self) -> (c: SkillsRegistryConfig)
        ensures
            c.address@ == text::trim(self.address@),
            c.installed@ == self.installed_skills@,
    {
        SkillsRegistryConfig {
            address: trim_str(self.address.as_str()),
            installed: clone_strings(&self.installed_skills),
        }
    }
}

/// The message that refuses a registry form, if it is refused.
pub open spec fn registry_form_error(
    registries: Map<Seq<char>, SkillsRegistryConfig>,
    form: SkillsRegistryForm,
) -> Option<Seq<char>> {
    let name = text::trim(form.name@);
    if name.len() == 0 {
        Some("Registry name cannot be empty"@)
    } else if text::trim(form.address@).len() == 0 {
        Some("Registry address cannot be empty"@)
    } else if (match form.original_name {
        Some(o) => o@ != name,
        None => true,
    }) && registries.dom().contains(name) {
        Some("Registry `"@ + name + "` already exists"@)
    } else {
        None
    }
}

/// Opening the editor of a registry and saving it unchanged is accepted, under the same
/// name, with the same address and installed skills, when the name and address have no
/// surrounding white space and are not empty.
pub proof fn lemma_registry_edit_roundtrip(
    registries: Map<Seq<char>, SkillsRegistryConfig>,
    name: Seq<char>,
    form: SkillsRegistryForm,
)
    requires
        registries.dom().contains(name),
        name.len() > 0,
        text::trim(name) == name,
        registries[name].address@.len() > 0,
        text::trim(registries[name].address@) == registries[name].address@,
        form.original_name is Some && form.original_name->0@ == name,
        form.name@ == name,
        form.address@ == registries[name].address@,
        form.installed_skills@ == registries[name].installed@,
    ensures
        registry_form_error(registries, form) is None,
        text::trim(form.name@) == name,
        text::trim(form.address@) == registries[name].address@,
{
}

/// The skills registry settings page.
#[derive(Debug)]
pub struct SkillsRegistryPanel {
    pub registries: KeyedMap<SkillsRegistryConfig>,
    pub form: Option<SkillsRegistryForm>,
    pub selected_registry: Option<String>,
    pub delete_confirm_id: Option<String>,
    pub sync_timeout_text: String,
    pub syncing_registry: Option<String>,
}

/// Why a registry synchronization does not start.
#[derive(Debug, PartialEq, Eq)]
pub enum SyncRefusal {
    /// Another synchronization is running.
    AlreadyRunning,
    /// No registry has that name.
    NotFound,
    /// The timeout field does not hold a whole number of seconds.
    InvalidTimeout,
}

/// What a registry synchronization is started with.
#[derive(Debug)]
pub struct RegistrySyncPlan {
    pub registry_name: String,
    pub address: String,
    /// The installed skills of the registry, each with the registry's name.
    pub installed: Vec<(String, String)>,
    pub timeout_seconds: u64,
}

impl SkillsRegistryPanel {
    /// Saves `form` into `registries`, or says why it cannot: under the trimmed name, with
    /// the trimmed address; a renamed registry leaves its old name.
    pub fn apply_form(registries: KeyedMap<SkillsRegistryConfig>, form: &SkillsRegistryForm) -> (r:
        Result<KeyedMap<SkillsRegistryConfig>, String>)
        ensures
            match r {
                Err(e) => registry_form_error(registries@, *form) == Some(e@),
                Ok(m) => {
                    let name = text::trim(form.name@);
                    let kept = match form.original_name {
                        Some(o) => if o@ != name {
                            registries@.remove(o@)
                        } else {
                            registries@
                        },
                        None => registries@,
                    };
                    &&& registry_form_error(registries@, *form) is None
                    &&& m@ == kept.insert(name, m@[name])
                    &&& m@[name].address@ == text::trim(form.address@)
                    &&& m@[name].installed@ == form.installed_skills@
                },
            },
    {
        let mut registries = registries;
        let name = form.normalized_name();
        if name.as_str().is_empty() {
            return Err("Registry name cannot be empty".to_owned());
        }
        let registry = form.to_config();
        if registry.address.as_str().is_empty() {
            return Err("Registry address cannot be empty".to_owned());
        }
        let duplicate = {
            let head = concat_str("Registry `", name.as_str());
            concat_str(head.as_str(), "` already exists")
        };
        assert(duplicate@ =~= "Registry `"@ + name@ + "` already exists"@);
        match &form.original_name {
            Some(original) => {
                if !str_eq(original.as_str(), name.as_str()) {
                    if registries.contains_key(name.as_str()) {
                        return Err(duplicate);
                    }
                    registries.remove(original.as_str());
                }
            },
            None => {
                if registries.contains_key(name.as_str()) {
                    return Err(duplicate);
                }
            },
        }
        registries.insert(name, registry);
        Ok(registries)
    }
}


impl SkillsRegistryPanel {
    /// A click on the row of registry `name`: selects it, or clears the selection when it
    /// was selected.
    pub fn toggle_selection(&mut self, name: &str)
        ensures
            crate::tool::opt_view(final(self).selected_registry) == crate::panels::selection_after_click(
                crate::tool::opt_view(old(self).selected_registry),
                name@,
            ),
            final(self).registries@ == old(self).registries@,
            final(self).form == old(self).form,
    {
        crate::panels::toggle_selected(&mut self.selected_registry, name);
    }

    /// The synchronization timeout the config window holds, when it is a whole number.
    pub fn sync_timeout(&self) -> (r: Option<u64>)
        ensures
            match r {
                Some(v) => crate::tool::field_number(self.sync_timeout_text@, u64::MAX as nat) == Some(
                    v as nat,
                ),
                None => crate::tool::field_number(self.sync_timeout_text@, u64::MAX as nat) is None,
            },
    {
        crate::tool::parse_field_u64(self.sync_timeout_text.as_str())
    }

    /// Starts the synchronization of registry `name`, unless one is running, the registry
    /// does not exist, or the timeout cannot be read. On start the registry is marked as
    /// syncing, and the plan carries its address, its installed skills and the timeout.
    pub fn begin_registry_sync(&mut self, name: &str) -> (r: Result<RegistrySyncPlan, SyncRefusal>)
        ensures
            old(self).syncing_registry is Some ==> r == Err::<RegistrySyncPlan, SyncRefusal>(
                SyncRefusal::AlreadyRunning,
            ) && *final(self) == *old(self),
            old(self).syncing_registry is None && !old(self).registries@.dom().contains(name@) ==> r
                == Err::<RegistrySyncPlan, SyncRefusal>(SyncRefusal::NotFound) && *final(self) == *old(
                self,
            ),
            old(self).syncing_registry is None && old(self).registries@.dom().contains(name@)
                && crate::tool::field_number(old(self).sync_timeout_text@, u64::MAX as nat) is None
                ==> r == Err::<RegistrySyncPlan, SyncRefusal>(SyncRefusal::InvalidTimeout)
                && *final(self) == *old(self),
            old(self).syncing_registry is None && old(self).registries@.dom().contains(name@)
                && crate::tool::field_number(old(self).sync_timeout_text@, u64::MAX as nat) is Some
                ==> {
                let reg = old(self).registries@[name@];
                let plan = r->Ok_0;
                &&& r is Ok
                &&& plan.registry_name@ == name@
                &&& plan.address == reg.address
                &&& plan.installed@.len() == reg.installed@.len()
                &&& forall|i: int|
                    0 <= i < plan.installed@.len() ==> (#[trigger] plan.installed@[i]).0@ == name@
                        && plan.installed@[i].1 == reg.installed@[i]
                &&& plan.timeout_seconds as nat == crate::tool::field_number(
                    old(self).sync_timeout_text@,
                    u64::MAX as nat,
                )->0
                &&& final(self).syncing_registry is Some
                &&& final(self).syncing_registry->0@ == name@
                &&& final(self).registries == old(self).registries
            },
    {
        if self.syncing_registry.is_some() {
            return Err(SyncRefusal::AlreadyRunning);
        }
        let plan = match self.registries.get(name) {
            None => {
                return Err(SyncRefusal::NotFound);
            },
            Some(reg) => {
                let timeout = match crate::tool::parse_field_u64(self.sync_timeout_text.as_str()) {
                    Some(t) => t,
                    None => {
                        return Err(SyncRefusal::InvalidTimeout);
                    },
                };
                let mut installed: Vec<(String, String)> = Vec::new();
                let mut i: usize = 0;
                while i < reg.installed.len()
                    invariant
                        i <= reg.installed@.len(),
                        installed@.len() == i,
                        forall|j: int|
                            0 <= j < i ==> (#[trigger] installed@[j]).0@ == name@ && installed@[j].1
                                == reg.installed@[j],
                    decreases reg.installed@.len() - i,
                {
                    installed.push((name.to_owned(), reg.installed[i].clone()));
                    i = i + 1;
                }
                RegistrySyncPlan {
                    registry_name: name.to_owned(),
                    address: reg.address.clone(),
                    installed,
                    timeout_seconds: timeout,
                }
            },
        };
        self.syncing_registry = Some(name.to_owned());
        Ok(plan)
    }

    /// The synchronization finished or went away: no registry is syncing any more.
    pub fn finish_registry_sync(&mut self)
        ensures
            final(self).syncing_registry is None,
            final(self).registries == old(self).registries,
    {
        self.syncing_registry = None;
    }
}

impl SkillsRegistryPanel {
    /// The page after loading or saving the configuration: its registries, and its
    /// synchronization timeout written in the timeout field, which reads back as the same
    /// number.
    pub fn apply_snapshot(&mut self, registries: KeyedMap<SkillsRegistryConfig>, sync_timeout: u64)
        ensures
            final(self).registries@ == registries@,
            final(self).sync_timeout_text@ == crate::numbers::decimal_digits(sync_timeout as nat),
            crate::tool::field_number(final(self).sync_timeout_text@, u64::MAX as nat) == Some(
                sync_timeout as nat,
            ),
            final(self).selected_registry == old(self).selected_registry,
            final(self).syncing_registry == old(self).syncing_registry,
    {
        self.registries = registries;
        self.sync_timeout_text = crate::numbers::u64_to_string(sync_timeout);
        proof {
            crate::tool::lemma_number_field_roundtrip(sync_timeout as nat, u64::MAX as nat);
        }
    }

    /// Deletes registry `name` from `registries`: `None` when there is no such registry,
    /// else the registries without it, the others unchanged.
    pub fn delete_registry(registries: KeyedMap<SkillsRegistryConfig>, name: &str) -> (r: Option<
        KeyedMap<SkillsRegistryConfig>,
    >)
        ensures
            r is None <==> !registries@.dom().contains(name@),
            r matches Some(m) ==> m@ == registries@.remove(name@),
    {
        if !registries.contains_key(name) {
            return None;
        }
        let mut registries = registries;
        registries.remove(name);
        Some(registries)
    }

    /// The page after registry deletion was saved: `registries` holds the saved registries
    /// and no registry is selected.
    pub fn registry_deleted(&mut self, registries: KeyedMap<SkillsRegistryConfig>)
        ensures
            final(self).registries@ == registries@,
            final(self).selected_registry is None,
            final(self).syncing_registry == old(self).syncing_registry,
    {
        self.registries = registries;
        self.selected_registry = None;
    }
}

/// The notice after the skills of a deleted registry were cleaned up: how many were
/// removed, nothing when none were, or why cleaning failed.
pub fn registry_cleanup_notice(result: Result<u64, String>) -> (n: Option<KeyedNotice>)
    ensures
        match result {
            Ok(count) => if count == 0 {
                n is None
            } else {
                n is Some && notice_is(
                    n->0,
                    NoticeLevel::Info,
                    Some("skills-reg-notify-cleaned-skills"@),
                    Some(crate::numbers::decimal_digits(count as nat)),
                )
            },
            Err(e) => n is Some && notice_is(
                n->0,
                NoticeLevel::Warning,
                Some("skills-reg-notify-cleanup-failed"@),
                Some(e@),
            ),
        },
{
    match result {
        Ok(count) => {
            if count == 0 {
                None
            } else {
                Some(
                    KeyedNotice {
                        level: NoticeLevel::Info,
                        key: Some("skills-reg-notify-cleaned-skills"),
                        arg: Some(crate::numbers::u64_to_string(count)),
                    },
                )
            }
        },
        Err(e) => Some(
            KeyedNotice {
                level: NoticeLevel::Warning,
                key: Some("skills-reg-notify-cleanup-failed"),
                arg: Some(e),
            },
        ),
    }
}

} // verus!
