use vstd::prelude::*;

use crate::text;
use crate::text::{
    byte_len_range, char_at_byte, find_exec, from_chars, has_prefix, newline_at_byte_exec, split_lines, split_on, strip_leading_vec, sub_vec, to_chars, trim_vec,
    vec_eq, vec_eq_ignore_ascii_case,
};

verus! {

// ---------------------------------------------------------------------------
// Truncation
// ---------------------------------------------------------------------------

/// The first `n` characters of `s`, followed by `"..."` when `s` is longer than `n`.
pub open spec fn truncated(s: Seq<char>, n: nat) -> Seq<char> {
    if s.len() > n {
        s.take(n as int) + "..."@
    } else {
        s
    }
}

/// `s` cut to `n` characters, with `"..."` appended when anything was cut.
pub fn truncate_chars(s: &Vec<char>, n: usize) -> (r: Vec<char>)
    ensures
        r@ == truncated(s@, n as nat),
{
    if s.len() > n {
        let mut r = sub_vec(s, 0, n);
        let mut dots = to_chars("...");
        r.append(&mut dots);
        assert(s@.subrange(0, n as int) =~= s@.take(n as int));
        r
    } else {
        sub_vec(s, 0, s.len())
    }
}

/// `input` cut to `max_chars` characters, with `"..."` appended when anything was cut.
pub fn truncate_text(input: &str, max_chars: usize) -> (r: String)
    ensures
        r@ == truncated(input@, max_chars as nat),
{
    let v = to_chars(input);
    let t = truncate_chars(&v, max_chars);
    from_chars(&t)
}

// ---------------------------------------------------------------------------
// Markdown summaries
// ---------------------------------------------------------------------------

/// The summary text of a trimmed, non-fence line: its leading `#`, then `-`, then `*`
/// markers removed, and the rest trimmed.
pub open spec fn summary_candidate(t: Seq<char>) -> Seq<char> {
    text::trim(text::strip_leading(text::strip_leading(text::strip_leading(t, '#'), '-'), '*'))
}

/// The summary of a document given as lines: the first line whose trimmed text is not
/// empty, does not open a code fence and leaves a non-empty candidate, cut to 96
/// characters; `"Empty markdown file."` when there is no such line.
pub open spec fn summary_of_lines(ls: Seq<Seq<char>>) -> Seq<char>
    decreases ls.len(),
{
    if ls.len() == 0 {
        "Empty markdown file."@
    } else {
        let t = text::trim(ls[0]);
        if t.len() > 0 && !text::starts_with(t, "```"@) && summary_candidate(t).len() > 0 {
            truncated(summary_candidate(t), 96)
        } else {
            summary_of_lines(ls.drop_first())
        }
    }
}

/// The one-line summary shown for a workspace markdown file.
pub fn summarize_markdown(content: &str) -> (r: String)
    ensures
        r@ == summary_of_lines(text::lines_of(content@)),
{
    let chars = to_chars(content);
    let ls = split_lines(&chars);
    let fence = to_chars("```");
    let ghost all = text::views(ls@);
    let mut i: usize = 0;
    assert(all.skip(0) =~= all);
    while i < ls.len()
        invariant
            i <= ls.len(),
            all == text::views(ls@),
            all == text::lines_of(content@),
            fence@ == "```"@,
            summary_of_lines(all) == summary_of_lines(all.skip(i as int)),
        decreases ls.len() - i,
    {
        assert(all.skip(i as int).drop_first() =~= all.skip(i + 1));
        assert(all.skip(i as int)[0] == ls@[i as int]@);
        let t = trim_vec(&ls[i]);
        if t.len() > 0 && !has_prefix(&t, &fence) {
            let a = strip_leading_vec(&t, '#');
            let b = strip_leading_vec(&a, '-');
            let c = strip_leading_vec(&b, '*');
            let candidate = trim_vec(&c);
            if candidate.len() > 0 {
                let r = truncate_chars(&candidate, 96);
                assert(candidate@ == summary_candidate(t@));
                assert(summary_of_lines(all.skip(i as int)) == truncated(candidate@, 96));
                return from_chars(&r);
            }
        }
        i = i + 1;
    }
    assert(all.skip(i as int) =~= Seq::<Seq<char>>::empty());
    "Empty markdown file.".to_owned()
}

/// `n` copies of `c`.
pub open spec fn repeated(c: char, n: nat) -> Seq<char> {
    Seq::new(n, |i: int| c)
}

proof fn lemma_strip_repeated(c: char, n: nat, r: Seq<char>)
    ensures
        text::strip_leading(repeated(c, n) + r, c) == text::strip_leading(r, c),
    decreases n,
{
    if n > 0 {
        let s = repeated(c, n) + r;
        assert(s[0] == c);
        assert(s.drop_first() =~= repeated(c, (n - 1) as nat) + r);
        lemma_strip_repeated(c, (n - 1) as nat, r);
    } else {
        assert(repeated(c, n) + r =~= r);
    }
}

proof fn lemma_trim_start_ws_prefix(w: Seq<char>, x: Seq<char>)
    requires
        forall|i: int| 0 <= i < w.len() ==> text::is_ws(#[trigger] w[i]),
        x.len() > 0,
        !text::is_ws(x[0]),
    ensures
        text::trim_start(w + x) == x,
    decreases w.len(),
{
    if w.len() > 0 {
        assert((w + x)[0] == w[0]);
        assert((w + x).drop_first() =~= w.drop_first() + x);
        lemma_trim_start_ws_prefix(w.drop_first(), x);
    } else {
        assert(w + x =~= x);
    }
}

/// A line's leading markdown markers do not reach its summary: a line made of `#`
/// markers, then `-` markers, then `*` markers, then white space, then a text `x` (which
/// does not start with a marker or a backquote, has no surrounding white space and is at
/// most 96 characters long) is summarized as `x`, whatever lines follow.
pub proof fn lemma_summary_drops_markers(
    hashes: nat,
    dashes: nat,
    stars: nat,
    w: Seq<char>,
    x: Seq<char>,
    more: Seq<Seq<char>>,
)
    requires
        forall|i: int| 0 <= i < w.len() ==> text::is_ws(#[trigger] w[i]),
        0 < x.len() <= 96,
        !text::is_ws(x[0]),
        !text::is_ws(x.last()),
        x[0] != '#' && x[0] != '-' && x[0] != '*' && x[0] != '`',
    ensures
        summary_of_lines(
            seq![repeated('#', hashes) + repeated('-', dashes) + repeated('*', stars) + w + x] + more,
        ) == x,
{
    let marks = repeated('#', hashes) + repeated('-', dashes) + repeated('*', stars);
    let line = marks + w + x;
    let ls = seq![line] + more;
    assert(ls[0] == line);
    lemma_trim_start_ws_prefix(w, x);
    assert(text::trim_end(x) == x);
    // the trimmed line
    let t = text::trim(line);
    if marks.len() == 0 {
        assert(line =~= w + x);
        assert(t == x);
    } else {
        assert(!text::is_ws(line[0])) by {
            assert(line[0] == marks[0]);
            if hashes > 0 {
                assert(marks[0] == '#');
            } else if dashes > 0 {
                assert(marks[0] == '-');
            } else {
                assert(marks[0] == '*');
            }
        }
        assert(text::trim_start(line) == line);
        assert(line.last() == x.last());
        assert(t == line);
    }
    // no code fence
    assert(!text::starts_with(t, "```"@)) by {
        reveal_strlit("```");
        if text::starts_with(t, "```"@) {
            assert(t.subrange(0, 3)[0] == t[0]);
            assert("```"@[0] == '`');
            assert(t[0] == '`');
            if marks.len() > 0 {
                assert(t[0] == marks[0]);
            }
        }
    }
    // the markers go
    lemma_strip_repeated('#', hashes, repeated('-', dashes) + repeated('*', stars) + w + x);
    assert(repeated('#', hashes) + (repeated('-', dashes) + repeated('*', stars) + w + x) =~= line);
    let r1 = repeated('-', dashes) + repeated('*', stars) + w + x;
    let r2 = repeated('*', stars) + w + x;
    let r3 = w + x;
    assert(r1 =~= repeated('-', dashes) + r2);
    assert(r2 =~= repeated('*', stars) + r3);
    if dashes > 0 {
        assert(r1[0] == '-');
    } else if stars > 0 {
        assert(r1 =~= r2);
        assert(r1[0] == '*');
    } else {
        assert(r1 =~= r3);
        if w.len() > 0 {
            assert(r1[0] == w[0]);
            assert(w[0] != '#') by {
                assert(text::is_ws(w[0]));
            }
        } else {
            assert(r1 =~= x);
        }
    }
    assert(text::strip_leading(line, '#') == r1);
    lemma_strip_repeated('-', dashes, r2);
    if stars > 0 {
        assert(r2[0] == '*');
    } else {
        assert(r2 =~= r3);
        if w.len() > 0 {
            assert(r2[0] == w[0]);
            assert(w[0] != '-') by {
                assert(text::is_ws(w[0]));
            }
        } else {
            assert(r2 =~= x);
        }
    }
    assert(text::strip_leading(r1, '-') == r2);
    lemma_strip_repeated('*', stars, r3);
    if w.len() > 0 {
        assert(r3[0] == w[0]);
        assert(w[0] != '*') by {
            assert(text::is_ws(w[0]));
        }
    } else {
        assert(r3 =~= x);
    }
    assert(text::strip_leading(r2, '*') == r3);
    assert(text::trim(r3) == x);
    if marks.len() == 0 {
        assert(text::strip_leading(x, '#') == x);
        assert(text::strip_leading(x, '-') == x);
        assert(text::strip_leading(x, '*') == x);
        assert(summary_candidate(t) == x);
    } else {
        assert(summary_candidate(t) == x);
    }
    assert(truncated(x, 96) == x);
}


} // verus!

verus! {

// ---------------------------------------------------------------------------
// Workspace file names
// ---------------------------------------------------------------------------

/// A path segment that `Path::components` keeps under Unix rules: neither empty nor `.`.
pub open spec fn kept_segment(seg: Seq<char>) -> bool {
    seg.len() > 0 && seg != "."@
}

/// The segments that `Path::components` keeps, in order.
pub open spec fn kept_segments(segs: Seq<Seq<char>>) -> Seq<Seq<char>>
    decreases segs.len(),
{
    if segs.len() == 0 {
        seq![]
    } else {
        (if kept_segment(segs[0]) {
            seq![segs[0]]
        } else {
            seq![]
        }) + kept_segments(segs.drop_first())
    }
}

/// Whether the relative path `t` has exactly one component and that component is a
/// plain name (Unix rules: a leading `.` segment is the current directory, empty and
/// later `.` segments vanish, `..` is the parent directory).
pub open spec fn is_single_file_name(t: Seq<char>) -> bool {
    let segs = text::split_char(t, '/');
    &&& segs[0] != "."@
    &&& kept_segments(segs).len() == 1
    &&& kept_segments(segs)[0] != ".."@
}

/// Checks a file name typed for a new workspace file and returns it trimmed.
///
/// Paths follow `std::path` as it behaves on Unix targets (macOS, where the application
/// ships, and Linux): `/` is the only separator and a path is absolute when it starts
/// with `/`. On Windows `std::path` also splits at `\` and calls a path absolute only
/// with a drive or UNC prefix; those rules are not modelled.
///
/// The name is trimmed first. An empty name, an absolute path and a path with more
/// than one component (or a component that is not a plain name) are refused, in that
/// order, each with its own message.
pub fn validate_workspace_file_name(file_name: &str) -> (r: Result<String, String>)
    ensures
        ({
            let t = text::trim(file_name@);
            &&& t.len() == 0 ==> (r is Err && r->Err_0@ == "File name is required."@)
            &&& (t.len() > 0 && t[0] == '/') ==> (r is Err && r->Err_0@
                == "File name must be relative to the workspace directory."@)
            &&& (t.len() > 0 && t[0] != '/' && is_single_file_name(t)) ==> (r is Ok && r->Ok_0@
                == t)
            &&& (t.len() > 0 && t[0] != '/' && !is_single_file_name(t)) ==> (r is Err
                && r->Err_0@ == "File name must not contain directory separators."@)
        }),
{
    let chars = to_chars(file_name);
    let t = trim_vec(&chars);
    if t.len() == 0 {
        return Err("File name is required.".to_owned());
    }
    if t[0] == '/' {
        return Err("File name must be relative to the workspace directory.".to_owned());
    }
    let segs = split_on(&t, '/');
    let dot = to_chars(".");
    let dotdot = to_chars("..");
    let ghost all = text::views(segs@);
    proof {
        lemma_split_nonempty(t@, '/');
    }
    let leading_dot = vec_eq(&segs[0], &dot);
    let mut kept: Vec<Vec<char>> = Vec::new();
    let mut i: usize = 0;
    assert(all.skip(0) =~= all);
    assert(text::views(kept@) + kept_segments(all) =~= kept_segments(all));
    while i < segs.len()
        invariant
            i <= segs.len(),
            all == text::views(segs@),
            dot@ == "."@,
            kept_segments(all) == text::views(kept@) + kept_segments(all.skip(i as int)),
        decreases segs.len() - i,
    {
        let ghost old_kept = kept@;
        assert(all.skip(i as int).drop_first() =~= all.skip(i + 1));
        assert(all.skip(i as int)[0] == segs@[i as int]@);
        if segs[i].len() > 0 && !vec_eq(&segs[i], &dot) {
            let seg = sub_vec(&segs[i], 0, segs[i].len());
            assert(seg@ =~= segs@[i as int]@);
            kept.push(seg);
            assert(text::views(kept@) =~= text::views(old_kept) + seq![seg@]);
        } else {
            assert(seq![] + kept_segments(all.skip(i + 1)) =~= kept_segments(all.skip(i + 1)));
        }
        i = i + 1;
    }
    assert(all.skip(i as int) =~= Seq::<Seq<char>>::empty());
    assert(text::views(kept@) + Seq::<Seq<char>>::empty() =~= text::views(kept@));
    if !leading_dot && kept.len() == 1 && !vec_eq(&kept[0], &dotdot) {
        assert(text::views(kept@)[0] == kept@[0]@);
        Ok(from_chars(&t))
    } else {
        proof {
            if kept.len() == 1 {
                assert(text::views(kept@)[0] == kept@[0]@);
            }
        }
        Err("File name must not contain directory separators.".to_owned())
    }
}

proof fn lemma_split_nonempty(s: Seq<char>, c: char)
    ensures
        text::split_char(s, c).len() >= 1,
        text::split_char(s, c)[0] == s.subrange(0, text::char_index(s, c)),
{
    text::lemma_char_index_bounds(s, c);
    let i = text::char_index(s, c);
    if i == s.len() {
        assert(s.subrange(0, i) =~= s);
    }
}

} // verus!

verus! {

// ---------------------------------------------------------------------------
// File names and extensions
// ---------------------------------------------------------------------------

/// The final component of a path written with `/` separators, as `Path::file_name`
/// gives it (Unix rules): the last kept segment, unless there is none or it is `..`.
pub open spec fn path_file_name(p: Seq<char>) -> Option<Seq<char>> {
    let k = kept_segments(text::split_char(p, '/'));
    if k.len() == 0 || k.last() == ".."@ {
        None
    } else {
        Some(k.last())
    }
}

/// The index of the last `.` in `s`, or -1 when there is none.
pub open spec fn last_dot(s: Seq<char>) -> int
    decreases s.len(),
{
    if s.len() == 0 {
        -1
    } else if s.last() == '.' {
        s.len() - 1
    } else {
        last_dot(s.drop_last())
    }
}

/// The extension of a file name, as `Path::extension` gives it: the text after the last
/// `.`, provided something comes before that dot (and the name is not `..`).
pub open spec fn file_extension(name: Seq<char>) -> Option<Seq<char>> {
    let i = last_dot(name);
    if name == ".."@ || i <= 0 {
        None
    } else {
        Some(name.subrange(i + 1, name.len() as int))
    }
}

/// Whether a path names a markdown file: its extension is `md` in any ASCII case.
pub open spec fn is_markdown(p: Seq<char>) -> bool {
    match path_file_name(p) {
        Some(name) => match file_extension(name) {
            Some(ext) => text::eq_ignore_ascii_case(ext, "md"@),
            None => false,
        },
        None => false,
    }
}

proof fn lemma_last_dot(s: Seq<char>, r: int)
    requires
        -1 <= r < s.len(),
        r >= 0 ==> s[r] == '.',
        forall|j: int| r < j < s.len() ==> #[trigger] s[j] != '.',
    ensures
        last_dot(s) == r,
    decreases s.len(),
{
    if s.len() > 0 && r < s.len() - 1 {
        assert(s[s.len() - 1] != '.');
        let t = s.drop_last();
        assert forall|j: int| r < j < t.len() implies #[trigger] t[j] != '.' by {
            assert(t[j] == s[j]);
        }
        lemma_last_dot(t, r);
    }
}

/// Whether the path (written with `/` separators) names a markdown file, judged by an
/// `md` extension in any ASCII case. Components are split as `std::path` splits them on
/// Unix targets; a `\` is part of a name, as it is there.
pub fn is_markdown_path(path: &str) -> (r: bool)
    ensures
        r == is_markdown(path@),
{
    let chars = to_chars(path);
    let segs = split_on(&chars, '/');
    let dot = to_chars(".");
    let dotdot = to_chars("..");
    let md = to_chars("md");
    let ghost all = text::views(segs@);
    let mut last: Option<usize> = None;
    let mut count: usize = 0;
    let mut i: usize = 0;
    let ghost mut kept: Seq<Seq<char>> = seq![];
    assert(all.skip(0) =~= all);
    assert(kept + kept_segments(all) =~= kept_segments(all));
    while i < segs.len()
        invariant
            i <= segs.len(),
            all == text::views(segs@),
            dot@ == "."@,
            kept_segments(all) == kept + kept_segments(all.skip(i as int)),
            count == kept.len(),
            count <= i,
            last matches Some(j) ==> j < segs.len() && count > 0 && kept.last() == segs@[j as int]@,
            last is None ==> count == 0,
        decreases segs.len() - i,
    {
        assert(all.skip(i as int).drop_first() =~= all.skip(i + 1));
        assert(all.skip(i as int)[0] == segs@[i as int]@);
        if segs[i].len() > 0 && !vec_eq(&segs[i], &dot) {
            proof {
                kept = kept.push(segs@[i as int]@);
            }
            assert(kept_segments(all.skip(i as int)) =~= seq![segs@[i as int]@]
                + kept_segments(all.skip(i + 1)));
            last = Some(i);
            count = count + 1;
        } else {
            assert(seq![] + kept_segments(all.skip(i + 1)) =~= kept_segments(all.skip(i + 1)));
        }
        i = i + 1;
    }
    assert(all.skip(i as int) =~= Seq::<Seq<char>>::empty());
    assert(kept + Seq::<Seq<char>>::empty() =~= kept);
    let j = match last {
        Some(j) => j,
        None => {
            return false;
        },
    };
    let name = &segs[j];
    if vec_eq(name, &dotdot) {
        return false;
    }
    let mut d: usize = name.len();
    while d > 0 && name[d - 1] != '.'
        invariant
            d <= name.len(),
            forall|k: int| d <= k < name.len() ==> #[trigger] name@[k] != '.',
        decreases d,
    {
        d = d - 1;
    }
    proof {
        lemma_last_dot(name@, d - 1);
    }
    if d <= 1 {
        return false;
    }
    let ext = sub_vec(name, d, name.len());
    vec_eq_ignore_ascii_case(&ext, &md)
}

// ---------------------------------------------------------------------------
// Skill markdown: quotes, descriptions, frontmatter
// ---------------------------------------------------------------------------

/// `s` without one pair of matching surrounding quotes (`"` or `'`), when it has them.
pub open spec fn unquoted(s: Seq<char>) -> Seq<char> {
    if s.len() >= 2 && ((s[0] == '"' && s.last() == '"') || (s[0] == '\'' && s.last() == '\'')) {
        s.subrange(1, s.len() - 1)
    } else {
        s
    }
}

/// `value` without one pair of matching surrounding quotes, when it has them.
pub fn trim_matching_quotes(value: &str) -> (r: String)
    ensures
        r@ == unquoted(value@),
{
    let v = to_chars(value);
    let n = v.len();
    if n >= 2 && ((v[0] == '"' && v[n - 1] == '"') || (v[0] == '\'' && v[n - 1] == '\'')) {
        let inner = sub_vec(&v, 1, n - 1);
        from_chars(&inner)
    } else {
        from_chars(&v)
    }
}

/// A skill description cut to `max_len` characters, with `"..."` appended when cut.
pub fn truncate_skill_description(description: &str, max_len: usize) -> (r: String)
    ensures
        r@ == truncated(description@, max_len as nat),
{
    truncate_text(description, max_len)
}

} // verus!

verus! {

/// `s` without the prefix `p`, when `s` begins with it.
pub open spec fn strip_prefix(s: Seq<char>, p: Seq<char>) -> Option<Seq<char>> {
    if text::starts_with(s, p) {
        Some(s.subrange(p.len() as int, s.len() as int))
    } else {
        None
    }
}

/// The part of `s` before the first occurrence of `p`, when `p` occurs.
pub open spec fn before_first(s: Seq<char>, p: Seq<char>) -> Option<Seq<char>> {
    match text::find_from(s, p, 0) {
        Some(i) => Some(s.subrange(0, i)),
        None => None,
    }
}

/// The text of a leading `---` frontmatter block: after an opening `---` line (LF or
/// CRLF) and before the first closing `---` line (`"\n---\n"`, else `"\r\n---\r\n"`).
pub open spec fn frontmatter_text(md: Seq<char>) -> Option<Seq<char>> {
    let opened = match strip_prefix(md, "---\n"@) {
        Some(rest) => Some(rest),
        None => strip_prefix(md, "---\r\n"@),
    };
    match opened {
        Some(fm) => match before_first(fm, "\n---\n"@) {
            Some(inner) => Some(inner),
            None => before_first(fm, "\r\n---\r\n"@),
        },
        None => None,
    }
}

/// The first trimmed line that begins with `description:`, as the trimmed text after
/// that key.
pub open spec fn description_value(ls: Seq<Seq<char>>) -> Option<Seq<char>>
    decreases ls.len(),
{
    if ls.len() == 0 {
        None
    } else {
        let t = text::trim(ls[0]);
        match strip_prefix(t, "description:"@) {
            Some(v) => Some(text::trim(v)),
            None => description_value(ls.drop_first()),
        }
    }
}

/// The `description:` value of a skill's frontmatter, unquoted; none when there is no
/// frontmatter, no such line, or the first such line has an empty value.
pub open spec fn frontmatter_description(md: Seq<char>) -> Option<Seq<char>> {
    match frontmatter_text(md) {
        Some(fm) => match description_value(text::lines_of(fm)) {
            Some(v) => if v.len() > 0 {
                Some(unquoted(v))
            } else {
                None
            },
            None => None,
        },
        None => None,
    }
}

/// `s` without the prefix `p`, when `s` begins with it.
pub fn strip_prefix_vec(s: &Vec<char>, p: &Vec<char>) -> (r: Option<Vec<char>>)
    ensures
        r matches Some(v) ==> strip_prefix(s@, p@) == Some(v@),
        r is None ==> strip_prefix(s@, p@) is None,
{
    if has_prefix(s, p) {
        Some(sub_vec(s, p.len(), s.len()))
    } else {
        None
    }
}

/// The part of `s` before the first occurrence of `p`, when `p` occurs.
pub fn before_first_vec(s: &Vec<char>, p: &Vec<char>) -> (r: Option<Vec<char>>)
    ensures
        r matches Some(v) ==> before_first(s@, p@) == Some(v@),
        r is None ==> before_first(s@, p@) is None,
{
    match find_exec(s, p) {
        Some(i) => {
            proof {
                text::lemma_find_from_some(s@, p@, 0);
            }
            Some(sub_vec(s, 0, i))
        },
        None => None,
    }
}

/// The text of a leading `---` frontmatter block, as characters.
pub fn frontmatter_chars(md: &Vec<char>) -> (r: Option<Vec<char>>)
    ensures
        r matches Some(v) ==> frontmatter_text(md@) == Some(v@),
        r is None ==> frontmatter_text(md@) is None,
{
    let open_lf = to_chars("---\n");
    let open_crlf = to_chars("---\r\n");
    let close_lf = to_chars("\n---\n");
    let close_crlf = to_chars("\r\n---\r\n");
    let fm = match strip_prefix_vec(md, &open_lf) {
        Some(rest) => rest,
        None => match strip_prefix_vec(md, &open_crlf) {
            Some(rest) => rest,
            None => {
                return None;
            },
        },
    };
    match before_first_vec(&fm, &close_lf) {
        Some(inner) => Some(inner),
        None => before_first_vec(&fm, &close_crlf),
    }
}

/// The lines of a skill's frontmatter block, when the markdown opens with one.
pub fn frontmatter_lines(markdown: &str) -> (r: Option<Vec<String>>)
    ensures
        r matches Some(ls) ==> frontmatter_text(markdown@) matches Some(fm) && ls@.map_values(
            |l: String| l@,
        ) == text::lines_of(fm),
        r is None ==> frontmatter_text(markdown@) is None,
{
    let md = to_chars(markdown);
    match frontmatter_chars(&md) {
        Some(fm) => {
            let ls = split_lines(&fm);
            let mut out: Vec<String> = Vec::new();
            let mut i: usize = 0;
            while i < ls.len()
                invariant
                    i <= ls.len(),
                    out@.map_values(|l: String| l@) == text::views(ls@).take(i as int),
                decreases ls.len() - i,
            {
                let line = from_chars(&ls[i]);
                let ghost old_out = out@;
                out.push(line);
                assert(out@ == old_out.push(line));
                assert(text::views(ls@).take(i + 1) =~= text::views(ls@).take(i as int).push(
                    ls@[i as int]@,
                ));
                assert(out@.map_values(|l: String| l@) =~= old_out.map_values(|l: String| l@).push(
                    line@,
                ));
                i = i + 1;
            }
            assert(text::views(ls@).take(i as int) =~= text::views(ls@));
            Some(out)
        },
        None => None,
    }
}

/// The `description:` value of a skill's frontmatter, unquoted.
pub fn extract_skill_frontmatter_description(markdown: &str) -> (r: Option<String>)
    ensures
        r matches Some(v) ==> frontmatter_description(markdown@) == Some(v@),
        r is None ==> frontmatter_description(markdown@) is None,
{
    let md = to_chars(markdown);
    let fm = match frontmatter_chars(&md) {
        Some(fm) => fm,
        None => {
            return None;
        },
    };
    let key = to_chars("description:");
    let ls = split_lines(&fm);
    let ghost all = text::views(ls@);
    let mut i: usize = 0;
    assert(all.skip(0) =~= all);
    while i < ls.len()
        invariant
            i <= ls.len(),
            all == text::views(ls@),
            all == text::lines_of(fm@),
            frontmatter_text(markdown@) == Some(fm@),
            key@ == "description:"@,
            description_value(all) == description_value(all.skip(i as int)),
        decreases ls.len() - i,
    {
        assert(all.skip(i as int).drop_first() =~= all.skip(i + 1));
        assert(all.skip(i as int)[0] == ls@[i as int]@);
        let t = trim_vec(&ls[i]);
        match strip_prefix_vec(&t, &key) {
            Some(v) => {
                let value = trim_vec(&v);
                if value.len() == 0 {
                    return None;
                }
                let s = from_chars(&value);
                return Some(trim_matching_quotes(s.as_str()));
            },
            None => {},
        }
        i = i + 1;
    }
    assert(all.skip(i as int) =~= Seq::<Seq<char>>::empty());
    None
}

} // verus!

verus! {

// ---------------------------------------------------------------------------
// Frontmatter body (byte offsets)
// ---------------------------------------------------------------------------

/// Where the body after the closing `---` line begins, as a UTF-8 byte offset into `s`,
/// scanning the lines `ls` from byte offset `offset` the way the skill loader does: each
/// line ends `offset + (bytes of the line)` on; one more byte is skipped when that byte
/// is a line feed; the first line that trims to `---` closes the block.
pub open spec fn close_offset(s: Seq<char>, ls: Seq<Seq<char>>, offset: int) -> Option<int>
    decreases ls.len(),
{
    if ls.len() == 0 {
        None
    } else {
        let line_end = offset + text::byte_len(ls[0]);
        let next = if text::newline_at_byte(s, line_end) {
            line_end + 1
        } else {
            line_end
        };
        if text::trim(ls[0]) == "---"@ {
            Some(next)
        } else {
            close_offset(s, ls.drop_first(), next)
        }
    }
}

/// The byte offset of the body after a leading `---` block: the first line must trim to
/// `---` and `s` must hold a line feed; scanning starts just after the first line feed.
pub open spec fn frontmatter_body_offset(s: Seq<char>) -> Option<int> {
    let ls = text::lines_of(s);
    let e = text::char_index(s, '\n');
    if ls.len() == 0 || text::trim(ls[0]) != "---"@ || e >= s.len() {
        None
    } else {
        close_offset(s, ls.drop_first(), (text::byte_offset(s, e) + 1) as int)
    }
}

/// Whether the body offset, when there is one, falls on a character boundary (slicing
/// there does not panic).
pub open spec fn frontmatter_offset_on_boundary(s: Seq<char>) -> bool {
    match frontmatter_body_offset(s) {
        Some(b) => exists|k: int| text::starts_at_byte(s, b, k),
        None => true,
    }
}

/// The markdown after a leading `---` frontmatter block.
pub open spec fn frontmatter_body(s: Seq<char>) -> Option<Seq<char>> {
    match frontmatter_body_offset(s) {
        Some(b) => Some(s.subrange(choose|k: int| text::starts_at_byte(s, b, k), s.len() as int)),
        None => None,
    }
}

proof fn lemma_starts_at_byte_unique(s: Seq<char>, b: int, k1: int, k2: int)
    requires
        text::starts_at_byte(s, b, k1),
        text::starts_at_byte(s, b, k2),
    ensures
        k1 == k2,
{
    if k1 < k2 {
        text::lemma_byte_offset_strict(s, k1, k2);
    } else if k2 < k1 {
        text::lemma_byte_offset_strict(s, k2, k1);
    }
}

proof fn lemma_lines_step(s: Seq<char>, pos: int, e: int)
    requires
        0 <= pos < e <= s.len() || (0 <= pos == e < s.len()),
        forall|j: int| pos <= j < e ==> #[trigger] s[j] != '\n',
        e == s.len() || s[e] == '\n',
    ensures
        ({
            let rest = s.subrange(pos, s.len() as int);
            let line = if e < s.len() {
                text::strip_cr(s.subrange(pos, e))
            } else {
                s.subrange(pos, e)
            };
            let after = if e < s.len() {
                s.subrange(e + 1, s.len() as int)
            } else {
                Seq::<char>::empty()
            };
            &&& text::lines_of(rest).len() > 0
            &&& text::lines_of(rest)[0] == line
            &&& text::lines_of(rest).drop_first() == text::lines_of(after)
        }),
{
    let rest = s.subrange(pos, s.len() as int);
    assert forall|j: int| 0 <= j < e - pos implies #[trigger] rest[j] != '\n' by {
        assert(rest[j] == s[pos + j]);
    }
    text::lemma_newline_index_pub(rest, e - pos);
    if e < s.len() {
        assert(rest.subrange(0, e - pos) =~= s.subrange(pos, e));
        assert(rest.subrange(e - pos + 1, rest.len() as int) =~= s.subrange(e + 1, s.len() as int));
    } else {
        assert(rest =~= s.subrange(pos, e));
    }
}

/// The byte offset where the body after a leading `---` frontmatter block starts, when
/// there is one.
///
/// Offsets are counted in UTF-8 bytes, as the skill loader counts them: the first line
/// must trim to `---`; then, line by line from just after the first line feed, a line
/// ends at the running offset plus its length in bytes, one more byte is skipped when a
/// line feed sits there, and the first line trimming to `---` closes the block; the body
/// starts at the offset reached then. (With CRLF line endings the running offset falls
/// behind the lines; the result is still what those offsets give.)
pub fn frontmatter_body_offset_of(markdown: &str) -> (r: Option<usize>)
    requires
        text::byte_len(markdown@) <= usize::MAX,
    ensures
        r matches Some(b) ==> frontmatter_body_offset(markdown@) == Some(b as int),
        r is None ==> frontmatter_body_offset(markdown@) is None,
{
    let s = to_chars(markdown);
    let n = s.len();
    if n == 0 {
        return None;
    }
    let fence = to_chars("---");
    let mut e: usize = 0;
    while e < n && s[e] != '\n'
        invariant
            e <= n == s.len(),
            forall|j: int| 0 <= j < e ==> #[trigger] s@[j] != '\n',
        decreases n - e,
    {
        e = e + 1;
    }
    proof {
        lemma_lines_step(s@, 0, e as int);
        text::lemma_char_index(s@, '\n', e as int);
        assert(s@.subrange(0, n as int) =~= s@);
    }
    let first = if e < n {
        let mut end = e;
        if end > 0 && s[end - 1] == '\r' {
            end = end - 1;
        }
        sub_vec(&s, 0, end)
    } else {
        sub_vec(&s, 0, n)
    };
    assert(text::lines_of(s@)[0] == first@);
    let first_trimmed = trim_vec(&first);
    if !vec_eq(&first_trimmed, &fence) {
        return None;
    }
    if e >= n {
        return None;
    }
    proof {
        text::lemma_byte_offset_full(s@);
        text::lemma_byte_offset_step(s@, e as int);
        text::lemma_byte_offset_mono(s@, e + 1, n as int);
        text::lemma_byte_offset_split(s@, 0, e as int);
        assert(s@.subrange(0, e as int) =~= s@.take(e as int));
    }
    let mut bpos: usize = byte_len_range(&s, 0, e) + 1;
    let mut offset: usize = bpos;
    let mut pos: usize = e + 1;
    assert(text::lines_of(s@.subrange(pos as int, n as int)) == text::lines_of(s@).drop_first());
    assert(bpos == text::byte_offset(s@, e as int) + 1);
    while pos < n
        invariant
            n == s.len(),
            s@ == markdown@,
            fence@ == "---"@,
            text::byte_len(s@) <= usize::MAX,
            e + 1 <= pos <= n,
            bpos == text::byte_offset(s@, pos as int),
            offset <= bpos,
            text::byte_offset(s@, n as int) == text::byte_len(s@),
            frontmatter_body_offset(s@) == close_offset(
                s@,
                text::lines_of(s@.subrange(pos as int, n as int)),
                offset as int,
            ),
        decreases n - pos,
    {
        let mut e2: usize = pos;
        while e2 < n && s[e2] != '\n'
            invariant
                pos <= e2 <= n == s.len(),
                forall|j: int| pos <= j < e2 ==> #[trigger] s@[j] != '\n',
            decreases n - e2,
        {
            e2 = e2 + 1;
        }
        proof {
            lemma_lines_step(s@, pos as int, e2 as int);
            text::lemma_byte_offset_split(s@, pos as int, e2 as int);
            text::lemma_byte_offset_mono(s@, e2 as int, n as int);
        }
        let mut line_end_char = e2;
        if e2 < n && e2 > pos && s[e2 - 1] == '\r' {
            line_end_char = e2 - 1;
        }
        proof {
            text::lemma_byte_offset_split(s@, pos as int, line_end_char as int);
            text::lemma_byte_offset_mono(s@, line_end_char as int, e2 as int);
        }
        let line = sub_vec(&s, pos, line_end_char);
        assert(line@ == text::lines_of(s@.subrange(pos as int, n as int))[0]);
        let lb = byte_len_range(&s, pos, line_end_char);
        let line_end: usize = offset + lb;
        let at_newline = newline_at_byte_exec(&s, line_end);
        proof {
            if at_newline {
                let k = choose|k: int|
                    0 <= k < s.len() && #[trigger] text::byte_offset(s@, k) == line_end && s@[k]
                        == '\n';
                text::lemma_byte_offset_strict(s@, k, n as int);
            }
        }
        let next: usize = if at_newline {
            line_end + 1
        } else {
            line_end
        };
        let trimmed = trim_vec(&line);
        if vec_eq(&trimmed, &fence) {
            assert(frontmatter_body_offset(s@) == Some(next as int));
            return Some(next);
        }
        offset = next;
        if e2 < n {
            proof {
                text::lemma_byte_offset_step(s@, e2 as int);
                text::lemma_byte_offset_mono(s@, e2 + 1, n as int);
            }
            bpos = bpos + byte_len_range(&s, pos, e2) + 1;
            pos = e2 + 1;
        } else {
            bpos = bpos + byte_len_range(&s, pos, e2);
            pos = n;
        }
    }
    assert(text::lines_of(s@.subrange(pos as int, n as int)) =~= Seq::<Seq<char>>::empty());
    None
}


/// The markdown after a leading `---` frontmatter block, when there is one: what follows
/// the byte offset `frontmatter_body_offset_of` finds.
pub fn strip_frontmatter(markdown: &str) -> (r: Option<String>)
    requires
        text::byte_len(markdown@) <= usize::MAX,
        frontmatter_offset_on_boundary(markdown@),
    ensures
        r matches Some(b) ==> frontmatter_body(markdown@) == Some(b@),
        r is None ==> frontmatter_body(markdown@) is None,
{
    let s = to_chars(markdown);
    match frontmatter_body_offset_of(markdown) {
        Some(b) => match char_at_byte(&s, b) {
            Some(k) => {
                proof {
                    let c = choose|c: int| text::starts_at_byte(s@, b as int, c);
                    lemma_starts_at_byte_unique(s@, b as int, c, k as int);
                }
                let body = sub_vec(&s, k, s.len());
                Some(from_chars(&body))
            },
            None => None,
        },
        None => None,
    }
}

/// Whether the body offset of a leading `---` block, when there is one, falls on a
/// character boundary: the condition under which the skill loader can slice there.
pub fn frontmatter_offsets_on_boundary(markdown: &str) -> (r: bool)
    requires
        text::byte_len(markdown@) <= usize::MAX,
    ensures
        r == frontmatter_offset_on_boundary(markdown@),
{
    let s = to_chars(markdown);
    match frontmatter_body_offset_of(markdown) {
        Some(b) => match char_at_byte(&s, b) {
            Some(k) => {
                assert(frontmatter_offset_on_boundary(markdown@)) by {
                    let ob = frontmatter_body_offset(markdown@)->0;
                    assert(ob == b as int);
                    assert(text::starts_at_byte(markdown@, ob, k as int));
                }
                true
            },
            None => {
                assert(!(exists|k: int| text::starts_at_byte(s@, b as int, k))) by {
                    if exists|k: int| text::starts_at_byte(s@, b as int, k) {
                        let k = choose|k: int| text::starts_at_byte(s@, b as int, k);
                        assert(!text::starts_at_byte(s@, b as int, k));
                    }
                }
                assert(!frontmatter_offset_on_boundary(markdown@));
                false
            },
        },
        None => true,
    }
}

} // verus!

verus! {

// ---------------------------------------------------------------------------
// Skill descriptions and sources
// ---------------------------------------------------------------------------

/// The first trimmed line that is not empty, not a heading and not `---`.
pub open spec fn body_description_of_lines(ls: Seq<Seq<char>>) -> Option<Seq<char>>
    decreases ls.len(),
{
    if ls.len() == 0 {
        None
    } else {
        let t = text::trim(ls[0]);
        if t.len() > 0 && t[0] != '#' && t != "---"@ {
            Some(t)
        } else {
            body_description_of_lines(ls.drop_first())
        }
    }
}

/// The first plain line of a skill's body: the markdown after its frontmatter block
/// when it has one, else the whole markdown.
pub open spec fn body_description(md: Seq<char>) -> Option<Seq<char>> {
    let body = match frontmatter_body(md) {
        Some(b) => b,
        None => md,
    };
    body_description_of_lines(text::lines_of(body))
}

/// The first plain line of a skill's body.
pub fn extract_skill_body_description(markdown: &str) -> (r: Option<String>)
    requires
        text::byte_len(markdown@) <= usize::MAX,
        frontmatter_offset_on_boundary(markdown@),
    ensures
        r matches Some(v) ==> body_description(markdown@) == Some(v@),
        r is None ==> body_description(markdown@) is None,
{
    let body = match strip_frontmatter(markdown) {
        Some(b) => to_chars(b.as_str()),
        None => to_chars(markdown),
    };
    let fence = to_chars("---");
    let ls = split_lines(&body);
    let ghost all = text::views(ls@);
    let mut i: usize = 0;
    assert(all.skip(0) =~= all);
    while i < ls.len()
        invariant
            i <= ls.len(),
            all == text::views(ls@),
            fence@ == "---"@,
            body_description(markdown@) == body_description_of_lines(all),
            body_description_of_lines(all) == body_description_of_lines(all.skip(i as int)),
        decreases ls.len() - i,
    {
        assert(all.skip(i as int).drop_first() =~= all.skip(i + 1));
        assert(all.skip(i as int)[0] == ls@[i as int]@);
        let t = trim_vec(&ls[i]);
        if t.len() > 0 && t[0] != '#' && !vec_eq(&t, &fence) {
            return Some(from_chars(&t));
        }
        i = i + 1;
    }
    assert(all.skip(i as int) =~= Seq::<Seq<char>>::empty());
    None
}

/// The short description of a skill shown in the system prompt: the frontmatter
/// `description:` value, else the first plain body line, cut to 180 characters;
/// `"no description"` when there is neither.
pub open spec fn short_description(md: Seq<char>) -> Seq<char> {
    match frontmatter_description(md) {
        Some(d) => truncated(d, 180),
        None => match body_description(md) {
            Some(d) => truncated(d, 180),
            None => "no description"@,
        },
    }
}

/// The short description of a skill shown in the system prompt.
pub fn extract_skill_short_description(markdown: &str) -> (r: String)
    requires
        text::byte_len(markdown@) <= usize::MAX,
        frontmatter_description(markdown@) is None ==> frontmatter_offset_on_boundary(markdown@),
    ensures
        r@ == short_description(markdown@),
{
    match extract_skill_frontmatter_description(markdown) {
        Some(d) => truncate_skill_description(d.as_str(), 180),
        None => match extract_skill_body_description(markdown) {
            Some(d) => truncate_skill_description(d.as_str(), 180),
            None => "no description".to_owned(),
        },
    }
}

/// The short description of a skill, where the skill loader can read it: `None` exactly
/// when the markdown is longer in bytes than a `usize` counts, or when it has no
/// frontmatter description and its body offset falls inside a character (where the
/// loader's slicing panics).
pub fn skill_short_description(markdown: &str) -> (r: Option<String>)
    ensures
        r is Some <==> text::byte_len(markdown@) <= usize::MAX && (frontmatter_description(
            markdown@,
        ) is None ==> frontmatter_offset_on_boundary(markdown@)),
        r matches Some(d) ==> d@ == short_description(markdown@),
{
    let chars = to_chars(markdown);
    if !text::byte_len_fits(&chars) {
        return None;
    }
    match extract_skill_frontmatter_description(markdown) {
        Some(_) => Some(extract_skill_short_description(markdown)),
        None => {
            if frontmatter_offsets_on_boundary(markdown) {
                Some(extract_skill_short_description(markdown))
            } else {
                None
            }
        },
    }
}

/// Where an installed skill comes from.
#[derive(Clone, Copy, Debug, PartialEq, Eq, Structural)]
pub enum SkillSourceKind {
    Local,
    Registry,
}

/// The source label of a skill in the system prompt.
pub open spec fn skill_source_label(
    kind: SkillSourceKind,
    registry: Option<Seq<char>>,
    stale: Option<bool>,
) -> Seq<char> {
    let base = match kind {
        SkillSourceKind::Local => "workspace/local"@,
        SkillSourceKind::Registry => "managed/"@ + match registry {
            Some(r) => if text::trim(r).len() > 0 {
                text::trim(r)
            } else {
                "registry"@
            },
            None => "registry"@,
        },
    };
    if stale == Some(true) {
        base + " (stale)"@
    } else {
        base
    }
}

/// The source label of a skill in the system prompt: `workspace/local` for a local
/// skill, `managed/<registry>` for a registry skill (`registry` when the name is missing
/// or blank), and ` (stale)` appended for a stale one.
pub fn format_skill_source(
    source_kind: &SkillSourceKind,
    registry: Option<&str>,
    stale: Option<bool>,
) -> (r: String)
    ensures
        r@ == skill_source_label(
            *source_kind,
            match registry {
                Some(s) => Some(s@),
                None => None,
            },
            stale,
        ),
{
    let mut out = match source_kind {
        SkillSourceKind::Local => to_chars("workspace/local"),
        SkillSourceKind::Registry => {
            let mut v = to_chars("managed/");
            let mut name = match registry {
                Some(r) => {
                    let t = trim_vec(&to_chars(r));
                    if t.len() > 0 {
                        t
                    } else {
                        to_chars("registry")
                    }
                },
                None => to_chars("registry"),
            };
            v.append(&mut name);
            v
        },
    };
    let is_stale = match stale {
        Some(b) => b,
        None => false,
    };
    if is_stale {
        let mut suffix = to_chars(" (stale)");
        out.append(&mut suffix);
    }
    from_chars(&out)
}

} // verus!

verus! {

// ---------------------------------------------------------------------------
// Path equality
// ---------------------------------------------------------------------------

/// The components of a `/`-separated path as `Path::components` yields them (Unix
/// rules): whether it has a root, whether it starts with a current-directory
/// component, and the remaining component texts.
pub open spec fn path_components(p: Seq<char>) -> (bool, bool, Seq<Seq<char>>) {
    let segs = text::split_char(p, '/');
    let rooted = p.len() > 0 && p[0] == '/';
    (rooted, !rooted && segs[0] == "."@, kept_segments(segs))
}

/// Whether two paths are equal as `Path`s: they have the same components.
pub open spec fn same_path(a: Seq<char>, b: Seq<char>) -> bool {
    path_components(a) == path_components(b)
}

/// The components of a path, computed.
fn components_exec(p: &Vec<char>) -> (r: (bool, bool, Vec<Vec<char>>))
    ensures
        r.0 == path_components(p@).0,
        r.1 == path_components(p@).1,
        text::views(r.2@) == path_components(p@).2,
{
    let segs = split_on(p, '/');
    let dot = to_chars(".");
    let ghost all = text::views(segs@);
    proof {
        lemma_split_nonempty(p@, '/');
    }
    let rooted = p.len() > 0 && p[0] == '/';
    let cur = !rooted && vec_eq(&segs[0], &dot);
    let mut kept: Vec<Vec<char>> = Vec::new();
    let mut i: usize = 0;
    assert(all.skip(0) =~= all);
    assert(text::views(kept@) + kept_segments(all) =~= kept_segments(all));
    while i < segs.len()
        invariant
            i <= segs.len(),
            all == text::views(segs@),
            dot@ == "."@,
            kept_segments(all) == text::views(kept@) + kept_segments(all.skip(i as int)),
        decreases segs.len() - i,
    {
        let ghost old_kept = kept@;
        assert(all.skip(i as int).drop_first() =~= all.skip(i + 1));
        assert(all.skip(i as int)[0] == segs@[i as int]@);
        if segs[i].len() > 0 && !vec_eq(&segs[i], &dot) {
            let seg = sub_vec(&segs[i], 0, segs[i].len());
            assert(seg@ =~= segs@[i as int]@);
            kept.push(seg);
            assert(text::views(kept@) =~= text::views(old_kept) + seq![seg@]);
        } else {
            assert(seq![] + kept_segments(all.skip(i + 1)) =~= kept_segments(all.skip(i + 1)));
        }
        i = i + 1;
    }
    assert(all.skip(i as int) =~= Seq::<Seq<char>>::empty());
    assert(text::views(kept@) + Seq::<Seq<char>>::empty() =~= text::views(kept@));
    (rooted, cur, kept)
}

/// Whether two paths are equal as `Path`s, compared component by component under the
/// Unix rules of `std::path` (only `/` separates; a leading `/` is the root).
pub fn paths_equal(a: &str, b: &str) -> (r: bool)
    ensures
        r == same_path(a@, b@),
{
    let va = to_chars(a);
    let vb = to_chars(b);
    let ca = components_exec(&va);
    let cb = components_exec(&vb);
    if ca.0 != cb.0 || ca.1 != cb.1 || ca.2.len() != cb.2.len() {
        proof {
            if same_path(a@, b@) {
                assert(text::views(ca.2@).len() == ca.2@.len());
                assert(text::views(cb.2@).len() == cb.2@.len());
                assert(false);
            }
        }
        return false;
    }
    let mut i: usize = 0;
    while i < ca.2.len()
        invariant
            ca.2.len() == cb.2.len(),
            i <= ca.2.len(),
            forall|j: int| 0 <= j < i ==> ca.2@[j]@ == cb.2@[j]@,
            text::views(ca.2@) == path_components(a@).2,
            text::views(cb.2@) == path_components(b@).2,
            ca.0 == path_components(a@).0,
            ca.1 == path_components(a@).1,
            ca.0 == cb.0,
            ca.1 == cb.1,
            cb.0 == path_components(b@).0,
            cb.1 == path_components(b@).1,
        decreases ca.2.len() - i,
    {
        if !vec_eq(&ca.2[i], &cb.2[i]) {
            assert(text::views(ca.2@)[i as int] != text::views(cb.2@)[i as int]);
            return false;
        }
        i = i + 1;
    }
    assert(text::views(ca.2@) =~= text::views(cb.2@));
    true
}

} // verus!
