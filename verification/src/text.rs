use vstd::prelude::*;

verus! {

// ---------------------------------------------------------------------------
// Character classes
// ---------------------------------------------------------------------------

/// The Unicode `White_Space` property, which `char::is_whitespace` and `str::trim` use.
pub open spec fn is_ws(c: char) -> bool {
    let n = c as u32;
    ||| 0x09 <= n <= 0x0D
    ||| n == 0x20
    ||| n == 0x85
    ||| n == 0xA0
    ||| n == 0x1680
    ||| 0x2000 <= n <= 0x200A
    ||| n == 0x2028
    ||| n == 0x2029
    ||| n == 0x202F
    ||| n == 0x205F
    ||| n == 0x3000
}

/// Whether `c` is a Unicode white-space character.
pub fn is_whitespace(c: char) -> (b: bool)
    ensures
        b == is_ws(c),
{
    let n = c as u32;
    (0x09 <= n && n <= 0x0D) || n == 0x20 || n == 0x85 || n == 0xA0 || n == 0x1680 || (0x2000
        <= n && n <= 0x200A) || n == 0x2028 || n == 0x2029 || n == 0x202F || n == 0x205F || n
        == 0x3000
}

// ---------------------------------------------------------------------------
// Trimming
// ---------------------------------------------------------------------------

/// `s` without its leading white space.
pub open spec fn trim_start(s: Seq<char>) -> Seq<char>
    decreases s.len(),
{
    if s.len() > 0 && is_ws(s[0]) {
        trim_start(s.drop_first())
    } else {
        s
    }
}

/// `s` without its trailing white space.
pub open spec fn trim_end(s: Seq<char>) -> Seq<char>
    decreases s.len(),
{
    if s.len() > 0 && is_ws(s.last()) {
        trim_end(s.drop_last())
    } else {
        s
    }
}

/// `s` without leading and trailing white space, as `str::trim` gives it.
pub open spec fn trim(s: Seq<char>) -> Seq<char> {
    trim_end(trim_start(s))
}

proof fn lemma_trim_start_skip(s: Seq<char>, i: int)
    requires
        0 <= i <= s.len(),
        forall|j: int| 0 <= j < i ==> is_ws(#[trigger] s[j]),
    ensures
        trim_start(s) == trim_start(s.subrange(i, s.len() as int)),
    decreases i,
{
    if i > 0 {
        let t = s.drop_first();
        assert forall|j: int| 0 <= j < i - 1 implies is_ws(#[trigger] t[j]) by {
            assert(t[j] == s[j + 1]);
        }
        lemma_trim_start_skip(t, i - 1);
        assert(t.subrange(i - 1, t.len() as int) =~= s.subrange(i, s.len() as int));
    } else {
        assert(s.subrange(0, s.len() as int) =~= s);
    }
}

proof fn lemma_trim_end_skip(s: Seq<char>, k: int)
    requires
        0 <= k <= s.len(),
        forall|j: int| k <= j < s.len() ==> is_ws(#[trigger] s[j]),
    ensures
        trim_end(s) == trim_end(s.subrange(0, k)),
    decreases s.len() - k,
{
    if k < s.len() {
        let t = s.drop_last();
        assert forall|j: int| k <= j < t.len() implies is_ws(#[trigger] t[j]) by {
            assert(t[j] == s[j]);
        }
        assert(is_ws(s[s.len() - 1]));
        lemma_trim_end_skip(t, k);
        assert(t.subrange(0, k) =~= s.subrange(0, k));
    } else {
        assert(s.subrange(0, k) =~= s);
    }
}

/// A trimmed text that is not empty ends in a character that is not white space.
pub proof fn lemma_trim_end_last(s: Seq<char>)
    ensures
        trim_end(s).len() > 0 ==> !is_ws(trim_end(s).last()),
    decreases s.len(),
{
    if s.len() > 0 && is_ws(s.last()) {
        lemma_trim_end_last(s.drop_last());
    }
}

/// A text that neither starts nor ends with white space is its own trimmed form.
pub proof fn lemma_trim_of_unpadded(s: Seq<char>)
    requires
        s.len() > 0,
        !is_ws(s[0]),
        !is_ws(s.last()),
    ensures
        trim(s) == s,
{
}

/// Trimming the start drops a prefix of `s`; what is left starts with no white space.
proof fn lemma_trim_start_suffix(s: Seq<char>) -> (k: int)
    ensures
        0 <= k <= s.len(),
        trim_start(s) == s.subrange(k, s.len() as int),
        trim_start(s).len() > 0 ==> !is_ws(trim_start(s)[0]),
    decreases s.len(),
{
    if s.len() > 0 && is_ws(s[0]) {
        let t = s.drop_first();
        let k0 = lemma_trim_start_suffix(t);
        assert(t.subrange(k0, t.len() as int) =~= s.subrange(k0 + 1, s.len() as int));
        k0 + 1
    } else {
        assert(s.subrange(0, s.len() as int) =~= s);
        0
    }
}

/// Trimming the end drops a suffix of `s`.
proof fn lemma_trim_end_prefix(s: Seq<char>) -> (k: int)
    ensures
        0 <= k <= s.len(),
        trim_end(s) == s.subrange(0, k),
    decreases s.len(),
{
    if s.len() > 0 && is_ws(s.last()) {
        let t = s.drop_last();
        let k0 = lemma_trim_end_prefix(t);
        assert(t.subrange(0, k0) =~= s.subrange(0, k0));
        k0
    } else {
        assert(s.subrange(0, s.len() as int) =~= s);
        s.len() as int
    }
}

/// Trimming twice is trimming once, and a character absent from `s` is absent from its
/// trimmed form.
pub proof fn lemma_trim_idempotent(s: Seq<char>, c: char)
    ensures
        trim(trim(s)) == trim(s),
        !s.contains(c) ==> !trim(s).contains(c),
{
    let a = lemma_trim_start_suffix(s);
    let t = trim_start(s);
    let b = lemma_trim_end_prefix(t);
    lemma_trim_end_last(t);
    let r = trim(s);
    assert(r == s.subrange(a, a + b));
    if r.len() > 0 {
        assert(r[0] == t[0]);
        lemma_trim_of_unpadded(r);
    } else {
        assert(trim_start(r) =~= r);
        assert(trim_end(r) =~= r);
    }
    if r.contains(c) {
        let i = choose|i: int| 0 <= i < r.len() && r[i] == c;
        assert(s[a + i] == c);
    }
}

/// Whether the UTF-8 length of `s` fits a `usize`.
pub fn byte_len_fits(s: &Vec<char>) -> (r: bool)
    ensures
        r == (byte_len(s@) <= usize::MAX),
{
    let mut total: usize = 0;
    let mut i: usize = 0;
    while i < s.len()
        invariant
            i <= s.len(),
            total == byte_len(s@.take(i as int)),
        decreases s.len() - i,
    {
        assert(s@.take(i + 1).drop_last() =~= s@.take(i as int));
        let w = utf8_width_exec(s[i]);
        if total > usize::MAX - w {
            proof {
                lemma_byte_len_prefix_le(s@, i + 1);
            }
            return false;
        }
        total = total + w;
        i = i + 1;
    }
    assert(s@.take(i as int) =~= s@);
    true
}

/// A prefix is no longer in bytes than the whole.
proof fn lemma_byte_len_prefix_le(s: Seq<char>, i: int)
    requires
        0 <= i <= s.len(),
    ensures
        byte_len(s.take(i)) <= byte_len(s),
    decreases s.len() - i,
{
    if i < s.len() {
        lemma_byte_len_prefix_le(s, i + 1);
        assert(s.take(i + 1).drop_last() =~= s.take(i));
    } else {
        assert(s.take(i) =~= s);
    }
}

/// The bounds `(lo, hi)` such that `s[lo..hi]` is `s` trimmed.
pub fn trim_bounds(s: &Vec<char>) -> (r: (usize, usize))
    ensures
        r.0 <= r.1 <= s.len(),
        s@.subrange(r.0 as int, r.1 as int) == trim(s@),
{
    let mut lo: usize = 0;
    while lo < s.len() && is_whitespace(s[lo])
        invariant
            lo <= s.len(),
            forall|j: int| 0 <= j < lo ==> is_ws(#[trigger] s@[j]),
        decreases s.len() - lo,
    {
        lo = lo + 1;
    }
    proof {
        lemma_trim_start_skip(s@, lo as int);
    }
    let ghost t = s@.subrange(lo as int, s.len() as int);
    assert(trim_start(t) == t);
    let mut hi: usize = s.len();
    while hi > lo && is_whitespace(s[hi - 1])
        invariant
            lo <= hi <= s.len(),
            t == s@.subrange(lo as int, s.len() as int),
            forall|j: int| hi <= j < s.len() ==> is_ws(#[trigger] s@[j]),
        decreases hi - lo,
    {
        hi = hi - 1;
    }
    proof {
        assert forall|j: int| hi - lo <= j < t.len() implies is_ws(#[trigger] t[j]) by {
            assert(t[j] == s@[lo + j]);
        }
        lemma_trim_end_skip(t, hi - lo);
        assert(t.subrange(0, hi - lo) =~= s@.subrange(lo as int, hi as int));
    }
    (lo, hi)
}

/// A copy of `s[lo..hi]`.
pub fn sub_vec(s: &Vec<char>, lo: usize, hi: usize) -> (r: Vec<char>)
    requires
        lo <= hi <= s.len(),
    ensures
        r@ == s@.subrange(lo as int, hi as int),
{
    let mut r: Vec<char> = Vec::new();
    let mut i: usize = lo;
    while i < hi
        invariant
            lo <= i <= hi <= s.len(),
            r@ == s@.subrange(lo as int, i as int),
        decreases hi - i,
    {
        r.push(s[i]);
        assert(s@.subrange(lo as int, i as int).push(s@[i as int]) =~= s@.subrange(
            lo as int,
            i + 1,
        ));
        i = i + 1;
    }
    r
}

/// `s` trimmed of white space at both ends.
pub fn trim_vec(s: &Vec<char>) -> (r: Vec<char>)
    ensures
        r@ == trim(s@),
{
    let (lo, hi) = trim_bounds(s);
    sub_vec(s, lo, hi)
}

// ---------------------------------------------------------------------------
// Conversions between strings and character vectors
// ---------------------------------------------------------------------------

/// Appends one character to a string.
#[verifier::external_body]
fn push_char(s: &mut String, c: char)
    ensures
        final(s)@ == old(s)@.push(c),
{
    s.push(c);
}

/// The characters of a string slice, in order.
pub fn to_chars(s: &str) -> (v: Vec<char>)
    ensures
        v@ == s@,
{
    let mut v: Vec<char> = Vec::new();
    for c in it: s.chars()
        invariant
            v@ == it.seq().take(it.index() as int),
            it.seq() == s@,
    {
        v.push(c);
    }
    v
}

/// A string holding exactly the given characters.
pub fn from_chars(v: &Vec<char>) -> (s: String)
    ensures
        s@ == v@,
{
    let mut s = String::new();
    let mut i: usize = 0;
    while i < v.len()
        invariant
            i <= v.len(),
            s@ == v@.take(i as int),
        decreases v.len() - i,
    {
        push_char(&mut s, v[i]);
        assert(v@.take(i as int).push(v@[i as int]) =~= v@.take(i + 1));
        i = i + 1;
    }
    assert(v@.take(v.len() as int) =~= v@);
    s
}

/// The concatenation of two string slices.
pub fn concat_str(a: &str, b: &str) -> (r: String)
    ensures
        r@ == a@ + b@,
{
    let mut v = to_chars(a);
    let mut w = to_chars(b);
    v.append(&mut w);
    from_chars(&v)
}

/// The concatenation of a list of character sequences.
pub open spec fn concat_views(s: Seq<Seq<char>>) -> Seq<char>
    decreases s.len(),
{
    if s.len() == 0 {
        Seq::<char>::empty()
    } else {
        concat_views(s.drop_last()) + s.last()
    }
}

/// The concatenation of a list of string slices.
pub fn concat_all(parts: &[&str]) -> (r: String)
    ensures
        r@ == concat_views(parts@.map_values(|p: &str| p@)),
{
    let ghost all = parts@.map_values(|p: &str| p@);
    let mut v: Vec<char> = Vec::new();
    let mut i: usize = 0;
    assert(all.take(0) =~= Seq::<Seq<char>>::empty());
    while i < parts.len()
        invariant
            i <= parts@.len(),
            all == parts@.map_values(|p: &str| p@),
            v@ == concat_views(all.take(i as int)),
        decreases parts@.len() - i,
    {
        let mut w = to_chars(parts[i]);
        assert(all.take(i + 1).drop_last() =~= all.take(i as int));
        assert(all.take(i + 1).last() == parts@[i as int]@);
        v.append(&mut w);
        i = i + 1;
    }
    assert(all.take(parts@.len() as int) =~= all);
    from_chars(&v)
}

/// Whether two string slices hold the same characters.
pub fn str_eq(a: &str, b: &str) -> (r: bool)
    ensures
        r == (a@ == b@),
{
    vec_eq(&to_chars(a), &to_chars(b))
}

/// `s` trimmed of white space at both ends, as a new string.
pub fn trim_str(s: &str) -> (r: String)
    ensures
        r@ == trim(s@),
{
    let v = to_chars(s);
    let t = trim_vec(&v);
    from_chars(&t)
}

// ---------------------------------------------------------------------------
// Prefixes and repeated leading characters
// ---------------------------------------------------------------------------

/// Whether `s` begins with `p`.
pub open spec fn starts_with(s: Seq<char>, p: Seq<char>) -> bool {
    p.len() <= s.len() && s.subrange(0, p.len() as int) == p
}

/// Whether `s` begins with `p`.
pub fn has_prefix(s: &Vec<char>, p: &Vec<char>) -> (b: bool)
    ensures
        b == starts_with(s@, p@),
{
    if p.len() > s.len() {
        return false;
    }
    let mut i: usize = 0;
    while i < p.len()
        invariant
            p.len() <= s.len(),
            i <= p.len(),
            forall|j: int| 0 <= j < i ==> s@[j] == p@[j],
        decreases p.len() - i,
    {
        if s[i] != p[i] {
            assert(s@.subrange(0, p.len() as int)[i as int] != p@[i as int]);
            return false;
        }
        i = i + 1;
    }
    assert(s@.subrange(0, p.len() as int) =~= p@);
    true
}

/// `s` without all leading copies of `c`, as `str::trim_start_matches(c)` gives it.
pub open spec fn strip_leading(s: Seq<char>, c: char) -> Seq<char>
    decreases s.len(),
{
    if s.len() > 0 && s[0] == c {
        strip_leading(s.drop_first(), c)
    } else {
        s
    }
}

proof fn lemma_strip_leading_skip(s: Seq<char>, c: char, i: int)
    requires
        0 <= i <= s.len(),
        forall|j: int| 0 <= j < i ==> #[trigger] s[j] == c,
    ensures
        strip_leading(s, c) == strip_leading(s.subrange(i, s.len() as int), c),
    decreases i,
{
    if i > 0 {
        let t = s.drop_first();
        assert forall|j: int| 0 <= j < i - 1 implies #[trigger] t[j] == c by {
            assert(t[j] == s[j + 1]);
        }
        lemma_strip_leading_skip(t, c, i - 1);
        assert(t.subrange(i - 1, t.len() as int) =~= s.subrange(i, s.len() as int));
    } else {
        assert(s.subrange(0, s.len() as int) =~= s);
    }
}

/// `s` without all trailing copies of `c`, as `str::trim_end_matches(c)` gives it.
pub open spec fn strip_trailing(s: Seq<char>, c: char) -> Seq<char>
    decreases s.len(),
{
    if s.len() > 0 && s.last() == c {
        strip_trailing(s.drop_last(), c)
    } else {
        s
    }
}

/// `s` without all leading and trailing copies of `c`, as `str::trim_matches(c)` gives it.
pub open spec fn trim_char(s: Seq<char>, c: char) -> Seq<char> {
    strip_trailing(strip_leading(s, c), c)
}

proof fn lemma_strip_trailing_cut(s: Seq<char>, c: char, i: int)
    requires
        0 <= i <= s.len(),
        forall|j: int| i <= j < s.len() ==> #[trigger] s[j] == c,
    ensures
        strip_trailing(s, c) == strip_trailing(s.subrange(0, i), c),
    decreases s.len() - i,
{
    if i < s.len() {
        let t = s.drop_last();
        assert forall|j: int| i <= j < t.len() implies #[trigger] t[j] == c by {
            assert(t[j] == s[j]);
        }
        lemma_strip_trailing_cut(t, c, i);
        assert(t.subrange(0, i) =~= s.subrange(0, i));
    } else {
        assert(s.subrange(0, s.len() as int) =~= s);
    }
}

/// `s` without all trailing copies of `c`.
pub fn strip_trailing_vec(s: &Vec<char>, c: char) -> (r: Vec<char>)
    ensures
        r@ == strip_trailing(s@, c),
{
    let mut i: usize = s.len();
    while i > 0 && s[i - 1] == c
        invariant
            i <= s.len(),
            forall|j: int| i <= j < s.len() ==> #[trigger] s@[j] == c,
        decreases i,
    {
        i = i - 1;
    }
    proof {
        lemma_strip_trailing_cut(s@, c, i as int);
    }
    sub_vec(s, 0, i)
}

/// `s` without all leading and trailing copies of `c`.
pub fn trim_char_vec(s: &Vec<char>, c: char) -> (r: Vec<char>)
    ensures
        r@ == trim_char(s@, c),
{
    let a = strip_leading_vec(s, c);
    strip_trailing_vec(&a, c)
}

/// `s` without all leading copies of `c`.
pub fn strip_leading_vec(s: &Vec<char>, c: char) -> (r: Vec<char>)
    ensures
        r@ == strip_leading(s@, c),
{
    let mut i: usize = 0;
    while i < s.len() && s[i] == c
        invariant
            i <= s.len(),
            forall|j: int| 0 <= j < i ==> #[trigger] s@[j] == c,
        decreases s.len() - i,
    {
        i = i + 1;
    }
    proof {
        lemma_strip_leading_skip(s@, c, i as int);
    }
    sub_vec(s, i, s.len())
}

// ---------------------------------------------------------------------------
// Lines
// ---------------------------------------------------------------------------

/// The index of the first `'\n'` in `s`, or `s.len()` when there is none.
pub open spec fn newline_index(s: Seq<char>) -> int
    decreases s.len(),
{
    if s.len() == 0 {
        0
    } else if s[0] == '\n' {
        0
    } else {
        1 + newline_index(s.drop_first())
    }
}

/// `s` without one trailing carriage return.
pub open spec fn strip_cr(s: Seq<char>) -> Seq<char> {
    if s.len() > 0 && s.last() == '\r' {
        s.drop_last()
    } else {
        s
    }
}

/// The lines of `s`, as `str::lines` yields them: split at `'\n'`, one `'\r'` before
/// a `'\n'` dropped, and no empty line after a final line ending.
pub open spec fn lines_of(s: Seq<char>) -> Seq<Seq<char>>
    decreases s.len(),
{
    if s.len() == 0 {
        seq![]
    } else {
        let i = newline_index(s);
        if 0 <= i < s.len() {
            seq![strip_cr(s.subrange(0, i))] + lines_of(s.subrange(i + 1, s.len() as int))
        } else {
            seq![s]
        }
    }
}

/// The views of a sequence of character vectors.
pub open spec fn views(v: Seq<Vec<char>>) -> Seq<Seq<char>> {
    v.map_values(|x: Vec<char>| x@)
}

/// `newline_index` is the first line break, or the length when there is none.
pub proof fn lemma_newline_index_pub(s: Seq<char>, r: int)
    requires
        0 <= r <= s.len(),
        forall|j: int| 0 <= j < r ==> #[trigger] s[j] != '\n',
        r == s.len() || s[r] == '\n',
    ensures
        newline_index(s) == r,
    decreases r,
{
    if r > 0 {
        let t = s.drop_first();
        assert forall|j: int| 0 <= j < r - 1 implies #[trigger] t[j] != '\n' by {
            assert(t[j] == s[j + 1]);
        }
        assert(s[0] != '\n');
        lemma_newline_index_pub(t, r - 1);
    }
}

/// The lines of `s`, as `str::lines` yields them.
pub fn split_lines(s: &Vec<char>) -> (r: Vec<Vec<char>>)
    ensures
        views(r@) == lines_of(s@),
{
    let mut out: Vec<Vec<char>> = Vec::new();
    let mut pos: usize = 0;
    assert(s@.subrange(0, s.len() as int) =~= s@);
    assert(views(out@) + lines_of(s@) =~= lines_of(s@));
    while pos < s.len()
        invariant
            pos <= s.len(),
            lines_of(s@) == views(out@) + lines_of(s@.subrange(pos as int, s.len() as int)),
        decreases s.len() - pos,
    {
        let ghost rest = s@.subrange(pos as int, s.len() as int);
        let mut e: usize = pos;
        while e < s.len() && s[e] != '\n'
            invariant
                pos <= e <= s.len(),
                forall|j: int| pos <= j < e ==> #[trigger] s@[j] != '\n',
            decreases s.len() - e,
        {
            e = e + 1;
        }
        proof {
            assert forall|j: int| 0 <= j < e - pos implies #[trigger] rest[j] != '\n' by {
                assert(rest[j] == s@[pos + j]);
            }
            lemma_newline_index_pub(rest, e - pos);
        }
        let old_out = Ghost(out@);
        if e < s.len() {
            let mut line_end = e;
            if line_end > pos && s[line_end - 1] == '\r' {
                line_end = line_end - 1;
            }
            let line = sub_vec(s, pos, line_end);
            assert(line@ == strip_cr(rest.subrange(0, e - pos)));
            out.push(line);
            assert(rest.subrange(e - pos + 1, rest.len() as int) =~= s@.subrange(
                e + 1,
                s.len() as int,
            ));
            assert(views(out@) =~= views(old_out@) + seq![line@]);
            pos = e + 1;
        } else {
            let line = sub_vec(s, pos, s.len());
            out.push(line);
            assert(views(out@) =~= views(old_out@) + seq![line@]);
            assert(lines_of(s@.subrange(s.len() as int, s.len() as int)) =~= Seq::<Seq<char>>::empty());
            pos = s.len();
        }
    }
    assert(lines_of(s@.subrange(pos as int, s.len() as int)) =~= Seq::<Seq<char>>::empty());
    assert(views(out@) + Seq::<Seq<char>>::empty() =~= views(out@));
    out
}

} // verus!

verus! {

// ---------------------------------------------------------------------------
// Splitting at a separator character
// ---------------------------------------------------------------------------

/// The index of the first `c` in `s`, or `s.len()` when there is none.
pub open spec fn char_index(s: Seq<char>, c: char) -> int
    decreases s.len(),
{
    if s.len() == 0 {
        0
    } else if s[0] == c {
        0
    } else {
        1 + char_index(s.drop_first(), c)
    }
}

/// The pieces of `s` between occurrences of `c`, as `str::split(c)` yields them
/// (always at least one piece; empty pieces kept).
pub open spec fn split_char(s: Seq<char>, c: char) -> Seq<Seq<char>>
    decreases s.len(),
{
    let i = char_index(s, c);
    if 0 <= i < s.len() {
        seq![s.subrange(0, i)] + split_char(s.subrange(i + 1, s.len() as int), c)
    } else {
        seq![s]
    }
}

/// `char_index` is the first occurrence of `c`, or the length when there is none.
pub proof fn lemma_char_index(s: Seq<char>, c: char, r: int)
    requires
        0 <= r <= s.len(),
        forall|j: int| 0 <= j < r ==> #[trigger] s[j] != c,
        r == s.len() || s[r] == c,
    ensures
        char_index(s, c) == r,
    decreases r,
{
    if r > 0 {
        let t = s.drop_first();
        assert forall|j: int| 0 <= j < r - 1 implies #[trigger] t[j] != c by {
            assert(t[j] == s[j + 1]);
        }
        assert(s[0] != c);
        lemma_char_index(t, c, r - 1);
    }
}

/// `char_index` lies within the text, points at `c` when below the length, and no `c`
/// comes before it.
pub proof fn lemma_char_index_bounds(s: Seq<char>, c: char)
    ensures
        0 <= char_index(s, c) <= s.len(),
        char_index(s, c) < s.len() ==> s[char_index(s, c)] == c,
        forall|j: int| 0 <= j < char_index(s, c) ==> #[trigger] s[j] != c,
    decreases s.len(),
{
    if s.len() > 0 && s[0] != c {
        let t = s.drop_first();
        lemma_char_index_bounds(t, c);
        assert forall|j: int| 0 <= j < char_index(s, c) implies #[trigger] s[j] != c by {
            if j > 0 {
                assert(s[j] == t[j - 1]);
            }
        }
    }
}

/// The pieces of `s` between occurrences of `c`.
pub fn split_on(s: &Vec<char>, c: char) -> (r: Vec<Vec<char>>)
    ensures
        views(r@) == split_char(s@, c),
{
    let mut out: Vec<Vec<char>> = Vec::new();
    let mut pos: usize = 0;
    assert(s@.subrange(0, s.len() as int) =~= s@);
    assert(views(out@) + split_char(s@, c) =~= split_char(s@, c));
    loop
        invariant
            pos <= s.len(),
            split_char(s@, c) == views(out@) + split_char(
                s@.subrange(pos as int, s.len() as int),
                c,
            ),
        decreases s.len() - pos,
    {
        let ghost rest = s@.subrange(pos as int, s.len() as int);
        let mut e: usize = pos;
        while e < s.len() && s[e] != c
            invariant
                pos <= e <= s.len(),
                forall|j: int| pos <= j < e ==> #[trigger] s@[j] != c,
            decreases s.len() - e,
        {
            e = e + 1;
        }
        proof {
            assert forall|j: int| 0 <= j < e - pos implies #[trigger] rest[j] != c by {
                assert(rest[j] == s@[pos + j]);
            }
            lemma_char_index(rest, c, e - pos);
        }
        let ghost old_out = out@;
        let piece = sub_vec(s, pos, e);
        out.push(piece);
        assert(views(out@) =~= views(old_out) + seq![piece@]);
        if e < s.len() {
            assert(rest.subrange(0, e - pos) =~= piece@);
            assert(rest.subrange(e - pos + 1, rest.len() as int) =~= s@.subrange(
                e + 1,
                s.len() as int,
            ));
            pos = e + 1;
        } else {
            assert(rest =~= piece@);
            assert(views(out@) + Seq::<Seq<char>>::empty() =~= views(out@));
            return out;
        }
    }
}

/// Whether two character vectors hold the same characters.
pub fn vec_eq(a: &Vec<char>, b: &Vec<char>) -> (r: bool)
    ensures
        r == (a@ == b@),
{
    if a.len() != b.len() {
        return false;
    }
    let mut i: usize = 0;
    while i < a.len()
        invariant
            a.len() == b.len(),
            i <= a.len(),
            forall|j: int| 0 <= j < i ==> a@[j] == b@[j],
        decreases a.len() - i,
    {
        if a[i] != b[i] {
            return false;
        }
        i = i + 1;
    }
    assert(a@ =~= b@);
    true
}

} // verus!

verus! {

// ---------------------------------------------------------------------------
// ASCII case, substrings
// ---------------------------------------------------------------------------

/// The code of `c` with an ASCII capital letter mapped to its small letter.
pub open spec fn lower_code(c: char) -> u32 {
    let n = c as u32;
    if 65 <= n <= 90 {
        (n + 32) as u32
    } else {
        n
    }
}

/// `c` with an ASCII capital letter mapped to its small letter, as
/// `char::to_ascii_lowercase` gives it.
pub open spec fn ascii_lower(c: char) -> char {
    lower_code(c) as char
}

/// `s` with every ASCII capital letter mapped to its small letter.
pub open spec fn ascii_lowercase(s: Seq<char>) -> Seq<char> {
    s.map_values(|c: char| ascii_lower(c))
}

/// Whether `a` and `b` are equal when ASCII letters are compared without case.
pub open spec fn eq_ignore_ascii_case(a: Seq<char>, b: Seq<char>) -> bool {
    a.len() == b.len() && forall|i: int| 0 <= i < a.len() ==> lower_code(#[trigger] a[i])
        == lower_code(b[i])
}

/// Characters equal up to ASCII case are white space alike.
proof fn lemma_ws_ignores_case(a: char, b: char)
    requires
        lower_code(a) == lower_code(b),
    ensures
        is_ws(a) == is_ws(b),
{
}

proof fn lemma_trim_start_ignores_case(a: Seq<char>, b: Seq<char>)
    requires
        eq_ignore_ascii_case(a, b),
    ensures
        eq_ignore_ascii_case(trim_start(a), trim_start(b)),
    decreases a.len(),
{
    if a.len() > 0 {
        lemma_ws_ignores_case(a[0], b[0]);
        if is_ws(a[0]) {
            assert forall|i: int| 0 <= i < a.drop_first().len() implies lower_code(
                #[trigger] a.drop_first()[i],
            ) == lower_code(b.drop_first()[i]) by {
                assert(lower_code(a[i + 1]) == lower_code(b[i + 1]));
            }
            lemma_trim_start_ignores_case(a.drop_first(), b.drop_first());
        }
    }
}

proof fn lemma_trim_end_ignores_case(a: Seq<char>, b: Seq<char>)
    requires
        eq_ignore_ascii_case(a, b),
    ensures
        eq_ignore_ascii_case(trim_end(a), trim_end(b)),
    decreases a.len(),
{
    if a.len() > 0 {
        lemma_ws_ignores_case(a.last(), b.last());
        assert(lower_code(a[a.len() - 1]) == lower_code(b[b.len() - 1]));
        if is_ws(a.last()) {
            assert forall|i: int| 0 <= i < a.drop_last().len() implies lower_code(
                #[trigger] a.drop_last()[i],
            ) == lower_code(b.drop_last()[i]) by {
                assert(lower_code(a[i]) == lower_code(b[i]));
            }
            lemma_trim_end_ignores_case(a.drop_last(), b.drop_last());
        }
    }
}

/// Texts equal up to ASCII case have equal small-case trimmed forms.
pub proof fn lemma_lowercase_trim_ignores_case(a: Seq<char>, b: Seq<char>)
    requires
        eq_ignore_ascii_case(a, b),
    ensures
        ascii_lowercase(trim(a)) == ascii_lowercase(trim(b)),
{
    lemma_trim_start_ignores_case(a, b);
    lemma_trim_end_ignores_case(trim_start(a), trim_start(b));
    let ta = trim(a);
    let tb = trim(b);
    assert forall|i: int| 0 <= i < ta.len() implies ascii_lower(ta[i]) == ascii_lower(tb[i]) by {
        assert(lower_code(ta[i]) == lower_code(tb[i]));
    }
    assert(ascii_lowercase(ta) =~= ascii_lowercase(tb));
}

/// Whether `a` and `b` are equal when ASCII letters are compared without case.
pub fn vec_eq_ignore_ascii_case(a: &Vec<char>, b: &Vec<char>) -> (r: bool)
    ensures
        r == eq_ignore_ascii_case(a@, b@),
{
    if a.len() != b.len() {
        return false;
    }
    let mut i: usize = 0;
    while i < a.len()
        invariant
            a.len() == b.len(),
            i <= a.len(),
            forall|j: int| 0 <= j < i ==> lower_code(#[trigger] a@[j]) == lower_code(b@[j]),
        decreases a.len() - i,
    {
        let x = a[i] as u32;
        let y = b[i] as u32;
        let lx = if 65 <= x && x <= 90 { x + 32 } else { x };
        let ly = if 65 <= y && y <= 90 { y + 32 } else { y };
        if lx != ly {
            assert(lower_code(a@[i as int]) != lower_code(b@[i as int]));
            return false;
        }
        i = i + 1;
    }
    true
}

/// The character `c` with an ASCII capital letter mapped to its small letter.
pub fn to_ascii_lower(c: char) -> (r: char)
    ensures
        r == ascii_lower(c),
{
    if 'A' <= c && c <= 'Z' {
        let n = c as u8;
        ((n + 32) as u8) as char
    } else {
        c
    }
}

/// `s` with every ASCII capital letter mapped to its small letter.
pub fn lowercase_vec(s: &Vec<char>) -> (r: Vec<char>)
    ensures
        r@ == ascii_lowercase(s@),
{
    let mut r: Vec<char> = Vec::new();
    let mut i: usize = 0;
    while i < s.len()
        invariant
            i <= s.len(),
            r@ == ascii_lowercase(s@.take(i as int)),
        decreases s.len() - i,
    {
        let c = to_ascii_lower(s[i]);
        r.push(c);
        assert(ascii_lowercase(s@.take(i + 1)) =~= ascii_lowercase(s@.take(i as int)).push(c));
        i = i + 1;
    }
    assert(s@.take(s.len() as int) =~= s@);
    r
}

/// Whether `p` occurs in `s` starting at index `i`.
pub open spec fn occurs_at(s: Seq<char>, p: Seq<char>, i: int) -> bool {
    0 <= i && i + p.len() <= s.len() && s.subrange(i, i + p.len()) == p
}

/// Whether `p` occurs anywhere in `s`, as `str::contains` answers it.
pub open spec fn contains_seq(s: Seq<char>, p: Seq<char>) -> bool {
    exists|i: int| occurs_at(s, p, i)
}

/// The first index at or after `i` where `p` occurs in `s`.
pub open spec fn find_from(s: Seq<char>, p: Seq<char>, i: int) -> Option<int>
    decreases s.len() + 1 - i,
{
    if i < 0 || i + p.len() > s.len() {
        None
    } else if occurs_at(s, p, i) {
        Some(i)
    } else {
        find_from(s, p, i + 1)
    }
}

/// Whether `p` occurs in `s` at index `i`.
pub fn occurs_at_exec(s: &Vec<char>, p: &Vec<char>, i: usize) -> (r: bool)
    ensures
        r == occurs_at(s@, p@, i as int),
{
    if i > s.len() || p.len() > s.len() - i {
        return false;
    }
    let mut j: usize = 0;
    while j < p.len()
        invariant
            i + p.len() <= s.len(),
            j <= p.len(),
            forall|k: int| 0 <= k < j ==> s@[i + k] == p@[k],
        decreases p.len() - j,
    {
        if s[i + j] != p[j] {
            assert(s@.subrange(i as int, i + p.len())[j as int] != p@[j as int]);
            return false;
        }
        j = j + 1;
    }
    assert(s@.subrange(i as int, i + p.len()) =~= p@);
    true
}

/// When a search from `i` finds nothing, the pattern occurs nowhere from `i` on.
pub proof fn lemma_find_from_none(s: Seq<char>, p: Seq<char>, i: int)
    requires
        i >= 0,
        find_from(s, p, i) is None,
    ensures
        forall|k: int| i <= k ==> !occurs_at(s, p, k),
    decreases s.len() + 1 - i,
{
    if i + p.len() <= s.len() {
        lemma_find_from_none(s, p, i + 1);
    }
}

/// The first index where `p` occurs in `s`.
pub fn find_exec(s: &Vec<char>, p: &Vec<char>) -> (r: Option<usize>)
    ensures
        r matches Some(k) ==> find_from(s@, p@, 0) == Some(k as int),
        r is None ==> find_from(s@, p@, 0) is None,
{
    let mut i: usize = 0;
    while i < s.len()
        invariant
            i <= s.len(),
            find_from(s@, p@, 0) == find_from(s@, p@, i as int),
        decreases s.len() - i,
    {
        if p.len() > s.len() - i {
            return None;
        }
        if occurs_at_exec(s, p, i) {
            return Some(i);
        }
        i = i + 1;
    }
    if p.len() == 0 {
        assert(s@.subrange(i as int, i as int) =~= p@);
        Some(i)
    } else {
        None
    }
}

/// Whether `p` occurs anywhere in `s`.
pub fn contains_exec(s: &Vec<char>, p: &Vec<char>) -> (r: bool)
    ensures
        r == contains_seq(s@, p@),
{
    match find_exec(s, p) {
        Some(k) => {
            proof {
                lemma_find_from_some(s@, p@, 0);
            }
            true
        },
        None => {
            proof {
                lemma_find_from_none(s@, p@, 0);
            }
            false
        },
    }
}

/// A search from `i` finds the first occurrence of the pattern from `i` on.
pub proof fn lemma_find_from_some(s: Seq<char>, p: Seq<char>, i: int)
    requires
        find_from(s, p, i) is Some,
    ensures
        occurs_at(s, p, find_from(s, p, i)->0),
        i <= find_from(s, p, i)->0,
        forall|k: int| i <= k < find_from(s, p, i)->0 ==> !occurs_at(s, p, k),
    decreases s.len() + 1 - i,
{
    if !occurs_at(s, p, i) {
        lemma_find_from_some(s, p, i + 1);
    }
}

} // verus!

verus! {

// ---------------------------------------------------------------------------
// UTF-8 byte lengths and byte offsets
// ---------------------------------------------------------------------------

/// The number of bytes in the UTF-8 encoding of `c`, as `char::len_utf8` gives it.
pub open spec fn utf8_width(c: char) -> nat {
    let n = c as u32;
    if n < 0x80 {
        1
    } else if n < 0x800 {
        2
    } else if n < 0x10000 {
        3
    } else {
        4
    }
}

/// The number of bytes in the UTF-8 encoding of `s`.
pub open spec fn byte_len(s: Seq<char>) -> nat
    decreases s.len(),
{
    if s.len() == 0 {
        0
    } else {
        byte_len(s.drop_last()) + utf8_width(s.last())
    }
}

/// The byte offset at which the character with index `k` of `s` starts.
pub open spec fn byte_offset(s: Seq<char>, k: int) -> nat {
    byte_len(s.take(k))
}

/// Whether some character of `s` (or the end of `s`) starts at byte offset `b`, the
/// character having index `k`.
pub open spec fn starts_at_byte(s: Seq<char>, b: int, k: int) -> bool {
    0 <= k <= s.len() && byte_offset(s, k) == b
}

/// Whether the byte at offset `b` of the UTF-8 encoding of `s` is a line feed: a
/// character starts there and it is `'\n'` (no other byte of any encoding is 0x0A).
pub open spec fn newline_at_byte(s: Seq<char>, b: int) -> bool {
    exists|k: int| 0 <= k < s.len() && #[trigger] byte_offset(s, k) == b && s[k] == '\n'
}

/// The UTF-8 length of two texts put together is the sum of their lengths.
pub proof fn lemma_byte_len_concat(a: Seq<char>, b: Seq<char>)
    ensures
        byte_len(a + b) == byte_len(a) + byte_len(b),
    decreases b.len(),
{
    if b.len() == 0 {
        assert(a + b =~= a);
    } else {
        assert((a + b).drop_last() =~= a + b.drop_last());
        assert((a + b).last() == b.last());
        lemma_byte_len_concat(a, b.drop_last());
    }
}

/// The byte offset of `j` is that of `i` plus the bytes of the characters between them.
pub proof fn lemma_byte_offset_split(s: Seq<char>, i: int, j: int)
    requires
        0 <= i <= j <= s.len(),
    ensures
        byte_offset(s, j) == byte_offset(s, i) + byte_len(s.subrange(i, j)),
{
    assert(s.take(j) =~= s.take(i) + s.subrange(i, j));
    lemma_byte_len_concat(s.take(i), s.subrange(i, j));
}

/// One character further, the byte offset grows by that character's UTF-8 width.
pub proof fn lemma_byte_offset_step(s: Seq<char>, k: int)
    requires
        0 <= k < s.len(),
    ensures
        byte_offset(s, k + 1) == byte_offset(s, k) + utf8_width(s[k]),
{
    assert(s.take(k + 1).drop_last() =~= s.take(k));
}

/// Byte offsets strictly grow with the character position.
pub proof fn lemma_byte_offset_strict(s: Seq<char>, i: int, j: int)
    requires
        0 <= i < j <= s.len(),
    ensures
        byte_offset(s, i) < byte_offset(s, j),
    decreases j - i,
{
    lemma_byte_offset_step(s, j - 1);
    if i < j - 1 {
        lemma_byte_offset_strict(s, i, j - 1);
    }
}

/// Byte offsets never shrink as the character position grows.
pub proof fn lemma_byte_offset_mono(s: Seq<char>, i: int, j: int)
    requires
        0 <= i <= j <= s.len(),
    ensures
        byte_offset(s, i) <= byte_offset(s, j),
{
    if i < j {
        lemma_byte_offset_strict(s, i, j);
    }
}

/// The byte offset of the end of a text is its UTF-8 length.
pub proof fn lemma_byte_offset_full(s: Seq<char>)
    ensures
        byte_offset(s, s.len() as int) == byte_len(s),
{
    assert(s.take(s.len() as int) =~= s);
}

/// The number of bytes in the UTF-8 encoding of `c`.
pub fn utf8_width_exec(c: char) -> (w: usize)
    ensures
        w == utf8_width(c),
{
    let n = c as u32;
    if n < 0x80 {
        1
    } else if n < 0x800 {
        2
    } else if n < 0x10000 {
        3
    } else {
        4
    }
}

/// The number of UTF-8 bytes of `s[lo..hi]`.
pub fn byte_len_range(s: &Vec<char>, lo: usize, hi: usize) -> (r: usize)
    requires
        lo <= hi <= s.len(),
        byte_len(s@) <= usize::MAX,
    ensures
        r == byte_len(s@.subrange(lo as int, hi as int)),
{
    let mut r: usize = 0;
    let mut i: usize = lo;
    proof {
        lemma_byte_offset_split(s@, lo as int, hi as int);
        lemma_byte_offset_mono(s@, hi as int, s.len() as int);
        lemma_byte_offset_full(s@);
    }
    while i < hi
        invariant
            lo <= i <= hi <= s.len(),
            byte_len(s@) <= usize::MAX,
            r == byte_len(s@.subrange(lo as int, i as int)),
            byte_offset(s@, hi as int) == byte_offset(s@, lo as int) + byte_len(
                s@.subrange(lo as int, hi as int),
            ),
            byte_offset(s@, hi as int) <= byte_len(s@),
        decreases hi - i,
    {
        proof {
            lemma_byte_offset_split(s@, lo as int, i + 1);
            lemma_byte_offset_split(s@, lo as int, i as int);
            lemma_byte_offset_step(s@, i as int);
            lemma_byte_offset_mono(s@, i + 1, hi as int);
        }
        r = r + utf8_width_exec(s[i]);
        i = i + 1;
    }
    r
}

/// The index of the character of `s` that starts at byte offset `b` (the length of
/// `s` when `b` is the end), when there is one.
pub fn char_at_byte(s: &Vec<char>, b: usize) -> (r: Option<usize>)
    requires
        byte_len(s@) <= usize::MAX,
    ensures
        r matches Some(k) ==> starts_at_byte(s@, b as int, k as int),
        r is None ==> forall|k: int| !starts_at_byte(s@, b as int, k),
{
    let mut k: usize = 0;
    let mut cb: usize = 0;
    proof {
        lemma_byte_offset_full(s@);
        assert(s@.take(0) =~= Seq::<char>::empty());
    }
    while k < s.len() && cb < b
        invariant
            k <= s.len(),
            byte_len(s@) <= usize::MAX,
            cb == byte_offset(s@, k as int),
            byte_offset(s@, s.len() as int) == byte_len(s@),
            forall|j: int| 0 <= j < k ==> #[trigger] byte_offset(s@, j) < b,
        decreases s.len() - k,
    {
        proof {
            lemma_byte_offset_step(s@, k as int);
            lemma_byte_offset_mono(s@, k + 1, s.len() as int);
        }
        cb = cb + utf8_width_exec(s[k]);
        k = k + 1;
    }
    if cb == b {
        Some(k)
    } else {
        proof {
            assert forall|j: int| !starts_at_byte(s@, b as int, j) by {
                if 0 <= j <= s.len() && byte_offset(s@, j) == b {
                    if j > k {
                        lemma_byte_offset_strict(s@, k as int, j);
                    }
                }
            }
        }
        None
    }
}

/// Whether the byte at offset `b` of the UTF-8 encoding of `s` is a line feed.
pub fn newline_at_byte_exec(s: &Vec<char>, b: usize) -> (r: bool)
    requires
        byte_len(s@) <= usize::MAX,
    ensures
        r == newline_at_byte(s@, b as int),
{
    match char_at_byte(s, b) {
        Some(k) => {
            if k < s.len() && s[k] == '\n' {
                true
            } else {
                proof {
                    if newline_at_byte(s@, b as int) {
                        let j = choose|j: int|
                            0 <= j < s.len() && #[trigger] byte_offset(s@, j) == b && s@[j]
                                == '\n';
                        if j < k {
                            lemma_byte_offset_strict(s@, j, k as int);
                        } else if j > k {
                            lemma_byte_offset_strict(s@, k as int, j);
                        }
                    }
                }
                false
            }
        },
        None => {
            proof {
                if newline_at_byte(s@, b as int) {
                    let j = choose|j: int|
                        0 <= j < s.len() && #[trigger] byte_offset(s@, j) == b && s@[j] == '\n';
                    assert(starts_at_byte(s@, b as int, j));
                }
            }
            false
        },
    }
}

} // verus!

verus! {

// ---------------------------------------------------------------------------
// Ordering of strings
// ---------------------------------------------------------------------------

/// Lexicographic order on character sequences by code point, the order `String`'s `Ord`
/// gives (UTF-8 byte order and code point order agree).
pub open spec fn seq_le(a: Seq<char>, b: Seq<char>) -> bool
    decreases a.len(),
{
    if a.len() == 0 {
        true
    } else if b.len() == 0 {
        false
    } else if a[0] != b[0] {
        (a[0] as u32) < (b[0] as u32)
    } else {
        seq_le(a.drop_first(), b.drop_first())
    }
}

/// Any two texts are ordered one way or the other.
pub proof fn lemma_seq_le_total(a: Seq<char>, b: Seq<char>)
    ensures
        seq_le(a, b) || seq_le(b, a),
    decreases a.len(),
{
    if a.len() > 0 && b.len() > 0 && a[0] == b[0] {
        lemma_seq_le_total(a.drop_first(), b.drop_first());
    } else if a.len() > 0 && b.len() > 0 {
        vstd::utf8::char_u32_cast(a[0], a[0] as u32);
        vstd::utf8::char_u32_cast(b[0], b[0] as u32);
        assert((a[0] as u32) != (b[0] as u32));
    }
}

/// Every text is ordered before or equal to itself.
pub proof fn lemma_seq_le_refl(a: Seq<char>)
    ensures
        seq_le(a, a),
    decreases a.len(),
{
    if a.len() > 0 {
        lemma_seq_le_refl(a.drop_first());
    }
}

/// The order of texts is transitive.
pub proof fn lemma_seq_le_trans(a: Seq<char>, b: Seq<char>, c: Seq<char>)
    requires
        seq_le(a, b),
        seq_le(b, c),
    ensures
        seq_le(a, c),
    decreases a.len(),
{
    if a.len() > 0 && b.len() > 0 && c.len() > 0 && a[0] == b[0] && b[0] == c[0] {
        lemma_seq_le_trans(a.drop_first(), b.drop_first(), c.drop_first());
    }
}

/// Two texts each ordered before the other are equal.
pub proof fn lemma_seq_le_antisym(a: Seq<char>, b: Seq<char>)
    requires
        seq_le(a, b),
        seq_le(b, a),
    ensures
        a == b,
    decreases a.len(),
{
    if a.len() > 0 && b.len() > 0 {
        assert(a[0] == b[0]);
        lemma_seq_le_antisym(a.drop_first(), b.drop_first());
        assert(a =~= seq![a[0]] + a.drop_first());
        assert(b =~= seq![b[0]] + b.drop_first());
    } else {
        assert(a =~= b);
    }
}

/// Whether `a` comes no later than `b` in code point order.
pub fn vec_le(a: &Vec<char>, b: &Vec<char>) -> (r: bool)
    ensures
        r == seq_le(a@, b@),
{
    let mut i: usize = 0;
    assert(a@.skip(0) =~= a@);
    assert(b@.skip(0) =~= b@);
    while i < a.len() && i < b.len() && a[i] == b[i]
        invariant
            i <= a.len(),
            i <= b.len(),
            seq_le(a@, b@) == seq_le(a@.skip(i as int), b@.skip(i as int)),
        decreases a.len() - i,
    {
        assert(a@.skip(i as int).drop_first() =~= a@.skip(i + 1));
        assert(b@.skip(i as int).drop_first() =~= b@.skip(i + 1));
        i = i + 1;
    }
    if i == a.len() {
        true
    } else if i == b.len() {
        false
    } else {
        (a[i] as u32) < (b[i] as u32)
    }
}

/// Whether the string `a` comes no later than `b` in `String` order.
pub fn str_le(a: &str, b: &str) -> (r: bool)
    ensures
        r == seq_le(a@, b@),
{
    vec_le(&to_chars(a), &to_chars(b))
}

/// The character sequences of a list of strings.
pub open spec fn string_views(s: Seq<String>) -> Seq<Seq<char>> {
    s.map_values(|x: String| x@)
}

/// Whether the sequences of `r` never decrease.
pub open spec fn seqs_sorted(r: Seq<Seq<char>>) -> bool {
    forall|i: int, j: int| 0 <= i < j < r.len() ==> seq_le(#[trigger] r[i], #[trigger] r[j])
}

/// The first position of `r` whose sequence comes after `key`.
pub open spec fn first_after_seq(r: Seq<Seq<char>>, key: Seq<char>) -> nat
    decreases r.len(),
{
    if r.len() == 0 {
        0
    } else if !seq_le(r[0], key) {
        0
    } else {
        1 + first_after_seq(r.drop_first(), key)
    }
}

/// `s` in code point order, equal sequences keeping their order: what a stable sort gives.
pub open spec fn sort_seqs(s: Seq<Seq<char>>) -> Seq<Seq<char>>
    decreases s.len(),
{
    if s.len() == 0 {
        s
    } else {
        let r = sort_seqs(s.drop_last());
        r.insert(first_after_seq(r, s.last()) as int, s.last())
    }
}

/// Every sequence before `first_after_seq(r, key)` comes no later than `key`, and the one
/// there, if any, comes after it.
pub proof fn lemma_first_after_seq(r: Seq<Seq<char>>, key: Seq<char>)
    ensures
        first_after_seq(r, key) <= r.len(),
        forall|k: int| 0 <= k < first_after_seq(r, key) ==> seq_le(#[trigger] r[k], key),
        first_after_seq(r, key) < r.len() ==> !seq_le(r[first_after_seq(r, key) as int], key),
    decreases r.len(),
{
    if r.len() > 0 && seq_le(r[0], key) {
        lemma_first_after_seq(r.drop_first(), key);
        assert forall|k: int| 0 <= k < first_after_seq(r, key) implies seq_le(#[trigger] r[k], key) by {
            if k > 0 {
                assert(r[k] == r.drop_first()[k - 1]);
            }
        }
    }
}

/// Sorting keeps every sequence, as often as it occurs, and puts them in order.
pub proof fn lemma_sort_seqs(s: Seq<Seq<char>>)
    ensures
        sort_seqs(s).to_multiset() == s.to_multiset(),
        sort_seqs(s).len() == s.len(),
        seqs_sorted(sort_seqs(s)),
    decreases s.len(),
{
    if s.len() > 0 {
        let r = sort_seqs(s.drop_last());
        let x = s.last();
        let p = first_after_seq(r, x) as int;
        lemma_sort_seqs(s.drop_last());
        lemma_first_after_seq(r, x);
        let out = r.insert(p, x);
        vstd::seq_lib::to_multiset_insert(r, p, x);
        assert(s =~= s.drop_last().push(x));
        vstd::seq_lib::to_multiset_build(s.drop_last(), x);
        assert forall|i: int, j: int| 0 <= i < j < out.len() implies seq_le(
            #[trigger] out[i],
            #[trigger] out[j],
        ) by {
            if j < p {
                assert(out[i] == r[i] && out[j] == r[j]);
            } else if j == p {
                assert(out[i] == r[i]);
            } else if i < p {
                assert(out[i] == r[i] && out[j] == r[j - 1]);
                lemma_seq_le_total(r[p], x);
                if p < j - 1 {
                    lemma_seq_le_trans(x, r[p], r[j - 1]);
                }
                lemma_seq_le_trans(r[i], x, r[j - 1]);
            } else if i == p {
                assert(out[j] == r[j - 1]);
                lemma_seq_le_total(r[p], x);
                if p < j - 1 {
                    lemma_seq_le_trans(x, r[p], r[j - 1]);
                }
            } else {
                assert(out[i] == r[i - 1] && out[j] == r[j - 1]);
            }
        }
    }
}

/// Where `x` goes in `r`: after every string that does not come later.
fn string_insert_position(r: &Vec<String>, x: &String) -> (p: usize)
    ensures
        p == first_after_seq(string_views(r@), x@),
        p <= r@.len(),
{
    let ghost rv = string_views(r@);
    let mut p: usize = 0;
    assert(rv.skip(0) =~= rv);
    while p < r.len() && str_le(r[p].as_str(), x.as_str())
        invariant
            p <= r.len(),
            rv == string_views(r@),
            first_after_seq(rv, x@) == p + first_after_seq(rv.skip(p as int), x@),
        decreases r.len() - p,
    {
        assert(rv.skip(p as int).drop_first() =~= rv.skip(p + 1));
        assert(rv.skip(p as int)[0] == r@[p as int]@);
        p = p + 1;
    }
    if p < r.len() {
        assert(rv.skip(p as int)[0] == r@[p as int]@);
    }
    p
}

/// `v` sorted in `String` order, as `sort` does it.
pub fn sort_string_list(v: Vec<String>) -> (r: Vec<String>)
    ensures
        string_views(r@) == sort_seqs(string_views(v@)),
{
    let ghost orig = string_views(v@);
    let ghost vs = v@;
    let mut rest = v;
    let mut r: Vec<String> = Vec::new();
    let ghost mut i: int = 0;
    assert(orig.take(0) =~= Seq::<Seq<char>>::empty());
    assert(vs.skip(0) =~= vs);
    assert(string_views(r@) =~= Seq::<Seq<char>>::empty());
    while rest.len() > 0
        invariant
            0 <= i <= vs.len(),
            orig == string_views(vs),
            rest@ == vs.skip(i),
            string_views(r@) == sort_seqs(orig.take(i)),
        decreases rest.len(),
    {
        let x = rest.remove(0);
        proof {
            assert(x == vs[i]);
            assert(orig.take(i + 1).drop_last() =~= orig.take(i));
            assert(orig.take(i + 1).last() == x@);
            assert(vs.skip(i).subrange(1, vs.skip(i).len() as int) =~= vs.skip(i + 1));
        }
        let p = string_insert_position(&r, &x);
        let ghost before = r@;
        r.insert(p, x);
        proof {
            assert(string_views(r@) =~= string_views(before).insert(p as int, x@));
            i = i + 1;
        }
    }
    assert(orig.take(i) =~= orig);
    r
}


/// The first position of `r` whose key comes after `k`.
pub open spec fn first_after_key<T>(r: Seq<T>, key: spec_fn(T) -> Seq<char>, k: Seq<char>) -> nat
    decreases r.len(),
{
    if r.len() == 0 {
        0
    } else if !seq_le(key(r[0]), k) {
        0
    } else {
        1 + first_after_key(r.drop_first(), key, k)
    }
}

/// `s` ordered by `key`, items with equal keys keeping their order: a stable sort.
pub open spec fn sort_by_key<T>(s: Seq<T>, key: spec_fn(T) -> Seq<char>) -> Seq<T>
    decreases s.len(),
{
    if s.len() == 0 {
        s
    } else {
        let r = sort_by_key(s.drop_last(), key);
        r.insert(first_after_key(r, key, key(s.last())) as int, s.last())
    }
}

/// Whether the keys of `r` never decrease.
pub open spec fn keys_sorted<T>(r: Seq<T>, key: spec_fn(T) -> Seq<char>) -> bool {
    forall|i: int, j: int| 0 <= i < j < r.len() ==> seq_le(key(#[trigger] r[i]), key(#[trigger] r[j]))
}

proof fn lemma_first_after_key<T>(r: Seq<T>, key: spec_fn(T) -> Seq<char>, k: Seq<char>)
    ensures
        first_after_key(r, key, k) <= r.len(),
        forall|i: int| 0 <= i < first_after_key(r, key, k) ==> seq_le(key(#[trigger] r[i]), k),
        first_after_key(r, key, k) < r.len() ==> !seq_le(key(r[first_after_key(r, key, k) as int]), k),
    decreases r.len(),
{
    if r.len() > 0 && seq_le(key(r[0]), k) {
        lemma_first_after_key(r.drop_first(), key, k);
        assert forall|i: int| 0 <= i < first_after_key(r, key, k) implies seq_le(key(#[trigger] r[i]), k) by {
            if i > 0 {
                assert(r[i] == r.drop_first()[i - 1]);
            }
        }
    }
}

/// Sorting by a key keeps every item, as often as it occurs, and orders the keys.
pub proof fn lemma_sort_by_key<T>(s: Seq<T>, key: spec_fn(T) -> Seq<char>)
    ensures
        sort_by_key(s, key).to_multiset() == s.to_multiset(),
        sort_by_key(s, key).len() == s.len(),
        keys_sorted(sort_by_key(s, key), key),
    decreases s.len(),
{
    if s.len() > 0 {
        let r = sort_by_key(s.drop_last(), key);
        let x = s.last();
        let kx = key(x);
        let p = first_after_key(r, key, kx) as int;
        lemma_sort_by_key(s.drop_last(), key);
        lemma_first_after_key(r, key, kx);
        let out = r.insert(p, x);
        vstd::seq_lib::to_multiset_insert(r, p, x);
        assert(s =~= s.drop_last().push(x));
        vstd::seq_lib::to_multiset_build(s.drop_last(), x);
        assert forall|i: int, j: int| 0 <= i < j < out.len() implies seq_le(
            key(#[trigger] out[i]),
            key(#[trigger] out[j]),
        ) by {
            if j < p {
                assert(out[i] == r[i] && out[j] == r[j]);
            } else if j == p {
                assert(out[i] == r[i]);
            } else if i < p {
                assert(out[i] == r[i] && out[j] == r[j - 1]);
                lemma_seq_le_total(key(r[p]), kx);
                if p < j - 1 {
                    lemma_seq_le_trans(kx, key(r[p]), key(r[j - 1]));
                }
                lemma_seq_le_trans(key(r[i]), kx, key(r[j - 1]));
            } else if i == p {
                assert(out[j] == r[j - 1]);
                lemma_seq_le_total(key(r[p]), kx);
                if p < j - 1 {
                    lemma_seq_le_trans(kx, key(r[p]), key(r[j - 1]));
                }
            } else {
                assert(out[i] == r[i - 1] && out[j] == r[j - 1]);
            }
        }
    }
}

} // verus!
