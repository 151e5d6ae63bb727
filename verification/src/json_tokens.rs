use vstd::prelude::*;

use crate::text;

verus! {

/// The kind of a piece of JSON text, which decides how it is colored.
#[derive(Clone, Copy, Debug, PartialEq, Eq, Structural)]
pub enum JsonTokenKind {
    Plain,
    Key,
    Str,
    Number,
    Bool,
    Null,
    Punct,
}

/// A piece of JSON text with its kind.
#[derive(Debug)]
pub struct JsonToken {
    pub kind: JsonTokenKind,
    pub text: String,
}

/// An ASCII digit.
pub open spec fn is_digit(c: char) -> bool {
    '0' <= c <= '9'
}

/// An ASCII letter.
pub open spec fn is_letter(c: char) -> bool {
    ('a' <= c <= 'z') || ('A' <= c <= 'Z')
}

/// A character that continues a number.
pub open spec fn is_number_char(c: char) -> bool {
    is_digit(c) || c == '.' || c == 'e' || c == 'E' || c == '+' || c == '-'
}

/// A structural character of JSON.
pub open spec fn is_punct(c: char) -> bool {
    c == '{' || c == '}' || c == '[' || c == ']' || c == ':' || c == ','
}

/// The end of the run of white space that starts at `i`.
pub open spec fn ws_end(s: Seq<char>, i: int) -> int
    decreases s.len() - i,
{
    if i >= s.len() || !text::is_ws(s[i]) {
        i
    } else {
        ws_end(s, i + 1)
    }
}

/// The end of the run of number characters that starts at `i`.
pub open spec fn number_end(s: Seq<char>, i: int) -> int
    decreases s.len() - i,
{
    if i >= s.len() || !is_number_char(s[i]) {
        i
    } else {
        number_end(s, i + 1)
    }
}

/// The end of the run of letters that starts at `i`.
pub open spec fn letters_end(s: Seq<char>, i: int) -> int
    decreases s.len() - i,
{
    if i >= s.len() || !is_letter(s[i]) {
        i
    } else {
        letters_end(s, i + 1)
    }
}

/// The end of a string whose text continues at `i`: just after the first quote that no
/// backslash escapes, or the end of the text; `escaped` tells whether the character at
/// `i` is escaped.
pub open spec fn string_end(s: Seq<char>, i: int, escaped: bool) -> int
    decreases s.len() - i,
{
    if i >= s.len() {
        i
    } else if s[i] == '\\' && !escaped {
        string_end(s, i + 1, true)
    } else if s[i] == '"' && !escaped {
        i + 1
    } else {
        string_end(s, i + 1, false)
    }
}

/// The end of the token that starts at `i`.
pub open spec fn token_end(s: Seq<char>, i: int) -> int {
    let c = s[i];
    if text::is_ws(c) {
        ws_end(s, i + 1)
    } else if c == '"' {
        string_end(s, i + 1, false)
    } else if is_digit(c) || c == '-' {
        number_end(s, i + 1)
    } else if is_letter(c) {
        letters_end(s, i + 1)
    } else {
        i + 1
    }
}

/// The kind of the token that starts at `i`: a string is a key when, past white space,
/// a colon follows it.
pub open spec fn token_kind(s: Seq<char>, i: int) -> JsonTokenKind {
    let c = s[i];
    let e = token_end(s, i);
    if text::is_ws(c) {
        JsonTokenKind::Plain
    } else if c == '"' {
        if ws_end(s, e) < s.len() && s[ws_end(s, e)] == ':' {
            JsonTokenKind::Key
        } else {
            JsonTokenKind::Str
        }
    } else if is_digit(c) || c == '-' {
        JsonTokenKind::Number
    } else if is_letter(c) {
        let word = s.subrange(i, e);
        if word == "true"@ || word == "false"@ {
            JsonTokenKind::Bool
        } else if word == "null"@ {
            JsonTokenKind::Null
        } else {
            JsonTokenKind::Plain
        }
    } else if is_punct(c) {
        JsonTokenKind::Punct
    } else {
        JsonTokenKind::Plain
    }
}

proof fn lemma_ws_end(s: Seq<char>, i: int)
    requires
        i <= s.len(),
    ensures
        i <= ws_end(s, i) <= s.len(),
    decreases s.len() - i,
{
    if i < s.len() && text::is_ws(s[i]) {
        lemma_ws_end(s, i + 1);
    }
}

proof fn lemma_number_end(s: Seq<char>, i: int)
    requires
        i <= s.len(),
    ensures
        i <= number_end(s, i) <= s.len(),
    decreases s.len() - i,
{
    if i < s.len() && is_number_char(s[i]) {
        lemma_number_end(s, i + 1);
    }
}

proof fn lemma_letters_end(s: Seq<char>, i: int)
    requires
        i <= s.len(),
    ensures
        i <= letters_end(s, i) <= s.len(),
    decreases s.len() - i,
{
    if i < s.len() && is_letter(s[i]) {
        lemma_letters_end(s, i + 1);
    }
}

proof fn lemma_string_end(s: Seq<char>, i: int, escaped: bool)
    requires
        i <= s.len(),
    ensures
        i <= string_end(s, i, escaped) <= s.len(),
    decreases s.len() - i,
{
    if i < s.len() {
        if s[i] == '\\' && !escaped {
            lemma_string_end(s, i + 1, true);
        } else if !(s[i] == '"' && !escaped) {
            lemma_string_end(s, i + 1, false);
        }
    }
}

/// Every token takes at least one character, and none past the end.
pub proof fn lemma_token_end(s: Seq<char>, i: int)
    requires
        0 <= i < s.len(),
    ensures
        i < token_end(s, i) <= s.len(),
{
    lemma_ws_end(s, i + 1);
    lemma_string_end(s, i + 1, false);
    lemma_number_end(s, i + 1);
    lemma_letters_end(s, i + 1);
}

/// The tokens of the text from position `i` on.
pub open spec fn tokens_from(s: Seq<char>, i: int) -> Seq<(JsonTokenKind, Seq<char>)>
    decreases s.len() - i,
{
    if i < 0 || i >= s.len() {
        Seq::empty()
    } else {
        proof {
            lemma_token_end(s, i);
        }
        seq![(token_kind(s, i), s.subrange(i, token_end(s, i)))] + tokens_from(s, token_end(s, i))
    }
}

/// The tokens of a JSON text, for coloring; an empty text gives one empty plain token.
pub open spec fn highlight_tokens(s: Seq<char>) -> Seq<(JsonTokenKind, Seq<char>)> {
    if s.len() == 0 {
        seq![(JsonTokenKind::Plain, Seq::empty())]
    } else {
        tokens_from(s, 0)
    }
}

/// The kind and text of each token.
pub open spec fn token_views(ts: Seq<JsonToken>) -> Seq<(JsonTokenKind, Seq<char>)> {
    ts.map_values(|t: JsonToken| (t.kind, t.text@))
}

/// The texts of the tokens, one after the other.
pub open spec fn joined_texts(ts: Seq<(JsonTokenKind, Seq<char>)>) -> Seq<char>
    decreases ts.len(),
{
    if ts.len() == 0 {
        Seq::empty()
    } else {
        ts[0].1 + joined_texts(ts.drop_first())
    }
}

proof fn lemma_tokens_from_join(s: Seq<char>, i: int)
    requires
        0 <= i <= s.len(),
    ensures
        joined_texts(tokens_from(s, i)) == s.subrange(i, s.len() as int),
        forall|k: int| 0 <= k < tokens_from(s, i).len() ==> (#[trigger] tokens_from(s, i)[k]).1.len() > 0,
    decreases s.len() - i,
{
    if i < s.len() {
        lemma_token_end(s, i);
        let e = token_end(s, i);
        lemma_tokens_from_join(s, e);
        let ts = tokens_from(s, i);
        assert(ts.drop_first() =~= tokens_from(s, e));
        assert(s.subrange(i, e) + s.subrange(e, s.len() as int) =~= s.subrange(i, s.len() as int));
        assert forall|k: int| 0 <= k < ts.len() implies (#[trigger] ts[k]).1.len() > 0 by {
            if k > 0 {
                assert(ts[k] == tokens_from(s, e)[k - 1]);
            }
        }
    } else {
        assert(s.subrange(i, s.len() as int) =~= Seq::<char>::empty());
    }
}

/// The tokens give back the text when put together, and only the empty text has an
/// empty token.
pub proof fn lemma_highlight_tokens_cover_text(s: Seq<char>)
    ensures
        joined_texts(highlight_tokens(s)) == s,
        s.len() > 0 ==> forall|k: int|
            0 <= k < highlight_tokens(s).len() ==> (#[trigger] highlight_tokens(s)[k]).1.len() > 0,
{
    if s.len() == 0 {
        let ts = highlight_tokens(s);
        assert(ts.drop_first() =~= Seq::<(JsonTokenKind, Seq<char>)>::empty());
        assert(joined_texts(ts.drop_first()) =~= Seq::<char>::empty());
        assert(joined_texts(ts) =~= ts[0].1 + joined_texts(ts.drop_first()));
        assert(joined_texts(ts) =~= s);
    } else {
        lemma_tokens_from_join(s, 0);
        assert(s.subrange(0, s.len() as int) =~= s);
    }
}

/// Whether a token's text is a word: letters only, at least one.
pub open spec fn is_word_text(t: Seq<char>) -> bool {
    t.len() > 0 && forall|k: int| 0 <= k < t.len() ==> is_letter(#[trigger] t[k])
}

/// What a word token is colored as: `true` and `false` alike as booleans, `null` as
/// null, and every other word plainly.
pub open spec fn word_kind_is(kind: JsonTokenKind, word: Seq<char>) -> bool {
    &&& kind == JsonTokenKind::Bool <==> (word == "true"@ || word == "false"@)
    &&& kind == JsonTokenKind::Null <==> word == "null"@
    &&& kind == JsonTokenKind::Plain <==> !(word == "true"@ || word == "false"@ || word == "null"@)
}

proof fn lemma_letter_not_special(c: char)
    requires
        is_letter(c),
    ensures
        !text::is_ws(c),
        c != '"',
        !is_digit(c),
        c != '-',
{
}

proof fn lemma_letters_run(s: Seq<char>, i: int)
    requires
        0 <= i <= s.len(),
    ensures
        forall|k: int| i <= k < letters_end(s, i) ==> is_letter(#[trigger] s[k]),
    decreases s.len() - i,
{
    lemma_letters_end(s, i);
    if i < s.len() && is_letter(s[i]) {
        lemma_letters_run(s, i + 1);
    }
}

proof fn lemma_tokens_from_words(s: Seq<char>, i: int)
    requires
        0 <= i <= s.len(),
    ensures
        forall|k: int|
            0 <= k < tokens_from(s, i).len() ==> (is_word_text((#[trigger] tokens_from(s, i)[k]).1)
                ==> word_kind_is(tokens_from(s, i)[k].0, tokens_from(s, i)[k].1))
                && (tokens_from(s, i)[k].0 == JsonTokenKind::Bool ==> (tokens_from(s, i)[k].1
                == "true"@ || tokens_from(s, i)[k].1 == "false"@))
                && (tokens_from(s, i)[k].0 == JsonTokenKind::Null ==> tokens_from(s, i)[k].1
                == "null"@),
    decreases s.len() - i,
{
    reveal_strlit("true");
    reveal_strlit("false");
    reveal_strlit("null");
    if i < s.len() {
        lemma_token_end(s, i);
        let e = token_end(s, i);
        lemma_tokens_from_words(s, e);
        let ts = tokens_from(s, i);
        let head = (token_kind(s, i), s.subrange(i, e));
        assert(ts[0] == head);
        assert forall|k: int| 0 <= k < ts.len() implies (is_word_text((#[trigger] ts[k]).1) ==> word_kind_is(
            ts[k].0,
            ts[k].1,
        )) && (ts[k].0 == JsonTokenKind::Bool ==> (ts[k].1 == "true"@ || ts[k].1 == "false"@)) && (
        ts[k].0 == JsonTokenKind::Null ==> ts[k].1 == "null"@) by {
            if k > 0 {
                assert(ts[k] == tokens_from(s, e)[k - 1]);
            } else {
                let w = s.subrange(i, e);
                let c = s[i];
                assert(w[0] == c);
                if is_letter(c) {
                    lemma_letter_not_special(c);
                    assert(token_end(s, i) == letters_end(s, i + 1));
                } else {
                    if is_word_text(w) {
                        assert(is_letter(w[0]));
                    }
                    assert(token_kind(s, i) != JsonTokenKind::Bool);
                    assert(token_kind(s, i) != JsonTokenKind::Null);
                }
            }
        }
    }
}

/// Words are colored by what they say: every token whose text is a word (letters only)
/// is a boolean exactly when it reads `true` or `false`, null exactly when it reads
/// `null`, and plain otherwise; and only those words are ever booleans or null.
pub proof fn lemma_word_tokens(s: Seq<char>)
    ensures
        forall|k: int|
            0 <= k < highlight_tokens(s).len() ==> (is_word_text(
                (#[trigger] highlight_tokens(s)[k]).1,
            ) ==> word_kind_is(highlight_tokens(s)[k].0, highlight_tokens(s)[k].1))
                && (highlight_tokens(s)[k].0 == JsonTokenKind::Bool ==> (highlight_tokens(s)[k].1
                == "true"@ || highlight_tokens(s)[k].1 == "false"@))
                && (highlight_tokens(s)[k].0 == JsonTokenKind::Null ==> highlight_tokens(s)[k].1
                == "null"@),
{
    if s.len() > 0 {
        lemma_tokens_from_words(s, 0);
    }
}

fn ws_end_exec(s: &Vec<char>, i: usize) -> (e: usize)
    requires
        i <= s@.len(),
    ensures
        e == ws_end(s@, i as int),
{
    let mut k = i;
    while k < s.len() && text::is_whitespace(s[k])
        invariant
            i <= k <= s@.len(),
            ws_end(s@, k as int) == ws_end(s@, i as int),
        decreases s@.len() - k,
    {
        k = k + 1;
    }
    k
}

fn number_end_exec(s: &Vec<char>, i: usize) -> (e: usize)
    requires
        i <= s@.len(),
    ensures
        e == number_end(s@, i as int),
{
    let mut k = i;
    while k < s.len() && (('0' <= s[k] && s[k] <= '9') || s[k] == '.' || s[k] == 'e' || s[k] == 'E'
        || s[k] == '+' || s[k] == '-')
        invariant
            i <= k <= s@.len(),
            number_end(s@, k as int) == number_end(s@, i as int),
        decreases s@.len() - k,
    {
        k = k + 1;
    }
    k
}

fn letters_end_exec(s: &Vec<char>, i: usize) -> (e: usize)
    requires
        i <= s@.len(),
    ensures
        e == letters_end(s@, i as int),
{
    let mut k = i;
    while k < s.len() && (('a' <= s[k] && s[k] <= 'z') || ('A' <= s[k] && s[k] <= 'Z'))
        invariant
            i <= k <= s@.len(),
            letters_end(s@, k as int) == letters_end(s@, i as int),
        decreases s@.len() - k,
    {
        k = k + 1;
    }
    k
}

fn string_end_exec(s: &Vec<char>, i: usize) -> (e: usize)
    requires
        i <= s@.len(),
    ensures
        e == string_end(s@, i as int, false),
{
    let mut k = i;
    let mut escaped = false;
    while k < s.len()
        invariant
            i <= k <= s@.len(),
            string_end(s@, k as int, escaped) == string_end(s@, i as int, false),
        decreases s@.len() - k,
    {
        let c = s[k];
        k = k + 1;
        if c == '\\' && !escaped {
            escaped = true;
        } else if c == '"' && !escaped {
            return k;
        } else {
            escaped = false;
        }
    }
    k
}

fn is_word(w: &Vec<char>, lit: &str) -> (b: bool)
    ensures
        b == (w@ == lit@),
{
    text::vec_eq(w, &text::to_chars(lit))
}

/// The tokens of a JSON text, for coloring: white space, keys, strings, numbers,
/// `true`/`false`, `null`, structural characters and anything else, in text order.
pub fn json_syntax_tokens(code: &str) -> (r: Vec<JsonToken>)
    ensures
        token_views(r@) == highlight_tokens(code@),
{
    let s = text::to_chars(code);
    let mut out: Vec<JsonToken> = Vec::new();
    let mut idx: usize = 0;
    while idx < s.len()
        invariant
            idx <= s@.len(),
            s@ == code@,
            token_views(out@) + tokens_from(s@, idx as int) == tokens_from(s@, 0),
        decreases s@.len() - idx,
    {
        proof {
            lemma_token_end(s@, idx as int);
        }
        let c = s[idx];
        let end: usize;
        let kind: JsonTokenKind;
        if text::is_whitespace(c) {
            end = ws_end_exec(&s, idx + 1);
            kind = JsonTokenKind::Plain;
        } else if c == '"' {
            end = string_end_exec(&s, idx + 1);
            proof {
                lemma_ws_end(s@, end as int);
            }
            let after = ws_end_exec(&s, end);
            kind = if after < s.len() && s[after] == ':' {
                JsonTokenKind::Key
            } else {
                JsonTokenKind::Str
            };
        } else if ('0' <= c && c <= '9') || c == '-' {
            end = number_end_exec(&s, idx + 1);
            kind = JsonTokenKind::Number;
        } else if ('a' <= c && c <= 'z') || ('A' <= c && c <= 'Z') {
            end = letters_end_exec(&s, idx + 1);
            let word = text::sub_vec(&s, idx, end);
            kind = if is_word(&word, "true") || is_word(&word, "false") {
                JsonTokenKind::Bool
            } else if is_word(&word, "null") {
                JsonTokenKind::Null
            } else {
                JsonTokenKind::Plain
            };
        } else {
            end = idx + 1;
            kind = if c == '{' || c == '}' || c == '[' || c == ']' || c == ':' || c == ',' {
                JsonTokenKind::Punct
            } else {
                JsonTokenKind::Plain
            };
        }
        let piece = text::from_chars(&text::sub_vec(&s, idx, end));
        let ghost before = out@;
        out.push(JsonToken { kind, text: piece });
        proof {
            assert(end as int == token_end(s@, idx as int));
            assert(kind == token_kind(s@, idx as int));
            let t = (token_kind(s@, idx as int), s@.subrange(idx as int, token_end(s@, idx as int)));
            assert(tokens_from(s@, idx as int) == seq![t] + tokens_from(s@, end as int));
            assert(token_views(out@) =~= token_views(before).push(t));
            assert(token_views(out@) + tokens_from(s@, end as int) =~= token_views(before) + tokens_from(
                s@,
                idx as int,
            ));
        }
        idx = end;
    }
    proof {
        assert(tokens_from(s@, idx as int) =~= Seq::<(JsonTokenKind, Seq<char>)>::empty());
        assert(token_views(out@) =~= tokens_from(s@, 0));
    }
    if s.len() == 0 {
        out.push(JsonToken { kind: JsonTokenKind::Plain, text: String::new() });
        proof {
            assert(token_views(out@) =~= highlight_tokens(code@));
        }
    }
    out
}

} // verus!
