use klaw_gui::json_tokens::{json_syntax_tokens, JsonTokenKind};
use klaw_gui::json_tokens::JsonTokenKind::{Bool, Key, Null, Number, Plain, Punct, Str};

fn kinds(code: &str) -> Vec<(JsonTokenKind, String)> {
    json_syntax_tokens(code).into_iter().map(|t| (t.kind, t.text)).collect()
}

#[test]
fn object_tokens_have_keys_values_and_punctuation() {
    assert_eq!(
        kinds(r#"{"a": 1, "b" : [true, null, "x"]}"#),
        vec![
            (Punct, "{".to_string()),
            (Key, "\"a\"".to_string()),
            (Punct, ":".to_string()),
            (Plain, " ".to_string()),
            (Number, "1".to_string()),
            (Punct, ",".to_string()),
            (Plain, " ".to_string()),
            (Key, "\"b\"".to_string()),
            (Plain, " ".to_string()),
            (Punct, ":".to_string()),
            (Plain, " ".to_string()),
            (Punct, "[".to_string()),
            (Bool, "true".to_string()),
            (Punct, ",".to_string()),
            (Plain, " ".to_string()),
            (Null, "null".to_string()),
            (Punct, ",".to_string()),
            (Plain, " ".to_string()),
            (Str, "\"x\"".to_string()),
            (Punct, "]".to_string()),
            (Punct, "}".to_string()),
        ]
    );
}

#[test]
fn escaped_quotes_stay_inside_strings() {
    assert_eq!(
        kinds(r#""a\"b\\" x"#),
        vec![
            (Str, r#""a\"b\\""#.to_string()),
            (Plain, " ".to_string()),
            (Plain, "x".to_string()),
        ]
    );
    assert_eq!(kinds("\"open"), vec![(Str, "\"open".to_string())]);
}

#[test]
fn numbers_words_and_other_characters() {
    assert_eq!(
        kinds("-1.5e+3 falsey é\n\t"),
        vec![
            (Number, "-1.5e+3".to_string()),
            (Plain, " ".to_string()),
            (Plain, "falsey".to_string()),
            (Plain, " ".to_string()),
            (Plain, "é".to_string()),
            (Plain, "\n\t".to_string()),
        ]
    );
}

#[test]
fn empty_text_gives_one_empty_token() {
    assert_eq!(kinds(""), vec![(JsonTokenKind::Plain, String::new())]);
}

#[test]
fn tokens_join_back_to_the_text() {
    for code in ["{\"k\":[1,2,{\"x\":\"y\"}]}", "  \"\\\\\" :false", "weird ☃ text", "\n"] {
        let joined: String = json_syntax_tokens(code).into_iter().map(|t| t.text).collect();
        assert_eq!(joined, code);
    }
}
