use qi_lsp::semantic_tokens::{
    compute_tokens, scan, TOKEN_COMMENT, TOKEN_FUNCTION, TOKEN_KEYWORD, TOKEN_NUMBER, TOKEN_STRING,
    TOKEN_TYPE, TOKEN_VARIABLE,
};

fn token_kinds(source: &str) -> Vec<u32> {
    scan(source).iter().map(|t| t.token_type).collect()
}

#[test]
fn classifies_keyword_type_string_number_comment() {
    let src = "// hi\n变量 x: 整数 = 42; 变量 s: 字符串 = \"hello\";";
    let kinds = token_kinds(src);
    assert!(kinds.contains(&TOKEN_COMMENT));
    assert!(kinds.contains(&TOKEN_KEYWORD));
    assert!(kinds.contains(&TOKEN_TYPE));
    assert!(kinds.contains(&TOKEN_STRING));
    assert!(kinds.contains(&TOKEN_NUMBER));
}

#[test]
fn function_name_after_keyword_is_function_token() {
    let src = "函数 计算(x: 整数) : 整数 { 返回 x; }";
    let raw = scan(src);
    let func_tok = raw
        .iter()
        .find(|t| t.start_char == 3)
        .expect("token at col 3");
    assert_eq!(func_tok.token_type, TOKEN_FUNCTION);
}

#[test]
fn delta_encoding_first_token_uses_absolute_position() {
    let src = "// l0\n\n// l2\n变量 x = 1;";
    let encoded = compute_tokens(src);
    assert!(!encoded.is_empty());
    assert!(encoded[0].length > 0);
}

#[test]
fn cjk_uses_utf16_lengths() {
    let raw = scan("变量");
    assert_eq!(raw.len(), 1);
    assert_eq!(raw[0].length, 2);
}

#[test]
fn scan_exact_positions_and_kinds() {
    let raw = scan("函数 f(a) {\n  返回 \"x\\\"y\" // c\n}");
    let got: Vec<(u32, u32, u32, u32)> =
        raw.iter().map(|t| (t.line, t.start_char, t.length, t.token_type)).collect();
    assert_eq!(
        got,
        vec![
            (0, 0, 2, TOKEN_KEYWORD),
            (0, 3, 1, TOKEN_FUNCTION),
            (0, 5, 1, TOKEN_VARIABLE),
            (1, 2, 2, TOKEN_KEYWORD),
            (1, 5, 6, TOKEN_STRING),
            (1, 12, 4, TOKEN_COMMENT),
        ]
    );
}

#[test]
fn string_with_line_break_keeps_start_line() {
    let raw = scan("\"a\nb\" x");
    assert_eq!(raw.len(), 2);
    assert_eq!((raw[0].line, raw[0].start_char, raw[0].length, raw[0].token_type), (0, 0, 5, TOKEN_STRING));
    assert_eq!((raw[1].line, raw[1].start_char, raw[1].token_type), (1, 3, TOKEN_VARIABLE));
}

#[test]
fn astral_chars_count_two_utf16_units() {
    let raw = scan("\u{1F600} ab");
    assert_eq!(raw.len(), 1);
    assert_eq!((raw[0].start_char, raw[0].length), (3, 2));
}

#[test]
fn delta_encoding_exact() {
    let enc = compute_tokens("变量 a\n  整数 b");
    let got: Vec<(u32, u32, u32, u32, u32)> = enc
        .iter()
        .map(|t| (t.delta_line, t.delta_start, t.length, t.token_type, t.token_modifiers_bitset))
        .collect();
    assert_eq!(
        got,
        vec![
            (0, 0, 2, TOKEN_KEYWORD, 0),
            (0, 3, 1, TOKEN_VARIABLE, 0),
            (1, 2, 2, TOKEN_TYPE, 0),
            (0, 3, 1, TOKEN_VARIABLE, 0),
        ]
    );
}

#[test]
fn decoding_deltas_gives_back_scan() {
    let src = "函数 f() {\n 返回 1;\n}\n// done";
    let raw = scan(src);
    let enc = compute_tokens(src);
    let (mut line, mut start) = (0u32, 0u32);
    for (t, e) in raw.iter().zip(enc.iter()) {
        line += e.delta_line;
        start = if e.delta_line == 0 { start + e.delta_start } else { e.delta_start };
        assert_eq!((line, start, e.length, e.token_type), (t.line, t.start_char, t.length, t.token_type));
    }
}
