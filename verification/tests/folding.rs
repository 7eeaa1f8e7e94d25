use qi_lsp::folding::{compute_folding_ranges, FoldingRange, FoldingRangeKind};

fn lines_and_kind(r: &[FoldingRange]) -> Vec<(u32, u32, Option<FoldingRangeKind>)> {
    r.iter().map(|f| (f.start_line, f.end_line, f.kind)).collect()
}

#[test]
fn folds_brace_pair() {
    let src = "函数 f() {\n  返回 1;\n}\n";
    let r = compute_folding_ranges(src);
    assert!(r.iter().any(|f| f.start_line == 0 && f.end_line == 2));
}

#[test]
fn folds_chinese_braces() {
    let src = "函数 f() 【\n  返回 1；\n】\n";
    let r = compute_folding_ranges(src);
    assert!(r.iter().any(|f| f.start_line == 0 && f.end_line == 2));
}

#[test]
fn folds_consecutive_imports() {
    let src = "包 主程序;\n导入 a;\n导入 b;\n导入 c;\n函数 f() {}\n";
    let r = compute_folding_ranges(src);
    assert!(r.iter().any(|f| matches!(f.kind, Some(FoldingRangeKind::Imports))
        && f.start_line == 1
        && f.end_line == 3));
}

#[test]
fn folds_consecutive_comments() {
    let src = "// header line 1\n// header line 2\n// header line 3\n函数 f() {}\n";
    let r = compute_folding_ranges(src);
    assert!(r.iter().any(|f| matches!(f.kind, Some(FoldingRangeKind::Comment))
        && f.start_line == 0
        && f.end_line == 2));
}

#[test]
fn ignores_braces_in_strings_and_comments() {
    let src = "// not a fold: {\n变量 s: 字符串 = \"{ inside string }\";\n";
    let r = compute_folding_ranges(src);
    assert!(r.iter().all(|f| !matches!(f.kind, Some(FoldingRangeKind::Region))));
}

#[test]
fn single_line_braces_and_lone_lines_do_not_fold() {
    let src = "函数 f() { 返回 1; }\n// one comment\n导入 a;\n";
    assert!(compute_folding_ranges(src).is_empty());
}

#[test]
fn nested_braces_fold_inner_first_then_comments_then_imports() {
    let src = "导入 a;\n导入 b;\n// c1\n// c2\n函数 f() {\n  如果 x {\n    返回 1;\n  }\n}\n";
    let r = compute_folding_ranges(src);
    assert_eq!(
        lines_and_kind(&r),
        vec![
            (5, 7, Some(FoldingRangeKind::Region)),
            (4, 8, Some(FoldingRangeKind::Region)),
            (2, 3, Some(FoldingRangeKind::Comment)),
            (0, 1, Some(FoldingRangeKind::Imports)),
        ]
    );
    assert!(r.iter().all(|f| f.start_character.is_none()
        && f.end_character.is_none()
        && f.collapsed_text.is_none()));
}

#[test]
fn block_comment_hides_braces() {
    let src = "/* {\n} */\n导入 a;\n导入 b;\n";
    let r = compute_folding_ranges(src);
    assert_eq!(lines_and_kind(&r), vec![(2, 3, Some(FoldingRangeKind::Imports))]);
}

#[test]
fn import_run_reaching_the_last_line_is_folded() {
    let src = "导入 a;\n公开 导入 b;";
    assert_eq!(lines_and_kind(&compute_folding_ranges(src)), vec![(0, 1, Some(FoldingRangeKind::Imports))]);
}

#[test]
fn every_fold_spans_several_lines() {
    let src = "// a\n// b\n导入 x;\n导入 y;\n函数 f() {\n  {}\n  【\n  】\n}\n// c\n";
    let r = compute_folding_ranges(src);
    assert_eq!(r.len(), 4);
    assert!(r.iter().all(|f| f.start_line < f.end_line));
}
