use gitui::diff::DiffLineType;
use gitui::highlight::{
    build_highlight, highlight_side, push_expanded_line, reconstruct_sides, AsyncDiffHighlightJob,
    RenderedSpan, Side,
};
use gitui::render::{LineHighlight, Token};

fn span(text: &str, style: usize) -> RenderedSpan {
    RenderedSpan { text: text.to_string(), style }
}

/// What a tokenizer makes of `let x = 42;`.
fn rendered_let() -> Option<Vec<Vec<RenderedSpan>>> {
    Some(vec![vec![
        span("let", 1),
        span(" x ", 0),
        span("=", 2),
        span(" ", 0),
        span("42", 3),
        span(";", 0),
    ]])
}

#[test]
fn test_highlight_side_tokenizes_rust_code() {
    let result = highlight_side("let x = 42;\n", &rendered_let());

    assert!(!result.is_empty());
    assert!(result[0].len() > 1);
    assert_eq!(result[0][0], Token { start: 0, end: 3, style: 1 });
    assert_eq!(result[0][4], Token { start: 8, end: 10, style: 3 });
}

#[test]
fn nothing_is_highlighted_without_text_or_rendering() {
    assert!(highlight_side("", &rendered_let()).is_empty());
    assert!(highlight_side("let x = 42;\n", &None).is_empty());
}

#[test]
fn test_build_highlight_maps_add_line() {
    let lines = vec![
        ("@@ hunk @@".to_string(), DiffLineType::Header),
        ("let x = 42;".to_string(), DiffLineType::Add),
    ];

    let sides = reconstruct_sides(&lines);
    assert_eq!(sides.new_text, "let x = 42;\n");
    assert_eq!(sides.old_text, "");
    let new_hl = highlight_side(&sides.new_text, &rendered_let());
    let old_hl = highlight_side(&sides.old_text, &None);
    let result = build_highlight(&lines, &new_hl, &old_hl);

    assert_eq!(result.len(), 2);
    assert!(result[0].is_none());
    assert!(result[1].as_ref().is_some_and(|v| v.len() > 1));
}

#[test]
fn lines_go_to_their_own_side() {
    let lines = vec![
        ("@@".to_string(), DiffLineType::Header),
        ("same\n".to_string(), DiffLineType::Context),
        ("\told\r\n".to_string(), DiffLineType::Delete),
        ("new".to_string(), DiffLineType::Add),
        ("end".to_string(), DiffLineType::Context),
    ];
    let sides = reconstruct_sides(&lines);
    assert_eq!(sides.new_text, "same\nnew\nend\n");
    assert_eq!(sides.old_text, "same\n  old\nend\n");
    assert_eq!(
        sides.sides,
        vec![Side::Skip, Side::New(0), Side::Old(1), Side::New(1), Side::New(2)]
    );

    let token = |style: usize| -> LineHighlight { vec![Token { start: 0, end: 1, style }] };
    let result = build_highlight(
        &lines,
        &vec![token(10), token(11)],
        &vec![token(20), token(21), token(22)],
    );
    assert_eq!(
        result,
        vec![None, Some(token(10)), Some(token(21)), Some(token(11)), None]
    );
}

#[test]
fn each_side_is_highlighted_independently() {
    let all = [
        ("@@", DiffLineType::Header),
        ("one", DiffLineType::Context),
        ("gone", DiffLineType::Delete),
        ("new", DiffLineType::Add),
        ("two", DiffLineType::Context),
        ("more", DiffLineType::Add),
        ("less", DiffLineType::Delete),
    ];
    let without = |t: DiffLineType| -> Vec<(String, DiffLineType)> {
        all.iter().filter(|l| l.1 != t).map(|l| (l.0.to_string(), l.1)).collect()
    };
    let lines: Vec<(String, DiffLineType)> =
        all.iter().map(|l| (l.0.to_string(), l.1)).collect();
    let token = |style: usize| -> LineHighlight { vec![Token { start: 0, end: 1, style }] };
    let new_hl: Vec<LineHighlight> = (10..14).map(token).collect();
    let old_hl: Vec<LineHighlight> = (20..24).map(token).collect();
    let result = build_highlight(&lines, &new_hl, &old_hl);
    assert_eq!(result.len(), lines.len());
    assert!(result[0].is_none());

    let news = without(DiffLineType::Delete);
    assert_eq!(reconstruct_sides(&news).new_text, reconstruct_sides(&lines).new_text);
    let kept: Vec<_> = (0..7).filter(|&i| all[i].1 != DiffLineType::Delete).collect();
    let shown = build_highlight(&news, &new_hl, &vec![]);
    assert_eq!(shown, kept.iter().map(|&i| result[i].clone()).collect::<Vec<_>>());

    let olds = without(DiffLineType::Add);
    assert_eq!(reconstruct_sides(&olds).old_text, reconstruct_sides(&lines).old_text);
    let shown = build_highlight(&olds, &vec![], &old_hl);
    assert_eq!((&shown[2], &shown[4]), (&result[2], &result[6]));
}

#[test]
fn lines_are_expanded_and_end_in_one_line_feed() {
    let mut buf = String::from("x");
    push_expanded_line(&mut buf, "\ta\r\n\n");
    assert_eq!(buf, "x  a\n");
}

#[test]
fn a_job_runs_once_and_hands_its_result_out_once() {
    let lines = vec![("let x = 42;".to_string(), DiffLineType::Add)];
    let mut job = AsyncDiffHighlightJob::new(7, lines, "f.rs".to_string(), "t".to_string());
    let texts = job.side_texts().unwrap();
    let new_hl = highlight_side(&texts.new_text, &rendered_let());
    job.run(&new_hl, &vec![]);
    assert!(job.side_texts().is_none());
    // a second run keeps the result
    job.run(&vec![], &vec![]);
    let (hash, result) = job.result().unwrap();
    assert_eq!(hash, 7);
    assert_eq!(result.len(), 1);
    assert_eq!(result[0].as_ref().unwrap().len(), 6);
    assert!(job.result().is_none());
}

#[test]
fn a_job_that_did_not_run_has_no_result() {
    let mut job = AsyncDiffHighlightJob::new(1, vec![], String::new(), String::new());
    assert!(job.result().is_none());
    // asking early does not stop the job from running
    let lines = vec![("x".to_string(), DiffLineType::Add)];
    let mut job = AsyncDiffHighlightJob::new(3, lines, "f".to_string(), "t".to_string());
    assert!(job.result().is_none());
    let tokens = vec![Token { start: 0, end: 1, style: 5 }];
    job.run(&vec![tokens.clone()], &vec![]);
    assert_eq!(job.result(), Some((3, vec![Some(tokens)])));
    assert!(job.result().is_none());
    assert!(AsyncDiffHighlightJob::default().result().is_none());
}
