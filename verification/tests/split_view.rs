use gitui::diff::DiffLineType::{Add, Context, Delete, Header};
use gitui::diff::{DiffLine, DiffLinePosition, DiffLineType, FileDiff, Hunk};
use gitui::split::{build_split_rows, flush_split_change, SplitRow};

fn diff_line(content: &str, t: DiffLineType) -> DiffLine {
    DiffLine {
        content: content.to_string(),
        line_type: t,
        position: DiffLinePosition { old_lineno: None, new_lineno: None },
    }
}

/// A single-hunk diff of lines of the given types; each line's content is
/// `line{index}`.
fn file_diff(types: &[DiffLineType]) -> FileDiff {
    let lines: Vec<DiffLine> = types
        .iter()
        .enumerate()
        .map(|(i, &t)| diff_line(&format!("line{i}"), t))
        .collect();
    let count = lines.len();
    FileDiff {
        hunks: vec![Hunk { header_hash: 0, lines }],
        lines: count,
        untracked: false,
        sizes: (0, 0),
        size_delta: 0,
    }
}

fn rows_of(types: &[DiffLineType]) -> Vec<SplitRow> {
    build_split_rows(&file_diff(types))
}

fn row(left: Option<usize>, right: Option<usize>) -> SplitRow {
    SplitRow { left, right }
}

#[test]
fn test_split_all_context() {
    let rows = rows_of(&[Context, Context, Context]);
    assert_eq!(
        rows,
        vec![row(Some(0), Some(0)), row(Some(1), Some(1)), row(Some(2), Some(2))]
    );
}

#[test]
fn test_split_equal_del_then_add() {
    let rows = rows_of(&[Delete, Delete, Add, Add]);
    assert_eq!(rows, vec![row(Some(0), Some(2)), row(Some(1), Some(3))]);
}

#[test]
fn test_split_more_dels_than_adds() {
    let rows = rows_of(&[Delete, Delete, Delete, Add]);
    assert_eq!(
        rows,
        vec![row(Some(0), Some(3)), row(Some(1), None), row(Some(2), None)]
    );
}

#[test]
fn test_split_more_adds_than_dels() {
    let rows = rows_of(&[Delete, Add, Add, Add]);
    assert_eq!(
        rows,
        vec![row(Some(0), Some(1)), row(None, Some(2)), row(None, Some(3))]
    );
}

#[test]
fn test_split_add_only() {
    let rows = rows_of(&[Add, Add]);
    assert_eq!(rows, vec![row(None, Some(0)), row(None, Some(1))]);
}

#[test]
fn test_split_delete_only() {
    let rows = rows_of(&[Delete, Delete]);
    assert_eq!(rows, vec![row(Some(0), None), row(Some(1), None)]);
}

#[test]
fn test_split_two_change_blocks_context_separated() {
    let rows = rows_of(&[Delete, Add, Context, Delete, Add]);
    assert_eq!(
        rows,
        vec![row(Some(0), Some(1)), row(Some(2), Some(2)), row(Some(3), Some(4))]
    );
}

#[test]
fn test_split_add_then_delete_flushes() {
    // git never interleaves +/- within a block, but an Add->Delete
    // boundary must still start a fresh change block.
    let rows = rows_of(&[Add, Delete]);
    assert_eq!(rows, vec![row(None, Some(0)), row(Some(1), None)]);
}

#[test]
fn test_split_header_single_row() {
    let rows = rows_of(&[Header]);
    assert_eq!(rows, vec![row(Some(0), Some(0))]);
}

#[test]
fn test_split_flat_index_coverage() {
    let types = [Header, Context, Delete, Delete, Add, Context, Add, Delete];
    let diff = file_diff(&types);
    let rows = build_split_rows(&diff);

    let mut left: Vec<usize> = rows.iter().filter_map(|r| r.left).collect();
    let mut right: Vec<usize> = rows.iter().filter_map(|r| r.right).collect();

    for (idx, t) in types.iter().enumerate() {
        match t {
            Header | Context => {
                // context/header span both columns
                assert!(left.contains(&idx), "left missing {idx}");
                assert!(right.contains(&idx), "right missing {idx}");
            }
            Delete => {
                assert!(left.contains(&idx), "left missing {idx}");
                assert!(!right.contains(&idx), "delete {idx} leaked to right");
            }
            Add => {
                assert!(right.contains(&idx), "right missing {idx}");
                assert!(!left.contains(&idx), "add {idx} leaked to left");
            }
        }
    }

    // every flat line index is covered somewhere
    for idx in 0..diff.lines {
        assert!(
            left.contains(&idx) || right.contains(&idx),
            "flat index {idx} not covered"
        );
    }

    // no flat index is emitted twice on the same side
    let l_before = left.len();
    left.sort_unstable();
    left.dedup();
    assert_eq!(l_before, left.len(), "duplicate left index");
    let r_before = right.len();
    right.sort_unstable();
    right.dedup();
    assert_eq!(r_before, right.len(), "duplicate right index");
}

#[test]
fn test_split_copy_prefers_new_side() {
    // change row, context, pure-delete row, context, pure-add row
    let types = [Delete, Add, Context, Delete, Context, Add];
    let rows = rows_of(&types);

    let preferred: Vec<usize> = rows.iter().filter_map(|r| r.right.or(r.left)).collect();

    // new side (Add=1) for the change row, context (2), old side
    // (Delete=3) for the pure deletion, context (4), new side
    // (Add=5) for the pure addition.
    assert_eq!(preferred, vec![1, 2, 3, 4, 5]);
}

#[test]
fn rows_run_across_hunks() {
    let mut diff = file_diff(&[Header, Delete]);
    diff.hunks.push(Hunk {
        header_hash: 1,
        lines: vec![diff_line("h", Header), diff_line("a", Add), diff_line("c", Context)],
    });
    diff.lines = 5;
    assert_eq!(
        build_split_rows(&diff),
        vec![
            row(Some(0), Some(0)),
            row(Some(1), None),
            row(Some(2), Some(2)),
            row(None, Some(3)),
            row(Some(4), Some(4)),
        ]
    );
}

#[test]
fn rows_are_no_more_than_lines_and_grow() {
    let types = [Header, Delete, Add, Add, Context, Delete, Delete, Add, Delete];
    let rows = rows_of(&types);
    assert!(rows.len() <= types.len());
    assert!(rows.iter().all(|r| r.left.is_some() || r.right.is_some()));
    let left: Vec<usize> = rows.iter().filter_map(|r| r.left).collect();
    let right: Vec<usize> = rows.iter().filter_map(|r| r.right).collect();
    assert!(left.windows(2).all(|w| w[0] < w[1]));
    assert!(right.windows(2).all(|w| w[0] < w[1]));
}

#[test]
fn an_empty_diff_has_no_rows() {
    assert_eq!(rows_of(&[]), vec![]);
}

#[test]
fn flushing_empties_both_buffers() {
    let mut rows = vec![row(Some(0), Some(0))];
    let mut dels = vec![3, 4];
    let mut adds = vec![5];
    flush_split_change(&mut rows, &mut dels, &mut adds);
    assert_eq!(rows, vec![row(Some(0), Some(0)), row(Some(3), Some(5)), row(Some(4), None)]);
    assert!(dels.is_empty() && adds.is_empty());
}
