use std::ops::Range;

use collaboration::git::diff::{BufferDiff, DiffHunk, DiffHunkStatus, DiffHunkSummary};
use collaboration::git::patch::{diff_texts, LineKind, PatchLine};
use collaboration::text::buffer::{Buffer, BufferSnapshot};
use unindent::Unindent;

fn text_of_rows(buffer: &BufferSnapshot, rows: Range<u32>) -> String {
    let text = String::from_utf8(buffer.text().to_vec()).unwrap();
    text.split_inclusive('\n')
        .skip(rows.start as usize)
        .take((rows.end - rows.start) as usize)
        .collect()
}

/// Range (crossing new lines), old, new
fn assert_hunks(
    diff_hunks: Vec<DiffHunk<u32>>,
    buffer: &BufferSnapshot,
    diff_base: &str,
    expected_hunks: &[(Range<u32>, &str, &str)],
) {
    let actual_hunks = diff_hunks
        .into_iter()
        .map(|hunk| {
            (
                hunk.buffer_range.clone(),
                &diff_base[hunk.head_byte_range],
                text_of_rows(buffer, hunk.buffer_range),
            )
        })
        .collect::<Vec<_>>();

    let expected_hunks: Vec<_> = expected_hunks
        .iter()
        .map(|(r, s, h)| (r.clone(), *s, h.to_string()))
        .collect();

    assert_eq!(actual_hunks, expected_hunks);
}

#[test]
fn test_buffer_diff_simple() {
    let diff_base = "
            one
            two
            three
        "
    .unindent();

    let buffer_text = "
            one
            HELLO
            three
        "
    .unindent();

    let mut buffer = Buffer::new(0, &buffer_text);
    let mut diff = BufferDiff::new();
    diff.update(&diff_base, buffer.snapshot());
    assert_hunks(
        diff.hunks(buffer.snapshot()),
        buffer.snapshot(),
        &diff_base,
        &[(1..2, "two\n", "HELLO\n")],
    );

    buffer.edit(0..0, "point five\n");
    diff.update(&diff_base, buffer.snapshot());
    assert_hunks(
        diff.hunks(buffer.snapshot()),
        buffer.snapshot(),
        &diff_base,
        &[(0..1, "", "point five\n"), (2..3, "two\n", "HELLO\n")],
    );

    diff.clear(buffer.snapshot());
    assert_hunks(
        diff.hunks(buffer.snapshot()),
        buffer.snapshot(),
        &diff_base,
        &[],
    );
}

#[test]
fn test_buffer_diff_range() {
    let diff_base = "
            one
            two
            three
            four
            five
            six
            seven
            eight
            nine
            ten
        "
    .unindent();

    let buffer_text = "
            A
            one
            B
            two
            C
            three
            HELLO
            four
            five
            SIXTEEN
            seven
            eight
            WORLD
            nine

            ten

        "
    .unindent();

    let buffer = Buffer::new(0, &buffer_text);
    let mut diff = BufferDiff::new();
    diff.update(&diff_base, buffer.snapshot());
    assert_eq!(diff.hunks(buffer.snapshot()).len(), 8);

    assert_hunks(
        diff.hunks_in_range(7..12, buffer.snapshot()),
        buffer.snapshot(),
        &diff_base,
        &[
            (6..7, "", "HELLO\n"),
            (9..10, "six\n", "SIXTEEN\n"),
            (12..13, "", "WORLD\n"),
        ],
    );
}

#[test]
fn removed_lines_leave_an_empty_range_behind() {
    let buffer = Buffer::new(0, "one\nthree\n");
    let mut diff = BufferDiff::new();
    diff.try_update("one\ntwo\nthree\n", buffer.snapshot()).unwrap();
    let hunks = diff.hunks(buffer.snapshot());
    assert_eq!(hunks.len(), 1);
    assert_eq!(hunks[0].buffer_range, 1..1);
    assert_eq!(hunks[0].head_byte_range, 4..8);
    assert_eq!(hunks[0].status(), DiffHunkStatus::Removed);
}

#[test]
fn a_later_removal_is_moved_by_earlier_additions() {
    let buffer = Buffer::new(0, "new\nnewer\none\nthree\n");
    let mut diff = BufferDiff::new();
    diff.update("one\ntwo\nthree\n", buffer.snapshot());
    let hunks = diff.hunks(buffer.snapshot());
    assert_eq!(hunks[0].buffer_range, 0..2);
    assert_eq!(hunks[0].status(), DiffHunkStatus::Added);
    assert_eq!(hunks[1].buffer_range, 3..3);
    assert_eq!(hunks[1].status(), DiffHunkStatus::Removed);
}

#[test]
fn status_tells_added_modified_and_removed_apart() {
    let hunk = |rows: Range<u32>, bytes: Range<usize>| DiffHunk {
        buffer_range: rows,
        head_byte_range: bytes,
    };
    assert_eq!(hunk(1..2, 0..0).status(), DiffHunkStatus::Added);
    assert_eq!(hunk(1..2, 3..9).status(), DiffHunkStatus::Modified);
    assert_eq!(hunk(1..1, 3..9).status(), DiffHunkStatus::Removed);
    assert_eq!(hunk(1..1, 0..0).status(), DiffHunkStatus::Added);
}

#[test]
fn hunks_are_out_of_date_after_an_edit() {
    let mut buffer = Buffer::new(3, "one\n");
    let mut diff = BufferDiff::new();
    assert!(diff.needs_update(buffer.snapshot()));
    diff.update("one\n", buffer.snapshot());
    assert!(!diff.needs_update(buffer.snapshot()));
    buffer.edit(0..3, "two");
    assert!(diff.needs_update(buffer.snapshot()));
    diff.clear(buffer.snapshot());
    assert!(!diff.needs_update(buffer.snapshot()));
}

#[test]
fn hunks_follow_the_text_as_it_is_edited() {
    let mut buffer = Buffer::new(0, "one\nHELLO\nthree\n");
    let mut diff = BufferDiff::new();
    diff.update("one\ntwo\nthree\n", buffer.snapshot());
    buffer.edit(0..0, "zero\n");
    let hunks = diff.hunks(buffer.snapshot());
    assert_eq!(hunks.len(), 1);
    assert_eq!(hunks[0].buffer_range, 2..3);
}

#[test]
fn a_last_line_without_newline_is_covered() {
    let buffer = Buffer::new(0, "one\ntwo");
    let mut diff = BufferDiff::new();
    diff.update("one\n", buffer.snapshot());
    let hunks = diff.hunks(buffer.snapshot());
    assert_eq!(hunks.len(), 1);
    assert_eq!(hunks[0].buffer_range, 1..2);
}

#[test]
fn equal_texts_have_no_hunks() {
    assert_eq!(diff_texts("same\n", b"same\n").unwrap().len(), 0);
}

#[test]
fn a_patch_tells_the_lines_of_each_hunk() {
    let hunks = diff_texts("one\ntwo\n", b"one\nTWO\n").unwrap();
    assert_eq!(
        hunks,
        vec![vec![
            PatchLine {
                kind: LineKind::Deletion,
                old_lineno: Some(2),
                new_lineno: None,
                content_offset: 4,
                content_len: 4,
            },
            PatchLine {
                kind: LineKind::Addition,
                old_lineno: None,
                new_lineno: Some(2),
                content_offset: 4,
                content_len: 4,
            },
        ]]
    );
}

#[test]
fn a_hunk_is_made_of_its_lines() {
    let buffer = Buffer::new(0, "a\nb\nc\nd\n");
    let line = |kind, old_lineno, new_lineno, content_offset| PatchLine {
        kind,
        old_lineno,
        new_lineno,
        content_offset,
        content_len: 2,
    };
    let lines = [
        line(LineKind::Deletion, Some(3), None, 4),
        line(LineKind::Deletion, Some(4), None, 6),
        line(LineKind::Addition, None, Some(2), 2),
        line(LineKind::Addition, None, Some(3), 4),
        line(LineKind::Addition, None, Some(4), 6),
    ];
    let mut divergence = 5;
    let hunk = BufferDiff::process_patch_hunk(&lines, buffer.snapshot(), &mut divergence);
    assert_eq!(divergence, 6);
    assert_eq!(hunk.head_byte_range, 4..8);
    assert_eq!(buffer.snapshot().offset_of(&hunk.buffer_range.start), 2);
    assert_eq!(buffer.snapshot().offset_of(&hunk.buffer_range.end), 8);
}

#[test]
fn no_patch_means_no_hunks() {
    let buffer = Buffer::new(0, "one\n");
    let mut diff = BufferDiff::new();
    diff.update("two\n", buffer.snapshot());
    assert_eq!(diff.hunks(buffer.snapshot()).len(), 1);
    diff.rebuild(None, buffer.snapshot());
    assert_eq!(diff.hunks(buffer.snapshot()).len(), 0);
    assert!(!diff.needs_update(buffer.snapshot()));
}

#[test]
fn a_summary_covers_what_it_was_widened_by() {
    let buffer = Buffer::new(0, "a\nb\nc\nd\n");
    let snapshot = buffer.snapshot();
    let mut summary = DiffHunkSummary {
        buffer_range: snapshot.anchor_before(1)..snapshot.anchor_before(2),
    };
    let other = DiffHunkSummary {
        buffer_range: snapshot.anchor_before(0)..snapshot.anchor_before(3),
    };
    let copy = other.clone();
    assert_eq!(copy.buffer_range, other.buffer_range);
    summary.add_summary(&copy, snapshot);
    let nothing = DiffHunkSummary::default();
    assert_eq!(snapshot.offset_of(&nothing.buffer_range.start), 0);
    assert_eq!(nothing.buffer_range.start, nothing.buffer_range.end);
    assert_eq!(snapshot.offset_of(&summary.buffer_range.start), 0);
    assert_eq!(snapshot.offset_of(&summary.buffer_range.end), 6);
}

#[test]
fn hunks_account_for_all_lines_and_are_found_by_rows() {
    let mut seed: u32 = 7;
    let mut random = move |limit: u32| {
        seed = seed.wrapping_mul(1664525).wrapping_add(1013904223);
        (seed >> 16) % limit
    };
    for round in 0..400 {
        let mut text = |ends_in_newline: bool| {
            let count = random(9);
            let mut text: Vec<String> = Vec::new();
            for _ in 0..count {
                text.push(["a", "b", "c", ""][random(4) as usize].to_string());
            }
            let mut text = text.join("\n");
            if ends_in_newline && !text.is_empty() {
                text.push('\n');
            }
            text
        };
        let whole_lines = round % 2 == 0;
        let (base, current) = (text(whole_lines), text(whole_lines));
        let buffer = Buffer::new(0, &current);
        let snapshot = buffer.snapshot();
        let last_row = current.matches('\n').count() as u32;
        let mut divergence = 0;
        for lines in diff_texts(&base, current.as_bytes()).unwrap() {
            let first_deletion = lines.iter().find(|line| line.kind == LineKind::Deletion);
            let first_addition = lines.iter().find(|line| line.kind == LineKind::Addition);
            let first_row = match (first_addition, first_deletion) {
                (Some(line), _) => line.new_lineno.unwrap() as i64 - 1,
                (None, Some(line)) => line.old_lineno.unwrap() as i64 - 1 + divergence,
                (None, None) => panic!("nothing changed"),
            };
            assert!(0 <= first_row && first_row <= last_row as i64);
            BufferDiff::process_patch_hunk(&lines, snapshot, &mut divergence);
        }
        if whole_lines {
            let base_lines = base.matches('\n').count() as i64;
            assert_eq!(divergence, last_row as i64 - base_lines, "{:?} {:?}", base, current);
        }
        let mut diff = BufferDiff::new();
        diff.update(&base, snapshot);
        let all = diff.hunks(snapshot);
        assert_eq!(all.is_empty(), base == current);
        for (index, hunk) in all.iter().enumerate() {
            assert!(!hunk.buffer_range.is_empty() || !hunk.head_byte_range.is_empty());
            for later in &all[index + 1..] {
                assert!(hunk.buffer_range.end < later.buffer_range.start);
                if !hunk.head_byte_range.is_empty() && !later.head_byte_range.is_empty() {
                    assert!(hunk.head_byte_range.end <= later.head_byte_range.start);
                }
            }
        }
        let (mut rest_of_base, mut rest) = (base.clone(), current.clone());
        for hunk in all.iter().rev() {
            rest_of_base.replace_range(hunk.head_byte_range.clone(), "");
            let offset = |row: u32| {
                let starts = current.match_indices('\n').map(|(at, _)| at + 1);
                let mut starts = std::iter::once(0).chain(starts);
                starts.nth(row as usize).unwrap_or(current.len())
            };
            rest.replace_range(offset(hunk.buffer_range.start)..offset(hunk.buffer_range.end), "");
        }
        assert_eq!(rest_of_base, rest, "{:?} {:?}", base, current);
        for start in 0..=last_row {
            for end in 0..last_row + 3 {
                let expected: Vec<_> = all
                    .iter()
                    .filter(|hunk| hunk.buffer_range.end >= start && hunk.buffer_range.start <= end)
                    .cloned()
                    .collect();
                assert_eq!(diff.hunks_in_range(start..end, snapshot), expected);
                assert_eq!(diff.clone().hunks_in_range(start..end, snapshot), expected);
            }
        }
    }
}
