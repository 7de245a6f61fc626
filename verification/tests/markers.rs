use selection_comments::editor::{
    BlockResize, FocusTarget, MarkerAction, MarkerButton, EditSelectionComment, Editor, SelectionCommentView, ShowSelectionComment,
};
use selection_comments::ranges::{Point, SelectionRange};

fn range(start_row: u32, start_column: u32, end_row: u32, end_column: u32) -> SelectionRange {
    SelectionRange {
        start: Point { row: start_row, column: start_column },
        end: Point { row: end_row, column: end_column },
    }
}

fn resolved(editor: &Editor<SelectionRange>) -> Vec<SelectionRange> {
    editor.selection_comment_overlays().iter().map(|o| o.handles).collect()
}

/// Focus flags with the input of marker `id` focused.
fn focus_on(editor: &Editor<SelectionRange>, id: usize) -> Vec<bool> {
    editor.selection_comment_overlays().iter().map(|o| o.id == id).collect()
}

/// Shows and attaches a marker for `r`, using the range itself as its handles.
fn show_new(editor: &mut Editor<SelectionRange>, r: SelectionRange, line_len: u32, block_id: usize) -> usize {
    let ranges = resolved(editor);
    match editor.show_selection_comment(r, line_len, &ranges) {
        ShowSelectionComment::Create { id, range, focus } => {
            assert_eq!(focus, FocusTarget::Prompt(id));
            assert!(editor.attach_selection_comment_overlay(id, block_id, range));
            id
        }
        other => panic!("expected a new marker, got {other:?}"),
    }
}

#[test]
fn new_editor_has_no_markers() {
    let editor: Editor<SelectionRange> = Editor::new();
    assert_eq!(editor.selection_comment_count(), 0);
    assert_eq!(editor.confirmed_selection_comment_count(), 0);
    assert!(editor.selection_comment_prompt_editor().is_none());
    assert_eq!(editor.next_selection_comment_id(), 0);
}

#[test]
fn show_creates_marker_with_fresh_ids() {
    let mut editor = Editor::new();
    let first = show_new(&mut editor, range(0, 1, 2, 3), 10, 100);
    let second = show_new(&mut editor, range(4, 0, 4, 7), 10, 101);
    assert_eq!(first, 0);
    assert_eq!(second, 1);
    assert_eq!(editor.selection_comment_count(), 2);
    assert_eq!(editor.confirmed_selection_comment_count(), 0);
    assert_eq!(editor.next_selection_comment_id(), 2);
    assert_eq!(editor.selection_comment_prompt_editor(), Some(&range(0, 1, 2, 3)));
}

#[test]
fn show_on_empty_selection_expands_to_line() {
    let mut editor: Editor<SelectionRange> = Editor::new();
    match editor.show_selection_comment(range(3, 5, 3, 5), 12, &[]) {
        ShowSelectionComment::Create { id, range: r, .. } => {
            assert_eq!(id, 0);
            assert_eq!(r, range(3, 0, 3, 12));
        }
        other => panic!("unexpected {other:?}"),
    }
    // The marker is not there until the host attaches it.
    assert_eq!(editor.selection_comment_count(), 0);
}

#[test]
fn attach_refuses_unknown_and_duplicate_ids() {
    let mut editor = Editor::new();
    let id = show_new(&mut editor, range(0, 0, 0, 4), 4, 7);
    assert!(!editor.attach_selection_comment_overlay(id, 8, range(1, 0, 1, 1)));
    assert!(!editor.attach_selection_comment_overlay(5, 8, range(1, 0, 1, 1)));
    assert_eq!(editor.selection_comment_count(), 1);
}

#[test]
fn fresh_marker_block_is_two_lines_high() {
    let mut editor = Editor::new();
    let id = show_new(&mut editor, range(0, 0, 1, 0), 0, 42);
    assert_eq!(
        editor.refresh_selection_comment_overlay(id, ""),
        Some(BlockResize { block_id: 42, height: 2 })
    );
    assert_eq!(
        editor.refresh_selection_comment_overlay(id, "a\nb\nc"),
        Some(BlockResize { block_id: 42, height: 4 })
    );
    assert_eq!(
        editor.refresh_selection_comment_overlay(id, "1\n2\n3\n4\n5\n6\n7\n"),
        Some(BlockResize { block_id: 42, height: 6 })
    );
    assert_eq!(editor.refresh_selection_comment_overlay(id + 1, ""), None);
}

#[test]
fn confirm_queues_trimmed_text() {
    let mut editor = Editor::new();
    let id = show_new(&mut editor, range(0, 0, 1, 0), 0, 9);
    let confirmed = editor.confirm_selection_comment(&focus_on(&editor, id), "  hello\nworld \t\n").unwrap();
    assert_eq!(confirmed.id, id);
    assert_eq!(confirmed.block_id, 9);
    assert_eq!(confirmed.comment_text, "hello\nworld");
    assert_eq!(confirmed.height, 3);
    assert_eq!(editor.selection_comment_count(), 1);
    assert_eq!(editor.confirmed_selection_comment_count(), 1);
    assert!(editor.selection_comment_prompt_editor().is_none());
    let overlay = editor.selection_comment_overlay(id).unwrap();
    assert!(overlay.confirmed);
    assert_eq!(overlay.comment_text, "hello\nworld");
    // A queued marker is measured by its queued text, not by the input.
    assert_eq!(
        editor.refresh_selection_comment_overlay(id, "x\ny\nz\nw"),
        Some(BlockResize { block_id: 9, height: 3 })
    );
}

#[test]
fn blank_draft_is_not_queued() {
    let mut editor = Editor::new();
    let id = show_new(&mut editor, range(0, 0, 1, 0), 0, 9);
    assert_eq!(editor.confirm_selection_comment(&focus_on(&editor, id), " \n\t\u{3000} "), None);
    assert_eq!(editor.confirm_selection_comment_by_id(id, ""), None);
    assert_eq!(editor.confirmed_selection_comment_count(), 0);
}

#[test]
fn confirm_needs_focus_on_a_draft() {
    let mut editor = Editor::new();
    let id = show_new(&mut editor, range(0, 0, 1, 0), 0, 9);
    assert_eq!(editor.confirm_selection_comment(&[false], "text"), None);
    assert_eq!(editor.confirm_selection_comment(&focus_on(&editor, id + 3), "text"), None);
    assert!(editor.confirm_selection_comment(&focus_on(&editor, id), "text").is_some());
    // Already queued: confirming again does nothing.
    assert_eq!(editor.confirm_selection_comment_by_id(id, "other"), None);
    assert_eq!(editor.selection_comment_overlay(id).unwrap().comment_text, "text");
}

#[test]
fn edit_restores_queued_text() {
    let mut editor = Editor::new();
    let id = show_new(&mut editor, range(2, 0, 5, 0), 0, 11);
    editor.confirm_selection_comment_by_id(id, " note\nmore ").unwrap();
    match editor.edit_selection_comment(id) {
        EditSelectionComment::Reopened { id: reopened, block_id, draft, height } => {
            assert_eq!(reopened, id);
            assert_eq!(block_id, 11);
            assert_eq!(draft, "note\nmore");
            assert_eq!(height, 3);
        }
        other => panic!("unexpected {other:?}"),
    }
    assert_eq!(editor.confirmed_selection_comment_count(), 0);
    assert_eq!(editor.edit_selection_comment(id), EditSelectionComment::FocusDraft { id });
    assert_eq!(editor.edit_selection_comment(id + 1), EditSelectionComment::Missing);
}

#[test]
fn requeue_after_edit_restores_markers() {
    let mut editor = Editor::new();
    let id = show_new(&mut editor, range(2, 0, 5, 0), 0, 11);
    let first = editor.confirm_selection_comment_by_id(id, " note ").unwrap();
    let restored = match editor.edit_selection_comment(id) {
        EditSelectionComment::Reopened { draft, .. } => draft,
        other => panic!("unexpected {other:?}"),
    };
    let second = editor.confirm_selection_comment_by_id(id, &restored).unwrap();
    assert_eq!(first, second);
    assert_eq!(editor.confirmed_selection_comment_count(), 1);
    assert_eq!(editor.selection_comment_overlay(id).unwrap().comment_text, "note");
}

#[test]
fn show_on_commented_range_reopens_instead_of_stacking() {
    let mut editor = Editor::new();
    let r = range(1, 0, 3, 4);
    let id = show_new(&mut editor, r, 0, 5);
    let ranges = resolved(&editor);
    assert_eq!(
        editor.show_selection_comment(r, 0, &ranges),
        ShowSelectionComment::Existing(EditSelectionComment::FocusDraft { id })
    );
    editor.confirm_selection_comment_by_id(id, "queued").unwrap();
    match editor.show_selection_comment(r, 0, &ranges) {
        ShowSelectionComment::Existing(EditSelectionComment::Reopened { draft, .. }) => {
            assert_eq!(draft, "queued");
        }
        other => panic!("unexpected {other:?}"),
    }
    assert_eq!(editor.selection_comment_count(), 1);
    assert_eq!(editor.next_selection_comment_id(), 1);
}

#[test]
fn show_on_empty_selection_matches_its_line_marker() {
    let mut editor = Editor::new();
    let id = show_new(&mut editor, range(4, 2, 4, 2), 9, 5);
    let ranges = resolved(&editor);
    assert_eq!(ranges, vec![range(4, 0, 4, 9)]);
    assert_eq!(
        editor.show_selection_comment(range(4, 7, 4, 7), 9, &ranges),
        ShowSelectionComment::Existing(EditSelectionComment::FocusDraft { id })
    );
}

#[test]
fn cancel_only_drops_drafts() {
    let mut editor = Editor::new();
    let queued = show_new(&mut editor, range(0, 0, 1, 0), 0, 1);
    let draft = show_new(&mut editor, range(2, 0, 3, 0), 0, 2);
    editor.confirm_selection_comment_by_id(queued, "keep").unwrap();
    assert!(editor.cancel_selection_comment_by_id(queued).is_none());
    assert!(editor.cancel_focused_selection_comment(&focus_on(&editor, queued)).is_none());
    assert!(editor.cancel_focused_selection_comment(&[false, false]).is_none());
    let removed = editor.cancel_focused_selection_comment(&focus_on(&editor, draft)).unwrap();
    assert_eq!(removed.overlay.block_id, 2);
    assert_eq!(editor.selection_comment_count(), 1);
    assert!(editor.cancel_selection_comment_by_id(draft).is_none());
}

#[test]
fn attach_then_cancel_restores_markers() {
    let mut editor = Editor::new();
    let kept = show_new(&mut editor, range(0, 0, 1, 0), 0, 1);
    let id = show_new(&mut editor, range(2, 0, 3, 0), 0, 2);
    let removed = editor.cancel_selection_comment_by_id(id).unwrap();
    assert_eq!(removed.overlay.id, id);
    assert_eq!(removed.overlay.handles, range(2, 0, 3, 0));
    assert_eq!(editor.selection_comment_count(), 1);
    assert_eq!(editor.selection_comment_overlays()[0].id, kept);
}

#[test]
fn delete_removes_queued_and_drafts() {
    let mut editor = Editor::new();
    let a = show_new(&mut editor, range(0, 0, 1, 0), 0, 1);
    let b = show_new(&mut editor, range(2, 0, 3, 0), 0, 2);
    editor.confirm_selection_comment_by_id(a, "x").unwrap();
    assert_eq!(editor.delete_selection_comment(a).unwrap().overlay.block_id, 1);
    assert!(editor.selection_comment_overlay(a).is_none());
    assert_eq!(editor.selection_comment_count(), 1);
    assert!(editor.delete_selection_comment(a).is_none());
    assert_eq!(editor.delete_selection_comment(b).unwrap().overlay.block_id, 2);
    assert_eq!(editor.selection_comment_count(), 0);
    assert_eq!(editor.confirmed_selection_comment_count(), 0);
}

#[test]
fn clear_hands_back_every_marker_in_order() {
    let mut editor = Editor::new();
    show_new(&mut editor, range(0, 0, 1, 0), 0, 10);
    show_new(&mut editor, range(2, 0, 3, 0), 0, 20);
    show_new(&mut editor, range(4, 0, 5, 0), 0, 30);
    let removed = editor.clear_selection_comments();
    let blocks: Vec<usize> = removed.iter().map(|o| o.block_id).collect();
    assert_eq!(blocks, vec![10, 20, 30]);
    assert_eq!(editor.selection_comment_count(), 0);
    assert!(editor.clear_selection_comments().is_empty());
    // Ids are not reused after clearing.
    assert_eq!(show_new(&mut editor, range(0, 0, 1, 0), 0, 40), 3);
}

#[test]
fn view_shows_draft_and_queued_markers() {
    let mut editor = Editor::new();
    let id = show_new(&mut editor, range(3, 0, 3, 8), 0, 1);
    assert_eq!(
        editor.selection_comment_view(id, range(3, 0, 3, 8)),
        SelectionCommentView::Editing {
            line_label: "Line 4".to_string(),
            buttons: vec![
                MarkerButton { action: MarkerAction::Cancel, id },
                MarkerButton { action: MarkerAction::Queue, id },
            ],
        }
    );
    editor.confirm_selection_comment_by_id(id, "why?").unwrap();
    assert_eq!(
        editor.selection_comment_view(id, range(1, 0, 9, 2)),
        SelectionCommentView::Queued {
            line_label: "Lines 2-10".to_string(),
            comment_text: "why?".to_string(),
            buttons: vec![
                MarkerButton { action: MarkerAction::Edit, id },
                MarkerButton { action: MarkerAction::Remove, id },
            ],
        }
    );
    assert_eq!(editor.selection_comment_view(id + 1, range(0, 0, 0, 0)), SelectionCommentView::Empty);
}

#[test]
fn prompt_editor_is_first_draft() {
    let mut editor = Editor::new();
    let a = show_new(&mut editor, range(0, 0, 1, 0), 0, 1);
    show_new(&mut editor, range(2, 0, 3, 0), 0, 2);
    editor.confirm_selection_comment_by_id(a, "x").unwrap();
    assert_eq!(editor.selection_comment_prompt_editor(), Some(&range(2, 0, 3, 0)));
}

#[test]
fn focus_picks_the_first_focused_draft() {
    let mut editor = Editor::new();
    let a = show_new(&mut editor, range(0, 0, 1, 0), 0, 1);
    let b = show_new(&mut editor, range(2, 0, 3, 0), 0, 2);
    assert_eq!(editor.focused_selection_comment(&[false, false]), None);
    assert_eq!(editor.focused_selection_comment(&[true, true]), Some(a));
    let confirmed = editor.confirm_selection_comment(&[true, true], "first").unwrap();
    assert_eq!(confirmed.id, a);
    // A queued marker no longer counts as a focused draft.
    assert_eq!(editor.focused_selection_comment(&[true, true]), Some(b));
    let removed = editor.cancel_focused_selection_comment(&[true, true]).unwrap();
    assert_eq!(removed.overlay.id, b);
    assert_eq!(editor.selection_comment_count(), 1);
}

#[test]
fn focus_moves_with_each_operation() {
    let mut editor = Editor::new();
    let a = show_new(&mut editor, range(0, 0, 1, 0), 0, 1);
    let b = show_new(&mut editor, range(2, 0, 3, 0), 0, 2);
    let c = show_new(&mut editor, range(4, 0, 5, 0), 0, 3);
    let confirmed = editor.confirm_selection_comment_by_id(a, "queued").unwrap();
    assert_eq!(confirmed.focus, FocusTarget::Editor);
    let cancelled = editor.cancel_selection_comment_by_id(b).unwrap();
    assert_eq!(cancelled.focus, FocusTarget::Editor);
    let focused = editor.cancel_focused_selection_comment(&focus_on(&editor, c)).unwrap();
    assert_eq!(focused.focus, FocusTarget::Editor);
    let deleted = editor.delete_selection_comment(a).unwrap();
    assert_eq!(deleted.focus, FocusTarget::Keep);
}

#[test]
fn second_show_on_fresh_marker_adds_nothing() {
    let mut editor = Editor::new();
    let r = range(6, 1, 8, 0);
    let id = show_new(&mut editor, r, 0, 4);
    let ranges = resolved(&editor);
    assert_eq!(
        editor.show_selection_comment(r, 0, &ranges),
        ShowSelectionComment::Existing(EditSelectionComment::FocusDraft { id })
    );
    assert_eq!(editor.selection_comment_count(), 1);
    assert_eq!(editor.next_selection_comment_id(), id + 1);
}
