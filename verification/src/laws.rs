use vstd::prelude::*;

use crate::editor::{
    block_height, confirm_step, confirmed_count, edit_step, has_draft, has_marker, markers_wf,
    remove_step, show_step, ConfirmedSelectionComment, EditSelectionComment, FocusTarget, Marker,
    ShowSelectionComment,
};
use crate::editor::{marker_buttons, MarkerAction};
use crate::ranges::{expanded_range, queued_range, BufferPosition, QueuedRange, SelectionRange};
use crate::settings_migration::{
    entry_for, expand_terminal_card_migration, expand_terminal_card_setting, is_display_mode,
    SettingValue, SettingsEntry,
};
use crate::wezel::{zstd_install_command_text, assigned_run_condition_text, assigned_run_job, assigned_run_steps, Runner, StepModel};
use crate::text::{line_count, lemma_trimmed_idempotent, trimmed};

verus! {

/// The id that showing hands out for a new marker is not in use, so attaching
/// the new draft under it is accepted and keeps the invariant.
pub proof fn lemma_new_id_is_fresh<H>(
    markers: Seq<Marker<H>>,
    next_id: nat,
    id: usize,
    block_id: usize,
    handles: H,
)
    requires
        markers_wf(markers, next_id),
        id == next_id,
    ensures
        !has_marker(markers, id),
        markers_wf(
            markers.push(Marker { id, block_id, confirmed: false, comment: Seq::empty(), handles }),
            next_id + 1,
        ),
{
    let attached = markers.push(
        Marker { id, block_id, confirmed: false, comment: Seq::empty(), handles },
    );
    assert forall|i: int| 0 <= i < attached.len() implies #[trigger] attached[i].id < next_id + 1 by {
        if i < markers.len() {
            assert(attached[i] == markers[i]);
        }
    }
    assert forall|i: int, j: int|
        0 <= i < attached.len() && 0 <= j < attached.len() && i != j implies #[trigger] attached[i].id
        != #[trigger] attached[j].id by {
        if i < markers.len() {
            assert(attached[i] == markers[i]);
        }
        if j < markers.len() {
            assert(attached[j] == markers[j]);
        }
    }
    assert forall|i: int|
        0 <= i < attached.len() && #[trigger] attached[i].confirmed implies crate::editor::valid_queued_comment(
        attached[i].comment,
    ) by {
        assert(i < markers.len());
        assert(attached[i] == markers[i]);
    }
}

/// Opening a marker for editing, which is also what showing a comment on an
/// already commented range does, never adds, removes or reorders markers, and
/// keeps every marker's id, block, handles and queued text.
pub proof fn lemma_edit_keeps_markers<H>(
    before: Seq<Marker<H>>,
    after: Seq<Marker<H>>,
    id: usize,
    result: EditSelectionComment,
)
    requires
        edit_step(before, after, id, result),
    ensures
        after.len() == before.len(),
        forall|i: int|
            0 <= i < after.len() ==> #[trigger] after[i].id == before[i].id && after[i].block_id
                == before[i].block_id && after[i].handles == before[i].handles
                && after[i].comment == before[i].comment,
{
}

/// Showing a comment on a range creates a marker; showing it again on the same
/// range, with no edit in between, opens that draft instead of stacking a
/// second marker: no marker, block or id changes. This holds whatever the id
/// counter is, since the second showing finds the new marker's range.
pub proof fn lemma_show_twice_adds_no_marker<H>(
    before: Seq<Marker<H>>,
    next_id: nat,
    resolved: Seq<SelectionRange>,
    target: SelectionRange,
    id: usize,
    block_id: usize,
    handles: H,
    after: Seq<Marker<H>>,
    next_after: nat,
    result: ShowSelectionComment,
)
    requires
        markers_wf(before, next_id),
        resolved.len() == before.len(),
        show_step(
            before,
            before,
            next_id,
            next_id + 1,
            resolved,
            target,
            ShowSelectionComment::Create { id, range: target, focus: FocusTarget::Prompt(id) },
        ),
        show_step(
            before.push(Marker { id, block_id, confirmed: false, comment: Seq::empty(), handles }),
            after,
            next_id + 1,
            next_after,
            resolved.push(target),
            target,
            result,
        ),
    ensures
        exists|i: int| 0 <= i < resolved.push(target).len() && #[trigger] resolved.push(target)[i]
            == target,
        result == ShowSelectionComment::Existing(EditSelectionComment::FocusDraft { id }),
        after == before.push(
            Marker { id, block_id, confirmed: false, comment: Seq::empty(), handles },
        ),
        next_after == next_id + 1,
{
    let attached = before.push(
        Marker { id, block_id, confirmed: false, comment: Seq::empty(), handles },
    );
    let again = resolved.push(target);
    let n = before.len() as int;
    assert(again[n] == target);
    assert forall|j: int| 0 <= j < n implies again[j] != target by {
        assert(again[j] == resolved[j]);
    }
    assert(attached[n].id == id);
    match result {
        ShowSelectionComment::Existing(edit) => {
            let i = choose|i: int|
                0 <= i < again.len() && #[trigger] again[i] == target && (forall|j: int|
                    0 <= j < i ==> again[j] != target) && edit_step(
                    attached,
                    after,
                    attached[i].id,
                    edit,
                ) && !(edit is Missing) && next_after == next_id + 1;
            assert(i == n);
            match edit {
                EditSelectionComment::Reopened { .. } => {
                    let k = choose|k: int|
                        0 <= k < attached.len() && #[trigger] attached[k].id == id
                            && attached[k].confirmed && after == attached.update(
                            k,
                            crate::editor::reopened_marker(attached[k]),
                        );
                    if k < n {
                        assert(attached[k] == before[k]);
                        assert(before[k].id < next_id);
                    }
                },
                _ => {},
            }
        },
        ShowSelectionComment::Create { .. } => {},
    }
}

/// Queueing a draft keeps the marker: no marker is added, removed or
/// reordered, and only the queued marker's state and text change.
pub proof fn lemma_confirm_keeps_markers<H>(
    before: Seq<Marker<H>>,
    after: Seq<Marker<H>>,
    id: usize,
    draft: Seq<char>,
    result: Option<ConfirmedSelectionComment>,
)
    requires
        confirm_step(before, after, id, draft, result),
    ensures
        after.len() == before.len(),
        forall|i: int|
            0 <= i < after.len() ==> #[trigger] after[i].id == before[i].id && after[i].block_id
                == before[i].block_id && after[i].handles == before[i].handles,
        forall|i: int|
            0 <= i < after.len() && before[i].id != id ==> #[trigger] after[i] == before[i],
{
}

/// A draft whose text is empty after trimming is never queued.
pub proof fn lemma_blank_draft_is_not_queued<H>(
    before: Seq<Marker<H>>,
    after: Seq<Marker<H>>,
    id: usize,
    draft: Seq<char>,
    result: Option<ConfirmedSelectionComment>,
)
    requires
        confirm_step(before, after, id, draft, result),
        trimmed(draft).len() == 0,
    ensures
        result is None,
        after == before,
{
}

/// Editing a comment that was just queued turns it back into a draft and puts
/// the queued text, not whatever the input held before, back into its input.
pub proof fn lemma_edit_restores_queued_text<H>(
    before: Seq<Marker<H>>,
    queued: Seq<Marker<H>>,
    after: Seq<Marker<H>>,
    next_id: nat,
    id: usize,
    draft: Seq<char>,
    confirmed: Option<ConfirmedSelectionComment>,
    edit: EditSelectionComment,
)
    requires
        markers_wf(before, next_id),
        confirm_step(before, queued, id, draft, confirmed),
        confirmed is Some,
        edit_step(queued, after, id, edit),
    ensures
        edit matches EditSelectionComment::Reopened { draft: restored, .. } && restored@
            == trimmed(draft),
        has_draft(after, id),
{
    let i = choose|i: int|
        0 <= i < before.len() && #[trigger] before[i].id == id && !before[i].confirmed
            && trimmed(draft).len() > 0 && queued == before.update(
            i,
            crate::editor::queued_marker(before[i], trimmed(draft)),
        ) && confirmed->0.id == id && confirmed->0.block_id == before[i].block_id
            && confirmed->0.comment_text@ == trimmed(draft) && confirmed->0.height
            == block_height(trimmed(draft));
    assert(queued[i].id == id);
    match edit {
        EditSelectionComment::Missing => {
            assert(has_marker(queued, id));
        },
        EditSelectionComment::FocusDraft { .. } => {
            let k = choose|k: int| 0 <= k < queued.len() && #[trigger] queued[k].id == id && !queued[k].confirmed;
            if k != i {
                assert(before[k].id == before[i].id);
            }
        },
        EditSelectionComment::Reopened { .. } => {
            let k = choose|k: int|
                0 <= k < queued.len() && #[trigger] queued[k].id == id && queued[k].confirmed
                    && after == queued.update(k, crate::editor::reopened_marker(queued[k]));
            if k != i {
                assert(before[k].id == before[i].id);
            }
            assert(after[k].id == id && !after[k].confirmed);
        },
    }
}

/// Queueing, editing and queueing the restored text again gives back the
/// markers that the first queueing gave.
pub proof fn lemma_requeue_restores_markers<H>(
    before: Seq<Marker<H>>,
    queued: Seq<Marker<H>>,
    reopened: Seq<Marker<H>>,
    requeued: Seq<Marker<H>>,
    next_id: nat,
    id: usize,
    draft: Seq<char>,
    confirmed: Option<ConfirmedSelectionComment>,
    edit: EditSelectionComment,
    reconfirmed: Option<ConfirmedSelectionComment>,
)
    requires
        markers_wf(before, next_id),
        confirm_step(before, queued, id, draft, confirmed),
        confirmed is Some,
        edit_step(queued, reopened, id, edit),
        confirm_step(reopened, requeued, id, trimmed(draft), reconfirmed),
    ensures
        reconfirmed is Some,
        requeued == queued,
{
    lemma_trimmed_idempotent(draft);
    let i = choose|i: int|
        0 <= i < before.len() && #[trigger] before[i].id == id && !before[i].confirmed
            && trimmed(draft).len() > 0 && queued == before.update(
            i,
            crate::editor::queued_marker(before[i], trimmed(draft)),
        ) && confirmed->0.id == id && confirmed->0.block_id == before[i].block_id
            && confirmed->0.comment_text@ == trimmed(draft) && confirmed->0.height
            == block_height(trimmed(draft));
    assert(queued[i].id == id);
    match edit {
        EditSelectionComment::Missing => {
            assert(has_marker(queued, id));
        },
        EditSelectionComment::FocusDraft { .. } => {
            let k = choose|k: int| 0 <= k < queued.len() && #[trigger] queued[k].id == id && !queued[k].confirmed;
            if k != i {
                assert(before[k].id == before[i].id);
            }
        },
        EditSelectionComment::Reopened { .. } => {
            let k = choose|k: int|
                0 <= k < queued.len() && #[trigger] queued[k].id == id && queued[k].confirmed
                    && reopened == queued.update(k, crate::editor::reopened_marker(queued[k]));
            if k != i {
                assert(before[k].id == before[i].id);
            }
            assert(reopened[i].id == id && !reopened[i].confirmed);
            assert(has_draft(reopened, id));
            match reconfirmed {
                Some(c) => {
                    let j = choose|j: int|
                        0 <= j < reopened.len() && #[trigger] reopened[j].id == id
                            && !reopened[j].confirmed && trimmed(trimmed(draft)).len() > 0
                            && requeued == reopened.update(
                            j,
                            crate::editor::queued_marker(reopened[j], trimmed(trimmed(draft))),
                        );
                    if j != i {
                        assert(before[j].id == before[i].id);
                    }
                    assert(requeued =~= queued);
                },
                None => {},
            }
        },
    }
}

/// Cancelling never removes a queued comment: only a draft can be cancelled,
/// and every queued marker stays.
pub proof fn lemma_cancel_keeps_queued<H>(
    before: Seq<Marker<H>>,
    after: Seq<Marker<H>>,
    id: usize,
    removed: Option<Marker<H>>,
)
    requires
        remove_step(before, after, id, true, removed),
    ensures
        removed matches Some(m) ==> !m.confirmed,
        forall|i: int|
            0 <= i < before.len() && #[trigger] before[i].confirmed ==> exists|j: int|
                0 <= j < after.len() && after[j] == before[i],
{
    match removed {
        Some(m) => {
            let k = choose|k: int|
                0 <= k < before.len() && #[trigger] before[k].id == id && !before[k].confirmed
                    && m == before[k] && after == before.remove(k);
            assert forall|i: int| 0 <= i < before.len() && #[trigger] before[i].confirmed implies exists|j: int|
                0 <= j < after.len() && after[j] == before[i] by {
                if i < k {
                    assert(after[i] == before[i]);
                } else {
                    assert(after[i - 1] == before[i]);
                }
            }
        },
        None => {
            assert forall|i: int| 0 <= i < before.len() && #[trigger] before[i].confirmed implies exists|j: int|
                0 <= j < after.len() && after[j] == before[i] by {
                assert(after[i] == before[i]);
            }
        },
    }
}

/// Removing marker `id` leaves no marker with that id, removes exactly one
/// marker when there was one, and keeps the invariant.
pub proof fn lemma_remove_leaves_no_marker<H>(
    before: Seq<Marker<H>>,
    after: Seq<Marker<H>>,
    next_id: nat,
    id: usize,
    drafts_only: bool,
    removed: Option<Marker<H>>,
)
    requires
        markers_wf(before, next_id),
        remove_step(before, after, id, drafts_only, removed),
        removed is Some || !drafts_only,
    ensures
        !has_marker(after, id),
        removed is Some ==> after.len() == before.len() - 1,
        markers_wf(after, next_id),
{
    match removed {
        Some(m) => {
            let k = choose|k: int|
                0 <= k < before.len() && #[trigger] before[k].id == id && (drafts_only
                    ==> !before[k].confirmed) && m == before[k] && after == before.remove(k);
            assert forall|j: int| 0 <= j < after.len() implies #[trigger] after[j].id != id by {
                if j < k {
                    assert(after[j] == before[j]);
                } else {
                    assert(after[j] == before[j + 1]);
                }
            }
            assert forall|a: int, b: int|
                0 <= a < after.len() && 0 <= b < after.len() && a != b implies #[trigger] after[a].id
                != #[trigger] after[b].id by {
                let a0 = if a < k { a } else { a + 1 };
                let b0 = if b < k { b } else { b + 1 };
                assert(after[a] == before[a0]);
                assert(after[b] == before[b0]);
            }
            assert forall|a: int| 0 <= a < after.len() implies #[trigger] after[a].id < next_id by {
                let a0 = if a < k { a } else { a + 1 };
                assert(after[a] == before[a0]);
            }
            assert forall|a: int| 0 <= a < after.len() && #[trigger] after[a].confirmed implies crate::editor::valid_queued_comment(after[a].comment) by {
                let a0 = if a < k { a } else { a + 1 };
                assert(after[a] == before[a0]);
            }
        },
        None => {},
    }
}

/// Cancelling or deleting a marker that was just attached gives back the
/// markers that were there before, and hands back the attached handles.
pub proof fn lemma_attach_then_remove_restores<H>(
    before: Seq<Marker<H>>,
    after: Seq<Marker<H>>,
    id: usize,
    block_id: usize,
    handles: H,
    drafts_only: bool,
    removed: Option<Marker<H>>,
)
    requires
        !has_marker(before, id),
        remove_step(
            before.push(Marker { id, block_id, confirmed: false, comment: Seq::empty(), handles }),
            after,
            id,
            drafts_only,
            removed,
        ),
    ensures
        removed matches Some(m) && m.handles == handles && m.block_id == block_id,
        after == before,
{
    let attached = before.push(
        Marker { id, block_id, confirmed: false, comment: Seq::empty(), handles },
    );
    let n = before.len() as int;
    assert(attached[n].id == id);
    match removed {
        Some(m) => {
            let k = choose|k: int|
                0 <= k < attached.len() && #[trigger] attached[k].id == id && (drafts_only
                    ==> !attached[k].confirmed) && m == attached[k] && after == attached.remove(k);
            if k < n {
                assert(before[k].id == id);
            }
            assert(after =~= before);
        },
        None => {
            if drafts_only {
                assert(has_draft(attached, id));
            } else {
                assert(has_marker(attached, id));
            }
        },
    }
}

/// No more markers are queued than are shown.
pub proof fn lemma_confirmed_count_bounded<H>(markers: Seq<Marker<H>>)
    ensures
        confirmed_count(markers) <= markers.len(),
    decreases markers.len(),
{
    if markers.len() > 0 {
        lemma_confirmed_count_bounded(markers.drop_last());
    }
}

/// A marker's block is one to six lines high: a header line plus the text's
/// lines, counting an empty text as one line and capping at five.
pub proof fn lemma_block_height(text: Seq<char>)
    ensures
        1 <= block_height(text) <= 6,
        line_count(text) <= 1 ==> block_height(text) == 2,
        1 <= line_count(text) <= 5 ==> block_height(text) == line_count(text) + 1,
        5 <= line_count(text) < 0x1_0000_0000 ==> block_height(text) == 6,
{
}

/// Expanding a range twice gives what expanding once gives, and an empty
/// selection expands to its whole line.
pub proof fn lemma_expand_idempotent(range: SelectionRange, start_line_len: u32)
    ensures
        expanded_range(expanded_range(range, start_line_len), start_line_len) == expanded_range(
            range,
            start_line_len,
        ),
        range.start == range.end ==> {
            let e = expanded_range(range, start_line_len);
            &&& e.start.row == range.start.row && e.end.row == range.start.row
            &&& e.start.column == 0
            &&& e.end.column == start_line_len
        },
{
}

/// The migration writes display modes, so migrating a migrated setting again
/// changes nothing.
pub proof fn lemma_migration_idempotent(flag: bool, migrated: String)
    requires
        expand_terminal_card_migration(Some(SettingValue::Flag(flag))) == Ok::<
            Option<Seq<char>>,
            crate::settings_migration::MigrationError,
        >(Some(migrated@)),
    ensures
        is_display_mode(migrated@),
        expand_terminal_card_migration(Some(SettingValue::Text(migrated))) == Ok::<
            Option<Seq<char>>,
            crate::settings_migration::MigrationError,
        >(None),
{
}

proof fn lemma_count_update<H>(s: Seq<Marker<H>>, i: int, m: Marker<H>)
    requires
        0 <= i < s.len(),
    ensures
        confirmed_count(s.update(i, m)) + (if s[i].confirmed { 1nat } else { 0nat })
            == confirmed_count(s) + (if m.confirmed { 1nat } else { 0nat }),
    decreases s.len(),
{
    let u = s.update(i, m);
    if i == s.len() - 1 {
        assert(u.drop_last() =~= s.drop_last());
    } else {
        assert(u.drop_last() =~= s.drop_last().update(i, m));
        lemma_count_update(s.drop_last(), i, m);
    }
}

proof fn lemma_count_remove<H>(s: Seq<Marker<H>>, i: int)
    requires
        0 <= i < s.len(),
    ensures
        confirmed_count(s.remove(i)) + (if s[i].confirmed { 1nat } else { 0nat })
            == confirmed_count(s),
    decreases s.len(),
{
    let r = s.remove(i);
    if i == s.len() - 1 {
        assert(r =~= s.drop_last());
    } else {
        assert(r.drop_last() =~= s.drop_last().remove(i));
        assert(r.last() == s.last());
        lemma_count_remove(s.drop_last(), i);
    }
}

/// Queueing a draft queues one more comment; the number of markers stays.
pub proof fn lemma_confirm_counts<H>(
    before: Seq<Marker<H>>,
    after: Seq<Marker<H>>,
    id: usize,
    draft: Seq<char>,
    result: Option<ConfirmedSelectionComment>,
)
    requires
        confirm_step(before, after, id, draft, result),
    ensures
        after.len() == before.len(),
        confirmed_count(after) == confirmed_count(before) + if result is Some { 1nat } else { 0nat },
{
    if result is Some {
        let i = choose|i: int|
            0 <= i < before.len() && #[trigger] before[i].id == id && !before[i].confirmed
                && trimmed(draft).len() > 0 && after == before.update(
                i,
                crate::editor::queued_marker(before[i], trimmed(draft)),
            ) && result->0.id == id && result->0.block_id == before[i].block_id
                && result->0.comment_text@ == trimmed(draft) && result->0.height == block_height(
                trimmed(draft),
            ) && result->0.focus == FocusTarget::Editor;
        lemma_count_update(before, i, crate::editor::queued_marker(before[i], trimmed(draft)));
    }
}

/// Editing a queued comment leaves one queued comment fewer; editing a draft
/// or a missing marker changes no count.
pub proof fn lemma_edit_counts<H>(
    before: Seq<Marker<H>>,
    after: Seq<Marker<H>>,
    id: usize,
    result: EditSelectionComment,
)
    requires
        edit_step(before, after, id, result),
    ensures
        after.len() == before.len(),
        confirmed_count(after) + (if result is Reopened { 1nat } else { 0nat }) == confirmed_count(
            before,
        ),
{
    if result is Reopened {
        let i = choose|i: int|
            0 <= i < before.len() && #[trigger] before[i].id == id && before[i].confirmed
                && after == before.update(i, crate::editor::reopened_marker(before[i]))
                && result->Reopened_id == id && result->Reopened_block_id == before[i].block_id
                && result->Reopened_draft@ == before[i].comment && result->Reopened_height
                == block_height(before[i].comment);
        lemma_count_update(before, i, crate::editor::reopened_marker(before[i]));
    }
}

/// Cancelling or deleting a marker shows one marker fewer, and one queued
/// comment fewer when the removed marker was queued.
pub proof fn lemma_remove_counts<H>(
    before: Seq<Marker<H>>,
    after: Seq<Marker<H>>,
    id: usize,
    drafts_only: bool,
    removed: Option<Marker<H>>,
)
    requires
        remove_step(before, after, id, drafts_only, removed),
    ensures
        after.len() + (if removed is Some { 1nat } else { 0nat }) == before.len(),
        confirmed_count(after) + (if removed matches Some(m) && m.confirmed { 1nat } else { 0nat })
            == confirmed_count(before),
{
    if let Some(m) = removed {
        let k = choose|k: int|
            0 <= k < before.len() && #[trigger] before[k].id == id && (drafts_only
                ==> !before[k].confirmed) && m == before[k] && after == before.remove(k);
        lemma_count_remove(before, k);
    }
}

/// Attaching a new draft shows one more marker and no more queued comments.
pub proof fn lemma_attach_counts<H>(markers: Seq<Marker<H>>, draft: Marker<H>)
    requires
        !draft.confirmed,
    ensures
        markers.push(draft).len() == markers.len() + 1,
        confirmed_count(markers.push(draft)) == confirmed_count(markers),
{
    assert(markers.push(draft).drop_last() =~= markers);
}

/// Showing a comment keeps the invariant whatever it decides, never lowers
/// the next id, and never adds or removes a marker by itself (a new marker
/// appears only when the host attaches it).
pub proof fn lemma_show_keeps_invariant<H>(
    before: Seq<Marker<H>>,
    after: Seq<Marker<H>>,
    next_before: nat,
    next_after: nat,
    resolved: Seq<SelectionRange>,
    target: SelectionRange,
    result: ShowSelectionComment,
)
    requires
        markers_wf(before, next_before),
        resolved.len() == before.len(),
        show_step(before, after, next_before, next_after, resolved, target, result),
    ensures
        markers_wf(after, next_after),
        next_after >= next_before,
        after.len() == before.len(),
{
    match result {
        ShowSelectionComment::Existing(edit) => {
            let i = choose|i: int|
                0 <= i < resolved.len() && #[trigger] resolved[i] == target && (forall|j: int|
                    0 <= j < i ==> resolved[j] != target) && edit_step(
                    before,
                    after,
                    before[i].id,
                    edit,
                ) && !(edit is Missing) && next_after == next_before;
            let id = before[i].id;
            if edit is Reopened {
                let k = choose|k: int|
                    0 <= k < before.len() && #[trigger] before[k].id == id && before[k].confirmed
                        && after == before.update(k, crate::editor::reopened_marker(before[k]))
                        && edit->Reopened_id == id && edit->Reopened_block_id == before[k].block_id
                        && edit->Reopened_draft@ == before[k].comment && edit->Reopened_height
                        == block_height(before[k].comment);
                assert forall|a: int| 0 <= a < after.len() implies #[trigger] after[a].id
                    == before[a].id by {}
                assert forall|a: int|
                    0 <= a < after.len() && #[trigger] after[a].confirmed implies crate::editor::valid_queued_comment(
                    after[a].comment,
                ) by {
                    assert(a != k);
                    assert(after[a] == before[a]);
                }
                assert forall|a: int, b: int|
                    0 <= a < after.len() && 0 <= b < after.len() && a != b implies #[trigger] after[a].id
                    != #[trigger] after[b].id by {
                    assert(after[a].id == before[a].id);
                    assert(after[b].id == before[b].id);
                }
            }
        },
        ShowSelectionComment::Create { .. } => {
            assert forall|a: int| 0 <= a < after.len() implies #[trigger] after[a].id < next_after by {
                assert(before[a].id < next_before);
            }
        },
    }
}

/// In an assigned Wezel run on any platform, only the last step uses an
/// action, and that step is the one handed the runner token; every checkout
/// leaves no credentials behind.
pub proof fn lemma_runner_token_only_in_last_step(platform: Seq<char>)
    ensures
        assigned_run_steps(platform).len() >= 6,
        forall|i: int|
            0 <= i < assigned_run_steps(platform).len() - 1 ==> !(#[trigger] assigned_run_steps(
                platform,
            )[i] is Uses),
        assigned_run_steps(platform).last() matches StepModel::Uses { with, .. } && with.contains(
            ("token"@, "${{ secrets.WEZEL_RUNNER_TOKEN }}"@),
        ),
        forall|i: int|
            0 <= i < assigned_run_steps(platform).len() && (#[trigger] assigned_run_steps(
                platform,
            )[i] is Checkout) ==> !assigned_run_steps(platform)[i]->persist_credentials,
{
    let steps = assigned_run_steps(platform);
    let common = seq![
        StepModel::Run {
            name: "Validate assigned commit"@,
            command: "[[ \"$ASSIGNED_COMMIT\" =~ ^[0-9a-f]{40}$ ]]"@,
        },
        StepModel::Checkout { git_ref: "${{ inputs.commit_sha }}"@, persist_credentials: false },
        StepModel::Run {
            name: "Verify assigned checkout"@,
            command: "test \"$(git rev-parse HEAD)\" = \"$ASSIGNED_COMMIT\""@,
        },
        StepModel::CacheRustDependencies,
    ];
    let linux = if platform == "linux"@ {
        seq![StepModel::UseClang, StepModel::InstallLinuxDependencies]
    } else {
        Seq::empty()
    };
    let macos = if platform == "macos"@ {
        seq![StepModel::DownloadWasiSdk]
    } else {
        Seq::empty()
    };
    let with = seq![
        ("wezel-version"@, "v0.1.5-pre-pre.20260916103109+5a021a6"@),
        ("token"@, "${{ secrets.WEZEL_RUNNER_TOKEN }}"@),
        ("run-id"@, "${{ inputs.run_id }}"@),
        ("experiment-name"@, "${{ inputs.experiment_name }}"@),
        ("project-dir"@, "${{ inputs.project_dir }}"@),
    ];
    let tail = seq![
        StepModel::Run {
            name: "Ensure zstd is available"@,
            command: crate::wezel::zstd_install_command_text(platform),
        },
        StepModel::Uses {
            name: "Run assigned Wezel experiment"@,
            owner: "wezel-build"@,
            repo: "gh-action"@,
            version: "384b808f1de753a22abfadfe932452d0166c316f"@,
            with,
        },
    ];
    let mid = linux + macos;
    assert(steps =~= common + mid + tail);
    assert forall|i: int| 0 <= i < mid.len() implies !(#[trigger] mid[i] is Uses) && !(
    mid[i] is Checkout) by {
        if i < linux.len() {
            assert(mid[i] == linux[i]);
        } else {
            assert(mid[i] == macos[i - linux.len()]);
        }
    }
    let n = 4 + mid.len();
    assert forall|i: int| 0 <= i < steps.len() - 1 implies !(#[trigger] steps[i] is Uses) by {
        if i < 4 {
            assert(steps[i] == common[i]);
        } else if i < n {
            assert(steps[i] == mid[i - 4]);
        } else {
            assert(steps[i] == tail[i - n]);
        }
    }
    assert forall|i: int| 0 <= i < steps.len() && (#[trigger] steps[i] is Checkout) implies !steps[i]->persist_credentials by {
        if i < 4 {
            assert(steps[i] == common[i]);
        } else if i < n {
            assert(steps[i] == mid[i - 4]);
        } else {
            assert(steps[i] == tail[i - n]);
        }
    }
    assert(steps.last() == tail[1]);
    assert(with[1] == ("token"@, "${{ secrets.WEZEL_RUNNER_TOKEN }}"@));
}

/// A selection that is not empty addresses exactly itself: only an empty
/// selection stands for its whole line.
pub proof fn lemma_expand_keeps_selection(range: SelectionRange, start_line_len: u32)
    requires
        range.start != range.end,
    ensures
        expanded_range(range, start_line_len) == range,
{
}

/// Two endpoints in one buffer at different offsets quote exactly the range
/// between them, wherever they lie (the start of the buffer included); any
/// other pair quotes nothing, and a quoted range is never empty.
pub proof fn lemma_queued_range_between_endpoints(
    start: BufferPosition,
    end: BufferPosition,
    first: Option<BufferPosition>,
    last: Option<BufferPosition>,
)
    ensures
        start.buffer_id == end.buffer_id && start.offset != end.offset ==> queued_range(
            Some(start),
            Some(end),
        ) == Some(QueuedRange { buffer_id: start.buffer_id, start: start.offset, end: end.offset }),
        start.buffer_id != end.buffer_id || start.offset == end.offset ==> queued_range(
            Some(start),
            Some(end),
        ) is None,
        first is None || last is None ==> queued_range(first, last) is None,
        queued_range(first, last) matches Some(q) ==> q.start != q.end,
{
}

/// Every button of a marker acts on that marker: a draft's buttons cancel or
/// queue it, a queued comment's buttons edit or remove it.
pub proof fn lemma_buttons_act_on_their_marker(id: usize, confirmed: bool)
    ensures
        marker_buttons(id, confirmed).len() == 2,
        forall|k: int|
            0 <= k < marker_buttons(id, confirmed).len() ==> #[trigger] marker_buttons(
                id,
                confirmed,
            )[k].id == id,
        forall|k: int|
            0 <= k < marker_buttons(id, confirmed).len() ==> (#[trigger] marker_buttons(
                id,
                confirmed,
            )[k].action is Edit || marker_buttons(id, confirmed)[k].action is Remove)
                == confirmed,
        exists|k: int|
            0 <= k < 2 && #[trigger] marker_buttons(id, confirmed)[k].action == if confirmed {
                MarkerAction::Edit
            } else {
                MarkerAction::Cancel
            },
        exists|k: int|
            0 <= k < 2 && #[trigger] marker_buttons(id, confirmed)[k].action == if confirmed {
                MarkerAction::Remove
            } else {
                MarkerAction::Queue
            },
{
    let b = marker_buttons(id, confirmed);
    assert(b[0].id == id && b[1].id == id);
    assert(b[0].action == if confirmed { MarkerAction::Edit } else { MarkerAction::Cancel });
    assert(b[1].action == if confirmed { MarkerAction::Remove } else { MarkerAction::Queue });
}

/// The first entry whose key is `key` gives its value, wherever it stands.
pub proof fn lemma_entry_for_first_match<V>(entries: Seq<(String, V)>, key: Seq<char>, i: int)
    requires
        0 <= i < entries.len(),
        entries[i].0@ == key,
        forall|k: int| 0 <= k < i ==> (#[trigger] entries[k]).0@ != key,
    ensures
        entry_for(entries, key) == Some(entries[i].1),
    decreases i,
{
    if i > 0 {
        let rest = entries.drop_first();
        assert forall|k: int| 0 <= k < i - 1 implies (#[trigger] rest[k]).0@ != key by {
            assert(rest[k] == entries[k + 1]);
        }
        assert(rest[i - 1] == entries[i]);
        lemma_entry_for_first_match(rest, key, i - 1);
    }
}

/// The migration reads the first `agent` entry of the settings, wherever it
/// stands, and in that object the first `expand_terminal_card` entry: a
/// boolean there is turned into `always_expanded` or `always_collapsed`.
pub proof fn lemma_migration_reads_agent_entry(
    settings: Seq<(String, SettingsEntry)>,
    i: int,
    agent: Vec<(String, SettingValue)>,
    j: int,
    flag: bool,
)
    requires
        0 <= i < settings.len(),
        settings[i].0@ == "agent"@,
        forall|k: int| 0 <= k < i ==> (#[trigger] settings[k]).0@ != "agent"@,
        settings[i].1 == SettingsEntry::Object(agent),
        0 <= j < agent@.len(),
        agent@[j].0@ == "expand_terminal_card"@,
        forall|k: int| 0 <= k < j ==> (#[trigger] agent@[k]).0@ != "expand_terminal_card"@,
        agent@[j].1 == SettingValue::Flag(flag),
    ensures
        expand_terminal_card_setting(settings) == Some(SettingValue::Flag(flag)),
        expand_terminal_card_migration(expand_terminal_card_setting(settings)) == Ok::<
            Option<Seq<char>>,
            crate::settings_migration::MigrationError,
        >(Some(if flag { "always_expanded"@ } else { "always_collapsed"@ })),
{
    lemma_entry_for_first_match(settings, "agent"@, i);
    lemma_entry_for_first_match(agent@, "expand_terminal_card"@, j);
}

/// The condition of the assigned run on `platform` names that platform's
/// experiment: it ends with `release-binary-size-<platform>'`, so runs on
/// different platforms have different conditions; the job carries it.
pub proof fn lemma_condition_names_platform(platform: Seq<char>, other: Seq<char>, runner: Runner)
    ensures
        ({
            let c = assigned_run_condition_text(platform);
            let suffix = "release-binary-size-"@ + platform + "'"@;
            &&& c.len() >= suffix.len()
            &&& c.subrange(c.len() - suffix.len(), c.len() as int) == suffix
        }),
        platform != other ==> assigned_run_condition_text(platform) != assigned_run_condition_text(
            other,
        ),
        assigned_run_job(platform, runner).condition == assigned_run_condition_text(platform),
{
    let prefix = "github.repository == 'zed-industries/zed' && inputs.project_dir == '.' && inputs.experiment_name == '"@;
    let head = "github.repository == 'zed-industries/zed' && inputs.project_dir == '.' && inputs.experiment_name == 'release-binary-size-"@;
    let tag = "release-binary-size-"@;
    let quote = "'"@;
    reveal_strlit("github.repository == 'zed-industries/zed' && inputs.project_dir == '.' && inputs.experiment_name == 'release-binary-size-");
    reveal_strlit("github.repository == 'zed-industries/zed' && inputs.project_dir == '.' && inputs.experiment_name == '");
    reveal_strlit("release-binary-size-");
    reveal_strlit("'");
    assert(head =~= prefix + tag);
    let c = assigned_run_condition_text(platform);
    let suffix = tag + platform + quote;
    assert(c =~= prefix + suffix);
    assert(c.subrange(c.len() - suffix.len(), c.len() as int) =~= suffix);
    if platform != other {
        let d = assigned_run_condition_text(other);
        if c == d {
            assert(c.len() == d.len());
            assert(platform.len() == other.len());
            assert(platform =~= c.subrange(head.len() as int, (head.len() + platform.len()) as int));
            assert(other =~= d.subrange(head.len() as int, (head.len() + other.len()) as int));
        }
    }
}

/// macOS gets zstd from Homebrew and every other platform from apt: the
/// macOS command differs from the Linux one, and all other platforms share
/// the Linux command.
pub proof fn lemma_zstd_command_by_platform(platform: Seq<char>)
    ensures
        zstd_install_command_text("macos"@) != zstd_install_command_text("linux"@),
        platform != "macos"@ ==> zstd_install_command_text(platform) == zstd_install_command_text(
            "linux"@,
        ),
{
    reveal_strlit("macos");
    reveal_strlit("linux");
    reveal_strlit("command -v zstd || brew install --force-bottle zstd");
    reveal_strlit("command -v zstd || sudo apt-get install -y zstd");
    assert("macos"@[0] != "linux"@[0]);
    assert(zstd_install_command_text("macos"@)[19] != zstd_install_command_text("linux"@)[19]);
}

} // verus!
