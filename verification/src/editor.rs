use vstd::prelude::*;

use crate::ranges::{
    expand_empty_selection_comment_range, expanded_range, queued_range, BufferPosition,
    QueuedRange, SelectionRange,
};
use crate::text::{count_lines, line_count, trim, trimmed};

verus! {

/// One selection comment marker: its id, the display block that shows it,
/// whether its comment is queued, the queued text, and the handles the host
/// UI keeps for it (anchors, prompt input, confirmation callback).
pub struct SelectionCommentOverlay<H> {
    pub id: usize,
    pub block_id: usize,
    pub confirmed: bool,
    pub comment_text: String,
    pub handles: H,
}

/// The mathematical model of a marker.
pub struct Marker<H> {
    pub id: usize,
    pub block_id: usize,
    pub confirmed: bool,
    pub comment: Seq<char>,
    pub handles: H,
}

impl<H> View for SelectionCommentOverlay<H> {
    type V = Marker<H>;

    open spec fn view(&self) -> Marker<H> {
        Marker {
            id: self.id,
            block_id: self.block_id,
            confirmed: self.confirmed,
            comment: self.comment_text@,
            handles: self.handles,
        }
    }
}

/// The selection comment markers of an editor, in the order they were shown.
pub struct Editor<H> {
    selection_comment_overlays: Vec<SelectionCommentOverlay<H>>,
    next_selection_comment_id: usize,
}

/// A block that has to be resized to `height` lines.
#[derive(Clone, Copy, Debug, PartialEq, Eq, Structural)]
pub struct BlockResize {
    pub block_id: usize,
    pub height: u32,
}

/// Where the keyboard focus goes after an operation.
#[derive(Clone, Copy, Debug, PartialEq, Eq, Structural)]
pub enum FocusTarget {
    /// The comment input of the marker with this id.
    Prompt(usize),
    /// The editor itself.
    Editor,
    /// The focus stays where it is.
    Keep,
}

/// A draft that was just queued: the host resizes `block_id` to `height`,
/// moves the focus to `focus`, and then hands `comment_text` to the marker's
/// confirmation callback.
#[derive(Debug, PartialEq, Eq)]
pub struct ConfirmedSelectionComment {
    pub id: usize,
    pub block_id: usize,
    pub height: u32,
    pub comment_text: String,
    pub focus: FocusTarget,
}

/// A marker that was just removed: the host removes its block and moves the
/// focus to `focus`. The confirmation callback is not run.
pub struct RemovedSelectionComment<H> {
    pub overlay: SelectionCommentOverlay<H>,
    pub focus: FocusTarget,
}

/// What opening a marker for editing asks of the host.
#[derive(Debug, PartialEq, Eq)]
pub enum EditSelectionComment {
    /// No marker has that id.
    Missing,
    /// The marker is still a draft: focus its input, which keeps its text.
    FocusDraft { id: usize },
    /// The queued marker became a draft again: put `draft` back into its
    /// input, resize `block_id` to `height` and focus the input.
    Reopened { id: usize, block_id: usize, draft: String, height: u32 },
}

/// What showing a comment on a selection asks of the host.
#[derive(Debug, PartialEq, Eq)]
pub enum ShowSelectionComment {
    /// A marker already addresses the range; it was opened for editing.
    Existing(EditSelectionComment),
    /// A new marker gets `id`: create its input and a block below
    /// `range.end`, attach it, then move the focus to `focus`.
    Create { id: usize, range: SelectionRange, focus: FocusTarget },
}

/// What the block of a marker shows.
#[derive(Debug, PartialEq, Eq)]
pub enum SelectionCommentView {
    /// The marker is gone.
    Empty,
    /// A draft under a line label, with its buttons from left to right.
    Editing { line_label: String, buttons: Vec<MarkerButton> },
    /// A queued comment under a line label, with its buttons from left to right.
    Queued { line_label: String, comment_text: String, buttons: Vec<MarkerButton> },
}

/// The operation a marker's button runs.
#[derive(Clone, Copy, Debug, PartialEq, Eq, Structural)]
pub enum MarkerAction {
    /// `cancel_selection_comment_by_id`.
    Cancel,
    /// `confirm_selection_comment_by_id`.
    Queue,
    /// `edit_selection_comment`.
    Edit,
    /// `delete_selection_comment`.
    Remove,
}

/// A button of marker `id` that runs `action` on it.
#[derive(Clone, Copy, Debug, PartialEq, Eq, Structural)]
pub struct MarkerButton {
    pub action: MarkerAction,
    pub id: usize,
}

/// The buttons of marker `id`: a draft can be cancelled or queued, a queued
/// comment edited or removed.
pub open spec fn marker_buttons(id: usize, confirmed: bool) -> Seq<MarkerButton> {
    if confirmed {
        seq![
            MarkerButton { action: MarkerAction::Edit, id },
            MarkerButton { action: MarkerAction::Remove, id },
        ]
    } else {
        seq![
            MarkerButton { action: MarkerAction::Cancel, id },
            MarkerButton { action: MarkerAction::Queue, id },
        ]
    }
}

/// The buttons of marker `id`.
pub fn selection_comment_buttons(id: usize, confirmed: bool) -> (buttons: Vec<MarkerButton>)
    ensures
        buttons@ == marker_buttons(id, confirmed),
{
    let mut buttons: Vec<MarkerButton> = Vec::new();
    if confirmed {
        buttons.push(MarkerButton { action: MarkerAction::Edit, id });
        buttons.push(MarkerButton { action: MarkerAction::Remove, id });
    } else {
        buttons.push(MarkerButton { action: MarkerAction::Cancel, id });
        buttons.push(MarkerButton { action: MarkerAction::Queue, id });
    }
    assert(buttons@ =~= marker_buttons(id, confirmed));
    buttons
}

/// The height in lines of a marker's block for its text: a header line plus
/// the text's lines, at least one and at most five.
pub open spec fn block_height(text: Seq<char>) -> u32 {
    let lines = if line_count(text) > 1 { line_count(text) } else { 1 };
    let clamped = (lines % 0x1_0000_0000) as u32;
    (1 + if clamped < 5 { clamped } else { 5 }) as u32
}

/// A queued comment is not empty and has no surrounding white space.
pub open spec fn valid_queued_comment(text: Seq<char>) -> bool {
    text.len() > 0 && trimmed(text) == text
}

/// The markers' invariant: ids are distinct and below the next id, and every
/// queued comment is valid.
pub open spec fn markers_wf<H>(markers: Seq<Marker<H>>, next_id: nat) -> bool {
    &&& forall|i: int, j: int|
        0 <= i < markers.len() && 0 <= j < markers.len() && i != j ==> #[trigger] markers[i].id
            != #[trigger] markers[j].id
    &&& forall|i: int| 0 <= i < markers.len() ==> #[trigger] markers[i].id < next_id
    &&& forall|i: int|
        0 <= i < markers.len() && #[trigger] markers[i].confirmed ==> valid_queued_comment(
            markers[i].comment,
        )
}

/// Some marker has id `id`.
pub open spec fn has_marker<H>(markers: Seq<Marker<H>>, id: usize) -> bool {
    exists|i: int| 0 <= i < markers.len() && #[trigger] markers[i].id == id
}

/// Some marker with id `id` is still a draft.
pub open spec fn has_draft<H>(markers: Seq<Marker<H>>, id: usize) -> bool {
    exists|i: int| 0 <= i < markers.len() && #[trigger] markers[i].id == id && !markers[i].confirmed
}

/// The `i`-th marker is a draft whose input holds the focus.
pub open spec fn is_focused_draft<H>(markers: Seq<Marker<H>>, focused: Seq<bool>, i: int) -> bool {
    0 <= i < markers.len() && i < focused.len() && focused[i] && !markers[i].confirmed
}

/// Some draft's input holds the focus.
pub open spec fn has_focused_draft<H>(markers: Seq<Marker<H>>, focused: Seq<bool>) -> bool {
    exists|i: int| is_focused_draft(markers, focused, i)
}

/// The `i`-th marker is the first draft whose input holds the focus.
pub open spec fn first_focused_draft<H>(markers: Seq<Marker<H>>, focused: Seq<bool>, i: int) -> bool {
    &&& is_focused_draft(markers, focused, i)
    &&& forall|j: int| 0 <= j < i ==> !is_focused_draft(markers, focused, j)
}

/// How many markers have their comment queued.
pub open spec fn confirmed_count<H>(markers: Seq<Marker<H>>) -> nat
    decreases markers.len(),
{
    if markers.len() == 0 {
        0
    } else {
        confirmed_count(markers.drop_last()) + if markers.last().confirmed { 1nat } else { 0nat }
    }
}

/// `m` with its comment queued as `text`.
pub open spec fn queued_marker<H>(m: Marker<H>, text: Seq<char>) -> Marker<H> {
    Marker { id: m.id, block_id: m.block_id, confirmed: true, comment: text, handles: m.handles }
}

/// `m` turned back into a draft; the queued text stays.
pub open spec fn reopened_marker<H>(m: Marker<H>) -> Marker<H> {
    Marker {
        id: m.id,
        block_id: m.block_id,
        confirmed: false,
        comment: m.comment,
        handles: m.handles,
    }
}

/// Queueing the draft of marker `id` with input text `draft` turns `before`
/// into `after` with `result`: a draft with that id and a non-empty trimmed
/// text is queued with that text, and otherwise nothing changes.
pub open spec fn confirm_step<H>(
    before: Seq<Marker<H>>,
    after: Seq<Marker<H>>,
    id: usize,
    draft: Seq<char>,
    result: Option<ConfirmedSelectionComment>,
) -> bool {
    let text = trimmed(draft);
    match result {
        Some(c) => exists|i: int|
            0 <= i < before.len() && #[trigger] before[i].id == id && !before[i].confirmed
                && text.len() > 0 && after == before.update(i, queued_marker(before[i], text))
                && c.id == id && c.block_id == before[i].block_id && c.comment_text@ == text
                && c.height == block_height(text) && c.focus == FocusTarget::Editor,
        None => (!has_draft(before, id) || text.len() == 0) && after == before,
    }
}

/// Opening marker `id` for editing turns `before` into `after` with `result`.
pub open spec fn edit_step<H>(
    before: Seq<Marker<H>>,
    after: Seq<Marker<H>>,
    id: usize,
    result: EditSelectionComment,
) -> bool {
    match result {
        EditSelectionComment::Missing => !has_marker(before, id) && after == before,
        EditSelectionComment::FocusDraft { id: focus } => focus == id && has_draft(before, id)
            && after == before,
        EditSelectionComment::Reopened { id: reopened, block_id, draft, height } => exists|i: int|
            0 <= i < before.len() && #[trigger] before[i].id == id && before[i].confirmed
                && after == before.update(i, reopened_marker(before[i])) && reopened == id
                && block_id == before[i].block_id && draft@ == before[i].comment && height
                == block_height(before[i].comment),
    }
}

/// Removing the marker with id `id`, drafts only when `drafts_only`, turns
/// `before` into `after` and hands back `removed`.
pub open spec fn remove_step<H>(
    before: Seq<Marker<H>>,
    after: Seq<Marker<H>>,
    id: usize,
    drafts_only: bool,
    removed: Option<Marker<H>>,
) -> bool {
    match removed {
        Some(m) => exists|i: int|
            0 <= i < before.len() && #[trigger] before[i].id == id && (drafts_only
                ==> !before[i].confirmed) && m == before[i] && after == before.remove(i),
        None => (if drafts_only {
            !has_draft(before, id)
        } else {
            !has_marker(before, id)
        }) && after == before,
    }
}

/// Showing a comment on the range `target`, where `resolved[i]` is the range
/// that the `i`-th marker addresses, turns `before` into `after` and the next
/// id `next_before` into `next_after` with `result`: the first marker that
/// addresses `target` is opened for editing, and when none does, the next id
/// is handed out for a new marker whose input is to take the focus.
pub open spec fn show_step<H>(
    before: Seq<Marker<H>>,
    after: Seq<Marker<H>>,
    next_before: nat,
    next_after: nat,
    resolved: Seq<SelectionRange>,
    target: SelectionRange,
    result: ShowSelectionComment,
) -> bool {
    match result {
        ShowSelectionComment::Existing(edit) => exists|i: int|
            0 <= i < resolved.len() && #[trigger] resolved[i] == target && (forall|j: int|
                0 <= j < i ==> resolved[j] != target) && edit_step(before, after, before[i].id, edit)
                && !(edit is Missing) && next_after == next_before,
        ShowSelectionComment::Create { id, range, focus } => (forall|i: int|
            0 <= i < resolved.len() ==> #[trigger] resolved[i] != target) && range == target && id
            == next_before && focus == FocusTarget::Prompt(id) && after == before && next_after
            == next_before + 1,
    }
}

/// The label of a marker's block: the one-based line, or the span of lines,
/// that the range addresses.
pub open spec fn line_label_text(range: SelectionRange) -> Seq<char> {
    let start = range.start.row as nat + 1;
    let end = range.end.row as nat + 1;
    if range.start.row == range.end.row {
        "Line "@ + crate::text::decimal(start)
    } else {
        "Lines "@ + crate::text::decimal(start) + "-"@ + crate::text::decimal(end)
    }
}

/// The label of a marker's block for the range it addresses.
pub fn line_label(range: SelectionRange) -> (label: String)
    ensures
        label@ == line_label_text(range),
{
    if range.start.row == range.end.row {
        let mut label = String::from_str("Line ");
        crate::text::push_decimal(&mut label, range.start.row as u64 + 1);
        label
    } else {
        let mut label = String::from_str("Lines ");
        crate::text::push_decimal(&mut label, range.start.row as u64 + 1);
        label.append("-");
        crate::text::push_decimal(&mut label, range.end.row as u64 + 1);
        label
    }
}

/// The height of a marker's block for its text.
pub fn block_height_for(text: &str) -> (height: u32)
    ensures
        height == block_height(text@),
{
    let lines = count_lines(text);
    let lines = if lines > 1 { lines } else { 1 };
    let wrapped: u64 = (lines as u64) % 0x1_0000_0000u64;
    let clamped = wrapped as u32;
    1 + if clamped < 5 { clamped } else { 5 }
}

impl<H> View for Editor<H> {
    type V = Seq<Marker<H>>;

    closed spec fn view(&self) -> Seq<Marker<H>> {
        self.selection_comment_overlays@.map_values(|o: SelectionCommentOverlay<H>| o@)
    }
}

impl<H> Editor<H> {
    /// The id the next new marker gets.
    pub closed spec fn next_comment_id(&self) -> nat {
        self.next_selection_comment_id as nat
    }

    /// The markers keep their invariant.
    pub open spec fn wf(&self) -> bool {
        markers_wf(self@, self.next_comment_id())
    }

    /// An editor without markers.
    pub fn new() -> (editor: Self)
        ensures
            editor.wf(),
            editor@ == Seq::<Marker<H>>::empty(),
            editor.next_comment_id() == 0,
    {
        let editor = Editor { selection_comment_overlays: Vec::new(), next_selection_comment_id: 0 };
        assert(editor@ =~= Seq::<Marker<H>>::empty());
        editor
    }

    /// The id the next new marker gets.
    pub fn next_selection_comment_id(&self) -> (id: usize)
        ensures
            id == self.next_comment_id(),
    {
        self.next_selection_comment_id
    }

    /// The markers, in the order they were shown.
    pub fn selection_comment_overlays(&self) -> (overlays: &[SelectionCommentOverlay<H>])
        ensures
            overlays@.map_values(|o: SelectionCommentOverlay<H>| o@) == self@,
    {
        self.selection_comment_overlays.as_slice()
    }

    /// The position of the first marker with id `id` that is a draft, or
    /// any marker with that id when `drafts_only` is false.
    fn position_of(&self, id: usize, drafts_only: bool) -> (pos: Option<usize>)
        ensures
            match pos {
                Some(i) => i < self@.len() && self@[i as int].id == id && (drafts_only
                    ==> !self@[i as int].confirmed),
                None => if drafts_only {
                    !has_draft(self@, id)
                } else {
                    !has_marker(self@, id)
                },
            },
    {
        let n = self.selection_comment_overlays.len();
        let mut i: usize = 0;
        while i < n
            invariant
                n == self.selection_comment_overlays@.len(),
                self@.len() == n,
                i <= n,
                forall|j: int|
                    0 <= j < i ==> !(#[trigger] self@[j].id == id && (drafts_only
                        ==> !self@[j].confirmed)),
            decreases n - i,
        {
            let overlay = &self.selection_comment_overlays[i];
            assert(self@[i as int] == overlay@);
            if overlay.id == id && (!drafts_only || !overlay.confirmed) {
                return Some(i);
            }
            i = i + 1;
        }
        None
    }

    /// The marker with id `id`, if any.
    pub fn selection_comment_overlay(&self, id: usize) -> (overlay: Option<
        &SelectionCommentOverlay<H>,
    >)
        requires
            self.wf(),
        ensures
            match overlay {
                Some(o) => exists|i: int|
                    0 <= i < self@.len() && #[trigger] self@[i].id == id && o@ == self@[i],
                None => !has_marker(self@, id),
            },
    {
        match self.position_of(id, false) {
            Some(i) => Some(&self.selection_comment_overlays[i]),
            None => None,
        }
    }

    /// How many selection comment markers are shown.
    pub fn selection_comment_count(&self) -> (count: usize)
        ensures
            count == self@.len(),
    {
        self.selection_comment_overlays.len()
    }

    /// How many of the shown markers have their comment queued.
    pub fn confirmed_selection_comment_count(&self) -> (count: usize)
        ensures
            count == confirmed_count(self@),
    {
        let n = self.selection_comment_overlays.len();
        let mut count: usize = 0;
        let mut i: usize = 0;
        while i < n
            invariant
                n == self.selection_comment_overlays@.len(),
                self@.len() == n,
                i <= n,
                count == confirmed_count(self@.take(i as int)),
                count <= i,
            decreases n - i,
        {
            assert(self@.take(i + 1).drop_last() =~= self@.take(i as int));
            if self.selection_comment_overlays[i].confirmed {
                count = count + 1;
            }
            i = i + 1;
        }
        assert(self@.take(n as int) =~= self@);
        count
    }

    /// The handles of the first marker that is still a draft, if any.
    pub fn selection_comment_prompt_editor(&self) -> (handles: Option<&H>)
        ensures
            match handles {
                Some(h) => exists|i: int|
                    0 <= i < self@.len() && !(#[trigger] self@[i]).confirmed && (forall|j: int|
                        0 <= j < i ==> self@[j].confirmed) && *h == self@[i].handles,
                None => forall|i: int| 0 <= i < self@.len() ==> (#[trigger] self@[i]).confirmed,
            },
    {
        let n = self.selection_comment_overlays.len();
        let mut i: usize = 0;
        while i < n
            invariant
                n == self.selection_comment_overlays@.len(),
                self@.len() == n,
                i <= n,
                forall|j: int| 0 <= j < i ==> (#[trigger] self@[j]).confirmed,
            decreases n - i,
        {
            let overlay = &self.selection_comment_overlays[i];
            assert(self@[i as int] == overlay@);
            if !overlay.confirmed {
                return Some(&overlay.handles);
            }
            i = i + 1;
        }
        None
    }

    /// Queues the draft of marker `id` with the trimmed text of its input
    /// `draft`; a draft whose text is empty after trimming stays a draft.
    pub fn confirm_selection_comment_by_id(&mut self, id: usize, draft: &str) -> (result: Option<
        ConfirmedSelectionComment,
    >)
        requires
            old(self).wf(),
        ensures
            final(self).wf(),
            final(self).next_comment_id() == old(self).next_comment_id(),
            confirm_step(old(self)@, final(self)@, id, draft@, result),
    {
        let Some(i) = self.position_of(id, true) else {
            return None;
        };
        let comment_text = trim(draft);
        if comment_text.unicode_len() == 0 {
            return None;
        }
        proof {
            crate::text::lemma_trimmed_idempotent(draft@);
        }
        let ghost before = self@;
        let height = block_height_for(comment_text.as_str());
        let block_id = self.selection_comment_overlays[i].block_id;
        self.selection_comment_overlays[i].confirmed = true;
        self.selection_comment_overlays[i].comment_text = comment_text.clone();
        assert(self@ =~= before.update(i as int, queued_marker(before[i as int], trimmed(draft@))));
        Some(ConfirmedSelectionComment { id, block_id, height, comment_text, focus: FocusTarget::Editor })
    }

    /// The id of the first draft whose input has focus; `focused[i]` tells
    /// whether the input of the `i`-th marker holds the focus.
    pub fn focused_selection_comment(&self, focused: &[bool]) -> (id: Option<usize>)
        requires
            focused@.len() == self@.len(),
        ensures
            match id {
                Some(id) => exists|i: int|
                    first_focused_draft(self@, focused@, i) && #[trigger] self@[i].id == id,
                None => !has_focused_draft(self@, focused@),
            },
    {
        match self.first_focused_position(focused) {
            Some(i) => {
                let id = self.selection_comment_overlays[i].id;
                assert(self@[i as int] == self.selection_comment_overlays@[i as int]@);
                assert(first_focused_draft(self@, focused@, i as int) && self@[i as int].id == id);
                Some(id)
            },
            None => None,
        }
    }

    fn first_focused_position(&self, focused: &[bool]) -> (pos: Option<usize>)
        requires
            focused@.len() == self@.len(),
        ensures
            match pos {
                Some(i) => first_focused_draft(self@, focused@, i as int),
                None => !has_focused_draft(self@, focused@),
            },
    {
        let n = self.selection_comment_overlays.len();
        let mut i: usize = 0;
        while i < n
            invariant
                n == self.selection_comment_overlays@.len(),
                self@.len() == n,
                focused@.len() == n,
                i <= n,
                forall|j: int| 0 <= j < i ==> !is_focused_draft(self@, focused@, j),
            decreases n - i,
        {
            assert(self@[i as int] == self.selection_comment_overlays@[i as int]@);
            if focused[i] && !self.selection_comment_overlays[i].confirmed {
                return Some(i);
            }
            i = i + 1;
        }
        None
    }

    /// Queues the first draft whose input has focus; `focused[i]` tells
    /// whether the input of the `i`-th marker holds the focus, and `draft` is
    /// the text of the focused input.
    pub fn confirm_selection_comment(&mut self, focused: &[bool], draft: &str) -> (result: Option<
        ConfirmedSelectionComment,
    >)
        requires
            old(self).wf(),
            focused@.len() == old(self)@.len(),
        ensures
            final(self).wf(),
            final(self).next_comment_id() == old(self).next_comment_id(),
            if has_focused_draft(old(self)@, focused@) {
                exists|i: int|
                    first_focused_draft(old(self)@, focused@, i) && confirm_step(
                        old(self)@,
                        final(self)@,
                        #[trigger] old(self)@[i].id,
                        draft@,
                        result,
                    )
            } else {
                result is None && final(self)@ == old(self)@
            },
    {
        match self.first_focused_position(focused) {
            Some(i) => {
                assert(self@[i as int] == self.selection_comment_overlays@[i as int]@);
                let id = self.selection_comment_overlays[i].id;
                let ghost before = self@;
                let result = self.confirm_selection_comment_by_id(id, draft);
                assert(first_focused_draft(before, focused@, i as int) && before[i as int].id == id);
                result
            },
            None => None,
        }
    }

    /// Removes the marker at `i`.
    fn remove_overlay(&mut self, i: usize) -> (removed: SelectionCommentOverlay<H>)
        requires
            old(self).wf(),
            i < old(self)@.len(),
        ensures
            final(self).wf(),
            final(self).next_comment_id() == old(self).next_comment_id(),
            final(self)@ == old(self)@.remove(i as int),
            removed@ == old(self)@[i as int],
    {
        let ghost before = self@;
        let removed = self.selection_comment_overlays.remove(i);
        assert(self@ =~= before.remove(i as int));
        removed
    }

    /// Drops the draft of marker `id`, handing the marker back so that its
    /// block can be removed; a queued marker stays.
    pub fn cancel_selection_comment_by_id(&mut self, id: usize) -> (removed: Option<
        RemovedSelectionComment<H>,
    >)
        requires
            old(self).wf(),
        ensures
            final(self).wf(),
            final(self).next_comment_id() == old(self).next_comment_id(),
            remove_step(
                old(self)@,
                final(self)@,
                id,
                true,
                match removed {
                    Some(r) => Some(r.overlay@),
                    None => None,
                },
            ),
            removed matches Some(r) ==> r.focus == FocusTarget::Editor,
    {
        match self.position_of(id, true) {
            Some(i) => Some(
                RemovedSelectionComment { overlay: self.remove_overlay(i), focus: FocusTarget::Editor },
            ),
            None => None,
        }
    }

    /// Drops the first draft whose input has focus, handing the marker back
    /// so that its block can be removed; `focused[i]` tells whether the input
    /// of the `i`-th marker holds the focus.
    pub fn cancel_focused_selection_comment(&mut self, focused: &[bool]) -> (removed: Option<
        RemovedSelectionComment<H>,
    >)
        requires
            old(self).wf(),
            focused@.len() == old(self)@.len(),
        ensures
            final(self).wf(),
            final(self).next_comment_id() == old(self).next_comment_id(),
            match removed {
                Some(r) => r.focus == FocusTarget::Editor && exists|i: int|
                    first_focused_draft(old(self)@, focused@, i) && r.overlay@ == #[trigger] old(
                        self,
                    )@[i] && final(self)@ == old(self)@.remove(i),
                None => !has_focused_draft(old(self)@, focused@) && final(self)@ == old(self)@,
            },
    {
        match self.first_focused_position(focused) {
            Some(i) => Some(
                RemovedSelectionComment { overlay: self.remove_overlay(i), focus: FocusTarget::Editor },
            ),
            None => None,
        }
    }

    /// Removes marker `id`, queued or not, handing it back so that its block
    /// can be removed.
    pub fn delete_selection_comment(&mut self, id: usize) -> (removed: Option<
        RemovedSelectionComment<H>,
    >)
        requires
            old(self).wf(),
        ensures
            final(self).wf(),
            final(self).next_comment_id() == old(self).next_comment_id(),
            remove_step(
                old(self)@,
                final(self)@,
                id,
                false,
                match removed {
                    Some(r) => Some(r.overlay@),
                    None => None,
                },
            ),
            removed matches Some(r) ==> r.focus == FocusTarget::Keep,
    {
        match self.position_of(id, false) {
            Some(i) => Some(
                RemovedSelectionComment { overlay: self.remove_overlay(i), focus: FocusTarget::Keep },
            ),
            None => None,
        }
    }

    /// Opens marker `id` for editing: a queued marker becomes a draft again
    /// with its queued text restored to the input; a draft keeps its text and
    /// only gets the focus.
    pub fn edit_selection_comment(&mut self, id: usize) -> (result: EditSelectionComment)
        requires
            old(self).wf(),
        ensures
            final(self).wf(),
            final(self).next_comment_id() == old(self).next_comment_id(),
            edit_step(old(self)@, final(self)@, id, result),
    {
        let Some(i) = self.position_of(id, false) else {
            return EditSelectionComment::Missing;
        };
        if !self.selection_comment_overlays[i].confirmed {
            proof {
                assert(self@[i as int].id == id && !self@[i as int].confirmed);
            }
            return EditSelectionComment::FocusDraft { id };
        }
        let ghost before = self@;
        let draft = self.selection_comment_overlays[i].comment_text.clone();
        let block_id = self.selection_comment_overlays[i].block_id;
        let height = block_height_for(draft.as_str());
        self.selection_comment_overlays[i].confirmed = false;
        assert(self@ =~= before.update(i as int, reopened_marker(before[i as int])));
        EditSelectionComment::Reopened { id, block_id, draft, height }
    }

    /// The new height of marker `id`'s block: a draft is measured by the text
    /// `draft` of its input, a queued marker by its queued text.
    pub fn refresh_selection_comment_overlay(&self, id: usize, draft: &str) -> (resize: Option<
        BlockResize,
    >)
        requires
            self.wf(),
        ensures
            match resize {
                Some(r) => exists|i: int|
                    0 <= i < self@.len() && #[trigger] self@[i].id == id && r.block_id
                        == self@[i].block_id && r.height == block_height(
                        if self@[i].confirmed {
                            self@[i].comment
                        } else {
                            draft@
                        },
                    ),
                None => !has_marker(self@, id),
            },
    {
        let Some(i) = self.position_of(id, false) else {
            return None;
        };
        let overlay = &self.selection_comment_overlays[i];
        assert(self@[i as int] == overlay@);
        let height = if overlay.confirmed {
            block_height_for(overlay.comment_text.as_str())
        } else {
            block_height_for(draft)
        };
        Some(BlockResize { block_id: overlay.block_id, height })
    }

    /// What the block of marker `id` shows when the marker addresses `range`.
    pub fn selection_comment_view(&self, id: usize, range: SelectionRange) -> (view:
        SelectionCommentView)
        requires
            self.wf(),
        ensures
            match view {
                SelectionCommentView::Empty => !has_marker(self@, id),
                SelectionCommentView::Editing { line_label, buttons } => exists|i: int|
                    0 <= i < self@.len() && #[trigger] self@[i].id == id && !self@[i].confirmed
                        && line_label@ == line_label_text(range) && buttons@ == marker_buttons(
                        id,
                        false,
                    ),
                SelectionCommentView::Queued { line_label, comment_text, buttons } => exists|i: int|
                    0 <= i < self@.len() && #[trigger] self@[i].id == id && self@[i].confirmed
                        && line_label@ == line_label_text(range) && comment_text@
                        == self@[i].comment && buttons@ == marker_buttons(id, true),
            },
    {
        let Some(i) = self.position_of(id, false) else {
            return SelectionCommentView::Empty;
        };
        let overlay = &self.selection_comment_overlays[i];
        assert(self@[i as int] == overlay@);
        let label = line_label(range);
        let buttons = selection_comment_buttons(id, overlay.confirmed);
        if overlay.confirmed {
            SelectionCommentView::Queued {
                line_label: label,
                comment_text: overlay.comment_text.clone(),
                buttons,
            }
        } else {
            SelectionCommentView::Editing { line_label: label, buttons }
        }
    }

    /// Removes every marker, handing them back in order so that their blocks
    /// can be removed.
    pub fn clear_selection_comments(&mut self) -> (removed: Vec<SelectionCommentOverlay<H>>)
        requires
            old(self).wf(),
        ensures
            final(self).wf(),
            final(self).next_comment_id() == old(self).next_comment_id(),
            final(self)@ == Seq::<Marker<H>>::empty(),
            removed@.map_values(|o: SelectionCommentOverlay<H>| o@) == old(self)@,
    {
        let mut removed: Vec<SelectionCommentOverlay<H>> = Vec::new();
        std::mem::swap(&mut removed, &mut self.selection_comment_overlays);
        assert(self@ =~= Seq::<Marker<H>>::empty());
        removed
    }

    /// Shows a comment marker for `range`; an empty range stands for its whole
    /// line, which is `start_line_len` characters long. `resolved[i]` is the
    /// range that the `i`-th marker addresses in the same buffer snapshot.
    /// Showing on a range that a marker already addresses opens that marker
    /// for editing instead of stacking a second one; otherwise the next id is
    /// handed out for a new marker.
    pub fn show_selection_comment(
        &mut self,
        range: SelectionRange,
        start_line_len: u32,
        resolved: &[SelectionRange],
    ) -> (result: ShowSelectionComment)
        requires
            old(self).wf(),
            resolved@.len() == old(self)@.len(),
            old(self).next_comment_id() < usize::MAX || exists|i: int|
                0 <= i < resolved@.len() && #[trigger] resolved@[i] == expanded_range(range, start_line_len),
        ensures
            final(self).wf(),
            show_step(
                old(self)@,
                final(self)@,
                old(self).next_comment_id(),
                final(self).next_comment_id(),
                resolved@,
                expanded_range(range, start_line_len),
                result,
            ),
    {
        let target = expand_empty_selection_comment_range(range, start_line_len);
        let n = resolved.len();
        let mut i: usize = 0;
        while i < n
            invariant
                n == resolved@.len(),
                i <= n,
                forall|j: int| 0 <= j < i ==> resolved@[j] != target,
                target == expanded_range(range, start_line_len),
                self.wf(),
                self@ == old(self)@,
                self.next_comment_id() == old(self).next_comment_id(),
                self.selection_comment_overlays@.len() == n,
                old(self).next_comment_id() < usize::MAX || exists|k: int|
                    0 <= k < resolved@.len() && #[trigger] resolved@[k] == target,
            decreases n - i,
        {
            let candidate = resolved[i];
            if candidate.start.row == target.start.row && candidate.start.column
                == target.start.column && candidate.end.row == target.end.row
                && candidate.end.column == target.end.column {
                let existing_id = self.selection_comment_overlays[i].id;
                let edit = self.edit_selection_comment(existing_id);
                return ShowSelectionComment::Existing(edit);
            }
            i = i + 1;
        }
        let id = self.next_selection_comment_id;
        self.next_selection_comment_id = id + 1;
        ShowSelectionComment::Create { id, range: target, focus: FocusTarget::Prompt(id) }
    }

    /// Adds the draft marker `id`, shown in block `block_id`, once the host
    /// has created its input. Only an id handed out by `show_selection_comment`
    /// and not in use is accepted.
    pub fn attach_selection_comment_overlay(
        &mut self,
        id: usize,
        block_id: usize,
        handles: H,
    ) -> (attached: bool)
        requires
            old(self).wf(),
        ensures
            final(self).wf(),
            final(self).next_comment_id() == old(self).next_comment_id(),
            attached == (id < old(self).next_comment_id() && !has_marker(old(self)@, id)),
            attached ==> final(self)@ == old(self)@.push(
                Marker { id, block_id, confirmed: false, comment: Seq::empty(), handles },
            ),
            !attached ==> final(self)@ == old(self)@,
    {
        if id >= self.next_selection_comment_id {
            return false;
        }
        if self.position_of(id, false).is_some() {
            return false;
        }
        let ghost before = self@;
        let overlay = SelectionCommentOverlay {
            id,
            block_id,
            confirmed: false,
            comment_text: String::new(),
            handles,
        };
        self.selection_comment_overlays.push(overlay);
        assert(self@ =~= before.push(
            Marker { id, block_id, confirmed: false, comment: Seq::empty(), handles },
        ));
        true
    }

    /// The quotable range of a selection whose (expanded) endpoints resolve
    /// to `start` and `end`: none when either does not resolve, when they lie
    /// in different buffers, or when they coincide.
    pub fn selection_comment_queue_ranges(
        &self,
        start: Option<BufferPosition>,
        end: Option<BufferPosition>,
    ) -> (ranges: Vec<QueuedRange>)
        ensures
            ranges@ == match queued_range(start, end) {
                Some(q) => seq![q],
                None => Seq::<QueuedRange>::empty(),
            },
    {
        let mut ranges: Vec<QueuedRange> = Vec::new();
        if let (Some(s), Some(e)) = (start, end) {
            if s.buffer_id == e.buffer_id && s.offset != e.offset {
                ranges.push(QueuedRange { buffer_id: s.buffer_id, start: s.offset, end: e.offset });
            }
        }
        ranges
    }
}

} // verus!
