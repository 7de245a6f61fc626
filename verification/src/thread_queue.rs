use vstd::prelude::*;

use crate::ranges::QueuedRange;

verus! {

/// What the comment-on-selection action does.
#[derive(Clone, Copy, Debug, PartialEq, Eq, Structural)]
pub enum SelectionCommentRequest {
    /// The feature is switched off.
    FeatureOff,
    /// No editor is active.
    NoActiveEditor,
    /// The newest selection quotes no lines.
    NoQuotableLines,
    /// Show a comment input on the newest selection.
    Show,
}

/// Whether the action shows a comment input: only when the feature is on, an
/// editor is active (`quotable_ranges` holds what its newest selection quotes)
/// and that selection quotes at least one range.
pub open spec fn selection_comment_request_for(
    feature_enabled: bool,
    quotable_ranges: Option<Seq<QueuedRange>>,
) -> SelectionCommentRequest {
    if !feature_enabled {
        SelectionCommentRequest::FeatureOff
    } else {
        match quotable_ranges {
            None => SelectionCommentRequest::NoActiveEditor,
            Some(ranges) => if ranges.len() == 0 {
                SelectionCommentRequest::NoQuotableLines
            } else {
                SelectionCommentRequest::Show
            },
        }
    }
}

/// Decides the comment-on-selection action; `quotable_ranges` is what the
/// newest selection of the active editor quotes, or nothing without one.
pub fn selection_comment_request(
    feature_enabled: bool,
    quotable_ranges: Option<&[QueuedRange]>,
) -> (request: SelectionCommentRequest)
    ensures
        request == selection_comment_request_for(
            feature_enabled,
            match quotable_ranges {
                Some(r) => Some(r@),
                None => None,
            },
        ),
        request == SelectionCommentRequest::Show <==> feature_enabled && quotable_ranges is Some
            && quotable_ranges->0@.len() > 0,
{
    if !feature_enabled {
        return SelectionCommentRequest::FeatureOff;
    }
    match quotable_ranges {
        None => SelectionCommentRequest::NoActiveEditor,
        Some(ranges) => if ranges.len() == 0 {
            SelectionCommentRequest::NoQuotableLines
        } else {
            SelectionCommentRequest::Show
        },
    }
}

/// The prose that follows a queued selection in the thread draft: the
/// comment on a line of its own.
pub fn queued_comment_prose(comment_text: &str) -> (prose: String)
    ensures
        prose@ == seq!['\n'] + comment_text@ + seq!['\n'],
{
    proof {
        reveal_strlit("\n");
    }
    let mut prose = String::from_str("\n");
    prose.append(comment_text);
    prose.append("\n");
    prose
}

} // verus!
