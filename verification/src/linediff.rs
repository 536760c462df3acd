//! Line-by-line comparison of two texts.

use vstd::prelude::*;

verus! {

/// What became of a line between the old text and the new one.
#[derive(Debug, Clone, Copy, PartialEq, Eq, Structural)]
pub enum LineTag {
    Equal,
    Delete,
    Insert,
}

/// One line of a comparison, with its line end.
#[derive(Debug)]
pub struct LineChange {
    pub tag: LineTag,
    pub text: String,
}

/// A [`LineChange`] with its text as a sequence of characters.
pub struct LineChangeView {
    pub tag: LineTag,
    pub text: Seq<char>,
}

impl DeepView for LineChange {
    type V = LineChangeView;

    open spec fn deep_view(&self) -> LineChangeView {
        LineChangeView { tag: self.tag, text: self.text@ }
    }
}

impl View for LineChange {
    type V = LineChangeView;

    open spec fn view(&self) -> LineChangeView {
        self.deep_view()
    }
}

/// The changes that `similar::TextDiff::from_lines` finds between two
/// texts, as `iter_all_changes` lists them: every line of either text once,
/// tagged as kept, deleted or inserted, each with the text that the change
/// displays as (the line, and a line feed where the line had none).
pub uninterp spec fn line_changes(old_text: Seq<char>, new_text: Seq<char>) -> Seq<LineChangeView>;

/// Runs `similar::TextDiff::from_lines` on the two texts and collects what
/// `iter_all_changes` yields: for each change its `tag()` and its display
/// text. The comparison has no deadline, so the texts alone decide it.
#[verifier::external_body]
pub(crate) fn diff_lines(old_text: &str, new_text: &str) -> (changes: Vec<LineChange>)
    ensures
        changes.deep_view() == line_changes(old_text@, new_text@),
{
    similar::TextDiff::from_lines(old_text, new_text)
        .iter_all_changes()
        .map(|change| LineChange {
            tag: match change.tag() {
                similar::ChangeTag::Equal => LineTag::Equal,
                similar::ChangeTag::Delete => LineTag::Delete,
                similar::ChangeTag::Insert => LineTag::Insert,
            },
            text: change.to_string(),
        })
        .collect()
}

} // verus!
