//! Option sets for the text controls and the tree view.

use vstd::prelude::*;

verus! {

/// Behaviour switches of an edit control.
#[derive(Copy, Clone, Eq, PartialEq, Structural, Debug)]
pub struct EditOptions {
    /// Accept more than one line of text.
    pub multiline: bool,
    /// Reject user edits.
    pub readonly: bool,
    /// Show a vertical scroll bar.
    pub vertical_scrollbar: bool,
    /// Keep the selection visible when focus leaves the control.
    pub no_hide_selection: bool,
    /// Let the Return key insert a line break.
    pub want_return: bool,
}

impl Default for EditOptions {
    /// Every switch off.
    fn default() -> (r: Self)
        ensures
            !r.multiline && !r.readonly && !r.vertical_scrollbar && !r.no_hide_selection
                && !r.want_return,
    {
        EditOptions {
            multiline: false,
            readonly: false,
            vertical_scrollbar: false,
            no_hide_selection: false,
            want_return: false,
        }
    }
}

/// Behaviour switches of a text box.
#[derive(Copy, Clone, Eq, PartialEq, Structural, Debug)]
pub struct TextBoxOptions {
    /// Accept more than one line of text.
    pub multiline: bool,
    /// Reject user edits.
    pub readonly: bool,
    /// Show a vertical scroll bar.
    pub vertical_scrollbar: bool,
}

impl Default for TextBoxOptions {
    /// Every switch off.
    fn default() -> (r: Self)
        ensures
            !r.multiline && !r.readonly && !r.vertical_scrollbar,
    {
        TextBoxOptions { multiline: false, readonly: false, vertical_scrollbar: false }
    }
}

/// Behaviour switches of a tree view.
#[derive(Copy, Clone, Eq, PartialEq, Structural, Debug)]
pub struct TreeViewOptions {
    /// Show expand and collapse buttons next to parent items.
    pub has_buttons: bool,
    /// Draw lines linking parents to children.
    pub has_lines: bool,
    /// Keep the selection visible when focus leaves the control.
    pub always_show_selection: bool,
    /// Draw lines at the root level too.
    pub show_lines_at_root: bool,
    /// Select the whole row, not only the label.
    pub full_row_select: bool,
    /// Keep at most one branch expanded at a time.
    pub single_expand: bool,
    /// Show a check box next to every item.
    pub checkboxes: bool,
}

impl Default for TreeViewOptions {
    /// Every switch off.
    fn default() -> (r: Self)
        ensures
            !r.has_buttons && !r.has_lines && !r.always_show_selection && !r.show_lines_at_root
                && !r.full_row_select && !r.single_expand && !r.checkboxes,
    {
        TreeViewOptions {
            has_buttons: false,
            has_lines: false,
            always_show_selection: false,
            show_lines_at_root: false,
            full_row_select: false,
            single_expand: false,
            checkboxes: false,
        }
    }
}

/// A new item handed to the tree view: its label text.
pub struct NewItem<'a> {
    /// Label of the item.
    pub text: &'a str,
}

} // verus!
