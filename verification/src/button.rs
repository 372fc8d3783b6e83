//! Button kinds and check-box state words.

use vstd::prelude::*;

verus! {

/// Native check-state word: the box is unchecked.
pub const BST_UNCHECKED: u32 = 0;

/// Native check-state word: the box is checked.
pub const BST_CHECKED: u32 = 1;

/// Native check-state word: the box is in the indeterminate state.
pub const BST_INDETERMINATE: u32 = 2;

/// What kind of button a builder creates.
#[derive(Copy, Clone, Eq, PartialEq, Structural, Debug)]
pub enum ButtonKind {
    /// An ordinary push button.
    Command,
    /// A check box the application toggles itself.
    CheckBox,
    /// A check box toggled automatically on each click.
    AutoCheckBox,
    /// A three-state check box the application drives.
    ThreeState,
    /// A three-state check box toggled automatically.
    AutoThreeState,
}

/// The state of a (possibly three-state) check box.
#[derive(Copy, Clone, Eq, PartialEq, Structural, Debug)]
pub enum CheckState {
    /// The box is checked.
    Checked,
    /// The box is unchecked.
    Unchecked,
    /// The box shows the indeterminate (mixed) state.
    Indeterminate,
}

impl CheckState {
    /// Decode the native check-state word; every unknown word reads as
    /// indeterminate.
    pub fn from_bst(bst: u32) -> (r: Self)
        ensures
            r == (if bst == BST_CHECKED {
                CheckState::Checked
            } else if bst == BST_UNCHECKED {
                CheckState::Unchecked
            } else {
                CheckState::Indeterminate
            }),
    {
        if bst == BST_CHECKED {
            Self::Checked
        } else if bst == BST_UNCHECKED {
            Self::Unchecked
        } else {
            Self::Indeterminate
        }
    }

    /// Encode as the native check-state word.
    pub fn to_bst(self) -> (r: u32)
        ensures
            r == (match self {
                CheckState::Checked => BST_CHECKED,
                CheckState::Unchecked => BST_UNCHECKED,
                CheckState::Indeterminate => BST_INDETERMINATE,
            }),
            CheckState::from_bst_spec(r) == self,
    {
        match self {
            Self::Checked => BST_CHECKED,
            Self::Unchecked => BST_UNCHECKED,
            Self::Indeterminate => BST_INDETERMINATE,
        }
    }

    /// What [`CheckState::from_bst`] returns for a given word.
    pub open spec fn from_bst_spec(bst: u32) -> CheckState {
        if bst == BST_CHECKED {
            CheckState::Checked
        } else if bst == BST_UNCHECKED {
            CheckState::Unchecked
        } else {
            CheckState::Indeterminate
        }
    }
}

} // verus!
