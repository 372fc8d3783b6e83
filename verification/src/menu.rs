//! Menus: append flags and per-item state words.
//!
//! The native menu handle lives outside this crate; a menu is modelled by
//! the items appended to it, each carrying the identifier and the flag
//! word the native append call would receive. Item state is read and
//! written through the same masked-bits discipline the native calls use,
//! addressing an item by position or by identifier.

use vstd::prelude::*;

verus! {

/// Append flag: the item can be selected.
pub const MF_ENABLED: u32 = 0x0;

/// Append flag: the item is shown dimmed.
pub const MF_GRAYED: u32 = 0x1;

/// Append flag: the item cannot be selected.
pub const MF_DISABLED: u32 = 0x2;

/// Append flag: the item carries a check mark.
pub const MF_CHECKED: u32 = 0x8;

/// Append flag: the item opens a submenu.
pub const MF_POPUP: u32 = 0x10;

/// Append flag: the item is a separator line.
pub const MF_SEPARATOR: u32 = 0x800;

/// Append flag: the item shows a text string.
pub const MF_STRING: u32 = 0x0;

/// State mask: the item carries a check mark.
pub const MFS_CHECKED: u32 = 0x8;

/// State mask: the item cannot be selected (disabled or dimmed).
pub const MFS_DISABLED: u32 = 0x3;

/// State word: the item can be selected.
pub const MFS_ENABLED: u32 = 0x0;

/// The state word the native menu reports for an item that does not
/// exist.
pub const MENU_STATE_MISSING: u32 = 0xffff_ffff;

/// One appended menu item: its identifier and its state word.
#[derive(Copy, Clone, Eq, PartialEq, Structural, Debug)]
pub struct MenuEntry {
    /// The application-chosen identifier.
    pub id: usize,
    /// The flag and state word.
    pub state: u32,
}

/// Describes one item to append to a menu.
pub struct MenuItem<'a> {
    /// The item can be selected.
    pub enabled: bool,
    /// The item is shown dimmed.
    pub grayed: bool,
    /// The item is a separator line.
    pub separator: bool,
    /// The item carries a check mark.
    pub checked: bool,
    /// The label, for items that show one.
    pub string: Option<&'a str>,
    /// The application-chosen identifier.
    pub id: usize,
    /// A submenu this item opens, if any.
    pub submenu: Option<Menu>,
}

impl<'a> MenuItem<'a> {
    /// A separator line.
    pub fn separator() -> (r: MenuItem<'a>)
        ensures
            r.enabled && !r.grayed && r.separator && !r.checked,
            r.string is None && r.id == 0 && r.submenu is None,
    {
        Self {
            enabled: true,
            grayed: false,
            separator: true,
            checked: false,
            string: None,
            id: 0,
            submenu: None,
        }
    }
}

impl<'a> Default for MenuItem<'a> {
    /// An enabled, unchecked text-less item with identifier zero.
    fn default() -> (r: Self)
        ensures
            r.enabled && !r.grayed && !r.separator && !r.checked,
            r.string is None && r.id == 0 && r.submenu is None,
    {
        Self {
            enabled: true,
            grayed: false,
            separator: false,
            checked: false,
            string: None,
            id: 0,
            submenu: None,
        }
    }
}

/// The flag word the native append call receives for `item`.
pub open spec fn spec_append_flags(
    enabled: bool,
    grayed: bool,
    separator: bool,
    checked: bool,
    has_string: bool,
    has_submenu: bool,
) -> u32 {
    (if enabled {
        MF_ENABLED
    } else {
        MF_DISABLED
    }) | (if grayed {
        MF_GRAYED
    } else {
        0
    }) | (if separator {
        MF_SEPARATOR
    } else {
        0
    }) | (if checked {
        MF_CHECKED
    } else {
        0
    }) | (if has_string {
        MF_STRING
    } else {
        0
    }) | (if has_submenu {
        MF_POPUP
    } else {
        0
    })
}

/// A menu: the items appended to it, in order.
pub struct Menu {
    items: Vec<MenuEntry>,
}

impl View for Menu {
    type V = Seq<MenuEntry>;

    closed spec fn view(&self) -> Seq<MenuEntry> {
        self.items@
    }
}

/// `i` is the first item with identifier `id`.
pub open spec fn spec_is_first_with_id(items: Seq<MenuEntry>, id: u32, i: int) -> bool {
    &&& 0 <= i < items.len()
    &&& items[i].id == id
    &&& forall|j: int| 0 <= j < i ==> (#[trigger] items[j]).id != id
}

/// The index of the first item with identifier `id`, if any.
pub open spec fn spec_find_first_id(items: Seq<MenuEntry>, id: u32) -> Option<int>
    decreases items.len(),
{
    if items.len() == 0 {
        None
    } else if items[0].id == id {
        Some(0)
    } else {
        match spec_find_first_id(items.drop_first(), id) {
            Some(i) => Some(i + 1),
            None => None,
        }
    }
}

/// [`spec_find_first_id`] finds exactly the first match: a found index is
/// the first item carrying the identifier, and a miss means no item
/// carries it.
pub proof fn lemma_find_first_id_characterizes(items: Seq<MenuEntry>, id: u32)
    ensures
        match spec_find_first_id(items, id) {
            Some(i) => spec_is_first_with_id(items, id, i),
            None => forall|j: int| 0 <= j < items.len() ==> (#[trigger] items[j]).id != id,
        },
    decreases items.len(),
{
    if items.len() > 0 && items[0].id != id {
        lemma_find_first_id_characterizes(items.drop_first(), id);
        match spec_find_first_id(items.drop_first(), id) {
            Some(i) => {
                assert(items.drop_first()[i] == items[i + 1]);
                assert forall|j: int| 0 <= j < i + 1 implies (#[trigger] items[j]).id != id by {
                    if j > 0 {
                        assert(items.drop_first()[j - 1] == items[j]);
                    }
                }
            },
            None => {
                assert forall|j: int| 0 <= j < items.len() implies (#[trigger] items[j]).id
                    != id by {
                    if j > 0 {
                        assert(items.drop_first()[j - 1] == items[j]);
                    }
                }
            },
        }
    }
}

/// Two first matches for the same identifier are the same index.
pub proof fn lemma_first_with_id_unique(items: Seq<MenuEntry>, id: u32, i: int, j: int)
    requires
        spec_is_first_with_id(items, id, i),
        spec_is_first_with_id(items, id, j),
    ensures
        i == j,
{
    if i < j {
        assert(items[i].id != id);
    }
    if j < i {
        assert(items[j].id != id);
    }
}

/// Where [`SetItem`] finds its item: the index of the first match, by
/// position or by identifier.
pub open spec fn spec_find_item(items: Seq<MenuEntry>, item: u32, by_position: bool) -> Option<
    int,
> {
    if by_position {
        if item < items.len() {
            Some(item as int)
        } else {
            None
        }
    } else {
        spec_find_first_id(items, item)
    }
}

/// The state word read through a [`SetItem`]: the item's state, or
/// [`MENU_STATE_MISSING`] when the selector matches nothing, as the
/// native query reports.
pub open spec fn spec_get_state(items: Seq<MenuEntry>, item: u32, by_position: bool) -> u32 {
    match spec_find_item(items, item, by_position) {
        Some(i) => items[i].state,
        None => MENU_STATE_MISSING,
    }
}

impl Menu {
    /// An empty menu.
    pub fn create_menu() -> (m: Menu)
        ensures
            m@.len() == 0,
    {
        Menu { items: Vec::new() }
    }

    /// An empty popup menu.
    pub fn create_popup_menu() -> (m: Menu)
        ensures
            m@.len() == 0,
    {
        Menu { items: Vec::new() }
    }

    /// Append one item. The entry records the identifier and the flag
    /// word the native append call receives; an item that opens a
    /// submenu is marked as a popup. The initial state of the item is its
    /// flag word, which is how the native menu reports it back.
    ///
    /// The model keeps what the state logic reads: identifier and state
    /// word. The label text and a popup's own entries are presentation
    /// data the native menu keeps; in particular, where the native
    /// append call would receive the consumed submenu's handle in place
    /// of the identifier, the model keeps the application identifier,
    /// since no native handle exists here.
    pub fn append_menu(&mut self, item: MenuItem<'_>)
        requires
            old(self)@.len() < usize::MAX,
        ensures
            final(self)@ == old(self)@.push(
                MenuEntry {
                    id: item.id,
                    state: spec_append_flags(
                        item.enabled,
                        item.grayed,
                        item.separator,
                        item.checked,
                        item.string is Some,
                        item.submenu is Some,
                    ),
                },
            ),
    {
        let mut flags: u32 = if item.enabled {
            MF_ENABLED
        } else {
            MF_DISABLED
        };
        flags = flags | (if item.grayed {
            MF_GRAYED
        } else {
            0
        });
        flags = flags | (if item.separator {
            MF_SEPARATOR
        } else {
            0
        });
        flags = flags | (if item.checked {
            MF_CHECKED
        } else {
            0
        });
        flags = flags | (if item.string.is_some() {
            MF_STRING
        } else {
            0
        });
        flags = flags | (if item.submenu.is_some() {
            MF_POPUP
        } else {
            0
        });
        self.items.push(MenuEntry { id: item.id, state: flags });
    }

    /// Address the item at a position, counted from zero.
    pub fn item_by_index(&self, index: u32) -> (r: SetItem)
        ensures
            r.item == index,
            r.by_position,
    {
        SetItem { item: index, by_position: true }
    }

    /// Address the first item with an identifier.
    pub fn item_by_id(&self, id: u32) -> (r: SetItem)
        ensures
            r.item == id,
            !r.by_position,
    {
        SetItem { item: id, by_position: false }
    }
}

/// Addresses one menu item, by position or by identifier, for reading
/// and writing its state word.
#[derive(Copy, Clone, Eq, PartialEq, Structural, Debug)]
pub struct SetItem {
    /// Position or identifier, as `by_position` says.
    pub item: u32,
    /// Whether `item` is a position (true) or an identifier (false).
    pub by_position: bool,
}

impl SetItem {
    fn find(&self, menu: &Menu) -> (r: Option<usize>)
        ensures
            r is Some <==> spec_find_item(menu@, self.item, self.by_position) is Some,
            r is Some ==> r->Some_0 as int == spec_find_item(
                menu@,
                self.item,
                self.by_position,
            )->Some_0,
            r is Some ==> (r->Some_0 as int) < menu@.len(),
    {
        if self.by_position {
            if (self.item as usize) < menu.items.len() {
                Some(self.item as usize)
            } else {
                None
            }
        } else {
            let mut i: usize = 0;
            while i < menu.items.len()
                invariant
                    !self.by_position,
                    0 <= i <= menu@.len(),
                    forall|j: int| 0 <= j < i ==> (#[trigger] menu@[j]).id != self.item,
                decreases menu@.len() - i,
            {
                if menu.items[i].id == self.item as usize {
                    proof {
                        assert(spec_is_first_with_id(menu@, self.item, i as int));
                        lemma_find_first_id_characterizes(menu@, self.item);
                        match spec_find_first_id(menu@, self.item) {
                            Some(w) => {
                                lemma_first_with_id_unique(menu@, self.item, w, i as int);
                            },
                            None => {},
                        }
                    }
                    return Some(i);
                }
                i += 1;
            }
            proof {
                lemma_find_first_id_characterizes(menu@, self.item);
                match spec_find_first_id(menu@, self.item) {
                    Some(w) => {
                        assert(menu@[w].id == self.item);
                    },
                    None => {},
                }
            }
            None
        }
    }

    /// Read the state word: the item's state, or [`MENU_STATE_MISSING`]
    /// when the selector matches nothing.
    pub fn get_state(&self, menu: &Menu) -> (r: u32)
        ensures
            r == spec_get_state(menu@, self.item, self.by_position),
    {
        match self.find(menu) {
            Some(i) => menu.items[i].state,
            None => MENU_STATE_MISSING,
        }
    }

    /// Overwrite the state word of the addressed item; a selector that
    /// matches nothing changes nothing, as the failed native call would.
    pub fn set_state(&self, menu: &mut Menu, new_state: u32)
        ensures
            final(menu)@ == (match spec_find_item(old(menu)@, self.item, self.by_position) {
                Some(i) => old(menu)@.update(
                    i,
                    MenuEntry { state: new_state, ..old(menu)@[i] },
                ),
                None => old(menu)@,
            }),
    {
        match self.find(menu) {
            Some(i) => {
                menu.items[i].state = new_state;
            },
            None => {},
        }
    }

    /// Replace the masked bits of the state word: the new state is the
    /// old one with `mask` cleared and `value` set.
    pub fn set_state_bits(&self, menu: &mut Menu, mask: u32, value: u32)
        ensures
            final(menu)@ == (match spec_find_item(old(menu)@, self.item, self.by_position) {
                Some(i) => old(menu)@.update(
                    i,
                    MenuEntry {
                        state: (spec_get_state(old(menu)@, self.item, self.by_position) & !mask)
                            | value,
                        ..old(menu)@[i]
                    },
                ),
                None => old(menu)@,
            }),
    {
        let old_state = self.get_state(menu);
        let new_state = (old_state & !mask) | value;
        self.set_state(menu, new_state);
    }

    /// Whether the addressed item carries a check mark. An item that
    /// does not exist reads as checked, through the missing-state word,
    /// exactly as the native query behaves.
    pub fn checked(&self, menu: &Menu) -> (r: bool)
        ensures
            r == (spec_get_state(menu@, self.item, self.by_position) & MFS_CHECKED != 0),
    {
        self.get_state(menu) & MFS_CHECKED != 0
    }

    /// Set or clear the check mark of the addressed item.
    pub fn set_checked(&self, menu: &mut Menu, value: bool)
        ensures
            final(menu)@ == (match spec_find_item(old(menu)@, self.item, self.by_position) {
                Some(i) => old(menu)@.update(
                    i,
                    MenuEntry {
                        state: (spec_get_state(old(menu)@, self.item, self.by_position)
                            & !MFS_CHECKED) | (if value {
                            MFS_CHECKED
                        } else {
                            0
                        }),
                        ..old(menu)@[i]
                    },
                ),
                None => old(menu)@,
            }),
    {
        self.set_state_bits(
            menu,
            MFS_CHECKED,
            if value {
                MFS_CHECKED
            } else {
                0
            },
        );
    }

    /// Whether the addressed item can be selected. An item that does not
    /// exist reads as disabled, through the missing-state word.
    pub fn enabled(&self, menu: &Menu) -> (r: bool)
        ensures
            r == (spec_get_state(menu@, self.item, self.by_position) & MFS_DISABLED == 0),
    {
        self.get_state(menu) & MFS_DISABLED == 0
    }

    /// Enable or disable the addressed item.
    pub fn set_enabled(&self, menu: &mut Menu, value: bool)
        ensures
            final(menu)@ == (match spec_find_item(old(menu)@, self.item, self.by_position) {
                Some(i) => old(menu)@.update(
                    i,
                    MenuEntry {
                        state: (spec_get_state(old(menu)@, self.item, self.by_position)
                            & !MFS_DISABLED) | (if value {
                            MFS_ENABLED
                        } else {
                            MFS_DISABLED
                        }),
                        ..old(menu)@[i]
                    },
                ),
                None => old(menu)@,
            }),
    {
        self.set_state_bits(
            menu,
            MFS_DISABLED,
            if value {
                MFS_ENABLED
            } else {
                MFS_DISABLED
            },
        );
    }
}

/// Setting and clearing the check mark through a selector round-trips:
/// after `set_checked(value)` on an item that exists, `checked()` reads
/// back exactly `value`, and no other item changed.
pub proof fn lemma_set_checked_reads_back(items: Seq<MenuEntry>, item: u32, by_position: bool, value: bool)
    requires
        spec_find_item(items, item, by_position) is Some,
    ensures
        ({
            let i = spec_find_item(items, item, by_position)->Some_0;
            let after = items.update(
                i,
                MenuEntry {
                    state: (spec_get_state(items, item, by_position) & !MFS_CHECKED) | (
                    if value {
                        MFS_CHECKED
                    } else {
                        0
                    }),
                    ..items[i]
                },
            );
            &&& (spec_get_state(after, item, by_position) & MFS_CHECKED != 0) == value
            &&& forall|j: int| 0 <= j < items.len() && j != i ==> after[j] == items[j]
        }),
{
    let i = spec_find_item(items, item, by_position)->Some_0;
    if !by_position {
        lemma_find_first_id_characterizes(items, item);
        assert(spec_is_first_with_id(items, item, i));
    }
    assert(0 <= i < items.len());
    let s0 = spec_get_state(items, item, by_position);
    assert(s0 == items[i].state);
    let s1 = (s0 & !MFS_CHECKED) | (if value {
        MFS_CHECKED
    } else {
        0
    });
    let after = items.update(
        i,
        MenuEntry { state: s1, ..items[i] },
    );
    assert(spec_find_item(after, item, by_position) == Some(i)) by {
        if !by_position {
            lemma_find_first_id_characterizes(items, item);
            assert(spec_is_first_with_id(items, item, i));
            assert forall|j: int| 0 <= j < after.len() implies (#[trigger] after[j]).id
                == items[j].id by {}
            assert(spec_is_first_with_id(after, item, i));
            lemma_find_first_id_characterizes(after, item);
            match spec_find_first_id(after, item) {
                Some(w) => {
                    lemma_first_with_id_unique(after, item, w, i);
                },
                None => {
                    assert(after[i].id == item);
                },
            }
        }
    }
    assert(spec_get_state(after, item, by_position) == after[i].state);
    assert(after[i].state == s1);
    if value {
        assert((s0 & !0x8u32) | 0x8u32 == s1);
        assert(s1 & 0x8 != 0) by (bit_vector)
            requires
                s1 == (s0 & !0x8u32) | 0x8u32,
        ;
    } else {
        assert(s1 & 0x8 == 0) by (bit_vector)
            requires
                s1 == (s0 & !0x8u32) | 0u32,
        ;
    }
}

} // verus!
