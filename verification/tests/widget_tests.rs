//! Behaviour of the plain widget value types.

use forms::brush::{Brush, SysColor, SystemBrush};
use forms::button::CheckState;
use forms::color::ColorRef;
use forms::control::{Command, ControlId, CreateControlOptions};
use forms::font::{FontBuilder, FontQuality};
use forms::list_view::Mode;
use forms::menu::{Menu, MenuItem};
use forms::msg::{wparam_hiword, wparam_loword, ModifierKeys};
use forms::prop_sheet::{PropertyPageBuilder, PropertySheet};
use forms::tree::Tree;
use forms::window::WindowHandle;

#[test]
fn color_from_rgb_packs_red_low() {
    // Parameter order is red, blue, green, as the builder declares it.
    let c = ColorRef::from_rgb(0x12, 0x56, 0x34);
    assert_eq!(c.as_u32(), 0x0056_3412);
}

#[test]
fn color_from_u32_rgb_swaps_red_and_blue() {
    let c = ColorRef::from_u32_rgb(0x0012_3456);
    assert_eq!(c.as_u32(), 0x0056_3412);
    assert_eq!(ColorRef::from_u32_rgb(0xFF00_00FF).as_u32(), 0x00FF_0000);
}

#[test]
fn color_from_u32_bgr_is_kept_verbatim() {
    let c = ColorRef::from_u32_bgr(0x0102_0304);
    assert_eq!(c.as_u32(), 0x0102_0304);
}

#[test]
fn check_state_round_trips_through_native_words() {
    for s in [CheckState::Checked, CheckState::Unchecked, CheckState::Indeterminate] {
        assert_eq!(CheckState::from_bst(s.to_bst()), s);
    }
    assert_eq!(CheckState::from_bst(0), CheckState::Unchecked);
    assert_eq!(CheckState::from_bst(1), CheckState::Checked);
    assert_eq!(CheckState::from_bst(2), CheckState::Indeterminate);
    assert_eq!(CheckState::from_bst(7), CheckState::Indeterminate);
}

#[test]
fn list_view_modes_encode_to_native_words() {
    assert_eq!(Mode::Icon.to_native(), 0);
    assert_eq!(Mode::Details.to_native(), 1);
    assert_eq!(Mode::SmallIcon.to_native(), 2);
    assert_eq!(Mode::List.to_native(), 3);
    assert_eq!(Mode::Tile.to_native(), 4);
}

#[test]
fn font_quality_encodes_to_native_words() {
    assert_eq!(FontQuality::Default.to_native(), 0);
    assert_eq!(FontQuality::Draft.to_native(), 1);
    assert_eq!(FontQuality::Proof.to_native(), 2);
    assert_eq!(FontQuality::NonAntiAliased.to_native(), 3);
    assert_eq!(FontQuality::AntiAliased.to_native(), 4);
    assert_eq!(FontQuality::ClearType.to_native(), 5);
}

#[test]
fn font_builder_chains_its_switches() {
    let mut b = FontBuilder::new("Segoe UI", 22);
    assert!(!b.italic && !b.underline && !b.strikeout);
    assert_eq!(b.quality, FontQuality::ClearType);
    b.italic().underline();
    assert!(b.italic);
    assert!(b.underline);
    assert!(!b.strikeout);
    assert_eq!(b.height, 22);
    assert_eq!(b.face_name, "Segoe UI");
}

#[test]
fn wparam_words_split_low_and_high() {
    assert_eq!(wparam_loword(0x0004_0003), 3);
    assert_eq!(wparam_hiword(0x0004_0003), 4);
    assert_eq!(wparam_loword(0xFFFF_FFFF), 0xFFFF);
    assert_eq!(wparam_hiword(0x1234_5678), 0x1234);
}

#[test]
fn modifier_keys_decode_their_bits() {
    let m = ModifierKeys::from_wparam(0x0008 | 0x0001);
    assert!(m.control());
    assert!(m.lbutton());
    assert!(!m.shift());
    assert!(!m.mbutton());
    assert!(!m.rbutton());
    let all = ModifierKeys(0x1F);
    assert!(all.control() && all.shift() && all.lbutton() && all.mbutton() && all.rbutton());
}

#[test]
fn menu_append_records_the_native_flag_word() {
    let mut menu = Menu::create_menu();
    menu.append_menu(MenuItem::separator());
    menu.append_menu(MenuItem {
        checked: true,
        string: Some("Open"),
        id: 41,
        ..Default::default()
    });
    // A separator: MF_SEPARATOR alone.
    assert_eq!(menu.item_by_index(0).get_state(&menu), 0x800);
    // A checked text item: MF_CHECKED; MF_ENABLED and MF_STRING are zero.
    assert_eq!(menu.item_by_index(1).get_state(&menu), 0x8);
}

#[test]
fn menu_check_mark_round_trips() {
    let mut menu = Menu::create_popup_menu();
    menu.append_menu(MenuItem { id: 7, ..Default::default() });
    let by_id = menu.item_by_id(7);
    assert!(!by_id.checked(&menu));
    by_id.set_checked(&mut menu, true);
    assert!(by_id.checked(&menu));
    by_id.set_checked(&mut menu, false);
    assert!(!by_id.checked(&menu));
}

#[test]
fn menu_enable_and_disable() {
    let mut menu = Menu::create_menu();
    menu.append_menu(MenuItem { id: 1, ..Default::default() });
    let item = menu.item_by_index(0);
    assert!(item.enabled(&menu));
    item.set_enabled(&mut menu, false);
    assert!(!item.enabled(&menu));
    item.set_enabled(&mut menu, true);
    assert!(item.enabled(&menu));
}

#[test]
fn missing_menu_item_reads_the_native_failure_word() {
    let menu = Menu::create_menu();
    // The native query reports all bits set for a missing item, so it
    // reads as checked and as disabled.
    assert_eq!(menu.item_by_index(3).get_state(&menu), 0xFFFF_FFFF);
    assert!(menu.item_by_id(9).checked(&menu));
    assert!(!menu.item_by_id(9).enabled(&menu));
}

#[test]
fn tree_add_get_and_iterate() {
    let mut tree = Tree::new(String::from("root"));
    let root = tree.root();
    let a = root.add(&mut tree, String::from("a"));
    let b = root.add(&mut tree, String::from("b"));
    assert_eq!(root.get(&tree), "root");
    assert_eq!(a.get(&tree), "a");
    assert_eq!(b.get(&tree), "b");

    let mut names = Vec::new();
    let mut it = root.iter();
    while let Some(child) = it.next(&tree) {
        names.push(child.get(&tree).clone());
    }
    assert_eq!(names, vec![String::from("a"), String::from("b")]);
}

#[test]
fn tree_remove_detaches_only_the_first_occurrence_target() {
    let mut tree = Tree::new(0u32);
    let root = tree.root();
    let a = root.add(&mut tree, 1);
    let b = root.add(&mut tree, 2);
    let c = root.add(&mut tree, 3);
    b.remove(&mut tree);

    let mut values = Vec::new();
    let mut it = root.iter();
    while let Some(child) = it.next(&tree) {
        values.push(*child.get(&tree));
    }
    assert_eq!(values, vec![1, 3]);

    // Removing the root changes nothing; removing a detached node again
    // changes nothing either.
    root.remove(&mut tree);
    b.remove(&mut tree);
    let mut again = Vec::new();
    let mut it = root.iter();
    while let Some(child) = it.next(&tree) {
        again.push(*child.get(&tree));
    }
    assert_eq!(again, vec![1, 3]);
    assert_eq!(*a.get(&tree), 1);
    assert_eq!(*c.get(&tree), 3);
}

#[test]
fn tree_nested_children() {
    let mut tree = Tree::new('r');
    let root = tree.root();
    let a = root.add(&mut tree, 'a');
    let aa = a.add(&mut tree, 'x');
    assert_eq!(*aa.get(&tree), 'x');
    let mut it = a.iter();
    let first = it.next(&tree).unwrap();
    assert_eq!(*first.get(&tree), 'x');
    assert!(it.next(&tree).is_none());
}

#[test]
fn system_brushes_carry_their_colour() {
    assert_eq!(
        Brush::from_sys_color(SysColor::Menu),
        Ok(Brush::System(SystemBrush(SysColor::Menu)))
    );
    assert_eq!(SysColor::Window.to_index(), 5);
    assert_eq!(SysColor::ActiveBorder.to_index(), 10);
    assert_eq!(SysColor::HotLight.to_index(), 26);
}

#[test]
fn property_sheet_builder_counts_pages() {
    let b = PropertySheet::builder();
    assert_eq!(b.page_count(), 0);
    let b = b.page(PropertyPageBuilder {}).page(PropertyPageBuilder {});
    assert_eq!(b.page_count(), 2);
}

#[test]
fn window_handle_round_trips() {
    let w = WindowHandle::from_handle(0x1234);
    assert_eq!(w.handle(), 0x1234);
}

#[test]
fn gui_facade_constructs() {
    let gui = forms::asyncui::new_gui();
    let _w = gui.new_window();
    gui.quit();
}

#[test]
fn option_defaults_are_all_off() {
    let e = forms::options::EditOptions::default();
    assert!(!e.multiline && !e.readonly && !e.vertical_scrollbar);
    assert!(!e.no_hide_selection && !e.want_return);
    let t = forms::options::TextBoxOptions::default();
    assert!(!t.multiline && !t.readonly && !t.vertical_scrollbar);
    let tv = forms::options::TreeViewOptions::default();
    assert!(!tv.has_buttons && !tv.has_lines && !tv.checkboxes);
}

#[test]
fn identifier_and_style_values_behave_as_plain_data() {
    let id = ControlId(7);
    assert_eq!(id, ControlId(7));
    assert!(ControlId(1) < ControlId(2));
    assert_eq!(Command(3), Command(3));

    let opts = CreateControlOptions::default();
    assert_eq!((opts.x, opts.y, opts.width, opts.height), (0, 0, 0, 0));

    let n = forms::notify::Notify::ListViewItemActivate(forms::list_view::ItemActivated {
        item: 4,
    });
    match n {
        forms::notify::Notify::ListViewItemActivate(a) => assert_eq!(a.item, 4),
        forms::notify::Notify::ListViewColumnClick(_) | forms::notify::Notify::Unknown => {
            panic!("wrong variant")
        }
    }

    let s = forms::style::StyleColor::SysColor(SysColor::Window);
    assert_eq!(s, forms::style::StyleColor::SysColor(SysColor::Window));
}
