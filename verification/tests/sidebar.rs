use zynk::geometry::Rect;
use zynk::sidebar::{
    nearest_slot, scroll_list, AgentEntry, Card, MenuItem, ScrollbarClickTarget, ScrollbarRow,
    SidebarScroll, SidebarView, SidebarWidth, VisibleRow,
};

fn view() -> SidebarView {
    SidebarView {
        sidebar: Rect::new(0, 0, 26, 20),
        collapsed: false,
        list_area: Rect::new(0, 0, 25, 10),
        detail_area: Rect::new(0, 10, 25, 10),
        collapsed_list: Rect::empty(),
        collapsed_detail: Rect::empty(),
        expanded_toggle: Rect::new(25, 19, 1, 1),
        collapsed_toggle: Rect::empty(),
        section_divider: Rect::new(0, 10, 25, 1),
        sort_toggle: Rect::new(15, 11, 8, 1),
        screen: Rect::new(0, 0, 106, 20),
        mobile: false,
        mobile_menu: Rect::new(90, 0, 10, 1),
        agent_view_active: false,
        update_available: false,
        release_notes_available: false,
        attention_badge: false,
        update_badge: false,
    }
}

fn width() -> SidebarWidth {
    SidebarWidth { width: 26, min: 18, max: 60, manual: false, session_dirty: false }
}

#[test]
fn update_pending_menu_surfaces_update_ready_entry() {
    let mut v = view();
    v.update_available = true;
    v.release_notes_available = true;
    assert_eq!(
        v.global_menu_labels(),
        vec!["settings", "keybinds", "reload config", "update ready", "detach"]
    );
}

#[test]
fn persistence_mode_menu_surfaces_detach_action() {
    let v = view();
    assert_eq!(
        v.global_menu_labels(),
        vec!["settings", "keybinds", "reload config", "detach"]
    );
    let menu = v.global_menu_rect();
    assert_eq!(v.global_menu_items()[3], MenuItem::Detach);
    assert_eq!(menu.height, 6);
}

#[test]
fn whats_new_remains_in_menu_for_latest_installed_release_notes() {
    let mut v = view();
    v.release_notes_available = true;
    assert_eq!(
        v.global_menu_labels(),
        vec!["settings", "keybinds", "reload config", "what's new", "detach"]
    );
}

#[test]
fn the_footer_holds_the_launcher_and_the_new_button() {
    let mut v = view();
    assert_eq!(v.workspace_list_rect(), v.list_area);
    assert_eq!(v.agent_panel_rect(), v.detail_area);
    assert_eq!(v.sidebar_footer_rect(), Rect::new(0, 9, 25, 1));
    assert_eq!(v.sidebar_new_button_rect(), Rect::new(0, 9, 5, 1));
    assert_eq!(v.global_launcher_rect(), Rect::new(19, 9, 6, 1));
    v.attention_badge = true;
    assert_eq!(v.global_launcher_rect(), Rect::new(17, 9, 8, 1));
    v.attention_badge = false;
    // "reload config" is the widest entry: thirteen cells and a margin of four.
    assert_eq!(v.global_menu_rect(), Rect::new(19, 3, 17, 6));
    v.update_available = true;
    v.update_badge = true;
    assert_eq!(v.global_menu_rect().width, 18);
    v.screen = Rect::new(0, 0, 12, 4);
    let small = v.global_menu_rect();
    assert_eq!((small.x, small.width, small.height), (0, 12, 4));
    v.mobile = true;
    assert_eq!(v.global_launcher_rect(), v.mobile_menu);
    v.mobile = false;
    v.collapsed = true;
    assert_eq!(v.workspace_list_rect(), Rect::empty());
    assert_eq!(v.agent_panel_rect(), Rect::empty());
    assert_eq!(v.sidebar_footer_rect(), Rect::empty());
    assert_eq!(v.global_launcher_rect(), Rect::new(0, 0, 1, 0));
}

#[test]
fn dragging_sidebar_divider_sets_manual_width() {
    let v = view();
    assert!(v.on_sidebar_divider(25, 5));
    let mut w = width();
    w.set_manual_sidebar_width(v.sidebar.x, 30);
    assert_eq!(w.width, 31);
    assert!(w.manual && w.session_dirty);
}

#[test]
fn dragging_sidebar_bottom_divider_still_sets_manual_width() {
    let mut v = view();
    v.expanded_toggle = Rect::new(24, 19, 1, 1);
    let divider_col = v.sidebar.x + v.sidebar.width - 1;
    let bottom_row = v.sidebar.y + v.sidebar.height - 1;
    assert!(v.on_sidebar_divider(divider_col, bottom_row));
    let mut w = width();
    w.set_manual_sidebar_width(v.sidebar.x, divider_col + 5);
    assert_eq!(w.width, 31);
}

#[test]
fn dragging_past_max_clamps_to_configured_max() {
    let mut w = width();
    w.max = 30;
    w.set_manual_sidebar_width(0, 50);
    assert_eq!(w.width, 30);
}

#[test]
fn dragging_below_min_clamps_to_configured_min() {
    let mut w = width();
    w.min = 22;
    w.set_manual_sidebar_width(0, 5);
    assert_eq!(w.width, 22);
    w.max = u16::MAX;
    w.set_manual_sidebar_width(0, u16::MAX);
    assert_eq!(w.width, u16::MAX);
}

#[test]
fn dragging_sidebar_section_divider_sets_split_ratio() {
    let mut v = view();
    assert!(v.on_sidebar_section_divider(1, 10));
    let (down, of) = v.section_split_at(14).unwrap();
    assert_eq!((down, of), (14, 20));
    assert!(f32::from(down) / f32::from(of) > 0.5);
    v.sidebar.height = 5;
    assert_eq!(v.section_split_at(14), None);
}

#[test]
fn hidden_collapsed_sidebar_has_no_mouse_expand_hotspot() {
    let mut v = view();
    v.collapsed = true;
    v.sidebar = Rect::new(0, 0, 0, 20);
    v.collapsed_toggle = Rect::new(0, 19, 0, 1);
    assert!(!v.on_sidebar_toggle(0, 19));
    v.collapsed_toggle = Rect::new(0, 19, 4, 1);
    assert!(v.on_sidebar_toggle(3, 19));
    assert!(!v.on_sidebar_divider(3, 19));
    assert!(!v.on_sidebar_section_divider(1, 10));
    assert!(!v.on_agent_panel_sort_toggle(16, 11));
}

#[test]
fn toggles_are_hit_in_their_areas_only() {
    let mut v = view();
    assert!(v.on_sidebar_toggle(25, 19));
    assert!(!v.on_sidebar_divider(25, 19), "the toggle is not the divider");
    assert!(v.on_agent_panel_sort_toggle(15, 11));
    assert!(!v.on_agent_panel_sort_toggle(23, 11));
    assert!(!v.on_sidebar_divider(25, 20));
    v.agent_view_active = true;
    assert!(!v.on_sidebar_divider(25, 5));
}

#[test]
fn agent_detail_target_at_matches_visible_row_model() {
    let v = view();
    let entries = vec![
        AgentEntry { ws_idx: 0, tab_idx: 0, pane_id: 1 },
        AgentEntry { ws_idx: 0, tab_idx: 1, pane_id: 2 },
    ];
    let rows = vec![
        VisibleRow::GroupHeader { y: 13 },
        VisibleRow::Child { entry_idx: 0, y: 14, height: 2 },
        VisibleRow::Child { entry_idx: 1, y: 17, height: 1 },
        VisibleRow::Child { entry_idx: 9, y: 18, height: 1 },
    ];
    for (row, expected) in [
        (13, None),
        (14, Some(entries[0])),
        (15, Some(entries[0])),
        (16, None),
        (17, Some(entries[1])),
        (18, None),
    ] {
        assert_eq!(v.agent_detail_target_at(row, &rows, &entries), expected, "row {row}");
    }
    let mut collapsed = view();
    collapsed.collapsed = true;
    assert_eq!(collapsed.agent_detail_target_at(14, &rows, &entries), None);
    collapsed.collapsed_detail = Rect::new(0, 5, 4, 3);
    for (row, expected) in
        [(4, None), (5, Some(entries[0])), (6, Some(entries[1])), (7, None)]
    {
        assert_eq!(collapsed.collapsed_agent_detail_target_at(row, &entries), expected);
    }
    assert_eq!(view().collapsed_agent_detail_target_at(5, &entries), None);
}

fn cards(order: &[(usize, u16)]) -> Vec<Card> {
    order
        .iter()
        .map(|&(ws_idx, y)| Card { rect: Rect::new(0, y, 25, 1), ws_idx })
        .collect()
}

#[test]
fn rows_are_mapped_to_workspaces() {
    let mut v = view();
    let list = cards(&[(0, 1), (2, 2), (1, 4)]);
    assert_eq!(v.workspace_at_row(2, &list), Some(2));
    assert_eq!(v.workspace_at_row(3, &list), None);
    assert_eq!(v.workspace_at_row(4, &list), Some(1));
    v.collapsed = true;
    assert_eq!(v.workspace_at_row(2, &list), None);
    v.collapsed_list = Rect::new(0, 2, 4, 5);
    assert_eq!(v.collapsed_workspace_at_row(2, 3), Some(0));
    assert_eq!(v.collapsed_workspace_at_row(4, 3), Some(2));
    assert_eq!(v.collapsed_workspace_at_row(5, 3), None);
    assert_eq!(v.collapsed_workspace_at_row(1, 3), None);
    assert_eq!(view().collapsed_workspace_at_row(2, 3), None);
}

#[test]
fn grouped_sidebar_drop_slots_do_not_land_inside_compact_group() {
    let v = view();
    // main and issue share a repository and are drawn together; normal comes after them.
    let list = cards(&[(0, 1), (2, 2), (1, 3)]);
    let groups = vec![Some("repo-key".into()), None, Some("repo-key".into())];
    let rows = vec![Some(1), Some(3), Some(4)];
    assert_eq!(v.workspace_drop_index_at_row(2, &list, &groups, &rows), Some(1));
    assert_eq!(v.workspace_drop_index_at_row(1, &list, &groups, &rows), Some(0));
    assert_eq!(v.workspace_drop_index_at_row(8, &list, &groups, &rows), Some(2));
    assert_eq!(v.workspace_drop_index_at_row(9, &list, &groups, &rows), None, "the footer");
    assert_eq!(v.workspace_drop_index_at_row(2, &vec![], &groups, &rows), Some(0));
    assert_eq!(v.workspace_drop_index_at_row(2, &list, &groups, &vec![None, None]), None);
}

#[test]
fn the_nearest_slot_wins_and_ties_go_down() {
    let rows = vec![Some(2), Some(6), None, Some(10)];
    assert_eq!(nearest_slot(&vec![0, 1, 3], &rows, 3), Some(0));
    assert_eq!(nearest_slot(&vec![0, 1, 3], &rows, 4), Some(1));
    assert_eq!(nearest_slot(&vec![3, 1, 0], &rows, 8), Some(3));
    assert_eq!(nearest_slot(&vec![2, 9], &rows, 8), None);
}

#[test]
fn scrollbars_are_grabbed_or_jumped() {
    let v = view();
    let bar = |thumb_grab| ScrollbarRow {
        track: Some(Rect::new(24, 2, 1, 6)),
        thumb_grab,
        offset_from_bottom: 7,
    };
    assert_eq!(
        v.scrollbar_target_at(24, 3, bar(Some(1))),
        Some(ScrollbarClickTarget::Thumb { grab_row_offset: 1 })
    );
    assert_eq!(
        v.scrollbar_target_at(24, 3, bar(None)),
        Some(ScrollbarClickTarget::Track { offset_from_bottom: 7 })
    );
    assert_eq!(v.scrollbar_target_at(23, 3, bar(None)), None);
    assert_eq!(v.scrollbar_target_at(24, 8, bar(None)), None);
    let none = ScrollbarRow { track: None, ..bar(None) };
    assert_eq!(v.scrollbar_target_at(24, 3, none), None);
}

#[test]
fn the_wheel_scrolls_within_the_list() {
    assert_eq!(scroll_list(3, -5, 10), 0);
    assert_eq!(scroll_list(3, 5, 10), 8);
    assert_eq!(scroll_list(8, 5, 10), 10);
    assert_eq!(scroll_list(usize::MAX, 1, usize::MAX), usize::MAX);
    assert_eq!(scroll_list(40_000, i16::MIN, 50_000), 40_000 - 32_768);
    let mut scroll = SidebarScroll { workspace_scroll: 1, agent_panel_scroll: 1 };
    let same: Vec<usize> = (0..=10).collect();
    scroll.scroll_workspace_list(3, 10, &same);
    scroll.scroll_agent_panel(-1, 10);
    assert_eq!((scroll.workspace_scroll, scroll.agent_panel_scroll), (4, 0));
    scroll.set_workspace_list_offset_from_bottom(10, 4, &same);
    scroll.set_agent_panel_offset_from_bottom(3, 4);
    assert_eq!((scroll.workspace_scroll, scroll.agent_panel_scroll), (6, 0));
}

#[test]
fn scroll_positions_follow_the_list_as_drawn() {
    let even: Vec<usize> = (0..=10).map(|scroll| scroll - scroll % 2).collect();
    let mut scroll = SidebarScroll { workspace_scroll: 2, agent_panel_scroll: 0 };
    scroll.scroll_workspace_list(3, 10, &even);
    assert_eq!(scroll.workspace_scroll, 4);
    scroll.scroll_workspace_list(-1, 10, &even);
    assert_eq!(scroll.workspace_scroll, 2);
    scroll.set_workspace_list_offset_from_bottom(10, 3, &even);
    assert_eq!(scroll.workspace_scroll, 6);
    scroll.scroll_workspace_list(1, 50, &vec![]);
    assert_eq!(scroll.workspace_scroll, 7, "a position that nothing is said of stays");
    scroll.set_workspace_list_offset_from_bottom(50, 1, &even);
    assert_eq!(scroll.workspace_scroll, 49);
}

#[test]
fn the_toggle_is_no_part_of_the_divider() {
    let v = view();
    for row in 0..20 {
        for col in 0..27 {
            assert!(!(v.on_sidebar_divider(col, row) && v.on_sidebar_toggle(col, row)));
        }
    }
    assert!(v.on_sidebar_divider(25, 18));
    assert!(v.on_sidebar_toggle(25, 19));
}

#[test]
fn the_menu_fits_a_narrow_screen() {
    let mut v = view();
    v.update_available = true;
    v.update_badge = true;
    for width in 1..40 {
        v.screen = Rect::new(0, 0, width, 20);
        let menu = v.global_menu_rect();
        assert!(menu.x + menu.width <= width);
        assert_eq!(menu.y + menu.height, v.global_launcher_rect().y);
    }
}
