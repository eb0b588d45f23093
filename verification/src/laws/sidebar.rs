//! Laws on the sidebar: where its parts are, and what a click, a wheel or a drag in it comes to.

use vstd::prelude::*;
use crate::geometry::Rect;
use crate::sidebar::{
    beyond, drop_slots, group_of, is_nearest, item_width, least, menu_items, most, normalized,
    row_entry, scrollbar_hit, slot_row, slots_before, splits_group, wheeled, widest, AgentEntry,
    Card, MenuItem, ScrollbarClickTarget, ScrollbarRow, SidebarView, SidebarWidth, VisibleRow,
};

verus! {

/// The lesser and the greater of two numbers, and what one is beyond the other.
pub proof fn law_of_two_numbers(a: int, b: int)
    ensures
        least(a, b) <= a && least(a, b) <= b && (least(a, b) == a || least(a, b) == b),
        most(a, b) >= a && most(a, b) >= b && (most(a, b) == a || most(a, b) == b),
        beyond(a, b) == most(a - b, 0),
{
}

// ---------------------------------------------------------------------------------------------
// The menu
// ---------------------------------------------------------------------------------------------

/// The menu begins with the settings, the keys and the configuration, and ends with detaching. It
/// speaks of an update that is ready, and otherwise of what is new where there are notes on it.
pub proof fn law_what_the_menu_offers(update: bool, notes: bool, item: MenuItem)
    ensures
        menu_items(update, notes)[0] == MenuItem::Settings,
        menu_items(update, notes)[1] == MenuItem::Keybinds,
        menu_items(update, notes)[2] == MenuItem::ReloadConfig,
        menu_items(update, notes).last() == MenuItem::Detach,
        menu_items(update, notes).contains(MenuItem::UpdateReady) <==> update,
        menu_items(update, notes).contains(MenuItem::WhatsNew) <==> notes && !update,
        menu_items(update, notes).len() == if update || notes {
            5int
        } else {
            4
        },
        menu_items(update, notes).no_duplicates(),
{
    let items = menu_items(update, notes);
    if update {
        assert(items[3] == MenuItem::UpdateReady);
    } else if notes {
        assert(items[3] == MenuItem::WhatsNew);
    }
}

/// The entries are called by their names.
pub proof fn law_menu_labels()
    ensures
        MenuItem::Settings.spec_label() == "settings"@,
        MenuItem::Keybinds.spec_label() == "keybinds"@,
        MenuItem::ReloadConfig.spec_label() == "reload config"@,
        MenuItem::UpdateReady.spec_label() == "update ready"@,
        MenuItem::WhatsNew.spec_label() == "what's new"@,
        MenuItem::Detach.spec_label() == "detach"@,
{
}

/// An entry takes a cell for each character, and two more for its badge where it speaks of an update
/// that is to be looked at.
pub proof fn law_cells_of_an_entry(item: MenuItem, badge: bool)
    ensures
        item_width(item, badge) == item.spec_label().len() + if badge && (item
            == MenuItem::UpdateReady || item == MenuItem::WhatsNew) {
            2int
        } else {
            0
        },
{
}

/// No entry is wider than the widest, and some entry is as wide.
pub proof fn law_the_widest_entry(items: Seq<MenuItem>, badge: bool)
    ensures
        forall|i: int|
            0 <= i < items.len() ==> item_width(#[trigger] items[i], badge) <= widest(items, badge),
        items.len() > 0 ==> exists|i: int|
            0 <= i < items.len() && item_width(#[trigger] items[i], badge) == widest(items, badge),
        items.len() == 0 ==> widest(items, badge) == 0,
    decreases items.len(),
{
    if items.len() > 0 {
        let head = items.drop_last();
        let n = items.len() - 1;
        law_the_widest_entry(head, badge);
        assert(items[n] == items.last());
        assert forall|i: int| 0 <= i < items.len() implies item_width(#[trigger] items[i], badge)
            <= widest(items, badge) by {
            if i < n {
                assert(head[i] == items[i]);
            }
        }
        if head.len() > 0 && widest(items, badge) == widest(head, badge) {
            let i = choose|i: int|
                0 <= i < head.len() && item_width(#[trigger] head[i], badge) == widest(head, badge);
            assert(items[i] == head[i]);
        } else {
            assert(item_width(items[n], badge) == widest(items, badge));
        }
    }
}

/// Where the screen has room, the menu is as high as its entries and its border, and as wide as the
/// widest with its border and a cell at either side. It stands on the launcher, and ends where the
/// launcher ends unless it is wider, or begins where the launcher begins unless it would not fit.
pub proof fn law_where_the_menu_stands(view: SidebarView)
    requires
        view.wf(),
    ensures
        ({
            let menu = view.spec_menu();
            let launcher = view.spec_launcher();
            let items = menu_items(view.update_available, view.release_notes_available);
            let wide = widest(items, view.update_badge) + 4;
            let high = items.len() + 2;
            &&& view.screen.width >= wide && view.screen.height >= high ==> {
                &&& menu.width == wide
                &&& menu.height == high
                &&& launcher.y >= high ==> menu.y + high == launcher.y
                &&& launcher.y < high ==> menu.y == 0
                &&& launcher.width >= wide && launcher.x + launcher.width <= view.screen.x
                    + view.screen.width ==> menu.x + wide == launcher.x + launcher.width
                &&& launcher.width < wide && launcher.x + wide <= view.screen.x
                    + view.screen.width ==> menu.x == launcher.x
                &&& launcher.width < wide && launcher.x + wide > view.screen.x + view.screen.width
                    ==> menu.x + wide == view.screen.x + view.screen.width
            }
        }),
{
    let items = menu_items(view.update_available, view.release_notes_available);
    lemma_narrow(items, view.update_badge);
}

proof fn lemma_narrow(items: Seq<MenuItem>, badge: bool)
    ensures
        0 <= widest(items, badge) <= 15,
    decreases items.len(),
{
    if items.len() > 0 {
        lemma_narrow(items.drop_last(), badge);
        reveal_strlit("settings");
        reveal_strlit("keybinds");
        reveal_strlit("reload config");
        reveal_strlit("update ready");
        reveal_strlit("what's new");
        reveal_strlit("detach");
    }
}

// ---------------------------------------------------------------------------------------------
// Areas
// ---------------------------------------------------------------------------------------------

/// The lists have their areas unless the sidebar is collapsed, or is no wider than its border, or has
/// no rows.
pub proof fn law_when_the_lists_are_there(view: SidebarView)
    ensures
        view.collapsed || view.sidebar.width <= 1 || view.sidebar.height == 0
            ==> view.spec_list_rect() == (Rect { x: 0, y: 0, width: 0, height: 0 })
            && view.spec_agent_rect() == (Rect { x: 0, y: 0, width: 0, height: 0 }),
        !view.collapsed && view.sidebar.width >= 2 && view.sidebar.height >= 1
            ==> view.spec_list_rect() == view.list_area && view.spec_agent_rect()
            == view.detail_area,
{
}

/// The footer is the last row of the list of workspaces, over all its width.
pub proof fn law_the_footer_is_the_last_row(view: SidebarView, col: u16, row: u16)
    requires
        view.wf(),
        view.spec_list_rect().height > 0,
    ensures
        view.spec_footer().has(col, row) <==> view.spec_list_rect().has(col, row)
            && !view.spec_list_rect().has_row((row + 1) as u16) && row < u16::MAX,
{
}

/// The button for a new workspace is at the left end of the footer and the launcher at the right end;
/// in a footer with room for both they do not meet. The launcher is wider with its badge.
pub proof fn law_the_ends_of_the_footer(view: SidebarView, col: u16, row: u16)
    requires
        view.wf(),
        !view.mobile,
        view.spec_footer().width >= 13,
    ensures
        ({
            let footer = view.spec_footer();
            let button = view.spec_new_button();
            let launcher = view.spec_launcher();
            &&& button.x == footer.x
            &&& button.width == 5
            &&& button.y == footer.y && button.height == footer.height
            &&& launcher.x + launcher.width == footer.x + footer.width
            &&& launcher.width == if view.attention_badge {
                8int
            } else {
                6
            }
            &&& launcher.y == footer.y && launcher.height == footer.height
            &&& !(button.has(col, row) && launcher.has(col, row))
        }),
{
}

/// In a narrow footer the button and the launcher take what there is.
pub proof fn law_a_narrow_footer(view: SidebarView)
    requires
        view.wf(),
        !view.mobile,
        0 < view.spec_footer().width,
    ensures
        view.spec_footer().width <= 5 ==> view.spec_new_button() == view.spec_footer(),
        view.spec_footer().width <= 6 ==> view.spec_launcher() == view.spec_footer(),
        view.spec_footer().width <= 8 && view.attention_badge ==> view.spec_launcher()
            == view.spec_footer(),
{
}

/// On a small screen the menu has its own launcher.
pub proof fn law_small_screens_have_their_launcher(view: SidebarView)
    requires
        view.mobile,
    ensures
        view.spec_launcher() == view.mobile_menu,
{
}

// ---------------------------------------------------------------------------------------------
// Clicks
// ---------------------------------------------------------------------------------------------

/// The border to drag is the sidebar's last column, where the sidebar is expanded and shows its usual
/// view, but for the cells of the toggle.
pub proof fn law_the_border_to_drag(view: SidebarView, col: u16, row: u16)
    requires
        view.wf(),
    ensures
        view.divider_hit(col, row) ==> view.sidebar.has(col, row) && !view.sidebar.has_col(
            (col + 1) as u16,
        ) && !view.collapsed && !view.agent_view_active && !view.toggle_hit(col, row),
        view.sidebar.has(col, row) && col + 1 == view.sidebar.x + view.sidebar.width
            && !view.collapsed && !view.agent_view_active && !view.toggle_hit(col, row)
            ==> view.divider_hit(col, row),
{
}

/// The toggle is where it was drawn last: at one place in the expanded sidebar, at another in the
/// collapsed one.
pub proof fn law_the_toggle(view: SidebarView, col: u16, row: u16)
    ensures
        view.toggle_hit(col, row) <==> (if view.collapsed {
            view.collapsed_toggle
        } else {
            view.expanded_toggle
        }).has(col, row),
{
}

/// The divider between the sections is counted from the sidebar's top; a sidebar of fewer than six
/// rows is not divided.
pub proof fn law_where_sections_are_divided(view: SidebarView, row: u16)
    ensures
        view.split_at(row) is None <==> view.sidebar.height <= 5,
        view.split_at(row) matches Some((down, of)) ==> {
            &&& of == view.sidebar.height
            &&& row >= view.sidebar.y ==> view.sidebar.y + down == row
            &&& row < view.sidebar.y ==> down == 0
        },
{
}

/// In the collapsed sidebar the first row of the list stands for the first workspace, and so on.
pub proof fn law_rows_of_the_collapsed_list(view: SidebarView, row: u16, count: usize, ws: usize)
    requires
        view.wf(),
    ensures
        view.collapsed_workspace(row, count) == Some(ws) <==> view.collapsed && ws < count
            && view.collapsed_list.y + ws == row && ws < view.collapsed_list.height,
{
}

/// In the collapsed sidebar the first row of the agent panel stands for the first agent, and so on,
/// but for its last row, which stands for none.
pub proof fn law_rows_of_the_collapsed_panel(
    view: SidebarView,
    row: u16,
    entries: Seq<AgentEntry>,
    at: int,
)
    requires
        view.wf(),
    ensures
        view.collapsed && 0 <= at < entries.len() && view.collapsed_detail.y + at == row && at + 1
            < view.collapsed_detail.height ==> view.collapsed_agent(row, entries) == Some(
            entries[at],
        ),
        view.collapsed_agent(row, entries) is Some ==> view.collapsed
            && view.collapsed_detail.has_row(row) && view.collapsed_detail.has_row((row + 1) as u16)
            && row - view.collapsed_detail.y < entries.len(),
{
}

/// A drawn row stands for its agent on all the screen rows it takes, and a header for none.
pub proof fn law_rows_stand_for_their_agent(
    y: u16,
    height: u16,
    entry: usize,
    row: u16,
    entries: Seq<AgentEntry>,
)
    ensures
        row_entry(VisibleRow::GroupHeader { y }, row, entries) is None,
        row_entry(VisibleRow::Child { entry_idx: entry, y, height }, row, entries) is Some <==> y
            <= row && row - y < height && row < u16::MAX && entry < entries.len(),
        row_entry(VisibleRow::Child { entry_idx: entry, y, height }, row, entries) matches Some(e)
            ==> e == entries[entry as int],
{
}

/// A click on a scrollbar grabs the thumb where it is, and goes to the place it stands for elsewhere
/// on the track; beside the track it is nothing.
pub proof fn law_clicks_on_scrollbars(col: u16, row: u16, bar: ScrollbarRow)
    ensures
        scrollbar_hit(col, row, bar) is Some <==> bar.track is Some && bar.track->0.has(col, row),
        scrollbar_hit(col, row, bar) matches Some(ScrollbarClickTarget::Thumb { grab_row_offset })
            ==> bar.thumb_grab == Some(grab_row_offset),
        scrollbar_hit(col, row, bar) matches Some(
            ScrollbarClickTarget::Track { offset_from_bottom },
        ) ==> bar.thumb_grab is None && offset_from_bottom == bar.offset_from_bottom,
{
}

// ---------------------------------------------------------------------------------------------
// Wheels and drags
// ---------------------------------------------------------------------------------------------

/// The wheel turned up brings a list nearer its top by as much, and down nearer its end, and no
/// further than there is.
pub proof fn law_the_wheel_scrolls_by_as_much(scroll: int, delta: int, max: int)
    requires
        0 <= scroll <= usize::MAX,
        0 <= max <= usize::MAX,
    ensures
        delta < 0 && scroll + delta >= 0 ==> wheeled(scroll, delta, max) == scroll + delta,
        delta < 0 && scroll + delta < 0 ==> wheeled(scroll, delta, max) == 0,
        delta >= 0 && scroll + delta <= max ==> wheeled(scroll, delta, max) == scroll + delta,
        delta >= 0 && scroll + delta > max ==> wheeled(scroll, delta, max) == max,
{
}

/// A position is brought to the one that the list as drawn has for it, and otherwise stays.
pub proof fn law_positions_as_drawn(normal: Seq<usize>, position: usize)
    ensures
        position < normal.len() ==> normalized(normal, position) == normal[position as int],
        position >= normal.len() ==> normalized(normal, position) == position,
{
}

/// The sidebar ends at the border that was dragged, within the limits that are set; the width then
/// counts as set by hand and is to be kept.
pub proof fn law_the_sidebar_ends_at_its_border(width: SidebarWidth, x: u16, col: u16)
    requires
        width.min <= width.max,
    ensures
        ({
            let after = width.dragged(x, col);
            &&& width.min <= after.width <= width.max
            &&& x <= col && width.min <= col - x + 1 <= width.max ==> x + after.width - 1 == col
            &&& width.min > 0 && col < x + width.min - 1 ==> after.width == width.min
            &&& col >= x && col - x + 1 > width.max ==> after.width == width.max
            &&& after.manual && after.session_dirty
            &&& after.min == width.min && after.max == width.max
        }),
{
}

/// A workspace is in the group that it is listed with, and in none where it is not listed.
pub proof fn law_groups_of_workspaces(groups: Seq<Option<String>>, ws: usize)
    ensures
        group_of(groups, ws) matches Some(key) ==> ws < groups.len() && (groups[ws as int] matches Some(
            own,
        ) && own@ == key),
        group_of(groups, ws) is None ==> ws >= groups.len() || groups[ws as int] is None,
{
}

proof fn lemma_slots(cards: Seq<Card>, groups: Seq<Option<String>>, n: int, slot: usize)
    requires
        0 <= n <= cards.len(),
    ensures
        slots_before(cards, groups, n).contains(slot) <==> exists|i: int|
            0 <= i < n && (#[trigger] cards[i]).ws_idx == slot && !splits_group(cards, groups, i),
    decreases n,
{
    let all = slots_before(cards, groups, n);
    if n > 0 {
        lemma_slots(cards, groups, n - 1, slot);
        let before = slots_before(cards, groups, n - 1);
        if before.contains(slot) {
            let k = choose|k: int| 0 <= k < before.len() && before[k] == slot;
            assert(all[k] == slot);
        }
        if !splits_group(cards, groups, n - 1) {
            assert(all[before.len() as int] == cards[n - 1].ws_idx);
        }
        if all.contains(slot) {
            let k = choose|k: int| 0 <= k < all.len() && all[k] == slot;
            if k < before.len() {
                assert(before[k] == slot);
            } else {
                assert(cards[n - 1].ws_idx == slot);
            }
        }
    } else {
        assert(all.len() == 0);
    }
}

/// A workspace may be dropped before a card unless that would part it from the card above, with which
/// it is in one group; and behind the last card.
pub proof fn law_where_workspaces_may_be_dropped(
    cards: Seq<Card>,
    groups: Seq<Option<String>>,
    slot: usize,
)
    requires
        cards.len() > 0,
        cards.last().ws_idx < usize::MAX,
    ensures
        drop_slots(cards, groups).contains(slot) <==> slot == cards.last().ws_idx + 1 || exists|
            i: int,
        |
            0 <= i < cards.len() && (#[trigger] cards[i]).ws_idx == slot && (i == 0 || group_of(
                groups,
                slot,
            ) is None || group_of(groups, slot) != group_of(groups, cards[i - 1].ws_idx)),
        drop_slots(cards, groups).contains(cards[0].ws_idx),
{
    let n = cards.len() as int;
    let before = slots_before(cards, groups, n);
    let all = drop_slots(cards, groups);
    let end = (cards.last().ws_idx + 1) as usize;
    lemma_slots(cards, groups, n, slot);
    lemma_slots(cards, groups, n, cards[0].ws_idx);
    assert(!splits_group(cards, groups, 0));
    assert(all[before.len() as int] == end);
    if before.contains(slot) {
        let k = choose|k: int| 0 <= k < before.len() && before[k] == slot;
        assert(all[k] == slot);
    }
    if before.contains(cards[0].ws_idx) {
        let k = choose|k: int| 0 <= k < before.len() && before[k] == cards[0].ws_idx;
        assert(all[k] == cards[0].ws_idx);
    }
    if all.contains(slot) && slot != end {
        let k = choose|k: int| 0 <= k < all.len() && all[k] == slot;
        assert(before[k] == slot);
    }
}

/// A dragged workspace drops at a place that is shown, and at none that another is nearer than; of
/// two that are as near, at the lower.
pub proof fn law_drops_go_to_the_nearest_place(
    slots: Seq<usize>,
    rows: Seq<Option<u16>>,
    row: u16,
    slot: usize,
    i: int,
)
    requires
        is_nearest(slots, rows, row, slot),
        0 <= i < slots.len(),
    ensures
        slots.contains(slot),
        slot < rows.len(),
        rows[slot as int] is Some,
        slots[i] < rows.len() && rows[slots[i] as int] is Some ==> {
            let own = rows[slot as int]->0 as int;
            let other = rows[slots[i] as int]->0 as int;
            &&& own <= row && other <= row ==> own >= other
            &&& own >= row && other >= row ==> own <= other
            &&& own <= row && other >= row ==> row - own <= other - row
            &&& own >= row && other <= row ==> own - row <= row - other
            &&& own == other || own - row == row - other ==> slots[i] <= slot
        },
{
    assert(slot_row(rows, slots[i]) == slot_row(rows, slots[i]));
}

} // verus!
