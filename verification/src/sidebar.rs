//! The sidebar: where its parts are, and what a click, a wheel or a drag in it means.
//!
//! How areas are divided, and how long the lists are, is worked out where the sidebar is drawn. The
//! functions here take those areas and lists.

use vstd::prelude::*;
use vstd::string::*;
use crate::geometry::Rect;
use crate::text::same_text;

verus! {

/// The sidebar as it was last drawn.
#[derive(Clone, Copy, Debug)]
pub struct SidebarView {
    pub sidebar: Rect,
    pub collapsed: bool,
    /// The list of workspaces and the agent panel of the expanded sidebar.
    pub list_area: Rect,
    pub detail_area: Rect,
    /// The same of the collapsed one.
    pub collapsed_list: Rect,
    pub collapsed_detail: Rect,
    pub expanded_toggle: Rect,
    pub collapsed_toggle: Rect,
    pub section_divider: Rect,
    pub sort_toggle: Rect,
    /// The screen, and on a small one the area that opens the menu.
    pub screen: Rect,
    pub mobile: bool,
    pub mobile_menu: Rect,
    /// Another view is in place of the agent panel's usual one.
    pub agent_view_active: bool,
    pub update_available: bool,
    pub release_notes_available: bool,
    /// The launcher shows that something asks to be looked at.
    pub attention_badge: bool,
    /// The menu entry on updates shows the same.
    pub update_badge: bool,
}

#[derive(Clone, Copy, Debug, PartialEq, Eq, Structural)]
pub enum ScrollbarClickTarget {
    Thumb { grab_row_offset: u16 },
    Track { offset_from_bottom: usize },
}

/// What there is to know of a scrollbar and a row of it.
#[derive(Clone, Copy, Debug, PartialEq, Eq, Structural)]
pub struct ScrollbarRow {
    pub track: Option<Rect>,
    /// How far below the top of the thumb the row is, where it is on the thumb.
    pub thumb_grab: Option<u16>,
    /// The offset that the row stands for.
    pub offset_from_bottom: usize,
}

/// An entry of the global menu.
#[derive(Clone, Copy, Debug, PartialEq, Eq, Structural)]
pub enum MenuItem {
    Settings,
    Keybinds,
    ReloadConfig,
    UpdateReady,
    WhatsNew,
    Detach,
}

/// Where a workspace is drawn in the list.
#[derive(Clone, Copy, Debug, PartialEq, Eq, Structural)]
pub struct Card {
    pub rect: Rect,
    pub ws_idx: usize,
}

/// A pane with an agent, as listed in the agent panel.
#[derive(Clone, Copy, Debug, PartialEq, Eq, Structural)]
pub struct AgentEntry {
    pub ws_idx: usize,
    pub tab_idx: usize,
    pub pane_id: u64,
}

/// A row of the agent panel as drawn.
#[derive(Clone, Copy, Debug, PartialEq, Eq, Structural)]
pub enum VisibleRow {
    GroupHeader { y: u16 },
    Child { entry_idx: usize, y: u16, height: u16 },
}

#[derive(Clone, Copy, Debug, PartialEq, Eq, Structural)]
pub struct SidebarWidth {
    pub width: u16,
    pub min: u16,
    pub max: u16,
    /// The width was dragged, not configured.
    pub manual: bool,
    /// The session is to be written to disk.
    pub session_dirty: bool,
}

pub open spec fn least(a: int, b: int) -> int {
    if a <= b {
        a
    } else {
        b
    }
}

pub open spec fn most(a: int, b: int) -> int {
    if a >= b {
        a
    } else {
        b
    }
}

/// The difference, or nothing where there is none.
pub open spec fn beyond(a: int, b: int) -> int {
    if a >= b {
        a - b
    } else {
        0
    }
}

fn min16(a: u16, b: u16) -> (r: u16)
    ensures
        r == least(a as int, b as int),
{
    if a <= b {
        a
    } else {
        b
    }
}

fn max16(a: u16, b: u16) -> (r: u16)
    ensures
        r == most(a as int, b as int),
{
    if a >= b {
        a
    } else {
        b
    }
}

// ---------------------------------------------------------------------------------------------
// The menu's entries
// ---------------------------------------------------------------------------------------------

impl MenuItem {
    pub open spec fn spec_label(self) -> Seq<char> {
        match self {
            MenuItem::Settings => "settings"@,
            MenuItem::Keybinds => "keybinds"@,
            MenuItem::ReloadConfig => "reload config"@,
            MenuItem::UpdateReady => "update ready"@,
            MenuItem::WhatsNew => "what's new"@,
            MenuItem::Detach => "detach"@,
        }
    }

    pub fn label(self) -> (r: &'static str)
        ensures
            r@ == self.spec_label(),
    {
        match self {
            MenuItem::Settings => "settings",
            MenuItem::Keybinds => "keybinds",
            MenuItem::ReloadConfig => "reload config",
            MenuItem::UpdateReady => "update ready",
            MenuItem::WhatsNew => "what's new",
            MenuItem::Detach => "detach",
        }
    }

    /// The entry speaks of an update.
    pub open spec fn is_update(self) -> bool {
        self == MenuItem::UpdateReady || self == MenuItem::WhatsNew
    }
}

proof fn lemma_labels_are_short(item: MenuItem)
    ensures
        item.spec_label().len() <= 13,
{
    reveal_strlit("settings");
    reveal_strlit("keybinds");
    reveal_strlit("reload config");
    reveal_strlit("update ready");
    reveal_strlit("what's new");
    reveal_strlit("detach");
}

/// The entries of the menu: an update that waits goes before the notes of the release installed.
pub open spec fn menu_items(update_available: bool, notes_available: bool) -> Seq<MenuItem> {
    let head = seq![MenuItem::Settings, MenuItem::Keybinds, MenuItem::ReloadConfig];
    if update_available {
        head.push(MenuItem::UpdateReady).push(MenuItem::Detach)
    } else if notes_available {
        head.push(MenuItem::WhatsNew).push(MenuItem::Detach)
    } else {
        head.push(MenuItem::Detach)
    }
}

/// The cells an entry takes, with its badge.
pub open spec fn item_width(item: MenuItem, update_badge: bool) -> int {
    item.spec_label().len() + if item.is_update() && update_badge {
        2int
    } else {
        0
    }
}

/// The cells the widest entry takes.
pub open spec fn widest(items: Seq<MenuItem>, update_badge: bool) -> int
    decreases items.len(),
{
    if items.len() == 0 {
        0
    } else {
        most(widest(items.drop_last(), update_badge), item_width(items.last(), update_badge))
    }
}

// ---------------------------------------------------------------------------------------------
// Areas
// ---------------------------------------------------------------------------------------------

impl SidebarView {
    /// All areas end within the coordinates there are.
    pub open spec fn wf(&self) -> bool {
        &&& self.sidebar.wf()
        &&& self.list_area.wf()
        &&& self.detail_area.wf()
        &&& self.collapsed_list.wf()
        &&& self.collapsed_detail.wf()
        &&& self.expanded_toggle.wf()
        &&& self.collapsed_toggle.wf()
        &&& self.section_divider.wf()
        &&& self.sort_toggle.wf()
        &&& self.screen.wf()
        &&& self.mobile_menu.wf()
    }

    /// There is room in the sidebar for more than its border.
    pub open spec fn has_content(&self) -> bool {
        !self.collapsed && self.sidebar.width > 1 && self.sidebar.height > 0
    }

    pub open spec fn spec_list_rect(&self) -> Rect {
        if self.has_content() {
            self.list_area
        } else {
            Rect::spec_empty()
        }
    }

    pub open spec fn spec_agent_rect(&self) -> Rect {
        if self.has_content() {
            self.detail_area
        } else {
            Rect::spec_empty()
        }
    }

    /// The last row of the list of workspaces.
    pub open spec fn spec_footer(&self) -> Rect {
        let list = self.spec_list_rect();
        if list == Rect::spec_empty() {
            Rect::spec_empty()
        } else {
            Rect::spec_new(
                list.x,
                (list.y + beyond(list.height as int, 1)) as u16,
                list.width,
                1,
            )
        }
    }

    /// The button for a new workspace, at the left end of the footer.
    pub open spec fn spec_new_button(&self) -> Rect {
        let footer = self.spec_footer();
        Rect::spec_new(
            footer.x,
            footer.y,
            least(5, most(footer.width as int, 1)) as u16,
            footer.height,
        )
    }

    /// The menu's launcher, at the right end of the footer.
    pub open spec fn spec_launcher(&self) -> Rect {
        if self.mobile {
            self.mobile_menu
        } else {
            let footer = self.spec_footer();
            let width = least(
                if self.attention_badge {
                    8
                } else {
                    6
                },
                most(footer.width as int, 1),
            );
            Rect::spec_new(
                (footer.x + beyond(footer.width as int, width)) as u16,
                footer.y,
                width as u16,
                footer.height,
            )
        }
    }

    /// The menu, above the launcher, flush with its right end where the screen allows.
    pub open spec fn spec_menu(&self) -> Rect {
        let items = menu_items(self.update_available, self.release_notes_available);
        let launcher = self.spec_launcher();
        let width = least(widest(items, self.update_badge) + 4, most(self.screen.width as int, 1));
        let height = least((items.len() + 2) as int, most(self.screen.height as int, 1));
        let x = least(
            launcher.x + beyond(launcher.width as int, width),
            self.screen.x + beyond(self.screen.width as int, width),
        );
        Rect::spec_new(
            x as u16,
            beyond(launcher.y as int, height) as u16,
            width as u16,
            height as u16,
        )
    }

    pub fn workspace_list_rect(&self) -> (r: Rect)
        requires
            self.wf(),
        ensures
            r == self.spec_list_rect(),
            r.wf(),
    {
        if self.collapsed || self.sidebar.width <= 1 || self.sidebar.height == 0 {
            return Rect::empty();
        }
        self.list_area
    }

    pub fn agent_panel_rect(&self) -> (r: Rect)
        requires
            self.wf(),
        ensures
            r == self.spec_agent_rect(),
            r.wf(),
    {
        if self.collapsed || self.sidebar.width <= 1 || self.sidebar.height == 0 {
            return Rect::empty();
        }
        self.detail_area
    }

    pub fn sidebar_footer_rect(&self) -> (r: Rect)
        requires
            self.wf(),
        ensures
            r == self.spec_footer(),
            r.wf(),
    {
        let list = self.workspace_list_rect();
        if list == Rect::empty() {
            return Rect::empty();
        }
        let down: u16 = if list.height > 0 {
            list.height - 1
        } else {
            0
        };
        Rect::new(list.x, list.y + down, list.width, 1)
    }

    /// The button for a new workspace, at the left end of the footer.
    pub fn sidebar_new_button_rect(&self) -> (r: Rect)
        requires
            self.wf(),
        ensures
            r == self.spec_new_button(),
            r.wf(),
    {
        let footer = self.sidebar_footer_rect();
        let width: u16 = min16(5, max16(footer.width, 1));
        Rect::new(footer.x, footer.y, width, footer.height)
    }

    pub fn global_launcher_rect(&self) -> (r: Rect)
        requires
            self.wf(),
        ensures
            r == self.spec_launcher(),
            r.wf(),
    {
        if self.mobile {
            return self.mobile_menu;
        }
        let footer = self.sidebar_footer_rect();
        let wanted: u16 = if self.attention_badge {
            8
        } else {
            6
        };
        let width: u16 = min16(wanted, max16(footer.width, 1));
        let right: u16 = if footer.width >= width {
            footer.width - width
        } else {
            0
        };
        Rect::new(footer.x + right, footer.y, width, footer.height)
    }

    pub fn global_menu_items(&self) -> (r: Vec<MenuItem>)
        ensures
            r@ == menu_items(self.update_available, self.release_notes_available),
    {
        let mut items: Vec<MenuItem> = Vec::new();
        items.push(MenuItem::Settings);
        items.push(MenuItem::Keybinds);
        items.push(MenuItem::ReloadConfig);
        if self.update_available {
            items.push(MenuItem::UpdateReady);
        } else if self.release_notes_available {
            items.push(MenuItem::WhatsNew);
        }
        items.push(MenuItem::Detach);
        proof {
            assert(items@ =~= menu_items(self.update_available, self.release_notes_available));
        }
        items
    }

    /// What the menu's entries are called.
    pub fn global_menu_labels(&self) -> (r: Vec<&'static str>)
        ensures
            r@.len() == menu_items(self.update_available, self.release_notes_available).len(),
            forall|i: int|
                0 <= i < r@.len() ==> (#[trigger] r@[i])@ == menu_items(
                    self.update_available,
                    self.release_notes_available,
                )[i].spec_label(),
    {
        let items = self.global_menu_items();
        let mut labels: Vec<&'static str> = Vec::new();
        let mut i: usize = 0;
        while i < items.len()
            invariant
                i <= items@.len(),
                labels@.len() == i,
                forall|j: int| 0 <= j < i ==> (#[trigger] labels@[j])@ == items@[j].spec_label(),
            decreases items@.len() - i,
        {
            labels.push(items[i].label());
            i = i + 1;
        }
        labels
    }

    pub fn global_menu_rect(&self) -> (r: Rect)
        requires
            self.wf(),
        ensures
            r == self.spec_menu(),
            r.wf(),
    {
        let launcher = self.global_launcher_rect();
        let items = self.global_menu_items();
        let mut content: u16 = 0;
        let mut i: usize = 0;
        while i < items.len()
            invariant
                i <= items@.len(),
                content == widest(items@.take(i as int), self.update_badge),
                content <= 15,
            decreases items@.len() - i,
        {
            let item = items[i];
            proof {
                assert(items@.take(i + 1).drop_last() =~= items@.take(i as int));
                lemma_labels_are_short(item);
            }
            let text: usize = item.label().unicode_len();
            let badge: u16 = if (item == MenuItem::UpdateReady || item == MenuItem::WhatsNew)
                && self.update_badge {
                2
            } else {
                0
            };
            content = max16(content, text as u16 + badge);
            i = i + 1;
        }
        proof {
            assert(items@.take(i as int) =~= items@);
        }
        let width: u16 = min16(content + 4, max16(self.screen.width, 1));
        let height: u16 = min16(items.len() as u16 + 2, max16(self.screen.height, 1));
        let from_launcher: u16 = if launcher.width >= width {
            launcher.width - width
        } else {
            0
        };
        let from_screen: u16 = if self.screen.width >= width {
            self.screen.width - width
        } else {
            0
        };
        let x: u16 = min16(launcher.x + from_launcher, self.screen.x + from_screen);
        let y: u16 = if launcher.y >= height {
            launcher.y - height
        } else {
            0
        };
        Rect::new(x, y, width, height)
    }

    // -----------------------------------------------------------------------------------------
    // Hits
    // -----------------------------------------------------------------------------------------

    /// The border that is dragged to set the width: the last column, but for the toggle.
    pub open spec fn divider_hit(&self, col: u16, row: u16) -> bool {
        &&& !self.collapsed
        &&& !self.agent_view_active
        &&& self.sidebar.width > 0
        &&& !self.expanded_toggle.has(col, row)
        &&& col == self.sidebar.x + self.sidebar.width - 1
        &&& self.sidebar.has_row(row)
    }

    /// What collapses the sidebar, or expands it again.
    pub open spec fn toggle_hit(&self, col: u16, row: u16) -> bool {
        if self.collapsed {
            self.collapsed_toggle.has(col, row)
        } else {
            self.expanded_toggle.has(col, row)
        }
    }

    /// How far down a dragged section divider is, of how much; nothing where the sidebar is too low
    /// to be divided.
    pub open spec fn split_at(&self, row: u16) -> Option<(u16, u16)> {
        if self.sidebar.height < 6 {
            None
        } else {
            Some((beyond(row as int, self.sidebar.y as int) as u16, self.sidebar.height))
        }
    }

    /// The workspace a row of the collapsed sidebar stands for, of `count`.
    pub open spec fn collapsed_workspace(&self, row: u16, count: usize) -> Option<usize> {
        if self.collapsed && self.collapsed_list.has_row(row) && row - self.collapsed_list.y
            < count {
            Some((row - self.collapsed_list.y) as usize)
        } else {
            None
        }
    }

    /// The agent a row of the collapsed sidebar stands for.
    pub open spec fn collapsed_agent(&self, row: u16, entries: Seq<AgentEntry>) -> Option<
        AgentEntry,
    > {
        let area = self.collapsed_detail;
        let at = row - area.y;
        if self.collapsed && area.y <= row < area.y + beyond(area.height as int, 1) && at
            < entries.len() {
            Some(entries[at])
        } else {
            None
        }
    }

    /// On the border that is dragged to set the width.
    pub fn on_sidebar_divider(&self, col: u16, row: u16) -> (r: bool)
        requires
            self.wf(),
        ensures
            r == self.divider_hit(col, row),
    {
        if self.collapsed || self.agent_view_active {
            return false;
        }
        self.sidebar.width > 0 && !self.expanded_toggle.contains(col, row) && col == self.sidebar.x
            + (self.sidebar.width - 1) && self.sidebar.contains_row(row)
    }

    pub fn on_sidebar_toggle(&self, col: u16, row: u16) -> (r: bool)
        requires
            self.wf(),
        ensures
            r == self.toggle_hit(col, row),
    {
        if self.collapsed {
            self.collapsed_toggle.contains(col, row)
        } else {
            self.expanded_toggle.contains(col, row)
        }
    }

    pub fn on_sidebar_section_divider(&self, col: u16, row: u16) -> (r: bool)
        requires
            self.wf(),
        ensures
            r == (!self.collapsed && self.section_divider.has(col, row)),
    {
        !self.collapsed && self.section_divider.contains(col, row)
    }

    pub fn on_agent_panel_sort_toggle(&self, col: u16, row: u16) -> (r: bool)
        requires
            self.wf(),
        ensures
            r == (!self.collapsed && self.sort_toggle.has(col, row)),
    {
        !self.collapsed && self.sort_toggle.contains(col, row)
    }

    /// How far down a dragged section divider is, of how much; nothing where the sidebar is too low
    /// to be divided.
    pub fn section_split_at(&self, row: u16) -> (r: Option<(u16, u16)>)
        ensures
            r == self.split_at(row),
    {
        if self.sidebar.height < 6 {
            return None;
        }
        let down: u16 = if row >= self.sidebar.y {
            row - self.sidebar.y
        } else {
            0
        };
        Some((down, self.sidebar.height))
    }

    /// The workspace whose card a row is on.
    pub fn workspace_at_row(&self, row: u16, cards: &Vec<Card>) -> (r: Option<usize>)
        requires
            self.wf(),
            forall|i: int| 0 <= i < cards@.len() ==> (#[trigger] cards@[i]).rect.wf(),
        ensures
            match r {
                Some(ws) => {
                    &&& self.spec_footer() != Rect::spec_empty()
                    &&& exists|i: int|
                        0 <= i < cards@.len() && (#[trigger] cards@[i]).rect.has_row(row)
                            && cards@[i].ws_idx == ws && forall|j: int|
                            0 <= j < i ==> !(#[trigger] cards@[j]).rect.has_row(row)
                },
                None => self.spec_footer() == Rect::spec_empty() || forall|j: int|
                    0 <= j < cards@.len() ==> !(#[trigger] cards@[j]).rect.has_row(row),
            },
    {
        if self.sidebar_footer_rect() == Rect::empty() {
            return None;
        }
        let mut i: usize = 0;
        while i < cards.len()
            invariant
                i <= cards@.len(),
                forall|j: int| 0 <= j < cards@.len() ==> (#[trigger] cards@[j]).rect.wf(),
                forall|j: int| 0 <= j < i ==> !(#[trigger] cards@[j]).rect.has_row(row),
                self.spec_footer() != Rect::spec_empty(),
            decreases cards@.len() - i,
        {
            if cards[i].rect.contains_row(row) {
                return Some(cards[i].ws_idx);
            }
            i = i + 1;
        }
        None
    }

    /// The workspace a row of the collapsed sidebar stands for, of `count`.
    pub fn collapsed_workspace_at_row(&self, row: u16, count: usize) -> (r: Option<usize>)
        requires
            self.wf(),
        ensures
            r == self.collapsed_workspace(row, count),
    {
        if !self.collapsed || !self.collapsed_list.contains_row(row) {
            return None;
        }
        let idx: usize = (row - self.collapsed_list.y) as usize;
        if idx < count {
            Some(idx)
        } else {
            None
        }
    }

    /// The agent a row of the collapsed sidebar stands for. The last row of its area is not one.
    pub fn collapsed_agent_detail_target_at(&self, row: u16, entries: &Vec<AgentEntry>) -> (r: Option<
        AgentEntry,
    >)
        requires
            self.wf(),
        ensures
            r == self.collapsed_agent(row, entries@),
    {
        if !self.collapsed {
            return None;
        }
        let area = self.collapsed_detail;
        let height: u16 = if area.height > 0 {
            area.height - 1
        } else {
            0
        };
        if row < area.y || row >= area.y + height {
            return None;
        }
        let at: usize = (row - area.y) as usize;
        if at < entries.len() {
            Some(entries[at])
        } else {
            None
        }
    }

    /// The agent a row of the agent panel stands for. Headers and the gaps between groups stand for
    /// none.
    pub fn agent_detail_target_at(&self, row: u16, rows: &Vec<VisibleRow>, entries: &Vec<AgentEntry>) -> (r:
        Option<AgentEntry>)
        ensures
            match r {
                Some(entry) => !self.collapsed && exists|i: int|
                    0 <= i < rows@.len() && row_entry(#[trigger] rows@[i], row, entries@) == Some(
                        entry,
                    ) && forall|j: int|
                        0 <= j < i ==> row_entry(#[trigger] rows@[j], row, entries@) is None,
                None => self.collapsed || forall|j: int|
                    0 <= j < rows@.len() ==> row_entry(#[trigger] rows@[j], row, entries@) is None,
            },
    {
        if self.collapsed {
            return None;
        }
        let mut i: usize = 0;
        while i < rows.len()
            invariant
                !self.collapsed,
                i <= rows@.len(),
                forall|j: int| 0 <= j < i ==> row_entry(#[trigger] rows@[j], row, entries@) is None,
            decreases rows@.len() - i,
        {
            match rows[i] {
                VisibleRow::Child { entry_idx, y, height } => {
                    let end: u16 = if height > u16::MAX - y {
                        u16::MAX
                    } else {
                        y + height
                    };
                    if row >= y && row < end && entry_idx < entries.len() {
                        proof {
                            assert(row_entry(rows@[i as int], row, entries@) == Some(
                                entries@[entry_idx as int],
                            ));
                        }
                        return Some(entries[entry_idx]);
                    }
                },
                VisibleRow::GroupHeader { .. } => {},
            }
            i = i + 1;
        }
        None
    }

    /// What a click on a scrollbar means.
    pub fn scrollbar_target_at(&self, col: u16, row: u16, bar: ScrollbarRow) -> (r: Option<
        ScrollbarClickTarget,
    >)
        requires
            bar.track matches Some(track) ==> track.wf(),
        ensures
            r == scrollbar_hit(col, row, bar),
    {
        match bar.track {
            Some(track) => {
                if !track.contains(col, row) {
                    return None;
                }
                match bar.thumb_grab {
                    Some(grab_row_offset) => Some(ScrollbarClickTarget::Thumb { grab_row_offset }),
                    None => Some(
                        ScrollbarClickTarget::Track { offset_from_bottom: bar.offset_from_bottom },
                    ),
                }
            },
            None => None,
        }
    }
}

/// What a click on a scrollbar means: on the thumb it grabs it, elsewhere on the track it goes
/// there.
pub open spec fn scrollbar_hit(col: u16, row: u16, bar: ScrollbarRow) -> Option<ScrollbarClickTarget> {
    match bar.track {
        Some(track) => if !track.has(col, row) {
            None
        } else {
            match bar.thumb_grab {
                Some(grab_row_offset) => Some(ScrollbarClickTarget::Thumb { grab_row_offset }),
                None => Some(
                    ScrollbarClickTarget::Track { offset_from_bottom: bar.offset_from_bottom },
                ),
            }
        },
        None => None,
    }
}

/// The agent that a drawn row stands for at a screen row.
pub open spec fn row_entry(drawn: VisibleRow, row: u16, entries: Seq<AgentEntry>) -> Option<AgentEntry> {
    match drawn {
        VisibleRow::Child { entry_idx, y, height } => if y <= row < least(
            y + height,
            u16::MAX as int,
        ) && entry_idx < entries.len() {
            Some(entries[entry_idx as int])
        } else {
            None
        },
        VisibleRow::GroupHeader { .. } => None,
    }
}

// ---------------------------------------------------------------------------------------------
// Scrolling
// ---------------------------------------------------------------------------------------------

/// Where a list is scrolled to after the wheel was turned: up as far as there is, down no further
/// than there is.
pub open spec fn wheeled(scroll: int, delta: int, max: int) -> int {
    if delta < 0 {
        beyond(scroll, -delta)
    } else {
        least(least(scroll + delta, usize::MAX as int), max)
    }
}

/// Scroll a list by the wheel.
pub fn scroll_list(scroll: usize, delta: i16, max: usize) -> (r: usize)
    ensures
        r == wheeled(scroll as int, delta as int, max as int),
{
    if delta < 0 {
        let up: usize = (-(delta as i32)) as usize;
        if scroll >= up {
            scroll - up
        } else {
            0
        }
    } else {
        let down: usize = scroll.saturating_add(delta as usize);
        if down <= max {
            down
        } else {
            max
        }
    }
}

/// The scroll position for an offset counted from the bottom.
pub fn scroll_for_offset_from_bottom(max: usize, offset_from_bottom: usize) -> (r: usize)
    ensures
        r == beyond(max as int, offset_from_bottom as int),
{
    if max >= offset_from_bottom {
        max - offset_from_bottom
    } else {
        0
    }
}

/// The position that the list as drawn brings another to.
pub open spec fn normalized(normal: Seq<usize>, position: usize) -> usize {
    if position < normal.len() {
        normal[position as int]
    } else {
        position
    }
}

fn normalize(normal: &Vec<usize>, position: usize) -> (r: usize)
    ensures
        r == normalized(normal@, position),
{
    if position < normal.len() {
        normal[position]
    } else {
        position
    }
}

/// How far the sidebar's lists are scrolled.
#[derive(Clone, Copy, Debug, PartialEq, Eq, Structural)]
pub struct SidebarScroll {
    pub workspace_scroll: usize,
    pub agent_panel_scroll: usize,
}

impl SidebarScroll {
    /// Scroll the list of workspaces by the wheel. `normal` gives, for each position, the one that
    /// the list as drawn brings it to; a position beyond it stays.
    pub fn scroll_workspace_list(&mut self, delta: i16, max: usize, normal: &Vec<usize>)
        ensures
            *final(self) == (SidebarScroll {
                workspace_scroll: normalized(
                    normal@,
                    wheeled(old(self).workspace_scroll as int, delta as int, max as int) as usize,
                ),
                ..*old(self)
            }),
    {
        self.workspace_scroll = normalize(normal, scroll_list(self.workspace_scroll, delta, max));
    }

    pub fn scroll_agent_panel(&mut self, delta: i16, max: usize)
        ensures
            *final(self) == (SidebarScroll {
                agent_panel_scroll: wheeled(
                    old(self).agent_panel_scroll as int,
                    delta as int,
                    max as int,
                ) as usize,
                ..*old(self)
            }),
    {
        self.agent_panel_scroll = scroll_list(self.agent_panel_scroll, delta, max);
    }

    /// Scroll the list of workspaces to an offset counted from the bottom; `normal` is as for the
    /// wheel.
    pub fn set_workspace_list_offset_from_bottom(
        &mut self,
        max: usize,
        offset_from_bottom: usize,
        normal: &Vec<usize>,
    )
        ensures
            *final(self) == (SidebarScroll {
                workspace_scroll: normalized(
                    normal@,
                    beyond(max as int, offset_from_bottom as int) as usize,
                ),
                ..*old(self)
            }),
    {
        self.workspace_scroll = normalize(
            normal,
            scroll_for_offset_from_bottom(max, offset_from_bottom),
        );
    }

    pub fn set_agent_panel_offset_from_bottom(&mut self, max: usize, offset_from_bottom: usize)
        ensures
            *final(self) == (SidebarScroll {
                agent_panel_scroll: beyond(max as int, offset_from_bottom as int) as usize,
                ..*old(self)
            }),
    {
        self.agent_panel_scroll = scroll_for_offset_from_bottom(max, offset_from_bottom);
    }
}

/// The wheel never scrolls a list past its end, and down by some and up by as much is where it
/// was, where neither end came between.
pub proof fn law_wheel_stays_within_the_list(scroll: int, delta: int, max: int)
    requires
        0 <= scroll <= max <= usize::MAX,
        0 <= delta,
    ensures
        0 <= wheeled(scroll, delta, max) <= max,
        0 <= wheeled(scroll, -delta, max) <= max,
        scroll + delta <= max ==> wheeled(wheeled(scroll, delta, max), -delta, max) == scroll,
{
}

impl SidebarWidth {
    /// The width after its border was dragged to a column, within what is configured.
    pub open spec fn dragged(&self, sidebar_x: u16, divider_col: u16) -> SidebarWidth {
        let asked = least(beyond(divider_col as int, sidebar_x as int) + 1, u16::MAX as int);
        SidebarWidth {
            width: most(least(asked, self.max as int), self.min as int) as u16,
            manual: true,
            session_dirty: true,
            ..*self
        }
    }

    /// Set the width by a dragged border, within what is configured.
    pub fn set_manual_sidebar_width(&mut self, sidebar_x: u16, divider_col: u16)
        requires
            old(self).min <= old(self).max,
        ensures
            *final(self) == old(self).dragged(sidebar_x, divider_col),
    {
        let across: u16 = if divider_col >= sidebar_x {
            divider_col - sidebar_x
        } else {
            0
        };
        let asked: u16 = if across == u16::MAX {
            across
        } else {
            across + 1
        };
        self.width = max16(min16(asked, self.max), self.min);
        self.manual = true;
        self.session_dirty = true;
    }
}

// ---------------------------------------------------------------------------------------------
// Dropping a dragged workspace
// ---------------------------------------------------------------------------------------------

/// The group of a workspace, where it is in one.
pub open spec fn group_of(groups: Seq<Option<String>>, ws: usize) -> Option<Seq<char>> {
    if ws < groups.len() {
        match groups[ws as int] {
            Some(key) => Some(key@),
            None => None,
        }
    } else {
        None
    }
}

/// Before card `i` is the inside of a group: the card and the one above it are in the same.
pub open spec fn splits_group(cards: Seq<Card>, groups: Seq<Option<String>>, i: int) -> bool {
    i > 0 && group_of(groups, cards[i].ws_idx) is Some && group_of(groups, cards[i].ws_idx)
        == group_of(groups, cards[i - 1].ws_idx)
}

/// Where a workspace may be dropped: before any card that does not split a group.
pub open spec fn slots_before(cards: Seq<Card>, groups: Seq<Option<String>>, n: int) -> Seq<usize>
    decreases n,
{
    if n <= 0 {
        Seq::empty()
    } else if splits_group(cards, groups, n - 1) {
        slots_before(cards, groups, n - 1)
    } else {
        slots_before(cards, groups, n - 1).push(cards[n - 1].ws_idx)
    }
}

/// All places where a workspace may be dropped; the last is behind the last card.
pub open spec fn drop_slots(cards: Seq<Card>, groups: Seq<Option<String>>) -> Seq<usize> {
    slots_before(cards, groups, cards.len() as int).push((cards.last().ws_idx + 1) as usize)
}

/// The row a place is shown at, where it is shown.
pub open spec fn slot_row(rows: Seq<Option<u16>>, slot: usize) -> Option<u16> {
    if slot < rows.len() {
        rows[slot as int]
    } else {
        None
    }
}

pub open spec fn row_distance(a: u16, b: u16) -> int {
    if a >= b {
        a - b
    } else {
        b - a
    }
}

/// `slot` is shown and is nearer to the row than any other place that is shown; of places that are
/// as near it is the furthest down.
pub open spec fn is_nearest(
    slots: Seq<usize>,
    rows: Seq<Option<u16>>,
    row: u16,
    slot: usize,
) -> bool {
    &&& slots.contains(slot)
    &&& slot_row(rows, slot) matches Some(at) && forall|i: int|
        0 <= i < slots.len() ==> (slot_row(rows, #[trigger] slots[i]) matches Some(other) ==> (
        row_distance(row, other) > row_distance(row, at) || (row_distance(row, other)
            == row_distance(row, at) && slots[i] <= slot)))
}

fn group_key(groups: &Vec<Option<String>>, ws: usize) -> (r: Option<&String>)
    ensures
        match r {
            Some(key) => group_of(groups@, ws) == Some(key@),
            None => group_of(groups@, ws) is None,
        },
{
    if ws < groups.len() {
        match &groups[ws] {
            Some(key) => Some(key),
            None => None,
        }
    } else {
        None
    }
}

fn insert_slots(cards: &Vec<Card>, groups: &Vec<Option<String>>) -> (r: Vec<usize>)
    requires
        cards@.len() > 0,
        forall|i: int| 0 <= i < cards@.len() ==> (#[trigger] cards@[i]).ws_idx < usize::MAX,
    ensures
        r@ == drop_slots(cards@, groups@),
{
    let mut slots: Vec<usize> = Vec::new();
    let mut i: usize = 0;
    while i < cards.len()
        invariant
            i <= cards@.len(),
            slots@ == slots_before(cards@, groups@, i as int),
        decreases cards@.len() - i,
    {
        let inside = if i > 0 {
            match (group_key(groups, cards[i].ws_idx), group_key(groups, cards[i - 1].ws_idx)) {
                (Some(own), Some(above)) => same_text(own.as_str(), above.as_str()),
                _ => false,
            }
        } else {
            false
        };
        if !inside {
            slots.push(cards[i].ws_idx);
        }
        i = i + 1;
    }
    slots.push(cards[cards.len() - 1].ws_idx + 1);
    slots
}

fn distance(a: u16, b: u16) -> (r: u16)
    ensures
        r == row_distance(a, b),
{
    if a >= b {
        a - b
    } else {
        b - a
    }
}

/// The place, of some, that is nearest to a row.
pub fn nearest_slot(slots: &Vec<usize>, rows: &Vec<Option<u16>>, row: u16) -> (r: Option<usize>)
    ensures
        match r {
            Some(slot) => is_nearest(slots@, rows@, row, slot),
            None => forall|i: int|
                0 <= i < slots@.len() ==> slot_row(rows@, #[trigger] slots@[i]) is None,
        },
{
    let mut best: Option<(usize, u16)> = None;
    let mut i: usize = 0;
    while i < slots.len()
        invariant
            i <= slots@.len(),
            match best {
                Some((slot, near)) => {
                    &&& exists|j: int| 0 <= j < i && #[trigger] slots@[j] == slot
                    &&& slot_row(rows@, slot) matches Some(at) && near == row_distance(row, at)
                    &&& forall|j: int|
                        0 <= j < i ==> (slot_row(rows@, #[trigger] slots@[j]) matches Some(other)
                            ==> (row_distance(row, other) > near || (row_distance(row, other)
                            == near && slots@[j] <= slot)))
                },
                None => forall|j: int|
                    0 <= j < i ==> slot_row(rows@, #[trigger] slots@[j]) is None,
            },
        decreases slots@.len() - i,
    {
        let slot: usize = slots[i];
        let shown: Option<u16> = if slot < rows.len() {
            rows[slot]
        } else {
            None
        };
        match shown {
            Some(at) => {
                let away: u16 = distance(row, at);
                let keeps = match best {
                    Some((best_slot, near)) => away > near || (away == near && slot < best_slot),
                    None => false,
                };
                if !keeps {
                    best = Some((slot, away));
                    proof {
                        assert(slots@[i as int] == slot);
                    }
                }
            },
            None => {},
        }
        i = i + 1;
    }
    match best {
        Some((slot, _)) => {
            proof {
                let j = choose|j: int| 0 <= j < slots@.len() && #[trigger] slots@[j] == slot;
                assert(slots@.contains(slot));
            }
            Some(slot)
        },
        None => None,
    }
}

impl SidebarView {
    /// Where a workspace dragged to a row is dropped. `rows` gives the row at which each place is
    /// shown.
    pub fn workspace_drop_index_at_row(
        &self,
        row: u16,
        cards: &Vec<Card>,
        groups: &Vec<Option<String>>,
        rows: &Vec<Option<u16>>,
    ) -> (r: Option<usize>)
        requires
            self.wf(),
            forall|i: int| 0 <= i < cards@.len() ==> (#[trigger] cards@[i]).ws_idx < usize::MAX,
        ensures
            ({
                let list = self.spec_list_rect();
                let within = list != Rect::spec_empty() && list.y <= row < self.spec_footer().y;
                match r {
                    Some(slot) => within && if cards@.len() == 0 {
                        slot == 0
                    } else {
                        is_nearest(drop_slots(cards@, groups@), rows@, row, slot)
                    },
                    None => !within || (cards@.len() > 0 && forall|i: int|
                        0 <= i < drop_slots(cards@, groups@).len() ==> slot_row(
                            rows@,
                            #[trigger] drop_slots(cards@, groups@)[i],
                        ) is None),
                }
            }),
    {
        let list = self.workspace_list_rect();
        let footer = self.sidebar_footer_rect();
        if list == Rect::empty() || row < list.y || row >= footer.y {
            return None;
        }
        if cards.len() == 0 {
            return Some(0);
        }
        let slots = insert_slots(cards, groups);
        nearest_slot(&slots, rows, row)
    }
}

/// No cell is both the border to drag and the toggle to click.
pub proof fn law_toggle_and_divider_are_apart(view: SidebarView, col: u16, row: u16)
    ensures
        !(view.divider_hit(col, row) && view.toggle_hit(col, row)),
{
}

/// The menu ends within the screen's width, is no larger than the screen, and does not cover the
/// launcher's row where there is room above it.
pub proof fn law_the_menu_stays_on_screen(view: SidebarView)
    requires
        view.wf(),
        view.screen.width > 0,
        view.screen.height > 0,
    ensures
        view.spec_menu().x + view.spec_menu().width <= view.screen.x + view.screen.width,
        view.spec_menu().height <= view.screen.height,
        view.spec_launcher().y >= view.spec_menu().height ==> view.spec_menu().y
            + view.spec_menu().height == view.spec_launcher().y,
{
    let items = menu_items(view.update_available, view.release_notes_available);
    lemma_menu_width(items, view.update_badge);
}

proof fn lemma_menu_width(items: Seq<MenuItem>, update_badge: bool)
    ensures
        0 <= widest(items, update_badge) <= 15,
    decreases items.len(),
{
    if items.len() > 0 {
        lemma_menu_width(items.drop_last(), update_badge);
        lemma_labels_are_short(items.last());
    }
}

/// Each place before a card is one that does not split a group.
pub proof fn law_no_slot_splits_a_group(
    cards: Seq<Card>,
    groups: Seq<Option<String>>,
    n: int,
    slot: usize,
)
    requires
        0 <= n <= cards.len(),
        slots_before(cards, groups, n).contains(slot),
    ensures
        exists|i: int| 0 <= i < n && cards[i].ws_idx == slot && !(#[trigger] splits_group(
            cards,
            groups,
            i,
        )),
    decreases n,
{
    if n > 0 {
        let before = slots_before(cards, groups, n - 1);
        let all = slots_before(cards, groups, n);
        let k = choose|k: int| 0 <= k < all.len() && all[k] == slot;
        if k < before.len() {
            assert(before[k] == slot);
            assert(before.contains(slot));
            law_no_slot_splits_a_group(cards, groups, n - 1, slot);
        } else {
            assert(!splits_group(cards, groups, n - 1));
        }
    }
}

} // verus!
