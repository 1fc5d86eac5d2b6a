//! Developer menu: a hidden panel opened and closed by pressing '#' five
//! times within two seconds. It holds cheat toggles and dev triggers (scene
//! warps, refuel).

use vstd::prelude::*;
use crate::scene::Scene;
use crate::save::{SaveManager, UserView};
use vstd::string::StringExecFns;
use crate::text::owned;
use crate::toolbox::half_toward_zero;

verus! {

// ---------------------------------------------------------------------------
// Menu definition
// ---------------------------------------------------------------------------

/// What a menu item does
#[derive(Debug, Clone, Copy, PartialEq, Eq, Structural)]
pub enum ItemKind {
    Toggle,
    Trigger,
    Close,
}

/// Number of menu items
pub const MENU_LEN: usize = 14;

/// Kind of each menu item: six toggles, seven triggers, then Close
pub open spec fn item_kind(i: int) -> ItemKind {
    if i < 6 { ItemKind::Toggle } else if i < 13 { ItemKind::Trigger } else { ItemKind::Close }
}

/// Label of each menu item
pub open spec fn item_label(i: int) -> Seq<char> {
    if i == 0 { "Unendlich Benzin"@ }
    else if i == 1 { "Noclip (durch Waende)"@ }
    else if i == 2 { "Hitboxen anzeigen"@ }
    else if i == 3 { "Dialoge ueberspringen"@ }
    else if i == 4 { "Meme-Modus"@ }
    else if i == 5 { "Detail-Rauschen"@ }
    else if i == 6 { "-> Werkstatt"@ }
    else if i == 7 { "-> Hof"@ }
    else if i == 8 { "-> Weltkarte"@ }
    else if i == 9 { "-> Autoshow"@ }
    else if i == 10 { "-> Schrottplatz"@ }
    else if i == 11 { "Tank auffuellen"@ }
    else if i == 12 { "Figge in Werkstatt"@ }
    else { "Schliessen"@ }
}

/// Kind of a menu item
pub fn menu_item_kind(i: usize) -> (r: ItemKind)
    requires
        i < MENU_LEN,
    ensures
        r == item_kind(i as int),
{
    if i < 6 { ItemKind::Toggle } else if i < 13 { ItemKind::Trigger } else { ItemKind::Close }
}

/// Label of a menu item
pub fn menu_item_label(i: usize) -> (r: &'static str)
    requires
        i < MENU_LEN,
    ensures
        r@ == item_label(i as int),
{
    if i == 0 { "Unendlich Benzin" }
    else if i == 1 { "Noclip (durch Waende)" }
    else if i == 2 { "Hitboxen anzeigen" }
    else if i == 3 { "Dialoge ueberspringen" }
    else if i == 4 { "Meme-Modus" }
    else if i == 5 { "Detail-Rauschen" }
    else if i == 6 { "-> Werkstatt" }
    else if i == 7 { "-> Hof" }
    else if i == 8 { "-> Weltkarte" }
    else if i == 9 { "-> Autoshow" }
    else if i == 10 { "-> Schrottplatz" }
    else if i == 11 { "Tank auffuellen" }
    else if i == 12 { "Figge in Werkstatt" }
    else { "Schliessen" }
}

// ---------------------------------------------------------------------------
// Public types
// ---------------------------------------------------------------------------

/// Result of a dev-menu interaction
#[derive(Debug, Clone, Copy, PartialEq, Eq, Structural)]
pub enum DevAction {
    /// Nothing happened, or a toggle was flipped in place
    Nothing,
    /// The menu was closed
    Close,
    /// Warp to a different scene
    GotoScene(Scene),
    /// Refill the driving car's fuel tank
    RefuelTank,
    /// Set #FiggeIsComing and go to the garage for the Figge cutscene
    TriggerFigge,
}

/// The dev menu state
pub struct DevMenu {
    pub open: bool,
    pub selected: usize,
    pub infinite_fuel: bool,
    pub noclip: bool,
    pub show_hitboxes: bool,
    pub skip_dialogs: bool,
    pub meme_mode: bool,
    pub detail_noise: bool,
    /// Times (ms) of the recent '#' presses
    pub hash_times: Vec<u64>,
}

/// Panel layout: (box x, box y, box width, box height, item height), centered
/// on the 640x480 screen
pub open spec fn menu_layout() -> (i32, i32, i32, i32, i32) {
    (160, 61, 320, 358, 22)
}

/// The item under a click: the panel's inner columns, one 22-pixel row per
/// item below the title
pub open spec fn item_at(mx: i32, my: i32) -> Option<int> {
    if 164 <= mx < 476 && 101 <= my < 101 + 14 * 22 { Some((my - 101) / 22) } else { None }
}

/// The presses (ms) still within two seconds of `now`; a press time after
/// `now` counts as zero ms ago
pub open spec fn recent_presses(times: Seq<u64>, now: u64) -> Seq<u64>
    decreases times.len(),
{
    if times.len() == 0 {
        times
    } else if (if times.last() > now { 0 } else { now - times.last() }) < 2000 {
        recent_presses(times.drop_last(), now).push(times.last())
    } else {
        recent_presses(times.drop_last(), now)
    }
}

impl DevMenu {
    /// Toggle state of an item (None for triggers and Close)
    pub open spec fn toggle_of(&self, idx: int) -> Option<bool> {
        if idx == 0 { Some(self.infinite_fuel) }
        else if idx == 1 { Some(self.noclip) }
        else if idx == 2 { Some(self.show_hitboxes) }
        else if idx == 3 { Some(self.skip_dialogs) }
        else if idx == 4 { Some(self.meme_mode) }
        else if idx == 5 { Some(self.detail_noise) }
        else { None }
    }

    /// The same menu with toggle `idx` flipped
    pub open spec fn flipped(self, idx: int) -> DevMenu {
        if idx == 0 { DevMenu { infinite_fuel: !self.infinite_fuel, ..self } }
        else if idx == 1 { DevMenu { noclip: !self.noclip, ..self } }
        else if idx == 2 { DevMenu { show_hitboxes: !self.show_hitboxes, ..self } }
        else if idx == 3 { DevMenu { skip_dialogs: !self.skip_dialogs, ..self } }
        else if idx == 4 { DevMenu { meme_mode: !self.meme_mode, ..self } }
        else if idx == 5 { DevMenu { detail_noise: !self.detail_noise, ..self } }
        else { self }
    }

    /// What a trigger item does
    pub open spec fn trigger_action(idx: int) -> DevAction {
        if idx == 6 { DevAction::GotoScene(Scene::Garage) }
        else if idx == 7 { DevAction::GotoScene(Scene::Yard) }
        else if idx == 8 { DevAction::GotoScene(Scene::World) }
        else if idx == 9 { DevAction::GotoScene(Scene::CarShow) }
        else if idx == 10 { DevAction::GotoScene(Scene::Junkyard) }
        else if idx == 11 { DevAction::RefuelTank }
        else if idx == 12 { DevAction::TriggerFigge }
        else { DevAction::Nothing }
    }

    /// Closed menu, first item selected, all toggles off
    pub fn new() -> (r: Self)
        ensures
            !r.open && r.selected == 0,
            !r.infinite_fuel && !r.noclip && !r.show_hitboxes,
            !r.skip_dialogs && !r.meme_mode && !r.detail_noise,
            r.hash_times@.len() == 0,
    {
        DevMenu {
            open: false,
            selected: 0,
            infinite_fuel: false,
            noclip: false,
            show_hitboxes: false,
            skip_dialogs: false,
            meme_mode: false,
            detail_noise: false,
            hash_times: Vec::new(),
        }
    }

    /// Record a '#' press at time `now_ms`. Presses older than two seconds
    /// are forgotten; the fifth recent press toggles the menu, selects the
    /// first item, forgets all presses and returns true (play the beep).
    pub fn on_hash_press(&mut self, now_ms: u64) -> (r: bool)
        ensures
            ({
                let recent = recent_presses(old(self).hash_times@.push(now_ms), now_ms);
                &&& r == (recent.len() >= 5)
                &&& r ==> final(self).hash_times@.len() == 0 && final(self).open == !old(self).open && final(self).selected == 0
                &&& !r ==> final(self).hash_times@ == recent && final(self).open == old(self).open
                    && final(self).selected == old(self).selected
                &&& final(self).infinite_fuel == old(self).infinite_fuel
                &&& final(self).noclip == old(self).noclip
                &&& final(self).show_hitboxes == old(self).show_hitboxes
                &&& final(self).skip_dialogs == old(self).skip_dialogs
                &&& final(self).meme_mode == old(self).meme_mode
                &&& final(self).detail_noise == old(self).detail_noise
            }),
    {
        self.hash_times.push(now_ms);
        let ghost all = self.hash_times@;
        let mut kept: Vec<u64> = Vec::new();
        let mut i: usize = 0;
        while i < self.hash_times.len()
            invariant
                self.hash_times@ == all,
                i <= all.len(),
                kept@ == recent_presses(all.take(i as int), now_ms),
            decreases all.len() - i,
        {
            let t = self.hash_times[i];
            assert(all.take(i + 1).drop_last() =~= all.take(i as int));
            let age: u64 = if t > now_ms { 0 } else { now_ms - t };
            if age < 2000 {
                kept.push(t);
            }
            i = i + 1;
        }
        assert(all.take(all.len() as int) =~= all);
        if kept.len() >= 5 {
            self.hash_times = Vec::new();
            self.open = !self.open;
            self.selected = 0;
            true
        } else {
            self.hash_times = kept;
            false
        }
    }

    /// Select the item above (stays on the first)
    pub fn nav_up(&mut self)
        ensures
            final(self).selected == (if old(self).selected > 0 { old(self).selected - 1 } else { 0int }),
            *final(self) == (DevMenu { selected: final(self).selected, ..*old(self) }),
    {
        if self.selected > 0 {
            self.selected = self.selected - 1;
        }
    }

    /// Select the item below (stays on the last)
    pub fn nav_down(&mut self)
        ensures
            final(self).selected == (if old(self).selected < MENU_LEN - 1 { old(self).selected + 1 } else { old(self).selected as int }),
            *final(self) == (DevMenu { selected: final(self).selected, ..*old(self) }),
    {
        if self.selected < MENU_LEN - 1 {
            self.selected = self.selected + 1;
        }
    }

    /// Toggle state of an item (None for triggers and Close)
    pub fn toggle_state(&self, idx: usize) -> (r: Option<bool>)
        ensures
            r == self.toggle_of(idx as int),
    {
        match idx {
            0 => Some(self.infinite_fuel),
            1 => Some(self.noclip),
            2 => Some(self.show_hitboxes),
            3 => Some(self.skip_dialogs),
            4 => Some(self.meme_mode),
            5 => Some(self.detail_noise),
            _ => None,
        }
    }

    /// Flip a toggle item (other items: no change)
    pub fn flip_toggle(&mut self, idx: usize)
        ensures
            *final(self) == old(self).flipped(idx as int),
    {
        match idx {
            0 => self.infinite_fuel = !self.infinite_fuel,
            1 => self.noclip = !self.noclip,
            2 => self.show_hitboxes = !self.show_hitboxes,
            3 => self.skip_dialogs = !self.skip_dialogs,
            4 => self.meme_mode = !self.meme_mode,
            5 => self.detail_noise = !self.detail_noise,
            _ => {},
        }
    }

    /// Fire a trigger item: the menu closes and the item's action comes back
    pub fn fire_trigger(&mut self, idx: usize) -> (r: DevAction)
        ensures
            r == Self::trigger_action(idx as int),
            *final(self) == (DevMenu { open: false, ..*old(self) }),
    {
        self.open = false;
        match idx {
            6 => DevAction::GotoScene(Scene::Garage),
            7 => DevAction::GotoScene(Scene::Yard),
            8 => DevAction::GotoScene(Scene::World),
            9 => DevAction::GotoScene(Scene::CarShow),
            10 => DevAction::GotoScene(Scene::Junkyard),
            11 => DevAction::RefuelTank,
            12 => DevAction::TriggerFigge,
            _ => DevAction::Nothing,
        }
    }

    /// Activate the selected item: a toggle flips (action None), a trigger
    /// closes the menu and gives its action, Close closes the menu
    pub fn activate(&mut self) -> (r: DevAction)
        requires
            old(self).selected < MENU_LEN,
        ensures
            ({
                let i = old(self).selected as int;
                match item_kind(i) {
                    ItemKind::Toggle => r == DevAction::Nothing && *final(self) == old(self).flipped(i),
                    ItemKind::Trigger => r == Self::trigger_action(i) && *final(self) == (DevMenu { open: false, ..*old(self) }),
                    ItemKind::Close => r == DevAction::Close && *final(self) == (DevMenu { open: false, ..*old(self) }),
                }
            }),
    {
        let sel = self.selected;
        match menu_item_kind(sel) {
            ItemKind::Toggle => {
                self.flip_toggle(sel);
                DevAction::Nothing
            },
            ItemKind::Trigger => self.fire_trigger(sel),
            ItemKind::Close => {
                self.open = false;
                DevAction::Close
            },
        }
    }

    /// Panel layout: (box x, box y, box width, box height, item height)
    pub fn layout() -> (r: (i32, i32, i32, i32, i32))
        ensures
            r == menu_layout(),
    {
        let item_h: i32 = 22;
        let box_w: i32 = 320;
        let box_h: i32 = 50 + 14 * item_h;
        let box_x = (640 - box_w) / 2;
        let box_y = (480 - box_h) / 2;
        (box_x, box_y, box_w, box_h, item_h)
    }

    /// Handle a click while the menu is open: the item under the click is
    /// selected and activated
    pub fn on_click(&mut self, mx: i32, my: i32) -> (r: DevAction)
        ensures
            match item_at(mx, my) {
                Some(i) => {
                    let sel = DevMenu { selected: i as usize, ..*old(self) };
                    match item_kind(i) {
                        ItemKind::Toggle => r == DevAction::Nothing && *final(self) == sel.flipped(i),
                        ItemKind::Trigger => r == Self::trigger_action(i) && *final(self) == (DevMenu { open: false, ..sel }),
                        ItemKind::Close => r == DevAction::Close && *final(self) == (DevMenu { open: false, ..sel }),
                    }
                },
                None => r == DevAction::Nothing && *final(self) == *old(self),
            },
    {
        let (box_x, box_y, box_w, _box_h, item_h) = Self::layout();
        let items_y = box_y + 40;
        let mut i: usize = 0;
        while i < MENU_LEN
            invariant
                i <= MENU_LEN,
                box_x == 160 && box_w == 320 && items_y == 101 && item_h == 22,
                *self == *old(self),
                !(164 <= mx < 476 && 101 <= my < 101 + i * 22),
            decreases MENU_LEN - i,
        {
            let iy = items_y + (i as i32) * item_h;
            if mx >= box_x + 4 && mx < box_x + box_w - 4 && my >= iy && my < iy + item_h {
                assert((my - 101) / 22 == i) by (nonlinear_arith)
                    requires
                        101 + i * 22 <= my < 101 + i * 22 + 22,
                ;
                self.selected = i;
                return self.activate();
            }
            i = i + 1;
        }
        DevAction::Nothing
    }
}

// ---------------------------------------------------------------------------
// Drawing
// ---------------------------------------------------------------------------

/// A pixel darkened to a third of its brightness (opaque)
pub open spec fn darkened(p: u32) -> u32 {
    0xFF000000u32 | ((((p >> 16u32) & 0xFFu32) / 3) << 16u32) | ((((p >> 8u32) & 0xFFu32) / 3) << 8u32) | ((p & 0xFFu32) / 3)
}

/// Darken every framebuffer pixel behind the open menu
pub fn darken(fb: &mut [u32])
    ensures
        final(fb)@.len() == old(fb)@.len(),
        forall|k: int| 0 <= k < final(fb)@.len() ==> #[trigger] final(fb)@[k] == darkened(old(fb)@[k]),
{
    let mut i: usize = 0;
    while i < fb.len()
        invariant
            fb@.len() == old(fb)@.len(),
            i <= fb@.len(),
            forall|k: int| 0 <= k < i ==> #[trigger] fb@[k] == darkened(old(fb)@[k]),
            forall|k: int| i <= k < fb@.len() ==> #[trigger] fb@[k] == old(fb)@[k],
        decreases fb@.len() - i,
    {
        let p = fb[i];
        let r = (p >> 16) & 0xFF;
        let g = (p >> 8) & 0xFF;
        let b = p & 0xFF;
        fb[i] = 0xFF000000u32 | ((r / 3) << 16) | ((g / 3) << 8) | (b / 3);
        i = i + 1;
    }
}

/// One drawing step of the menu overlay
pub enum DrawCmd {
    /// Darken the whole framebuffer
    Darken,
    /// Filled rectangle
    Rect { x: i32, y: i32, w: i32, h: i32, color: u32 },
    /// Rectangle outline
    Outline { x: i32, y: i32, w: i32, h: i32, color: u32 },
    /// Text with a drop shadow
    TextShadow { x: i32, y: i32, text: String, color: u32 },
    /// Plain text
    Text { x: i32, y: i32, text: String, color: u32 },
}

/// Abstract drawing step
pub enum DrawV {
    Darken,
    Rect { x: i32, y: i32, w: i32, h: i32, color: u32 },
    Outline { x: i32, y: i32, w: i32, h: i32, color: u32 },
    TextShadow { x: i32, y: i32, text: Seq<char>, color: u32 },
    Text { x: i32, y: i32, text: Seq<char>, color: u32 },
}

impl View for DrawCmd {
    type V = DrawV;

    open spec fn view(&self) -> DrawV {
        match self {
            DrawCmd::Darken => DrawV::Darken,
            DrawCmd::Rect { x, y, w, h, color } => DrawV::Rect { x: *x, y: *y, w: *w, h: *h, color: *color },
            DrawCmd::Outline { x, y, w, h, color } => DrawV::Outline { x: *x, y: *y, w: *w, h: *h, color: *color },
            DrawCmd::TextShadow { x, y, text, color } => DrawV::TextShadow { x: *x, y: *y, text: text@, color: *color },
            DrawCmd::Text { x, y, text, color } => DrawV::Text { x: *x, y: *y, text: text@, color: *color },
        }
    }
}

pub open spec fn draws_view(s: Seq<DrawCmd>) -> Seq<DrawV> {
    s.map_values(|c: DrawCmd| c@)
}

/// The text of an item row: "> " for the selected one, the label, and the
/// state of a toggle
pub open spec fn item_line(selected: bool, label: Seq<char>, state: Option<bool>) -> Seq<char> {
    (if selected { "> "@ } else { "  "@ }) + label
        + match state { Some(true) => " [ON]"@, Some(false) => " [OFF]"@, None => Seq::<char>::empty() }
}

/// The color of an item row
pub open spec fn item_color(selected: bool, kind: ItemKind, state: Option<bool>) -> u32 {
    if selected {
        0xFFFFFFFF
    } else {
        match kind {
            ItemKind::Toggle => if state == Some(true) { 0xFF00FF88 } else { 0xFFBBBBBB },
            ItemKind::Trigger => 0xFFFFCC44,
            ItemKind::Close => 0xFF888888,
        }
    }
}

/// Darkening, the panel with its double outline, and the centered title
pub open spec fn menu_head(title_width: i32) -> Seq<DrawV> {
    seq![
        DrawV::Darken,
        DrawV::Rect { x: 160, y: 61, w: 320, h: 358, color: 0xFF0d0d1a },
        DrawV::Outline { x: 160, y: 61, w: 320, h: 358, color: 0xFF00CC66 },
        DrawV::Outline { x: 162, y: 63, w: 316, h: 354, color: 0xFF006633 },
        DrawV::TextShadow { x: (160 + half_toward_zero(320 - title_width)) as i32, y: 75, text: "~ DEV MENU ~"@, color: 0xFF00FF88 },
    ]
}

impl DevMenu {
    /// The drawing steps of item row `i` (row top at 101 + 22 i)
    pub open spec fn row_draws(&self, i: int) -> Seq<DrawV> {
        let iy = 101 + i * 22;
        let highlight = if i == self.selected {
            seq![DrawV::Rect { x: 164, y: iy as i32, w: 312, h: 20, color: 0xFF1a3326 }]
        } else {
            Seq::empty()
        };
        let divider = if i == 5 || i == 6 || i == 13 {
            seq![DrawV::Rect { x: 170, y: (iy - 2) as i32, w: 300, h: 1, color: 0xFF336644 }]
        } else {
            Seq::empty()
        };
        highlight + divider + seq![DrawV::TextShadow {
            x: 176,
            y: (iy + 4) as i32,
            text: item_line(i == self.selected, item_label(i), self.toggle_of(i)),
            color: item_color(i == self.selected, item_kind(i), self.toggle_of(i)),
        }]
    }

    /// The drawing steps of the first `n` item rows
    pub open spec fn rows_draws(&self, n: int) -> Seq<DrawV>
        decreases n,
    {
        if n <= 0 { Seq::empty() } else { self.rows_draws(n - 1) + self.row_draws(n - 1) }
    }

    /// The drawing steps of the open menu
    pub open spec fn menu_draws(&self, title_width: i32) -> Seq<DrawV> {
        menu_head(title_width) + self.rows_draws(14) + seq![
            DrawV::Text { x: 170, y: 401, text: "Up/Down + Enter | Klick | 5x# schliesst"@, color: 0xFF446655 },
        ]
    }

    /// Text of item row `i`
    pub fn item_text(&self, i: usize) -> (r: String)
        requires
            i < MENU_LEN,
        ensures
            r@ == item_line(i == self.selected, item_label(i as int), self.toggle_of(i as int)),
    {
        let mut s = String::new();
        s.append(if i == self.selected { "> " } else { "  " });
        s.append(menu_item_label(i));
        let suffix = match self.toggle_state(i) {
            Some(true) => " [ON]",
            Some(false) => " [OFF]",
            None => "",
        };
        s.append(suffix);
        proof {
            reveal_strlit("");
        }
        assert(s@ =~= item_line(i == self.selected, item_label(i as int), self.toggle_of(i as int)));
        s
    }

    /// Color of item row `i`
    pub fn item_color_of(&self, i: usize) -> (r: u32)
        requires
            i < MENU_LEN,
        ensures
            r == item_color(i == self.selected, item_kind(i as int), self.toggle_of(i as int)),
    {
        if i == self.selected {
            0xFFFFFFFF
        } else {
            match menu_item_kind(i) {
                ItemKind::Toggle => {
                    match self.toggle_state(i) {
                        Some(true) => 0xFF00FF88,
                        _ => 0xFFBBBBBB,
                    }
                },
                ItemKind::Trigger => 0xFFFFCC44,
                ItemKind::Close => 0xFF888888,
            }
        }
    }

    /// The drawing steps of the open menu (none when closed): darken the
    /// screen, the panel with a double outline, the centered title (of the
    /// given pixel width), one row per item with a highlight for the selected
    /// one and dividers before the video toggle, the triggers and Close, and
    /// the footer hint
    pub fn draw_commands(&self, title_width: i32) -> (r: Vec<DrawCmd>)
        requires
            title_width > i32::MIN + 320,
        ensures
            draws_view(r@) == (if self.open { self.menu_draws(title_width) } else { Seq::empty() }),
    {
        let mut out: Vec<DrawCmd> = Vec::new();
        if !self.open {
            return out;
        }
        out.push(DrawCmd::Darken);
        let (box_x, box_y, box_w, box_h, item_h) = Self::layout();
        out.push(DrawCmd::Rect { x: box_x, y: box_y, w: box_w, h: box_h, color: 0xFF0d0d1a });
        out.push(DrawCmd::Outline { x: box_x, y: box_y, w: box_w, h: box_h, color: 0xFF00CC66 });
        out.push(DrawCmd::Outline { x: box_x + 2, y: box_y + 2, w: box_w - 4, h: box_h - 4, color: 0xFF006633 });
        let ghost head = draws_view(out@);
        out.push(DrawCmd::TextShadow {
            x: box_x + (box_w - title_width) / 2,
            y: box_y + 14,
            text: owned("~ DEV MENU ~"),
            color: 0xFF00FF88,
        });
        let items_y = box_y + 40;
        let mut i: usize = 0;
        let ghost top = draws_view(out@);
        assert(top =~= menu_head(title_width));
        while i < MENU_LEN
            invariant
                i <= MENU_LEN,
                box_x == 160 && box_y == 61 && box_w == 320 && box_h == 358 && item_h == 22,
                items_y == 101,
                draws_view(out@) == top + self.rows_draws(i as int),
            decreases MENU_LEN - i,
        {
            let ghost before = draws_view(out@);
            let iy = items_y + (i as i32) * item_h;
            if i == self.selected {
                out.push(DrawCmd::Rect { x: box_x + 4, y: iy, w: box_w - 8, h: item_h - 2, color: 0xFF1a3326 });
            }
            if i == 5 || i == 6 || i == MENU_LEN - 1 {
                out.push(DrawCmd::Rect { x: box_x + 10, y: iy - 2, w: box_w - 20, h: 1, color: 0xFF336644 });
            }
            let text = self.item_text(i);
            let color = self.item_color_of(i);
            out.push(DrawCmd::TextShadow { x: box_x + 16, y: iy + 4, text, color });
            assert(draws_view(out@) =~= before + self.row_draws(i as int));
            i = i + 1;
        }
        out.push(DrawCmd::Text {
            x: box_x + 10,
            y: box_y + box_h - 18,
            text: owned("Up/Down + Enter | Klick | 5x# schliesst"),
            color: 0xFF446655,
        });
        assert(draws_view(out@) =~= self.menu_draws(title_width));
        out
    }
}

impl DevMenu {
    /// Draw the menu: when open, every framebuffer pixel is darkened to a
    /// third of its brightness, and the remaining steps (panel, title, rows
    /// and footer, whose text needs the font) come back in order; when
    /// closed, nothing is drawn
    pub fn draw(&self, fb: &mut [u32], title_width: i32) -> (r: Vec<DrawCmd>)
        requires
            title_width > i32::MIN + 320,
        ensures
            final(fb)@.len() == old(fb)@.len(),
            self.open ==> forall|k: int| 0 <= k < final(fb)@.len() ==> #[trigger] final(fb)@[k] == darkened(old(fb)@[k]),
            !self.open ==> final(fb)@ == old(fb)@,
            draws_view(r@) == (if self.open { self.menu_draws(title_width).drop_first() } else { Seq::empty() }),
    {
        let mut cmds = self.draw_commands(title_width);
        if !self.open {
            return cmds;
        }
        darken(fb);
        let ghost before = cmds@;
        assert(draws_view(before).len() >= 1);
        let _darken_step = cmds.remove(0);
        assert(cmds@ =~= before.drop_first());
        assert(draws_view(cmds@) =~= draws_view(before).drop_first());
        cmds
    }
}

// ---------------------------------------------------------------------------
// Carrying out an action
// ---------------------------------------------------------------------------

/// What a developer menu action leaves to the game
#[derive(Debug, Clone, Copy, PartialEq, Eq, Structural)]
pub enum DevOutcome {
    /// Nothing more to do
    Stay,
    /// Go to this scene
    GoTo(Scene),
    /// Fill the drive car's tank
    Refuel,
}

/// Carry out a developer menu action: a warp goes to its scene, the Figge
/// trigger owns "#FiggeIsComing" and goes to the garage, a refill is left to
/// the drive car; nothing else happens
pub fn handle_dev_action(action: DevAction, save: &mut SaveManager) -> (r: DevOutcome)
    ensures
        match action {
            DevAction::TriggerFigge => r == DevOutcome::GoTo(Scene::Garage)
                && final(save)@ == old(save)@.map_active(|u: UserView| u.add_stuff("#FiggeIsComing"@)),
            DevAction::GotoScene(sc) => r == DevOutcome::GoTo(sc) && *final(save) == *old(save),
            DevAction::RefuelTank => r == DevOutcome::Refuel && *final(save) == *old(save),
            _ => r == DevOutcome::Stay && *final(save) == *old(save),
        },
{
    match action {
        DevAction::Nothing | DevAction::Close => DevOutcome::Stay,
        DevAction::GotoScene(sc) => DevOutcome::GoTo(sc),
        DevAction::RefuelTank => DevOutcome::Refuel,
        DevAction::TriggerFigge => {
            save.add_stuff("#FiggeIsComing");
            DevOutcome::GoTo(Scene::Garage)
        },
    }
}

// ---------------------------------------------------------------------------
// Laws
// ---------------------------------------------------------------------------

/// Flipping a toggle twice gives back the menu it started from.
pub proof fn law_flip_twice(m: DevMenu, idx: int)
    ensures
        m.flipped(idx).flipped(idx) == m,
{
}

/// Keyboard navigation keeps the selection on a menu item.
pub proof fn law_navigation_stays_in_menu(selected: usize)
    requires
        selected < MENU_LEN,
    ensures
        (if selected > 0 { selected - 1 } else { 0int }) < MENU_LEN,
        (if selected < MENU_LEN - 1 { selected + 1 } else { selected as int }) < MENU_LEN,
{
}

} // verus!
