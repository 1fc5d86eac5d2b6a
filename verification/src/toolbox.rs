//! Toolbox tab of the world view: a tab at the right screen edge that slides
//! out when hovered and opens a popup menu (Home, Quit, Cancel, Steering,
//! Diploma) when clicked.

use vstd::prelude::*;
use crate::sprite::{Bitmap, Sprite, SpriteV};
use crate::text::owned;

verus! {

/// What happens when a popup button is clicked
#[derive(Debug, Clone, Copy, PartialEq, Eq, Structural)]
pub enum PopupAction {
    /// Go back to the yard
    Home,
    /// Go back to the main menu
    Quit,
    /// Close the popup
    Cancel,
    /// Toggle keyboard/mouse steering
    Steering,
    /// Show earned medals / diploma info
    Diploma,
}

/// A popup button's click region, relative to the popup's origin
pub struct MenuButton {
    pub x: i32,
    pub y: i32,
    pub w: i32,
    pub h: i32,
    pub action: PopupAction,
    /// Sound played when the button is hovered
    pub hover_sound: &'static str,
}

/// Icon position
pub const ICON_X: i32 = 659;
pub const ICON_Y: i32 = 439;
/// How far the icon slides left when hovered
pub const ICON_SLIDE: i32 = 40;

/// Popup hover sound for the toolbox tab
pub const TOOLBOX_HOVER_SOUND: &'static str = "00e040v0";

/// The popup buttons: (x, y, w, h, action)
pub open spec fn menu_button_table() -> Seq<(i32, i32, i32, i32, PopupAction)> {
    seq![
        (116i32, 74i32, 81i32, 130i32, PopupAction::Steering),
        (216i32, 76i32, 65i32, 133i32, PopupAction::Home),
        (316i32, 87i32, 52i32, 137i32, PopupAction::Diploma),
        (390i32, 85i32, 70i32, 141i32, PopupAction::Quit),
        (470i32, 215i32, 58i32, 110i32, PopupAction::Cancel),
    ]
}

pub open spec fn button_row(b: MenuButton) -> (i32, i32, i32, i32, PopupAction) {
    (b.x, b.y, b.w, b.h, b.action)
}

/// Menu button definitions with click regions (relative to the popup origin)
pub fn menu_buttons() -> (r: Vec<MenuButton>)
    ensures
        r@.len() == menu_button_table().len(),
        forall|i: int| 0 <= i < r@.len() ==> button_row(#[trigger] r@[i]) == menu_button_table()[i],
{
    let mut r: Vec<MenuButton> = Vec::new();
    r.push(MenuButton { x: 116, y: 74, w: 81, h: 130, action: PopupAction::Steering, hover_sound: "09d005v0" });
    r.push(MenuButton { x: 216, y: 76, w: 65, h: 133, action: PopupAction::Home, hover_sound: "09d006v0" });
    r.push(MenuButton { x: 316, y: 87, w: 52, h: 137, action: PopupAction::Diploma, hover_sound: "09d002v0" });
    r.push(MenuButton { x: 390, y: 85, w: 70, h: 141, action: PopupAction::Quit, hover_sound: "09d003v0" });
    r.push(MenuButton { x: 470, y: 215, w: 58, h: 110, action: PopupAction::Cancel, hover_sound: "09d004v0" });
    r
}

/// A pre-loaded bitmap with its screen position
pub struct SpriteData {
    pub x: i32,
    pub y: i32,
    pub width: u32,
    pub height: u32,
    /// RGBA bytes, row by row
    pub pixels: Vec<u8>,
    pub member_num: u32,
}

/// The position a cast member is shown at: its stored position, or the
/// default when the cast stores none or (0, 0)
pub open spec fn shown_at(pos: Option<(i32, i32)>, default_x: i32, default_y: i32) -> (i32, i32) {
    match pos {
        Some(p) => if p.0 == 0 && p.1 == 0 { (default_x, default_y) } else { p },
        None => (default_x, default_y),
    }
}

/// Place a decoded cast bitmap: `pos` is the position stored in the cast, if any
pub fn load_sprite(bmp: Bitmap, pos: Option<(i32, i32)>, member: u32, default_x: i32, default_y: i32) -> (r: SpriteData)
    ensures
        (r.x, r.y) == shown_at(pos, default_x, default_y),
        r.width == bmp.width,
        r.height == bmp.height,
        r.pixels@ == bmp.pixels@,
        r.member_num == member,
{
    let (px, py) = match pos {
        Some(p) => p,
        None => (default_x, default_y),
    };
    SpriteData {
        x: if px == 0 && py == 0 { default_x } else { px },
        y: if px == 0 && py == 0 { default_y } else { py },
        width: bmp.width,
        height: bmp.height,
        pixels: bmp.pixels,
        member_num: member,
    }
}

/// Toolbox state for the world scene
pub struct Toolbox {
    /// Whether the popup menu is showing
    pub popup_open: bool,
    /// Toolbox icon (shared cast member 97)
    pub icon: Option<SpriteData>,
    /// Popup menu (member 53 of the world cast), centered on screen
    pub popup: Option<SpriteData>,
    /// Whether the toolbox icon is hovered
    pub hovered: bool,
    /// Whether the hint sound was already played this hover
    pub hover_sound_played: bool,
}

/// Is (x, y) on the icon when its left edge is at `ix`?
pub open spec fn icon_covers(icon: SpriteData, ix: int, x: i32, y: i32) -> bool {
    &&& x >= ix
    &&& y >= icon.y
    &&& x < ix + (icon.width as i32)
    &&& y < icon.y + (icon.height as i32)
}

/// Half of `n`, rounded toward zero (integer division by 2)
pub open spec fn half_toward_zero(n: int) -> int {
    if n >= 0 { n / 2 } else { -((-n) / 2) }
}

/// Every icon edge, slid out or not, fits in 32 bits
pub open spec fn icon_fits(icon: SpriteData) -> bool {
    &&& icon.x - ICON_SLIDE >= i32::MIN
    &&& icon.x + (icon.width as i32) <= i32::MAX
    &&& icon.x - ICON_SLIDE + (icon.width as i32) >= i32::MIN
    &&& icon.y + (icon.height as i32) <= i32::MAX
    &&& icon.y + (icon.height as i32) >= i32::MIN
    &&& icon.x + (icon.width as i32) >= i32::MIN
    &&& icon.x - ICON_SLIDE + (icon.width as i32) <= i32::MAX
}

impl Toolbox {
    /// The icon's left edge now
    pub open spec fn icon_left(&self, icon: SpriteData) -> int {
        if self.hovered { icon.x - ICON_SLIDE } else { icon.x as int }
    }

    /// Does (x, y) hit the icon where it is now?
    pub open spec fn icon_hit_spec(&self, x: i32, y: i32) -> bool {
        match self.icon {
            Some(icon) => icon_covers(icon, self.icon_left(icon), x, y),
            None => false,
        }
    }

    /// A toolbox with the given icon and popup (centered on the 640x480
    /// screen), closed and not hovered
    pub fn new(icon: Option<SpriteData>, popup: Option<SpriteData>) -> (r: Self)
        requires
            popup matches Some(p) ==> (p.width as i32) > i32::MIN + 640 && (p.height as i32) > i32::MIN + 480,
        ensures
            !r.popup_open,
            !r.hovered,
            !r.hover_sound_played,
            r.icon == icon,
            match popup {
                Some(p) => r.popup matches Some(q) && q.x == half_toward_zero(640 - (p.width as i32))
                    && q.y == half_toward_zero(480 - (p.height as i32))
                    && q.width == p.width && q.height == p.height
                    && q.pixels == p.pixels && q.member_num == p.member_num,
                None => r.popup is None,
            },
    {
        let popup = match popup {
            Some(mut s) => {
                s.x = (640 - s.width as i32) / 2;
                s.y = (480 - s.height as i32) / 2;
                Some(s)
            },
            None => None,
        };
        Toolbox { popup_open: false, icon, popup, hovered: false, hover_sound_played: false }
    }

    /// The sprites to draw this frame: the icon (slid left 40 px when
    /// hovered) and, while open, the popup on top of everything
    pub fn sprites(&self) -> (r: Vec<Sprite>)
        requires
            self.icon matches Some(icon) ==> icon_fits(icon),
        ensures
            r@.len() == (if self.icon is Some { 1int } else { 0int })
                + (if self.popup_open && self.popup is Some { 1int } else { 0int }),
            self.icon matches Some(icon) ==> ({
                let s = r@[0]@;
                &&& s.x == self.icon_left(icon)
                &&& s.y == icon.y && s.width == icon.width && s.height == icon.height
                &&& s.pixels == icon.pixels@
                &&& s.visible && s.interactive
                &&& s.z_order == 52
                &&& s.name == "toolbox"@
                &&& s.member_num == icon.member_num
            }),
            (self.popup_open && self.popup is Some) ==> ({
                let p = self.popup.unwrap();
                let s = r@[r@.len() - 1]@;
                &&& s.x == p.x && s.y == p.y && s.width == p.width && s.height == p.height
                &&& s.pixels == p.pixels@
                &&& s.visible && !s.interactive
                &&& s.z_order == 100
                &&& s.name == "popup_menu"@
                &&& s.member_num == p.member_num
            }),
    {
        let mut out: Vec<Sprite> = Vec::new();
        if let Some(icon) = &self.icon {
            let x = if self.hovered { icon.x - ICON_SLIDE } else { icon.x };
            out.push(Sprite {
                x,
                y: icon.y,
                width: icon.width,
                height: icon.height,
                pixels: icon.pixels.clone(),
                visible: true,
                z_order: 52,
                name: owned("toolbox"),
                interactive: true,
                member_num: icon.member_num,
            });
        }
        if self.popup_open {
            if let Some(popup) = &self.popup {
                out.push(Sprite {
                    x: popup.x,
                    y: popup.y,
                    width: popup.width,
                    height: popup.height,
                    pixels: popup.pixels.clone(),
                    visible: true,
                    z_order: 100,
                    name: owned("popup_menu"),
                    interactive: false,
                    member_num: popup.member_num,
                });
            }
        }
        out
    }

    /// Does a click hit the toolbox icon?
    pub fn icon_hit(&self, x: i32, y: i32) -> (r: bool)
        requires
            self.icon matches Some(icon) ==> icon_fits(icon),
        ensures
            r == self.icon_hit_spec(x, y),
    {
        match &self.icon {
            Some(icon) => {
                let ix = if self.hovered { icon.x - ICON_SLIDE } else { icon.x };
                x >= ix && y >= icon.y && x < ix + icon.width as i32 && y < icon.y + icon.height as i32
            },
            None => false,
        }
    }

    /// The action of the popup button under a click, if the popup is open
    pub fn popup_hit(&self, screen_x: i32, screen_y: i32) -> (r: Option<PopupAction>)
        requires
            self.popup matches Some(p) ==> i32::MIN <= screen_x - p.x <= i32::MAX && i32::MIN <= screen_y - p.y <= i32::MAX,
        ensures
            r == (if self.popup_open && self.popup is Some {
                first_button(menu_button_table(), screen_x - self.popup.unwrap().x, screen_y - self.popup.unwrap().y)
            } else {
                None
            }),
    {
        if !self.popup_open {
            return None;
        }
        let popup = match &self.popup {
            Some(p) => p,
            None => return None,
        };
        let lx = screen_x - popup.x;
        let ly = screen_y - popup.y;
        let buttons = menu_buttons();
        let mut i: usize = 0;
        assert(menu_button_table().skip(0) =~= menu_button_table());
        while i < buttons.len()
            invariant
                self.popup_open,
                self.popup is Some,
                lx == screen_x - self.popup.unwrap().x,
                ly == screen_y - self.popup.unwrap().y,
                buttons@.len() == menu_button_table().len(),
                forall|k: int| 0 <= k < buttons@.len() ==> button_row(#[trigger] buttons@[k]) == menu_button_table()[k],
                i <= buttons@.len(),
                first_button(menu_button_table(), lx as int, ly as int)
                    == first_button(menu_button_table().skip(i as int), lx as int, ly as int),
            decreases buttons@.len() - i,
        {
            let btn = &buttons[i];
            assert(button_row(buttons@[i as int]) == menu_button_table()[i as int]);
            let ghost rest = menu_button_table().skip(i as int);
            assert(rest[0] == menu_button_table()[i as int]);
            assert(rest.drop_first() =~= menu_button_table().skip(i + 1));
            if lx >= btn.x && ly >= btn.y && lx < btn.x + btn.w && ly < btn.y + btn.h {
                assert(rest.len() > 0);
                assert(first_button(rest, lx as int, ly as int) == Some(rest[0].4));
                return Some(btn.action);
            }
            i = i + 1;
        }
        None
    }

    /// Update the hover state for a mouse position. Once hovered, the icon
    /// stays hovered over its slid-out area. Returns true when a hover just
    /// started and its hint sound was not played yet.
    pub fn update_hover(&mut self, x: i32, y: i32) -> (r: bool)
        requires
            old(self).icon matches Some(icon) ==> icon_fits(icon),
        ensures
            ({
                let was = old(self).hovered;
                let now = old(self).icon_hit_spec(x, y) || (was && match old(self).icon {
                    Some(icon) => icon_covers(icon, icon.x - ICON_SLIDE, x, y),
                    None => false,
                });
                &&& final(self).hovered == now
                &&& r == (now && !was && !old(self).hover_sound_played)
                &&& final(self).hover_sound_played == (if !now { false } else { r || old(self).hover_sound_played })
                &&& final(self).popup_open == old(self).popup_open
                &&& final(self).icon == old(self).icon
                &&& final(self).popup == old(self).popup
            }),
    {
        let was_hovered = self.hovered;
        let direct = self.icon_hit(x, y);
        let slid = match &self.icon {
            Some(icon) => {
                let ix = icon.x - ICON_SLIDE;
                x >= ix && y >= icon.y && x < ix + icon.width as i32 && y < icon.y + icon.height as i32
            },
            None => false,
        };
        self.hovered = direct || (was_hovered && slid);
        let just_hovered = self.hovered && !was_hovered;
        if !self.hovered {
            self.hover_sound_played = false;
        }
        if just_hovered && !self.hover_sound_played {
            self.hover_sound_played = true;
            return true;
        }
        false
    }

    /// Toggle the popup menu open/closed
    pub fn toggle(&mut self)
        ensures
            final(self).popup_open == !old(self).popup_open,
            final(self).hovered == old(self).hovered,
            final(self).hover_sound_played == old(self).hover_sound_played,
            final(self).icon == old(self).icon,
            final(self).popup == old(self).popup,
    {
        self.popup_open = !self.popup_open;
    }
}

/// The action of the first button of `buttons` whose region holds (lx, ly)
pub open spec fn first_button(buttons: Seq<(i32, i32, i32, i32, PopupAction)>, lx: int, ly: int) -> Option<PopupAction>
    decreases buttons.len(),
{
    if buttons.len() == 0 {
        None
    } else {
        let b = buttons[0];
        if lx >= b.0 && ly >= b.1 && lx < b.0 + b.2 && ly < b.1 + b.3 {
            Some(b.4)
        } else {
            first_button(buttons.drop_first(), lx, ly)
        }
    }
}

/// Two button regions overlap
pub open spec fn buttons_overlap(a: (i32, i32, i32, i32, PopupAction), b: (i32, i32, i32, i32, PopupAction)) -> bool {
    &&& a.0 < b.0 + b.2 && a.0 + a.2 > b.0
    &&& a.1 < b.1 + b.3 && a.1 + a.3 > b.1
}

/// No two popup buttons overlap, so a click selects at most one action.
pub proof fn law_popup_buttons_disjoint()
    ensures
        forall|i: int, j: int| 0 <= i < 5 && 0 <= j < 5 && i != j
            ==> !buttons_overlap(#[trigger] menu_button_table()[i], #[trigger] menu_button_table()[j]),
{
}

/// Is (lx, ly) inside a button's region?
pub open spec fn in_button(b: (i32, i32, i32, i32, PopupAction), lx: int, ly: int) -> bool {
    lx >= b.0 && ly >= b.1 && lx < b.0 + b.2 && ly < b.1 + b.3
}

/// A click inside a popup button's region selects that button's action,
/// whatever the order of the table.
pub proof fn law_popup_click_selects_its_button(i: int, lx: int, ly: int)
    requires
        0 <= i < 5,
        in_button(menu_button_table()[i], lx, ly),
    ensures
        first_button(menu_button_table(), lx, ly) == Some(menu_button_table()[i].4),
{
    let t = menu_button_table();
    reveal_with_fuel(first_button, 6);
    assert(t.drop_first() =~= seq![t[1], t[2], t[3], t[4]]);
    assert(t.drop_first().drop_first() =~= seq![t[2], t[3], t[4]]);
    assert(t.drop_first().drop_first().drop_first() =~= seq![t[3], t[4]]);
    assert(t.drop_first().drop_first().drop_first().drop_first() =~= seq![t[4]]);
}

} // verus!
