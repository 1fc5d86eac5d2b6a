//! Keyboard input: the keys the game reacts to, scene shortcuts, sprite
//! visibility toggles for inspecting a scene, and the driving controls.

use vstd::prelude::*;
use crate::build_car::sprites_view;
use crate::game_rules::{next_pile, prev_pile};
use crate::scene::Scene;
use crate::sprite::{Sprite, SpriteV};

verus! {

/// A key the game reacts to
#[derive(Debug, Clone, Copy, PartialEq, Eq, Structural)]
pub enum GameKey {
    Up,
    Down,
    Left,
    Right,
    Enter,
    Escape,
    Space,
    Backspace,
    Tab,
    H,
    F1,
    F2,
    F3,
    F4,
    F5,
    F6,
    F7,
    F8,
    F9,
    /// Any other key
    Other,
}

/// The scene a function key jumps to
pub open spec fn key_scene_spec(key: GameKey) -> Option<Scene> {
    match key {
        GameKey::F1 => Some(Scene::Menu),
        GameKey::F2 => Some(Scene::Garage),
        GameKey::F3 => Some(Scene::Junkyard),
        GameKey::F4 => Some(Scene::Yard),
        GameKey::F5 => Some(Scene::World),
        GameKey::F6 => Some(Scene::CarShow),
        GameKey::F7 => Some(Scene::CarGallery),
        GameKey::F8 => Some(Scene::Destination(85)),
        GameKey::F9 => Some(Scene::Destination(92)),
        _ => None,
    }
}

/// What a key does in a scene
#[derive(Debug, Clone, Copy, PartialEq, Eq, Structural)]
pub enum SceneKey {
    /// Go to another scene
    Switch(Scene),
    /// Show another junk pile
    Pile(u8),
    /// Nothing (or only a change of sprite visibility)
    Stay,
}

/// All sprites shown or hidden: hidden if all were visible, else shown
pub open spec fn toggled_all(s: Seq<SpriteV>) -> Seq<SpriteV> {
    let all_visible = forall|i: int| 0 <= i < s.len() ==> #[trigger] s[i].visible;
    s.map_values(|v: SpriteV| SpriteV { visible: !all_visible, ..v })
}

/// The first hidden sprite drawn above the background, among the first `n`
pub open spec fn first_hidden(s: Seq<SpriteV>, n: int) -> Option<int>
    decreases n,
{
    if n <= 0 {
        None
    } else {
        match first_hidden(s, n - 1) {
            Some(i) => Some(i),
            None => if !s[n - 1].visible && s[n - 1].z_order > 0 { Some(n - 1) } else { None },
        }
    }
}

/// Space: the first hidden sprite above the background is shown; when there
/// is none, only the background (draw order 0) stays visible
pub open spec fn shown_next(s: Seq<SpriteV>) -> Seq<SpriteV> {
    match first_hidden(s, s.len() as int) {
        Some(i) => s.update(i, SpriteV { visible: true, ..s[i] }),
        None => s.map_values(|v: SpriteV| SpriteV { visible: v.z_order == 0, ..v }),
    }
}

/// What a key does in a scene, and how it changes the scene's sprites: F1-F9
/// jump to scenes, Tab shows or hides all sprites, Space shows the next
/// hidden one, and the arrow keys turn the junk piles
pub open spec fn scene_key_spec(scene: Scene, junk_pile: u8, key: GameKey, s: Seq<SpriteV>) -> (SceneKey, Seq<SpriteV>) {
    match key_scene_spec(key) {
        Some(t) => (SceneKey::Switch(t), s),
        None => match key {
            GameKey::Tab => (SceneKey::Stay, toggled_all(s)),
            GameKey::Space => (SceneKey::Stay, shown_next(s)),
            GameKey::Left => if scene == Scene::Junkyard {
                (SceneKey::Pile(if junk_pile <= 1 { 6 } else { (junk_pile - 1) as u8 }), s)
            } else {
                (SceneKey::Stay, s)
            },
            GameKey::Right => if scene == Scene::Junkyard {
                (SceneKey::Pile(if junk_pile >= 6 { 1 } else { (junk_pile + 1) as u8 }), s)
            } else {
                (SceneKey::Stay, s)
            },
            _ => (SceneKey::Stay, s),
        },
    }
}

/// The scene a function key jumps to
pub fn key_scene(key: GameKey) -> (r: Option<Scene>)
    ensures
        r == key_scene_spec(key),
{
    match key {
        GameKey::F1 => Some(Scene::Menu),
        GameKey::F2 => Some(Scene::Garage),
        GameKey::F3 => Some(Scene::Junkyard),
        GameKey::F4 => Some(Scene::Yard),
        GameKey::F5 => Some(Scene::World),
        GameKey::F6 => Some(Scene::CarShow),
        GameKey::F7 => Some(Scene::CarGallery),
        GameKey::F8 => Some(Scene::Destination(85)),
        GameKey::F9 => Some(Scene::Destination(92)),
        _ => None,
    }
}

/// Show all sprites, or hide them all when all are visible
pub fn toggle_all_sprites(sprites: &mut Vec<Sprite>)
    ensures
        sprites_view(final(sprites)@) == toggled_all(sprites_view(old(sprites)@)),
{
    let ghost s0 = sprites_view(sprites@);
    let n = sprites.len();
    let mut all_visible = true;
    let mut i: usize = 0;
    while i < n
        invariant
            n == sprites@.len(),
            s0 == sprites_view(sprites@),
            i <= n,
            all_visible == (forall|k: int| 0 <= k < i ==> #[trigger] s0[k].visible),
        decreases n - i,
    {
        assert(s0[i as int] == sprites@[i as int]@);
        if !sprites[i].visible {
            assert(!s0[i as int].visible);
            all_visible = false;
        } else {
            assert(s0[i as int].visible);
        }
        i = i + 1;
    }
    let mut j: usize = 0;
    while j < n
        invariant
            n == sprites@.len(),
            n == s0.len(),
            j <= n,
            all_visible == (forall|k: int| 0 <= k < s0.len() ==> #[trigger] s0[k].visible),
            forall|k: int| 0 <= k < j ==> #[trigger] sprites_view(sprites@)[k] == (SpriteV { visible: !all_visible, ..s0[k] }),
            forall|k: int| j <= k < n ==> #[trigger] sprites_view(sprites@)[k] == s0[k],
        decreases n - j,
    {
        let ghost before = sprites@;
        sprites[j].visible = !all_visible;
        proof {
            assert forall|k: int| 0 <= k < n implies #[trigger] sprites_view(sprites@)[k] == (if k == j {
                SpriteV { visible: !all_visible, ..sprites_view(before)[k] }
            } else {
                sprites_view(before)[k]
            }) by {
                assert(sprites_view(sprites@)[k] == sprites@[k]@);
                assert(sprites_view(before)[k] == before[k]@);
            }
        }
        j = j + 1;
    }
    assert(sprites_view(sprites@) =~= toggled_all(s0));
}

proof fn lemma_first_hidden_stable(s: Seq<SpriteV>, n: int, m: int)
    requires
        0 <= n <= m,
        first_hidden(s, n) is Some,
    ensures
        first_hidden(s, m) == first_hidden(s, n),
    decreases m - n,
{
    if m > n {
        lemma_first_hidden_stable(s, n, m - 1);
    }
}

/// Show the first hidden sprite above the background; without one, reset
/// to the background only
pub fn show_next_sprite(sprites: &mut Vec<Sprite>)
    ensures
        sprites_view(final(sprites)@) == shown_next(sprites_view(old(sprites)@)),
{
    let ghost s0 = sprites_view(sprites@);
    let n = sprites.len();
    let mut i: usize = 0;
    while i < n
        invariant
            n == sprites@.len(),
            s0 == sprites_view(sprites@),
            s0 == sprites_view(old(sprites)@),
            i <= n,
            first_hidden(s0, i as int) is None,
        decreases n - i,
    {
        assert(s0[i as int] == sprites@[i as int]@);
        if !sprites[i].visible && sprites[i].z_order > 0 {
            proof {
                assert(first_hidden(s0, i + 1) == Some(i as int));
                lemma_first_hidden_stable(s0, i + 1, n as int);
                assert(first_hidden(s0, n as int) == Some(i as int));
            }
            let ghost before = sprites@;
            sprites[i].visible = true;
            proof {
                assert forall|k: int| 0 <= k < n implies #[trigger] sprites_view(sprites@)[k] == shown_next(s0)[k] by {
                    assert(sprites_view(sprites@)[k] == sprites@[k]@);
                    assert(sprites_view(before)[k] == before[k]@);
                }
            }
            assert(sprites_view(sprites@) =~= shown_next(s0));
            return;
        }
        i = i + 1;
    }
    let mut j: usize = 0;
    while j < n
        invariant
            n == sprites@.len(),
            n == s0.len(),
            j <= n,
            forall|k: int| 0 <= k < j ==> #[trigger] sprites_view(sprites@)[k] == (SpriteV { visible: s0[k].z_order == 0, ..s0[k] }),
            forall|k: int| j <= k < n ==> #[trigger] sprites_view(sprites@)[k] == s0[k],
        decreases n - j,
    {
        let ghost before = sprites@;
        let z0 = sprites[j].z_order == 0;
        sprites[j].visible = z0;
        proof {
            assert forall|k: int| 0 <= k < n implies #[trigger] sprites_view(sprites@)[k] == (if k == j {
                SpriteV { visible: z0, ..sprites_view(before)[k] }
            } else {
                sprites_view(before)[k]
            }) by {
                assert(sprites_view(sprites@)[k] == sprites@[k]@);
                assert(sprites_view(before)[k] == before[k]@);
            }
        }
        j = j + 1;
    }
    assert(sprites_view(sprites@) =~= shown_next(s0));
}

/// A key pressed in a scene
pub fn scene_key(scene: Scene, junk_pile: u8, key: GameKey, sprites: &mut Vec<Sprite>) -> (r: SceneKey)
    ensures
        (r, sprites_view(final(sprites)@)) == scene_key_spec(scene, junk_pile, key, sprites_view(old(sprites)@)),
{
    if let Some(t) = key_scene(key) {
        return SceneKey::Switch(t);
    }
    match key {
        GameKey::Tab => {
            toggle_all_sprites(sprites);
            SceneKey::Stay
        },
        GameKey::Space => {
            show_next_sprite(sprites);
            SceneKey::Stay
        },
        GameKey::Left => if scene == Scene::Junkyard { SceneKey::Pile(prev_pile(junk_pile)) } else { SceneKey::Stay },
        GameKey::Right => if scene == Scene::Junkyard { SceneKey::Pile(next_pile(junk_pile)) } else { SceneKey::Stay },
        _ => SceneKey::Stay,
    }
}

/// Where the game sends a key: while the developer menu is open it takes
/// every key (arrows move, Enter activates, Escape closes); otherwise Space
/// skips the current subtitle, H sounds the horn on the world map,
/// Backspace edits the name field, Enter confirms the name (leaving the
/// menu when that starts a game), and then the scene gets the key
#[derive(Debug, Clone, Copy, PartialEq, Eq, Structural)]
pub struct KeyRoute {
    /// The developer menu takes the key
    pub dev_menu: bool,
    /// The current subtitle is skipped
    pub skip_subtitle: bool,
    /// The horn sounds
    pub horn: bool,
    /// A backspace goes to the name field
    pub backspace: bool,
    /// The name field is confirmed
    pub confirm_name: bool,
    /// The scene gets the key (unless confirming the name starts a game)
    pub to_scene: bool,
}

/// Where the game sends a key
pub fn route_key(dev_menu_open: bool, scene: Scene, key: GameKey) -> (r: KeyRoute)
    ensures
        r == (if dev_menu_open {
            KeyRoute { dev_menu: true, skip_subtitle: false, horn: false, backspace: false, confirm_name: false, to_scene: false }
        } else {
            KeyRoute {
                dev_menu: false,
                skip_subtitle: key == GameKey::Space,
                horn: key == GameKey::H && scene == Scene::World,
                backspace: key == GameKey::Backspace,
                confirm_name: key == GameKey::Enter,
                to_scene: true,
            }
        }),
{
    if dev_menu_open {
        KeyRoute { dev_menu: true, skip_subtitle: false, horn: false, backspace: false, confirm_name: false, to_scene: false }
    } else {
        KeyRoute {
            dev_menu: false,
            skip_subtitle: key == GameKey::Space,
            horn: key == GameKey::H && scene == Scene::World,
            backspace: key == GameKey::Backspace,
            confirm_name: key == GameKey::Enter,
            to_scene: true,
        }
    }
}

/// The car's controls set from the keyboard
#[derive(Debug, Clone, Copy, PartialEq, Eq, Structural)]
pub struct KeyControls {
    pub throttle: bool,
    pub braking: bool,
    pub steer_left: bool,
    pub steer_right: bool,
}

/// Driving controls from the arrow keys
#[derive(Debug, Clone, Copy, PartialEq, Eq, Structural)]
pub struct DriveControls {
    /// Keyboard steering is on (else the mouse steers)
    pub key_steer: bool,
    /// The controls; `None` when the mouse steers
    pub keys: Option<KeyControls>,
}

/// Driving controls of a frame: with the popup open the car gets no input;
/// any arrow key switches to keyboard steering, which then follows the keys
pub fn drive_controls(popup_open: bool, key_steer: bool, up: bool, down: bool, left: bool, right: bool) -> (r: DriveControls)
    ensures
        r == (if popup_open {
            DriveControls { key_steer, keys: Some(KeyControls { throttle: false, braking: false, steer_left: false, steer_right: false }) }
        } else {
            let ks = key_steer || up || down || left || right;
            DriveControls { key_steer: ks, keys: if ks {
                Some(KeyControls { throttle: up, braking: down, steer_left: left, steer_right: right })
            } else {
                None
            } }
        }),
{
    if popup_open {
        return DriveControls { key_steer, keys: Some(KeyControls { throttle: false, braking: false, steer_left: false, steer_right: false }) };
    }
    let ks = key_steer || up || down || left || right;
    let keys = if ks { Some(KeyControls { throttle: up, braking: down, steer_left: left, steer_right: right }) } else { None };
    DriveControls { key_steer: ks, keys }
}

} // verus!
