//! A scene while it is shown: its sprites, buttons, actors, hotspots and
//! draggable parts, the menu's name entry, and how game ticks, dialog cue
//! points, clicks and keys change them. What a scene holds when it is
//! entered comes from the game's asset files and is put in by the caller.

use vstd::prelude::*;
use crate::scene::Scene;
use crate::cast::CastStore;
use crate::scene_layout::scene_layout_v;
use crate::scene_load::{filled, same_but_content};
use crate::drag_drop::targets_view;
use crate::scenes::{MulleButtonV, mulle_buttons_view};
use crate::scenes::{Actor, ActorV, ActorEvent, SceneEvent, MulleButton, Hotspot};
use crate::sprite::{Sprite, SpriteV};
use crate::menu::{NameEntry, char_typed, entered, menu_clicked};
use crate::drag_drop::{DragDropState, DropResult, after_mouse, down_fits, drag_wf, item_sprites, move_fits, up_fits};
use crate::build_car::{BuildCar, flat_sprites, insert_by_z, insert_sprite, placed_view, sort_by_z, sprites_view};
use crate::keys::{GameKey, SceneKey, scene_key, scene_key_spec};
use crate::scene_flow::{SceneClick, first_hotspot, hotspot_hits, lemma_first_hotspot_stable, scene_click, scene_click_spec};
use vstd::string::StringExecFns;
use crate::text::{eq_ignore_ascii_case, eq_ignore_ascii_case_spec, opt_view, owned, replace_all, replace_str, str_eq};

verus! {

/// A scene while it is shown
pub struct SceneHandler {
    pub scene: Scene,
    pub sprites: Vec<Sprite>,
    pub buttons: Vec<MulleButton>,
    pub actors: Vec<Actor>,
    pub hotspots: Vec<Hotspot>,
    /// Name entry of the main menu
    pub menu: NameEntry,
    /// Junk pile shown in the junkyard (1 to 6)
    pub junk_pile: u8,
    pub drag_drop: DragDropState,
    /// Name of the actor that is talking (cue points go to it)
    pub talking_actor: Option<String>,
    /// Whether a road-legal car exists (the yard shows it)
    pub has_car: bool,
    /// Rating of the car at the car show (1 to 5)
    pub carshow_rating: u8,
}

/// The actors as plain values
pub open spec fn actors_view(s: Seq<Actor>) -> Seq<ActorV> {
    s.map_values(|a: Actor| a@)
}

/// Index of the first actor with the given name
pub open spec fn actor_named(s: Seq<ActorV>, name: Seq<char>) -> Option<int>
    decreases s.len(),
{
    if s.len() == 0 {
        None
    } else {
        match actor_named(s.drop_last(), name) {
            Some(i) => Some(i),
            None => if s.last().name == name { Some(s.len() - 1) } else { None },
        }
    }
}

/// The actors with the first one of the given name changed by `f` (all
/// unchanged when none has that name)
pub open spec fn update_actor(s: Seq<ActorV>, name: Seq<char>, f: spec_fn(ActorV) -> ActorV) -> Seq<ActorV> {
    match actor_named(s, name) {
        Some(i) => s.update(i, f(s[i])),
        None => s,
    }
}

/// The actor that stands beside a talking one: "Mouth" in its name becomes
/// "Head"
pub open spec fn head_of(name: Seq<char>) -> Seq<char> {
    replace_all(name, "Mouth"@, "Head"@)
}

/// The actors after a cue point of the dialog spoken by `talker`: the
/// talker follows the cue, and on a "point" cue (in any ASCII case) its head
/// plays "point"
pub open spec fn cue_routed(s: Seq<ActorV>, talker: Seq<char>, cue: Seq<char>) -> Seq<ActorV> {
    let s1 = update_actor(s, talker, |a: ActorV| a.cued(cue));
    if eq_ignore_ascii_case_spec(cue, "point"@) {
        update_actor(s1, head_of(talker), |a: ActorV| a.played("point"@))
    } else {
        s1
    }
}

/// Everything but the actors and the talking actor is the same
pub open spec fn same_but_actors(a: SceneHandler, b: SceneHandler) -> bool {
    &&& a.scene == b.scene
    &&& a.sprites == b.sprites
    &&& a.buttons == b.buttons
    &&& a.hotspots == b.hotspots
    &&& a.menu == b.menu
    &&& a.junk_pile == b.junk_pile
    &&& a.drag_drop == b.drag_drop
    &&& a.has_car == b.has_car
    &&& a.carshow_rating == b.carshow_rating
}

/// What an update reports, in actor order: (actor, animation) for each
/// actor whose animation finishes on this tick
pub open spec fn finished_events(s: Seq<ActorV>) -> Seq<(Seq<char>, Seq<char>)>
    decreases s.len(),
{
    if s.len() == 0 {
        Seq::empty()
    } else {
        match s.last().tick_event() {
            Some(e) => finished_events(s.drop_last()).push(e),
            None => finished_events(s.drop_last()),
        }
    }
}

/// Scene events as plain values: (actor, animation)
pub open spec fn events_view(v: Seq<SceneEvent>) -> Seq<(Seq<char>, Seq<char>)> {
    v.map_values(|e: SceneEvent| match e {
        SceneEvent::ActorAnimFinished { actor_name, anim_name } => (actor_name@, anim_name@),
    })
}

/// The images of the buttons
pub open spec fn button_sprites(bs: Seq<MulleButton>) -> Seq<SpriteV> {
    bs.map_values(|b: MulleButton| b.sprite())
}

/// The images of the actors that show a frame, in actor order
pub open spec fn actor_sprites(s: Seq<ActorV>) -> Seq<SpriteV>
    decreases s.len(),
{
    if s.len() == 0 {
        Seq::empty()
    } else {
        match s.last().sprite() {
            Some(v) => actor_sprites(s.drop_last()).push(v),
            None => actor_sprites(s.drop_last()),
        }
    }
}

/// Everything a scene draws, before sorting by draw order: its sprites,
/// its buttons, its actors' frames, and its draggable parts (already sorted)
pub open spec fn drawn(h: SceneHandler) -> Seq<SpriteV> {
    sprites_view(h.sprites@) + button_sprites(h.buttons@) + actor_sprites(actors_view(h.actors@))
        + sort_by_z(item_sprites(h.drag_drop.items@))
}

proof fn lemma_sort_push(acc: Seq<SpriteV>, v: SpriteV)
    ensures
        sort_by_z(acc.push(v)) == insert_by_z(sort_by_z(acc), v),
{
    assert(acc.push(v).drop_last() =~= acc);
}

/// The scene, its parts, the talking actor and the car facts are the same
pub open spec fn same_setting(a: SceneHandler, b: SceneHandler) -> bool {
    &&& a.scene == b.scene
    &&& a.drag_drop == b.drag_drop
    &&& a.talking_actor == b.talking_actor
    &&& a.has_car == b.has_car
    &&& a.carshow_rating == b.carshow_rating
}

/// The scene's content and junk pile are the same
pub open spec fn same_content(a: SceneHandler, b: SceneHandler) -> bool {
    &&& a.sprites == b.sprites
    &&& a.buttons == b.buttons
    &&& a.actors == b.actors
    &&& a.hotspots == b.hotspots
    &&& a.junk_pile == b.junk_pile
}

/// Hit tests of the visible buttons at (x, y) fit in 32 bits
pub open spec fn buttons_fit(bs: Seq<MulleButton>, x: i32, y: i32) -> bool {
    forall|i: int| 0 <= i < bs.len() && (#[trigger] bs[i]).visible
        ==> i32::MIN <= x - bs[i].x <= i32::MAX && i32::MIN <= y - bs[i].y <= i32::MAX
}

/// The far edges of the hotspots fit in 32 bits
pub open spec fn hotspots_fit(hs: Seq<Hotspot>) -> bool {
    forall|j: int| 0 <= j < hs.len() ==> i32::MIN <= (#[trigger] hs[j]).x + (hs[j].width as i32) <= i32::MAX
        && i32::MIN <= hs[j].y + (hs[j].height as i32) <= i32::MAX
}

/// The buttons after the pointer moved to (x, y): each is hovered exactly
/// when the point is on it
pub open spec fn hovered_at(bs: Seq<MulleButton>, x: i32, y: i32) -> Seq<MulleButton> {
    bs.map_values(|b: MulleButton| MulleButton { hovered: b.hits(x, y), ..b })
}

/// The hover sound to play: that of the last of the first `n` buttons the
/// pointer enters (on it now, not hovered before) that has one
pub open spec fn entered_sound(bs: Seq<MulleButton>, n: int, x: i32, y: i32) -> Option<Seq<char>>
    decreases n,
{
    if n <= 0 {
        None
    } else {
        let b = bs[n - 1];
        if b.hits(x, y) && !b.hovered && b.sound_hover is Some {
            Some(b.sound_hover.unwrap()@)
        } else {
            entered_sound(bs, n - 1, x, y)
        }
    }
}

/// A right click hides this sprite: a cast member, visible, whose
/// rectangle holds the point
pub open spec fn hides_at(v: SpriteV, x: i32, y: i32) -> bool {
    v.member_num != 0 && v.visible && v.in_box(x, y)
}

/// The last of the first `n` sprites a right click hides
pub open spec fn last_hideable(s: Seq<SpriteV>, n: int, x: i32, y: i32) -> Option<int>
    decreases n,
{
    if n <= 0 {
        None
    } else if hides_at(s[n - 1], x, y) {
        Some(n - 1)
    } else {
        last_hideable(s, n - 1, x, y)
    }
}

/// A right click shows this hidden sprite: its rectangle holds the point
/// (the size read as a signed 32-bit number)
pub open spec fn shows_at(v: SpriteV, x: i32, y: i32) -> bool {
    !v.visible && x - v.x >= 0 && y - v.y >= 0 && x - v.x < (v.width as i32) && y - v.y < (v.height as i32)
}

/// The first of the first `n` sprites a right click shows
pub open spec fn first_showable(s: Seq<SpriteV>, n: int, x: i32, y: i32) -> Option<int>
    decreases n,
{
    if n <= 0 {
        None
    } else {
        match first_showable(s, n - 1, x, y) {
            Some(i) => Some(i),
            None => if shows_at(s[n - 1], x, y) { Some(n - 1) } else { None },
        }
    }
}

/// A right click: the topmost-listed visible cast member under the point is
/// hidden; failing that, the first hidden sprite under it is shown
pub open spec fn right_clicked(s: Seq<SpriteV>, x: i32, y: i32) -> Seq<SpriteV> {
    match last_hideable(s, s.len() as int, x, y) {
        Some(i) => s.update(i, SpriteV { visible: false, ..s[i] }),
        None => match first_showable(s, s.len() as int, x, y) {
            Some(j) => s.update(j, SpriteV { visible: true, ..s[j] }),
            None => s,
        },
    }
}

/// The offsets from the hidden sprites to (x, y) fit in 32 bits
pub open spec fn hidden_fit(s: Seq<SpriteV>, x: i32, y: i32) -> bool {
    forall|i: int| 0 <= i < s.len() && !(#[trigger] s[i]).visible
        ==> i32::MIN <= x - s[i].x <= i32::MAX && i32::MIN <= y - s[i].y <= i32::MAX
}

/// The first of the first `n` buttons the point is on
pub open spec fn first_button_hit(bs: Seq<MulleButton>, n: int, x: i32, y: i32) -> Option<int>
    decreases n,
{
    if n <= 0 {
        None
    } else {
        match first_button_hit(bs, n - 1, x, y) {
            Some(i) => Some(i),
            None => if bs[n - 1].hits(x, y) { Some(n - 1) } else { None },
        }
    }
}

/// Does the sprite take a hover or click at the point (visible, and not
/// transparent there)?
pub open spec fn sprite_hit(v: SpriteV, x: i32, y: i32) -> bool {
    v.visible && v.in_box(x, y) && v.opaque_at(x, y)
}

/// The hit sprite of the first `n` with the highest draw order (the first
/// among equals; one drawn at the lowest order there is never picked)
pub open spec fn top_sprite(s: Seq<SpriteV>, n: int, x: i32, y: i32) -> Option<int>
    decreases n,
{
    if n <= 0 {
        None
    } else {
        let prev = top_sprite(s, n - 1, x, y);
        let best = match prev {
            Some(p) => s[p].z_order,
            None => i32::MIN,
        };
        if sprite_hit(s[n - 1], x, y) && s[n - 1].z_order > best { Some(n - 1) } else { prev }
    }
}

/// "[<name>]"
pub open spec fn bracketed(name: Seq<char>) -> Seq<char> {
    "["@ + name + "]"@
}

/// What the scene shows as the name of what is under the point: a button
/// ("[name]"), else the topmost sprite, else a hotspot ("[name]"), else
/// nothing
pub open spec fn hover_text(h: SceneHandler, x: i32, y: i32) -> Seq<char> {
    match first_button_hit(h.buttons@, h.buttons@.len() as int, x, y) {
        Some(i) => bracketed(h.buttons@[i].name@),
        None => match top_sprite(sprites_view(h.sprites@), h.sprites@.len() as int, x, y) {
            Some(j) => h.sprites@[j].name@,
            None => match first_hotspot(h.hotspots@, h.hotspots@.len() as int, x, y) {
                Some(k) => bracketed(h.hotspots@[k].name@),
                None => Seq::empty(),
            },
        },
    }
}

proof fn lemma_last_hideable_skip(s: Seq<SpriteV>, m: int, n: int, x: i32, y: i32)
    requires
        0 <= m <= n <= s.len(),
        forall|k: int| m <= k < n ==> !hides_at(#[trigger] s[k], x, y),
    ensures
        last_hideable(s, n, x, y) == last_hideable(s, m, x, y),
    decreases n - m,
{
    if n > m {
        lemma_last_hideable_skip(s, m, n - 1, x, y);
    }
}

proof fn lemma_first_showable_stable(s: Seq<SpriteV>, n: int, m: int, x: i32, y: i32)
    requires
        0 <= n <= m,
        first_showable(s, n, x, y) is Some,
    ensures
        first_showable(s, m, x, y) == first_showable(s, n, x, y),
    decreases m - n,
{
    if m > n {
        lemma_first_showable_stable(s, n, m - 1, x, y);
    }
}

proof fn lemma_first_button_hit_stable(bs: Seq<MulleButton>, n: int, m: int, x: i32, y: i32)
    requires
        0 <= n <= m,
        first_button_hit(bs, n, x, y) is Some,
    ensures
        first_button_hit(bs, m, x, y) == first_button_hit(bs, n, x, y),
    decreases m - n,
{
    if m > n {
        lemma_first_button_hit_stable(bs, n, m - 1, x, y);
    }
}

proof fn lemma_actor_named_prefix(s: Seq<ActorV>, name: Seq<char>, i: int)
    requires
        0 <= i < s.len(),
        s[i].name == name,
        actor_named(s.take(i), name) is None,
    ensures
        actor_named(s, name) == Some(i),
    decreases s.len(),
{
    if i == s.len() - 1 {
        assert(s.drop_last() =~= s.take(i));
    } else {
        assert(s.drop_last().take(i) =~= s.take(i));
        lemma_actor_named_prefix(s.drop_last(), name, i);
    }
}

/// Position of the first actor with the given name
fn find_actor(actors: &Vec<Actor>, name: &str) -> (r: Option<usize>)
    ensures
        match actor_named(actors_view(actors@), name@) {
            Some(i) => r == Some(i as usize),
            None => r is None,
        },
        r matches Some(k) ==> k < actors@.len() && actor_named(actors_view(actors@), name@) == Some(k as int),
{
    let ghost s = actors_view(actors@);
    let mut i: usize = 0;
    while i < actors.len()
        invariant
            s == actors_view(actors@),
            i <= actors@.len(),
            actor_named(s.take(i as int), name@) is None,
        decreases actors@.len() - i,
    {
        assert(s.take(i + 1).drop_last() =~= s.take(i as int));
        assert(s[i as int] == actors@[i as int]@);
        if str_eq(actors[i].name.as_str(), name) {
            proof {
                lemma_actor_named_prefix(s, name@, i as int);
            }
            return Some(i);
        }
        i = i + 1;
    }
    assert(s.take(actors@.len() as int) =~= s);
    None
}

impl SceneHandler {
    /// A scene filled with what it is made of, at the first junk pile,
    /// with the lowest car show rating
    pub fn new(scene: Scene, store: &CastStore, has_car: bool) -> (r: Self)
        ensures
            r.scene == scene,
            r.has_car == has_car,
            r.carshow_rating == 1,
            r.junk_pile == 1,
            filled(r, Seq::empty(), Seq::empty(), Seq::empty(), Seq::empty(), Seq::empty(), Seq::empty(),
                scene_layout_v(scene, 1, has_car, 1, *store), *store),
            r.menu@.input.len() == 0 && r.menu@.names.len() == 0 && r.menu@.selected is None,
            r.drag_drop@.items.len() == 0 && r.drag_drop@.dragging_idx is None && !r.drag_drop@.prev_mouse_down,
            r.drag_drop@.snap_targets.len() == 0,
            r.talking_actor is None,
    {
        Self::new_with_rating(scene, store, has_car, 1)
    }

    /// A scene filled with what it is made of, with the given car show
    /// rating
    pub fn new_with_rating(scene: Scene, store: &CastStore, has_car: bool, carshow_rating: u8) -> (r: Self)
        ensures
            r.scene == scene,
            r.has_car == has_car,
            r.carshow_rating == carshow_rating,
            r.junk_pile == 1,
            filled(r, Seq::empty(), Seq::empty(), Seq::empty(), Seq::empty(), Seq::empty(), Seq::empty(),
                scene_layout_v(scene, 1, has_car, carshow_rating, *store), *store),
            r.menu@.input.len() == 0 && r.menu@.names.len() == 0 && r.menu@.selected is None,
            r.drag_drop@.items.len() == 0 && r.drag_drop@.dragging_idx is None && !r.drag_drop@.prev_mouse_down,
            r.drag_drop@.snap_targets.len() == 0,
            r.talking_actor is None,
    {
        let mut h = SceneHandler {
            scene,
            sprites: Vec::new(),
            buttons: Vec::new(),
            actors: Vec::new(),
            hotspots: Vec::new(),
            menu: NameEntry::new(Vec::new()),
            junk_pile: 1,
            drag_drop: DragDropState::new(),
            talking_actor: None,
            has_car,
            carshow_rating,
        };
        assert(sprites_view(h.sprites@) =~= Seq::<SpriteV>::empty());
        assert(mulle_buttons_view(h.buttons@) =~= Seq::<MulleButtonV>::empty());
        assert(crate::scene_layout::hotspots_view(h.hotspots@) =~= Seq::<crate::scenes::HotspotV>::empty());
        assert(targets_view(h.drag_drop.drop_targets@) =~= Seq::<crate::drag_drop::DropTargetV>::empty());
        assert(h.actors@ =~= Seq::<Actor>::empty());
        assert(h.drag_drop.drop_rects@ =~= Seq::<crate::drag_drop::DropRect>::empty());
        h.load_scene(store);
        h
    }

    /// Play an animation on the first actor of the given name
    pub fn play_actor_anim(&mut self, actor_name: &str, anim_name: &str)
        ensures
            actors_view(final(self).actors@)
                == update_actor(actors_view(old(self).actors@), actor_name@, |a: ActorV| a.played(anim_name@)),
            final(self).talking_actor == old(self).talking_actor,
            same_but_actors(*final(self), *old(self)),
    {
        if let Some(i) = find_actor(&self.actors, actor_name) {
            self.actors[i].play(anim_name);
            assert(actors_view(self.actors@) =~= update_actor(actors_view(old(self).actors@), actor_name@, |a: ActorV| a.played(anim_name@)));
        }
    }

    /// Show or hide the first actor of the given name
    pub fn set_actor_visible(&mut self, actor_name: &str, visible: bool)
        ensures
            actors_view(final(self).actors@)
                == update_actor(actors_view(old(self).actors@), actor_name@, |a: ActorV| ActorV { visible: visible, ..a }),
            final(self).talking_actor == old(self).talking_actor,
            same_but_actors(*final(self), *old(self)),
    {
        if let Some(i) = find_actor(&self.actors, actor_name) {
            self.actors[i].visible = visible;
            assert(actors_view(self.actors@) =~= update_actor(actors_view(old(self).actors@), actor_name@, |a: ActorV| ActorV { visible: visible, ..a }));
        }
    }

    /// Set the talk and silence animations of the first actor of the given
    /// name
    pub fn set_actor_talk_anims(&mut self, actor_name: &str, talk: &str, silence: &str)
        ensures
            actors_view(final(self).actors@)
                == update_actor(actors_view(old(self).actors@), actor_name@, |a: ActorV| a.with_talk_anims(talk@, silence@)),
            final(self).talking_actor == old(self).talking_actor,
            same_but_actors(*final(self), *old(self)),
    {
        if let Some(i) = find_actor(&self.actors, actor_name) {
            self.actors[i].set_talk_anims(talk, silence);
            assert(actors_view(self.actors@) =~= update_actor(actors_view(old(self).actors@), actor_name@, |a: ActorV| a.with_talk_anims(talk@, silence@)));
        }
    }

    /// Make the named actor the talking one: cue points go to it, and the
    /// first actor of that name starts talking
    pub fn set_talking_actor(&mut self, actor_name: &str)
        ensures
            final(self).talking_actor matches Some(n) && n@ == actor_name@,
            actors_view(final(self).actors@)
                == update_actor(actors_view(old(self).actors@), actor_name@, |a: ActorV| a.talking()),
            same_but_actors(*final(self), *old(self)),
    {
        self.talking_actor = Some(owned(actor_name));
        if let Some(i) = find_actor(&self.actors, actor_name) {
            self.actors[i].start_talking();
            assert(actors_view(self.actors@) =~= update_actor(actors_view(old(self).actors@), actor_name@, |a: ActorV| a.talking()));
        }
    }

    /// The talking actor stops talking, and no actor is the talking one
    pub fn stop_talking_actor(&mut self)
        ensures
            final(self).talking_actor is None,
            actors_view(final(self).actors@) == match old(self).talking_actor {
                Some(n) => update_actor(actors_view(old(self).actors@), n@, |a: ActorV| a.silent()),
                None => actors_view(old(self).actors@),
            },
            same_but_actors(*final(self), *old(self)),
    {
        let talker = self.talking_actor.take();
        if let Some(name) = talker {
            if let Some(i) = find_actor(&self.actors, name.as_str()) {
                self.actors[i].stop_talking();
                assert(actors_view(self.actors@) =~= update_actor(actors_view(old(self).actors@), name@, |a: ActorV| a.silent()));
            }
        }
    }

    /// A cue point of the dialog goes to the talking actor; a "point" cue
    /// also makes its head point
    pub fn handle_cue_point(&mut self, cue_name: &str)
        ensures
            final(self).talking_actor == old(self).talking_actor,
            actors_view(final(self).actors@) == match old(self).talking_actor {
                Some(n) => cue_routed(actors_view(old(self).actors@), n@, cue_name@),
                None => actors_view(old(self).actors@),
            },
            same_but_actors(*final(self), *old(self)),
    {
        let talker = match &self.talking_actor {
            Some(n) => Some(n.clone()),
            None => None,
        };
        if let Some(name) = talker {
            let ghost s0 = actors_view(self.actors@);
            if let Some(i) = find_actor(&self.actors, name.as_str()) {
                self.actors[i].on_cue(cue_name);
            }
            let ghost s1 = actors_view(self.actors@);
            assert(s1 =~= update_actor(s0, name@, |a: ActorV| a.cued(cue_name@)));
            if eq_ignore_ascii_case(cue_name, "point") {
                proof { reveal_strlit("Mouth"); }
                let head = replace_str(name.as_str(), "Mouth", "Head");
                if let Some(j) = find_actor(&self.actors, head.as_str()) {
                    self.actors[j].play("point");
                }
                assert(actors_view(self.actors@) =~= update_actor(s1, head_of(name@), |a: ActorV| a.played("point"@)));
            }
        }
    }

    /// One game tick: every actor's animation ticks; reports the actors
    /// whose animation finished
    pub fn update(&mut self) -> (r: Vec<SceneEvent>)
        requires
            forall|i: int| 0 <= i < old(self).actors@.len() ==> (#[trigger] old(self).actors@[i])@.can_tick(),
        ensures
            actors_view(final(self).actors@) == actors_view(old(self).actors@).map_values(|a: ActorV| a.ticked()),
            events_view(r@) == finished_events(actors_view(old(self).actors@)),
            final(self).talking_actor == old(self).talking_actor,
            same_but_actors(*final(self), *old(self)),
    {
        let mut actors: Vec<Actor> = Vec::new();
        std::mem::swap(&mut actors, &mut self.actors);
        let ghost a0 = actors_view(actors@);
        let mut events: Vec<SceneEvent> = Vec::new();
        let n = actors.len();
        let mut i: usize = 0;
        while i < n
            invariant
                n == actors@.len(),
                a0.len() == n,
                i <= n,
                forall|k: int| 0 <= k < n ==> (#[trigger] a0[k]).can_tick(),
                forall|k: int| 0 <= k < i ==> (#[trigger] actors@[k])@ == a0[k].ticked(),
                forall|k: int| i <= k < n ==> (#[trigger] actors@[k])@ == a0[k],
                events_view(events@) == finished_events(a0.take(i as int)),
            decreases n - i,
        {
            assert(actors@[i as int]@ == a0[i as int]);
            let ghost e0 = events@;
            let ev = actors[i].tick();
            assert(a0.take(i + 1).drop_last() =~= a0.take(i as int));
            assert(a0.take(i + 1).last() == a0[i as int]);
            match ev {
                Some(ActorEvent::AnimationFinished { actor_name, anim_name }) => {
                    events.push(SceneEvent::ActorAnimFinished { actor_name, anim_name });
                    assert(events_view(events@) =~= events_view(e0).push(a0[i as int].tick_event().unwrap()));
                },
                None => {},
            }
            i = i + 1;
        }
        assert(a0.take(n as int) =~= a0);
        self.actors = actors;
        assert(actors_view(self.actors@) =~= a0.map_values(|a: ActorV| a.ticked()));
        events
    }

    /// Everything the scene draws, stably sorted by draw order
    pub fn all_sprites(&self) -> (r: Vec<Sprite>)
        requires
            forall|i: int| 0 <= i < self.actors@.len() ==> (#[trigger] self.actors@[i])@.sprite_fits(),
        ensures
            sprites_view(r@) == sort_by_z(drawn(*self)),
    {
        let mut out: Vec<Sprite> = Vec::new();
        let ghost mut acc: Seq<SpriteV> = Seq::empty();
        let ghost sv = sprites_view(self.sprites@);
        let mut i: usize = 0;
        while i < self.sprites.len()
            invariant
                sv == sprites_view(self.sprites@),
                i <= sv.len(),
                acc == sv.take(i as int),
                sprites_view(out@) == sort_by_z(acc),
            decreases sv.len() - i,
        {
            let s = self.sprites[i].duplicate();
            proof {
                lemma_sort_push(acc, s@);
                assert(sv.take(i + 1) =~= acc.push(s@));
                acc = acc.push(s@);
            }
            insert_sprite(&mut out, s);
            i = i + 1;
        }
        assert(sv.take(sv.len() as int) =~= sv);
        let ghost bv = button_sprites(self.buttons@);
        let mut j: usize = 0;
        while j < self.buttons.len()
            invariant
                sv == sprites_view(self.sprites@),
                bv == button_sprites(self.buttons@),
                j <= bv.len(),
                acc == sv + bv.take(j as int),
                sprites_view(out@) == sort_by_z(acc),
            decreases bv.len() - j,
        {
            let s = self.buttons[j].as_sprite();
            proof {
                lemma_sort_push(acc, s@);
                assert(sv + bv.take(j + 1) =~= acc.push(s@));
                acc = acc.push(s@);
            }
            insert_sprite(&mut out, s);
            j = j + 1;
        }
        assert(bv.take(bv.len() as int) =~= bv);
        let ghost av = actors_view(self.actors@);
        let mut k: usize = 0;
        while k < self.actors.len()
            invariant
                sv == sprites_view(self.sprites@),
                bv == button_sprites(self.buttons@),
                av == actors_view(self.actors@),
                forall|m: int| 0 <= m < self.actors@.len() ==> (#[trigger] self.actors@[m])@.sprite_fits(),
                k <= av.len(),
                acc == sv + bv + actor_sprites(av.take(k as int)),
                sprites_view(out@) == sort_by_z(acc),
            decreases av.len() - k,
        {
            assert(av.take(k + 1).drop_last() =~= av.take(k as int));
            assert(av.take(k + 1).last() == self.actors@[k as int]@);
            match self.actors[k].current_sprite() {
                Some(s) => {
                    proof {
                        lemma_sort_push(acc, s@);
                        assert(sv + bv + actor_sprites(av.take(k + 1)) =~= acc.push(s@));
                        acc = acc.push(s@);
                    }
                    insert_sprite(&mut out, s);
                },
                None => {},
            }
            k = k + 1;
        }
        assert(av.take(av.len() as int) =~= av);
        let d = self.drag_drop.all_sprites();
        let ghost dv = sprites_view(d@);
        let mut m: usize = 0;
        while m < d.len()
            invariant
                dv == sprites_view(d@),
                m <= dv.len(),
                acc == sv + bv + actor_sprites(av) + dv.take(m as int),
                sprites_view(out@) == sort_by_z(acc),
            decreases dv.len() - m,
        {
            let s = d[m].duplicate();
            proof {
                lemma_sort_push(acc, s@);
                assert(sv + bv + actor_sprites(av) + dv.take(m + 1) =~= acc.push(s@));
                acc = acc.push(s@);
            }
            insert_sprite(&mut out, s);
            m = m + 1;
        }
        assert(dv.take(dv.len() as int) =~= dv);
        assert(acc =~= drawn(*self));
        out
    }

    /// One frame of mouse input for dragging parts; returns what a drop did
    pub fn process_drag(&mut self, x: i32, y: i32, mouse_down: bool) -> (r: DropResult)
        requires
            drag_wf(old(self).drag_drop@),
            mouse_down && !old(self).drag_drop.prev_mouse_down ==> down_fits(old(self).drag_drop@, x, y),
            mouse_down && old(self).drag_drop.prev_mouse_down ==> move_fits(old(self).drag_drop@, x, y),
            !mouse_down && old(self).drag_drop.prev_mouse_down ==> up_fits(old(self).drag_drop@, x, y),
        ensures
            (final(self).drag_drop@, r@) == after_mouse(old(self).drag_drop@, x, y, mouse_down),
            drag_wf(final(self).drag_drop@),
            same_content(*final(self), *old(self)),
            final(self).menu == old(self).menu,
            final(self).scene == old(self).scene,
            final(self).talking_actor == old(self).talking_actor,
            final(self).has_car == old(self).has_car,
            final(self).carshow_rating == old(self).carshow_rating,
    {
        self.drag_drop.process_mouse(x, y, mouse_down)
    }

    /// The pointer moved: each button is hovered exactly when the pointer
    /// is on it; returns the hover sound of the last button it entered that
    /// has one
    pub fn on_mouse_move(&mut self, x: i32, y: i32) -> (r: Option<String>)
        requires
            buttons_fit(old(self).buttons@, x, y),
        ensures
            final(self).buttons@ == hovered_at(old(self).buttons@, x, y),
            opt_view(r) == entered_sound(old(self).buttons@, old(self).buttons@.len() as int, x, y),
            final(self).sprites == old(self).sprites,
            final(self).actors == old(self).actors,
            final(self).hotspots == old(self).hotspots,
            final(self).junk_pile == old(self).junk_pile,
            final(self).menu == old(self).menu,
            same_setting(*final(self), *old(self)),
    {
        let mut bs: Vec<MulleButton> = Vec::new();
        std::mem::swap(&mut bs, &mut self.buttons);
        let ghost b0 = bs@;
        let n = bs.len();
        let mut sound: Option<String> = None;
        let mut i: usize = 0;
        while i < n
            invariant
                n == bs@.len(),
                b0.len() == n,
                i <= n,
                buttons_fit(b0, x, y),
                forall|k: int| 0 <= k < i ==> #[trigger] bs@[k] == hovered_at(b0, x, y)[k],
                forall|k: int| i <= k < n ==> #[trigger] bs@[k] == b0[k],
                opt_view(sound) == entered_sound(b0, i as int, x, y),
            decreases n - i,
        {
            assert(bs@[i as int] == b0[i as int]);
            let was = bs[i].hovered;
            let h = bs[i].hit_test(x, y);
            bs[i].hovered = h;
            if h && !was {
                match &bs[i].sound_hover {
                    Some(snd) => {
                        sound = Some(snd.clone());
                    },
                    None => {},
                }
            }
            assert(bs@[i as int] == hovered_at(b0, x, y)[i as int]);
            i = i + 1;
        }
        assert(bs@ =~= hovered_at(b0, x, y));
        self.buttons = bs;
        sound
    }

    /// A right click: hide the last visible cast member under the point, or
    /// else show the first hidden sprite under it
    pub fn on_right_click(&mut self, x: i32, y: i32)
        requires
            last_hideable(sprites_view(old(self).sprites@), old(self).sprites@.len() as int, x, y) is None
                ==> hidden_fit(sprites_view(old(self).sprites@), x, y),
        ensures
            sprites_view(final(self).sprites@) == right_clicked(sprites_view(old(self).sprites@), x, y),
            final(self).buttons == old(self).buttons,
            final(self).actors == old(self).actors,
            final(self).hotspots == old(self).hotspots,
            final(self).junk_pile == old(self).junk_pile,
            final(self).menu == old(self).menu,
            same_setting(*final(self), *old(self)),
    {
        let ghost s0 = sprites_view(self.sprites@);
        let n = self.sprites.len();
        let mut i: usize = n;
        while i > 0
            invariant
                n == self.sprites@.len(),
                s0 == sprites_view(self.sprites@),
                *self == *old(self),
                i <= n,
                forall|k: int| i <= k < n ==> !hides_at(#[trigger] s0[k], x, y),
            decreases i,
        {
            i = i - 1;
            assert(s0[i as int] == self.sprites@[i as int]@);
            let sp = &self.sprites[i];
            if sp.member_num != 0 && sp.visible && sp.bbox_hit(x, y) {
                proof {
                    lemma_last_hideable_skip(s0, i + 1, n as int, x, y);
                }
                self.sprites[i].visible = false;
                assert(sprites_view(self.sprites@) =~= right_clicked(s0, x, y));
                return;
            }
        }
        proof {
            lemma_last_hideable_skip(s0, 0, n as int, x, y);
        }
        let mut j: usize = 0;
        while j < n
            invariant
                n == self.sprites@.len(),
                s0 == sprites_view(self.sprites@),
                *self == *old(self),
                j <= n,
                last_hideable(s0, n as int, x, y) is None,
                hidden_fit(s0, x, y),
                first_showable(s0, j as int, x, y) is None,
            decreases n - j,
        {
            assert(s0[j as int] == self.sprites@[j as int]@);
            let sp = &self.sprites[j];
            if !sp.visible {
                let lx = x - sp.x;
                let ly = y - sp.y;
                if lx >= 0 && ly >= 0 && lx < sp.width as i32 && ly < sp.height as i32 {
                    proof {
                        assert(first_showable(s0, j + 1, x, y) == Some(j as int));
                        lemma_first_showable_stable(s0, j + 1, n as int, x, y);
                    }
                    self.sprites[j].visible = true;
                    assert(sprites_view(self.sprites@) =~= right_clicked(s0, x, y));
                    return;
                }
            }
            j = j + 1;
        }
    }

    /// The name of what is under the point: "[button]", else the topmost
    /// sprite's name, else "[hotspot]", else empty
    pub fn hover_info(&self, x: i32, y: i32) -> (r: String)
        requires
            buttons_fit(self.buttons@, x, y),
            hotspots_fit(self.hotspots@),
        ensures
            r@ == hover_text(*self, x, y),
    {
        let mut i: usize = 0;
        while i < self.buttons.len()
            invariant
                i <= self.buttons@.len(),
                buttons_fit(self.buttons@, x, y),
                first_button_hit(self.buttons@, i as int, x, y) is None,
            decreases self.buttons@.len() - i,
        {
            if self.buttons[i].hit_test(x, y) {
                proof {
                    assert(first_button_hit(self.buttons@, i + 1, x, y) == Some(i as int));
                    lemma_first_button_hit_stable(self.buttons@, i + 1, self.buttons@.len() as int, x, y);
                }
                let mut t = String::new();
                t.append("[");
                t.append(self.buttons[i].name.as_str());
                t.append("]");
                assert(t@ =~= bracketed(self.buttons@[i as int].name@));
                return t;
            }
            i = i + 1;
        }
        let ghost sv = sprites_view(self.sprites@);
        let mut best: Option<usize> = None;
        let mut best_z: i32 = i32::MIN;
        let mut j: usize = 0;
        while j < self.sprites.len()
            invariant
                sv == sprites_view(self.sprites@),
                j <= sv.len(),
                first_button_hit(self.buttons@, self.buttons@.len() as int, x, y) is None,
                match best {
                    Some(b) => top_sprite(sv, j as int, x, y) == Some(b as int) && b < j && best_z == sv[b as int].z_order,
                    None => top_sprite(sv, j as int, x, y) is None && best_z == i32::MIN,
                },
            decreases sv.len() - j,
        {
            assert(sv[j as int] == self.sprites@[j as int]@);
            if self.sprites[j].hit_test(x, y) && self.sprites[j].z_order > best_z {
                best = Some(j);
                best_z = self.sprites[j].z_order;
            }
            j = j + 1;
        }
        if let Some(b) = best {
            return self.sprites[b].name.clone();
        }
        let mut k: usize = 0;
        while k < self.hotspots.len()
            invariant
                k <= self.hotspots@.len(),
                hotspots_fit(self.hotspots@),
                first_hotspot(self.hotspots@, k as int, x, y) is None,
                first_button_hit(self.buttons@, self.buttons@.len() as int, x, y) is None,
                top_sprite(sprites_view(self.sprites@), self.sprites@.len() as int, x, y) is None,
            decreases self.hotspots@.len() - k,
        {
            let h = &self.hotspots[k];
            if x >= h.x && x < h.x + h.width as i32 && y >= h.y && y < h.y + h.height as i32 {
                proof {
                    assert(first_hotspot(self.hotspots@, k + 1, x, y) == Some(k as int));
                    lemma_first_hotspot_stable(self.hotspots@, k + 1, self.hotspots@.len() as int, x, y);
                }
                let mut t = String::new();
                t.append("[");
                t.append(h.name.as_str());
                t.append("]");
                assert(t@ =~= bracketed(self.hotspots@[k as int].name@));
                return t;
            }
            k = k + 1;
        }
        String::new()
    }

    /// A left click: in the menu its name entry takes the click first; then
    /// the top button under the point (a junkyard arrow turns to another
    /// pile: the scene is emptied and filled with that pile's view), else
    /// the first hotspot under it; returns the scene to go to
    pub fn on_click(&mut self, x: i32, y: i32, store: &CastStore) -> (r: Option<Scene>)
        requires
            buttons_fit(old(self).buttons@, x, y),
            hotspots_fit(old(self).hotspots@),
        ensures
            ({
                let m = if old(self).scene == Scene::Menu { menu_clicked(old(self).menu@, x, y) } else { (old(self).menu@, None) };
                &&& final(self).menu@ == m.0
                &&& match m.1 {
                    Some(t) => r == Some(t) && same_content(*final(self), *old(self)) && final(self).drag_drop == old(self).drag_drop,
                    None => match scene_click_spec(old(self).scene, old(self).junk_pile, old(self).buttons@, old(self).hotspots@, x, y) {
                        SceneClick::Pile(p) => r is None && final(self).junk_pile == p
                            && filled(*final(self), Seq::empty(), Seq::empty(), Seq::empty(), Seq::empty(),
                                targets_view(old(self).drag_drop.drop_targets@), old(self).drag_drop.drop_rects@,
                                scene_layout_v(old(self).scene, p, old(self).has_car, old(self).carshow_rating, *store), *store),
                        SceneClick::Button(_, t) => r == t && same_content(*final(self), *old(self)) && final(self).drag_drop == old(self).drag_drop,
                        SceneClick::Hotspot(_, t) => r == t && same_content(*final(self), *old(self)) && final(self).drag_drop == old(self).drag_drop,
                        SceneClick::Miss => r is None && same_content(*final(self), *old(self)) && final(self).drag_drop == old(self).drag_drop,
                    },
                }
            }),
            old(self).scene != Scene::Menu ==> final(self).menu == old(self).menu,
            final(self).scene == old(self).scene,
            final(self).talking_actor == old(self).talking_actor,
            final(self).has_car == old(self).has_car,
            final(self).carshow_rating == old(self).carshow_rating,
    {
        if self.scene == Scene::Menu {
            if let Some(next) = self.menu.menu_click(x, y) {
                return Some(next);
            }
        }
        match scene_click(self.scene, self.junk_pile, self.buttons.as_slice(), self.hotspots.as_slice(), x, y) {
            SceneClick::Pile(p) => {
                self.turn_to_pile(p, store);
                None
            },
            SceneClick::Button(_, t) => t,
            SceneClick::Hotspot(_, t) => t,
            SceneClick::Miss => None,
        }
    }

    /// Show another junk pile: the scene is emptied and filled with the
    /// pile's view
    fn turn_to_pile(&mut self, p: u8, store: &CastStore)
        requires
            p >= 1,
        ensures
            final(self).junk_pile == p,
            filled(*final(self), Seq::empty(), Seq::empty(), Seq::empty(), Seq::empty(),
                targets_view(old(self).drag_drop.drop_targets@), old(self).drag_drop.drop_rects@,
                scene_layout_v(old(self).scene, p, old(self).has_car, old(self).carshow_rating, *store), *store),
            final(self).menu == old(self).menu,
            final(self).scene == old(self).scene,
            final(self).talking_actor == old(self).talking_actor,
            final(self).has_car == old(self).has_car,
            final(self).carshow_rating == old(self).carshow_rating,
    {
        self.junk_pile = p;
        self.sprites = Vec::new();
        self.buttons = Vec::new();
        self.actors = Vec::new();
        self.hotspots = Vec::new();
        assert(sprites_view(self.sprites@) =~= Seq::<SpriteV>::empty());
        assert(mulle_buttons_view(self.buttons@) =~= Seq::<MulleButtonV>::empty());
        assert(crate::scene_layout::hotspots_view(self.hotspots@) =~= Seq::<crate::scenes::HotspotV>::empty());
        assert(self.actors@ =~= Seq::<Actor>::empty());
        self.load_scene(store);
    }

    /// A key in the scene: function keys jump to scenes, Tab and Space show
    /// or hide sprites, and the arrows turn the junk piles (the scene is
    /// emptied and filled with that pile's view); returns the scene to go to
    pub fn on_key_down(&mut self, key: GameKey, store: &CastStore) -> (r: Option<Scene>)
        ensures
            ({
                let (k, s2) = scene_key_spec(old(self).scene, old(self).junk_pile, key, sprites_view(old(self).sprites@));
                match k {
                    SceneKey::Pile(p) => r is None && final(self).junk_pile == p
                        && filled(*final(self), Seq::empty(), Seq::empty(), Seq::empty(), Seq::empty(),
                            targets_view(old(self).drag_drop.drop_targets@), old(self).drag_drop.drop_rects@,
                            scene_layout_v(old(self).scene, p, old(self).has_car, old(self).carshow_rating, *store), *store),
                    _ => r == (match k {
                            SceneKey::Switch(t) => Some(t),
                            _ => None,
                        })
                        && sprites_view(final(self).sprites@) == s2
                        && final(self).buttons == old(self).buttons
                        && final(self).actors == old(self).actors
                        && final(self).hotspots == old(self).hotspots
                        && final(self).junk_pile == old(self).junk_pile
                        && final(self).drag_drop == old(self).drag_drop,
                }
            }),
            final(self).menu == old(self).menu,
            final(self).scene == old(self).scene,
            final(self).talking_actor == old(self).talking_actor,
            final(self).has_car == old(self).has_car,
            final(self).carshow_rating == old(self).carshow_rating,
    {
        match scene_key(self.scene, self.junk_pile, key, &mut self.sprites) {
            SceneKey::Switch(t) => Some(t),
            SceneKey::Pile(p) => {
                self.turn_to_pile(p, store);
                None
            },
            SceneKey::Stay => None,
        }
    }

    /// A typed character goes to the menu's name field
    pub fn on_char_input(&mut self, ch: char)
        ensures
            final(self).menu@ == (if old(self).scene == Scene::Menu { char_typed(old(self).menu@, ch) } else { old(self).menu@ }),
            same_content(*final(self), *old(self)),
            same_setting(*final(self), *old(self)),
    {
        if self.scene == Scene::Menu {
            self.menu.on_char_input(ch);
        }
    }

    /// Enter in the menu starts the game with the name to use
    pub fn on_enter(&mut self) -> (r: Option<Scene>)
        ensures
            (final(self).menu@, r) == (if old(self).scene == Scene::Menu { entered(old(self).menu@) } else { (old(self).menu@, None) }),
            same_content(*final(self), *old(self)),
            same_setting(*final(self), *old(self)),
    {
        if self.scene == Scene::Menu {
            self.menu.on_enter()
        } else {
            None
        }
    }
}

/// Everything the game draws: the scene's sprites sorted by draw order; in
/// the garage merged with the car's and stably sorted again; on the world
/// map followed by the driving layer (map objects, the car, the dashboard
/// and the toolbox), which the caller puts together
pub fn get_all_sprites(handler: &SceneHandler, car: &BuildCar, world_layer: Vec<Sprite>) -> (r: Vec<Sprite>)
    requires
        forall|i: int| 0 <= i < handler.actors@.len() ==> (#[trigger] handler.actors@[i])@.sprite_fits(),
    ensures
        handler.scene == Scene::Garage ==> sprites_view(r@)
            == sort_by_z(sort_by_z(drawn(*handler)) + sort_by_z(flat_sprites(placed_view(car.part_sprites@)))),
        handler.scene == Scene::World ==> sprites_view(r@) == sort_by_z(drawn(*handler)) + sprites_view(world_layer@),
        handler.scene != Scene::Garage && handler.scene != Scene::World ==> sprites_view(r@) == sort_by_z(drawn(*handler)),
{
    let scene_sprites = handler.all_sprites();
    if handler.scene == Scene::Garage {
        let car_sprites = car.all_sprites();
        let ghost a = sprites_view(scene_sprites@);
        let ghost b = sprites_view(car_sprites@);
        let mut out: Vec<Sprite> = Vec::new();
        let ghost mut acc: Seq<SpriteV> = Seq::empty();
        let mut i: usize = 0;
        while i < scene_sprites.len()
            invariant
                a == sprites_view(scene_sprites@),
                i <= a.len(),
                acc == a.take(i as int),
                sprites_view(out@) == sort_by_z(acc),
            decreases a.len() - i,
        {
            let s = scene_sprites[i].duplicate();
            proof {
                lemma_sort_push(acc, s@);
                assert(a.take(i + 1) =~= acc.push(s@));
                acc = acc.push(s@);
            }
            insert_sprite(&mut out, s);
            i = i + 1;
        }
        assert(a.take(a.len() as int) =~= a);
        let mut j: usize = 0;
        while j < car_sprites.len()
            invariant
                b == sprites_view(car_sprites@),
                j <= b.len(),
                acc == a + b.take(j as int),
                sprites_view(out@) == sort_by_z(acc),
            decreases b.len() - j,
        {
            let s = car_sprites[j].duplicate();
            proof {
                lemma_sort_push(acc, s@);
                assert(a + b.take(j + 1) =~= acc.push(s@));
                acc = acc.push(s@);
            }
            insert_sprite(&mut out, s);
            j = j + 1;
        }
        assert(b.take(b.len() as int) =~= b);
        out
    } else if handler.scene == Scene::World {
        let mut out = scene_sprites;
        let mut layer = world_layer;
        let ghost a = sprites_view(out@);
        let ghost w = sprites_view(layer@);
        out.append(&mut layer);
        assert(sprites_view(out@) =~= a + w);
        out
    } else {
        scene_sprites
    }
}

/// Once the pointer is over buttons, moving to the same point again enters
/// none of them: no hover sound among the first `n` buttons
proof fn lemma_no_sound_when_hovered(bs: Seq<MulleButton>, n: int, x: i32, y: i32)
    requires
        n <= bs.len(),
    ensures
        entered_sound(hovered_at(bs, x, y), n, x, y) is None,
    decreases n,
{
    if n > 0 {
        let hb = hovered_at(bs, x, y);
        assert(hb[n - 1].hits(x, y) == bs[n - 1].hits(x, y));
        lemma_no_sound_when_hovered(bs, n - 1, x, y);
    }
}

/// A hover sound plays only when the pointer enters a button: after a move
/// to a point, a second move to the same point plays none.
pub proof fn law_hover_sound_once(bs: Seq<MulleButton>, x: i32, y: i32)
    ensures
        entered_sound(hovered_at(bs, x, y), bs.len() as int, x, y) is None,
{
    lemma_no_sound_when_hovered(bs, bs.len() as int, x, y);
}

} // verus!
