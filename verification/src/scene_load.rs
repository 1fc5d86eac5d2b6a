//! Filling a scene from its layout with the decoded cast members: images
//! placed by their registration points, buttons with their hover images and
//! drop targets, actors with the animation frames that decode. Members that
//! do not decode are left out, as the game does.

use vstd::prelude::*;
use crate::cast::CastStore;
use crate::drag_drop::{DropRect, DropTarget, DropTargetV, pile_rects_v, targets_view};
use crate::scene::Scene;
use crate::scene_handler::{SceneHandler, actors_view};
use crate::scene_layout::{
    ActorDef, ActorDefV, AnimDefV, BackgroundDef, BackgroundDefV, ButtonDef, ButtonDefV, OverlayDef,
    SceneLayout, SceneLayoutV, hotspots_view, scene_layout, scene_layout_v,
};
use crate::scenes::{
    Actor, ActorV, AnimFrame, AnimFrameV, Animation, Hotspot, HotspotV, MulleButton, MulleButtonV,
    anim_named, button_from, decoded_frames, frames_view, mulle_buttons_view, refs_view, ticks_for,
};
use crate::sprite::{Sprite, SpriteV};
use crate::build_car::sprites_view;
use vstd::string::StringExecFns;
use crate::text::{decimal, owned, push_decimal};

verus! {

/// "bg#<num>"
pub open spec fn bg_name(num: u32) -> Seq<char> {
    "bg#"@ + decimal(num as nat)
}

/// "#<num> <member name>"
pub open spec fn overlay_name(num: u32, name: Seq<char>) -> Seq<char> {
    "#"@ + decimal(num as nat) + " "@ + name
}

/// A value as a sequence of at most one
pub open spec fn opt_seq<A>(o: Option<A>) -> Seq<A> {
    match o {
        Some(a) => seq![a],
        None => Seq::empty(),
    }
}

/// The member a background comes from: the given one; the first of the
/// given name, else the largest bitmap; or the largest bitmap
pub open spec fn background_member(store: CastStore, f: Seq<char>, b: BackgroundDefV) -> Option<u32> {
    match b {
        BackgroundDefV::Member(n) => Some(n),
        BackgroundDefV::Named(name) => match store.member_named(f, name) {
            Some(n) => Some(n),
            None => store.largest_bitmap(f),
        },
        BackgroundDefV::Largest => store.largest_bitmap(f),
    }
}

/// A background: the member's stored image with its registration point at
/// the screen center, drawn first; none without an image
pub open spec fn bg_sprite(store: CastStore, f: Seq<char>, num: u32) -> Option<SpriteV> {
    match store.member(f, num) {
        Some(m) => match m.image {
            Some(img) => Some(SpriteV {
                x: (320 - store.reg_point(f, num).0) as i32,
                y: (240 - store.reg_point(f, num).1) as i32,
                width: img.width,
                height: img.height,
                pixels: img.pixels@,
                visible: true,
                z_order: 0,
                name: bg_name(num),
                interactive: false,
                member_num: num,
            }),
            None => None,
        },
        None => None,
    }
}

/// An overlay: the member's transparent image with its registration point
/// at the anchor; none without an image
pub open spec fn overlay_sprite(store: CastStore, f: Seq<char>, o: OverlayDef) -> Option<SpriteV> {
    match store.member(f, o.num) {
        Some(m) => match m.transparent {
            Some(img) => Some(SpriteV {
                x: (o.ax - store.reg_point(f, o.num).0) as i32,
                y: (o.ay - store.reg_point(f, o.num).1) as i32,
                width: img.width,
                height: img.height,
                pixels: img.pixels@,
                visible: true,
                z_order: o.z,
                name: overlay_name(o.num, m.name@),
                interactive: true,
                member_num: o.num,
            }),
            None => None,
        },
        None => None,
    }
}

/// The overlays that decode, in order
pub open spec fn overlay_sprites(store: CastStore, f: Seq<char>, os: Seq<OverlayDef>) -> Seq<SpriteV>
    decreases os.len(),
{
    if os.len() == 0 {
        Seq::empty()
    } else {
        overlay_sprites(store, f, os.drop_last()) + opt_seq(overlay_sprite(store, f, os.last()))
    }
}

/// The sprites of a layout: the background, then the overlays
pub open spec fn layout_sprites(store: CastStore, l: SceneLayoutV) -> Seq<SpriteV> {
    let bg = match l.background {
        Some(b) => match background_member(store, l.file, b) {
            Some(n) => opt_seq(bg_sprite(store, l.file, n)),
            None => Seq::empty(),
        },
        None => Seq::empty(),
    };
    bg + overlay_sprites(store, l.file, l.overlays)
}

/// A button of the layout: made of its members anchored at the screen
/// center, with its sounds
pub open spec fn built_button(store: CastStore, f: Seq<char>, d: ButtonDefV) -> Option<MulleButtonV> {
    match button_from(store, d.name, f, d.num, Some(d.hover), 320, 240, d.target, d.z) {
        Some(b) => Some(MulleButtonV {
            sound_default: match d.sounds {
                Some(p) => Some(p.0),
                None => None,
            },
            sound_hover: match d.sounds {
                Some(p) => Some(p.1),
                None => None,
            },
            ..b
        }),
        None => None,
    }
}

/// The buttons that can be built, in order
pub open spec fn built_buttons(store: CastStore, f: Seq<char>, ds: Seq<ButtonDefV>) -> Seq<MulleButtonV>
    decreases ds.len(),
{
    if ds.len() == 0 {
        Seq::empty()
    } else {
        built_buttons(store, f, ds.drop_last()) + opt_seq(built_button(store, f, ds.last()))
    }
}

/// The drop target over a built button that takes drops
pub open spec fn built_target(store: CastStore, f: Seq<char>, d: ButtonDefV) -> Option<DropTargetV> {
    match (built_button(store, f, d), d.drop_id) {
        (Some(b), Some(id)) => Some(DropTargetV { x: b.x, y: b.y, width: b.width, height: b.height, id, name: d.name }),
        _ => None,
    }
}

/// The drop targets over the buttons, in order
pub open spec fn built_targets(store: CastStore, f: Seq<char>, ds: Seq<ButtonDefV>) -> Seq<DropTargetV>
    decreases ds.len(),
{
    if ds.len() == 0 {
        Seq::empty()
    } else {
        built_targets(store, f, ds.drop_last()) + opt_seq(built_target(store, f, ds.last()))
    }
}

/// The members of an animation, all of one file
pub open spec fn file_refs(f: Seq<char>, nums: Seq<u32>) -> Seq<(Seq<char>, u32)> {
    nums.map_values(|n: u32| (f, n))
}

/// A freshly loaded animation: playing from its first frame, with the
/// frames that decode
pub open spec fn anim_loaded(a: Animation, store: CastStore, d: AnimDefV) -> bool {
    &&& a.name@ == d.name
    &&& a.fps == d.fps
    &&& a.looping == d.looping
    &&& a.current_frame == 0
    &&& a.tick == 0
    &&& a.ticks_per_frame == ticks_for(d.fps)
    &&& a.playing
    &&& !a.finished
    &&& frames_view(a.frames@) == decoded_frames(store, file_refs(d.file, d.frames))
}

/// Index of the first animation of the given name
pub open spec fn first_anim_def(ds: Seq<AnimDefV>, name: Seq<char>) -> Option<int>
    decreases ds.len(),
{
    if ds.len() == 0 {
        None
    } else {
        match first_anim_def(ds.drop_last(), name) {
            Some(i) => Some(i),
            None => if ds.last().name == name { Some(ds.len() - 1) } else { None },
        }
    }
}

/// A freshly loaded actor: its animations loaded in order, the lip-sync
/// pair set, the starting animation active (the first one when none is
/// named or found), not talking
pub open spec fn actor_loaded(a: ActorV, store: CastStore, d: ActorDefV) -> bool {
    &&& a.name == d.name
    &&& a.x == d.x
    &&& a.y == d.y
    &&& a.z_order == d.z
    &&& a.visible == d.visible
    &&& a.talk_anim == (match d.talk {
        Some(p) => Some(p.0),
        None => None,
    })
    &&& a.silence_anim == (match d.talk {
        Some(p) => Some(p.1),
        None => None,
    })
    &&& !a.is_talking
    &&& a.animations.len() == d.anims.len()
    &&& forall|i: int| 0 <= i < d.anims.len() ==> #[trigger] anim_loaded(a.animations[i], store, d.anims[i])
    &&& a.active_anim == (match d.play {
        Some(p) => match first_anim_def(d.anims, p) {
            Some(i) => i as usize,
            None => 0usize,
        },
        None => 0usize,
    })
}

/// The anchors of the overlays leave room for any registration point
pub open spec fn layout_fits(l: SceneLayoutV) -> bool {
    forall|i: int| 0 <= i < l.overlays.len() ==> {
        &&& -2_000_000_000 <= (#[trigger] l.overlays[i]).ax <= 2_000_000_000
        &&& -2_000_000_000 <= l.overlays[i].ay <= 2_000_000_000
    }
}

/// The scene holds what the layout adds to the given content: sprites,
/// buttons, actors and hotspots after the ones given, drop targets after
/// the given ones, and the pile's rest areas when the layout names a pile
pub open spec fn filled(
    h: SceneHandler,
    sprites0: Seq<SpriteV>,
    buttons0: Seq<MulleButtonV>,
    actors0: Seq<Actor>,
    hotspots0: Seq<HotspotV>,
    targets0: Seq<DropTargetV>,
    rects0: Seq<DropRect>,
    l: SceneLayoutV,
    store: CastStore,
) -> bool {
    &&& sprites_view(h.sprites@) == sprites0 + layout_sprites(store, l)
    &&& mulle_buttons_view(h.buttons@) == buttons0 + built_buttons(store, l.file, l.buttons)
    &&& h.actors@.len() == actors0.len() + l.actors.len()
    &&& forall|i: int| 0 <= i < actors0.len() ==> #[trigger] h.actors@[i] == actors0[i]
    &&& forall|j: int| 0 <= j < l.actors.len() ==> #[trigger] actor_loaded(h.actors@[actors0.len() + j]@, store, l.actors[j])
    &&& hotspots_view(h.hotspots@) == hotspots0 + l.hotspots
    &&& targets_view(h.drag_drop.drop_targets@) == targets0 + built_targets(store, l.file, l.buttons)
    &&& h.drag_drop.drop_rects@ == (match l.pile {
        Some(p) => pile_rects_v(p),
        None => rects0,
    })
}

/// Everything but the scene's content and the drag targets and rest areas
/// is the same
pub open spec fn same_but_content(a: SceneHandler, b: SceneHandler) -> bool {
    &&& a.scene == b.scene
    &&& a.menu == b.menu
    &&& a.junk_pile == b.junk_pile
    &&& a.talking_actor == b.talking_actor
    &&& a.has_car == b.has_car
    &&& a.carshow_rating == b.carshow_rating
    &&& a.drag_drop.items == b.drag_drop.items
    &&& a.drag_drop.snap_targets == b.drag_drop.snap_targets
    &&& a.drag_drop.dragging_idx == b.drag_drop.dragging_idx
    &&& a.drag_drop.grab_offset_x == b.drag_drop.grab_offset_x
    &&& a.drag_drop.grab_offset_y == b.drag_drop.grab_offset_y
    &&& a.drag_drop.prev_mouse_down == b.drag_drop.prev_mouse_down
}

/// A sprite, if any, as plain values
pub open spec fn opt_sprite_view(o: Option<Sprite>) -> Option<SpriteV> {
    match o {
        Some(s) => Some(s@),
        None => None,
    }
}

/// A button, if any, as plain values
pub open spec fn opt_button_view(o: Option<MulleButton>) -> Option<MulleButtonV> {
    match o {
        Some(b) => Some(b@),
        None => None,
    }
}

/// The background sprite of a member
fn bg_sprite_of(store: &CastStore, f: &str, num: u32) -> (r: Option<Sprite>)
    ensures
        opt_sprite_view(r) == bg_sprite(*store, f@, num),
{
    match store.get_member(f, num) {
        Some(m) => match &m.image {
            Some(img) => {
                let (rx, ry) = store.reg_point_of(f, num);
                let mut name = String::new();
                name.append("bg#");
                push_decimal(&mut name, num);
                assert(name@ =~= bg_name(num));
                Some(Sprite {
                    x: 320 - rx,
                    y: 240 - ry,
                    width: img.width,
                    height: img.height,
                    pixels: img.pixels.clone(),
                    visible: true,
                    z_order: 0,
                    name,
                    interactive: false,
                    member_num: num,
                })
            },
            None => None,
        },
        None => None,
    }
}

/// The sprite of an overlay
fn overlay_sprite_of(store: &CastStore, f: &str, o: OverlayDef) -> (r: Option<Sprite>)
    requires
        -2_000_000_000 <= o.ax <= 2_000_000_000,
        -2_000_000_000 <= o.ay <= 2_000_000_000,
    ensures
        opt_sprite_view(r) == overlay_sprite(*store, f@, o),
{
    match store.get_member(f, o.num) {
        Some(m) => match &m.transparent {
            Some(img) => {
                let (rx, ry) = store.reg_point_of(f, o.num);
                let mut name = String::new();
                name.append("#");
                push_decimal(&mut name, o.num);
                name.append(" ");
                name.append(m.name.as_str());
                assert(name@ =~= overlay_name(o.num, m.name@));
                Some(Sprite {
                    x: o.ax - rx,
                    y: o.ay - ry,
                    width: img.width,
                    height: img.height,
                    pixels: img.pixels.clone(),
                    visible: true,
                    z_order: o.z,
                    name,
                    interactive: true,
                    member_num: o.num,
                })
            },
            None => None,
        },
        None => None,
    }
}

/// A button from its definition
fn button_of(store: &CastStore, f: &str, d: &ButtonDef) -> (r: Option<MulleButton>)
    ensures
        opt_button_view(r) == built_button(*store, f@, d@),
{
    match MulleButton::new(d.name.as_str(), f, d.num, Some(d.hover), 320, 240, d.target, d.z, store) {
        Some(mut b) => {
            match &d.sounds {
                Some((c, h)) => {
                    b.sound_default = Some(c.clone());
                    b.sound_hover = Some(h.clone());
                },
                None => {},
            }
            assert(b@ == built_button(*store, f@, d@).unwrap());
            Some(b)
        },
        None => None,
    }
}

proof fn lemma_first_anim_def(a: Seq<Animation>, d: Seq<AnimDefV>, name: Seq<char>)
    requires
        a.len() == d.len(),
        forall|i: int| 0 <= i < d.len() ==> #[trigger] a[i].name@ == d[i].name,
    ensures
        anim_named(a, name) == first_anim_def(d, name),
        first_anim_def(d, name) matches Some(i) ==> 0 <= i < d.len(),
    decreases d.len(),
{
    if d.len() > 0 {
        assert forall|i: int| 0 <= i < d.len() - 1 implies #[trigger] a.drop_last()[i].name@ == d.drop_last()[i].name by {
            assert(a.drop_last()[i] == a[i]);
            assert(d.drop_last()[i] == d[i]);
        }
        lemma_first_anim_def(a.drop_last(), d.drop_last(), name);
        assert(a.last().name@ == d.last().name);
    }
}

/// An actor from its definition
fn actor_of(store: &CastStore, d: &ActorDef) -> (r: Actor)
    ensures
        actor_loaded(r@, *store, d@),
{
    let mut a = Actor::new(d.name.as_str(), d.x, d.y, d.z);
    let ghost dv = d@;
    let mut k: usize = 0;
    while k < d.anims.len()
        invariant
            dv == d@,
            k <= dv.anims.len(),
            a@.name == dv.name && a.x == d.x && a.y == d.y && a.z_order == d.z,
            a.visible && a.talk_anim is None && a.silence_anim is None && !a.is_talking,
            a.active_anim == 0,
            a.animations@.len() == k,
            forall|i: int| 0 <= i < k ==> #[trigger] anim_loaded(a.animations@[i], *store, dv.anims[i]),
        decreases dv.anims.len() - k,
    {
        let ad = &d.anims[k];
        assert(ad@ == dv.anims[k as int]);
        let f = ad.file.as_str();
        let mut refs: Vec<(&str, u32)> = Vec::new();
        let mut j: usize = 0;
        while j < ad.frames.len()
            invariant
                j <= ad.frames@.len(),
                refs_view(refs@) == file_refs(f@, ad.frames@.take(j as int)),
            decreases ad.frames@.len() - j,
        {
            let ghost before = refs@;
            let n = ad.frames[j];
            refs.push((f, n));
            assert(refs@ =~= before.push((f, n)));
            assert(refs_view(refs@) =~= refs_view(before).push((f@, n)));
            assert(ad.frames@.take(j + 1) =~= ad.frames@.take(j as int).push(n));
            assert(file_refs(f@, ad.frames@.take(j + 1)) =~= file_refs(f@, ad.frames@.take(j as int)).push((f@, n)));
            j = j + 1;
        }
        assert(ad.frames@.take(ad.frames@.len() as int) =~= ad.frames@);
        let ghost a0 = a.animations@;
        a.add_animation(ad.name.as_str(), refs.as_slice(), ad.fps, ad.looping, store);
        assert forall|i: int| 0 <= i < k + 1 implies #[trigger] anim_loaded(a.animations@[i], *store, dv.anims[i]) by {
            if i < k {
                assert(a.animations@[i] == a0[i]);
            }
        }
        k = k + 1;
    }
    proof {
        assert forall|i: int| 0 <= i < dv.anims.len() implies #[trigger] a.animations@[i].name@ == dv.anims[i].name by {
            assert(anim_loaded(a.animations@[i], *store, dv.anims[i]));
        }
        lemma_first_anim_def(a.animations@, dv.anims, match dv.play { Some(p) => p, None => Seq::empty() });
    }
    match &d.talk {
        Some((t, s)) => {
            a.set_talk_anims(t.as_str(), s.as_str());
        },
        None => {},
    }
    let ghost before_play = a@;
    match &d.play {
        Some(p) => {
            a.play(p.as_str());
            proof {
                match first_anim_def(dv.anims, p@) {
                    Some(i) => {
                        assert(anim_loaded(before_play.animations[i], *store, dv.anims[i]));
                        assert(a@.animations[i] == before_play.animations[i]);
                        assert forall|m: int| 0 <= m < dv.anims.len() implies #[trigger] anim_loaded(a@.animations[m], *store, dv.anims[m]) by {
                            if m != i {
                                assert(a@.animations[m] == before_play.animations[m]);
                            }
                        }
                    },
                    None => {},
                }
            }
        },
        None => {},
    }
    a.visible = d.visible;
    a
}

proof fn lemma_layout_fits(scene: Scene, junk_pile: u8, has_car: bool, carshow_rating: u8, store: CastStore)
    ensures
        layout_fits(scene_layout_v(scene, junk_pile, has_car, carshow_rating, store)),
{
}

impl SceneHandler {
    /// Add what a layout shows to the scene: its background and overlays to
    /// the sprites, its buttons (with their drop targets), actors and
    /// hotspots; a pile's rest areas replace the old ones
    pub fn load_layout(&mut self, l: &SceneLayout, store: &CastStore)
        requires
            layout_fits(l@),
        ensures
            filled(
                *final(self),
                sprites_view(old(self).sprites@),
                mulle_buttons_view(old(self).buttons@),
                old(self).actors@,
                hotspots_view(old(self).hotspots@),
                targets_view(old(self).drag_drop.drop_targets@),
                old(self).drag_drop.drop_rects@,
                l@,
                *store,
            ),
            same_but_content(*final(self), *old(self)),
    {
        let ghost lv = l@;
        let f = l.file.as_str();
        let mut sprites: Vec<Sprite> = Vec::new();
        std::mem::swap(&mut sprites, &mut self.sprites);
        let ghost s0 = sprites_view(sprites@);
        let bg_num: Option<u32> = match &l.background {
            Some(BackgroundDef::Member(n)) => Some(*n),
            Some(BackgroundDef::Named(name)) => match store.find_member_by_name(f, name.as_str()) {
                Some(n) => Some(n),
                None => store.largest_bitmap_of(f),
            },
            Some(BackgroundDef::Largest) => store.largest_bitmap_of(f),
            None => None,
        };
        if let Some(n) = bg_num {
            if let Some(sp) = bg_sprite_of(store, f, n) {
                sprites.push(sp);
            }
        }
        let ghost s1 = sprites_view(sprites@);
        let ghost bgp = match lv.background {
            Some(b) => match background_member(*store, lv.file, b) {
                Some(n) => opt_seq(bg_sprite(*store, lv.file, n)),
                None => Seq::empty(),
            },
            None => Seq::empty(),
        };
        assert(s1 =~= s0 + bgp);
        let mut i: usize = 0;
        while i < l.overlays.len()
            invariant
                lv == l@,
                f@ == lv.file,
                layout_fits(lv),
                i <= lv.overlays.len(),
                sprites_view(sprites@) == s1 + overlay_sprites(*store, lv.file, lv.overlays.take(i as int)),
            decreases lv.overlays.len() - i,
        {
            let o = l.overlays[i];
            assert(lv.overlays.take(i + 1).drop_last() =~= lv.overlays.take(i as int));
            assert(lv.overlays.take(i + 1).last() == o);
            let ghost before = sprites_view(sprites@);
            match overlay_sprite_of(store, f, o) {
                Some(sp) => {
                    sprites.push(sp);
                    assert(sprites_view(sprites@) =~= before + opt_seq(overlay_sprite(*store, lv.file, o)));
                },
                None => {
                    assert(before =~= before + opt_seq(overlay_sprite(*store, lv.file, o)));
                },
            }
            assert(s1 + overlay_sprites(*store, lv.file, lv.overlays.take(i + 1))
                =~= s1 + overlay_sprites(*store, lv.file, lv.overlays.take(i as int)) + opt_seq(overlay_sprite(*store, lv.file, o)));
            i = i + 1;
        }
        assert(lv.overlays.take(lv.overlays.len() as int) =~= lv.overlays);
        self.sprites = sprites;
        assert(sprites_view(self.sprites@) =~= s0 + layout_sprites(*store, lv));

        let mut buttons: Vec<MulleButton> = Vec::new();
        std::mem::swap(&mut buttons, &mut self.buttons);
        let mut targets: Vec<DropTarget> = Vec::new();
        std::mem::swap(&mut targets, &mut self.drag_drop.drop_targets);
        let ghost b0 = mulle_buttons_view(buttons@);
        let ghost t0 = targets_view(targets@);
        let mut j: usize = 0;
        while j < l.buttons.len()
            invariant
                lv == l@,
                f@ == lv.file,
                j <= lv.buttons.len(),
                mulle_buttons_view(buttons@) == b0 + built_buttons(*store, lv.file, lv.buttons.take(j as int)),
                targets_view(targets@) == t0 + built_targets(*store, lv.file, lv.buttons.take(j as int)),
            decreases lv.buttons.len() - j,
        {
            let d = &l.buttons[j];
            assert(lv.buttons.take(j + 1).drop_last() =~= lv.buttons.take(j as int));
            assert(lv.buttons.take(j + 1).last() == d@);
            let ghost bb = mulle_buttons_view(buttons@);
            let ghost tb = targets_view(targets@);
            match button_of(store, f, d) {
                Some(b) => {
                    match &d.drop_id {
                        Some(id) => {
                            targets.push(DropTarget { x: b.x, y: b.y, width: b.width, height: b.height, id: id.clone(), name: d.name.clone() });
                            assert(targets_view(targets@) =~= tb + opt_seq(built_target(*store, lv.file, d@)));
                        },
                        None => {
                            assert(tb =~= tb + opt_seq(built_target(*store, lv.file, d@)));
                        },
                    }
                    buttons.push(b);
                    assert(mulle_buttons_view(buttons@) =~= bb + opt_seq(built_button(*store, lv.file, d@)));
                },
                None => {
                    assert(bb =~= bb + opt_seq(built_button(*store, lv.file, d@)));
                    assert(tb =~= tb + opt_seq(built_target(*store, lv.file, d@)));
                },
            }
            assert(b0 + built_buttons(*store, lv.file, lv.buttons.take(j + 1))
                =~= b0 + built_buttons(*store, lv.file, lv.buttons.take(j as int)) + opt_seq(built_button(*store, lv.file, d@)));
            assert(t0 + built_targets(*store, lv.file, lv.buttons.take(j + 1))
                =~= t0 + built_targets(*store, lv.file, lv.buttons.take(j as int)) + opt_seq(built_target(*store, lv.file, d@)));
            j = j + 1;
        }
        assert(lv.buttons.take(lv.buttons.len() as int) =~= lv.buttons);
        self.buttons = buttons;
        self.drag_drop.drop_targets = targets;

        let mut actors: Vec<Actor> = Vec::new();
        std::mem::swap(&mut actors, &mut self.actors);
        let ghost a0 = actors@;
        let mut k: usize = 0;
        while k < l.actors.len()
            invariant
                lv == l@,
                k <= lv.actors.len(),
                actors@.len() == a0.len() + k,
                forall|i: int| 0 <= i < a0.len() ==> #[trigger] actors@[i] == a0[i],
                forall|m: int| 0 <= m < k ==> #[trigger] actor_loaded(actors@[a0.len() + m]@, *store, lv.actors[m]),
            decreases lv.actors.len() - k,
        {
            let a = actor_of(store, &l.actors[k]);
            assert(l.actors@[k as int]@ == lv.actors[k as int]);
            actors.push(a);
            k = k + 1;
        }
        self.actors = actors;

        let mut hotspots: Vec<Hotspot> = Vec::new();
        std::mem::swap(&mut hotspots, &mut self.hotspots);
        let ghost h0 = hotspots_view(hotspots@);
        let mut m: usize = 0;
        while m < l.hotspots.len()
            invariant
                lv == l@,
                m <= lv.hotspots.len(),
                hotspots_view(hotspots@) == h0 + lv.hotspots.take(m as int),
            decreases lv.hotspots.len() - m,
        {
            let h = &l.hotspots[m];
            let ghost hb = hotspots_view(hotspots@);
            hotspots.push(Hotspot { x: h.x, y: h.y, width: h.width, height: h.height, name: h.name.clone(), target: h.target });
            assert(l.hotspots@[m as int]@ == lv.hotspots[m as int]);
            assert(hotspots_view(hotspots@) =~= hb.push(lv.hotspots[m as int]));
            assert(h0 + lv.hotspots.take(m + 1) =~= (h0 + lv.hotspots.take(m as int)).push(lv.hotspots[m as int]));
            m = m + 1;
        }
        assert(lv.hotspots.take(lv.hotspots.len() as int) =~= lv.hotspots);
        self.hotspots = hotspots;

        if let Some(p) = l.pile {
            self.drag_drop.drop_rects = DropRect::pile_rects(p);
        }
    }

    /// Fill the scene with what it is made of (its layout for the junk pile
    /// shown, the car and the car show rating)
    pub fn load_scene(&mut self, store: &CastStore)
        requires
            old(self).scene == Scene::Junkyard ==> old(self).junk_pile >= 1,
        ensures
            filled(
                *final(self),
                sprites_view(old(self).sprites@),
                mulle_buttons_view(old(self).buttons@),
                old(self).actors@,
                hotspots_view(old(self).hotspots@),
                targets_view(old(self).drag_drop.drop_targets@),
                old(self).drag_drop.drop_rects@,
                scene_layout_v(old(self).scene, old(self).junk_pile, old(self).has_car, old(self).carshow_rating, *store),
                *store,
            ),
            same_but_content(*final(self), *old(self)),
    {
        let l = scene_layout(self.scene, self.junk_pile, self.has_car, self.carshow_rating, store);
        proof {
            lemma_layout_fits(self.scene, self.junk_pile, self.has_car, self.carshow_rating, *store);
        }
        self.load_layout(&l, store);
    }
}

} // verus!
