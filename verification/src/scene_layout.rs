//! What each scene is made of: its cast file, background, overlays,
//! buttons (with their sounds and drop targets), animated actors, hotspots
//! and junk pile rest areas, by cast member number.

use vstd::prelude::*;
use crate::scene::Scene;
use crate::cast::CastStore;
use crate::game_rules::{next_pile, pile_after, pile_before, prev_pile};
use crate::scenes::{Hotspot, HotspotV};
use vstd::string::StringExecFns;
use crate::text::{decimal, owned, push_decimal};

verus! {

/// How a scene's background is found in its file
pub enum BackgroundDef {
    /// The member of this number
    Member(u32),
    /// The first member of this name, else the largest bitmap
    Named(String),
    /// The largest bitmap
    Largest,
}

/// Abstract background
pub enum BackgroundDefV {
    Member(u32),
    Named(Seq<char>),
    Largest,
}

impl View for BackgroundDef {
    type V = BackgroundDefV;

    open spec fn view(&self) -> BackgroundDefV {
        match self {
            BackgroundDef::Member(n) => BackgroundDefV::Member(*n),
            BackgroundDef::Named(s) => BackgroundDefV::Named(s@),
            BackgroundDef::Largest => BackgroundDefV::Largest,
        }
    }
}

/// A still image of the scene's file, anchored at (ax, ay)
#[derive(Clone, Copy)]
pub struct OverlayDef {
    pub num: u32,
    pub ax: i32,
    pub ay: i32,
    pub z: i32,
}

/// A button of the scene's file, anchored at the screen center
pub struct ButtonDef {
    pub name: String,
    /// Member shown normally
    pub num: u32,
    /// Member shown while hovered
    pub hover: u32,
    pub target: Option<Scene>,
    pub z: i32,
    /// Click and hover sounds
    pub sounds: Option<(String, String)>,
    /// Id of the drop target over the button, if parts can be dropped on it
    pub drop_id: Option<String>,
}

/// Abstract button
pub struct ButtonDefV {
    pub name: Seq<char>,
    pub num: u32,
    pub hover: u32,
    pub target: Option<Scene>,
    pub z: i32,
    pub sounds: Option<(Seq<char>, Seq<char>)>,
    pub drop_id: Option<Seq<char>>,
}

pub open spec fn pair_view(p: Option<(String, String)>) -> Option<(Seq<char>, Seq<char>)> {
    match p {
        Some(q) => Some((q.0@, q.1@)),
        None => None,
    }
}

pub open spec fn opt_str_view(p: Option<String>) -> Option<Seq<char>> {
    match p {
        Some(q) => Some(q@),
        None => None,
    }
}

impl View for ButtonDef {
    type V = ButtonDefV;

    open spec fn view(&self) -> ButtonDefV {
        ButtonDefV {
            name: self.name@,
            num: self.num,
            hover: self.hover,
            target: self.target,
            z: self.z,
            sounds: pair_view(self.sounds),
            drop_id: opt_str_view(self.drop_id),
        }
    }
}

/// An animation: frames of one file, by member number
pub struct AnimDef {
    pub name: String,
    pub file: String,
    pub frames: Vec<u32>,
    pub fps: u32,
    pub looping: bool,
}

/// Abstract animation
pub struct AnimDefV {
    pub name: Seq<char>,
    pub file: Seq<char>,
    pub frames: Seq<u32>,
    pub fps: u32,
    pub looping: bool,
}

impl View for AnimDef {
    type V = AnimDefV;

    open spec fn view(&self) -> AnimDefV {
        AnimDefV { name: self.name@, file: self.file@, frames: self.frames@, fps: self.fps, looping: self.looping }
    }
}

/// An actor: position, draw order, animations (in order), lip-sync pair,
/// the animation it starts with and whether it shows
pub struct ActorDef {
    pub name: String,
    pub x: i32,
    pub y: i32,
    pub z: i32,
    pub anims: Vec<AnimDef>,
    pub talk: Option<(String, String)>,
    pub play: Option<String>,
    pub visible: bool,
}

/// Abstract actor
pub struct ActorDefV {
    pub name: Seq<char>,
    pub x: i32,
    pub y: i32,
    pub z: i32,
    pub anims: Seq<AnimDefV>,
    pub talk: Option<(Seq<char>, Seq<char>)>,
    pub play: Option<Seq<char>>,
    pub visible: bool,
}

pub open spec fn anims_view(s: Seq<AnimDef>) -> Seq<AnimDefV> {
    s.map_values(|a: AnimDef| a@)
}

impl View for ActorDef {
    type V = ActorDefV;

    open spec fn view(&self) -> ActorDefV {
        ActorDefV {
            name: self.name@,
            x: self.x,
            y: self.y,
            z: self.z,
            anims: anims_view(self.anims@),
            talk: pair_view(self.talk),
            play: opt_str_view(self.play),
            visible: self.visible,
        }
    }
}

/// What a scene is made of
pub struct SceneLayout {
    /// The cast file the scene's images come from
    pub file: String,
    pub background: Option<BackgroundDef>,
    pub overlays: Vec<OverlayDef>,
    pub buttons: Vec<ButtonDef>,
    pub actors: Vec<ActorDef>,
    pub hotspots: Vec<Hotspot>,
    /// The junk pile whose rest areas the scene uses
    pub pile: Option<u8>,
}

/// Abstract layout
pub struct SceneLayoutV {
    pub file: Seq<char>,
    pub background: Option<BackgroundDefV>,
    pub overlays: Seq<OverlayDef>,
    pub buttons: Seq<ButtonDefV>,
    pub actors: Seq<ActorDefV>,
    pub hotspots: Seq<HotspotV>,
    pub pile: Option<u8>,
}

pub open spec fn buttons_view(s: Seq<ButtonDef>) -> Seq<ButtonDefV> {
    s.map_values(|b: ButtonDef| b@)
}

pub open spec fn actor_defs_view(s: Seq<ActorDef>) -> Seq<ActorDefV> {
    s.map_values(|a: ActorDef| a@)
}

pub open spec fn hotspots_view(s: Seq<Hotspot>) -> Seq<HotspotV> {
    s.map_values(|h: Hotspot| h@)
}

impl View for SceneLayout {
    type V = SceneLayoutV;

    open spec fn view(&self) -> SceneLayoutV {
        SceneLayoutV {
            file: self.file@,
            background: match self.background {
                Some(b) => Some(b@),
                None => None,
            },
            overlays: self.overlays@,
            buttons: buttons_view(self.buttons@),
            actors: actor_defs_view(self.actors@),
            hotspots: hotspots_view(self.hotspots@),
            pile: self.pile,
        }
    }
}

// ---------------------------------------------------------------------------
// Building blocks
// ---------------------------------------------------------------------------

pub open spec fn anim_v(name: Seq<char>, file: Seq<char>, frames: Seq<u32>, fps: u32, looping: bool) -> AnimDefV {
    AnimDefV { name, file, frames, fps, looping }
}

fn anim(name: &str, file: &str, frames: &[u32], fps: u32, looping: bool) -> (r: AnimDef)
    ensures
        r@ == anim_v(name@, file@, frames@, fps, looping),
{
    AnimDef { name: owned(name), file: owned(file), frames: vstd::slice::slice_to_vec(frames), fps, looping }
}

pub open spec fn str_pair_v(p: Option<(&str, &str)>) -> Option<(Seq<char>, Seq<char>)> {
    match p {
        Some(q) => Some((q.0@, q.1@)),
        None => None,
    }
}

fn owned_pair(p: Option<(&str, &str)>) -> (r: Option<(String, String)>)
    ensures
        pair_view(r) == str_pair_v(p),
{
    match p {
        Some((a, b)) => Some((owned(a), owned(b))),
        None => None,
    }
}

fn owned_opt(p: Option<&str>) -> (r: Option<String>)
    ensures
        opt_str_view(r) == (match p { Some(q) => Some(q@), None => None::<Seq<char>> }),
{
    match p {
        Some(a) => Some(owned(a)),
        None => None,
    }
}

pub open spec fn actor_v(
    name: Seq<char>,
    x: i32,
    y: i32,
    z: i32,
    anims: Seq<AnimDefV>,
    talk: Option<(Seq<char>, Seq<char>)>,
    play: Option<Seq<char>>,
    visible: bool,
) -> ActorDefV {
    ActorDefV { name, x, y, z, anims, talk, play, visible }
}

fn actor(
    name: &str,
    x: i32,
    y: i32,
    z: i32,
    anims: Vec<AnimDef>,
    talk: Option<(&str, &str)>,
    play: Option<&str>,
    visible: bool,
) -> (r: ActorDef)
    ensures
        r@ == actor_v(name@, x, y, z, anims_view(anims@), str_pair_v(talk), (match play { Some(q) => Some(q@), None => None::<Seq<char>> }), visible),
{
    ActorDef { name: owned(name), x, y, z, anims, talk: owned_pair(talk), play: owned_opt(play), visible }
}

pub open spec fn button_v(
    name: Seq<char>,
    num: u32,
    hover: u32,
    target: Option<Scene>,
    z: i32,
    sounds: Option<(Seq<char>, Seq<char>)>,
    drop_id: Option<Seq<char>>,
) -> ButtonDefV {
    ButtonDefV { name, num, hover, target, z, sounds, drop_id }
}

fn button(
    name: &str,
    num: u32,
    hover: u32,
    target: Option<Scene>,
    z: i32,
    sounds: Option<(&str, &str)>,
    drop_id: Option<&str>,
) -> (r: ButtonDef)
    ensures
        r@ == button_v(name@, num, hover, target, z, str_pair_v(sounds), (match drop_id { Some(q) => Some(q@), None => None::<Seq<char>> })),
{
    ButtonDef { name: owned(name), num, hover, target, z, sounds: owned_pair(sounds), drop_id: owned_opt(drop_id) }
}

pub open spec fn hotspot_v(x: i32, y: i32, width: u32, height: u32, name: Seq<char>, target: Option<Scene>) -> HotspotV {
    HotspotV { x, y, width, height, name, target }
}

fn hotspot(x: i32, y: i32, width: u32, height: u32, name: &str, target: Option<Scene>) -> (r: Hotspot)
    ensures
        r@ == hotspot_v(x, y, width, height, name@, target),
{
    Hotspot { x, y, width, height, name: owned(name), target }
}

/// The sounds of a door: click "02e015v0", hover "02e016v0"
pub open spec fn door_sounds() -> Option<(Seq<char>, Seq<char>)> {
    Some(("02e015v0"@, "02e016v0"@))
}

// ---------------------------------------------------------------------------
// Actors
// ---------------------------------------------------------------------------

/// Mulle's head in the menu at (139, 296): idle, pointing
pub open spec fn menu_head_v() -> ActorDefV {
    actor_v("mulleMenuHead"@, 139, 296, 15, seq![
        anim_v("idle"@, "10.DXR"@, seq![126u32], 0, true),
        anim_v("point"@, "10.DXR"@, seq![136u32, 137, 137, 137, 137, 137, 137, 137, 137, 136, 126], 10, false),
    ], None, Some("idle"@), true)
}

fn menu_head() -> (r: ActorDef)
    ensures
        r@ == menu_head_v(),
{
    let a0 = anim("idle", "10.DXR", &[126], 0, true);
    assert(a0@.frames =~= menu_head_v().anims[0].frames);
    let a1 = anim("point", "10.DXR", &[136, 137, 137, 137, 137, 137, 137, 137, 137, 136, 126], 10, false);
    assert(a1@.frames =~= menu_head_v().anims[1].frames);
    let v = vec![a0, a1];
    assert(anims_view(v@) =~= menu_head_v().anims);
    let r = actor("mulleMenuHead", 139, 296, 15, v, None, Some("idle"), true);
    assert(r@ =~~= menu_head_v());
    r
}

/// Mulle's mouth in the menu at (139, 296): idle, talking
pub open spec fn menu_mouth_v() -> ActorDefV {
    actor_v("mulleMenuMouth"@, 139, 296, 16, seq![
        anim_v("idle"@, "10.DXR"@, seq![115u32], 5, true),
        anim_v("talkPlayer"@, "10.DXR"@, seq![115u32, 116, 117, 118, 119, 120, 121, 122], 10, true),
    ], Some(("talkPlayer"@, "idle"@)), Some("idle"@), true)
}

fn menu_mouth() -> (r: ActorDef)
    ensures
        r@ == menu_mouth_v(),
{
    let a0 = anim("idle", "10.DXR", &[115], 5, true);
    assert(a0@.frames =~= menu_mouth_v().anims[0].frames);
    let a1 = anim("talkPlayer", "10.DXR", &[115, 116, 117, 118, 119, 120, 121, 122], 10, true);
    assert(a1@.frames =~= menu_mouth_v().anims[1].frames);
    let v = vec![a0, a1];
    assert(anims_view(v@) =~= menu_mouth_v().anims);
    let r = actor("mulleMenuMouth", 139, 296, 16, v, Some(("talkPlayer", "idle")), Some("idle"), true);
    assert(r@ =~~= menu_mouth_v());
    r
}

/// Mulle in the garage at (118, 188): idle, looking at the player, talking, scratching his chin, looking left
pub open spec fn garage_mulle_v() -> ActorDefV {
    actor_v("mulleDefault"@, 118, 188, 20, seq![
        anim_v("idle"@, "00.CXT"@, seq![271u32], 10, true),
        anim_v("lookPlayer"@, "00.CXT"@, seq![287u32, 288], 10, true),
        anim_v("talkPlayer"@, "00.CXT"@, seq![289u32, 290, 291, 292, 293, 294, 295], 10, true),
        anim_v("scratchChin"@, "00.CXT"@, seq![271u32, 272, 273, 274, 275, 276], 10, false),
        anim_v("lookLeft"@, "00.CXT"@, seq![283u32], 10, true),
    ], None, Some("idle"@), true)
}

fn garage_mulle() -> (r: ActorDef)
    ensures
        r@ == garage_mulle_v(),
{
    let a0 = anim("idle", "00.CXT", &[271], 10, true);
    assert(a0@.frames =~= garage_mulle_v().anims[0].frames);
    let a1 = anim("lookPlayer", "00.CXT", &[287, 288], 10, true);
    assert(a1@.frames =~= garage_mulle_v().anims[1].frames);
    let a2 = anim("talkPlayer", "00.CXT", &[289, 290, 291, 292, 293, 294, 295], 10, true);
    assert(a2@.frames =~= garage_mulle_v().anims[2].frames);
    let a3 = anim("scratchChin", "00.CXT", &[271, 272, 273, 274, 275, 276], 10, false);
    assert(a3@.frames =~= garage_mulle_v().anims[3].frames);
    let a4 = anim("lookLeft", "00.CXT", &[283], 10, true);
    assert(a4@.frames =~= garage_mulle_v().anims[4].frames);
    let v = vec![a0, a1, a2, a3, a4];
    assert(anims_view(v@) =~= garage_mulle_v().anims);
    let r = actor("mulleDefault", 118, 188, 20, v, None, Some("idle"), true);
    assert(r@ =~~= garage_mulle_v());
    r
}

/// Figge at the garage's side door, hidden until he comes: entering, standing, leaving, talking
pub open spec fn garage_figge_v() -> ActorDefV {
    actor_v("figge"@, 320, 240, 18, seq![
        anim_v("enter"@, "03.DXR"@, seq![81u32, 82, 83, 84, 85], 10, false),
        anim_v("entered"@, "03.DXR"@, seq![86u32], 10, true),
        anim_v("exit"@, "03.DXR"@, seq![85u32, 84, 83, 82, 81], 10, false),
        anim_v("talk"@, "03.DXR"@, seq![86u32, 87, 88, 89, 90, 91, 92, 93], 10, true),
    ], Some(("talk"@, "entered"@)), None, false)
}

fn garage_figge() -> (r: ActorDef)
    ensures
        r@ == garage_figge_v(),
{
    let a0 = anim("enter", "03.DXR", &[81, 82, 83, 84, 85], 10, false);
    assert(a0@.frames =~= garage_figge_v().anims[0].frames);
    let a1 = anim("entered", "03.DXR", &[86], 10, true);
    assert(a1@.frames =~= garage_figge_v().anims[1].frames);
    let a2 = anim("exit", "03.DXR", &[85, 84, 83, 82, 81], 10, false);
    assert(a2@.frames =~= garage_figge_v().anims[2].frames);
    let a3 = anim("talk", "03.DXR", &[86, 87, 88, 89, 90, 91, 92, 93], 10, true);
    assert(a3@.frames =~= garage_figge_v().anims[3].frames);
    let v = vec![a0, a1, a2, a3];
    assert(anims_view(v@) =~= garage_figge_v().anims);
    let r = actor("figge", 320, 240, 18, v, Some(("talk", "entered")), None, false);
    assert(r@ =~~= garage_figge_v());
    r
}

/// The car show judge at (155, 210): idle, talking, raising and lowering the score card, idle and talking with it
pub open spec fn judge_v(f: Seq<char>) -> ActorDefV {
    actor_v("judge"@, 155, 210, 20, seq![
        anim_v("idle"@, f, seq![31u32], 10, true),
        anim_v("talk"@, f, seq![43u32, 44, 45, 46, 47], 10, true),
        anim_v("raiseScore"@, f, seq![32u32, 33, 34, 35], 5, false),
        anim_v("idleScore"@, f, seq![36u32], 10, true),
        anim_v("talkScore"@, f, seq![37u32, 38, 39, 41, 42], 10, true),
        anim_v("lowerScore"@, f, seq![35u32, 34, 33, 32], 5, false),
    ], Some(("talk"@, "idle"@)), Some("idle"@), true)
}

fn judge(f: &str) -> (r: ActorDef)
    ensures
        r@ == judge_v(f@),
{
    let a0 = anim("idle", f, &[31], 10, true);
    assert(a0@.frames =~= judge_v(f@).anims[0].frames);
    let a1 = anim("talk", f, &[43, 44, 45, 46, 47], 10, true);
    assert(a1@.frames =~= judge_v(f@).anims[1].frames);
    let a2 = anim("raiseScore", f, &[32, 33, 34, 35], 5, false);
    assert(a2@.frames =~= judge_v(f@).anims[2].frames);
    let a3 = anim("idleScore", f, &[36], 10, true);
    assert(a3@.frames =~= judge_v(f@).anims[3].frames);
    let a4 = anim("talkScore", f, &[37, 38, 39, 41, 42], 10, true);
    assert(a4@.frames =~= judge_v(f@).anims[4].frames);
    let a5 = anim("lowerScore", f, &[35, 34, 33, 32], 5, false);
    assert(a5@.frames =~= judge_v(f@).anims[5].frames);
    let v = vec![a0, a1, a2, a3, a4, a5];
    assert(anims_view(v@) =~= judge_v(f@).anims);
    let r = actor("judge", 155, 210, 20, v, Some(("talk", "idle")), Some("idle"), true);
    assert(r@ =~~= judge_v(f@));
    r
}

/// Mulle at the car show at (89, 337), looking left at first
pub open spec fn carshow_mulle_v() -> ActorDefV {
    actor_v("mulleDefault"@, 89, 337, 15, seq![
        anim_v("lookLeft"@, "00.CXT"@, seq![283u32], 10, true),
        anim_v("idle"@, "00.CXT"@, seq![271u32], 10, true),
        anim_v("talkRegular"@, "00.CXT"@, seq![296u32, 297, 298, 299, 300, 301, 302], 10, true),
    ], Some(("talkRegular"@, "idle"@)), Some("lookLeft"@), true)
}

fn carshow_mulle() -> (r: ActorDef)
    ensures
        r@ == carshow_mulle_v(),
{
    let a0 = anim("lookLeft", "00.CXT", &[283], 10, true);
    assert(a0@.frames =~= carshow_mulle_v().anims[0].frames);
    let a1 = anim("idle", "00.CXT", &[271], 10, true);
    assert(a1@.frames =~= carshow_mulle_v().anims[1].frames);
    let a2 = anim("talkRegular", "00.CXT", &[296, 297, 298, 299, 300, 301, 302], 10, true);
    assert(a2@.frames =~= carshow_mulle_v().anims[2].frames);
    let v = vec![a0, a1, a2];
    assert(anims_view(v@) =~= carshow_mulle_v().anims);
    let r = actor("mulleDefault", 89, 337, 15, v, Some(("talkRegular", "idle")), Some("lookLeft"), true);
    assert(r@ =~~= carshow_mulle_v());
    r
}

/// Salka on the road at (480, 386)
pub open spec fn salka_right_v(f: Seq<char>) -> ActorDefV {
    actor_v("salkaRight"@, 480, 386, 20, seq![
        anim_v("idle"@, f, seq![26u32, 27, 28, 29, 30, 29, 28, 27], 15, true),
    ], None, Some("idle"@), true)
}

fn salka_right(f: &str) -> (r: ActorDef)
    ensures
        r@ == salka_right_v(f@),
{
    let a0 = anim("idle", f, &[26, 27, 28, 29, 30, 29, 28, 27], 15, true);
    assert(a0@.frames =~= salka_right_v(f@).anims[0].frames);
    let v = vec![a0];
    assert(anims_view(v@) =~= salka_right_v(f@).anims);
    let r = actor("salkaRight", 480, 386, 20, v, None, Some("idle"), true);
    assert(r@ =~~= salka_right_v(f@));
    r
}

/// Mia's body at (277, 246): idle, starting and ending the catch
pub open spec fn mia_body_v(f: Seq<char>) -> ActorDefV {
    actor_v("miaBody"@, 277, 246, 18, seq![
        anim_v("idle"@, f, seq![55u32], 10, true),
        anim_v("catchIntro"@, f, seq![55u32, 56, 57, 58], 10, false),
        anim_v("catchEnd"@, f, seq![47u32, 48, 49, 50], 10, false),
    ], None, Some("idle"@), true)
}

fn mia_body(f: &str) -> (r: ActorDef)
    ensures
        r@ == mia_body_v(f@),
{
    let a0 = anim("idle", f, &[55], 10, true);
    assert(a0@.frames =~= mia_body_v(f@).anims[0].frames);
    let a1 = anim("catchIntro", f, &[55, 56, 57, 58], 10, false);
    assert(a1@.frames =~= mia_body_v(f@).anims[1].frames);
    let a2 = anim("catchEnd", f, &[47, 48, 49, 50], 10, false);
    assert(a2@.frames =~= mia_body_v(f@).anims[2].frames);
    let v = vec![a0, a1, a2];
    assert(anims_view(v@) =~= mia_body_v(f@).anims);
    let r = actor("miaBody", 277, 246, 18, v, None, Some("idle"), true);
    assert(r@ =~~= mia_body_v(f@));
    r
}

/// Mia's head at (535, 336): idle and talking, also about the cat
pub open spec fn mia_head_v(f: Seq<char>) -> ActorDefV {
    actor_v("miaHead"@, 535, 336, 19, seq![
        anim_v("idle"@, f, seq![62u32], 10, true),
        anim_v("talk"@, f, seq![63u32, 64, 65, 66, 67], 10, true),
        anim_v("idleCat"@, f, seq![69u32], 10, true),
        anim_v("talkCat"@, f, seq![69u32, 70, 71, 72, 73, 74], 10, true),
    ], Some(("talk"@, "idle"@)), Some("idle"@), true)
}

fn mia_head(f: &str) -> (r: ActorDef)
    ensures
        r@ == mia_head_v(f@),
{
    let a0 = anim("idle", f, &[62], 10, true);
    assert(a0@.frames =~= mia_head_v(f@).anims[0].frames);
    let a1 = anim("talk", f, &[63, 64, 65, 66, 67], 10, true);
    assert(a1@.frames =~= mia_head_v(f@).anims[1].frames);
    let a2 = anim("idleCat", f, &[69], 10, true);
    assert(a2@.frames =~= mia_head_v(f@).anims[2].frames);
    let a3 = anim("talkCat", f, &[69, 70, 71, 72, 73, 74], 10, true);
    assert(a3@.frames =~= mia_head_v(f@).anims[3].frames);
    let v = vec![a0, a1, a2, a3];
    assert(anims_view(v@) =~= mia_head_v(f@).anims);
    let r = actor("miaHead", 535, 336, 19, v, Some(("talk", "idle")), Some("idle"), true);
    assert(r@ =~~= mia_head_v(f@));
    r
}

/// The cat at (278, 240): idle and its two jumps
pub open spec fn cat_v(f: Seq<char>) -> ActorDefV {
    actor_v("cat"@, 278, 240, 20, seq![
        anim_v("idle"@, f, seq![30u32], 10, true),
        anim_v("jump1"@, f, seq![31u32, 32, 33, 34, 35, 36, 37, 38, 39, 40, 41, 42], 10, false),
        anim_v("jump2"@, f, seq![42u32, 43, 44, 45], 10, false),
    ], None, Some("idle"@), true)
}

fn cat(f: &str) -> (r: ActorDef)
    ensures
        r@ == cat_v(f@),
{
    let a0 = anim("idle", f, &[30], 10, true);
    assert(a0@.frames =~= cat_v(f@).anims[0].frames);
    let a1 = anim("jump1", f, &[31, 32, 33, 34, 35, 36, 37, 38, 39, 40, 41, 42], 10, false);
    assert(a1@.frames =~= cat_v(f@).anims[1].frames);
    let a2 = anim("jump2", f, &[42, 43, 44, 45], 10, false);
    assert(a2@.frames =~= cat_v(f@).anims[2].frames);
    let v = vec![a0, a1, a2];
    assert(anims_view(v@) =~= cat_v(f@).anims);
    let r = actor("cat", 278, 240, 20, v, None, Some("idle"), true);
    assert(r@ =~~= cat_v(f@));
    r
}

/// The lemonade factory's waiter at (537, 218)
pub open spec fn garson_v(f: Seq<char>) -> ActorDefV {
    actor_v("garson"@, 537, 218, 20, seq![
        anim_v("idle"@, f, seq![15u32], 10, true),
        anim_v("talk"@, f, seq![16u32, 17, 18], 8, true),
    ], Some(("talk"@, "idle"@)), Some("idle"@), true)
}

fn garson(f: &str) -> (r: ActorDef)
    ensures
        r@ == garson_v(f@),
{
    let a0 = anim("idle", f, &[15], 10, true);
    assert(a0@.frames =~= garson_v(f@).anims[0].frames);
    let a1 = anim("talk", f, &[16, 17, 18], 8, true);
    assert(a1@.frames =~= garson_v(f@).anims[1].frames);
    let v = vec![a0, a1];
    assert(anims_view(v@) =~= garson_v(f@).anims);
    let r = actor("garson", 537, 218, 20, v, Some(("talk", "idle")), Some("idle"), true);
    assert(r@ =~~= garson_v(f@));
    r
}

/// Sture, sad, at (285, 162)
pub open spec fn sture_sad_v(f: Seq<char>) -> ActorDefV {
    actor_v("stureSad"@, 285, 162, 20, seq![
        anim_v("idle"@, f, seq![42u32], 10, true),
        anim_v("talk"@, f, seq![43u32, 44, 45, 46, 47], 10, true),
    ], Some(("talk"@, "idle"@)), Some("idle"@), true)
}

fn sture_sad(f: &str) -> (r: ActorDef)
    ensures
        r@ == sture_sad_v(f@),
{
    let a0 = anim("idle", f, &[42], 10, true);
    assert(a0@.frames =~= sture_sad_v(f@).anims[0].frames);
    let a1 = anim("talk", f, &[43, 44, 45, 46, 47], 10, true);
    assert(a1@.frames =~= sture_sad_v(f@).anims[1].frames);
    let v = vec![a0, a1];
    assert(anims_view(v@) =~= sture_sad_v(f@).anims);
    let r = actor("stureSad", 285, 162, 20, v, Some(("talk", "idle")), Some("idle"), true);
    assert(r@ =~~= sture_sad_v(f@));
    r
}

/// Sture, happy, at (285, 162), hidden at first
pub open spec fn sture_happy_v(f: Seq<char>) -> ActorDefV {
    actor_v("stureHappy"@, 285, 162, 20, seq![
        anim_v("idle"@, f, seq![34u32], 10, true),
        anim_v("talk"@, f, seq![35u32, 36, 37, 38, 39], 8, true),
    ], Some(("talk"@, "idle"@)), Some("idle"@), false)
}

fn sture_happy(f: &str) -> (r: ActorDef)
    ensures
        r@ == sture_happy_v(f@),
{
    let a0 = anim("idle", f, &[34], 10, true);
    assert(a0@.frames =~= sture_happy_v(f@).anims[0].frames);
    let a1 = anim("talk", f, &[35, 36, 37, 38, 39], 8, true);
    assert(a1@.frames =~= sture_happy_v(f@).anims[1].frames);
    let v = vec![a0, a1];
    assert(anims_view(v@) =~= sture_happy_v(f@).anims);
    let r = actor("stureHappy", 285, 162, 20, v, Some(("talk", "idle")), Some("idle"), false);
    assert(r@ =~~= sture_happy_v(f@));
    r
}

/// Buffa the dog at (271, 347): idle, scratching, falling asleep, sleeping, barking
pub open spec fn buffa_v() -> ActorDefV {
    actor_v("buffa"@, 271, 347, 15, seq![
        anim_v("idle"@, "00.CXT"@, seq![214u32], 10, true),
        anim_v("scratch1"@, "00.CXT"@, seq![214u32, 215], 10, true),
        anim_v("sleep_intro"@, "00.CXT"@, seq![214u32, 216, 217, 218], 10, false),
        anim_v("sleep_loop"@, "00.CXT"@, seq![219u32, 220], 1, false),
        anim_v("bark"@, "00.CXT"@, seq![222u32, 223], 10, true),
    ], None, Some("idle"@), true)
}

fn buffa() -> (r: ActorDef)
    ensures
        r@ == buffa_v(),
{
    let a0 = anim("idle", "00.CXT", &[214], 10, true);
    assert(a0@.frames =~= buffa_v().anims[0].frames);
    let a1 = anim("scratch1", "00.CXT", &[214, 215], 10, true);
    assert(a1@.frames =~= buffa_v().anims[1].frames);
    let a2 = anim("sleep_intro", "00.CXT", &[214, 216, 217, 218], 10, false);
    assert(a2@.frames =~= buffa_v().anims[2].frames);
    let a3 = anim("sleep_loop", "00.CXT", &[219, 220], 1, false);
    assert(a3@.frames =~= buffa_v().anims[3].frames);
    let a4 = anim("bark", "00.CXT", &[222, 223], 10, true);
    assert(a4@.frames =~= buffa_v().anims[4].frames);
    let v = vec![a0, a1, a2, a3, a4];
    assert(anims_view(v@) =~= buffa_v().anims);
    let r = actor("buffa", 271, 347, 15, v, None, Some("idle"), true);
    assert(r@ =~~= buffa_v());
    r
}

/// Figge's head at (102, 292): idle and talking
pub open spec fn figge_head_v(f: Seq<char>) -> ActorDefV {
    actor_v("figge"@, 102, 292, 20, seq![
        anim_v("idle"@, f, seq![17u32], 10, true),
        anim_v("talkPlayer"@, f, seq![17u32, 18, 19, 20, 21, 22, 23, 24, 25], 10, true),
    ], Some(("talkPlayer"@, "idle"@)), Some("idle"@), true)
}

fn figge_head(f: &str) -> (r: ActorDef)
    ensures
        r@ == figge_head_v(f@),
{
    let a0 = anim("idle", f, &[17], 10, true);
    assert(a0@.frames =~= figge_head_v(f@).anims[0].frames);
    let a1 = anim("talkPlayer", f, &[17, 18, 19, 20, 21, 22, 23, 24, 25], 10, true);
    assert(a1@.frames =~= figge_head_v(f@).anims[1].frames);
    let v = vec![a0, a1];
    assert(anims_view(v@) =~= figge_head_v(f@).anims);
    let r = actor("figge", 102, 292, 20, v, Some(("talkPlayer", "idle")), Some("idle"), true);
    assert(r@ =~~= figge_head_v(f@));
    r
}

/// Salka back with Figge at (200, 363), hidden at first
pub open spec fn salka_left_v(f: Seq<char>) -> ActorDefV {
    actor_v("salkaLeft"@, 200, 363, 18, seq![
        anim_v("idle"@, f, seq![40u32, 41, 42, 43, 44, 43, 42, 41], 15, true),
    ], None, Some("idle"@), false)
}

fn salka_left(f: &str) -> (r: ActorDef)
    ensures
        r@ == salka_left_v(f@),
{
    let a0 = anim("idle", f, &[40, 41, 42, 43, 44, 43, 42, 41], 15, true);
    assert(a0@.frames =~= salka_left_v(f@).anims[0].frames);
    let v = vec![a0];
    assert(anims_view(v@) =~= salka_left_v(f@).anims);
    let r = actor("salkaLeft", 200, 363, 18, v, None, Some("idle"), false);
    assert(r@ =~~= salka_left_v(f@));
    r
}

/// Mulle at a destination: idle, looking, talking, turning, scratching
pub open spec fn destination_mulle_v(x: i32, y: i32) -> ActorDefV {
    actor_v("mulleDefault"@, x, y, 25, seq![
        anim_v("idle"@, "00.CXT"@, seq![271u32], 10, true),
        anim_v("lookPlayer"@, "00.CXT"@, seq![287u32, 288], 10, true),
        anim_v("talkPlayer"@, "00.CXT"@, seq![289u32, 290, 291, 292, 293, 294, 295], 10, true),
        anim_v("talkRegular"@, "00.CXT"@, seq![296u32, 297, 298, 299, 300, 301, 302], 10, true),
        anim_v("lookLeft"@, "00.CXT"@, seq![283u32], 10, true),
        anim_v("turnBack"@, "00.CXT"@, seq![285u32], 10, true),
        anim_v("scratchChin"@, "00.CXT"@, seq![271u32, 272, 273, 274, 275, 276], 10, false),
        anim_v("scratchHead"@, "00.CXT"@, seq![277u32, 278, 279, 280, 281, 282], 10, false),
    ], Some(("talkRegular"@, "idle"@)), Some("idle"@), true)
}

fn destination_mulle(x: i32, y: i32) -> (r: ActorDef)
    ensures
        r@ == destination_mulle_v(x, y),
{
    let a0 = anim("idle", "00.CXT", &[271], 10, true);
    assert(a0@.frames =~= destination_mulle_v(x, y).anims[0].frames);
    let a1 = anim("lookPlayer", "00.CXT", &[287, 288], 10, true);
    assert(a1@.frames =~= destination_mulle_v(x, y).anims[1].frames);
    let a2 = anim("talkPlayer", "00.CXT", &[289, 290, 291, 292, 293, 294, 295], 10, true);
    assert(a2@.frames =~= destination_mulle_v(x, y).anims[2].frames);
    let a3 = anim("talkRegular", "00.CXT", &[296, 297, 298, 299, 300, 301, 302], 10, true);
    assert(a3@.frames =~= destination_mulle_v(x, y).anims[3].frames);
    let a4 = anim("lookLeft", "00.CXT", &[283], 10, true);
    assert(a4@.frames =~= destination_mulle_v(x, y).anims[4].frames);
    let a5 = anim("turnBack", "00.CXT", &[285], 10, true);
    assert(a5@.frames =~= destination_mulle_v(x, y).anims[5].frames);
    let a6 = anim("scratchChin", "00.CXT", &[271, 272, 273, 274, 275, 276], 10, false);
    assert(a6@.frames =~= destination_mulle_v(x, y).anims[6].frames);
    let a7 = anim("scratchHead", "00.CXT", &[277, 278, 279, 280, 281, 282], 10, false);
    assert(a7@.frames =~= destination_mulle_v(x, y).anims[7].frames);
    let v = vec![a0, a1, a2, a3, a4, a5, a6, a7];
    assert(anims_view(v@) =~= destination_mulle_v(x, y).anims);
    let r = actor("mulleDefault", x, y, 25, v, Some(("talkRegular", "idle")), Some("idle"), true);
    assert(r@ =~~= destination_mulle_v(x, y));
    r
}

// ---------------------------------------------------------------------------
// Scenes
// ---------------------------------------------------------------------------

/// The main menu: background #2, Mulle's body #125 with his head and mouth
/// at (139, 296)
pub open spec fn menu_layout_v() -> SceneLayoutV {
    SceneLayoutV {
        file: "10.DXR"@,
        background: Some(BackgroundDefV::Member(2)),
        overlays: seq![OverlayDef { num: 125, ax: 139, ay: 296, z: 10 }],
        buttons: seq![],
        actors: seq![menu_head_v(), menu_mouth_v()],
        hotspots: seq![],
        pile: None,
    }
}

fn menu_layout() -> (r: SceneLayout)
    ensures
        r@ == menu_layout_v(),
{
    let actors = vec![menu_head(), menu_mouth()];
    assert(actor_defs_view(actors@) =~= menu_layout_v().actors);
    let overlays = vec![OverlayDef { num: 125, ax: 139, ay: 296, z: 10 }];
    assert(overlays@ =~= menu_layout_v().overlays);
    let r = SceneLayout {
        file: owned("10.DXR"),
        background: Some(BackgroundDef::Member(2)),
        overlays,
        buttons: Vec::new(),
        actors,
        hotspots: Vec::new(),
        pile: None,
    };
    assert(r@.buttons =~= menu_layout_v().buttons);
    assert(r@.hotspots =~= menu_layout_v().hotspots);
    r
}

/// The garage: background #33, the doors to the junkyard and (with or
/// without the car) to the yard, Mulle, and Figge hidden at the side door
pub open spec fn garage_layout_v() -> SceneLayoutV {
    SceneLayoutV {
        file: "03.DXR"@,
        background: Some(BackgroundDefV::Member(33)),
        overlays: seq![],
        buttons: seq![
            button_v("Tür → Schrottplatz"@, 34, 35, Some(Scene::Junkyard), 5, door_sounds(), Some("door_junk"@)),
            button_v("Garagentor → Hof"@, 36, 37, Some(Scene::Yard), 5, door_sounds(), Some("door_yard"@)),
            button_v("Seitentür → Hof"@, 38, 39, Some(Scene::Yard), 5, door_sounds(), Some("door_yard"@)),
        ],
        actors: seq![garage_mulle_v(), garage_figge_v()],
        hotspots: seq![],
        pile: None,
    }
}

fn garage_layout() -> (r: SceneLayout)
    ensures
        r@ == garage_layout_v(),
{
    let door = Some(("02e015v0", "02e016v0"));
    let buttons = vec![
        button("Tür → Schrottplatz", 34, 35, Some(Scene::Junkyard), 5, door, Some("door_junk")),
        button("Garagentor → Hof", 36, 37, Some(Scene::Yard), 5, door, Some("door_yard")),
        button("Seitentür → Hof", 38, 39, Some(Scene::Yard), 5, door, Some("door_yard")),
    ];
    assert(buttons_view(buttons@) =~= garage_layout_v().buttons);
    let actors = vec![garage_mulle(), garage_figge()];
    assert(actor_defs_view(actors@) =~= garage_layout_v().actors);
    let r = SceneLayout {
        file: owned("03.DXR"),
        background: Some(BackgroundDef::Member(33)),
        overlays: Vec::new(),
        buttons,
        actors,
        hotspots: Vec::new(),
        pile: None,
    };
    assert(r@.overlays =~= garage_layout_v().overlays);
    assert(r@.hotspots =~= garage_layout_v().hotspots);
    r
}

/// The members of a junk pile's view (0 to 5): door, door hovered, right
/// arrow, right arrow hovered, left arrow, left arrow hovered
pub open spec fn pile_members(idx: int) -> (u32, u32, u32, u32, u32, u32) {
    if idx == 0 {
        (85, 86, 162, 163, 174, 175)
    } else if idx == 1 {
        (87, 88, 164, 165, 176, 177)
    } else if idx == 2 {
        (89, 90, 166, 167, 178, 179)
    } else if idx == 3 {
        (91, 92, 168, 169, 180, 181)
    } else if idx == 4 {
        (93, 94, 170, 171, 182, 183)
    } else {
        (95, 96, 172, 173, 184, 185)
    }
}

/// The name of a junk pile view's background (0 to 5)
pub open spec fn pile_background(idx: int) -> Seq<char> {
    if idx == 0 {
        "02b001v0"@
    } else if idx == 1 {
        "02b002v0"@
    } else if idx == 2 {
        "02b003v0"@
    } else if idx == 3 {
        "02b004v0"@
    } else if idx == 4 {
        "02b005v0"@
    } else {
        "02b006v0"@
    }
}

/// "<arrow> Haufen <n>"
pub open spec fn pile_label(arrow: Seq<char>, n: u8) -> Seq<char> {
    arrow + " Haufen "@ + decimal(n as nat)
}

/// The view of a junk pile (1 to 6; a higher number shows the sixth): its
/// background by name, the door to the garage, and the arrows to the next
/// and previous piles, each also a drop target
pub open spec fn junkyard_layout_v(f: Seq<char>, pile: u8) -> SceneLayoutV {
    let idx: int = if pile - 1 < 5 { pile - 1 } else { 5 };
    let m = pile_members(idx);
    let right = pile_after(pile);
    let left = pile_before(pile);
    SceneLayoutV {
        file: f,
        background: Some(BackgroundDefV::Named(pile_background(idx))),
        overlays: seq![],
        buttons: seq![
            button_v("Tür → Werkstatt"@, m.0, m.1, Some(Scene::Garage), 5, door_sounds(), Some("door_shop"@)),
            button_v(pile_label("→"@, right), m.2, m.3, None, 5, None, Some("arrow_right_"@ + decimal(right as nat))),
            button_v(pile_label("←"@, left), m.4, m.5, None, 5, None, Some("arrow_left_"@ + decimal(left as nat))),
        ],
        actors: seq![],
        hotspots: seq![],
        pile: Some(pile),
    }
}

/// `prefix` followed by a number
fn numbered(prefix: &str, n: u8) -> (r: String)
    ensures
        r@ == prefix@ + decimal(n as nat),
{
    let mut s = String::new();
    s.append(prefix);
    push_decimal(&mut s, n as u32);
    s
}

fn junkyard_layout(f: &str, pile: u8) -> (r: SceneLayout)
    requires
        pile >= 1,
    ensures
        r@ == junkyard_layout_v(f@, pile),
{
    let idx: u8 = if pile - 1 < 5 { pile - 1 } else { 5 };
    let (door, door_h, right_d, right_h, left_d, left_h): (u32, u32, u32, u32, u32, u32) = if idx == 0 {
        (85, 86, 162, 163, 174, 175)
    } else if idx == 1 {
        (87, 88, 164, 165, 176, 177)
    } else if idx == 2 {
        (89, 90, 166, 167, 178, 179)
    } else if idx == 3 {
        (91, 92, 168, 169, 180, 181)
    } else if idx == 4 {
        (93, 94, 170, 171, 182, 183)
    } else {
        (95, 96, 172, 173, 184, 185)
    };
    let bg = if idx == 0 {
        "02b001v0"
    } else if idx == 1 {
        "02b002v0"
    } else if idx == 2 {
        "02b003v0"
    } else if idx == 3 {
        "02b004v0"
    } else if idx == 4 {
        "02b005v0"
    } else {
        "02b006v0"
    };
    let right = next_pile(pile);
    let left = prev_pile(pile);
    let right_name = numbered("→ Haufen ", right);
    let left_name = numbered("← Haufen ", left);
    proof {
        reveal_strlit("→ Haufen ");
        reveal_strlit("→");
        reveal_strlit(" Haufen ");
        reveal_strlit("← Haufen ");
        reveal_strlit("←");
    }
    assert(right_name@ =~= pile_label("→"@, right));
    assert(left_name@ =~= pile_label("←"@, left));
    let buttons = vec![
        button("Tür → Werkstatt", door, door_h, Some(Scene::Garage), 5, Some(("02e015v0", "02e016v0")), Some("door_shop")),
        ButtonDef {
            name: right_name,
            num: right_d,
            hover: right_h,
            target: None,
            z: 5,
            sounds: None,
            drop_id: Some(numbered("arrow_right_", right)),
        },
        ButtonDef {
            name: left_name,
            num: left_d,
            hover: left_h,
            target: None,
            z: 5,
            sounds: None,
            drop_id: Some(numbered("arrow_left_", left)),
        },
    ];
    assert(buttons_view(buttons@) =~= junkyard_layout_v(f@, pile).buttons);
    let r = SceneLayout {
        file: owned(f),
        background: Some(BackgroundDef::Named(owned(bg))),
        overlays: Vec::new(),
        buttons,
        actors: Vec::new(),
        hotspots: Vec::new(),
        pile: Some(pile),
    };
    assert(r@.overlays =~= junkyard_layout_v(f@, pile).overlays);
    assert(r@.actors =~= junkyard_layout_v(f@, pile).actors);
    assert(r@.hotspots =~= junkyard_layout_v(f@, pile).hotspots);
    r
}

/// The yard: background #118 and the mailbox; with a car the side door is
/// a still image, the garage door leads to the garage and the road (a
/// hotspot over the top) to the world map; without one both doors lead to
/// the garage
pub open spec fn yard_layout_v(f: Seq<char>, has_car: bool) -> SceneLayoutV {
    let mailbox = button_v("Briefkasten"@, 42, 43, None, 5, Some(("04e009v0"@, "04e010v0"@)), None);
    let garage_door = button_v("Garagentor → Werkstatt"@, 40, 41, Some(Scene::Garage), 6, door_sounds(), Some("door_shop"@));
    SceneLayoutV {
        file: f,
        background: Some(BackgroundDefV::Member(118)),
        overlays: if has_car {
            seq![OverlayDef { num: 13, ax: 320, ay: 240, z: 4 }, OverlayDef { num: 16, ax: 320, ay: 240, z: 4 }]
        } else {
            seq![]
        },
        buttons: if has_car {
            seq![mailbox, garage_door]
        } else {
            seq![
                mailbox,
                button_v("Seitentür → Werkstatt"@, 13, 14, Some(Scene::Garage), 5, door_sounds(), Some("door_shop"@)),
                garage_door,
            ]
        },
        actors: seq![],
        hotspots: if has_car {
            seq![hotspot_v(0, 0, 640, 200, "Straße → Weltkarte"@, Some(Scene::World))]
        } else {
            seq![]
        },
        pile: None,
    }
}

fn yard_layout(f: &str, has_car: bool) -> (r: SceneLayout)
    ensures
        r@ == yard_layout_v(f@, has_car),
{
    let door = Some(("02e015v0", "02e016v0"));
    let mut buttons = vec![button("Briefkasten", 42, 43, None, 5, Some(("04e009v0", "04e010v0")), None)];
    let mut overlays: Vec<OverlayDef> = Vec::new();
    let mut hotspots: Vec<Hotspot> = Vec::new();
    if has_car {
        overlays.push(OverlayDef { num: 13, ax: 320, ay: 240, z: 4 });
        overlays.push(OverlayDef { num: 16, ax: 320, ay: 240, z: 4 });
        buttons.push(button("Garagentor → Werkstatt", 40, 41, Some(Scene::Garage), 6, door, Some("door_shop")));
        hotspots.push(hotspot(0, 0, 640, 200, "Straße → Weltkarte", Some(Scene::World)));
    } else {
        buttons.push(button("Seitentür → Werkstatt", 13, 14, Some(Scene::Garage), 5, door, Some("door_shop")));
        buttons.push(button("Garagentor → Werkstatt", 40, 41, Some(Scene::Garage), 6, door, Some("door_shop")));
    }
    assert(buttons_view(buttons@) =~= yard_layout_v(f@, has_car).buttons);
    assert(overlays@ =~= yard_layout_v(f@, has_car).overlays);
    assert(hotspots_view(hotspots@) =~= yard_layout_v(f@, has_car).hotspots);
    let r = SceneLayout {
        file: owned(f),
        background: Some(BackgroundDef::Member(118)),
        overlays,
        buttons,
        actors: Vec::new(),
        hotspots,
        pile: None,
    };
    assert(r@.actors =~= yard_layout_v(f@, has_car).actors);
    r
}

/// The world map: the largest image as the map, the dashboard #25 at
/// (320, 440), and a click on the map leads to the yard
pub open spec fn world_layout_v(f: Seq<char>) -> SceneLayoutV {
    SceneLayoutV {
        file: f,
        background: Some(BackgroundDefV::Largest),
        overlays: seq![OverlayDef { num: 25, ax: 320, ay: 440, z: 50 }],
        buttons: seq![],
        actors: seq![],
        hotspots: seq![hotspot_v(0, 0, 640, 400, "Karte (klick = Hof)"@, Some(Scene::Yard))],
        pile: None,
    }
}

fn world_layout(f: &str) -> (r: SceneLayout)
    ensures
        r@ == world_layout_v(f@),
{
    let overlays = vec![OverlayDef { num: 25, ax: 320, ay: 440, z: 50 }];
    let hotspots = vec![hotspot(0, 0, 640, 400, "Karte (klick = Hof)", Some(Scene::Yard))];
    assert(overlays@ =~= world_layout_v(f@).overlays);
    assert(hotspots_view(hotspots@) =~= world_layout_v(f@).hotspots);
    let r = SceneLayout {
        file: owned(f),
        background: Some(BackgroundDef::Largest),
        overlays,
        buttons: Vec::new(),
        actors: Vec::new(),
        hotspots,
        pile: None,
    };
    assert(r@.buttons =~= world_layout_v(f@).buttons);
    assert(r@.actors =~= world_layout_v(f@).actors);
    r
}

/// The score card at the car show at (177, 93): the member of the rating
/// (16 + rating), hidden until the judge shows it
pub open spec fn score_v(f: Seq<char>, rating: u8) -> ActorDefV {
    actor_v("score"@, 177, 93, 25, seq![anim_v("show"@, f, seq![(16 + rating) as u32], 10, true)], None, Some("show"@), false)
}

fn score(f: &str, rating: u8) -> (r: ActorDef)
    ensures
        r@ == score_v(f@, rating),
{
    let member: u32 = 16 + rating as u32;
    let frames: Vec<u32> = vec![member];
    let a = AnimDef { name: owned("show"), file: owned(f), frames, fps: 10, looping: true };
    assert(a@.frames =~= score_v(f@, rating).anims[0].frames);
    let v = vec![a];
    assert(anims_view(v@) =~= score_v(f@, rating).anims);
    let r = actor("score", 177, 93, 25, v, None, Some("show"), false);
    assert(r@ =~~= score_v(f@, rating));
    r
}

/// The way back to the world map along the bottom of a destination
pub open spec fn back_to_world_v() -> HotspotV {
    hotspot_v(0, 400, 640, 80, "← Weltkarte"@, Some(Scene::World))
}

/// The car show: background #200, the judge, the score card of the rating
/// and Mulle, and the way back to the world map
pub open spec fn carshow_layout_v(f: Seq<char>, rating: u8) -> SceneLayoutV {
    SceneLayoutV {
        file: f,
        background: Some(BackgroundDefV::Member(200)),
        overlays: seq![],
        buttons: seq![],
        actors: seq![judge_v(f), score_v(f, rating), carshow_mulle_v()],
        hotspots: seq![back_to_world_v()],
        pile: None,
    }
}

fn carshow_layout(f: &str, rating: u8) -> (r: SceneLayout)
    ensures
        r@ == carshow_layout_v(f@, rating),
{
    let actors = vec![judge(f), score(f, rating), carshow_mulle()];
    assert(actor_defs_view(actors@) =~= carshow_layout_v(f@, rating).actors);
    let hotspots = vec![hotspot(0, 400, 640, 80, "← Weltkarte", Some(Scene::World))];
    assert(hotspots_view(hotspots@) =~= carshow_layout_v(f@, rating).hotspots);
    let r = SceneLayout {
        file: owned(f),
        background: Some(BackgroundDef::Member(200)),
        overlays: Vec::new(),
        buttons: Vec::new(),
        actors,
        hotspots,
        pile: None,
    };
    assert(r@.overlays =~= carshow_layout_v(f@, rating).overlays);
    assert(r@.buttons =~= carshow_layout_v(f@, rating).buttons);
    r
}

/// Where Mulle stands at a destination
pub open spec fn mulle_spot(n: u8) -> (i32, i32) {
    if n == 86 {
        (350, 398)
    } else if n == 87 {
        (496, 332)
    } else if n == 88 {
        (351, 234)
    } else {
        (95, 300)
    }
}

/// The people of a destination (before Mulle)
pub open spec fn destination_cast_v(n: u8, f: Seq<char>) -> Seq<ActorDefV> {
    if n == 85 {
        seq![salka_right_v(f)]
    } else if n == 86 {
        seq![mia_body_v(f), mia_head_v(f), cat_v(f)]
    } else if n == 87 {
        seq![garson_v(f)]
    } else if n == 88 {
        seq![sture_sad_v(f), sture_happy_v(f)]
    } else if n == 92 {
        seq![buffa_v(), figge_head_v(f), salka_left_v(f)]
    } else {
        seq![]
    }
}

/// A destination other than the car show: its background (by member, or
/// the largest image where none is set), Figge's body at the scrap dealer,
/// its people, then Mulle, and the way back to the world map
pub open spec fn destination_layout_v(n: u8, f: Seq<char>) -> SceneLayoutV {
    SceneLayoutV {
        file: f,
        background: Some(if n == 85 {
            BackgroundDefV::Member(25)
        } else if n == 86 || n == 92 {
            BackgroundDefV::Member(1)
        } else if n == 87 {
            BackgroundDefV::Member(208)
        } else if n == 88 {
            BackgroundDefV::Member(32)
        } else {
            BackgroundDefV::Largest
        }),
        overlays: if n == 92 { seq![OverlayDef { num: 16, ax: 102, ay: 292, z: 18 }] } else { seq![] },
        buttons: seq![],
        actors: destination_cast_v(n, f).push(destination_mulle_v(mulle_spot(n).0, mulle_spot(n).1)),
        hotspots: seq![back_to_world_v()],
        pile: None,
    }
}

fn destination_layout(n: u8, f: &str) -> (r: SceneLayout)
    ensures
        r@ == destination_layout_v(n, f@),
{
    let mut actors: Vec<ActorDef> = Vec::new();
    let mut overlays: Vec<OverlayDef> = Vec::new();
    let background = if n == 85 {
        actors.push(salka_right(f));
        BackgroundDef::Member(25)
    } else if n == 86 {
        actors.push(mia_body(f));
        actors.push(mia_head(f));
        actors.push(cat(f));
        BackgroundDef::Member(1)
    } else if n == 87 {
        actors.push(garson(f));
        BackgroundDef::Member(208)
    } else if n == 88 {
        actors.push(sture_sad(f));
        actors.push(sture_happy(f));
        BackgroundDef::Member(32)
    } else if n == 92 {
        actors.push(buffa());
        overlays.push(OverlayDef { num: 16, ax: 102, ay: 292, z: 18 });
        actors.push(figge_head(f));
        actors.push(salka_left(f));
        BackgroundDef::Member(1)
    } else {
        BackgroundDef::Largest
    };
    assert(actor_defs_view(actors@) =~= destination_cast_v(n, f@));
    let (mx, my): (i32, i32) = if n == 86 {
        (350, 398)
    } else if n == 87 {
        (496, 332)
    } else if n == 88 {
        (351, 234)
    } else {
        (95, 300)
    };
    actors.push(destination_mulle(mx, my));
    assert(actor_defs_view(actors@) =~= destination_layout_v(n, f@).actors);
    assert(overlays@ =~= destination_layout_v(n, f@).overlays);
    let hotspots = vec![hotspot(0, 400, 640, 80, "← Weltkarte", Some(Scene::World))];
    assert(hotspots_view(hotspots@) =~= destination_layout_v(n, f@).hotspots);
    let r = SceneLayout {
        file: owned(f),
        background: Some(background),
        overlays,
        buttons: Vec::new(),
        actors,
        hotspots,
        pile: None,
    };
    assert(r@.buttons =~= destination_layout_v(n, f@).buttons);
    r
}

/// A scene without its own layout: the largest image, and a way back to
/// the garage along the left edge
pub open spec fn generic_layout_v(f: Seq<char>) -> SceneLayoutV {
    SceneLayoutV {
        file: f,
        background: Some(BackgroundDefV::Largest),
        overlays: seq![],
        buttons: seq![],
        actors: seq![],
        hotspots: seq![hotspot_v(0, 0, 80, 480, "← Zurück"@, Some(Scene::Garage))],
        pile: None,
    }
}

fn generic_layout(f: &str) -> (r: SceneLayout)
    ensures
        r@ == generic_layout_v(f@),
{
    let hotspots = vec![hotspot(0, 0, 80, 480, "← Zurück", Some(Scene::Garage))];
    assert(hotspots_view(hotspots@) =~= generic_layout_v(f@).hotspots);
    let r = SceneLayout {
        file: owned(f),
        background: Some(BackgroundDef::Largest),
        overlays: Vec::new(),
        buttons: Vec::new(),
        actors: Vec::new(),
        hotspots,
        pile: None,
    };
    assert(r@.overlays =~= generic_layout_v(f@).overlays);
    assert(r@.buttons =~= generic_layout_v(f@).buttons);
    assert(r@.actors =~= generic_layout_v(f@).actors);
    r
}

/// A destination's number with two digits at least ("05", "85", "100")
pub open spec fn two_digits(n: u8) -> Seq<char> {
    if n < 10 { "0"@ + decimal(n as nat) } else { decimal(n as nat) }
}

fn two_digits_of(n: u8) -> (r: String)
    ensures
        r@ == two_digits(n),
{
    let mut s = String::new();
    if n < 10 {
        s.append("0");
    }
    push_decimal(&mut s, n as u32);
    s
}

/// What a scene is made of, its files found in the cast store: the junk
/// pile shown, whether a car exists (yard) and the car show rating choose
/// among the variants
pub open spec fn scene_layout_v(scene: Scene, junk_pile: u8, has_car: bool, carshow_rating: u8, store: CastStore) -> SceneLayoutV {
    match scene {
        Scene::Menu => menu_layout_v(),
        Scene::Garage => garage_layout_v(),
        Scene::Junkyard => junkyard_layout_v(store.resolved("02"@), junk_pile),
        Scene::Yard => yard_layout_v(store.resolved("04"@), has_car),
        Scene::World => world_layout_v(store.resolved("05"@)),
        Scene::CarShow => carshow_layout_v(store.resolved("94"@), carshow_rating),
        Scene::Destination(n) => if n == 94 {
            carshow_layout_v(store.resolved("94"@), carshow_rating)
        } else {
            destination_layout_v(n, store.resolved(two_digits(n)))
        },
        Scene::CarGallery => generic_layout_v(store.resolved("06"@)),
        Scene::Boot => generic_layout_v(store.resolved("18"@)),
    }
}

/// What a scene is made of
pub fn scene_layout(scene: Scene, junk_pile: u8, has_car: bool, carshow_rating: u8, store: &CastStore) -> (r: SceneLayout)
    requires
        scene == Scene::Junkyard ==> junk_pile >= 1,
    ensures
        r@ == scene_layout_v(scene, junk_pile, has_car, carshow_rating, *store),
{
    match scene {
        Scene::Menu => menu_layout(),
        Scene::Garage => garage_layout(),
        Scene::Junkyard => junkyard_layout(store.resolve_file("02").as_str(), junk_pile),
        Scene::Yard => yard_layout(store.resolve_file("04").as_str(), has_car),
        Scene::World => world_layout(store.resolve_file("05").as_str()),
        Scene::CarShow => carshow_layout(store.resolve_file("94").as_str(), carshow_rating),
        Scene::Destination(n) => if n == 94 {
            carshow_layout(store.resolve_file("94").as_str(), carshow_rating)
        } else {
            let stem = two_digits_of(n);
            destination_layout(n, store.resolve_file(stem.as_str()).as_str())
        },
        Scene::CarGallery => generic_layout(store.resolve_file("06").as_str()),
        Scene::Boot => generic_layout(store.resolve_file("18").as_str()),
    }
}

} // verus!
