//! Scene pieces: frame animations played at a fixed rate on the 30 fps game
//! clock, actors that switch animations (and lip-sync on "talk"/"silence"
//! cue points), buttons with a hover state, and clickable hotspots.

use vstd::prelude::*;
use crate::cast::CastStore;
use crate::scene::Scene;
use crate::sprite::{Sprite, SpriteV};
use vstd::string::StringExecFns;
use crate::text::{lowercase, owned, str_eq, to_lower};

verus! {

// ---------------------------------------------------------------------------
// Animations
// ---------------------------------------------------------------------------

/// A decoded animation frame
pub struct AnimFrame {
    pub width: u32,
    pub height: u32,
    /// RGBA bytes, row by row
    pub pixels: Vec<u8>,
    /// Registration point (origin offset for positioning)
    pub reg_x: i32,
    pub reg_y: i32,
}

/// Abstract animation frame
pub struct AnimFrameV {
    pub width: u32,
    pub height: u32,
    pub pixels: Seq<u8>,
    pub reg_x: i32,
    pub reg_y: i32,
}

impl View for AnimFrame {
    type V = AnimFrameV;

    open spec fn view(&self) -> AnimFrameV {
        AnimFrameV { width: self.width, height: self.height, pixels: self.pixels@, reg_x: self.reg_x, reg_y: self.reg_y }
    }
}

/// The frames of an animation as plain values
pub open spec fn frames_view(s: Seq<AnimFrame>) -> Seq<AnimFrameV> {
    s.map_values(|f: AnimFrame| f@)
}

/// The frame a cast member gives: its transparent image with its
/// registration point; none if it does not decode
pub open spec fn member_frame(store: CastStore, f: Seq<char>, n: u32) -> Option<AnimFrameV> {
    match store.member(f, n) {
        Some(m) => match m.transparent {
            Some(img) => Some(AnimFrameV {
                width: img.width,
                height: img.height,
                pixels: img.pixels@,
                reg_x: store.reg_point(f, n).0,
                reg_y: store.reg_point(f, n).1,
            }),
            None => None,
        },
        None => None,
    }
}

/// The frames of the members that decode, in order
pub open spec fn decoded_frames(store: CastStore, refs: Seq<(Seq<char>, u32)>) -> Seq<AnimFrameV>
    decreases refs.len(),
{
    if refs.len() == 0 {
        Seq::empty()
    } else {
        let prev = decoded_frames(store, refs.drop_last());
        match member_frame(store, refs.last().0, refs.last().1) {
            Some(fr) => prev.push(fr),
            None => prev,
        }
    }
}

/// Member references as plain values
pub open spec fn refs_view(refs: Seq<(&str, u32)>) -> Seq<(Seq<char>, u32)> {
    refs.map_values(|r: (&str, u32)| (r.0@, r.1))
}

/// A named animation: a sequence of frames played at a given fps
pub struct Animation {
    pub name: String,
    pub frames: Vec<AnimFrame>,
    pub fps: u32,
    pub looping: bool,
    pub current_frame: usize,
    pub ticks_per_frame: u32,
    pub tick: u32,
    pub playing: bool,
    pub finished: bool,
}

/// Game ticks (at 30 per second) that each frame of an animation at `fps`
/// shows: 30 / fps, at least 1; 1 for fps 0
pub open spec fn ticks_for(fps: u32) -> u32 {
    if fps > 0 && 30u32 / fps >= 1 { (30u32 / fps) as u32 } else { 1 }
}

impl Animation {
    /// A stopped animation without frames
    pub fn new(name: &str, fps: u32, looping: bool) -> (r: Self)
        ensures
            r.name@ == name@,
            r.frames@.len() == 0,
            r.fps == fps,
            r.looping == looping,
            r.current_frame == 0,
            r.ticks_per_frame == ticks_for(fps),
            r.tick == 0,
            !r.playing,
            !r.finished,
    {
        let tpf: u32 = if fps > 0 { 30 / fps } else { 1 };
        Animation {
            name: owned(name),
            frames: Vec::new(),
            fps,
            looping,
            current_frame: 0,
            ticks_per_frame: if tpf >= 1 { tpf } else { 1 },
            tick: 0,
            playing: false,
            finished: false,
        }
    }

    /// Start from the first frame
    pub fn play(&mut self)
        ensures
            *final(self) == (Animation {
                current_frame: 0,
                tick: 0,
                ticks_per_frame: ticks_for(old(self).fps),
                playing: true,
                finished: false,
                ..*old(self)
            }),
    {
        self.current_frame = 0;
        self.tick = 0;
        let tpf: u32 = if self.fps > 0 { 30 / self.fps } else { 1 };
        self.ticks_per_frame = if tpf >= 1 { tpf } else { 1 };
        self.playing = true;
        self.finished = false;
    }

    /// The animation after one game tick, and whether its frame changed: a
    /// stopped or empty animation stays as it is; otherwise the tick count
    /// grows, and on reaching the frame length the next frame shows (the
    /// first again when looping; else the last stays and the animation
    /// finishes)
    pub open spec fn ticked(self) -> (Animation, bool) {
        if !self.playing || self.frames@.len() == 0 {
            (self, false)
        } else if self.tick + 1 >= self.ticks_per_frame {
            let next = self.current_frame + 1;
            if next >= self.frames@.len() {
                if self.looping {
                    (Animation { tick: 0, current_frame: 0, ..self }, true)
                } else {
                    (Animation {
                        tick: 0,
                        current_frame: (self.frames@.len() - 1) as usize,
                        playing: false,
                        finished: true,
                        ..self
                    }, true)
                }
            } else {
                (Animation { tick: 0, current_frame: next as usize, ..self }, true)
            }
        } else {
            (Animation { tick: (self.tick + 1) as u32, ..self }, false)
        }
    }

    /// Advance one game tick (30 fps). Returns true if the frame changed.
    pub fn tick(&mut self) -> (changed: bool)
        requires
            old(self).tick < u32::MAX,
            old(self).current_frame < usize::MAX,
        ensures
            (*final(self), changed) == old(self).ticked(),
    {
        if !self.playing || self.frames.len() == 0 {
            return false;
        }
        self.tick = self.tick + 1;
        if self.tick >= self.ticks_per_frame {
            self.tick = 0;
            self.current_frame = self.current_frame + 1;
            if self.current_frame >= self.frames.len() {
                if self.looping {
                    self.current_frame = 0;
                } else {
                    self.current_frame = self.frames.len() - 1;
                    self.playing = false;
                    self.finished = true;
                }
            }
            return true;
        }
        false
    }

    /// The frame showing now, if any
    pub fn current_pixels(&self) -> (r: Option<&AnimFrame>)
        ensures
            r == (if self.current_frame < self.frames@.len() { Some(&self.frames@[self.current_frame as int]) } else { None }),
    {
        if self.current_frame < self.frames.len() {
            Some(&self.frames[self.current_frame])
        } else {
            None
        }
    }
}

/// Events emitted by an actor on a tick
pub enum ActorEvent {
    /// A non-looping animation finished playing
    AnimationFinished { actor_name: String, anim_name: String },
}

/// Events emitted by a scene on an update
pub enum SceneEvent {
    /// An actor's animation finished
    ActorAnimFinished { actor_name: String, anim_name: String },
}

// ---------------------------------------------------------------------------
// Actors
// ---------------------------------------------------------------------------

/// An animated actor: a position and named animations, one of them active
pub struct Actor {
    pub x: i32,
    pub y: i32,
    pub animations: Vec<Animation>,
    pub active_anim: usize,
    pub name: String,
    pub visible: bool,
    pub z_order: i32,
    /// Animation played while talking (lip-sync open mouth)
    pub talk_anim: Option<String>,
    /// Animation played during pauses in speech
    pub silence_anim: Option<String>,
    /// Whether the actor is talking
    pub is_talking: bool,
}

/// Abstract actor
#[verifier::ext_equal]
pub struct ActorV {
    pub x: i32,
    pub y: i32,
    pub animations: Seq<Animation>,
    pub active_anim: usize,
    pub name: Seq<char>,
    pub visible: bool,
    pub z_order: i32,
    pub talk_anim: Option<Seq<char>>,
    pub silence_anim: Option<Seq<char>>,
    pub is_talking: bool,
}

pub open spec fn opt_chars(o: Option<String>) -> Option<Seq<char>> {
    match o {
        Some(s) => Some(s@),
        None => None,
    }
}

impl View for Actor {
    type V = ActorV;

    open spec fn view(&self) -> ActorV {
        ActorV {
            x: self.x,
            y: self.y,
            animations: self.animations@,
            active_anim: self.active_anim,
            name: self.name@,
            visible: self.visible,
            z_order: self.z_order,
            talk_anim: opt_chars(self.talk_anim),
            silence_anim: opt_chars(self.silence_anim),
            is_talking: self.is_talking,
        }
    }
}

/// Index of the first animation with the given name
pub open spec fn anim_named(anims: Seq<Animation>, name: Seq<char>) -> Option<int>
    decreases anims.len(),
{
    if anims.len() == 0 {
        None
    } else {
        match anim_named(anims.drop_last(), name) {
            Some(i) => Some(i),
            None => if anims.last().name@ == name { Some(anims.len() - 1) } else { None },
        }
    }
}

proof fn lemma_anim_named_prefix(anims: Seq<Animation>, name: Seq<char>, i: int)
    requires
        0 <= i < anims.len(),
        anims[i].name@ == name,
        anim_named(anims.take(i), name) is None,
    ensures
        anim_named(anims, name) == Some(i),
    decreases anims.len(),
{
    if i == anims.len() - 1 {
        assert(anims.drop_last() =~= anims.take(i));
    } else {
        assert(anims.drop_last().take(i) =~= anims.take(i));
        lemma_anim_named_prefix(anims.drop_last(), name, i);
    }
}

/// "actor:<name>"
pub open spec fn actor_sprite_name(name: Seq<char>) -> Seq<char> {
    "actor:"@ + name
}

impl ActorV {
    /// The actor with animation `name` played (no change if it has none of
    /// that name)
    pub open spec fn played(self, name: Seq<char>) -> ActorV {
        match anim_named(self.animations, name) {
            Some(i) => {
                let a = self.animations[i];
                ActorV {
                    animations: self.animations.update(i, Animation {
                        current_frame: 0,
                        tick: 0,
                        ticks_per_frame: ticks_for(a.fps),
                        playing: true,
                        finished: false,
                        ..a
                    }),
                    active_anim: i as usize,
                    ..self
                }
            },
            None => self,
        }
    }

    /// The actor after starting to talk: the talk animation plays, if set
    pub open spec fn talking(self) -> ActorV {
        let t = ActorV { is_talking: true, ..self };
        match self.talk_anim {
            Some(n) => t.played(n),
            None => t,
        }
    }

    /// The actor after stopping talking: the silence animation plays, if set
    pub open spec fn silent(self) -> ActorV {
        let t = ActorV { is_talking: false, ..self };
        match self.silence_anim {
            Some(n) => t.played(n),
            None => t,
        }
    }

    /// The actor after a dialog cue point: "talk" starts talking, "silence"
    /// stops (compared after lowercasing); other cues change nothing
    pub open spec fn cued(self, cue: Seq<char>) -> ActorV {
        self.cued_lower(lowercase(cue))
    }

    /// The actor after a cue point already lowercased
    pub open spec fn cued_lower(self, lower_cue: Seq<char>) -> ActorV {
        if lower_cue == "talk"@ {
            self.talking()
        } else if lower_cue == "silence"@ {
            self.silent()
        } else {
            self
        }
    }

    /// The actor with talk and silence animations set
    pub open spec fn with_talk_anims(self, talk: Seq<char>, silence: Seq<char>) -> ActorV {
        ActorV { talk_anim: Some(talk), silence_anim: Some(silence), ..self }
    }

    /// Can the active animation take one more tick without its counters
    /// overflowing?
    pub open spec fn can_tick(self) -> bool {
        self.active_anim < self.animations.len() ==> {
            &&& self.animations[self.active_anim as int].tick < u32::MAX
            &&& self.animations[self.active_anim as int].current_frame < usize::MAX
        }
    }

    /// The actor after one game tick: its active animation ticks
    pub open spec fn ticked(self) -> ActorV {
        if self.active_anim < self.animations.len() {
            let i = self.active_anim as int;
            ActorV { animations: self.animations.update(i, self.animations[i].ticked().0), ..self }
        } else {
            self
        }
    }

    /// What a tick reports: (actor name, animation name) when a playing
    /// non-looping animation finishes on it
    pub open spec fn tick_event(self) -> Option<(Seq<char>, Seq<char>)> {
        if self.active_anim < self.animations.len() {
            let a = self.animations[self.active_anim as int];
            let b = a.ticked().0;
            if a.playing && !b.playing && b.finished { Some((self.name, a.name@)) } else { None }
        } else {
            None
        }
    }

    /// The sprite of the frame showing now: placed by the frame's
    /// registration point, named "actor:<name>"; none without a frame
    pub open spec fn sprite(self) -> Option<SpriteV> {
        if self.active_anim < self.animations.len()
            && self.animations[self.active_anim as int].current_frame < self.animations[self.active_anim as int].frames@.len() {
            let a = self.animations[self.active_anim as int];
            let f = a.frames@[a.current_frame as int];
            Some(SpriteV {
                x: (self.x - f.reg_x) as i32,
                y: (self.y - f.reg_y) as i32,
                width: f.width,
                height: f.height,
                pixels: f.pixels@,
                visible: self.visible,
                z_order: self.z_order,
                name: actor_sprite_name(self.name),
                interactive: false,
                member_num: 0,
            })
        } else {
            None
        }
    }

    /// The position of the frame showing now fits in 32 bits
    pub open spec fn sprite_fits(self) -> bool {
        self.active_anim < self.animations.len() ==> {
            let a = self.animations[self.active_anim as int];
            a.current_frame < a.frames@.len() ==> {
                &&& i32::MIN <= self.x - a.frames@[a.current_frame as int].reg_x <= i32::MAX
                &&& i32::MIN <= self.y - a.frames@[a.current_frame as int].reg_y <= i32::MAX
            }
        }
    }
}

impl Actor {
    /// A visible actor without animations, not talking
    pub fn new(name: &str, x: i32, y: i32, z_order: i32) -> (r: Self)
        ensures
            r.x == x && r.y == y && r.z_order == z_order,
            r.name@ == name@,
            r.animations@.len() == 0,
            r.active_anim == 0,
            r.visible,
            r.talk_anim is None && r.silence_anim is None,
            !r.is_talking,
    {
        Actor {
            x,
            y,
            animations: Vec::new(),
            active_anim: 0,
            name: owned(name),
            visible: true,
            z_order,
            talk_anim: None,
            silence_anim: None,
            is_talking: false,
        }
    }

    /// Set the talk/silence animations used for lip-sync
    pub fn set_talk_anims(&mut self, talk: &str, silence: &str)
        ensures
            final(self)@ == old(self)@.with_talk_anims(talk@, silence@),
    {
        self.talk_anim = Some(owned(talk));
        self.silence_anim = Some(owned(silence));
    }

    /// Play the animation of the given name from its start, and make it the
    /// active one (nothing happens if there is none of that name)
    pub fn play(&mut self, name: &str)
        ensures
            final(self)@ == old(self)@.played(name@),
    {
        let mut i: usize = 0;
        let ghost anims = self.animations@;
        while i < self.animations.len()
            invariant
                *self == *old(self),
                anims == self.animations@,
                i <= anims.len(),
                anim_named(anims.take(i as int), name@) is None,
            decreases anims.len() - i,
        {
            let ghost t = anims.take(i + 1);
            assert(t.drop_last() =~= anims.take(i as int));
            if str_eq(self.animations[i].name.as_str(), name) {
                proof {
                    lemma_anim_named_prefix(anims, name@, i as int);
                }
                self.animations[i].play();
                self.active_anim = i;
                assert(self@ =~= old(self)@.played(name@));
                return;
            }
            i = i + 1;
        }
        assert(anims.take(anims.len() as int) =~= anims);
    }

    /// Start talking: the talk animation plays, if set
    pub fn start_talking(&mut self)
        ensures
            final(self)@ == old(self)@.talking(),
    {
        self.is_talking = true;
        let talk = match &self.talk_anim {
            Some(n) => Some(n.clone()),
            None => None,
        };
        if let Some(n) = talk {
            self.play(n.as_str());
        }
    }

    /// Stop talking: the silence animation plays, if set
    pub fn stop_talking(&mut self)
        ensures
            final(self)@ == old(self)@.silent(),
    {
        self.is_talking = false;
        let silence = match &self.silence_anim {
            Some(n) => Some(n.clone()),
            None => None,
        };
        if let Some(n) = silence {
            self.play(n.as_str());
        }
    }

    /// Handle a cue point of the dialog: "talk" starts talking, "silence"
    /// stops (compared case-insensitively); other cues change nothing
    pub fn on_cue(&mut self, cue_name: &str)
        ensures
            final(self)@ == old(self)@.cued(cue_name@),
    {
        let c = to_lower(cue_name);
        self.on_lower_cue(c.as_str());
    }

    /// Handle a cue point whose name is already lowercased: "talk" starts
    /// talking, "silence" stops; other cues change nothing
    pub fn on_lower_cue(&mut self, lower_cue: &str)
        ensures
            final(self)@ == old(self)@.cued_lower(lower_cue@),
    {
        if str_eq(lower_cue, "talk") {
            self.start_talking();
        } else if str_eq(lower_cue, "silence") {
            self.stop_talking();
        }
    }

    /// Add a playing animation made of the members' frames that decode, in
    /// order
    pub fn add_animation(&mut self, name: &str, member_refs: &[(&str, u32)], fps: u32, looping: bool, store: &CastStore)
        ensures
            final(self).animations@.len() == old(self).animations@.len() + 1,
            forall|i: int| 0 <= i < old(self).animations@.len() ==> #[trigger] final(self).animations@[i] == old(self).animations@[i],
            ({
                let a = final(self).animations@.last();
                &&& a.name@ == name@
                &&& a.fps == fps && a.looping == looping
                &&& a.current_frame == 0 && a.tick == 0
                &&& a.ticks_per_frame == ticks_for(fps)
                &&& a.playing && !a.finished
                &&& frames_view(a.frames@) == decoded_frames(*store, refs_view(member_refs@))
            }),
            final(self).active_anim == old(self).active_anim,
            final(self).name == old(self).name,
            final(self).x == old(self).x && final(self).y == old(self).y,
            final(self).z_order == old(self).z_order,
            final(self).visible == old(self).visible,
            final(self).talk_anim == old(self).talk_anim,
            final(self).silence_anim == old(self).silence_anim,
            final(self).is_talking == old(self).is_talking,
    {
        let mut anim = Animation::new(name, fps, looping);
        let ghost refs = refs_view(member_refs@);
        let mut i: usize = 0;
        while i < member_refs.len()
            invariant
                refs == refs_view(member_refs@),
                i <= member_refs@.len(),
                frames_view(anim.frames@) == decoded_frames(*store, refs.take(i as int)),
                anim.name@ == name@,
                anim.fps == fps && anim.looping == looping,
                anim.current_frame == 0 && anim.tick == 0,
                anim.ticks_per_frame == ticks_for(fps),
                !anim.playing && !anim.finished,
            decreases member_refs@.len() - i,
        {
            let (file, num) = member_refs[i];
            assert(refs.take(i + 1).drop_last() =~= refs.take(i as int));
            assert(refs.take(i + 1).last() == (file@, num));
            let ghost before = frames_view(anim.frames@);
            match store.get_member(file, num) {
                Some(m) => match &m.transparent {
                    Some(img) => {
                        let (rx, ry) = store.reg_point_of(file, num);
                        anim.frames.push(AnimFrame { width: img.width, height: img.height, pixels: img.pixels.clone(), reg_x: rx, reg_y: ry });
                        assert(frames_view(anim.frames@) =~= before.push(member_frame(*store, file@, num).unwrap()));
                    },
                    None => {},
                },
                None => {},
            }
            i = i + 1;
        }
        assert(refs.take(refs.len() as int) =~= refs);
        anim.playing = true;
        self.animations.push(anim);
    }

    /// Tick the active animation; when a non-looping animation finishes on
    /// this tick, report it
    pub fn tick(&mut self) -> (r: Option<ActorEvent>)
        requires
            old(self)@.can_tick(),
        ensures
            final(self)@ == old(self)@.ticked(),
            match old(self)@.tick_event() {
                Some(e) => r matches Some(ActorEvent::AnimationFinished { actor_name, anim_name })
                    && actor_name@ == e.0 && anim_name@ == e.1,
                None => r is None,
            },
    {
        let i = self.active_anim;
        if i < self.animations.len() {
            let was_playing = self.animations[i].playing;
            self.animations[i].tick();
            if was_playing && !self.animations[i].playing && self.animations[i].finished {
                return Some(ActorEvent::AnimationFinished {
                    actor_name: self.name.clone(),
                    anim_name: self.animations[i].name.clone(),
                });
            }
        }
        None
    }

    /// The frame showing now, as a sprite placed by its registration point
    pub fn current_sprite(&self) -> (r: Option<Sprite>)
        requires
            self@.sprite_fits(),
        ensures
            match self@.sprite() {
                Some(v) => r matches Some(s) && s@ == v,
                None => r is None,
            },
    {
        if self.active_anim >= self.animations.len() {
            return None;
        }
        let anim = &self.animations[self.active_anim];
        let frame = match anim.current_pixels() {
            Some(f) => f,
            None => return None,
        };
        let mut name = String::new();
        name.append("actor:");
        name.append(self.name.as_str());
        let s = Sprite {
            x: self.x - frame.reg_x,
            y: self.y - frame.reg_y,
            width: frame.width,
            height: frame.height,
            pixels: frame.pixels.clone(),
            visible: self.visible,
            z_order: self.z_order,
            name,
            interactive: false,
            member_num: 0,
        };
        assert(s@.name =~= actor_sprite_name(self.name@));
        Some(s)
    }
}


// ---------------------------------------------------------------------------
// Buttons and hotspots
// ---------------------------------------------------------------------------

/// A button with default and hover images and a scene to go to
pub struct MulleButton {
    pub name: String,
    pub x: i32,
    pub y: i32,
    pub width: u32,
    pub height: u32,
    pub default_pixels: Vec<u8>,
    pub hover_pixels: Option<Vec<u8>>,
    pub hover_width: u32,
    pub hover_height: u32,
    pub hovered: bool,
    pub target: Option<Scene>,
    pub z_order: i32,
    pub visible: bool,
    /// Sound played on click
    pub sound_default: Option<String>,
    /// Sound played when the hover starts
    pub sound_hover: Option<String>,
}

/// Abstract button
pub struct MulleButtonV {
    pub name: Seq<char>,
    pub x: i32,
    pub y: i32,
    pub width: u32,
    pub height: u32,
    pub default_pixels: Seq<u8>,
    pub hover_pixels: Option<Seq<u8>>,
    pub hover_width: u32,
    pub hover_height: u32,
    pub hovered: bool,
    pub target: Option<Scene>,
    pub z_order: i32,
    pub visible: bool,
    pub sound_default: Option<Seq<char>>,
    pub sound_hover: Option<Seq<char>>,
}

impl View for MulleButton {
    type V = MulleButtonV;

    open spec fn view(&self) -> MulleButtonV {
        MulleButtonV {
            name: self.name@,
            x: self.x,
            y: self.y,
            width: self.width,
            height: self.height,
            default_pixels: self.default_pixels@,
            hover_pixels: match self.hover_pixels {
                Some(p) => Some(p@),
                None => None,
            },
            hover_width: self.hover_width,
            hover_height: self.hover_height,
            hovered: self.hovered,
            target: self.target,
            z_order: self.z_order,
            visible: self.visible,
            sound_default: opt_chars(self.sound_default),
            sound_hover: opt_chars(self.sound_hover),
        }
    }
}

/// The buttons as plain values
pub open spec fn mulle_buttons_view(s: Seq<MulleButton>) -> Seq<MulleButtonV> {
    s.map_values(|b: MulleButton| b@)
}

/// "btn:<name>"
pub open spec fn button_sprite_name(name: Seq<char>) -> Seq<char> {
    "btn:"@ + name
}

/// The button two members of a file make: the default member's
/// transparent image placed at the anchor minus its registration point (it
/// needs a bitmap header), with the hover member's image when that decodes
pub open spec fn button_from(
    store: CastStore,
    name: Seq<char>,
    f: Seq<char>,
    num: u32,
    hover: Option<u32>,
    ax: i32,
    ay: i32,
    target: Option<Scene>,
    z: i32,
) -> Option<MulleButtonV> {
    match store.member(f, num) {
        Some(m) => if m.transparent is Some && m.info is Some {
            let img = m.transparent.unwrap();
            let info = m.info.unwrap();
            let hv = match hover {
                Some(h) => match store.member(f, h) {
                    Some(hm) => hm.transparent,
                    None => None,
                },
                None => None,
            };
            Some(MulleButtonV {
                name,
                x: (ax - info.reg_x) as i32,
                y: (ay - info.reg_y) as i32,
                width: img.width,
                height: img.height,
                default_pixels: img.pixels@,
                hover_pixels: match hv {
                    Some(hi) => Some(hi.pixels@),
                    None => None,
                },
                hover_width: match hv {
                    Some(hi) => hi.width,
                    None => 0,
                },
                hover_height: match hv {
                    Some(hi) => hi.height,
                    None => 0,
                },
                hovered: false,
                target,
                z_order: z,
                visible: true,
                sound_default: None,
                sound_hover: None,
            })
        } else {
            None
        },
        None => None,
    }
}

impl MulleButton {
    /// A button of two members of a file, shown normally and while
    /// hovered: it sits at the anchor (ax, ay) minus the default member's
    /// registration point; none unless that member decodes and has a bitmap
    /// header
    pub fn new(
        name: &str,
        file: &str,
        default_num: u32,
        hover_num: Option<u32>,
        ax: i32,
        ay: i32,
        target: Option<Scene>,
        z_order: i32,
        store: &CastStore,
    ) -> (r: Option<Self>)
        requires
            match store.member(file@, default_num) {
                Some(m) => m.transparent is Some && m.info is Some ==> {
                    &&& i32::MIN <= ax - m.info.unwrap().reg_x <= i32::MAX
                    &&& i32::MIN <= ay - m.info.unwrap().reg_y <= i32::MAX
                },
                None => true,
            },
        ensures
            match button_from(*store, name@, file@, default_num, hover_num, ax, ay, target, z_order) {
                Some(v) => r matches Some(b) && b@ == v,
                None => r is None,
            },
    {
        let m = match store.get_member(file, default_num) {
            Some(m) => m,
            None => return None,
        };
        let img = match &m.transparent {
            Some(img) => img,
            None => return None,
        };
        let info = match m.info {
            Some(i) => i,
            None => return None,
        };
        let (hover_pixels, hover_width, hover_height) = match hover_num {
            Some(h) => match store.get_member(file, h) {
                Some(hm) => match &hm.transparent {
                    Some(hi) => (Some(hi.pixels.clone()), hi.width, hi.height),
                    None => (None, 0, 0),
                },
                None => (None, 0, 0),
            },
            None => (None, 0, 0),
        };
        let b = MulleButton {
            name: owned(name),
            x: ax - info.reg_x as i32,
            y: ay - info.reg_y as i32,
            width: img.width,
            height: img.height,
            default_pixels: img.pixels.clone(),
            hover_pixels,
            hover_width,
            hover_height,
            hovered: false,
            target,
            z_order,
            visible: true,
            sound_default: None,
            sound_hover: None,
        };
        assert(b@ == button_from(*store, name@, file@, default_num, hover_num, ax, ay, target, z_order).unwrap());
        Some(b)
    }

    /// Does a visible button's default rectangle hold the point? The size is
    /// read as a signed 32-bit number, as the bounds check does.
    pub open spec fn hits(self, px: i32, py: i32) -> bool {
        self.visible && px - self.x >= 0 && py - self.y >= 0
            && px - self.x < (self.width as i32) && py - self.y < (self.height as i32)
    }

    pub fn hit_test(&self, px: i32, py: i32) -> (r: bool)
        requires
            self.visible ==> i32::MIN <= px - self.x <= i32::MAX && i32::MIN <= py - self.y <= i32::MAX,
        ensures
            r == self.hits(px, py),
    {
        if !self.visible {
            return false;
        }
        let lx = px - self.x;
        let ly = py - self.y;
        lx >= 0 && ly >= 0 && lx < self.width as i32 && ly < self.height as i32
    }

    /// The button as a sprite: the hover image while hovered (if it has
    /// one), else the default image, named "btn:<name>"
    pub open spec fn sprite(self) -> SpriteV {
        let hover = self.hovered && self.hover_pixels is Some;
        SpriteV {
            x: self.x,
            y: self.y,
            width: if hover { self.hover_width } else { self.width },
            height: if hover { self.hover_height } else { self.height },
            pixels: if hover { self.hover_pixels.unwrap()@ } else { self.default_pixels@ },
            visible: self.visible,
            z_order: self.z_order,
            name: button_sprite_name(self.name@),
            interactive: true,
            member_num: 0,
        }
    }

    /// The button as a sprite
    pub fn as_sprite(&self) -> (r: Sprite)
        ensures
            r@ == self.sprite(),
    {
        let (pixels, w, h) = match &self.hover_pixels {
            Some(hp) => {
                if self.hovered {
                    (hp.clone(), self.hover_width, self.hover_height)
                } else {
                    (self.default_pixels.clone(), self.width, self.height)
                }
            },
            None => (self.default_pixels.clone(), self.width, self.height),
        };
        let mut name = String::new();
        name.append("btn:");
        name.append(self.name.as_str());
        assert(name@ =~= button_sprite_name(self.name@));
        Sprite {
            x: self.x,
            y: self.y,
            width: w,
            height: h,
            pixels,
            visible: self.visible,
            z_order: self.z_order,
            name,
            interactive: true,
            member_num: 0,
        }
    }
}

/// Clickable region of a scene
pub struct Hotspot {
    pub x: i32,
    pub y: i32,
    pub width: u32,
    pub height: u32,
    pub name: String,
    pub target: Option<Scene>,
}

/// Abstract hotspot
pub struct HotspotV {
    pub x: i32,
    pub y: i32,
    pub width: u32,
    pub height: u32,
    pub name: Seq<char>,
    pub target: Option<Scene>,
}

impl View for Hotspot {
    type V = HotspotV;

    open spec fn view(&self) -> HotspotV {
        HotspotV { x: self.x, y: self.y, width: self.width, height: self.height, name: self.name@, target: self.target }
    }
}

// ---------------------------------------------------------------------------
// Laws
// ---------------------------------------------------------------------------

/// A looping animation keeps playing: a tick never stops it and its frame
/// stays in range.
pub proof fn law_looping_keeps_playing(a: Animation)
    requires
        a.looping,
        a.playing,
        a.current_frame < a.frames@.len(),
    ensures
        a.ticked().0.playing,
        !a.ticked().0.finished || a.finished,
        a.ticked().0.current_frame < a.frames@.len(),
{
}

/// A non-looping animation that finishes stays on its last frame and stops.
pub proof fn law_finished_on_last_frame(a: Animation)
    requires
        !a.looping,
        a.playing,
        a.frames@.len() > 0,
        !a.ticked().0.playing,
    ensures
        a.ticked().0.finished,
        a.ticked().0.current_frame == a.frames@.len() - 1,
        a.ticked().1,
{
}

/// An animation after `t` game ticks
pub open spec fn ticked_times(a: Animation, t: nat) -> Animation
    decreases t,
{
    if t == 0 { a } else { ticked_times(a, (t - 1) as nat).ticked().0 }
}

/// The finished state of a non-looping animation: stopped on its last frame
pub open spec fn finished_state(a: Animation) -> Animation {
    Animation { current_frame: (a.frames@.len() - 1) as usize, tick: 0, playing: false, finished: true, ..a }
}

/// The state of a started animation after f whole frames and r more ticks
pub open spec fn running_state(a: Animation, f: nat, r: nat) -> Animation {
    Animation { current_frame: f as usize, tick: r as u32, ..a }
}

/// Frame f, tick r of a started non-looping animation is reached after
/// f·k + r ticks
proof fn lemma_running(a: Animation, f: nat, r: nat)
    requires
        !a.looping,
        a.playing,
        !a.finished,
        a.current_frame == 0,
        a.tick == 0,
        a.ticks_per_frame >= 1,
        f < a.frames@.len(),
        r < a.ticks_per_frame,
    ensures
        ticked_times(a, f * (a.ticks_per_frame as nat) + r) == running_state(a, f, r),
    decreases f, r,
{
    let k = a.ticks_per_frame as nat;
    assert(a.frames.len() == a.frames@.len());
    if r > 0 {
        lemma_running(a, f, (r - 1) as nat);
        let t = f * k + r;
        assert(((t - 1) as nat) == f * k + (r - 1));
        assert(running_state(a, f, (r - 1) as nat).ticked().0 == running_state(a, f, r));
        assert(ticked_times(a, t) == ticked_times(a, (t - 1) as nat).ticked().0);
        assert(ticked_times(a, t) == running_state(a, f, r));
    } else if f > 0 {
        lemma_running(a, (f - 1) as nat, (k - 1) as nat);
        assert((f - 1) * k + (k - 1) == f * k - 1) by (nonlinear_arith)
            requires k >= 1;
        assert(f * k >= 1) by (nonlinear_arith)
            requires k >= 1, f >= 1;
        assert(running_state(a, (f - 1) as nat, (k - 1) as nat).ticked().0 == running_state(a, f, 0));
        let t = f * k;
        assert(((t - 1) as nat) == (f - 1) * k + (k - 1));
        assert(ticked_times(a, t) == ticked_times(a, (t - 1) as nat).ticked().0);
        assert(ticked_times(a, t) == running_state(a, f, r));
    } else {
        assert(running_state(a, 0, 0) == a);
        assert(f * k + r == 0) by (nonlinear_arith)
            requires f == 0, r == 0;
        assert(ticked_times(a, 0) == a);
    }
}

/// A finished animation stays as it is, tick after tick
proof fn lemma_stays_finished(a: Animation, t: nat)
    requires
        a.frames@.len() > 0,
        a.frames@.len() * (a.ticks_per_frame as nat) <= t,
        ticked_times(a, a.frames@.len() * (a.ticks_per_frame as nat)) == finished_state(a),
    ensures
        ticked_times(a, t) == finished_state(a),
    decreases t,
{
    if t > a.frames@.len() * (a.ticks_per_frame as nat) {
        lemma_stays_finished(a, (t - 1) as nat);
    }
}

/// A non-looping animation started on its first frame, with n frames of k
/// ticks each, keeps playing for the first n·k − 1 ticks, finishes on tick
/// n·k on its last frame, and stays so afterwards: it finishes exactly once.
pub proof fn law_animation_finishes_once(a: Animation, t: nat)
    requires
        !a.looping,
        a.playing,
        !a.finished,
        a.current_frame == 0,
        a.tick == 0,
        a.ticks_per_frame >= 1,
        a.frames@.len() > 0,
    ensures
        t < a.frames@.len() * (a.ticks_per_frame as nat) ==> ticked_times(a, t).playing && !ticked_times(a, t).finished,
        t >= a.frames@.len() * (a.ticks_per_frame as nat) ==> ticked_times(a, t) == finished_state(a),
{
    let n = a.frames@.len();
    let k = a.ticks_per_frame as nat;
    assert(a.frames.len() == n);
    if t < n * k {
        let f = t / k;
        let r = t % k;
        assert(t == f * k + r && r < k && f < n) by (nonlinear_arith)
            requires k >= 1, t < n * k, f == t / k, r == t % k;
        lemma_running(a, f, r);
    } else {
        lemma_running(a, (n - 1) as nat, (k - 1) as nat);
        assert((n - 1) * k + (k - 1) == n * k - 1) by (nonlinear_arith)
            requires k >= 1;
        assert(n * k >= 1) by (nonlinear_arith)
            requires k >= 1, n >= 1;
        assert(running_state(a, (n - 1) as nat, (k - 1) as nat).ticked().0 == finished_state(a));
        lemma_stays_finished(a, t);
    }
}

} // verus!
