//! Scene scripts: data-driven dialog chains with conditional branching.
//!
//! A script is a flat list of steps. `advance` runs instant steps at once and
//! stops at the first step that has to wait for a dialog, an animation or a
//! delay. Branch steps jump to the last step that carries their label.

use vstd::prelude::*;
use crate::text::{holds_str, opt_view, owned, contains_str, contains_u32, str_eq};

verus! {

// ---------------------------------------------------------------------------
// Types
// ---------------------------------------------------------------------------

/// A condition that can gate a script step
pub enum Condition {
    /// A cache flag is set (e.g. "#Dog")
    HasCache(String),
    /// A permanent flag is set (e.g. "#FerryTicket")
    HasStuff(String),
    /// A permanent flag is not set
    NotStuff(String),
    /// A part is attached to the car
    HasPart(u32),
    /// A part is not on the car
    NotPart(u32),
    /// Always true
    Always,
}

/// An action performed by a script step
pub enum Action {
    /// Play a dialog; optionally name the actor that lip-syncs it
    Talk { audio_id: String, actor_name: Option<String> },
    /// Play an actor animation
    PlayAnim { actor_name: String, anim_name: String },
    /// Set a cache flag
    SetCache(String),
    /// Remove a cache flag
    RemoveCache(String),
    /// Set a permanent flag
    SetStuff(String),
    /// Give a part to the player (placed in the yard)
    GivePart(u32),
    /// Refuel the car to maximum
    Refuel,
    /// Show or hide an actor
    SetActorVisible { actor_name: String, visible: bool },
    /// Wait for a fixed duration (ms)
    Delay(u32),
    /// Play a sound effect (fire-and-forget)
    PlaySound(String),
    /// Leave the scene (back to the world map)
    LeaveToWorld,
    /// Change an actor's talk/silence animation pair
    SetTalkAnims { actor_name: String, talk_anim: String, silence_anim: String },
    /// Do nothing (conditional-only steps, labels)
    Nop,
}

/// A single step in a scene script
pub struct ScriptStep {
    /// Condition that must hold for this step to run
    pub condition: Condition,
    /// The action to perform
    pub action: Action,
    /// Whether a dialog or animation started by this step is waited for
    pub blocking: bool,
    /// Optional label for jump targets
    pub label: Option<String>,
    /// If set, jump to the step with this label instead of acting
    pub jump_to: Option<String>,
}

/// A running scene script instance
pub struct SceneScript {
    pub steps: Vec<ScriptStep>,
    pub current_step: usize,
    /// Waiting for a dialog to finish (keyed by audio id)
    pub waiting_for_dialog: Option<String>,
    /// Waiting for an animation to finish (keyed by actor name)
    pub waiting_for_anim: Option<String>,
    /// Delay timer remaining (ms)
    pub delay_remaining: u32,
    /// Whether the script has completed
    pub finished: bool,
}

/// Requests generated by the script that the game state must fulfil
pub enum ScriptRequest {
    Talk { audio_id: String, actor_name: Option<String> },
    PlayAnim { actor_name: String, anim_name: String },
    SetCache(String),
    RemoveCache(String),
    SetStuff(String),
    GivePart(u32),
    Refuel,
    SetActorVisible { actor_name: String, visible: bool },
    SetTalkAnims { actor_name: String, talk_anim: String, silence_anim: String },
    PlaySound(String),
    LeaveToWorld,
}

/// Context needed to evaluate conditions
pub struct ScriptContext<'a> {
    pub cache: &'a [String],
    pub permanent: &'a [String],
    pub car_parts: &'a [u32],
}

// ---------------------------------------------------------------------------
// Abstract model
// ---------------------------------------------------------------------------

/// Abstract condition (strings as character sequences)
pub enum ConditionV {
    HasCache(Seq<char>),
    HasStuff(Seq<char>),
    NotStuff(Seq<char>),
    HasPart(u32),
    NotPart(u32),
    Always,
}

/// Abstract action
pub enum ActionV {
    Talk { audio_id: Seq<char>, actor_name: Option<Seq<char>> },
    PlayAnim { actor_name: Seq<char>, anim_name: Seq<char> },
    SetCache(Seq<char>),
    RemoveCache(Seq<char>),
    SetStuff(Seq<char>),
    GivePart(u32),
    Refuel,
    SetActorVisible { actor_name: Seq<char>, visible: bool },
    Delay(u32),
    PlaySound(Seq<char>),
    LeaveToWorld,
    SetTalkAnims { actor_name: Seq<char>, talk_anim: Seq<char>, silence_anim: Seq<char> },
    Nop,
}

/// Abstract script step
pub struct StepV {
    pub condition: ConditionV,
    pub action: ActionV,
    pub blocking: bool,
    pub label: Option<Seq<char>>,
    pub jump_to: Option<Seq<char>>,
}

/// Abstract request
pub enum RequestV {
    Talk { audio_id: Seq<char>, actor_name: Option<Seq<char>> },
    PlayAnim { actor_name: Seq<char>, anim_name: Seq<char> },
    SetCache(Seq<char>),
    RemoveCache(Seq<char>),
    SetStuff(Seq<char>),
    GivePart(u32),
    Refuel,
    SetActorVisible { actor_name: Seq<char>, visible: bool },
    SetTalkAnims { actor_name: Seq<char>, talk_anim: Seq<char>, silence_anim: Seq<char> },
    PlaySound(Seq<char>),
    LeaveToWorld,
}

/// Abstract condition context
pub struct ContextV {
    pub cache: Seq<String>,
    pub permanent: Seq<String>,
    pub car_parts: Seq<u32>,
}

/// What one call of `advance` produces, starting at a step
pub struct RunOut {
    pub requests: Seq<RequestV>,
    pub next: int,
    pub wait_dialog: Option<Seq<char>>,
    pub wait_anim: Option<Seq<char>>,
    pub delay: u32,
}

impl View for Condition {
    type V = ConditionV;

    open spec fn view(&self) -> ConditionV {
        match self {
            Condition::HasCache(f) => ConditionV::HasCache(f@),
            Condition::HasStuff(f) => ConditionV::HasStuff(f@),
            Condition::NotStuff(f) => ConditionV::NotStuff(f@),
            Condition::HasPart(p) => ConditionV::HasPart(*p),
            Condition::NotPart(p) => ConditionV::NotPart(*p),
            Condition::Always => ConditionV::Always,
        }
    }
}

impl View for Action {
    type V = ActionV;

    open spec fn view(&self) -> ActionV {
        match self {
            Action::Talk { audio_id, actor_name } => ActionV::Talk {
                audio_id: audio_id@,
                actor_name: opt_view(*actor_name),
            },
            Action::PlayAnim { actor_name, anim_name } => ActionV::PlayAnim {
                actor_name: actor_name@,
                anim_name: anim_name@,
            },
            Action::SetCache(f) => ActionV::SetCache(f@),
            Action::RemoveCache(f) => ActionV::RemoveCache(f@),
            Action::SetStuff(f) => ActionV::SetStuff(f@),
            Action::GivePart(p) => ActionV::GivePart(*p),
            Action::Refuel => ActionV::Refuel,
            Action::SetActorVisible { actor_name, visible } => ActionV::SetActorVisible {
                actor_name: actor_name@,
                visible: *visible,
            },
            Action::Delay(ms) => ActionV::Delay(*ms),
            Action::PlaySound(s) => ActionV::PlaySound(s@),
            Action::LeaveToWorld => ActionV::LeaveToWorld,
            Action::SetTalkAnims { actor_name, talk_anim, silence_anim } => ActionV::SetTalkAnims {
                actor_name: actor_name@,
                talk_anim: talk_anim@,
                silence_anim: silence_anim@,
            },
            Action::Nop => ActionV::Nop,
        }
    }
}

impl View for ScriptStep {
    type V = StepV;

    open spec fn view(&self) -> StepV {
        StepV {
            condition: self.condition@,
            action: self.action@,
            blocking: self.blocking,
            label: opt_view(self.label),
            jump_to: opt_view(self.jump_to),
        }
    }
}

impl View for ScriptRequest {
    type V = RequestV;

    open spec fn view(&self) -> RequestV {
        match self {
            ScriptRequest::Talk { audio_id, actor_name } => RequestV::Talk {
                audio_id: audio_id@,
                actor_name: opt_view(*actor_name),
            },
            ScriptRequest::PlayAnim { actor_name, anim_name } => RequestV::PlayAnim {
                actor_name: actor_name@,
                anim_name: anim_name@,
            },
            ScriptRequest::SetCache(f) => RequestV::SetCache(f@),
            ScriptRequest::RemoveCache(f) => RequestV::RemoveCache(f@),
            ScriptRequest::SetStuff(f) => RequestV::SetStuff(f@),
            ScriptRequest::GivePart(p) => RequestV::GivePart(*p),
            ScriptRequest::Refuel => RequestV::Refuel,
            ScriptRequest::SetActorVisible { actor_name, visible } => RequestV::SetActorVisible {
                actor_name: actor_name@,
                visible: *visible,
            },
            ScriptRequest::SetTalkAnims { actor_name, talk_anim, silence_anim } => RequestV::SetTalkAnims {
                actor_name: actor_name@,
                talk_anim: talk_anim@,
                silence_anim: silence_anim@,
            },
            ScriptRequest::PlaySound(s) => RequestV::PlaySound(s@),
            ScriptRequest::LeaveToWorld => RequestV::LeaveToWorld,
        }
    }
}

impl<'a> View for ScriptContext<'a> {
    type V = ContextV;

    open spec fn view(&self) -> ContextV {
        ContextV { cache: self.cache@, permanent: self.permanent@, car_parts: self.car_parts@ }
    }
}

/// The abstract steps of a list of steps
pub open spec fn steps_view(steps: Seq<ScriptStep>) -> Seq<StepV> {
    steps.map_values(|s: ScriptStep| s@)
}

/// The abstract requests of a list of requests
pub open spec fn requests_view(reqs: Seq<ScriptRequest>) -> Seq<RequestV> {
    reqs.map_values(|r: ScriptRequest| r@)
}

/// Whether a condition holds in a context
pub open spec fn cond_holds(c: ConditionV, ctx: ContextV) -> bool {
    match c {
        ConditionV::Always => true,
        ConditionV::HasCache(f) => holds_str(ctx.cache, f),
        ConditionV::HasStuff(f) => holds_str(ctx.permanent, f),
        ConditionV::NotStuff(f) => !holds_str(ctx.permanent, f),
        ConditionV::HasPart(p) => ctx.car_parts.contains(p),
        ConditionV::NotPart(p) => !ctx.car_parts.contains(p),
    }
}

/// Index of the last step among the first `k` that carries label `name`
pub open spec fn label_in(s: Seq<StepV>, name: Seq<char>, k: int) -> Option<int>
    decreases k,
{
    if k <= 0 {
        None
    } else if s[k - 1].label == Some(name) {
        Some(k - 1)
    } else {
        label_in(s, name, k - 1)
    }
}

/// Index of the step a jump to `name` lands on (the last step with that label)
pub open spec fn label_target(s: Seq<StepV>, name: Seq<char>) -> Option<int> {
    label_in(s, name, s.len() as int)
}

/// Every jump whose label exists lands on a later step
pub open spec fn jumps_forward(s: Seq<StepV>) -> bool {
    forall|i: int|
        0 <= i < s.len() && #[trigger] s[i].jump_to is Some ==> match label_target(s, s[i].jump_to->0) {
            Some(j) => j > i,
            None => true,
        }
}

/// The request an action emits, if any
pub open spec fn action_requests(a: ActionV) -> Seq<RequestV> {
    match a {
        ActionV::Talk { audio_id, actor_name } => seq![RequestV::Talk { audio_id, actor_name }],
        ActionV::PlayAnim { actor_name, anim_name } => seq![RequestV::PlayAnim { actor_name, anim_name }],
        ActionV::SetCache(f) => seq![RequestV::SetCache(f)],
        ActionV::RemoveCache(f) => seq![RequestV::RemoveCache(f)],
        ActionV::SetStuff(f) => seq![RequestV::SetStuff(f)],
        ActionV::GivePart(p) => seq![RequestV::GivePart(p)],
        ActionV::Refuel => seq![RequestV::Refuel],
        ActionV::SetActorVisible { actor_name, visible } => seq![RequestV::SetActorVisible { actor_name, visible }],
        ActionV::SetTalkAnims { actor_name, talk_anim, silence_anim } => seq![
            RequestV::SetTalkAnims { actor_name, talk_anim, silence_anim },
        ],
        ActionV::PlaySound(s) => seq![RequestV::PlaySound(s)],
        ActionV::LeaveToWorld => seq![RequestV::LeaveToWorld],
        ActionV::Delay(_) => seq![],
        ActionV::Nop => seq![],
    }
}

/// The dialog an executed step makes the script wait for
pub open spec fn step_wait_dialog(st: StepV) -> Option<Seq<char>> {
    match st.action {
        ActionV::Talk { audio_id, .. } => if st.blocking { Some(audio_id) } else { None },
        _ => None,
    }
}

/// The actor whose animation an executed step makes the script wait for
pub open spec fn step_wait_anim(st: StepV) -> Option<Seq<char>> {
    match st.action {
        ActionV::PlayAnim { actor_name, .. } => if st.blocking { Some(actor_name) } else { None },
        _ => None,
    }
}

/// The delay an executed step starts
pub open spec fn step_delay(st: StepV) -> u32 {
    match st.action {
        ActionV::Delay(ms) => ms,
        _ => 0,
    }
}

/// Outcome with no requests and nothing to wait for, stopping at `i`
pub open spec fn idle_out(i: int) -> RunOut {
    RunOut { requests: seq![], next: i, wait_dialog: None, wait_anim: None, delay: 0 }
}

/// Whether an outcome leaves the script waiting
pub open spec fn out_waits(o: RunOut) -> bool {
    o.wait_dialog is Some || o.wait_anim is Some || o.delay > 0
}

/// What `advance` does when it starts at step `i` with nothing to wait for,
/// if it stops within `fuel` steps: the requests it emits, the step it stops
/// at and what it then waits for. It stops past the last step or at a step
/// that makes it wait; a jump goes to the last step with the label, forward
/// or back.
pub open spec fn run_fuel(s: Seq<StepV>, ctx: ContextV, i: int, fuel: nat) -> Option<RunOut>
    decreases fuel,
{
    if i < 0 || i >= s.len() {
        Some(idle_out(i))
    } else if fuel == 0 {
        None
    } else {
        let st = s[i];
        if !cond_holds(st.condition, ctx) {
            run_fuel(s, ctx, i + 1, (fuel - 1) as nat)
        } else if st.jump_to is Some {
            match label_target(s, st.jump_to->0) {
                Some(j) => run_fuel(s, ctx, j, (fuel - 1) as nat),
                None => run_fuel(s, ctx, i + 1, (fuel - 1) as nat),
            }
        } else {
            let reqs = action_requests(st.action);
            let here = RunOut {
                requests: reqs,
                next: i + 1,
                wait_dialog: step_wait_dialog(st),
                wait_anim: step_wait_anim(st),
                delay: step_delay(st),
            };
            if out_waits(here) {
                Some(here)
            } else {
                match run_fuel(s, ctx, i + 1, (fuel - 1) as nat) {
                    Some(rest) => Some(RunOut { requests: reqs + rest.requests, ..rest }),
                    None => None,
                }
            }
        }
    }
}

/// Running from step `i` stops (at a wait or past the last step): it does
/// unless jumps go round without a step that waits
pub open spec fn ends(s: Seq<StepV>, ctx: ContextV, i: int) -> bool {
    exists|f: nat| #[trigger] run_fuel(s, ctx, i, f) is Some
}

/// What `advance` does when it starts at step `i` with nothing to wait for
/// (where running from there stops)
pub open spec fn run(s: Seq<StepV>, ctx: ContextV, i: int) -> RunOut {
    run_fuel(s, ctx, i, choose|f: nat| #[trigger] run_fuel(s, ctx, i, f) is Some).unwrap()
}

/// More fuel gives the same outcome
proof fn lemma_fuel_mono(s: Seq<StepV>, ctx: ContextV, i: int, f: nat, g: nat)
    requires
        f <= g,
        run_fuel(s, ctx, i, f) is Some,
    ensures
        run_fuel(s, ctx, i, g) == run_fuel(s, ctx, i, f),
    decreases f,
{
    if 0 <= i < s.len() && f > 0 {
        let st = s[i];
        let f1 = (f - 1) as nat;
        let g1 = (g - 1) as nat;
        if !cond_holds(st.condition, ctx) {
            lemma_fuel_mono(s, ctx, i + 1, f1, g1);
        } else if st.jump_to is Some {
            match label_target(s, st.jump_to->0) {
                Some(j) => lemma_fuel_mono(s, ctx, j, f1, g1),
                None => lemma_fuel_mono(s, ctx, i + 1, f1, g1),
            }
        } else {
            let here = RunOut {
                requests: action_requests(st.action),
                next: i + 1,
                wait_dialog: step_wait_dialog(st),
                wait_anim: step_wait_anim(st),
                delay: step_delay(st),
            };
            if !out_waits(here) {
                lemma_fuel_mono(s, ctx, i + 1, f1, g1);
            }
        }
    }
}

/// Any fuel that suffices gives `run`
proof fn lemma_run_fuel(s: Seq<StepV>, ctx: ContextV, i: int, f: nat)
    requires
        run_fuel(s, ctx, i, f) is Some,
    ensures
        ends(s, ctx, i),
        run(s, ctx, i) == run_fuel(s, ctx, i, f).unwrap(),
{
    let c = choose|g: nat| #[trigger] run_fuel(s, ctx, i, g) is Some;
    assert(run_fuel(s, ctx, i, c) is Some);
    if c <= f {
        lemma_fuel_mono(s, ctx, i, c, f);
    } else {
        lemma_fuel_mono(s, ctx, i, f, c);
    }
}

proof fn lemma_forward_fuel(s: Seq<StepV>, ctx: ContextV, i: int)
    requires
        jumps_forward(s),
        0 <= i <= s.len(),
    ensures
        run_fuel(s, ctx, i, (s.len() - i) as nat) is Some,
    decreases s.len() - i,
{
    if i < s.len() {
        let st = s[i];
        let f1 = (s.len() - i - 1) as nat;
        lemma_forward_fuel(s, ctx, i + 1);
        if cond_holds(st.condition, ctx) && st.jump_to is Some {
            lemma_label_in_bounds(s, st.jump_to->0, s.len() as int);
            match label_target(s, st.jump_to->0) {
                Some(j) => {
                    assert(j > i);
                    lemma_forward_fuel(s, ctx, j);
                    lemma_fuel_mono(s, ctx, j, (s.len() - j) as nat, f1);
                },
                None => {},
            }
        }
    }
}

/// Conditions test the context: a part condition holds exactly when the car
/// has (or lacks) that part, a flag condition when a flag of that name is
/// among the permanent flags (or the cache); each "not" condition is the
/// negation of its "has" condition, and `Always` always holds.
pub proof fn law_conditions_test_the_context(ctx: ContextV, p: u32, f: Seq<char>)
    ensures
        cond_holds(ConditionV::HasPart(p), ctx) <==> ctx.car_parts.contains(p),
        cond_holds(ConditionV::NotPart(p), ctx) <==> !cond_holds(ConditionV::HasPart(p), ctx),
        cond_holds(ConditionV::HasStuff(f), ctx) <==> (exists|j: int| 0 <= j < ctx.permanent.len() && #[trigger] ctx.permanent[j]@ == f),
        cond_holds(ConditionV::NotStuff(f), ctx) <==> !cond_holds(ConditionV::HasStuff(f), ctx),
        cond_holds(ConditionV::HasCache(f), ctx) <==> (exists|j: int| 0 <= j < ctx.cache.len() && #[trigger] ctx.cache[j]@ == f),
        cond_holds(ConditionV::Always, ctx),
{
}

/// A script whose jumps all go forward always stops: from any step, with
/// any flags, `advance` reaches a wait or the end.
pub proof fn law_forward_scripts_end(s: Seq<StepV>, ctx: ContextV, i: int)
    requires
        jumps_forward(s),
    ensures
        ends(s, ctx, i),
{
    if 0 <= i <= s.len() {
        lemma_forward_fuel(s, ctx, i);
        lemma_run_fuel(s, ctx, i, (s.len() - i) as nat);
    } else {
        assert(run_fuel(s, ctx, i, 0) is Some);
    }
}

// ---------------------------------------------------------------------------
// Abstract step builders
// ---------------------------------------------------------------------------

/// An unconditional, unlabelled abstract step
pub open spec fn plain_v(action: ActionV, blocking: bool) -> StepV {
    StepV { condition: ConditionV::Always, action, blocking, label: None, jump_to: None }
}

pub open spec fn talk_v(audio_id: Seq<char>) -> StepV {
    plain_v(ActionV::Talk { audio_id, actor_name: None }, true)
}

pub open spec fn talk_actor_v(audio_id: Seq<char>, actor: Seq<char>) -> StepV {
    plain_v(ActionV::Talk { audio_id, actor_name: Some(actor) }, true)
}

pub open spec fn leave_v() -> StepV {
    plain_v(ActionV::LeaveToWorld, false)
}

pub open spec fn set_cache_v(flag: Seq<char>) -> StepV {
    plain_v(ActionV::SetCache(flag), false)
}

pub open spec fn remove_cache_v(flag: Seq<char>) -> StepV {
    plain_v(ActionV::RemoveCache(flag), false)
}

pub open spec fn set_stuff_v(flag: Seq<char>) -> StepV {
    plain_v(ActionV::SetStuff(flag), false)
}

pub open spec fn give_part_v(part_id: u32) -> StepV {
    plain_v(ActionV::GivePart(part_id), false)
}

pub open spec fn refuel_v() -> StepV {
    plain_v(ActionV::Refuel, false)
}

pub open spec fn delay_v(ms: u32) -> StepV {
    plain_v(ActionV::Delay(ms), true)
}

pub open spec fn play_sound_v(sound_id: Seq<char>) -> StepV {
    plain_v(ActionV::PlaySound(sound_id), false)
}

pub open spec fn branch_v(condition: ConditionV, target: Seq<char>) -> StepV {
    StepV { condition, action: ActionV::Nop, blocking: false, label: None, jump_to: Some(target) }
}

pub open spec fn label_v(name: Seq<char>) -> StepV {
    StepV { condition: ConditionV::Always, action: ActionV::Nop, blocking: false, label: Some(name), jump_to: None }
}

pub open spec fn labelled_v(st: StepV, name: Seq<char>) -> StepV {
    StepV { label: Some(name), ..st }
}

pub open spec fn play_anim_v(actor: Seq<char>, anim: Seq<char>) -> StepV {
    plain_v(ActionV::PlayAnim { actor_name: actor, anim_name: anim }, true)
}

pub open spec fn actor_visible_v(actor: Seq<char>, visible: bool) -> StepV {
    plain_v(ActionV::SetActorVisible { actor_name: actor, visible }, false)
}

pub open spec fn set_talk_anims_v(actor: Seq<char>, talk: Seq<char>, silence: Seq<char>) -> StepV {
    plain_v(ActionV::SetTalkAnims { actor_name: actor, talk_anim: talk, silence_anim: silence }, false)
}

proof fn lemma_label_in_bounds(s: Seq<StepV>, name: Seq<char>, k: int)
    requires
        k <= s.len(),
    ensures
        label_in(s, name, k) matches Some(j) ==> 0 <= j < k && s[j].label == Some(name),
        label_in(s, name, k) is None ==> forall|j: int| 0 <= j < k ==> s[j].label != Some(name),
    decreases k,
{
    if k > 0 {
        lemma_label_in_bounds(s, name, k - 1);
    }
}

// ---------------------------------------------------------------------------
// Step constructors
// ---------------------------------------------------------------------------

impl ScriptStep {
    /// A blocking talk step (no specific actor)
    pub fn talk(audio_id: &str) -> (r: Self)
        ensures
            r@ == (StepV {
                condition: ConditionV::Always,
                action: ActionV::Talk { audio_id: audio_id@, actor_name: None },
                blocking: true,
                label: None,
                jump_to: None,
            }),
    {
        ScriptStep {
            condition: Condition::Always,
            action: Action::Talk { audio_id: owned(audio_id), actor_name: None },
            blocking: true,
            label: None,
            jump_to: None,
        }
    }

    /// A blocking talk step lip-synced by a specific actor
    pub fn talk_with_actor(audio_id: &str, actor: &str) -> (r: Self)
        ensures
            r@ == (StepV {
                condition: ConditionV::Always,
                action: ActionV::Talk { audio_id: audio_id@, actor_name: Some(actor@) },
                blocking: true,
                label: None,
                jump_to: None,
            }),
    {
        ScriptStep {
            condition: Condition::Always,
            action: Action::Talk { audio_id: owned(audio_id), actor_name: Some(owned(actor)) },
            blocking: true,
            label: None,
            jump_to: None,
        }
    }

    /// A leave-to-world step
    pub fn leave() -> (r: Self)
        ensures
            r@ == (StepV {
                condition: ConditionV::Always,
                action: ActionV::LeaveToWorld,
                blocking: false,
                label: None,
                jump_to: None,
            }),
    {
        ScriptStep {
            condition: Condition::Always,
            action: Action::LeaveToWorld,
            blocking: false,
            label: None,
            jump_to: None,
        }
    }

    /// A cache-flag step
    pub fn set_cache(flag: &str) -> (r: Self)
        ensures
            r@ == (StepV {
                condition: ConditionV::Always,
                action: ActionV::SetCache(flag@),
                blocking: false,
                label: None,
                jump_to: None,
            }),
    {
        ScriptStep {
            condition: Condition::Always,
            action: Action::SetCache(owned(flag)),
            blocking: false,
            label: None,
            jump_to: None,
        }
    }

    /// A cache-removal step
    pub fn remove_cache(flag: &str) -> (r: Self)
        ensures
            r@ == (StepV {
                condition: ConditionV::Always,
                action: ActionV::RemoveCache(flag@),
                blocking: false,
                label: None,
                jump_to: None,
            }),
    {
        ScriptStep {
            condition: Condition::Always,
            action: Action::RemoveCache(owned(flag)),
            blocking: false,
            label: None,
            jump_to: None,
        }
    }

    /// A permanent-flag step
    pub fn set_stuff(flag: &str) -> (r: Self)
        ensures
            r@ == (StepV {
                condition: ConditionV::Always,
                action: ActionV::SetStuff(flag@),
                blocking: false,
                label: None,
                jump_to: None,
            }),
    {
        ScriptStep {
            condition: Condition::Always,
            action: Action::SetStuff(owned(flag)),
            blocking: false,
            label: None,
            jump_to: None,
        }
    }

    /// A part-reward step
    pub fn give_part(part_id: u32) -> (r: Self)
        ensures
            r@ == (StepV {
                condition: ConditionV::Always,
                action: ActionV::GivePart(part_id),
                blocking: false,
                label: None,
                jump_to: None,
            }),
    {
        ScriptStep {
            condition: Condition::Always,
            action: Action::GivePart(part_id),
            blocking: false,
            label: None,
            jump_to: None,
        }
    }

    /// A refuel step
    pub fn refuel() -> (r: Self)
        ensures
            r@ == (StepV {
                condition: ConditionV::Always,
                action: ActionV::Refuel,
                blocking: false,
                label: None,
                jump_to: None,
            }),
    {
        ScriptStep {
            condition: Condition::Always,
            action: Action::Refuel,
            blocking: false,
            label: None,
            jump_to: None,
        }
    }

    /// A delay step
    pub fn delay(ms: u32) -> (r: Self)
        ensures
            r@ == (StepV {
                condition: ConditionV::Always,
                action: ActionV::Delay(ms),
                blocking: true,
                label: None,
                jump_to: None,
            }),
    {
        ScriptStep {
            condition: Condition::Always,
            action: Action::Delay(ms),
            blocking: true,
            label: None,
            jump_to: None,
        }
    }

    /// A sound-effect step (fire-and-forget)
    pub fn play_sound(sound_id: &str) -> (r: Self)
        ensures
            r@ == (StepV {
                condition: ConditionV::Always,
                action: ActionV::PlaySound(sound_id@),
                blocking: false,
                label: None,
                jump_to: None,
            }),
    {
        ScriptStep {
            condition: Condition::Always,
            action: Action::PlaySound(owned(sound_id)),
            blocking: false,
            label: None,
            jump_to: None,
        }
    }

    /// A conditional jump
    pub fn branch(condition: Condition, target_label: &str) -> (r: Self)
        ensures
            r@ == (StepV {
                condition: condition@,
                action: ActionV::Nop,
                blocking: false,
                label: None,
                jump_to: Some(target_label@),
            }),
    {
        ScriptStep {
            condition,
            action: Action::Nop,
            blocking: false,
            label: None,
            jump_to: Some(owned(target_label)),
        }
    }

    /// A labelled marker (jump target)
    pub fn label(name: &str) -> (r: Self)
        ensures
            r@ == (StepV {
                condition: ConditionV::Always,
                action: ActionV::Nop,
                blocking: false,
                label: Some(name@),
                jump_to: None,
            }),
    {
        ScriptStep {
            condition: Condition::Always,
            action: Action::Nop,
            blocking: false,
            label: Some(owned(name)),
            jump_to: None,
        }
    }

    /// The same step, carrying a label
    pub fn with_label(self, name: &str) -> (r: Self)
        ensures
            r@ == (StepV { label: Some(name@), ..self@ }),
    {
        let mut s = self;
        s.label = Some(owned(name));
        s
    }

    /// A blocking actor-animation step
    pub fn play_anim(actor: &str, anim: &str) -> (r: Self)
        ensures
            r@ == (StepV {
                condition: ConditionV::Always,
                action: ActionV::PlayAnim { actor_name: actor@, anim_name: anim@ },
                blocking: true,
                label: None,
                jump_to: None,
            }),
    {
        ScriptStep {
            condition: Condition::Always,
            action: Action::PlayAnim { actor_name: owned(actor), anim_name: owned(anim) },
            blocking: true,
            label: None,
            jump_to: None,
        }
    }

    /// An actor-visibility step
    pub fn actor_visible(actor: &str, visible: bool) -> (r: Self)
        ensures
            r@ == (StepV {
                condition: ConditionV::Always,
                action: ActionV::SetActorVisible { actor_name: actor@, visible },
                blocking: false,
                label: None,
                jump_to: None,
            }),
    {
        ScriptStep {
            condition: Condition::Always,
            action: Action::SetActorVisible { actor_name: owned(actor), visible },
            blocking: false,
            label: None,
            jump_to: None,
        }
    }

    /// A step that changes an actor's lip-sync animations
    pub fn set_talk_anims(actor: &str, talk: &str, silence: &str) -> (r: Self)
        ensures
            r@ == (StepV {
                condition: ConditionV::Always,
                action: ActionV::SetTalkAnims {
                    actor_name: actor@,
                    talk_anim: talk@,
                    silence_anim: silence@,
                },
                blocking: false,
                label: None,
                jump_to: None,
            }),
    {
        ScriptStep {
            condition: Condition::Always,
            action: Action::SetTalkAnims {
                actor_name: owned(actor),
                talk_anim: owned(talk),
                silence_anim: owned(silence),
            },
            blocking: false,
            label: None,
            jump_to: None,
        }
    }
}

// ---------------------------------------------------------------------------
// Running a script
// ---------------------------------------------------------------------------

/// Evaluate a condition against the context
fn evaluate_condition(cond: &Condition, ctx: &ScriptContext<'_>) -> (r: bool)
    ensures
        r == cond_holds(cond@, ctx@),
{
    match cond {
        Condition::Always => true,
        Condition::HasCache(flag) => contains_str(ctx.cache, flag.as_str()),
        Condition::HasStuff(flag) => contains_str(ctx.permanent, flag.as_str()),
        Condition::NotStuff(flag) => !contains_str(ctx.permanent, flag.as_str()),
        Condition::HasPart(id) => contains_u32(ctx.car_parts, *id),
        Condition::NotPart(id) => !contains_u32(ctx.car_parts, *id),
    }
}

impl SceneScript {
    /// The abstract steps of this script
    pub open spec fn steps_v(&self) -> Seq<StepV> {
        steps_view(self.steps@)
    }

    /// Whether the script waits for a dialog, an animation or a delay
    pub open spec fn waits(&self) -> bool {
        self.waiting_for_dialog is Some || self.waiting_for_anim is Some || self.delay_remaining > 0
    }

    /// A fresh script at its first step
    pub fn new(steps: Vec<ScriptStep>) -> (r: Self)
        ensures
            r.steps@ == steps@,
            r.current_step == 0,
            r.waiting_for_dialog is None,
            r.waiting_for_anim is None,
            r.delay_remaining == 0,
            !r.finished,
    {
        SceneScript {
            steps,
            current_step: 0,
            waiting_for_dialog: None,
            waiting_for_anim: None,
            delay_remaining: 0,
            finished: false,
        }
    }

    /// Whether the script is waiting for something
    pub fn is_waiting(&self) -> (r: bool)
        ensures
            r == self.waits(),
    {
        self.waiting_for_dialog.is_some() || self.waiting_for_anim.is_some() || self.delay_remaining > 0
    }

    /// Notify the script that a dialog finished
    pub fn on_dialog_finished(&mut self, audio_id: &str)
        ensures
            final(self).waiting_for_dialog == (match old(self).waiting_for_dialog {
                Some(w) => if w@ == audio_id@ { None } else { Some(w) },
                None => None,
            }),
            final(self).steps == old(self).steps,
            final(self).current_step == old(self).current_step,
            final(self).waiting_for_anim == old(self).waiting_for_anim,
            final(self).delay_remaining == old(self).delay_remaining,
            final(self).finished == old(self).finished,
    {
        let matches = match &self.waiting_for_dialog {
            Some(w) => str_eq(w.as_str(), audio_id),
            None => false,
        };
        if matches {
            self.waiting_for_dialog = None;
        }
    }

    /// Notify the script that an animation finished
    pub fn on_anim_finished(&mut self, actor_name: &str)
        ensures
            final(self).waiting_for_anim == (match old(self).waiting_for_anim {
                Some(w) => if w@ == actor_name@ { None } else { Some(w) },
                None => None,
            }),
            final(self).steps == old(self).steps,
            final(self).current_step == old(self).current_step,
            final(self).waiting_for_dialog == old(self).waiting_for_dialog,
            final(self).delay_remaining == old(self).delay_remaining,
            final(self).finished == old(self).finished,
    {
        let matches = match &self.waiting_for_anim {
            Some(w) => str_eq(w.as_str(), actor_name),
            None => false,
        };
        if matches {
            self.waiting_for_anim = None;
        }
    }

    /// Advance time for delay steps
    pub fn tick(&mut self, dt_ms: u32)
        ensures
            final(self).delay_remaining == (if old(self).delay_remaining > dt_ms {
                old(self).delay_remaining - dt_ms
            } else {
                0
            }),
            final(self).steps == old(self).steps,
            final(self).current_step == old(self).current_step,
            final(self).waiting_for_dialog == old(self).waiting_for_dialog,
            final(self).waiting_for_anim == old(self).waiting_for_anim,
            final(self).finished == old(self).finished,
    {
        if self.delay_remaining > 0 {
            self.delay_remaining = self.delay_remaining.saturating_sub(dt_ms);
        }
    }

    /// Index of the last step labelled `name`
    fn find_label(&self, name: &str) -> (r: Option<usize>)
        ensures
            r matches Some(j) ==> label_target(self.steps_v(), name@) == Some(j as int),
            r is None ==> label_target(self.steps_v(), name@) is None,
    {
        let mut k: usize = self.steps.len();
        while k > 0
            invariant
                k <= self.steps@.len(),
                label_target(self.steps_v(), name@) == label_in(self.steps_v(), name@, k as int),
            decreases k,
        {
            let hit = match &self.steps[k - 1].label {
                Some(l) => str_eq(l.as_str(), name),
                None => false,
            };
            assert(self.steps_v()[k - 1] == self.steps@[k - 1]@);
            if hit {
                return Some(k - 1);
            }
            k = k - 1;
        }
        None
    }

    /// Run instant steps until the script has to wait or ends.
    ///
    /// Returns the requests of the steps that ran. A script that is waiting,
    /// or that has finished, does nothing.
    pub fn advance(&mut self, ctx: &ScriptContext<'_>) -> (requests: Vec<ScriptRequest>)
        requires
            !(old(self).waits() || old(self).finished) ==> ends(old(self).steps_v(), ctx@, old(self).current_step as int),
        ensures
            final(self).steps == old(self).steps,
            old(self).waits() || old(self).finished ==> {
                &&& requests@.len() == 0
                &&& *final(self) == *old(self)
            },
            !(old(self).waits() || old(self).finished) ==> {
                let out = run(old(self).steps_v(), ctx@, old(self).current_step as int);
                &&& requests_view(requests@) == out.requests
                &&& final(self).current_step == out.next
                &&& opt_view(final(self).waiting_for_dialog) == out.wait_dialog
                &&& opt_view(final(self).waiting_for_anim) == out.wait_anim
                &&& final(self).delay_remaining == out.delay
                &&& final(self).finished == (out.next >= old(self).steps@.len() && !out_waits(out))
            },
    {
        let mut requests: Vec<ScriptRequest> = Vec::new();
        if self.is_waiting() || self.finished {
            return requests;
        }
        let ghost s = self.steps_v();
        let ghost c = ctx@;
        let ghost start = self.current_step as int;
        let ghost len = self.steps@.len();
        let ghost f0: nat = choose|f: nat| #[trigger] run_fuel(s, c, start, f) is Some;
        let ghost out0 = run(s, c, start);
        let ghost mut fuel: nat = f0;
        assert(out0 == run_fuel(s, c, start, fuel).unwrap());
        assert(requests_view(requests@) + out0.requests =~= out0.requests);
        while self.current_step < self.steps.len() && !self.is_waiting()
            invariant
                s == self.steps_v(),
                len == self.steps@.len(),
                c == ctx@,
                self.steps == old(self).steps,
                !self.finished,
                !self.waits() ==> {
                    &&& run_fuel(s, c, self.current_step as int, fuel) is Some
                    &&& out0 == (RunOut {
                        requests: requests_view(requests@) + run_fuel(s, c, self.current_step as int, fuel).unwrap().requests,
                        ..run_fuel(s, c, self.current_step as int, fuel).unwrap()
                    })
                },
                self.waits() ==> out0 == (RunOut {
                    requests: requests_view(requests@),
                    next: self.current_step as int,
                    wait_dialog: opt_view(self.waiting_for_dialog),
                    wait_anim: opt_view(self.waiting_for_anim),
                    delay: self.delay_remaining,
                }),
            decreases fuel,
        {
            let i = self.current_step;
            let ghost before = requests@;
            let ghost f = fuel;
            assert(f > 0);
            proof {
                fuel = (f - 1) as nat;
            }
            assert(s[i as int] == self.steps@[i as int]@);
            if !evaluate_condition(&self.steps[i].condition, ctx) {
                self.current_step = i + 1;
                continue;
            }
            let jump = match &self.steps[i].jump_to {
                Some(target) => Some(self.find_label(target.as_str())),
                None => None,
            };
            if let Some(found) = jump {
                proof {
                    assert(s[i as int].jump_to is Some);
                    lemma_label_in_bounds(s, s[i as int].jump_to->0, len as int);
                }
                match found {
                    Some(j) => {
                        self.current_step = j;
                    },
                    None => {
                        self.current_step = i + 1;
                    },
                }
                continue;
            }
            let blocking = self.steps[i].blocking;
            match &self.steps[i].action {
                Action::Talk { audio_id, actor_name } => {
                    let an = match actor_name {
                        Some(a) => Some(a.clone()),
                        None => None,
                    };
                    requests.push(ScriptRequest::Talk { audio_id: audio_id.clone(), actor_name: an });
                    if blocking {
                        self.waiting_for_dialog = Some(audio_id.clone());
                    }
                },
                Action::PlayAnim { actor_name, anim_name } => {
                    requests.push(ScriptRequest::PlayAnim { actor_name: actor_name.clone(), anim_name: anim_name.clone() });
                    if blocking {
                        self.waiting_for_anim = Some(actor_name.clone());
                    }
                },
                Action::SetCache(flag) => {
                    requests.push(ScriptRequest::SetCache(flag.clone()));
                },
                Action::RemoveCache(flag) => {
                    requests.push(ScriptRequest::RemoveCache(flag.clone()));
                },
                Action::SetStuff(flag) => {
                    requests.push(ScriptRequest::SetStuff(flag.clone()));
                },
                Action::GivePart(part_id) => {
                    requests.push(ScriptRequest::GivePart(*part_id));
                },
                Action::Refuel => {
                    requests.push(ScriptRequest::Refuel);
                },
                Action::SetActorVisible { actor_name, visible } => {
                    requests.push(ScriptRequest::SetActorVisible { actor_name: actor_name.clone(), visible: *visible });
                },
                Action::SetTalkAnims { actor_name, talk_anim, silence_anim } => {
                    requests.push(ScriptRequest::SetTalkAnims {
                        actor_name: actor_name.clone(),
                        talk_anim: talk_anim.clone(),
                        silence_anim: silence_anim.clone(),
                    });
                },
                Action::Delay(ms) => {
                    self.delay_remaining = *ms;
                },
                Action::PlaySound(sound_id) => {
                    requests.push(ScriptRequest::PlaySound(sound_id.clone()));
                },
                Action::LeaveToWorld => {
                    requests.push(ScriptRequest::LeaveToWorld);
                },
                Action::Nop => {},
            }
            proof {
                let reqs = action_requests(s[i as int].action);
                assert(requests_view(requests@) =~= requests_view(before) + reqs);
                assert(opt_view(self.waiting_for_dialog) == step_wait_dialog(s[i as int]));
                assert(opt_view(self.waiting_for_anim) == step_wait_anim(s[i as int]));
                assert(self.delay_remaining == step_delay(s[i as int]));
                if !self.waits() {
                    let rest = run_fuel(s, c, i + 1, fuel).unwrap();
                    assert(requests_view(before) + (reqs + rest.requests) =~= requests_view(requests@) + rest.requests);
                }
            }
            self.current_step = i + 1;
        }
        if self.current_step >= self.steps.len() && !self.is_waiting() {
            self.finished = true;
        }
        requests
    }
}

// ---------------------------------------------------------------------------
// Car show, menu and cutscene scripts
// ---------------------------------------------------------------------------

/// Car show rating (1 to 5 stars) from the car's funny factor:
/// below 2 gives 1, below 3 gives 2, below 5 gives 3, below 7 gives 4, else 5.
pub open spec fn rating_of(funny_factor: int) -> u8 {
    if funny_factor < 2 {
        1
    } else if funny_factor < 3 {
        2
    } else if funny_factor < 5 {
        3
    } else if funny_factor < 7 {
        4
    } else {
        5
    }
}

/// Compute the car show rating (1 to 5 stars) from the funny factor
pub fn carshow_rating(funny_factor: i32) -> (r: u8)
    ensures
        r == rating_of(funny_factor as int),
        1 <= r <= 5,
{
    if funny_factor < 2 {
        1
    } else if funny_factor < 3 {
        2
    } else if funny_factor < 5 {
        3
    } else if funny_factor < 7 {
        4
    } else {
        5
    }
}

/// Audio of the judge announcing a rating: 5 stars "94d004v0" down to 1 star "94d008v0"
pub open spec fn rating_audio(rating: u8) -> Seq<char> {
    if rating >= 5 {
        "94d004v0"@
    } else if rating == 4 {
        "94d005v0"@
    } else if rating == 3 {
        "94d006v0"@
    } else if rating == 2 {
        "94d007v0"@
    } else {
        "94d008v0"@
    }
}

fn rating_audio_id(rating: u8) -> (r: &'static str)
    ensures
        r@ == rating_audio(rating),
{
    if rating >= 5 {
        "94d004v0"
    } else if rating == 4 {
        "94d005v0"
    } else if rating == 3 {
        "94d006v0"
    } else if rating == 2 {
        "94d007v0"
    } else {
        "94d008v0"
    }
}

/// Steps of the car show: greeting, score board, rating announcement, leave
pub open spec fn carshow_steps_v(funny_factor: int) -> Seq<StepV> {
    seq![
        talk_actor_v("94d003v0"@, "judge"@),
        play_anim_v("judge"@, "raiseScore"@),
        actor_visible_v("score"@, true),
        set_talk_anims_v("judge"@, "talkScore"@, "idleScore"@),
        talk_actor_v(rating_audio(rating_of(funny_factor)), "judge"@),
        delay_v(2000),
        leave_v(),
    ]
}

/// A script with no jumps at all
pub open spec fn no_jumps(s: Seq<StepV>) -> bool {
    forall|i: int| 0 <= i < s.len() ==> (#[trigger] s[i]).jump_to is None
}

proof fn lemma_no_jumps_forward(s: Seq<StepV>)
    requires
        no_jumps(s),
    ensures
        jumps_forward(s),
{
}

/// A fresh script, at its first step, with the given abstract steps
pub open spec fn fresh_with(r: SceneScript, steps: Seq<StepV>) -> bool {
    &&& r.steps_v() == steps
    &&& r.current_step == 0
    &&& r.waiting_for_dialog is None
    &&& r.waiting_for_anim is None
    &&& r.delay_remaining == 0
    &&& !r.finished
    &&& jumps_forward(steps)
}

/// The car show script for a car with the given funny factor
pub fn build_carshow_script(funny_factor: i32) -> (r: SceneScript)
    ensures
        fresh_with(r, carshow_steps_v(funny_factor as int)),
{
    let rating = carshow_rating(funny_factor);
    let rating_audio = rating_audio_id(rating);
    let mut v: Vec<ScriptStep> = Vec::new();
    v.push(ScriptStep::talk_with_actor("94d003v0", "judge"));
    v.push(ScriptStep::play_anim("judge", "raiseScore"));
    v.push(ScriptStep::actor_visible("score", true));
    v.push(ScriptStep::set_talk_anims("judge", "talkScore", "idleScore"));
    v.push(ScriptStep::talk_with_actor(rating_audio, "judge"));
    v.push(ScriptStep::delay(2000));
    v.push(ScriptStep::leave());
    proof {
        assert(steps_view(v@) =~= carshow_steps_v(funny_factor as int));
        lemma_no_jumps_forward(carshow_steps_v(funny_factor as int));
    }
    SceneScript::new(v)
}

/// Steps of the menu intro: jingle, wait, ambient sound, Mulle's greeting
pub open spec fn menu_steps_v(jingle_duration_ms: u32) -> Seq<StepV> {
    seq![
        play_sound_v("10e001v0"@),
        delay_v(if jingle_duration_ms > 500 { jingle_duration_ms } else { 500 }),
        play_sound_v("10e002v0"@),
        talk_actor_v("11d001v0"@, "mulleMenuMouth"@),
    ]
}

/// The menu intro script
pub fn build_menu_script(jingle_duration_ms: u32) -> (r: SceneScript)
    ensures
        fresh_with(r, menu_steps_v(jingle_duration_ms)),
{
    let wait = if jingle_duration_ms > 500 { jingle_duration_ms } else { 500 };
    let mut v: Vec<ScriptStep> = Vec::new();
    v.push(ScriptStep::play_sound("10e001v0"));
    v.push(ScriptStep::delay(wait));
    v.push(ScriptStep::play_sound("10e002v0"));
    v.push(ScriptStep::talk_with_actor("11d001v0", "mulleMenuMouth"));
    proof {
        assert(steps_view(v@) =~= menu_steps_v(jingle_duration_ms));
        lemma_no_jumps_forward(menu_steps_v(jingle_duration_ms));
    }
    SceneScript::new(v)
}

/// The Figge-in-garage cutscene script
pub fn build_figge_script() -> (r: SceneScript)
    ensures
        fresh_with(r, figge_garage_steps_v()),
{
    let v = figge_garage_steps();
    proof {
        lemma_no_jumps_forward(figge_garage_steps_v());
    }
    SceneScript::new(v)
}

/// The steps of the script of a destination scene, if it has one
pub open spec fn destination_steps_v(dest_num: u8) -> Option<Seq<StepV>> {
    if dest_num == 82 {
        Some(script_mud_car_v())
    } else if dest_num == 83 {
        Some(script_tree_in_road_v())
    } else if dest_num == 84 {
        Some(script_road_thing_v())
    } else if dest_num == 85 {
        Some(script_road_dog_v())
    } else if dest_num == 86 {
        Some(script_solhem_v())
    } else if dest_num == 87 {
        Some(script_saftfabrik_v())
    } else if dest_num == 88 {
        Some(script_sture_v())
    } else if dest_num == 89 {
        Some(script_gas_station_v())
    } else if dest_num == 90 {
        Some(script_doris_digital_v())
    } else if dest_num == 91 {
        Some(script_luddel_abb_v())
    } else if dest_num == 92 {
        Some(script_figge_v())
    } else if dest_num == 93 {
        Some(script_ocean_v())
    } else {
        None
    }
}

/// The script for a destination scene (82 to 93); other scenes have none
pub fn build_destination_script(dest_num: u8) -> (r: Option<SceneScript>)
    ensures
        r is Some <==> 82 <= dest_num <= 93,
        r matches Some(sc) ==> fresh_with(sc, destination_steps_v(dest_num)->0),
{
    let steps = match dest_num {
        82 => script_mud_car(),
        83 => script_tree_in_road(),
        84 => script_road_thing(),
        85 => script_road_dog(),
        86 => script_solhem(),
        87 => script_saftfabrik(),
        88 => script_sture(),
        89 => script_gas_station(),
        90 => script_doris_digital(),
        91 => script_luddel_abb(),
        92 => script_figge(),
        93 => script_ocean(),
        _ => return None,
    };
    proof {
        lemma_destination_jumps_forward(dest_num);
    }
    Some(SceneScript::new(steps))
}

proof fn lemma_destination_jumps_forward(dest_num: u8)
    requires
        82 <= dest_num <= 93,
    ensures
        jumps_forward(destination_steps_v(dest_num)->0),
{
    if dest_num == 86 {
        lemma_script_solhem_jumps_forward();
    } else if dest_num == 87 {
        lemma_script_saftfabrik_jumps_forward();
    } else if dest_num == 88 {
        lemma_script_sture_jumps_forward();
    } else if dest_num == 90 {
        lemma_script_doris_digital_jumps_forward();
    } else if dest_num == 91 {
        lemma_script_luddel_abb_jumps_forward();
    } else if dest_num == 92 {
        lemma_script_figge_jumps_forward();
    } else if dest_num == 93 {
        lemma_script_ocean_jumps_forward();
    } else {
        let s = destination_steps_v(dest_num)->0;
        assert(no_jumps(s));
        lemma_no_jumps_forward(s);
    }
}

/// Steps of the destination 84, RoadThing: a part lies on the road
pub open spec fn script_road_thing_v() -> Seq<StepV> {
    seq![
        give_part_v(287),
        set_cache_v("#RoadThing1"@),
        talk_v("84d001v0"@),
        delay_v(2000),
        leave_v(),
    ]
}

/// Destination 84, RoadThing: a part lies on the road
fn script_road_thing() -> (r: Vec<ScriptStep>)
    ensures
        steps_view(r@) == script_road_thing_v(),
{
    let mut v: Vec<ScriptStep> = Vec::new();
    v.push(ScriptStep::give_part(287));
    v.push(ScriptStep::set_cache("#RoadThing1"));
    v.push(ScriptStep::talk("84d001v0"));
    v.push(ScriptStep::delay(2000));
    v.push(ScriptStep::leave());
    proof {
        assert(steps_view(v@) =~= script_road_thing_v());
    }
    v
}

/// Steps of the destination 85, Road Dog: Mulle finds Salka
pub open spec fn script_road_dog_v() -> Seq<StepV> {
    seq![
        talk_v("85d002v0"@),
        set_cache_v("#GotDogOnce"@),
        set_cache_v("#Dog"@),
        delay_v(500),
        leave_v(),
    ]
}

/// Destination 85, Road Dog: Mulle finds Salka
fn script_road_dog() -> (r: Vec<ScriptStep>)
    ensures
        steps_view(r@) == script_road_dog_v(),
{
    let mut v: Vec<ScriptStep> = Vec::new();
    v.push(ScriptStep::talk("85d002v0"));
    v.push(ScriptStep::set_cache("#GotDogOnce"));
    v.push(ScriptStep::set_cache("#Dog"));
    v.push(ScriptStep::delay(500));
    v.push(ScriptStep::leave());
    proof {
        assert(steps_view(v@) =~= script_road_dog_v());
    }
    v
}

/// Steps of the destination 92, Figge Ferrum: branches on #ExtraTank and #Dog
pub open spec fn script_figge_v() -> Seq<StepV> {
    seq![
        branch_v(ConditionV::HasCache("#ExtraTank"@), "revisit"@),
        talk_v("92d002v0"@),
        branch_v(ConditionV::HasCache("#Dog"@), "has_dog"@),
        talk_v("92d003v0"@),
        delay_v(500),
        labelled_v(leave_v(), "end"@),
        label_v("has_dog"@),
        talk_v("92d004v0"@),
        talk_v("92d005v0"@),
        talk_v("92d006v0"@),
        set_cache_v("#ExtraTank"@),
        remove_cache_v("#Dog"@),
        set_stuff_v("#FiggeIsComing"@),
        refuel_v(),
        delay_v(500),
        leave_v(),
        label_v("revisit"@),
        talk_v("92d007v0"@),
        delay_v(500),
        leave_v(),
    ]
}

/// Destination 92, Figge Ferrum: branches on #ExtraTank and #Dog
fn script_figge() -> (r: Vec<ScriptStep>)
    ensures
        steps_view(r@) == script_figge_v(),
{
    let mut v: Vec<ScriptStep> = Vec::new();
    v.push(ScriptStep::branch(Condition::HasCache(owned("#ExtraTank")), "revisit"));
    v.push(ScriptStep::talk("92d002v0"));
    v.push(ScriptStep::branch(Condition::HasCache(owned("#Dog")), "has_dog"));
    v.push(ScriptStep::talk("92d003v0"));
    v.push(ScriptStep::delay(500));
    v.push(ScriptStep::leave().with_label("end"));
    v.push(ScriptStep::label("has_dog"));
    v.push(ScriptStep::talk("92d004v0"));
    v.push(ScriptStep::talk("92d005v0"));
    v.push(ScriptStep::talk("92d006v0"));
    v.push(ScriptStep::set_cache("#ExtraTank"));
    v.push(ScriptStep::remove_cache("#Dog"));
    v.push(ScriptStep::set_stuff("#FiggeIsComing"));
    v.push(ScriptStep::refuel());
    v.push(ScriptStep::delay(500));
    v.push(ScriptStep::leave());
    v.push(ScriptStep::label("revisit"));
    v.push(ScriptStep::talk("92d007v0"));
    v.push(ScriptStep::delay(500));
    v.push(ScriptStep::leave());
    proof {
        assert(steps_view(v@) =~= script_figge_v());
    }
    v
}

proof fn lemma_script_figge_jumps_forward()
    ensures
        jumps_forward(script_figge_v()),
{
    reveal_strlit("end");
    reveal_strlit("has_dog");
    reveal_strlit("revisit");
    assert("end"@ != "has_dog"@) by { assert("end"@.len() != "has_dog"@.len()); }
    assert("end"@ != "revisit"@) by { assert("end"@.len() != "revisit"@.len()); }
    assert("has_dog"@ != "revisit"@) by { assert("has_dog"@[0] != "revisit"@[0]); }
    let s = script_figge_v();
    reveal_with_fuel(label_in, 21);
    assert(label_target(s, "revisit"@) == Some(16int));
    assert(label_target(s, "has_dog"@) == Some(6int));
    assert forall|i: int| 0 <= i < s.len() && #[trigger] s[i].jump_to is Some implies match label_target(s, s[i].jump_to->0) {
        Some(j) => j > i,
        None => true,
    } by {
        if i == 0 {
        } else if i == 1 {
        } else if i == 2 {
        } else if i == 3 {
        } else if i == 4 {
        } else if i == 5 {
        } else if i == 6 {
        } else if i == 7 {
        } else if i == 8 {
        } else if i == 9 {
        } else if i == 10 {
        } else if i == 11 {
        } else if i == 12 {
        } else if i == 13 {
        } else if i == 14 {
        } else if i == 15 {
        } else if i == 16 {
        } else if i == 17 {
        } else if i == 18 {
        } else if i == 19 {
        }
    }
}

/// Steps of the destination 87, Saftfabrik: branches on part 172 (tank)
pub open spec fn script_saftfabrik_v() -> Seq<StepV> {
    seq![
        talk_v("87d002v0"@),
        branch_v(ConditionV::HasPart(172), "has_tank"@),
        talk_v("87d003v0"@),
        delay_v(1000),
        leave_v(),
        label_v("has_tank"@),
        talk_v("87d004v0"@),
        talk_v("87d005v0"@),
        talk_v("87d006v0"@),
        set_cache_v("#Lemonade"@),
        delay_v(1000),
        leave_v(),
    ]
}

/// Destination 87, Saftfabrik: branches on part 172 (tank)
fn script_saftfabrik() -> (r: Vec<ScriptStep>)
    ensures
        steps_view(r@) == script_saftfabrik_v(),
{
    let mut v: Vec<ScriptStep> = Vec::new();
    v.push(ScriptStep::talk("87d002v0"));
    v.push(ScriptStep::branch(Condition::HasPart(172), "has_tank"));
    v.push(ScriptStep::talk("87d003v0"));
    v.push(ScriptStep::delay(1000));
    v.push(ScriptStep::leave());
    v.push(ScriptStep::label("has_tank"));
    v.push(ScriptStep::talk("87d004v0"));
    v.push(ScriptStep::talk("87d005v0"));
    v.push(ScriptStep::talk("87d006v0"));
    v.push(ScriptStep::set_cache("#Lemonade"));
    v.push(ScriptStep::delay(1000));
    v.push(ScriptStep::leave());
    proof {
        assert(steps_view(v@) =~= script_saftfabrik_v());
    }
    v
}

proof fn lemma_script_saftfabrik_jumps_forward()
    ensures
        jumps_forward(script_saftfabrik_v()),
{
    reveal_strlit("has_tank");
    let s = script_saftfabrik_v();
    reveal_with_fuel(label_in, 13);
    assert(label_target(s, "has_tank"@) == Some(5int));
    assert forall|i: int| 0 <= i < s.len() && #[trigger] s[i].jump_to is Some implies match label_target(s, s[i].jump_to->0) {
        Some(j) => j > i,
        None => true,
    } by {
        if i == 0 {
        } else if i == 1 {
        } else if i == 2 {
        } else if i == 3 {
        } else if i == 4 {
        } else if i == 5 {
        } else if i == 6 {
        } else if i == 7 {
        } else if i == 8 {
        } else if i == 9 {
        } else if i == 10 {
        } else if i == 11 {
        }
    }
}

/// Steps of the destination 88, Sture Stortand: branches on #Lemonade and part 172
pub open spec fn script_sture_v() -> Seq<StepV> {
    seq![
        branch_v(ConditionV::HasCache("#Lemonade"@), "has_lemonade"@),
        talk_v("88d002v0"@),
        branch_v(ConditionV::NotPart(172), "no_tank"@),
        talk_v("88d004v0"@),
        delay_v(1000),
        leave_v(),
        label_v("no_tank"@),
        talk_v("88d003v0"@),
        delay_v(1000),
        leave_v(),
        label_v("has_lemonade"@),
        talk_v("88d005v0"@),
        talk_v("88d006v0"@),
        remove_cache_v("#Lemonade"@),
        give_part_v(162),
        delay_v(1000),
        leave_v(),
    ]
}

/// Destination 88, Sture Stortand: branches on #Lemonade and part 172
fn script_sture() -> (r: Vec<ScriptStep>)
    ensures
        steps_view(r@) == script_sture_v(),
{
    let mut v: Vec<ScriptStep> = Vec::new();
    v.push(ScriptStep::branch(Condition::HasCache(owned("#Lemonade")), "has_lemonade"));
    v.push(ScriptStep::talk("88d002v0"));
    v.push(ScriptStep::branch(Condition::NotPart(172), "no_tank"));
    v.push(ScriptStep::talk("88d004v0"));
    v.push(ScriptStep::delay(1000));
    v.push(ScriptStep::leave());
    v.push(ScriptStep::label("no_tank"));
    v.push(ScriptStep::talk("88d003v0"));
    v.push(ScriptStep::delay(1000));
    v.push(ScriptStep::leave());
    v.push(ScriptStep::label("has_lemonade"));
    v.push(ScriptStep::talk("88d005v0"));
    v.push(ScriptStep::talk("88d006v0"));
    v.push(ScriptStep::remove_cache("#Lemonade"));
    v.push(ScriptStep::give_part(162));
    v.push(ScriptStep::delay(1000));
    v.push(ScriptStep::leave());
    proof {
        assert(steps_view(v@) =~= script_sture_v());
    }
    v
}

proof fn lemma_script_sture_jumps_forward()
    ensures
        jumps_forward(script_sture_v()),
{
    reveal_strlit("has_lemonade");
    reveal_strlit("no_tank");
    assert("has_lemonade"@ != "no_tank"@) by { assert("has_lemonade"@.len() != "no_tank"@.len()); }
    let s = script_sture_v();
    reveal_with_fuel(label_in, 18);
    assert(label_target(s, "has_lemonade"@) == Some(10int));
    assert(label_target(s, "no_tank"@) == Some(6int));
    assert forall|i: int| 0 <= i < s.len() && #[trigger] s[i].jump_to is Some implies match label_target(s, s[i].jump_to->0) {
        Some(j) => j > i,
        None => true,
    } by {
        if i == 0 {
        } else if i == 1 {
        } else if i == 2 {
        } else if i == 3 {
        } else if i == 4 {
        } else if i == 5 {
        } else if i == 6 {
        } else if i == 7 {
        } else if i == 8 {
        } else if i == 9 {
        } else if i == 10 {
        } else if i == 11 {
        } else if i == 12 {
        } else if i == 13 {
        } else if i == 14 {
        } else if i == 15 {
        } else if i == 16 {
        }
    }
}

/// Steps of the destination 86, Solhem: branches on #FerryTicket and part 173 (ladder)
pub open spec fn script_solhem_v() -> Seq<StepV> {
    seq![
        branch_v(ConditionV::HasStuff("#FerryTicket"@), "revisit"@),
        talk_v("86d002v0"@),
        branch_v(ConditionV::HasPart(173), "has_ladder"@),
        talk_v("86d003v0"@),
        delay_v(500),
        leave_v(),
        label_v("has_ladder"@),
        talk_v("86d004v0"@),
        play_anim_v("cat"@, "jump1"@),
        play_anim_v("cat"@, "jump2"@),
        actor_visible_v("cat"@, false),
        talk_v("86d005v0"@),
        set_stuff_v("#FerryTicket"@),
        talk_v("86d006v0"@),
        delay_v(500),
        leave_v(),
        label_v("revisit"@),
        talk_v("86d007v0"@),
        delay_v(500),
        leave_v(),
    ]
}

/// Destination 86, Solhem: branches on #FerryTicket and part 173 (ladder)
fn script_solhem() -> (r: Vec<ScriptStep>)
    ensures
        steps_view(r@) == script_solhem_v(),
{
    let mut v: Vec<ScriptStep> = Vec::new();
    v.push(ScriptStep::branch(Condition::HasStuff(owned("#FerryTicket")), "revisit"));
    v.push(ScriptStep::talk("86d002v0"));
    v.push(ScriptStep::branch(Condition::HasPart(173), "has_ladder"));
    v.push(ScriptStep::talk("86d003v0"));
    v.push(ScriptStep::delay(500));
    v.push(ScriptStep::leave());
    v.push(ScriptStep::label("has_ladder"));
    v.push(ScriptStep::talk("86d004v0"));
    v.push(ScriptStep::play_anim("cat", "jump1"));
    v.push(ScriptStep::play_anim("cat", "jump2"));
    v.push(ScriptStep::actor_visible("cat", false));
    v.push(ScriptStep::talk("86d005v0"));
    v.push(ScriptStep::set_stuff("#FerryTicket"));
    v.push(ScriptStep::talk("86d006v0"));
    v.push(ScriptStep::delay(500));
    v.push(ScriptStep::leave());
    v.push(ScriptStep::label("revisit"));
    v.push(ScriptStep::talk("86d007v0"));
    v.push(ScriptStep::delay(500));
    v.push(ScriptStep::leave());
    proof {
        assert(steps_view(v@) =~= script_solhem_v());
    }
    v
}

proof fn lemma_script_solhem_jumps_forward()
    ensures
        jumps_forward(script_solhem_v()),
{
    reveal_strlit("has_ladder");
    reveal_strlit("revisit");
    assert("has_ladder"@ != "revisit"@) by { assert("has_ladder"@.len() != "revisit"@.len()); }
    let s = script_solhem_v();
    reveal_with_fuel(label_in, 21);
    assert(label_target(s, "revisit"@) == Some(16int));
    assert(label_target(s, "has_ladder"@) == Some(6int));
    assert forall|i: int| 0 <= i < s.len() && #[trigger] s[i].jump_to is Some implies match label_target(s, s[i].jump_to->0) {
        Some(j) => j > i,
        None => true,
    } by {
        if i == 0 {
        } else if i == 1 {
        } else if i == 2 {
        } else if i == 3 {
        } else if i == 4 {
        } else if i == 5 {
        } else if i == 6 {
        } else if i == 7 {
        } else if i == 8 {
        } else if i == 9 {
        } else if i == 10 {
        } else if i == 11 {
        } else if i == 12 {
        } else if i == 13 {
        } else if i == 14 {
        } else if i == 15 {
        } else if i == 16 {
        } else if i == 17 {
        } else if i == 18 {
        } else if i == 19 {
        }
    }
}

/// Steps of the destination 89, gas station: refuel
pub open spec fn script_gas_station_v() -> Seq<StepV> {
    seq![
        refuel_v(),
        delay_v(1000),
        leave_v(),
    ]
}

/// Destination 89, gas station: refuel
fn script_gas_station() -> (r: Vec<ScriptStep>)
    ensures
        steps_view(r@) == script_gas_station_v(),
{
    let mut v: Vec<ScriptStep> = Vec::new();
    v.push(ScriptStep::refuel());
    v.push(ScriptStep::delay(1000));
    v.push(ScriptStep::leave());
    proof {
        assert(steps_view(v@) =~= script_gas_station_v());
    }
    v
}

/// Steps of the destination 82, MudCar: a car stuck in the mud
pub open spec fn script_mud_car_v() -> Seq<StepV> {
    seq![
        talk_v("82d001v0"@),
        set_cache_v("#MudCar"@),
        set_cache_v("#RescuedMudCar"@),
        delay_v(500),
        leave_v(),
    ]
}

/// Destination 82, MudCar: a car stuck in the mud
fn script_mud_car() -> (r: Vec<ScriptStep>)
    ensures
        steps_view(r@) == script_mud_car_v(),
{
    let mut v: Vec<ScriptStep> = Vec::new();
    v.push(ScriptStep::talk("82d001v0"));
    v.push(ScriptStep::set_cache("#MudCar"));
    v.push(ScriptStep::set_cache("#RescuedMudCar"));
    v.push(ScriptStep::delay(500));
    v.push(ScriptStep::leave());
    proof {
        assert(steps_view(v@) =~= script_mud_car_v());
    }
    v
}

/// Steps of the destination 83, TreeInRoad: a tree blocks the road
pub open spec fn script_tree_in_road_v() -> Seq<StepV> {
    seq![
        talk_v("83d001v0"@),
        set_cache_v("#TreeInRoad"@),
        delay_v(500),
        leave_v(),
    ]
}

/// Destination 83, TreeInRoad: a tree blocks the road
fn script_tree_in_road() -> (r: Vec<ScriptStep>)
    ensures
        steps_view(r@) == script_tree_in_road_v(),
{
    let mut v: Vec<ScriptStep> = Vec::new();
    v.push(ScriptStep::talk("83d001v0"));
    v.push(ScriptStep::set_cache("#TreeInRoad"));
    v.push(ScriptStep::delay(500));
    v.push(ScriptStep::leave());
    proof {
        assert(steps_view(v@) =~= script_tree_in_road_v());
    }
    v
}

/// Steps of the destination 90, Doris Digital: gives part 306 once
pub open spec fn script_doris_digital_v() -> Seq<StepV> {
    seq![
        branch_v(ConditionV::HasCache("#DorisVisited"@), "revisit"@),
        talk_v("90d002v0"@),
        talk_v("90d003v0"@),
        give_part_v(306),
        set_cache_v("#DorisVisited"@),
        delay_v(500),
        leave_v(),
        label_v("revisit"@),
        talk_v("90d004v0"@),
        delay_v(500),
        leave_v(),
    ]
}

/// Destination 90, Doris Digital: gives part 306 once
fn script_doris_digital() -> (r: Vec<ScriptStep>)
    ensures
        steps_view(r@) == script_doris_digital_v(),
{
    let mut v: Vec<ScriptStep> = Vec::new();
    v.push(ScriptStep::branch(Condition::HasCache(owned("#DorisVisited")), "revisit"));
    v.push(ScriptStep::talk("90d002v0"));
    v.push(ScriptStep::talk("90d003v0"));
    v.push(ScriptStep::give_part(306));
    v.push(ScriptStep::set_cache("#DorisVisited"));
    v.push(ScriptStep::delay(500));
    v.push(ScriptStep::leave());
    v.push(ScriptStep::label("revisit"));
    v.push(ScriptStep::talk("90d004v0"));
    v.push(ScriptStep::delay(500));
    v.push(ScriptStep::leave());
    proof {
        assert(steps_view(v@) =~= script_doris_digital_v());
    }
    v
}

proof fn lemma_script_doris_digital_jumps_forward()
    ensures
        jumps_forward(script_doris_digital_v()),
{
    reveal_strlit("revisit");
    let s = script_doris_digital_v();
    reveal_with_fuel(label_in, 12);
    assert(label_target(s, "revisit"@) == Some(7int));
    assert forall|i: int| 0 <= i < s.len() && #[trigger] s[i].jump_to is Some implies match label_target(s, s[i].jump_to->0) {
        Some(j) => j > i,
        None => true,
    } by {
        if i == 0 {
        } else if i == 1 {
        } else if i == 2 {
        } else if i == 3 {
        } else if i == 4 {
        } else if i == 5 {
        } else if i == 6 {
        } else if i == 7 {
        } else if i == 8 {
        } else if i == 9 {
        } else if i == 10 {
        }
    }
}

/// Steps of the destination 91, Luddel Abb: gives part 99 once
pub open spec fn script_luddel_abb_v() -> Seq<StepV> {
    seq![
        branch_v(ConditionV::HasCache("#LuddelVisited"@), "revisit"@),
        talk_v("91d002v0"@),
        talk_v("91d003v0"@),
        give_part_v(99),
        set_cache_v("#LuddelVisited"@),
        delay_v(500),
        leave_v(),
        label_v("revisit"@),
        talk_v("91d004v0"@),
        delay_v(500),
        leave_v(),
    ]
}

/// Destination 91, Luddel Abb: gives part 99 once
fn script_luddel_abb() -> (r: Vec<ScriptStep>)
    ensures
        steps_view(r@) == script_luddel_abb_v(),
{
    let mut v: Vec<ScriptStep> = Vec::new();
    v.push(ScriptStep::branch(Condition::HasCache(owned("#LuddelVisited")), "revisit"));
    v.push(ScriptStep::talk("91d002v0"));
    v.push(ScriptStep::talk("91d003v0"));
    v.push(ScriptStep::give_part(99));
    v.push(ScriptStep::set_cache("#LuddelVisited"));
    v.push(ScriptStep::delay(500));
    v.push(ScriptStep::leave());
    v.push(ScriptStep::label("revisit"));
    v.push(ScriptStep::talk("91d004v0"));
    v.push(ScriptStep::delay(500));
    v.push(ScriptStep::leave());
    proof {
        assert(steps_view(v@) =~= script_luddel_abb_v());
    }
    v
}

proof fn lemma_script_luddel_abb_jumps_forward()
    ensures
        jumps_forward(script_luddel_abb_v()),
{
    reveal_strlit("revisit");
    let s = script_luddel_abb_v();
    reveal_with_fuel(label_in, 12);
    assert(label_target(s, "revisit"@) == Some(7int));
    assert forall|i: int| 0 <= i < s.len() && #[trigger] s[i].jump_to is Some implies match label_target(s, s[i].jump_to->0) {
        Some(j) => j > i,
        None => true,
    } by {
        if i == 0 {
        } else if i == 1 {
        } else if i == 2 {
        } else if i == 3 {
        } else if i == 4 {
        } else if i == 5 {
        } else if i == 6 {
        } else if i == 7 {
        } else if i == 8 {
        } else if i == 9 {
        } else if i == 10 {
        }
    }
}

/// Steps of the destination 93, harbour: gives part 54 once
pub open spec fn script_ocean_v() -> Seq<StepV> {
    seq![
        branch_v(ConditionV::HasCache("#OceanVisited"@), "revisit"@),
        talk_v("93d002v0"@),
        give_part_v(54),
        set_cache_v("#OceanVisited"@),
        delay_v(500),
        leave_v(),
        label_v("revisit"@),
        talk_v("93d003v0"@),
        delay_v(500),
        leave_v(),
    ]
}

/// Destination 93, harbour: gives part 54 once
fn script_ocean() -> (r: Vec<ScriptStep>)
    ensures
        steps_view(r@) == script_ocean_v(),
{
    let mut v: Vec<ScriptStep> = Vec::new();
    v.push(ScriptStep::branch(Condition::HasCache(owned("#OceanVisited")), "revisit"));
    v.push(ScriptStep::talk("93d002v0"));
    v.push(ScriptStep::give_part(54));
    v.push(ScriptStep::set_cache("#OceanVisited"));
    v.push(ScriptStep::delay(500));
    v.push(ScriptStep::leave());
    v.push(ScriptStep::label("revisit"));
    v.push(ScriptStep::talk("93d003v0"));
    v.push(ScriptStep::delay(500));
    v.push(ScriptStep::leave());
    proof {
        assert(steps_view(v@) =~= script_ocean_v());
    }
    v
}

proof fn lemma_script_ocean_jumps_forward()
    ensures
        jumps_forward(script_ocean_v()),
{
    reveal_strlit("revisit");
    let s = script_ocean_v();
    reveal_with_fuel(label_in, 11);
    assert(label_target(s, "revisit"@) == Some(6int));
    assert forall|i: int| 0 <= i < s.len() && #[trigger] s[i].jump_to is Some implies match label_target(s, s[i].jump_to->0) {
        Some(j) => j > i,
        None => true,
    } by {
        if i == 0 {
        } else if i == 1 {
        } else if i == 2 {
        } else if i == 3 {
        } else if i == 4 {
        } else if i == 5 {
        } else if i == 6 {
        } else if i == 7 {
        } else if i == 8 {
        } else if i == 9 {
        }
    }
}

/// Steps of the figge drives up to the garage, talks with Mulle and leaves
pub open spec fn figge_garage_steps_v() -> Seq<StepV> {
    seq![
        play_sound_v("03e009v0"@),
        delay_v(500),
        talk_v("03d043v0"@),
        play_sound_v("02e016v0"@),
        actor_visible_v("figge"@, true),
        play_anim_v("figge"@, "enter"@),
        talk_actor_v("03d044v0"@, "figge"@),
        play_anim_v("mulleDefault"@, "lookLeft"@),
        set_talk_anims_v("mulleDefault"@, "talkPlayer"@, "lookLeft"@),
        talk_actor_v("03d045v0"@, "mulleDefault"@),
        talk_actor_v("03d046v0"@, "figge"@),
        play_anim_v("figge"@, "exit"@),
        actor_visible_v("figge"@, false),
        play_sound_v("02e015v0"@),
        delay_v(300),
        play_sound_v("03e010v0"@),
        delay_v(500),
        set_talk_anims_v("mulleDefault"@, "talkPlayer"@, "lookPlayer"@),
        play_anim_v("mulleDefault"@, "lookPlayer"@),
    ]
}

/// Figge drives up to the garage, talks with Mulle and leaves
fn figge_garage_steps() -> (r: Vec<ScriptStep>)
    ensures
        steps_view(r@) == figge_garage_steps_v(),
{
    let mut v: Vec<ScriptStep> = Vec::new();
    v.push(ScriptStep::play_sound("03e009v0"));
    v.push(ScriptStep::delay(500));
    v.push(ScriptStep::talk("03d043v0"));
    v.push(ScriptStep::play_sound("02e016v0"));
    v.push(ScriptStep::actor_visible("figge", true));
    v.push(ScriptStep::play_anim("figge", "enter"));
    v.push(ScriptStep::talk_with_actor("03d044v0", "figge"));
    v.push(ScriptStep::play_anim("mulleDefault", "lookLeft"));
    v.push(ScriptStep::set_talk_anims("mulleDefault", "talkPlayer", "lookLeft"));
    v.push(ScriptStep::talk_with_actor("03d045v0", "mulleDefault"));
    v.push(ScriptStep::talk_with_actor("03d046v0", "figge"));
    v.push(ScriptStep::play_anim("figge", "exit"));
    v.push(ScriptStep::actor_visible("figge", false));
    v.push(ScriptStep::play_sound("02e015v0"));
    v.push(ScriptStep::delay(300));
    v.push(ScriptStep::play_sound("03e010v0"));
    v.push(ScriptStep::delay(500));
    v.push(ScriptStep::set_talk_anims("mulleDefault", "talkPlayer", "lookPlayer"));
    v.push(ScriptStep::play_anim("mulleDefault", "lookPlayer"));
    proof {
        assert(steps_view(v@) =~= figge_garage_steps_v());
    }
    v
}


/// A jump lands on the last step that carries its label: that step has the
/// label, no later step has it, and a label that no step carries gives no
/// target.
pub proof fn law_jump_lands_on_last_label(s: Seq<StepV>, name: Seq<char>)
    ensures
        label_target(s, name) matches Some(k) ==> {
            &&& 0 <= k < s.len()
            &&& s[k].label == Some(name)
            &&& forall|j: int| k < j < s.len() ==> (#[trigger] s[j]).label != Some(name)
        },
        label_target(s, name) is None <==> forall|j: int| 0 <= j < s.len() ==> (#[trigger] s[j]).label != Some(name),
{
    lemma_label_in_last(s, name, s.len() as int);
}

proof fn lemma_label_in_last(s: Seq<StepV>, name: Seq<char>, n: int)
    requires
        0 <= n <= s.len(),
    ensures
        label_in(s, name, n) matches Some(k) ==> {
            &&& 0 <= k < n
            &&& s[k].label == Some(name)
            &&& forall|j: int| k < j < n ==> (#[trigger] s[j]).label != Some(name)
        },
        label_in(s, name, n) is None <==> forall|j: int| 0 <= j < n ==> (#[trigger] s[j]).label != Some(name),
    decreases n,
{
    if n > 0 {
        lemma_label_in_last(s, name, n - 1);
        let h = s[n - 1].label == Some(name);
        if label_in(s, name, n) is None {
            assert forall|j: int| 0 <= j < n implies (#[trigger] s[j]).label != Some(name) by {
                if j == n - 1 {
                    assert(!h);
                }
            }
        }
    }
}

/// A run stops either past the last step, waiting for nothing, or right
/// after a step whose condition held, that is no jump and that makes the
/// script wait: the run then waits for exactly what that step asks, and its
/// requests end with that step's request.
pub proof fn law_run_stops_at_waiting_step(s: Seq<StepV>, ctx: ContextV, i: int, fuel: nat)
    requires
        i >= 0,
        run_fuel(s, ctx, i, fuel) is Some,
    ensures
        ({
            let o = run_fuel(s, ctx, i, fuel).unwrap();
            ||| o.next >= s.len() && !out_waits(o) && o.wait_dialog is None && o.wait_anim is None && o.delay == 0
            ||| {
                let st = s[o.next - 1];
                &&& 0 < o.next <= s.len()
                &&& cond_holds(st.condition, ctx)
                &&& st.jump_to is None
                &&& out_waits(o)
                &&& o.wait_dialog == step_wait_dialog(st)
                &&& o.wait_anim == step_wait_anim(st)
                &&& o.delay == step_delay(st)
                &&& o.requests.len() >= action_requests(st.action).len()
                &&& o.requests.subrange(o.requests.len() - action_requests(st.action).len(), o.requests.len() as int)
                        == action_requests(st.action)
            }
        }),
    decreases fuel,
{
    if i < s.len() && fuel > 0 {
        let st = s[i];
        if !cond_holds(st.condition, ctx) {
            law_run_stops_at_waiting_step(s, ctx, i + 1, (fuel - 1) as nat);
        } else if st.jump_to is Some {
            match label_target(s, st.jump_to->0) {
                Some(j) => {
                    law_jump_lands_on_last_label(s, st.jump_to->0);
                    law_run_stops_at_waiting_step(s, ctx, j, (fuel - 1) as nat);
                },
                None => law_run_stops_at_waiting_step(s, ctx, i + 1, (fuel - 1) as nat),
            }
        } else {
            let reqs = action_requests(st.action);
            let here = RunOut {
                requests: reqs,
                next: i + 1,
                wait_dialog: step_wait_dialog(st),
                wait_anim: step_wait_anim(st),
                delay: step_delay(st),
            };
            if out_waits(here) {
                assert(reqs.subrange(0, reqs.len() as int) =~= reqs);
            } else {
                law_run_stops_at_waiting_step(s, ctx, i + 1, (fuel - 1) as nat);
                let rest = run_fuel(s, ctx, i + 1, (fuel - 1) as nat).unwrap();
                if out_waits(rest) {
                    let st2 = s[rest.next - 1];
                    let k = action_requests(st2.action).len();
                    let all = reqs + rest.requests;
                    assert(all.subrange(all.len() - k, all.len() as int)
                        =~= rest.requests.subrange(rest.requests.len() - k, rest.requests.len() as int));
                }
            }
        }
    }
}

/// A blocking talk step whose condition holds makes the run stop right after
/// it, asking for that dialog and waiting for it.
pub proof fn law_blocking_talk_waits(s: Seq<StepV>, ctx: ContextV, i: int, fuel: nat)
    requires
        0 <= i < s.len(),
        fuel > 0,
        cond_holds(s[i].condition, ctx),
        s[i].jump_to is None,
        s[i].blocking,
        s[i].action matches ActionV::Talk { .. },
    ensures
        run_fuel(s, ctx, i, fuel) matches Some(o) && o.next == i + 1
            && o.requests == seq![RequestV::Talk { audio_id: s[i].action->Talk_audio_id, actor_name: s[i].action->Talk_actor_name }]
            && o.wait_dialog == Some(s[i].action->Talk_audio_id),
{
}

} // verus!
