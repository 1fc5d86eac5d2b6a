//! Carrying out what a running scene script asks for. Requests that change
//! the scene's actors, the quest flags or the save are done here; speech,
//! sound effects, the drive car and leaving the scene are handed back to
//! the caller, one output per request. Dialog and animation events go back
//! to the scene and its script.

use vstd::prelude::*;
use crate::dialog::{DialogEvent, DialogEventV, QuestState};
use crate::save::{CarView, SaveManager, UserView};
use crate::scene_handler::{SceneHandler, actors_view, cue_routed, same_but_actors, update_actor};
use crate::scene_script::{RequestV, SceneScript, ScriptRequest};
use crate::scenes::{ActorV, SceneEvent};
use crate::text::{clone_strings, drop_flag, lemma_holds_str_view, strings_view};

verus! {

/// What a script request leaves to the caller
pub enum ScriptOutput {
    /// Start the dialog with this audio id (subtitles and speech)
    Dialog(String),
    /// Play a sound effect
    Sound(String),
    /// Fill the drive car's tank
    Refuel,
    /// Save the quest state and leave to the world map
    Leave,
    /// Nothing is left to do
    Done,
}

/// The flags with `f` added at the end unless already there
pub open spec fn with_flag(l: Seq<Seq<char>>, f: Seq<char>) -> Seq<Seq<char>> {
    if l.contains(f) { l } else { l.push(f) }
}

/// The quest flags are the same
pub open spec fn same_quest(a: QuestState, b: QuestState) -> bool {
    a.cache == b.cache && a.permanent == b.permanent
}

/// Can the active player's yard take one more part at a spot that fits in
/// 32 bits?
pub open spec fn yard_has_room(save: SaveManager) -> bool {
    match save@.active_user() {
        Some(u) => (u.junk.yard.len() / 5) * 60 + 200 <= i32::MAX,
        None => true,
    }
}

/// The actors after a request that changes them (unchanged for others)
pub open spec fn actors_after(req: RequestV, s: Seq<ActorV>) -> Seq<ActorV> {
    match req {
        RequestV::PlayAnim { actor_name, anim_name } => update_actor(s, actor_name, |a: ActorV| a.played(anim_name)),
        RequestV::SetActorVisible { actor_name, visible } => update_actor(s, actor_name, |a: ActorV| ActorV { visible: visible, ..a }),
        RequestV::SetTalkAnims { actor_name, talk_anim, silence_anim } =>
            update_actor(s, actor_name, |a: ActorV| a.with_talk_anims(talk_anim, silence_anim)),
        _ => s,
    }
}

/// Carry out one script request: actor requests change the scene, flag
/// requests the quest state (an owned item also the save), a given part goes
/// to the yard; a dialog makes its actor the talking one unless dialogs are
/// skipped (then nothing happens at all); speech, sounds, refuelling and
/// leaving are returned to the caller
pub fn apply_request(
    req: ScriptRequest,
    skip_dialogs: bool,
    handler: &mut SceneHandler,
    quest: &mut QuestState,
    save: &mut SaveManager,
) -> (r: ScriptOutput)
    requires
        req@ is GivePart ==> yard_has_room(*old(save)),
    ensures
        match req@ {
            RequestV::Talk { audio_id, actor_name } => {
                &&& same_quest(*final(quest), *old(quest))
                &&& *final(save) == *old(save)
                &&& if skip_dialogs {
                    r is Done && *final(handler) == *old(handler)
                } else {
                    &&& r matches ScriptOutput::Dialog(a) && a@ == audio_id
                    &&& match actor_name {
                        Some(n) => final(handler).talking_actor matches Some(t) && t@ == n
                            && actors_view(final(handler).actors@)
                                == update_actor(actors_view(old(handler).actors@), n, |a: ActorV| a.talking())
                            && same_but_actors(*final(handler), *old(handler)),
                        None => *final(handler) == *old(handler),
                    }
                }
            },
            RequestV::PlayAnim { .. } | RequestV::SetActorVisible { .. } | RequestV::SetTalkAnims { .. } => {
                &&& r is Done
                &&& actors_view(final(handler).actors@) == actors_after(req@, actors_view(old(handler).actors@))
                &&& final(handler).talking_actor == old(handler).talking_actor
                &&& same_but_actors(*final(handler), *old(handler))
                &&& same_quest(*final(quest), *old(quest))
                &&& *final(save) == *old(save)
            },
            RequestV::SetCache(f) => {
                &&& r is Done
                &&& strings_view(final(quest).cache@) == with_flag(strings_view(old(quest).cache@), f)
                &&& final(quest).permanent == old(quest).permanent
                &&& *final(handler) == *old(handler)
                &&& *final(save) == *old(save)
            },
            RequestV::RemoveCache(f) => {
                &&& r is Done
                &&& strings_view(final(quest).cache@) == drop_flag(strings_view(old(quest).cache@), f)
                &&& final(quest).permanent == old(quest).permanent
                &&& *final(handler) == *old(handler)
                &&& *final(save) == *old(save)
            },
            RequestV::SetStuff(f) => {
                &&& r is Done
                &&& strings_view(final(quest).permanent@) == with_flag(strings_view(old(quest).permanent@), f)
                &&& final(quest).cache == old(quest).cache
                &&& final(save)@ == old(save)@.map_active(|u: UserView| u.add_stuff(f))
                &&& *final(handler) == *old(handler)
            },
            RequestV::GivePart(p) => {
                &&& r is Done
                &&& final(save)@ == old(save)@.map_active(|u: UserView| u.add_yard_part(p))
                &&& same_quest(*final(quest), *old(quest))
                &&& *final(handler) == *old(handler)
            },
            RequestV::Refuel => {
                &&& r is Refuel
                &&& *final(handler) == *old(handler) && same_quest(*final(quest), *old(quest)) && *final(save) == *old(save)
            },
            RequestV::PlaySound(s) => {
                &&& r matches ScriptOutput::Sound(t) && t@ == s
                &&& *final(handler) == *old(handler) && same_quest(*final(quest), *old(quest)) && *final(save) == *old(save)
            },
            RequestV::LeaveToWorld => {
                &&& r is Leave
                &&& *final(handler) == *old(handler) && same_quest(*final(quest), *old(quest)) && *final(save) == *old(save)
            },
        },
{
    match req {
        ScriptRequest::Talk { audio_id, actor_name } => {
            if skip_dialogs {
                return ScriptOutput::Done;
            }
            if let Some(n) = actor_name {
                handler.set_talking_actor(n.as_str());
            }
            ScriptOutput::Dialog(audio_id)
        },
        ScriptRequest::PlayAnim { actor_name, anim_name } => {
            handler.play_actor_anim(actor_name.as_str(), anim_name.as_str());
            ScriptOutput::Done
        },
        ScriptRequest::SetCache(flag) => {
            proof {
                lemma_holds_str_view(quest.cache@, flag@);
            }
            quest.add_cache(flag.as_str());
            ScriptOutput::Done
        },
        ScriptRequest::RemoveCache(flag) => {
            quest.remove_cache(flag.as_str());
            ScriptOutput::Done
        },
        ScriptRequest::SetStuff(flag) => {
            proof {
                lemma_holds_str_view(quest.permanent@, flag@);
            }
            quest.add_permanent(flag.as_str());
            save.add_stuff(flag.as_str());
            ScriptOutput::Done
        },
        ScriptRequest::GivePart(part_id) => {
            save.add_yard_part(part_id);
            ScriptOutput::Done
        },
        ScriptRequest::Refuel => ScriptOutput::Refuel,
        ScriptRequest::SetActorVisible { actor_name, visible } => {
            handler.set_actor_visible(actor_name.as_str(), visible);
            ScriptOutput::Done
        },
        ScriptRequest::SetTalkAnims { actor_name, talk_anim, silence_anim } => {
            handler.set_actor_talk_anims(actor_name.as_str(), talk_anim.as_str(), silence_anim.as_str());
            ScriptOutput::Done
        },
        ScriptRequest::PlaySound(sound_id) => ScriptOutput::Sound(sound_id),
        ScriptRequest::LeaveToWorld => ScriptOutput::Leave,
    }
}

/// A dialog event: a finished dialog stops the talking actor and lets a
/// script waiting for it go on; a cue point goes to the talking actor; the
/// end of the queue changes nothing
pub fn on_dialog_event(event: &DialogEvent, handler: &mut SceneHandler, script: &mut Option<SceneScript>)
    ensures
        match event@ {
            DialogEventV::DialogFinished(audio_id) => {
                &&& final(handler).talking_actor is None
                &&& actors_view(final(handler).actors@) == match old(handler).talking_actor {
                    Some(n) => update_actor(actors_view(old(handler).actors@), n@, |a: ActorV| a.silent()),
                    None => actors_view(old(handler).actors@),
                }
                &&& same_but_actors(*final(handler), *old(handler))
                &&& match *old(script) {
                    Some(s) => *final(script) == Some(SceneScript {
                        waiting_for_dialog: match s.waiting_for_dialog {
                            Some(w) => if w@ == audio_id { None } else { Some(w) },
                            None => None,
                        },
                        ..s
                    }),
                    None => *final(script) == None::<SceneScript>,
                }
            },
            DialogEventV::CuePoint(_, cue) => {
                &&& final(handler).talking_actor == old(handler).talking_actor
                &&& actors_view(final(handler).actors@) == match old(handler).talking_actor {
                    Some(n) => cue_routed(actors_view(old(handler).actors@), n@, cue),
                    None => actors_view(old(handler).actors@),
                }
                &&& same_but_actors(*final(handler), *old(handler))
                &&& *final(script) == *old(script)
            },
            DialogEventV::QueueEmpty => *final(handler) == *old(handler) && *final(script) == *old(script),
        },
{
    match event {
        DialogEvent::DialogFinished { audio_id } => {
            handler.stop_talking_actor();
            if let Some(s) = script {
                s.on_dialog_finished(audio_id.as_str());
            }
        },
        DialogEvent::CuePoint { audio_id: _, cue_name } => {
            handler.handle_cue_point(cue_name.as_str());
        },
        DialogEvent::QueueEmpty => {},
    }
}

/// A scene event: a finished animation lets a script waiting for that
/// actor go on
pub fn on_scene_event(event: &SceneEvent, script: &mut Option<SceneScript>)
    ensures
        match *event {
            SceneEvent::ActorAnimFinished { actor_name, anim_name: _ } => match *old(script) {
                Some(s) => *final(script) == Some(SceneScript {
                    waiting_for_anim: match s.waiting_for_anim {
                        Some(w) => if w@ == actor_name@ { None } else { Some(w) },
                        None => None,
                    },
                    ..s
                }),
                None => *final(script) == None::<SceneScript>,
            },
        },
{
    match event {
        SceneEvent::ActorAnimFinished { actor_name, anim_name: _ } => {
            if let Some(s) = script {
                s.on_anim_finished(actor_name.as_str());
            }
        },
    }
}

/// The player's save with the quest flags copied in: the cache flags go
/// with the car, the permanent flags are the owned items
pub open spec fn with_quest(u: UserView, cache: Seq<Seq<char>>, stuff: Seq<Seq<char>>) -> UserView {
    UserView { car: CarView { cache_list: cache, ..u.car }, own_stuff: stuff, ..u }
}

/// Copy the quest flags into the active player's save (writing the save
/// file is left to the caller)
pub fn save_quest_state(quest: &QuestState, save: &mut SaveManager)
    ensures
        final(save)@ == old(save)@.map_active(
            |u: UserView| with_quest(u, strings_view(quest.cache@), strings_view(quest.permanent@)),
        ),
{
    match save.active_mut() {
        Some(u) => {
            u.car.cache_list = clone_strings(quest.cache_list());
            u.own_stuff = clone_strings(quest.permanent_list());
        },
        None => {},
    }
}

} // verus!
