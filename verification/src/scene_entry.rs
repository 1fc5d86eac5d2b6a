//! What entering a scene does to the save state: Figge's visit to the
//! garage, the stored parts a scene shows, and the mission delivered in the
//! yard.

use vstd::prelude::*;
use vstd::string::StringExecFns;
use crate::dialog::{MissionDB, MissionDelivery};
use crate::game_rules::figge_parts;
use crate::save::{SaveManager, SaveState, UserView, gifts, lemma_map_active};
use crate::scene::Scene;
use crate::text::{decimal, owned, parse_u32_spec, push_decimal};

verus! {

/// The story flag that brings Figge to the garage
pub open spec fn figge_flag() -> Seq<char> {
    "#FiggeIsComing"@
}

/// The stored parts a scene shows when it is entered
#[derive(Debug, Clone, Copy, PartialEq, Eq, Structural)]
pub enum SpawnFrom {
    /// The loose parts on the garage floor
    ShopFloor,
    /// The parts in the yard
    Yard,
    /// The parts of a junk pile
    Pile(u8),
    /// None
    Nothing,
}

/// A mission delivered on entering the yard
pub struct MissionNotice {
    pub mission_id: u32,
    /// The sound that announces it
    pub sound: String,
    /// For a mail mission with a picture: the picture's member name and the
    /// name of the sprite that shows it
    pub mail: Option<(String, String)>,
}

/// What entering a scene asks of the game besides the save state changes
pub struct SceneEntry {
    /// Figge came: the parts he put in the yard, in order
    pub figge_parts: Option<Vec<u32>>,
    /// Stored parts to show
    pub spawn: SpawnFrom,
    /// The mission delivered
    pub mission: Option<MissionNotice>,
}

/// The stored parts shown on entering `scene` with the active profile `u`
pub open spec fn spawn_of(scene: Scene, u: Option<UserView>) -> SpawnFrom {
    match scene {
        Scene::Garage => SpawnFrom::ShopFloor,
        Scene::Yard => SpawnFrom::Yard,
        Scene::Junkyard => SpawnFrom::Pile(match u { Some(v) => v.my_last_pile, None => 1u8 }),
        _ => SpawnFrom::Nothing,
    }
}

/// "mail_mission_" and the mission id
pub open spec fn mail_sprite_name(mission_id: u32) -> Seq<char> {
    "mail_mission_"@ + decimal(mission_id as nat)
}

/// Whether Figge comes on entering `scene` from state `st`: the garage, with
/// his flag owned by the active player
pub open spec fn figge_comes(st: SaveState, scene: Scene) -> bool {
    scene == Scene::Garage && (st.active_user() matches Some(u) && u.own_stuff.contains(figge_flag()))
}

/// Whether a mission is delivered on entering `scene` from state `st`: the
/// yard, with a mission given to the active player
pub open spec fn mission_due(st: SaveState, scene: Scene) -> bool {
    scene == Scene::Yard && (st.active_user() matches Some(u) && u.given_missions.len() > 0)
}

/// Enter a scene. In the garage, when the active player owns
/// "#FiggeIsComing", the flag is removed and Figge puts up to three of his
/// parts in the yard. The garage shows its floor parts, the yard its parts
/// and the junkyard the last visited pile. In the yard the first given
/// mission is taken; when its id reads as a known mission, its sound is
/// played, and a mail mission with a picture shows that picture.
pub fn enter_scene(save: &mut SaveManager, scene: Scene, missions: &MissionDB) -> (r: SceneEntry)
    requires
        figge_comes(old(save)@, scene) ==> (old(save)@.active_user().unwrap().junk.yard.len() + 3) / 5 * 60 + 200 <= i32::MAX,
    ensures
        r.spawn == spawn_of(scene, old(save)@.active_user()),
        figge_comes(old(save)@, scene) ==> {
            let u = old(save)@.active_user().unwrap().remove_stuff(figge_flag());
            &&& final(save)@ == old(save)@.map_active(|v: UserView| v.remove_stuff(figge_flag()))
                    .map_active(|v: UserView| gifts(v, figge_parts()).0)
            &&& r.figge_parts matches Some(p) && p@ == gifts(u, figge_parts()).1
        },
        !figge_comes(old(save)@, scene) ==> r.figge_parts is None,
        mission_due(old(save)@, scene) ==> {
            let id = parse_u32_spec(old(save)@.active_user().unwrap().given_missions[0]);
            &&& final(save)@ == old(save)@.map_active(|v: UserView| v.pop_given())
            &&& match id {
                Some(mid) => if missions.missions@.contains_key(mid) {
                    let m = missions.missions@[mid];
                    r.mission matches Some(n) && n.mission_id == mid && n.sound@ == m.sound@
                        && (match n.mail {
                            Some((img, name)) => m.delivery == MissionDelivery::Mail && m.image@.len() > 0
                                && img@ == m.image@ && name@ == mail_sprite_name(mid),
                            None => !(m.delivery == MissionDelivery::Mail && m.image@.len() > 0),
                        })
                } else {
                    r.mission is None
                },
                None => r.mission is None,
            }
        },
        !mission_due(old(save)@, scene) ==> r.mission is None,
        !figge_comes(old(save)@, scene) && !mission_due(old(save)@, scene) ==> final(save)@ == old(save)@,
{
    let spawn = match scene {
        Scene::Garage => SpawnFrom::ShopFloor,
        Scene::Yard => SpawnFrom::Yard,
        Scene::Junkyard => SpawnFrom::Pile(save.current_pile_index()),
        _ => SpawnFrom::Nothing,
    };
    let mut figge_parts_given: Option<Vec<u32>> = None;
    let mut mission: Option<MissionNotice> = None;
    if scene == Scene::Garage && save.has_stuff("#FiggeIsComing") {
        proof {
            reveal_strlit("#FiggeIsComing");
            lemma_map_active(save@, |v: UserView| v.remove_stuff(figge_flag()));
        }
        save.remove_stuff("#FiggeIsComing");
        figge_parts_given = Some(save.give_figge_parts());
    } else if scene == Scene::Yard && save.has_pending_missions() {
        if let Some(mid) = save.pop_pending_mission() {
            if let Some(m) = missions.get(mid) {
                let mail = if m.delivery == MissionDelivery::Mail && m.image.unicode_len() > 0 {
                    let mut name = owned("mail_mission_");
                    push_decimal(&mut name, mid);
                    proof {
                        reveal_strlit("mail_mission_");
                    }
                    Some((m.image.clone(), name))
                } else {
                    None
                };
                mission = Some(MissionNotice { mission_id: mid, sound: m.sound.clone(), mail });
            }
        }
    }
    proof {
        reveal_strlit("#FiggeIsComing");
    }
    SceneEntry { figge_parts: figge_parts_given, spawn, mission }
}

} // verus!
