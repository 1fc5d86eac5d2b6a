//! Scenes of the game, the cast file each one loads, and the cutscene
//! played between two of them.

use vstd::prelude::*;

verus! {

/// Which scene is active
#[derive(Debug, Clone, Copy, PartialEq, Eq, Structural)]
pub enum Scene {
    Boot,
    Menu,
    Garage,
    Junkyard,
    Yard,
    World,
    CarGallery,
    CarShow,
    /// A destination on the world map (82-94)
    Destination(u8),
}

/// The cast file of a destination: "82.CXT" to "94.CXT", else the shared "00.CXT"
pub open spec fn destination_file(n: u8) -> Seq<char> {
    if n == 82 { "82.CXT"@ } else if n == 83 { "83.CXT"@ } else if n == 84 { "84.CXT"@ }
    else if n == 85 { "85.CXT"@ } else if n == 86 { "86.CXT"@ } else if n == 87 { "87.CXT"@ }
    else if n == 88 { "88.CXT"@ } else if n == 89 { "89.CXT"@ } else if n == 90 { "90.CXT"@ }
    else if n == 91 { "91.CXT"@ } else if n == 92 { "92.CXT"@ } else if n == 93 { "93.CXT"@ }
    else if n == 94 { "94.CXT"@ } else { "00.CXT"@ }
}

/// The Director file holding a scene's data
pub open spec fn scene_file(s: Scene) -> Seq<char> {
    match s {
        Scene::Boot => "18.DXR"@,
        Scene::Menu => "10.DXR"@,
        Scene::Garage => "03.DXR"@,
        Scene::Junkyard => "02.CXT"@,
        Scene::Yard => "04.CXT"@,
        Scene::World => "05.DXR"@,
        Scene::CarGallery => "06.DXR"@,
        Scene::CarShow => "08.CXT"@,
        Scene::Destination(n) => destination_file(n),
    }
}

impl Scene {
    /// Director file that contains data for this scene
    pub fn director_file(&self) -> (r: &'static str)
        ensures
            r@ == scene_file(*self),
    {
        match self {
            Scene::Boot => "18.DXR",
            Scene::Menu => "10.DXR",
            Scene::Garage => "03.DXR",
            Scene::Junkyard => "02.CXT",
            Scene::Yard => "04.CXT",
            Scene::World => "05.DXR",
            Scene::CarGallery => "06.DXR",
            Scene::CarShow => "08.CXT",
            Scene::Destination(n) => {
                let n = *n;
                if n == 82 { "82.CXT" } else if n == 83 { "83.CXT" } else if n == 84 { "84.CXT" }
                else if n == 85 { "85.CXT" } else if n == 86 { "86.CXT" } else if n == 87 { "87.CXT" }
                else if n == 88 { "88.CXT" } else if n == 89 { "89.CXT" } else if n == 90 { "90.CXT" }
                else if n == 91 { "91.CXT" } else if n == 92 { "92.CXT" } else if n == 93 { "93.CXT" }
                else if n == 94 { "94.CXT" } else { "00.CXT" }
            },
        }
    }
}

/// A cutscene in the shared cast: a named member or a member number
#[derive(Debug, Clone, Copy)]
pub enum CutsceneMember {
    /// Named member (e.g. "00b011v0")
    Named(&'static str),
    /// Member number in the shared cast
    Number(u32),
}

/// Abstract cutscene member
pub enum CutsceneV {
    Named(Seq<char>),
    Number(u32),
}

pub open spec fn cutscene_v(c: Option<CutsceneMember>) -> Option<CutsceneV> {
    match c {
        Some(CutsceneMember::Named(n)) => Some(CutsceneV::Named(n@)),
        Some(CutsceneMember::Number(k)) => Some(CutsceneV::Number(k)),
        None => None,
    }
}

/// The cutscene played when going from one scene to another; some depend
/// on whether the player has a road-worthy car
pub open spec fn cutscene_for(from: Scene, to: Scene, has_car: bool) -> Option<CutsceneV> {
    if from == Scene::Menu && to == Scene::Garage {
        Some(CutsceneV::Named("00b011v0"@))
    } else if from == Scene::Yard && to == Scene::Garage {
        Some(CutsceneV::Named(if has_car { "00b015v0"@ } else { "00b011v0"@ }))
    } else if from == Scene::Yard && to == Scene::World {
        Some(CutsceneV::Named("00b008v0"@))
    } else if from == Scene::World {
        Some(CutsceneV::Named("00b008v0"@))
    } else if from == Scene::Garage && to == Scene::Junkyard {
        Some(CutsceneV::Number(70))
    } else if from == Scene::Junkyard && to == Scene::Garage {
        Some(CutsceneV::Number(71))
    } else if from == Scene::Garage && to == Scene::Yard {
        Some(CutsceneV::Number(if has_car { 67 } else { 68 }))
    } else {
        None
    }
}

/// The shared-cast cutscene member for a scene transition
pub fn transition_cutscene(from: &Scene, to: &Scene, has_car: bool) -> (r: Option<CutsceneMember>)
    ensures
        cutscene_v(r) == cutscene_for(*from, *to, has_car),
{
    match (from, to) {
        (Scene::Menu, Scene::Garage) => Some(CutsceneMember::Named("00b011v0")),
        (Scene::Yard, Scene::Garage) => {
            if has_car {
                Some(CutsceneMember::Named("00b015v0"))
            } else {
                Some(CutsceneMember::Named("00b011v0"))
            }
        },
        (Scene::Yard, Scene::World) => Some(CutsceneMember::Named("00b008v0")),
        (Scene::World, _) => Some(CutsceneMember::Named("00b008v0")),
        (Scene::Garage, Scene::Junkyard) => Some(CutsceneMember::Number(70)),
        (Scene::Junkyard, Scene::Garage) => Some(CutsceneMember::Number(71)),
        (Scene::Garage, Scene::Yard) => {
            if has_car {
                Some(CutsceneMember::Number(67))
            } else {
                Some(CutsceneMember::Number(68))
            }
        },
        _ => None,
    }
}

} // verus!
