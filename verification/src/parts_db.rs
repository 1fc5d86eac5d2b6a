//! Parts database: every car part with its properties, morph variants and
//! attachment points, and the aggregation of part properties into car
//! properties.

use vstd::prelude::*;
use std::collections::HashMap;
use crate::text::{contains_str, contains_u32, holds_str};

verus! {

broadcast use vstd::std_specs::hash::group_hash_axioms;

/// Gameplay-relevant properties of a part
pub struct PartProperties {
    pub weight: i32,
    pub speed: i32,
    pub brake: i32,
    pub durability: i32,
    pub grip: i32,
    pub steering: i32,
    pub acceleration: i32,
    pub strength: i32,
    pub fuel_consumption: i32,
    pub fuel_volume: i32,
    pub electric_consumption: i32,
    pub electric_volume: i32,
    pub comfort: i32,
    pub funny_factor: i32,
    pub horn: i32,
    pub horn_type: i32,
    pub exhaust_pipe: i32,
    pub lamps: i32,
    pub pedals: i32,
    pub load_capacity: i32,
    pub engine_type: i32,
    pub color: i32,
}

/// The all-zero part properties
pub open spec fn zero_part_props() -> PartProperties {
    PartProperties {
        weight: 0,
        speed: 0,
        brake: 0,
        durability: 0,
        grip: 0,
        steering: 0,
        acceleration: 0,
        strength: 0,
        fuel_consumption: 0,
        fuel_volume: 0,
        electric_consumption: 0,
        electric_volume: 0,
        comfort: 0,
        funny_factor: 0,
        horn: 0,
        horn_type: 0,
        exhaust_pipe: 0,
        lamps: 0,
        pedals: 0,
        load_capacity: 0,
        engine_type: 0,
        color: 0,
    }
}

impl Default for PartProperties {
    /// All properties zero
    fn default() -> (r: Self)
        ensures
            r == zero_part_props(),
    {
        PartProperties {
            weight: 0,
            speed: 0,
            brake: 0,
            durability: 0,
            grip: 0,
            steering: 0,
            acceleration: 0,
            strength: 0,
            fuel_consumption: 0,
            fuel_volume: 0,
            electric_consumption: 0,
            electric_volume: 0,
            comfort: 0,
            funny_factor: 0,
            horn: 0,
            horn_type: 0,
            exhaust_pipe: 0,
            lamps: 0,
            pedals: 0,
            load_capacity: 0,
            engine_type: 0,
            color: 0,
        }
    }
}

impl PartProperties {
    /// A copy of these properties
    pub fn duplicate(&self) -> (r: Self)
        ensures
            r == *self,
    {
        PartProperties {
            weight: self.weight,
            speed: self.speed,
            brake: self.brake,
            durability: self.durability,
            grip: self.grip,
            steering: self.steering,
            acceleration: self.acceleration,
            strength: self.strength,
            fuel_consumption: self.fuel_consumption,
            fuel_volume: self.fuel_volume,
            electric_consumption: self.electric_consumption,
            electric_volume: self.electric_volume,
            comfort: self.comfort,
            funny_factor: self.funny_factor,
            horn: self.horn,
            horn_type: self.horn_type,
            exhaust_pipe: self.exhaust_pipe,
            lamps: self.lamps,
            pedals: self.pedals,
            load_capacity: self.load_capacity,
            engine_type: self.engine_type,
            color: self.color,
        }
    }
}

/// Aggregated car properties (computed from all placed parts)
pub struct CarProperties {
    // Summed
    pub weight: i32,
    pub brake: i32,
    pub grip: i32,
    pub strength: i32,
    pub fuel_consumption: i32,
    pub fuel_volume: i32,
    pub electric_consumption: i32,
    pub electric_volume: i32,
    pub comfort: i32,
    pub funny_factor: i32,
    pub load_capacity: i32,
    // Maximum over the parts
    pub durability: i32,
    pub steering: i32,
    pub acceleration: i32,
    pub speed: i32,
    pub engine_type: i32,
    pub horn_type: i32,
    // Flags: the largest positive value, or 0
    pub horn: i32,
    pub exhaust_pipe: i32,
    pub lamps: i32,
    pub pedals: i32,
    /// Number of parts with grip > 0 (= tire count)
    pub tire_count: i32,
}

/// The car properties of a car with no parts
pub open spec fn zero_car_props() -> CarProperties {
    CarProperties {
        weight: 0,
        brake: 0,
        grip: 0,
        strength: 0,
        fuel_consumption: 0,
        fuel_volume: 0,
        electric_consumption: 0,
        electric_volume: 0,
        comfort: 0,
        funny_factor: 0,
        load_capacity: 0,
        durability: 0,
        steering: 0,
        acceleration: 0,
        speed: 0,
        engine_type: 0,
        horn_type: 0,
        horn: 0,
        exhaust_pipe: 0,
        lamps: 0,
        pedals: 0,
        tire_count: 0,
    }
}

impl Default for CarProperties {
    /// All properties zero
    fn default() -> (r: Self)
        ensures
            r == zero_car_props(),
    {
        CarProperties {
            weight: 0,
            brake: 0,
            grip: 0,
            strength: 0,
            fuel_consumption: 0,
            fuel_volume: 0,
            electric_consumption: 0,
            electric_volume: 0,
            comfort: 0,
            funny_factor: 0,
            load_capacity: 0,
            durability: 0,
            steering: 0,
            acceleration: 0,
            speed: 0,
            engine_type: 0,
            horn_type: 0,
            horn: 0,
            exhaust_pipe: 0,
            lamps: 0,
            pedals: 0,
            tire_count: 0,
        }
    }
}

/// The larger of two values
pub open spec fn max_i32(a: i32, b: i32) -> i32 {
    if a >= b { a } else { b }
}

/// Adding a part's properties to the car stays within `i32`
pub open spec fn sums_fit(c: CarProperties, p: PartProperties) -> bool {
    &&& i32::MIN <= c.weight + p.weight <= i32::MAX
    &&& i32::MIN <= c.brake + p.brake <= i32::MAX
    &&& i32::MIN <= c.grip + p.grip <= i32::MAX
    &&& i32::MIN <= c.strength + p.strength <= i32::MAX
    &&& i32::MIN <= c.fuel_consumption + p.fuel_consumption <= i32::MAX
    &&& i32::MIN <= c.fuel_volume + p.fuel_volume <= i32::MAX
    &&& i32::MIN <= c.electric_consumption + p.electric_consumption <= i32::MAX
    &&& i32::MIN <= c.electric_volume + p.electric_volume <= i32::MAX
    &&& i32::MIN <= c.comfort + p.comfort <= i32::MAX
    &&& i32::MIN <= c.funny_factor + p.funny_factor <= i32::MAX
    &&& i32::MIN <= c.load_capacity + p.load_capacity <= i32::MAX
    &&& (p.grip > 0 ==> c.tire_count + 1 <= i32::MAX)
}

/// The car properties after adding one part: summed properties add up,
/// maximum properties take the larger value, flags take the larger value
/// when the part's flag is positive, and a part with grip counts as a tire.
pub open spec fn add_part_props(c: CarProperties, p: PartProperties) -> CarProperties {
    CarProperties {
        weight: (c.weight + p.weight) as i32,
        brake: (c.brake + p.brake) as i32,
        grip: (c.grip + p.grip) as i32,
        strength: (c.strength + p.strength) as i32,
        fuel_consumption: (c.fuel_consumption + p.fuel_consumption) as i32,
        fuel_volume: (c.fuel_volume + p.fuel_volume) as i32,
        electric_consumption: (c.electric_consumption + p.electric_consumption) as i32,
        electric_volume: (c.electric_volume + p.electric_volume) as i32,
        comfort: (c.comfort + p.comfort) as i32,
        funny_factor: (c.funny_factor + p.funny_factor) as i32,
        load_capacity: (c.load_capacity + p.load_capacity) as i32,
        durability: max_i32(c.durability, p.durability),
        steering: max_i32(c.steering, p.steering),
        acceleration: max_i32(c.acceleration, p.acceleration),
        speed: max_i32(c.speed, p.speed),
        engine_type: max_i32(c.engine_type, p.engine_type),
        horn_type: max_i32(c.horn_type, p.horn_type),
        horn: if p.horn > 0 { max_i32(c.horn, p.horn) } else { c.horn },
        exhaust_pipe: if p.exhaust_pipe > 0 { max_i32(c.exhaust_pipe, p.exhaust_pipe) } else { c.exhaust_pipe },
        lamps: if p.lamps > 0 { max_i32(c.lamps, p.lamps) } else { c.lamps },
        pedals: if p.pedals > 0 { max_i32(c.pedals, p.pedals) } else { c.pedals },
        tire_count: if p.grip > 0 { (c.tire_count + 1) as i32 } else { c.tire_count },
    }
}

fn add_part(c: &mut CarProperties, p: &PartProperties)
    requires
        sums_fit(*old(c), *p),
    ensures
        *final(c) == add_part_props(*old(c), *p),
{
    c.weight = c.weight + p.weight;
    c.brake = c.brake + p.brake;
    c.grip = c.grip + p.grip;
    c.strength = c.strength + p.strength;
    c.fuel_consumption = c.fuel_consumption + p.fuel_consumption;
    c.fuel_volume = c.fuel_volume + p.fuel_volume;
    c.electric_consumption = c.electric_consumption + p.electric_consumption;
    c.electric_volume = c.electric_volume + p.electric_volume;
    c.comfort = c.comfort + p.comfort;
    c.funny_factor = c.funny_factor + p.funny_factor;
    c.load_capacity = c.load_capacity + p.load_capacity;
    if p.durability > c.durability {
        c.durability = p.durability;
    }
    if p.steering > c.steering {
        c.steering = p.steering;
    }
    if p.acceleration > c.acceleration {
        c.acceleration = p.acceleration;
    }
    if p.speed > c.speed {
        c.speed = p.speed;
    }
    if p.engine_type > c.engine_type {
        c.engine_type = p.engine_type;
    }
    if p.horn_type > c.horn_type {
        c.horn_type = p.horn_type;
    }
    if p.horn > 0 && p.horn > c.horn {
        c.horn = p.horn;
    }
    if p.exhaust_pipe > 0 && p.exhaust_pipe > c.exhaust_pipe {
        c.exhaust_pipe = p.exhaust_pipe;
    }
    if p.lamps > 0 && p.lamps > c.lamps {
        c.lamps = p.lamps;
    }
    if p.pedals > 0 && p.pedals > c.pedals {
        c.pedals = p.pedals;
    }
    if p.grip > 0 {
        c.tire_count = c.tire_count + 1;
    }
}

/// An attachment point that a part provides
pub struct AttachmentPoint {
    /// e.g. "#a1", "#b3"
    pub id: String,
    /// Sort index for layering: (foreground z, background z)
    pub sort_index: (i32, i32),
    /// Pixel offset relative to the part origin
    pub offset: (i32, i32),
}

/// A single car part definition
pub struct PartData {
    pub part_id: u32,
    /// 0 for a standalone part, else the parent of this morph variant
    pub master: u32,
    /// Variant ids this part can morph into
    pub morphs_to: Vec<u32>,
    pub description: String,
    pub junk_view: String,
    pub use_view: String,
    pub use_view2: String,
    /// Pixel offset when placed on the car
    pub offset: (i32, i32),
    pub properties: PartProperties,
    /// Attachment points this part needs
    pub requires: Vec<String>,
    /// Attachment points this part blocks
    pub covers: Vec<String>,
    /// Attachment points this part provides
    pub attachment_points: Vec<AttachmentPoint>,
}

impl PartData {
    /// Is this part a morph parent (has variants but no own use view)?
    pub fn is_morph_parent(&self) -> (r: bool)
        ensures
            r == (self.morphs_to@.len() > 0 && self.use_view@.len() == 0),
    {
        self.morphs_to.len() > 0 && self.use_view.as_str().unicode_len() == 0
    }

    /// Is this a morph child (placed variant of a parent)?
    pub fn is_morph_child(&self) -> (r: bool)
        ensures
            r == (self.master != 0),
    {
        self.master != 0
    }

    /// Can this part be picked up from the junkyard (has a junk view)?
    pub fn has_junk_view(&self) -> (r: bool)
        ensures
            r == (self.junk_view@.len() > 0),
    {
        self.junk_view.as_str().unicode_len() > 0
    }

    /// Can this part be placed on a car (has a use view)?
    pub fn has_use_view(&self) -> (r: bool)
        ensures
            r == (self.use_view@.len() > 0),
    {
        self.use_view.as_str().unicode_len() > 0
    }
}

/// Part category for junk distribution
#[derive(Debug, Clone, Copy, PartialEq, Eq, Structural)]
pub enum PartCategory {
    JunkMan,
    Destination,
    Random,
}

/// Strictly increasing
pub open spec fn sorted_strict(s: Seq<u32>) -> bool {
    forall|i: int, j: int| 0 <= i < j < s.len() ==> s[i] < s[j]
}

/// Insert `id` into a strictly increasing list that lacks it
fn sorted_insert(ids: &mut Vec<u32>, id: u32)
    requires
        sorted_strict(old(ids)@),
        !old(ids)@.contains(id),
    ensures
        sorted_strict(final(ids)@),
        forall|x: u32| #[trigger] final(ids)@.contains(x) <==> old(ids)@.contains(x) || x == id,
{
    let mut pos: usize = 0;
    while pos < ids.len() && ids[pos] < id
        invariant
            pos <= ids@.len(),
            forall|j: int| 0 <= j < pos ==> ids@[j] < id,
        decreases ids@.len() - pos,
    {
        pos = pos + 1;
    }
    let ghost o = ids@;
    proof {
        if pos < o.len() {
            assert(o[pos as int] != id);
            assert(o[pos as int] > id);
        }
    }
    ids.insert(pos, id);
    proof {
        let n = ids@;
        assert(n =~= o.insert(pos as int, id));
        assert forall|i: int, j: int| 0 <= i < j < n.len() implies n[i] < n[j] by {
            if j < pos {
            } else if j == pos {
            } else if i < pos {
                assert(o[i] < o[pos as int] || pos == o.len() || o[i] < id);
            } else if i == pos {
                assert(o[pos as int] <= o[j - 1]);
            } else {
            }
        }
        assert forall|x: u32| #[trigger] n.contains(x) <==> o.contains(x) || x == id by {
            if n.contains(x) {
                let j = choose|j: int| 0 <= j < n.len() && n[j] == x;
                if j < pos {
                    assert(o[j] == x);
                } else if j > pos {
                    assert(o[j - 1] == x);
                }
            }
            if o.contains(x) {
                let j = choose|j: int| 0 <= j < o.len() && o[j] == x;
                if j < pos {
                    assert(n[j] == x);
                } else {
                    assert(n[j + 1] == x);
                }
            }
            if x == id {
                assert(n[pos as int] == x);
            }
        }
    }
}

/// The map of parts from index `k` on, keyed by id, where a later entry
/// with the same id replaces an earlier one
pub open spec fn parts_map_from(s: Seq<PartData>, k: int) -> Map<u32, PartData>
    decreases s.len() - k,
{
    if k < 0 || k >= s.len() {
        Map::empty()
    } else {
        let m = parts_map_from(s, k + 1);
        if m.contains_key(s[k].part_id) {
            m
        } else {
            m.insert(s[k].part_id, s[k])
        }
    }
}

/// The map of a list of parts, keyed by id; the last entry of an id wins
pub open spec fn parts_map(s: Seq<PartData>) -> Map<u32, PartData> {
    parts_map_from(s, 0)
}

/// The central parts database: lookup by id, category queries, property aggregation
pub struct PartsDB {
    parts: HashMap<u32, PartData>,
    /// All part ids, increasing
    ids: Vec<u32>,
}

impl PartsDB {
    #[verifier::type_invariant]
    spec fn inv(self) -> bool {
        &&& sorted_strict(self.ids@)
        &&& forall|id: u32| self.parts@.contains_key(id) <==> #[trigger] self.ids@.contains(id)
    }

    /// The parts by id
    pub closed spec fn part_map(&self) -> Map<u32, PartData> {
        self.parts@
    }

    /// All ids, increasing
    pub closed spec fn id_seq(&self) -> Seq<u32> {
        self.ids@
    }

    /// A database holding the given parts; the last part of an id wins
    pub fn from_parts(parts: Vec<PartData>) -> (r: Self)
        ensures
            r.part_map() == parts_map(parts@),
    {
        let ghost all = parts@;
        let mut rest = parts;
        let mut map: HashMap<u32, PartData> = HashMap::new();
        let mut ids: Vec<u32> = Vec::new();
        while rest.len() > 0
            invariant
                rest@ == all.take(rest@.len() as int),
                rest@.len() <= all.len(),
                map@ == parts_map_from(all, rest@.len() as int),
                sorted_strict(ids@),
                forall|id: u32| map@.contains_key(id) <==> #[trigger] ids@.contains(id),
            decreases rest@.len(),
        {
            let ghost k = rest@.len() - 1;
            let p = rest.pop().unwrap();
            proof {
                assert(all.take(k + 1)[k] == all[k]);
                assert(rest@ =~= all.take(k));
            }
            let id = p.part_id;
            if !map.contains_key(&id) {
                sorted_insert(&mut ids, id);
                map.insert(id, p);
            }
        }
        PartsDB { parts: map, ids }
    }
}

/// The ids among `ids` that satisfy `p`, in order
pub open spec fn select_ids(ids: Seq<u32>, p: spec_fn(u32) -> bool) -> Seq<u32>
    decreases ids.len(),
{
    if ids.len() == 0 {
        seq![]
    } else if p(ids.last()) {
        select_ids(ids.drop_last(), p).push(ids.last())
    } else {
        select_ids(ids.drop_last(), p)
    }
}

/// The ids in `list` that have a part in `m`, in order
pub open spec fn known_ids(m: Map<u32, PartData>, list: Seq<u32>) -> Seq<u32> {
    select_ids(list, |id: u32| m.contains_key(id))
}

/// The car properties of the parts `s` (ids without a part are skipped)
pub open spec fn car_props_of(m: Map<u32, PartData>, s: Seq<u32>) -> CarProperties
    decreases s.len(),
{
    if s.len() == 0 {
        zero_car_props()
    } else if m.contains_key(s.last()) {
        add_part_props(car_props_of(m, s.drop_last()), m[s.last()].properties)
    } else {
        car_props_of(m, s.drop_last())
    }
}

/// Aggregating the parts `s` one after another never leaves `i32`
pub open spec fn props_fit(m: Map<u32, PartData>, s: Seq<u32>) -> bool {
    forall|k: int| 0 <= k < s.len() && #[trigger] m.contains_key(s[k]) ==> sums_fit(car_props_of(m, s.take(k)), m[s[k]].properties)
}

/// Parts of the default car: chassis, battery, gearbox, brake
pub open spec fn default_car_ids() -> Seq<u32> {
    seq![1u32, 82, 133, 152]
}

/// Parts that the junk man hands out
pub open spec fn junkman_ids() -> Seq<u32> {
    seq![
        2u32, 6, 9, 12, 14, 17, 19, 21, 23, 24, 25, 29, 30, 31, 33, 41,
        43, 53, 54, 64, 65, 69, 74, 75, 91, 99, 100, 112, 119, 120,
        129, 130, 131, 132, 133, 149, 153, 154, 161, 172, 230, 242,
        248, 260, 272, 273, 288, 291, 297, 307,
    ]
}

/// Parts found at destinations
pub open spec fn destination_ids() -> Seq<u32> {
    seq![5u32, 13, 35, 101, 121, 137, 200, 254, 283]
}

/// Parts that spawn randomly
pub open spec fn random_ids() -> Seq<u32> {
    seq![
        18u32, 20, 22, 26, 27, 28, 32, 38, 42, 89, 90, 92, 108, 116,
        127, 140, 141, 143, 147, 155, 158, 162, 167, 168, 173, 174,
        175, 176, 177, 181, 184, 185, 186, 189, 190, 191, 192, 193,
        195, 203, 208, 209, 210, 211, 212, 213, 214, 221, 222, 227,
        228, 229, 233,
    ]
}

/// The category of a part: junk man first, then destination, then random
pub open spec fn category_of(part_id: u32) -> Option<PartCategory> {
    if junkman_ids().contains(part_id) {
        Some(PartCategory::JunkMan)
    } else if destination_ids().contains(part_id) {
        Some(PartCategory::Destination)
    } else if random_ids().contains(part_id) {
        Some(PartCategory::Random)
    } else {
        None
    }
}

/// Initial contents of the six junk piles
pub open spec fn initial_piles() -> Seq<Seq<u32>> {
    seq![
        seq![66u32, 29, 143, 178],
        seq![215u32, 47, 12, 140],
        seq![96u32, 76, 104, 271],
        seq![126u32, 48, 113, 220],
        seq![146u32, 55, 107, 74],
        seq![93u32, 81, 150, 196],
    ]
}

fn id_list(ids: &[u32]) -> (r: Vec<u32>)
    ensures
        r@ == ids@,
{
    let mut v: Vec<u32> = Vec::new();
    let mut i: usize = 0;
    while i < ids.len()
        invariant
            i <= ids@.len(),
            v@ == ids@.take(i as int),
        decreases ids@.len() - i,
    {
        v.push(ids[i]);
        proof {
            assert(ids@.take(i + 1) =~= ids@.take(i as int).push(ids@[i as int]));
        }
        i = i + 1;
    }
    proof {
        assert(ids@.take(ids@.len() as int) =~= ids@);
    }
    v
}

impl PartsDB {
    /// A part by id
    pub fn get(&self, part_id: u32) -> (r: Option<&PartData>)
        ensures
            r == (if self.part_map().contains_key(part_id) { Some(&self.part_map()[part_id]) } else { None }),
    {
        self.parts.get(&part_id)
    }

    /// All part ids, increasing
    pub fn all_ids(&self) -> (r: Vec<u32>)
        ensures
            r@ == self.id_seq(),
            sorted_strict(r@),
            forall|id: u32| self.part_map().contains_key(id) <==> #[trigger] r@.contains(id),
    {
        proof {
            use_type_invariant(self);
        }
        id_list(self.ids.as_slice())
    }

    /// Number of parts
    pub fn len(&self) -> (r: usize)
        ensures
            r == self.part_map().len(),
    {
        self.parts.len()
    }

    /// All parts with their ids, in increasing id order
    pub fn iter(&self) -> (r: Vec<(u32, &PartData)>)
        ensures
            r@.len() == self.id_seq().len(),
            forall|i: int| 0 <= i < r@.len() ==> (#[trigger] r@[i]).0 == self.id_seq()[i]
                && *r@[i].1 == self.part_map()[self.id_seq()[i]],
            forall|id: u32| self.part_map().contains_key(id) <==> #[trigger] self.id_seq().contains(id),
    {
        proof {
            use_type_invariant(self);
        }
        let mut out: Vec<(u32, &PartData)> = Vec::new();
        let mut i: usize = 0;
        while i < self.ids.len()
            invariant
                i <= self.ids@.len(),
                forall|id: u32| self.parts@.contains_key(id) <==> #[trigger] self.ids@.contains(id),
                out@.len() == i,
                forall|j: int| 0 <= j < i ==> (#[trigger] out@[j]).0 == self.ids@[j] && *out@[j].1 == self.parts@[self.ids@[j]],
            decreases self.ids@.len() - i,
        {
            let id = self.ids[i];
            assert(self.ids@.contains(id));
            let p = self.parts.get(&id).unwrap();
            out.push((id, p));
            i = i + 1;
        }
        out
    }

    /// Collect the parts of the listed ids that exist, in list order
    fn parts_of<'a>(&'a self, list: &[u32]) -> (r: Vec<&'a PartData>)
        ensures
            r@.len() == known_ids(self.part_map(), list@).len(),
            forall|i: int| 0 <= i < r@.len() ==> *(#[trigger] r@[i]) == self.part_map()[known_ids(self.part_map(), list@)[i]],
    {
        let ghost m = self.part_map();
        let ghost p = |id: u32| m.contains_key(id);
        let mut out: Vec<&PartData> = Vec::new();
        let mut i: usize = 0;
        while i < list.len()
            invariant
                m == self.part_map(),
                p == (|id: u32| m.contains_key(id)),
                i <= list@.len(),
                out@.len() == select_ids(list@.take(i as int), p).len(),
                forall|j: int| 0 <= j < out@.len() ==> *(#[trigger] out@[j]) == m[select_ids(list@.take(i as int), p)[j]],
            decreases list@.len() - i,
        {
            let ghost before = select_ids(list@.take(i as int), p);
            proof {
                assert(list@.take(i + 1).drop_last() =~= list@.take(i as int));
                assert(list@.take(i + 1).last() == list@[i as int]);
            }
            match self.parts.get(&list[i]) {
                Some(part) => {
                    out.push(part);
                    assert(select_ids(list@.take(i + 1), p) == before.push(list@[i as int]));
                },
                None => {
                    assert(select_ids(list@.take(i + 1), p) == before);
                },
            }
            i = i + 1;
        }
        proof {
            assert(list@.take(list@.len() as int) =~= list@);
        }
        out
    }

    /// The variants of a morph parent that exist, in the parent's order
    pub fn get_morphs(&self, parent_id: u32) -> (r: Vec<&PartData>)
        ensures
            !self.part_map().contains_key(parent_id) ==> r@.len() == 0,
            self.part_map().contains_key(parent_id) ==> {
                let sel = known_ids(self.part_map(), self.part_map()[parent_id].morphs_to@);
                &&& r@.len() == sel.len()
                &&& forall|i: int| 0 <= i < r@.len() ==> *(#[trigger] r@[i]) == self.part_map()[sel[i]]
            },
    {
        match self.parts.get(&parent_id) {
            Some(parent) => self.parts_of(parent.morphs_to.as_slice()),
            None => Vec::new(),
        }
    }

    /// The master (parent) part of a morph child
    pub fn get_master(&self, part_id: u32) -> (r: Option<&PartData>)
        ensures
            r == (if self.part_map().contains_key(part_id) && self.part_map()[part_id].master != 0
                && self.part_map().contains_key(self.part_map()[part_id].master) {
                Some(&self.part_map()[self.part_map()[part_id].master])
            } else {
                None
            }),
    {
        let part = match self.parts.get(&part_id) {
            Some(p) => p,
            None => return None,
        };
        if part.master == 0 {
            None
        } else {
            self.parts.get(&part.master)
        }
    }

    /// Standalone parts (not morph children) that can be picked up, in id order
    pub fn junkyard_parts(&self) -> (r: Vec<&PartData>)
        ensures
            ({
                let m = self.part_map();
                let sel = select_ids(self.id_seq(), |id: u32| m[id].junk_view@.len() > 0 && m[id].master == 0);
                &&& r@.len() == sel.len()
                &&& forall|i: int| 0 <= i < r@.len() ==> *(#[trigger] r@[i]) == m[sel[i]]
            }),
    {
        proof {
            use_type_invariant(self);
        }
        let ghost m = self.part_map();
        let ghost p = |id: u32| m[id].junk_view@.len() > 0 && m[id].master == 0;
        let ghost ids = self.ids@;
        let mut out: Vec<&PartData> = Vec::new();
        let mut i: usize = 0;
        while i < self.ids.len()
            invariant
                m == self.part_map(),
                ids == self.ids@,
                p == (|id: u32| m[id].junk_view@.len() > 0 && m[id].master == 0),
                forall|id: u32| m.contains_key(id) <==> #[trigger] ids.contains(id),
                i <= ids.len(),
                out@.len() == select_ids(ids.take(i as int), p).len(),
                forall|j: int| 0 <= j < out@.len() ==> *(#[trigger] out@[j]) == m[select_ids(ids.take(i as int), p)[j]],
            decreases ids.len() - i,
        {
            let ghost before = select_ids(ids.take(i as int), p);
            proof {
                assert(ids.take(i + 1).drop_last() =~= ids.take(i as int));
                assert(ids.take(i + 1).last() == ids[i as int]);
                assert(ids.contains(ids[i as int]));
            }
            let part = self.parts.get(&self.ids[i]).unwrap();
            if part.has_junk_view() && !part.is_morph_child() {
                out.push(part);
                assert(select_ids(ids.take(i + 1), p) == before.push(ids[i as int]));
            } else {
                assert(select_ids(ids.take(i + 1), p) == before);
            }
            i = i + 1;
        }
        proof {
            assert(ids.take(ids.len() as int) =~= ids);
        }
        out
    }

    /// Parts that require a given attachment point, in id order
    pub fn parts_for_attachment(&self, point: &str) -> (r: Vec<&PartData>)
        ensures
            ({
                let m = self.part_map();
                let sel = select_ids(self.id_seq(), |id: u32| holds_str(m[id].requires@, point@));
                &&& r@.len() == sel.len()
                &&& forall|i: int| 0 <= i < r@.len() ==> *(#[trigger] r@[i]) == m[sel[i]]
            }),
    {
        proof {
            use_type_invariant(self);
        }
        let ghost m = self.part_map();
        let ghost p = |id: u32| holds_str(m[id].requires@, point@);
        let ghost ids = self.ids@;
        let mut out: Vec<&PartData> = Vec::new();
        let mut i: usize = 0;
        while i < self.ids.len()
            invariant
                m == self.part_map(),
                ids == self.ids@,
                p == (|id: u32| holds_str(m[id].requires@, point@)),
                forall|id: u32| m.contains_key(id) <==> #[trigger] ids.contains(id),
                i <= ids.len(),
                out@.len() == select_ids(ids.take(i as int), p).len(),
                forall|j: int| 0 <= j < out@.len() ==> *(#[trigger] out@[j]) == m[select_ids(ids.take(i as int), p)[j]],
            decreases ids.len() - i,
        {
            let ghost before = select_ids(ids.take(i as int), p);
            proof {
                assert(ids.take(i + 1).drop_last() =~= ids.take(i as int));
                assert(ids.take(i + 1).last() == ids[i as int]);
                assert(ids.contains(ids[i as int]));
            }
            let part = self.parts.get(&self.ids[i]).unwrap();
            if contains_str(part.requires.as_slice(), point) {
                out.push(part);
                assert(select_ids(ids.take(i + 1), p) == before.push(ids[i as int]));
            } else {
                assert(select_ids(ids.take(i + 1), p) == before);
            }
            i = i + 1;
        }
        proof {
            assert(ids.take(ids.len() as int) =~= ids);
        }
        out
    }
}

impl PartsDB {
    /// Default car parts (chassis, battery, gearbox, brake)
    pub fn default_car_parts() -> (r: &'static [u32])
        ensures
            r@ == default_car_ids(),
    {
        let r: &'static [u32] = &[1, 82, 133, 152];
        assert(r@ =~= default_car_ids());
        r
    }

    /// Initial contents of the six junk piles
    pub fn initial_pile_parts() -> (r: [Vec<u32>; 6])
        ensures
            forall|k: int| 0 <= k < 6 ==> (#[trigger] r@[k])@ == initial_piles()[k],
    {
        let r = [
            id_list(&[66, 29, 143, 178]),
            id_list(&[215, 47, 12, 140]),
            id_list(&[96, 76, 104, 271]),
            id_list(&[126, 48, 113, 220]),
            id_list(&[146, 55, 107, 74]),
            id_list(&[93, 81, 150, 196]),
        ];
        proof {
            assert forall|k: int| 0 <= k < 6 implies (#[trigger] r@[k])@ == initial_piles()[k] by {
                if k == 0 {
                    assert(r@[0]@ =~= initial_piles()[0]);
                } else if k == 1 {
                    assert(r@[1]@ =~= initial_piles()[1]);
                } else if k == 2 {
                    assert(r@[2]@ =~= initial_piles()[2]);
                } else if k == 3 {
                    assert(r@[3]@ =~= initial_piles()[3]);
                } else if k == 4 {
                    assert(r@[4]@ =~= initial_piles()[4]);
                } else {
                    assert(r@[5]@ =~= initial_piles()[5]);
                }
            }
        }
        r
    }

    /// Parts initially on the shop floor
    pub fn initial_shop_floor_parts() -> (r: Vec<u32>)
        ensures
            r@ == seq![239u32, 134, 257],
    {
        let r = id_list(&[239, 134, 257]);
        assert(r@ =~= seq![239u32, 134, 257]);
        r
    }

    /// Parts initially in the yard
    pub fn initial_yard_parts() -> (r: Vec<u32>)
        ensures
            r@ == seq![162u32, 236, 265],
    {
        let r = id_list(&[162, 236, 265]);
        assert(r@ =~= seq![162u32, 236, 265]);
        r
    }

    /// Part ids of the junk man category
    pub fn junkman_part_ids() -> (r: &'static [u32])
        ensures
            r@ == junkman_ids(),
    {
        let r: &'static [u32] = &[
            2, 6, 9, 12, 14, 17, 19, 21, 23, 24, 25, 29, 30, 31, 33, 41,
            43, 53, 54, 64, 65, 69, 74, 75, 91, 99, 100, 112, 119, 120,
            129, 130, 131, 132, 133, 149, 153, 154, 161, 172, 230, 242,
            248, 260, 272, 273, 288, 291, 297, 307,
        ];
        assert(r@ =~= junkman_ids());
        r
    }

    /// Part ids found at destinations
    pub fn destination_part_ids() -> (r: &'static [u32])
        ensures
            r@ == destination_ids(),
    {
        let r: &'static [u32] = &[5, 13, 35, 101, 121, 137, 200, 254, 283];
        assert(r@ =~= destination_ids());
        r
    }

    /// Part ids that spawn randomly
    pub fn random_part_ids() -> (r: &'static [u32])
        ensures
            r@ == random_ids(),
    {
        let r: &'static [u32] = &[
            18, 20, 22, 26, 27, 28, 32, 38, 42, 89, 90, 92, 108, 116,
            127, 140, 141, 143, 147, 155, 158, 162, 167, 168, 173, 174,
            175, 176, 177, 181, 184, 185, 186, 189, 190, 191, 192, 193,
            195, 203, 208, 209, 210, 211, 212, 213, 214, 221, 222, 227,
            228, 229, 233,
        ];
        assert(r@ =~= random_ids());
        r
    }

    /// The category a part belongs to
    pub fn part_category(&self, part_id: u32) -> (r: Option<PartCategory>)
        ensures
            r == category_of(part_id),
    {
        if contains_u32(Self::junkman_part_ids(), part_id) {
            Some(PartCategory::JunkMan)
        } else if contains_u32(Self::destination_part_ids(), part_id) {
            Some(PartCategory::Destination)
        } else if contains_u32(Self::random_part_ids(), part_id) {
            Some(PartCategory::Random)
        } else {
            None
        }
    }

    /// Aggregate the properties of the placed parts (unknown ids are skipped)
    pub fn compute_car_properties(&self, placed_parts: &[u32]) -> (r: CarProperties)
        requires
            props_fit(self.part_map(), placed_parts@),
        ensures
            r == car_props_of(self.part_map(), placed_parts@),
    {
        let ghost m = self.part_map();
        let mut car = CarProperties::default();
        let mut i: usize = 0;
        while i < placed_parts.len()
            invariant
                m == self.part_map(),
                props_fit(m, placed_parts@),
                i <= placed_parts@.len(),
                car == car_props_of(m, placed_parts@.take(i as int)),
            decreases placed_parts@.len() - i,
        {
            proof {
                assert(placed_parts@.take(i + 1).drop_last() =~= placed_parts@.take(i as int));
                assert(placed_parts@.take(i + 1).last() == placed_parts@[i as int]);
            }
            match self.parts.get(&placed_parts[i]) {
                Some(part) => {
                    add_part(&mut car, &part.properties);
                },
                None => {},
            }
            i = i + 1;
        }
        proof {
            assert(placed_parts@.take(placed_parts@.len() as int) =~= placed_parts@);
        }
        car
    }
}

/// Whether a car is road legal: it has a motor, at least two tires, brakes,
/// fuel consumption, a battery, a fuel tank, a gearbox and steering
pub open spec fn road_legal(c: CarProperties) -> bool {
    &&& c.engine_type > 0
    &&& c.tire_count >= 2
    &&& c.brake > 0
    &&& c.fuel_consumption > 0
    &&& c.electric_volume > 0
    &&& c.fuel_volume > 0
    &&& c.acceleration > 0
    &&& c.steering > 0
}

/// The failed road-legality conditions, in a fixed order
pub open spec fn failures_of(c: CarProperties) -> Seq<Seq<char>> {
    (if c.engine_type <= 0 { seq!["engine"@] } else { seq![] })
        + (if c.tire_count < 2 { seq!["tires"@] } else { seq![] })
        + (if c.brake <= 0 { seq!["brake"@] } else { seq![] })
        + (if c.fuel_consumption <= 0 { seq!["fuel_consumption"@] } else { seq![] })
        + (if c.electric_volume <= 0 { seq!["battery"@] } else { seq![] })
        + (if c.fuel_volume <= 0 { seq!["fuel_tank"@] } else { seq![] })
        + (if c.acceleration <= 0 { seq!["gearbox"@] } else { seq![] })
        + (if c.steering <= 0 { seq!["steering"@] } else { seq![] })
}

fn push_if(v: &mut Vec<&'static str>, cond: bool, s: &'static str)
    ensures
        final(v)@.map_values(|x: &str| x@) == old(v)@.map_values(|x: &str| x@) + (if cond { seq![s@] } else { seq![] }),
{
    let ghost o = v@;
    if cond {
        v.push(s);
        assert(v@.map_values(|x: &str| x@) =~= o.map_values(|x: &str| x@) + seq![s@]);
    } else {
        assert(v@.map_values(|x: &str| x@) =~= o.map_values(|x: &str| x@) + seq![]);
    }
}

impl CarProperties {
    /// Check if the car is road legal
    pub fn is_road_legal(&self) -> (r: bool)
        ensures
            r == road_legal(*self),
    {
        self.engine_type > 0
            && self.tire_count >= 2
            && self.brake > 0
            && self.fuel_consumption > 0
            && self.electric_volume > 0
            && self.fuel_volume > 0
            && self.acceleration > 0
            && self.steering > 0
    }

    /// The failing road-legality conditions (for Mulle's hints)
    pub fn road_legal_failures(&self) -> (r: Vec<&'static str>)
        ensures
            r@.map_values(|x: &str| x@) == failures_of(*self),
    {
        let mut failures: Vec<&'static str> = Vec::new();
        push_if(&mut failures, self.engine_type <= 0, "engine");
        push_if(&mut failures, self.tire_count < 2, "tires");
        push_if(&mut failures, self.brake <= 0, "brake");
        push_if(&mut failures, self.fuel_consumption <= 0, "fuel_consumption");
        push_if(&mut failures, self.electric_volume <= 0, "battery");
        push_if(&mut failures, self.fuel_volume <= 0, "fuel_tank");
        push_if(&mut failures, self.acceleration <= 0, "gearbox");
        push_if(&mut failures, self.steering <= 0, "steering");
        proof {
            assert(failures@.map_values(|x: &str| x@) =~= failures_of(*self));
        }
        failures
    }
}

/// Adding a known part to the car: the summed properties (weight, brake,
/// grip, strength, fuel and electric consumption and volume, comfort, funny
/// factor, load capacity) grow by the part's value; the maximum properties
/// (durability, steering, acceleration, speed, engine and horn type) become
/// the larger of the two, never less than either; the flags (horn, exhaust
/// pipe, lamps, pedals) rise to a positive part value when it is larger; a part
/// with grip adds a tire. An unknown part changes nothing.
pub proof fn law_adding_a_part(m: Map<u32, PartData>, s: Seq<u32>, id: u32)
    requires
        m.contains_key(id) ==> sums_fit(car_props_of(m, s), m[id].properties),
    ensures
        ({
            let before = car_props_of(m, s);
            let after = car_props_of(m, s.push(id));
            let p = m[id].properties;
            &&& m.contains_key(id) ==> {
                &&& after.weight == before.weight + p.weight
                &&& after.brake == before.brake + p.brake
                &&& after.grip == before.grip + p.grip
                &&& after.strength == before.strength + p.strength
                &&& after.fuel_consumption == before.fuel_consumption + p.fuel_consumption
                &&& after.fuel_volume == before.fuel_volume + p.fuel_volume
                &&& after.electric_consumption == before.electric_consumption + p.electric_consumption
                &&& after.electric_volume == before.electric_volume + p.electric_volume
                &&& after.comfort == before.comfort + p.comfort
                &&& after.funny_factor == before.funny_factor + p.funny_factor
                &&& after.load_capacity == before.load_capacity + p.load_capacity
                &&& after.durability >= before.durability && after.durability >= p.durability
                &&& (after.durability == before.durability || after.durability == p.durability)
                &&& after.steering >= before.steering && after.steering >= p.steering
                &&& (after.steering == before.steering || after.steering == p.steering)
                &&& after.acceleration >= before.acceleration && after.acceleration >= p.acceleration
                &&& (after.acceleration == before.acceleration || after.acceleration == p.acceleration)
                &&& after.speed >= before.speed && after.speed >= p.speed
                &&& (after.speed == before.speed || after.speed == p.speed)
                &&& after.engine_type >= before.engine_type && after.engine_type >= p.engine_type
                &&& (after.engine_type == before.engine_type || after.engine_type == p.engine_type)
                &&& after.tire_count == before.tire_count + (if p.grip > 0 { 1int } else { 0int })
                &&& after.horn_type >= before.horn_type && after.horn_type >= p.horn_type
                &&& (after.horn_type == before.horn_type || after.horn_type == p.horn_type)
                &&& after.horn == (if p.horn > 0 && p.horn > before.horn { p.horn } else { before.horn })
                &&& after.exhaust_pipe == (if p.exhaust_pipe > 0 && p.exhaust_pipe > before.exhaust_pipe { p.exhaust_pipe } else { before.exhaust_pipe })
                &&& after.lamps == (if p.lamps > 0 && p.lamps > before.lamps { p.lamps } else { before.lamps })
                &&& after.pedals == (if p.pedals > 0 && p.pedals > before.pedals { p.pedals } else { before.pedals })
            }
            &&& !m.contains_key(id) ==> after == before
        }),
{
    assert(s.push(id).drop_last() =~= s);
}

/// A car is road legal exactly when no road-legality condition fails; in
/// particular a car without engine, without two tires, without brake, fuel
/// consumption, battery, fuel tank, gearbox or steering is not road legal,
/// and a car with all of them is.
pub proof fn law_road_legal_iff_no_failures(c: CarProperties)
    ensures
        road_legal(c) <==> failures_of(c).len() == 0,
        c.engine_type <= 0 || c.tire_count < 2 || c.brake <= 0 || c.fuel_consumption <= 0
            || c.electric_volume <= 0 || c.fuel_volume <= 0 || c.acceleration <= 0 || c.steering <= 0
            ==> !road_legal(c),
        c.engine_type > 0 && c.tire_count >= 2 && c.brake > 0 && c.fuel_consumption > 0
            && c.electric_volume > 0 && c.fuel_volume > 0 && c.acceleration > 0 && c.steering > 0
            ==> road_legal(c),
{
    lemma_failures_len(c);
}

/// The number of failures counts the failed conditions
proof fn lemma_failures_len(c: CarProperties)
    ensures
        failures_of(c).len() == (if c.engine_type <= 0 { 1int } else { 0 }) + (if c.tire_count < 2 { 1int } else { 0 })
            + (if c.brake <= 0 { 1int } else { 0 }) + (if c.fuel_consumption <= 0 { 1int } else { 0 })
            + (if c.electric_volume <= 0 { 1int } else { 0 }) + (if c.fuel_volume <= 0 { 1int } else { 0 })
            + (if c.acceleration <= 0 { 1int } else { 0 }) + (if c.steering <= 0 { 1int } else { 0 }),
{
}

/// A car without steering lists "steering" among its failures
pub proof fn law_no_steering_is_a_failure(c: CarProperties)
    requires
        c.steering <= 0,
    ensures
        !road_legal(c),
        failures_of(c).contains("steering"@),
{
    let f = failures_of(c);
    assert(f[f.len() - 1] == "steering"@);
}

} // verus!
