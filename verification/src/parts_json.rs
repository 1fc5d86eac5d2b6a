//! Reading part definitions from the JSON parts table.
//!
//! Each entry is an object with `partId`, optional `master`, `MorphsTo`,
//! view names, `offset`, `Properties`, `Requires`, `Covers` and `new`
//! (attachment points). Lists may also be given as `0` for "none".
//! Property keys are matched without regard to case.

use vstd::prelude::*;
use crate::json::{Json, json_document, json_u64, json_i64, member, parse_json};
use crate::parts_db::{AttachmentPoint, PartData, PartProperties, PartsDB};
use crate::text::{lowercase, owned, str_eq, to_lower};

verus! {

/// An integer value truncated to `i32`, or 0
pub open spec fn int_or_zero(v: Json) -> i32 {
    match json_i64(v) {
        Some(n) => n as i32,
        None => 0,
    }
}

/// Element `i` of an array as `i32`, or 0
pub open spec fn nth_int(a: Seq<Json>, i: int) -> i32 {
    if 0 <= i < a.len() { int_or_zero(a[i]) } else { 0 }
}

/// The unsigned integer elements of an array, truncated to `u32`, in order
pub open spec fn ids_of(a: Seq<Json>) -> Seq<u32>
    decreases a.len(),
{
    if a.len() == 0 {
        seq![]
    } else {
        match json_u64(a.last()) {
            Some(n) => ids_of(a.drop_last()).push(n as u32),
            None => ids_of(a.drop_last()),
        }
    }
}

/// An id list: an array of ids, anything else is empty
pub open spec fn id_list_of(v: Option<Json>) -> Seq<u32> {
    match v {
        Some(Json::Array(a)) => ids_of(a@),
        _ => seq![],
    }
}

/// The string elements of an array, in order
pub open spec fn strs_of(a: Seq<Json>) -> Seq<Seq<char>>
    decreases a.len(),
{
    if a.len() == 0 {
        seq![]
    } else {
        match a.last() {
            Json::Str(s) => strs_of(a.drop_last()).push(s@),
            _ => strs_of(a.drop_last()),
        }
    }
}

/// A string list: an array of strings, anything else is empty
pub open spec fn str_list_of(v: Option<Json>) -> Seq<Seq<char>> {
    match v {
        Some(Json::Array(a)) => strs_of(a@),
        _ => seq![],
    }
}

/// An offset `[x, y]`; anything else is (0, 0)
pub open spec fn offset_of(v: Option<Json>) -> (i32, i32) {
    match v {
        Some(Json::Array(a)) => if a@.len() >= 2 { (int_or_zero(a@[0]), int_or_zero(a@[1])) } else { (0, 0) },
        _ => (0, 0),
    }
}

/// A string member, or the empty string
pub open spec fn str_or_empty(v: Option<Json>) -> Seq<char> {
    match v {
        Some(Json::Str(s)) => s@,
        _ => seq![],
    }
}

/// The value of property `name` among the first `k` entries: the last
/// integer entry whose lowercased key is `name`, truncated to `i32`; else 0
pub open spec fn prop_in(entries: Seq<(String, Json)>, name: Seq<char>, k: int) -> i32
    decreases k,
{
    if k <= 0 || k > entries.len() {
        0
    } else if lowercase(entries[k - 1].0@) == name && json_i64(entries[k - 1].1) is Some {
        json_i64(entries[k - 1].1)->0 as i32
    } else {
        prop_in(entries, name, k - 1)
    }
}

/// The value of a property in a `Properties` member (0 when absent)
pub open spec fn prop_of(v: Option<Json>, name: Seq<char>) -> i32 {
    match v {
        Some(Json::Object(entries)) => prop_in(entries@, name, entries@.len() as int),
        _ => 0,
    }
}

/// The properties read from a `Properties` member
pub open spec fn props_of(v: Option<Json>) -> PartProperties {
    PartProperties {
        weight: prop_of(v, "weight"@),
        speed: prop_of(v, "speed"@),
        brake: prop_of(v, "break"@),
        durability: prop_of(v, "durability"@),
        grip: prop_of(v, "grip"@),
        steering: prop_of(v, "steering"@),
        acceleration: prop_of(v, "acceleration"@),
        strength: prop_of(v, "strength"@),
        fuel_consumption: prop_of(v, "fuelconsumption"@),
        fuel_volume: prop_of(v, "fuelvolume"@),
        electric_consumption: prop_of(v, "electricconsumption"@),
        electric_volume: prop_of(v, "electricvolume"@),
        comfort: prop_of(v, "comfort"@),
        funny_factor: prop_of(v, "funnyfactor"@),
        horn: prop_of(v, "horn"@),
        horn_type: prop_of(v, "horntype"@),
        exhaust_pipe: prop_of(v, "exhaustpipe"@),
        lamps: prop_of(v, "lamps"@),
        pedals: prop_of(v, "pedals"@),
        load_capacity: prop_of(v, "loadcapacity"@),
        engine_type: prop_of(v, "enginetype"@),
        color: prop_of(v, "color"@),
    }
}

/// An attachment point read from `[id, [fg, bg], [x, y]]`
pub open spec fn point_of(v: Json) -> Option<(Seq<char>, (i32, i32), (i32, i32))> {
    match v {
        Json::Array(t) => if t@.len() >= 3 {
            match (t@[0], t@[1], t@[2]) {
                (Json::Str(id), Json::Array(s), Json::Array(o)) => Some(
                    (id@, (nth_int(s@, 0), nth_int(s@, 1)), (nth_int(o@, 0), nth_int(o@, 1))),
                ),
                _ => None,
            }
        } else {
            None
        },
        _ => None,
    }
}

/// The attachment points of an array, skipping malformed entries
pub open spec fn points_of(a: Seq<Json>) -> Seq<(Seq<char>, (i32, i32), (i32, i32))>
    decreases a.len(),
{
    if a.len() == 0 {
        seq![]
    } else {
        match point_of(a.last()) {
            Some(p) => points_of(a.drop_last()).push(p),
            None => points_of(a.drop_last()),
        }
    }
}

/// The attachment points of a `new` member
pub open spec fn point_list_of(v: Option<Json>) -> Seq<(Seq<char>, (i32, i32), (i32, i32))> {
    match v {
        Some(Json::Array(a)) => points_of(a@),
        _ => seq![],
    }
}

/// The abstract attachment points of a list
pub open spec fn points_view(l: Seq<AttachmentPoint>) -> Seq<(Seq<char>, (i32, i32), (i32, i32))> {
    l.map_values(|p: AttachmentPoint| (p.id@, p.sort_index, p.offset))
}

/// The strings of a list
pub open spec fn string_list_view(l: Seq<String>) -> Seq<Seq<char>> {
    l.map_values(|s: String| s@)
}

/// Whether a value is a part entry: an object with an unsigned `partId`
pub open spec fn is_part_entry(v: Json) -> bool {
    &&& v is Object
    &&& member(v, "partId"@) matches Some(id) && json_u64(id) is Some
}

/// Whether `p` is the part read from entry `v`
pub open spec fn part_read_from(v: Json, p: PartData) -> bool {
    &&& p.part_id == json_u64(member(v, "partId"@)->0)->0 as u32
    &&& p.master == (match member(v, "master"@) {
        Some(m) => match json_u64(m) {
            Some(n) => n as u32,
            None => 0,
        },
        None => 0,
    })
    &&& p.morphs_to@ == id_list_of(member(v, "MorphsTo"@))
    &&& p.description@ == str_or_empty(member(v, "description"@))
    &&& p.junk_view@ == str_or_empty(member(v, "junkView"@))
    &&& p.use_view@ == str_or_empty(member(v, "UseView"@))
    &&& p.use_view2@ == str_or_empty(member(v, "UseView2"@))
    &&& p.offset == offset_of(member(v, "offset"@))
    &&& p.properties == props_of(member(v, "Properties"@))
    &&& string_list_view(p.requires@) == str_list_of(member(v, "Requires"@))
    &&& string_list_view(p.covers@) == str_list_of(member(v, "Covers"@))
    &&& points_view(p.attachment_points@) == point_list_of(member(v, "new"@))
}

fn int_or_zero_of(v: Option<&Json>) -> (r: i32)
    ensures
        r == (match v {
            Some(j) => int_or_zero(*j),
            None => 0,
        }),
{
    match v {
        Some(j) => match j.as_i64() {
            Some(n) => n as i32,
            None => 0,
        },
        None => 0,
    }
}

/// The value an optional reference points to
pub open spec fn deref_opt(v: Option<&Json>) -> Option<Json> {
    match v {
        Some(j) => Some(*j),
        None => None,
    }
}

/// Parse `MorphsTo`: `0` or `[3, 4]`
fn parse_id_list(v: Option<&Json>) -> (r: Vec<u32>)
    ensures
        r@ == id_list_of(deref_opt(v)),
{
    match v {
        Some(Json::Array(arr)) => {
            let mut out: Vec<u32> = Vec::new();
            let mut i: usize = 0;
            while i < arr.len()
                invariant
                    i <= arr@.len(),
                    out@ == ids_of(arr@.take(i as int)),
                decreases arr@.len() - i,
            {
                proof {
                    assert(arr@.take(i + 1).drop_last() =~= arr@.take(i as int));
                    assert(arr@.take(i + 1).last() == arr@[i as int]);
                }
                match arr[i].as_u64() {
                    Some(n) => out.push(n as u32),
                    None => {},
                }
                i = i + 1;
            }
            proof {
                assert(arr@.take(arr@.len() as int) =~= arr@);
            }
            out
        },
        _ => Vec::new(),
    }
}

/// Parse `Requires` / `Covers`: `0` or `["#a6"]`
fn parse_string_list(v: Option<&Json>) -> (r: Vec<String>)
    ensures
        string_list_view(r@) == str_list_of(deref_opt(v)),
{
    match v {
        Some(Json::Array(arr)) => {
            let mut out: Vec<String> = Vec::new();
            let mut i: usize = 0;
            while i < arr.len()
                invariant
                    i <= arr@.len(),
                    string_list_view(out@) == strs_of(arr@.take(i as int)),
                decreases arr@.len() - i,
            {
                proof {
                    assert(arr@.take(i + 1).drop_last() =~= arr@.take(i as int));
                    assert(arr@.take(i + 1).last() == arr@[i as int]);
                }
                let ghost before = out@;
                match &arr[i] {
                    Json::Str(s) => {
                        out.push(s.clone());
                        assert(string_list_view(out@) =~= string_list_view(before).push(s@));
                    },
                    _ => {},
                }
                i = i + 1;
            }
            proof {
                assert(arr@.take(arr@.len() as int) =~= arr@);
            }
            out
        },
        _ => Vec::new(),
    }
}

/// Parse `offset`: `[x, y]`
fn parse_offset(v: Option<&Json>) -> (r: (i32, i32))
    ensures
        r == offset_of(deref_opt(v)),
{
    match v {
        Some(Json::Array(arr)) => {
            if arr.len() >= 2 {
                (int_or_zero_of(Some(&arr[0])), int_or_zero_of(Some(&arr[1])))
            } else {
                (0, 0)
            }
        },
        _ => (0, 0),
    }
}

/// The value of one property among the lowercased entries
fn prop_lookup(entries: &Vec<(String, Json)>, lowered: &Vec<String>, name: &str) -> (r: i32)
    requires
        lowered@.len() == entries@.len(),
        forall|i: int| 0 <= i < entries@.len() ==> (#[trigger] lowered@[i])@ == lowercase(entries@[i].0@),
    ensures
        r == prop_in(entries@, name@, entries@.len() as int),
{
    let mut k: usize = entries.len();
    while k > 0
        invariant
            k <= entries@.len(),
            lowered@.len() == entries@.len(),
            forall|i: int| 0 <= i < entries@.len() ==> (#[trigger] lowered@[i])@ == lowercase(entries@[i].0@),
            prop_in(entries@, name@, entries@.len() as int) == prop_in(entries@, name@, k as int),
        decreases k,
    {
        if str_eq(lowered[k - 1].as_str(), name) {
            match entries[k - 1].1.as_i64() {
                Some(n) => {
                    return n as i32;
                },
                None => {},
            }
        }
        k = k - 1;
    }
    0
}

/// Parse `Properties`: `0` or `{"Weight": 4, "speed": 2, ...}`; keys are
/// matched in lowercase and "break" is the brake value
fn parse_properties(v: Option<&Json>) -> (r: PartProperties)
    ensures
        r == props_of(deref_opt(v)),
{
    match v {
        Some(Json::Object(entries)) => {
            let mut lowered: Vec<String> = Vec::new();
            let mut i: usize = 0;
            while i < entries.len()
                invariant
                    i <= entries@.len(),
                    lowered@.len() == i,
                    forall|j: int| 0 <= j < i ==> (#[trigger] lowered@[j])@ == lowercase(entries@[j].0@),
                decreases entries@.len() - i,
            {
                lowered.push(to_lower(entries[i].0.as_str()));
                i = i + 1;
            }
            PartProperties {
                weight: prop_lookup(entries, &lowered, "weight"),
                speed: prop_lookup(entries, &lowered, "speed"),
                brake: prop_lookup(entries, &lowered, "break"),
                durability: prop_lookup(entries, &lowered, "durability"),
                grip: prop_lookup(entries, &lowered, "grip"),
                steering: prop_lookup(entries, &lowered, "steering"),
                acceleration: prop_lookup(entries, &lowered, "acceleration"),
                strength: prop_lookup(entries, &lowered, "strength"),
                fuel_consumption: prop_lookup(entries, &lowered, "fuelconsumption"),
                fuel_volume: prop_lookup(entries, &lowered, "fuelvolume"),
                electric_consumption: prop_lookup(entries, &lowered, "electricconsumption"),
                electric_volume: prop_lookup(entries, &lowered, "electricvolume"),
                comfort: prop_lookup(entries, &lowered, "comfort"),
                funny_factor: prop_lookup(entries, &lowered, "funnyfactor"),
                horn: prop_lookup(entries, &lowered, "horn"),
                horn_type: prop_lookup(entries, &lowered, "horntype"),
                exhaust_pipe: prop_lookup(entries, &lowered, "exhaustpipe"),
                lamps: prop_lookup(entries, &lowered, "lamps"),
                pedals: prop_lookup(entries, &lowered, "pedals"),
                load_capacity: prop_lookup(entries, &lowered, "loadcapacity"),
                engine_type: prop_lookup(entries, &lowered, "enginetype"),
                color: prop_lookup(entries, &lowered, "color"),
            }
        },
        _ => PartProperties::default(),
    }
}

fn nth_int_of(a: &Vec<Json>, i: usize) -> (r: i32)
    ensures
        r == nth_int(a@, i as int),
{
    if i < a.len() {
        int_or_zero_of(Some(&a[i]))
    } else {
        0
    }
}

/// Parse one attachment point `[id, [fg, bg], [x, y]]`
fn parse_point(entry: &Json) -> (r: Option<AttachmentPoint>)
    ensures
        match point_of(*entry) {
            Some(p) => r matches Some(x) && (x.id@, x.sort_index, x.offset) == p,
            None => r is None,
        },
{
    match entry {
        Json::Array(t) => {
            if t.len() < 3 {
                return None;
            }
            match (&t[0], &t[1], &t[2]) {
                (Json::Str(id), Json::Array(s), Json::Array(o)) => Some(AttachmentPoint {
                    id: id.clone(),
                    sort_index: (nth_int_of(s, 0), nth_int_of(s, 1)),
                    offset: (nth_int_of(o, 0), nth_int_of(o, 1)),
                }),
                _ => None,
            }
        },
        _ => None,
    }
}

/// Parse `new` (attachment points): `0` or `[["#a1", [32, 2], [0, 0]], ...]`
fn parse_attachment_points(v: Option<&Json>) -> (r: Vec<AttachmentPoint>)
    ensures
        points_view(r@) == point_list_of(deref_opt(v)),
{
    match v {
        Some(Json::Array(arr)) => {
            let mut out: Vec<AttachmentPoint> = Vec::new();
            let mut i: usize = 0;
            while i < arr.len()
                invariant
                    i <= arr@.len(),
                    points_view(out@) == points_of(arr@.take(i as int)),
                decreases arr@.len() - i,
            {
                proof {
                    assert(arr@.take(i + 1).drop_last() =~= arr@.take(i as int));
                    assert(arr@.take(i + 1).last() == arr@[i as int]);
                }
                let ghost before = out@;
                match parse_point(&arr[i]) {
                    Some(p) => {
                        out.push(p);
                        assert(points_view(out@) =~= points_view(before).push(point_of(arr@[i as int])->0));
                    },
                    None => {},
                }
                i = i + 1;
            }
            proof {
                assert(arr@.take(arr@.len() as int) =~= arr@);
            }
            out
        },
        _ => Vec::new(),
    }
}

fn str_member(v: &Json, key: &str) -> (r: String)
    ensures
        r@ == str_or_empty(member(*v, key@)),
{
    match v.get(key) {
        Some(j) => match j.as_str() {
            Some(s) => owned(s),
            None => String::new(),
        },
        None => String::new(),
    }
}

/// Read one part entry; entries without an unsigned `partId` are skipped
pub fn parse_part(v: &Json) -> (r: Option<PartData>)
    ensures
        r is Some <==> is_part_entry(*v),
        r matches Some(p) ==> part_read_from(*v, p),
{
    match v {
        Json::Object(_) => {},
        _ => return None,
    }
    let part_id = v.get("partId")?.as_u64()? as u32;
    let master = match v.get("master") {
        Some(m) => match m.as_u64() {
            Some(n) => n as u32,
            None => 0,
        },
        None => 0,
    };
    let morphs_to = parse_id_list(v.get("MorphsTo"));
    let description = str_member(v, "description");
    let junk_view = str_member(v, "junkView");
    let use_view = str_member(v, "UseView");
    let use_view2 = str_member(v, "UseView2");
    let offset = parse_offset(v.get("offset"));
    let properties = parse_properties(v.get("Properties"));
    let required = parse_string_list(v.get("Requires"));
    let covers = parse_string_list(v.get("Covers"));
    let attachment_points = parse_attachment_points(v.get("new"));
    Some(PartData {
        part_id,
        master,
        morphs_to,
        description,
        junk_view,
        use_view,
        use_view2,
        offset,
        properties,
        requires: required,
        covers,
        attachment_points,
    })
}

/// The id of a part entry
pub open spec fn entry_id(v: Json) -> u32 {
    json_u64(member(v, "partId"@)->0)->0 as u32
}

/// The part entries among the first `k` values of the table, in order
pub open spec fn part_entries_in(vals: Seq<(String, Json)>, k: int) -> Seq<Json>
    decreases k,
{
    if k <= 0 || k > vals.len() {
        seq![]
    } else if is_part_entry(vals[k - 1].1) {
        part_entries_in(vals, k - 1).push(vals[k - 1].1)
    } else {
        part_entries_in(vals, k - 1)
    }
}

/// The part entries of a parts table (an object of entries), in order
pub open spec fn part_entries(root: Json) -> Seq<Json> {
    match root {
        Json::Object(vals) => part_entries_in(vals@, vals@.len() as int),
        _ => seq![],
    }
}

/// Read every part entry of a parts table, in order
pub fn parse_parts(root: &Json) -> (r: Vec<PartData>)
    ensures
        r@.len() == part_entries(*root).len(),
        forall|i: int| 0 <= i < r@.len() ==> part_read_from(part_entries(*root)[i], #[trigger] r@[i]),
{
    let mut out: Vec<PartData> = Vec::new();
    match root {
        Json::Object(vals) => {
            let mut i: usize = 0;
            while i < vals.len()
                invariant
                    i <= vals@.len(),
                    part_entries(*root) == part_entries_in(vals@, vals@.len() as int),
                    out@.len() == part_entries_in(vals@, i as int).len(),
                    forall|j: int| 0 <= j < out@.len() ==> part_read_from(part_entries_in(vals@, i as int)[j], #[trigger] out@[j]),
                decreases vals@.len() - i,
            {
                let ghost before = part_entries_in(vals@, i as int);
                let ghost ob = out@;
                match parse_part(&vals[i].1) {
                    Some(p) => {
                        out.push(p);
                        proof {
                            assert(part_entries_in(vals@, i + 1) == before.push(vals@[i as int].1));
                            assert forall|j: int| 0 <= j < out@.len() implies part_read_from(part_entries_in(vals@, i + 1)[j], #[trigger] out@[j]) by {
                                if j < ob.len() {
                                    assert(out@[j] == ob[j]);
                                }
                            }
                        }
                    },
                    None => {
                        assert(part_entries_in(vals@, i + 1) == before);
                    },
                }
                i = i + 1;
            }
        },
        _ => {},
    }
    out
}

proof fn lemma_parts_map_from(s: Seq<PartData>, k: int)
    requires
        0 <= k <= s.len(),
    ensures
        forall|id: u32| #[trigger] crate::parts_db::parts_map_from(s, k).contains_key(id) <==> exists|j: int| k <= j < s.len() && s[j].part_id == id,
        forall|id: u32| #[trigger] crate::parts_db::parts_map_from(s, k).contains_key(id) ==> exists|j: int|
            k <= j < s.len() && s[j].part_id == id && crate::parts_db::parts_map_from(s, k)[id] == s[j]
            && forall|j2: int| j < j2 < s.len() ==> s[j2].part_id != id,
    decreases s.len() - k,
{
    if k < s.len() {
        lemma_parts_map_from(s, k + 1);
        let m = crate::parts_db::parts_map_from(s, k + 1);
        assert forall|id: u32| #[trigger] crate::parts_db::parts_map_from(s, k).contains_key(id) <==> exists|j: int| k <= j < s.len() && s[j].part_id == id by {
            if exists|j: int| k <= j < s.len() && s[j].part_id == id {
                let j = choose|j: int| k <= j < s.len() && s[j].part_id == id;
                if j > k {
                    assert(m.contains_key(id));
                }
            }
            if m.contains_key(id) {
                let j = choose|j: int| k + 1 <= j < s.len() && s[j].part_id == id;
                assert(k <= j < s.len() && s[j].part_id == id);
            }
        }
        assert forall|id: u32| #[trigger] crate::parts_db::parts_map_from(s, k).contains_key(id) implies exists|j: int|
            k <= j < s.len() && s[j].part_id == id && crate::parts_db::parts_map_from(s, k)[id] == s[j]
            && forall|j2: int| j < j2 < s.len() ==> s[j2].part_id != id by {
            if m.contains_key(id) {
                let j = choose|j: int| k + 1 <= j < s.len() && s[j].part_id == id && m[id] == s[j]
                    && forall|j2: int| j < j2 < s.len() ==> s[j2].part_id != id;
                assert(crate::parts_db::parts_map_from(s, k)[id] == s[j]);
            } else {
                assert(s[k].part_id == id);
                assert forall|j2: int| k < j2 < s.len() implies s[j2].part_id != id by {
                    if s[j2].part_id == id {
                        assert(m.contains_key(id));
                    }
                }
            }
        }
    }
}

/// The parts a database built from a parts table holds: the ids of its
/// entries, each mapped to the part read from the last entry with that id
pub open spec fn built_from(m: Map<u32, PartData>, root: Json) -> bool {
    &&& forall|id: u32| #[trigger] m.contains_key(id) <==> exists|j: int|
        0 <= j < part_entries(root).len() && entry_id(part_entries(root)[j]) == id
    &&& forall|id: u32| #[trigger] m.contains_key(id) ==> exists|j: int|
        0 <= j < part_entries(root).len() && entry_id(part_entries(root)[j]) == id
        && part_read_from(part_entries(root)[j], m[id])
        && forall|j2: int| j < j2 < part_entries(root).len() ==> entry_id(part_entries(root)[j2]) != id
}

impl PartsDB {
    /// Read the parts table from its text: none unless the text is a JSON
    /// object, else the database built from it
    pub fn load(text: &str) -> (r: Option<Self>)
        ensures
            match json_document(text@) {
                Some(root) => if root is Object {
                    r matches Some(db) && built_from(db.part_map(), root)
                } else {
                    r is None
                },
                None => r is None,
            },
    {
        match parse_json(text) {
            Some(root) => match root {
                Json::Object(_) => Some(PartsDB::from_json(&root)),
                _ => None,
            },
            None => None,
        }
    }

    /// Build the database from a parts table. Each id maps to the part read
    /// from the last entry with that id.
    pub fn from_json(root: &Json) -> (r: Self)
        ensures
            built_from(r.part_map(), *root),
    {
        let parts = parse_parts(root);
        let ghost ps = parts@;
        let ghost es = part_entries(*root);
        let db = PartsDB::from_parts(parts);
        proof {
            lemma_parts_map_from(ps, 0);
            assert forall|j: int| 0 <= j < ps.len() implies #[trigger] ps[j].part_id == entry_id(es[j]) by {
                assert(part_read_from(es[j], ps[j]));
            }
            assert forall|id: u32| #[trigger] db.part_map().contains_key(id) <==> exists|j: int|
                0 <= j < es.len() && entry_id(es[j]) == id by {
                if db.part_map().contains_key(id) {
                    let j = choose|j: int| 0 <= j < ps.len() && ps[j].part_id == id;
                    assert(entry_id(es[j]) == id);
                }
                if exists|j: int| 0 <= j < es.len() && entry_id(es[j]) == id {
                    let j = choose|j: int| 0 <= j < es.len() && entry_id(es[j]) == id;
                    assert(ps[j].part_id == id);
                }
            }
            assert forall|id: u32| #[trigger] db.part_map().contains_key(id) implies exists|j: int|
                0 <= j < es.len() && entry_id(es[j]) == id
                && part_read_from(es[j], db.part_map()[id])
                && forall|j2: int| j < j2 < es.len() ==> entry_id(es[j2]) != id by {
                let j = choose|j: int| 0 <= j < ps.len() && ps[j].part_id == id
                    && crate::parts_db::parts_map_from(ps, 0)[id] == ps[j]
                    && forall|j2: int| j < j2 < ps.len() ==> ps[j2].part_id != id;
                assert(part_read_from(es[j], ps[j]));
                assert forall|j2: int| j < j2 < es.len() implies entry_id(es[j2]) != id by {
                    assert(ps[j2].part_id == entry_id(es[j2]));
                }
            }
        }
        db
    }
}

} // verus!
