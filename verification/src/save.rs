//! Save state: user profiles, each with its car, junk piles, missions and
//! story flags.
//!
//! Profiles are keyed by player name. Every change is made through
//! `SaveManager`, whose contracts say exactly how the active profile changes;
//! writing the profiles to disk after each change is left to the caller.

use vstd::prelude::*;
use vstd::string::*;
use std::collections::HashMap;
use rand::seq::SliceRandom;
use crate::text::{
    add_flag, clone_strings, contains_str, decimal, drop_flag, holds_str, lemma_holds_str_view,
    owned, parse_u32, parse_u32_spec, remove_flag, str_eq, strings_view, u32_to_string, contains_u32,
};
use crate::parts_db::{PartsDB, random_ids};
use crate::game_rules::{figge_parts, figge_part_ids};

verus! {

broadcast use vstd::std_specs::hash::group_hash_axioms;

// ---------------------------------------------------------------------------
// Car
// ---------------------------------------------------------------------------

/// Saved car state
pub struct CarSave {
    /// Part IDs attached to the car
    pub parts: Vec<u32>,
    /// Car name (player-given)
    pub name: String,
    /// Earned medals
    pub medals: Vec<String>,
    /// Story flags (e.g. "#GotDogOnce", "#Dog")
    pub cache_list: Vec<String>,
}

/// Abstract car state
#[verifier::ext_equal]
pub struct CarView {
    pub parts: Seq<u32>,
    pub name: Seq<char>,
    pub medals: Seq<Seq<char>>,
    pub cache_list: Seq<Seq<char>>,
}

impl View for CarSave {
    type V = CarView;

    open spec fn view(&self) -> CarView {
        CarView {
            parts: self.parts@,
            name: self.name@,
            medals: strings_view(self.medals@),
            cache_list: strings_view(self.cache_list@),
        }
    }
}

/// The car a new player starts with: chassis, engine, tires and steering
pub open spec fn default_car() -> CarView {
    CarView {
        parts: seq![1u32, 82u32, 133u32, 152u32],
        name: Seq::empty(),
        medals: Seq::empty(),
        cache_list: Seq::empty(),
    }
}

impl Default for CarSave {
    fn default() -> (r: Self)
        ensures
            r@ == default_car(),
    {
        let mut parts: Vec<u32> = Vec::new();
        parts.push(1);
        parts.push(82);
        parts.push(133);
        parts.push(152);
        let r = CarSave { parts, name: String::new(), medals: Vec::new(), cache_list: Vec::new() };
        assert(r@.parts =~= default_car().parts);
        assert(r@.medals =~= default_car().medals);
        assert(r@.cache_list =~= default_car().cache_list);
        r
    }
}

// ---------------------------------------------------------------------------
// Junk piles
// ---------------------------------------------------------------------------

/// Saved positions of loose parts: six junk piles, the shop floor and the yard,
/// each a map from part ID to (x, y)
pub struct JunkSave {
    pub pile1: HashMap<u32, (i32, i32)>,
    pub pile2: HashMap<u32, (i32, i32)>,
    pub pile3: HashMap<u32, (i32, i32)>,
    pub pile4: HashMap<u32, (i32, i32)>,
    pub pile5: HashMap<u32, (i32, i32)>,
    pub pile6: HashMap<u32, (i32, i32)>,
    pub shop_floor: HashMap<u32, (i32, i32)>,
    pub yard: HashMap<u32, (i32, i32)>,
}

/// Abstract junk state
#[verifier::ext_equal]
pub struct JunkView {
    pub pile1: Map<u32, (i32, i32)>,
    pub pile2: Map<u32, (i32, i32)>,
    pub pile3: Map<u32, (i32, i32)>,
    pub pile4: Map<u32, (i32, i32)>,
    pub pile5: Map<u32, (i32, i32)>,
    pub pile6: Map<u32, (i32, i32)>,
    pub shop_floor: Map<u32, (i32, i32)>,
    pub yard: Map<u32, (i32, i32)>,
}

impl View for JunkSave {
    type V = JunkView;

    open spec fn view(&self) -> JunkView {
        JunkView {
            pile1: self.pile1@,
            pile2: self.pile2@,
            pile3: self.pile3@,
            pile4: self.pile4@,
            pile5: self.pile5@,
            pile6: self.pile6@,
            shop_floor: self.shop_floor@,
            yard: self.yard@,
        }
    }
}

impl JunkView {
    /// The pile with the given index (1-6); any other index means pile 1
    pub open spec fn pile(self, index: u8) -> Map<u32, (i32, i32)> {
        if index == 2 {
            self.pile2
        } else if index == 3 {
            self.pile3
        } else if index == 4 {
            self.pile4
        } else if index == 5 {
            self.pile5
        } else if index == 6 {
            self.pile6
        } else {
            self.pile1
        }
    }

    /// The same state with the pile of the given index replaced
    pub open spec fn with_pile(self, index: u8, m: Map<u32, (i32, i32)>) -> JunkView {
        if index == 2 {
            JunkView { pile2: m, ..self }
        } else if index == 3 {
            JunkView { pile3: m, ..self }
        } else if index == 4 {
            JunkView { pile4: m, ..self }
        } else if index == 5 {
            JunkView { pile5: m, ..self }
        } else if index == 6 {
            JunkView { pile6: m, ..self }
        } else {
            JunkView { pile1: m, ..self }
        }
    }

    /// The same state with `part_id` removed from every location
    pub open spec fn without_part(self, part_id: u32) -> JunkView {
        JunkView {
            pile1: self.pile1.remove(part_id),
            pile2: self.pile2.remove(part_id),
            pile3: self.pile3.remove(part_id),
            pile4: self.pile4.remove(part_id),
            pile5: self.pile5.remove(part_id),
            pile6: self.pile6.remove(part_id),
            shop_floor: self.shop_floor.remove(part_id),
            yard: self.yard.remove(part_id),
        }
    }

    /// Does some location hold `part_id`?
    pub open spec fn holds_part(self, part_id: u32) -> bool {
        ||| self.pile1.contains_key(part_id)
        ||| self.pile2.contains_key(part_id)
        ||| self.pile3.contains_key(part_id)
        ||| self.pile4.contains_key(part_id)
        ||| self.pile5.contains_key(part_id)
        ||| self.pile6.contains_key(part_id)
        ||| self.shop_floor.contains_key(part_id)
        ||| self.yard.contains_key(part_id)
    }
}

/// The junk a new player starts with
pub open spec fn default_junk() -> JunkView {
    JunkView {
        pile1: map![66u32 => (296i32, 234i32), 29u32 => (412i32, 311i32),
            143u32 => (416i32, 186i32), 178u32 => (570i32, 255i32)],
        pile2: map![215u32 => (545i32, 222i32), 47u32 => (386i32, 304i32),
            12u32 => (239i32, 269i32), 140u32 => (352i32, 187i32)],
        pile3: map![153u32 => (512i32, 153i32), 131u32 => (464i32, 298i32),
            307u32 => (246i32, 285i32), 112u32 => (561i32, 293i32), 30u32 => (339i32, 189i32)],
        pile4: map![190u32 => (182i32, 143i32), 23u32 => (346i32, 203i32),
            126u32 => (178i32, 301i32), 211u32 => (75i32, 193i32)],
        pile5: map![6u32 => (192i32, 377i32), 90u32 => (102i32, 290i32),
            203u32 => (33i32, 122i32), 158u32 => (186i32, 164i32), 119u32 => (375i32, 268i32)],
        pile6: map![2u32 => (160i32, 351i32), 214u32 => (130i32, 172i32),
            210u32 => (281i32, 300i32), 121u32 => (85i32, 275i32)],
        shop_floor: map![200u32 => (160i32, 351i32)],
        yard: Map::empty(),
    }
}

/// An empty location map
fn empty_spots() -> (r: HashMap<u32, (i32, i32)>)
    ensures
        r@ == Map::<u32, (i32, i32)>::empty(),
{
    HashMap::new()
}

impl JunkSave {
    /// All locations empty
    pub fn empty() -> (r: Self)
        ensures
            r@.pile1 == Map::<u32, (i32, i32)>::empty(),
            r@.pile2 == Map::<u32, (i32, i32)>::empty(),
            r@.pile3 == Map::<u32, (i32, i32)>::empty(),
            r@.pile4 == Map::<u32, (i32, i32)>::empty(),
            r@.pile5 == Map::<u32, (i32, i32)>::empty(),
            r@.pile6 == Map::<u32, (i32, i32)>::empty(),
            r@.shop_floor == Map::<u32, (i32, i32)>::empty(),
            r@.yard == Map::<u32, (i32, i32)>::empty(),
    {
        JunkSave {
            pile1: empty_spots(),
            pile2: empty_spots(),
            pile3: empty_spots(),
            pile4: empty_spots(),
            pile5: empty_spots(),
            pile6: empty_spots(),
            shop_floor: empty_spots(),
            yard: empty_spots(),
        }
    }

    /// Get a mutable reference to a pile by index (1-6; any other index gives pile 1)
    pub fn pile_mut(&mut self, index: u8) -> (r: &mut HashMap<u32, (i32, i32)>)
        ensures
            r@ == old(self)@.pile(index),
            final(self)@ == old(self)@.with_pile(index, final(r)@),
    {
        match index {
            2 => &mut self.pile2,
            3 => &mut self.pile3,
            4 => &mut self.pile4,
            5 => &mut self.pile5,
            6 => &mut self.pile6,
            _ => &mut self.pile1,
        }
    }

    /// Get a reference to a pile by index (1-6; any other index gives pile 1)
    pub fn pile(&self, index: u8) -> (r: &HashMap<u32, (i32, i32)>)
        ensures
            r@ == self@.pile(index),
    {
        match index {
            2 => &self.pile2,
            3 => &self.pile3,
            4 => &self.pile4,
            5 => &self.pile5,
            6 => &self.pile6,
            _ => &self.pile1,
        }
    }

    /// Remove a part from all locations (piles, shop floor, yard), so that it
    /// can be put in a new one without being duplicated
    pub fn remove_part_everywhere(&mut self, part_id: u32)
        ensures
            final(self)@ == old(self)@.without_part(part_id),
    {
        self.pile1.remove(&part_id);
        self.pile2.remove(&part_id);
        self.pile3.remove(&part_id);
        self.pile4.remove(&part_id);
        self.pile5.remove(&part_id);
        self.pile6.remove(&part_id);
        self.shop_floor.remove(&part_id);
        self.yard.remove(&part_id);
    }

    /// The junk piles and shop floor a new player starts with
    pub fn init_defaults() -> (r: Self)
        ensures
            r@ == default_junk(),
    {
        let mut junk = JunkSave::empty();

        junk.pile1.insert(66, (296, 234));
        junk.pile1.insert(29, (412, 311));
        junk.pile1.insert(143, (416, 186));
        junk.pile1.insert(178, (570, 255));

        junk.pile2.insert(215, (545, 222));
        junk.pile2.insert(47, (386, 304));
        junk.pile2.insert(12, (239, 269));
        junk.pile2.insert(140, (352, 187));

        junk.pile3.insert(153, (512, 153));
        junk.pile3.insert(131, (464, 298));
        junk.pile3.insert(307, (246, 285));
        junk.pile3.insert(112, (561, 293));
        junk.pile3.insert(30, (339, 189));

        junk.pile4.insert(190, (182, 143));
        junk.pile4.insert(23, (346, 203));
        junk.pile4.insert(126, (178, 301));
        junk.pile4.insert(211, (75, 193));

        junk.pile5.insert(6, (192, 377));
        junk.pile5.insert(90, (102, 290));
        junk.pile5.insert(203, (33, 122));
        junk.pile5.insert(158, (186, 164));
        junk.pile5.insert(119, (375, 268));

        junk.pile6.insert(2, (160, 351));
        junk.pile6.insert(214, (130, 172));
        junk.pile6.insert(210, (281, 300));
        junk.pile6.insert(121, (85, 275));

        junk.shop_floor.insert(200, (160, 351));

        proof {
            let d = default_junk();
            assert(junk@.pile1 =~= d.pile1);
            assert(junk@.pile2 =~= d.pile2);
            assert(junk@.pile3 =~= d.pile3);
            assert(junk@.pile4 =~= d.pile4);
            assert(junk@.pile5 =~= d.pile5);
            assert(junk@.pile6 =~= d.pile6);
            assert(junk@.shop_floor =~= d.shop_floor);
            assert(junk@.yard =~= d.yard);
        }
        junk
    }
}

// ---------------------------------------------------------------------------
// Profiles
// ---------------------------------------------------------------------------

/// A single user's saved game state
pub struct UserSave {
    /// Player name (profile key)
    pub user_id: String,
    /// Car state
    pub car: CarSave,
    /// Junk pile contents
    pub junk: JunkSave,
    /// Completed mission IDs
    pub completed_missions: Vec<String>,
    /// Owned items / story flags
    pub own_stuff: Vec<String>,
    /// Given missions not yet done
    pub given_missions: Vec<String>,
    /// Last visited junk pile (1-6)
    pub my_last_pile: u8,
}

/// Abstract profile
#[verifier::ext_equal]
pub struct UserView {
    pub user_id: Seq<char>,
    pub car: CarView,
    pub junk: JunkView,
    pub completed_missions: Seq<Seq<char>>,
    pub own_stuff: Seq<Seq<char>>,
    pub given_missions: Seq<Seq<char>>,
    pub my_last_pile: u8,
}

impl View for UserSave {
    type V = UserView;

    open spec fn view(&self) -> UserView {
        UserView {
            user_id: self.user_id@,
            car: self.car@,
            junk: self.junk@,
            completed_missions: strings_view(self.completed_missions@),
            own_stuff: strings_view(self.own_stuff@),
            given_missions: strings_view(self.given_missions@),
            my_last_pile: self.my_last_pile,
        }
    }
}

/// A new profile: the default car, the default junk, no missions, no flags,
/// last pile 1
pub open spec fn fresh_user(name: Seq<char>) -> UserView {
    UserView {
        user_id: name,
        car: default_car(),
        junk: default_junk(),
        completed_missions: Seq::empty(),
        own_stuff: Seq::empty(),
        given_missions: Seq::empty(),
        my_last_pile: 1,
    }
}

impl UserSave {
    /// Create a new profile with defaults
    pub fn new(name: &str) -> (r: Self)
        ensures
            r@ == fresh_user(name@),
    {
        let r = UserSave {
            user_id: owned(name),
            car: CarSave::default(),
            junk: JunkSave::init_defaults(),
            completed_missions: Vec::new(),
            own_stuff: Vec::new(),
            given_missions: Vec::new(),
            my_last_pile: 1,
        };
        assert(r@.completed_missions =~= Seq::<Seq<char>>::empty());
        assert(r@.own_stuff =~= Seq::<Seq<char>>::empty());
        assert(r@.given_missions =~= Seq::<Seq<char>>::empty());
        r
    }
}

/// Profiles as (name, profile) pairs
pub open spec fn profiles_view(s: Seq<(String, UserSave)>) -> Seq<(Seq<char>, UserView)> {
    s.map_values(|p: (String, UserSave)| (p.0@, p.1@))
}

/// Index of the last profile with the given name
pub open spec fn find_user(s: Seq<(Seq<char>, UserView)>, name: Seq<char>) -> Option<int>
    decreases s.len(),
{
    if s.len() == 0 {
        None
    } else if s.last().0 == name {
        Some(s.len() - 1)
    } else {
        find_user(s.drop_last(), name)
    }
}

/// The profile with the given name
pub open spec fn lookup_user(s: Seq<(Seq<char>, UserView)>, name: Seq<char>) -> Option<UserView> {
    match find_user(s, name) {
        Some(i) => Some(s[i].1),
        None => None,
    }
}

/// No name occurs twice
pub open spec fn names_distinct(s: Seq<(Seq<char>, UserView)>) -> bool {
    forall|i: int, j: int| 0 <= i < s.len() && 0 <= j < s.len() && i != j ==> #[trigger] s[i].0 != #[trigger] s[j].0
}

proof fn lemma_find_user(s: Seq<(Seq<char>, UserView)>, name: Seq<char>)
    ensures
        match find_user(s, name) {
            Some(i) => 0 <= i < s.len() && s[i].0 == name
                && forall|j: int| i < j < s.len() ==> #[trigger] s[j].0 != name,
            None => forall|j: int| 0 <= j < s.len() ==> #[trigger] s[j].0 != name,
        },
    decreases s.len(),
{
    if s.len() > 0 {
        lemma_find_user(s.drop_last(), name);
        if s.last().0 != name {
            match find_user(s.drop_last(), name) {
                Some(i) => {
                    assert forall|j: int| i < j < s.len() implies #[trigger] s[j].0 != name by {
                        if j < s.len() - 1 {
                            assert(s[j] == s.drop_last()[j]);
                        }
                    }
                }
                None => {
                    assert forall|j: int| 0 <= j < s.len() implies #[trigger] s[j].0 != name by {
                        if j < s.len() - 1 {
                            assert(s[j] == s.drop_last()[j]);
                        }
                    }
                }
            }
        }
    }
}

proof fn lemma_find_user_update(s: Seq<(Seq<char>, UserView)>, i: int, p: (Seq<char>, UserView), name: Seq<char>)
    requires
        0 <= i < s.len(),
        p.0 == s[i].0,
    ensures
        find_user(s.update(i, p), name) == find_user(s, name),
    decreases s.len(),
{
    let t = s.update(i, p);
    if i < s.len() - 1 {
        assert(t.drop_last() =~= s.drop_last().update(i, p));
        lemma_find_user_update(s.drop_last(), i, p, name);
    } else {
        assert(t.drop_last() =~= s.drop_last());
    }
}

proof fn lemma_find_user_unique(s: Seq<(Seq<char>, UserView)>, name: Seq<char>, k: int)
    requires
        names_distinct(s),
        0 <= k < s.len(),
        s[k].0 == name,
    ensures
        find_user(s, name) == Some(k),
{
    lemma_find_user(s, name);
}

/// All user profiles, keyed by player name
pub struct UsersDB {
    users: Vec<(String, UserSave)>,
}

impl View for UsersDB {
    type V = Seq<(Seq<char>, UserView)>;

    closed spec fn view(&self) -> Seq<(Seq<char>, UserView)> {
        profiles_view(self.users@)
    }
}

impl UsersDB {
    /// No profiles
    pub fn new() -> (r: Self)
        ensures
            r@.len() == 0,
    {
        UsersDB { users: Vec::new() }
    }

    /// Number of profiles
    pub fn len(&self) -> (r: usize)
        ensures
            r == self@.len(),
    {
        self.users.len()
    }

    /// The stored (name, profile) pairs
    pub fn entries(&self) -> (r: &[(String, UserSave)])
        ensures
            profiles_view(r@) == self@,
    {
        self.users.as_slice()
    }

    fn index_of(&self, name: &str) -> (r: Option<usize>)
        ensures
            match r {
                Some(i) => find_user(self@, name@) == Some(i as int),
                None => find_user(self@, name@) is None,
            },
    {
        let mut i: usize = self.users.len();
        let ghost v = self@;
        assert(v.take(i as int) =~= v);
        while i > 0
            invariant
                i <= self.users@.len(),
                v == self@,
                find_user(v, name@) == find_user(v.take(i as int), name@),
            decreases i,
        {
            let ghost t = v.take(i as int);
            assert(t.last() == v[i - 1]);
            assert(t.drop_last() =~= v.take(i - 1));
            if str_eq(self.users[i - 1].0.as_str(), name) {
                return Some(i - 1);
            }
            i = i - 1;
        }
        None
    }

    /// The profile with the given name
    pub fn get(&self, name: &str) -> (r: Option<&UserSave>)
        ensures
            match lookup_user(self@, name@) {
                Some(u) => r is Some && r.unwrap()@ == u,
                None => r is None,
            },
    {
        proof {
            lemma_find_user(self@, name@);
        }
        match self.index_of(name) {
            Some(i) => {
                assert(self@[i as int].1 == self.users@[i as int].1@);
                Some(&self.users[i].1)
            },
            None => None,
        }
    }

    /// Store a profile under a name, replacing one of that name
    pub fn insert(&mut self, name: &str, user: UserSave)
        ensures
            final(self)@ == (match find_user(old(self)@, name@) {
                Some(i) => old(self)@.update(i, (name@, user@)),
                None => old(self)@.push((name@, user@)),
            }),
            names_distinct(old(self)@) ==> names_distinct(final(self)@),
    {
        proof {
            lemma_find_user(self@, name@);
        }
        match self.index_of(name) {
            Some(i) => {
                let ghost o = self.users@;
                self.users.set(i, (owned(name), user));
                assert(self@ =~= profiles_view(o).update(i as int, (name@, user@)));
            },
            None => {
                let ghost o = self.users@;
                self.users.push((owned(name), user));
                assert(self@ =~= profiles_view(o).push((name@, user@)));
            },
        }
    }
}

/// `rand::seq::SliceRandom::choose` with `rand::thread_rng()`: `None` for an
/// empty slice, otherwise an element of the slice picked at random.
#[verifier::external_body]
fn choose_random(items: &[u32]) -> (r: Option<u32>)
    ensures
        r is None <==> items@.len() == 0,
        r matches Some(x) ==> items@.contains(x),
{
    items.choose(&mut rand::thread_rng()).copied()
}

/// Does `s` start with `p`?
fn str_starts_with(s: &str, p: &str) -> (r: bool)
    ensures
        r == starts_with(s@, p@),
{
    let sl = s.unicode_len();
    let pl = p.unicode_len();
    if pl > sl {
        return false;
    }
    let mut i: usize = 0;
    while i < pl
        invariant
            sl == s@.len(), pl == p@.len(), pl <= sl, i <= pl,
            forall|k: int| 0 <= k < i ==> s@[k] == p@[k],
        decreases pl - i,
    {
        if s.get_char(i) != p.get_char(i) {
            assert(s@.subrange(0, pl as int)[i as int] != p@[i as int]);
            return false;
        }
        i = i + 1;
    }
    assert(s@.subrange(0, pl as int) =~= p@);
    true
}

proof fn lemma_after_last_underscore(s: Seq<char>, k: int)
    requires
        0 <= k <= s.len(),
        forall|j: int| k <= j < s.len() ==> s[j] != '_',
        k == 0 || s[k - 1] == '_',
    ensures
        after_last_underscore(s) == s.subrange(k, s.len() as int),
    decreases s.len(),
{
    if s.len() > k {
        lemma_after_last_underscore(s.drop_last(), k);
        assert(s.subrange(k, s.len() as int) =~= s.drop_last().subrange(k, s.len() - 1).push(s.last()));
    } else if k > 0 {
        assert(s.last() == '_');
        assert(s.subrange(k, s.len() as int) =~= Seq::<char>::empty());
    } else {
        assert(s.subrange(k, s.len() as int) =~= s);
    }
}

/// The spot for a part dropped on a target
fn drop_spot(target: &str, part_id: u32) -> (r: Option<DropSpot>)
    requires
        drop_places(target@) ==> part_id as int * 37 <= u32::MAX,
    ensures
        r == drop_spot_of(target@, part_id),
{
    if str_eq(target, "door_junk") {
        let spread = part_id * 37;
        Some(DropSpot::Pile(1, ((spread % 500 + 70) as i32, 240)))
    } else if str_eq(target, "door_yard") {
        let spread = part_id * 37;
        Some(DropSpot::Yard(((spread % 400 + 100) as i32, 200)))
    } else if str_eq(target, "door_shop") {
        let spread = part_id * 37;
        Some(DropSpot::ShopFloor(((spread % 400 + 100) as i32, 351)))
    } else if str_starts_with(target, "arrow_right_") || str_starts_with(target, "arrow_left_") {
        let len = target.unicode_len();
        let mut k: usize = len;
        while k > 0 && target.get_char(k - 1) != '_'
            invariant
                len == target@.len(),
                k <= len,
                forall|j: int| k <= j < len ==> target@[j] != '_',
            decreases k,
        {
            k = k - 1;
        }
        proof {
            lemma_after_last_underscore(target@, k as int);
        }
        let tail = target.substring_char(k, len);
        match parse_u32(tail) {
            Some(n) => {
                if n <= 255 {
                    let spread = part_id * 37;
                    Some(DropSpot::Pile(n as u8, ((spread % 400 + 100) as i32, 240)))
                } else {
                    Some(DropSpot::Nowhere)
                }
            },
            None => Some(DropSpot::Nowhere),
        }
    } else {
        None
    }
}

// ---------------------------------------------------------------------------
// Save manager
// ---------------------------------------------------------------------------

/// Position given to the n-th part put in the yard: five per row, 80 apart,
/// rows 60 apart, starting at (100, 200)
pub open spec fn yard_spot(n: nat) -> (i32, i32) {
    ((100 + (n % 5) * 80) as i32, (200 + (n / 5) * 60) as i32)
}

impl UserView {
    pub open spec fn with_car_parts(self, parts: Seq<u32>) -> UserView {
        UserView { car: CarView { parts, ..self.car }, ..self }
    }

    pub open spec fn with_car_name(self, name: Seq<char>) -> UserView {
        UserView { car: CarView { name, ..self.car }, ..self }
    }

    pub open spec fn with_junk(self, junk: JunkView) -> UserView {
        UserView { junk, ..self }
    }

    /// Record a completed mission, once
    pub open spec fn complete(self, m: Seq<char>) -> UserView {
        if self.completed_missions.contains(m) {
            self
        } else {
            UserView { completed_missions: self.completed_missions.push(m), ..self }
        }
    }

    /// Give a mission unless it was given or completed before
    pub open spec fn give(self, m: Seq<char>) -> UserView {
        if self.given_missions.contains(m) || self.completed_missions.contains(m) {
            self
        } else {
            UserView { given_missions: self.given_missions.push(m), ..self }
        }
    }

    /// Take the first given mission and record it as completed
    pub open spec fn pop_given(self) -> UserView {
        UserView { given_missions: self.given_missions.drop_first(), ..self }.complete(self.given_missions[0])
    }

    /// Own an item, once
    pub open spec fn add_stuff(self, item: Seq<char>) -> UserView {
        if self.own_stuff.contains(item) {
            self
        } else {
            UserView { own_stuff: self.own_stuff.push(item), ..self }
        }
    }

    pub open spec fn remove_stuff(self, item: Seq<char>) -> UserView {
        UserView { own_stuff: drop_flag(self.own_stuff, item), ..self }
    }

    pub open spec fn with_last_pile(self, pile: u8) -> UserView {
        UserView { my_last_pile: pile, ..self }
    }

    /// Put a part in the yard at the next free spot
    pub open spec fn add_yard_part(self, part_id: u32) -> UserView {
        self.with_junk(JunkView { yard: self.junk.yard.insert(part_id, yard_spot(self.junk.yard.len())), ..self.junk })
    }

    /// Is the part on the car or in one of the junk locations?
    pub open spec fn owns_part(self, part_id: u32) -> bool {
        self.junk.holds_part(part_id) || self.car.parts.contains(part_id)
    }
}

/// The ids of `ids` that the profile does not own, in order
pub open spec fn unowned_ids(ids: Seq<u32>, u: UserView) -> Seq<u32>
    decreases ids.len(),
{
    if ids.len() == 0 {
        ids
    } else if u.owns_part(ids.last()) {
        unowned_ids(ids.drop_last(), u)
    } else {
        unowned_ids(ids.drop_last(), u).push(ids.last())
    }
}

/// Does `s` start with `p`?
pub open spec fn starts_with(s: Seq<char>, p: Seq<char>) -> bool {
    s.len() >= p.len() && s.subrange(0, p.len() as int) == p
}

/// The text after the last '_' (all of `s` if it has none)
pub open spec fn after_last_underscore(s: Seq<char>) -> Seq<char>
    decreases s.len(),
{
    if s.len() == 0 {
        s
    } else if s.last() == '_' {
        Seq::empty()
    } else {
        after_last_underscore(s.drop_last()).push(s.last())
    }
}

/// Where a part dropped on a door or arrow goes, with its position there
pub enum DropSpot {
    /// A junk pile (an index outside 1-6 means pile 1)
    Pile(u8, (i32, i32)),
    Yard((i32, i32)),
    ShopFloor((i32, i32)),
    /// An arrow without a readable pile number: the part goes nowhere
    Nowhere,
}

/// The spot for a part dropped on a target; `None` for an unknown target
pub open spec fn drop_spot_of(target: Seq<char>, part_id: u32) -> Option<DropSpot> {
    let spread = part_id * 37;
    if target == "door_junk"@ {
        Some(DropSpot::Pile(1, ((spread % 500 + 70) as i32, 240)))
    } else if target == "door_yard"@ {
        Some(DropSpot::Yard(((spread % 400 + 100) as i32, 200)))
    } else if target == "door_shop"@ {
        Some(DropSpot::ShopFloor(((spread % 400 + 100) as i32, 351)))
    } else if starts_with(target, "arrow_right_"@) || starts_with(target, "arrow_left_"@) {
        match parse_u32_spec(after_last_underscore(target)) {
            Some(n) => if n <= 255 { Some(DropSpot::Pile(n as u8, ((spread % 400 + 100) as i32, 240))) } else { Some(DropSpot::Nowhere) },
            None => Some(DropSpot::Nowhere),
        }
    } else {
        None
    }
}

/// Whether a part dropped on the target is put somewhere (a door, or an
/// arrow with a readable pile number); only then is its spot computed
pub open spec fn drop_places(target: Seq<char>) -> bool {
    match drop_spot_of(target, 0) {
        Some(DropSpot::Nowhere) | None => false,
        _ => true,
    }
}

/// Junk after moving a dropped part: it leaves every location, then goes to
/// its spot (an unknown target leaves it nowhere)
pub open spec fn junk_after_drop(j: JunkView, part_id: u32, spot: Option<DropSpot>) -> JunkView {
    let cleared = j.without_part(part_id);
    match spot {
        Some(DropSpot::Pile(n, pos)) => cleared.with_pile(n, cleared.pile(n).insert(part_id, pos)),
        Some(DropSpot::Yard(pos)) => JunkView { yard: cleared.yard.insert(part_id, pos), ..cleared },
        Some(DropSpot::ShopFloor(pos)) => JunkView { shop_floor: cleared.shop_floor.insert(part_id, pos), ..cleared },
        _ => cleared,
    }
}

/// Figge's gifts from a list of parts: going through the list in order,
/// each part not in the yard is put there, until three were given. The
/// profile after the gifts, and the parts given.
pub open spec fn gifts(u: UserView, ids: Seq<u32>) -> (UserView, Seq<u32>)
    decreases ids.len(),
{
    if ids.len() == 0 {
        (u, Seq::empty())
    } else {
        let prev = gifts(u, ids.drop_last());
        let id = ids.last();
        if prev.1.len() >= 3 || prev.0.junk.yard.contains_key(id) {
            prev
        } else {
            (prev.0.add_yard_part(id), prev.1.push(id))
        }
    }
}

proof fn lemma_gifts_saturated(u: UserView, ids: Seq<u32>, k: int, m: int)
    requires
        0 <= k <= m <= ids.len(),
        gifts(u, ids.take(k)).1.len() >= 3,
    ensures
        gifts(u, ids.take(m)) == gifts(u, ids.take(k)),
    decreases m - k,
{
    if m > k {
        lemma_gifts_saturated(u, ids, k, m - 1);
        assert(ids.take(m).drop_last() =~= ids.take(m - 1));
    }
}

/// Abstract state of the save manager
#[verifier::ext_equal]
pub struct SaveState {
    pub users: Seq<(Seq<char>, UserView)>,
    pub active: Option<Seq<char>>,
}

impl SaveState {
    /// Position of the active profile
    pub open spec fn active_index(self) -> Option<int> {
        match self.active {
            Some(n) => find_user(self.users, n),
            None => None,
        }
    }

    /// The active profile
    pub open spec fn active_user(self) -> Option<UserView> {
        match self.active_index() {
            Some(i) => Some(self.users[i].1),
            None => None,
        }
    }

    /// The state with `f` applied to the active profile (unchanged without one)
    pub open spec fn map_active(self, f: spec_fn(UserView) -> UserView) -> SaveState {
        match self.active_index() {
            Some(i) => SaveState { users: self.users.update(i, (self.users[i].0, f(self.users[i].1))), ..self },
            None => self,
        }
    }

    /// Profile names are distinct
    pub open spec fn wf(self) -> bool {
        names_distinct(self.users)
    }
}

/// Changing the active profile keeps it active: the changed state has the
/// same active position, and its active profile is the changed one.
pub proof fn lemma_map_active(st: SaveState, f: spec_fn(UserView) -> UserView)
    ensures
        st.map_active(f).active_index() == st.active_index(),
        st.map_active(f).active_user() == (match st.active_user() {
            Some(u) => Some(f(u)),
            None => None,
        }),
        st.map_active(f).users.len() == st.users.len(),
        forall|j: int| 0 <= j < st.users.len() ==> #[trigger] st.map_active(f).users[j].0 == st.users[j].0,
        st.wf() ==> st.map_active(f).wf(),
{
    if let Some(i) = st.active_index() {
        let n = st.active.unwrap();
        lemma_find_user(st.users, n);
        lemma_find_user_update(st.users, i, (st.users[i].0, f(st.users[i].1)), n);
    }
    let m = st.map_active(f);
    assert forall|a: int, b: int| st.wf() && 0 <= a < m.users.len() && 0 <= b < m.users.len() && a != b
        implies #[trigger] m.users[a].0 != #[trigger] m.users[b].0 by {
        assert(m.users[a].0 == st.users[a].0);
        assert(m.users[b].0 == st.users[b].0);
    }
}

broadcast proof fn lemma_profiles_update(s: Seq<(String, UserSave)>, i: int, p: (String, UserSave))
    requires
        0 <= i < s.len(),
    ensures
        #[trigger] profiles_view(s.update(i, p)) == profiles_view(s).update(i, (p.0@, p.1@)),
{
    assert(profiles_view(s.update(i, p)) =~= profiles_view(s).update(i, (p.0@, p.1@)));
}

/// The names of the profiles, in order
pub open spec fn profile_names_of(users: Seq<(Seq<char>, UserView)>) -> Seq<Seq<char>> {
    users.map_values(|p: (Seq<char>, UserView)| p.0)
}

/// The names other than `keep`, in order
pub open spec fn names_except(names: Seq<Seq<char>>, keep: Seq<char>) -> Seq<Seq<char>>
    decreases names.len(),
{
    if names.len() == 0 {
        names
    } else {
        let r = names_except(names.drop_last(), keep);
        if names.last() == keep { r } else { r.push(names.last()) }
    }
}

/// The profiles removed to make room before a login as `keep`: with more
/// than 10 profiles, the first ones other than `keep`, as many as there are
/// beyond 10
pub open spec fn stale_profiles(names: Seq<Seq<char>>, keep: Seq<char>) -> Seq<Seq<char>> {
    if names.len() > 10 {
        let o = names_except(names, keep);
        if o.len() <= names.len() - 10 { o } else { o.take(names.len() - 10) }
    } else {
        Seq::empty()
    }
}

/// The state after deleting a profile; it stops being active if it was
pub open spec fn deleted(st: SaveState, name: Seq<char>) -> SaveState {
    SaveState {
        users: match find_user(st.users, name) {
            Some(i) => st.users.remove(i),
            None => st.users,
        },
        active: if st.active == Some(name) { None } else { st.active },
    }
}

/// The state after deleting the named profiles one after another
pub open spec fn after_deletes(st: SaveState, names: Seq<Seq<char>>) -> SaveState
    decreases names.len(),
{
    if names.len() == 0 {
        st
    } else {
        deleted(after_deletes(st, names.drop_last()), names.last())
    }
}

proof fn lemma_names_except_prefix(names: Seq<Seq<char>>, keep: Seq<char>, j: int, m: int)
    requires
        0 <= j <= m <= names.len(),
    ensures
        names_except(names.take(j), keep).len() <= names_except(names.take(m), keep).len(),
        names_except(names.take(m), keep).take(names_except(names.take(j), keep).len() as int)
            == names_except(names.take(j), keep),
    decreases m - j,
{
    if m > j {
        lemma_names_except_prefix(names, keep, j, m - 1);
        let t = names.take(m);
        assert(t.drop_last() =~= names.take(m - 1));
        let a = names_except(names.take(j), keep);
        let b = names_except(names.take(m - 1), keep);
        if t.last() != keep {
            assert(b.push(t.last()).take(a.len() as int) =~= b.take(a.len() as int));
        }
    } else {
        assert(names_except(names.take(m), keep).take(names_except(names.take(m), keep).len() as int)
            =~= names_except(names.take(m), keep));
    }
}

/// Profiles in memory, and which one is active
pub struct SaveManager {
    /// All user profiles
    pub users_db: UsersDB,
    /// Currently active profile name
    pub active_user: Option<String>,
}

impl View for SaveManager {
    type V = SaveState;

    open spec fn view(&self) -> SaveState {
        SaveState {
            users: self.users_db@,
            active: match self.active_user {
                Some(n) => Some(n@),
                None => None,
            },
        }
    }
}

impl SaveManager {
    /// Manage the given profiles; none is active
    pub fn new(users_db: UsersDB) -> (r: Self)
        ensures
            r@.users == users_db@,
            r@.active is None,
    {
        SaveManager { users_db, active_user: None }
    }

    fn active_index(&self) -> (r: Option<usize>)
        ensures
            match r {
                Some(i) => self@.active_index() == Some(i as int) && i < self@.users.len(),
                None => self@.active_index() is None,
            },
    {
        proof {
            if let Some(n) = self@.active {
                lemma_find_user(self@.users, n);
            }
        }
        match &self.active_user {
            Some(n) => self.users_db.index_of(n.as_str()),
            None => None,
        }
    }

    /// Get or create the profile of the given name, and make it active
    pub fn login(&mut self, name: &str) -> (r: &UserSave)
        ensures
            final(self)@.users == users_after_login(old(self)@.users, name@),
            final(self)@.active == Some(name@),
            final(self)@.active_user() == Some(r@),
            old(self)@.wf() ==> final(self)@.wf(),
    {
        proof {
            lemma_find_user(self@.users, name@);
        }
        if self.users_db.index_of(name).is_none() {
            let u = UserSave::new(name);
            self.users_db.insert(name, u);
        }
        self.active_user = Some(owned(name));
        proof {
            lemma_find_user(self@.users, name@);
        }
        let i = self.users_db.index_of(name).unwrap();
        assert(self@.users[i as int].1 == self.users_db.users@[i as int].1@);
        &self.users_db.users[i].1
    }

    /// The active profile
    pub fn active(&self) -> (r: Option<&UserSave>)
        ensures
            match self@.active_user() {
                Some(u) => r is Some && r.unwrap()@ == u,
                None => r is None,
            },
    {
        match self.active_index() {
            Some(i) => {
                assert(self@.users[i as int].1 == self.users_db.users@[i as int].1@);
                Some(&self.users_db.users[i].1)
            },
            None => None,
        }
    }

    /// The active profile, for changing it in place
    pub fn active_mut(&mut self) -> (r: Option<&mut UserSave>)
        ensures
            match old(self)@.active_index() {
                Some(i) => r is Some && r.unwrap()@ == old(self)@.users[i].1
                    && final(self)@ == old(self)@.map_active(|u: UserView| final(r.unwrap())@),
                None => r is None && final(self)@ == old(self)@,
            },
    {
        broadcast use lemma_profiles_update;
        match self.active_index() {
            Some(i) => {
                assert(self@.users[i as int].1 == self.users_db.users@[i as int].1@);
                Some(&mut self.users_db.users[i].1)
            },
            None => None,
        }
    }

    /// List all saved profile names
    pub fn profile_names(&self) -> (r: Vec<&str>)
        ensures
            r@.len() == self@.users.len(),
            forall|i: int| 0 <= i < r@.len() ==> #[trigger] r@[i]@ == self@.users[i].0,
    {
        let mut names: Vec<&str> = Vec::new();
        let mut i: usize = 0;
        while i < self.users_db.users.len()
            invariant
                i <= self.users_db.users@.len(),
                names@.len() == i,
                forall|j: int| 0 <= j < i ==> #[trigger] names@[j]@ == self@.users[j].0,
            decreases self.users_db.users@.len() - i,
        {
            assert(self@.users[i as int].0 == self.users_db.users@[i as int].0@);
            names.push(self.users_db.users[i].0.as_str());
            i = i + 1;
        }
        names
    }

    /// Delete a profile; it stops being active if it was
    pub fn delete_profile(&mut self, name: &str)
        ensures
            final(self)@.users == (match find_user(old(self)@.users, name@) {
                Some(i) => old(self)@.users.remove(i),
                None => old(self)@.users,
            }),
            final(self)@.active == (if old(self)@.active == Some(name@) { None } else { old(self)@.active }),
            old(self)@.wf() ==> final(self)@.wf(),
    {
        proof {
            lemma_find_user(self@.users, name@);
        }
        match self.users_db.index_of(name) {
            Some(i) => {
                let ghost o = self.users_db.users@;
                let _removed = self.users_db.users.remove(i);
                assert(self@.users =~= profiles_view(o).remove(i as int));
            },
            None => {},
        }
        let clear = match &self.active_user {
            Some(a) => str_eq(a.as_str(), name),
            None => false,
        };
        if clear {
            self.active_user = None;
        }
    }


    /// Make room before a login as `keep`: with more than 10 profiles, the
    /// first profiles other than `keep` are deleted, as many as there are
    /// beyond 10
    pub fn trim_profiles(&mut self, keep: &str)
        ensures
            final(self)@ == after_deletes(old(self)@, stale_profiles(profile_names_of(old(self)@.users), keep@)),
            old(self)@.wf() ==> final(self)@.wf(),
    {
        let n = self.users_db.users.len();
        let ghost names = profile_names_of(self@.users);
        if n <= 10 {
            assert(stale_profiles(names, keep@) =~= Seq::<Seq<char>>::empty());
            return;
        }
        let limit = n - 10;
        let mut stale: Vec<String> = Vec::new();
        let mut i: usize = 0;
        while i < n && stale.len() < limit
            invariant
                *self == *old(self),
                names == profile_names_of(self@.users),
                n == self.users_db.users@.len(),
                n == names.len(),
                limit == n - 10,
                i <= n,
                stale@.len() <= limit,
                strings_view(stale@) == names_except(names.take(i as int), keep@),
            decreases n - i,
        {
            let name = &self.users_db.users[i].0;
            let ghost t = names.take(i + 1);
            assert(t.drop_last() =~= names.take(i as int));
            assert(t.last() == name@);
            if !str_eq(name.as_str(), keep) {
                stale.push(name.clone());
                assert(strings_view(stale@) =~= names_except(names.take(i as int), keep@).push(name@));
            }
            i = i + 1;
        }
        proof {
            lemma_names_except_prefix(names, keep@, i as int, n as int);
            assert(names.take(n as int) =~= names);
            assert(strings_view(stale@) =~= stale_profiles(names, keep@));
        }
        let ghost st0 = self@;
        let ghost gone = strings_view(stale@);
        let mut k: usize = 0;
        while k < stale.len()
            invariant
                gone == strings_view(stale@),
                k <= stale@.len(),
                self@ == after_deletes(st0, gone.take(k as int)),
                st0.wf() ==> self@.wf(),
            decreases stale@.len() - k,
        {
            self.delete_profile(stale[k].as_str());
            assert(gone.take(k + 1).drop_last() =~= gone.take(k as int));
            k = k + 1;
        }
        assert(gone.take(stale@.len() as int) =~= gone);
    }

    // -----------------------------------------------------------------------
    // Changes to the active profile
    // -----------------------------------------------------------------------

    /// Save current car parts
    pub fn save_car_parts(&mut self, parts: &[u32])
        ensures
            final(self)@ == old(self)@.map_active(|u: UserView| u.with_car_parts(parts@)),
    {
        broadcast use lemma_profiles_update;
        if let Some(i) = self.active_index() {
            let u = &mut self.users_db.users[i].1;
            u.car.parts = vstd::slice::slice_to_vec(parts);
        }
    }

    /// Save car name
    pub fn save_car_name(&mut self, name: &str)
        ensures
            final(self)@ == old(self)@.map_active(|u: UserView| u.with_car_name(name@)),
    {
        broadcast use lemma_profiles_update;
        if let Some(i) = self.active_index() {
            let u = &mut self.users_db.users[i].1;
            u.car.name = owned(name);
        }
    }

    /// Save a junk pile's contents (index 1-6; any other index means pile 1)
    pub fn save_pile(&mut self, pile_index: u8, parts: &HashMap<u32, (i32, i32)>)
        ensures
            final(self)@ == old(self)@.map_active(|u: UserView| u.with_junk(u.junk.with_pile(pile_index, parts@))),
    {
        broadcast use lemma_profiles_update;
        if let Some(i) = self.active_index() {
            let u = &mut self.users_db.users[i].1;
            *u.junk.pile_mut(pile_index) = parts.clone();
        }
    }

    /// Save shop floor parts
    pub fn save_shop_floor(&mut self, parts: &HashMap<u32, (i32, i32)>)
        ensures
            final(self)@ == old(self)@.map_active(|u: UserView| u.with_junk(JunkView { shop_floor: parts@, ..u.junk })),
    {
        broadcast use lemma_profiles_update;
        if let Some(i) = self.active_index() {
            let u = &mut self.users_db.users[i].1;
            u.junk.shop_floor = parts.clone();
        }
    }

    /// Save yard parts
    pub fn save_yard(&mut self, parts: &HashMap<u32, (i32, i32)>)
        ensures
            final(self)@ == old(self)@.map_active(|u: UserView| u.with_junk(JunkView { yard: parts@, ..u.junk })),
    {
        broadcast use lemma_profiles_update;
        if let Some(i) = self.active_index() {
            let u = &mut self.users_db.users[i].1;
            u.junk.yard = parts.clone();
        }
    }

    /// Mark a mission as completed
    pub fn complete_mission(&mut self, mission_id: &str)
        ensures
            final(self)@ == old(self)@.map_active(|u: UserView| u.complete(mission_id@)),
    {
        broadcast use lemma_profiles_update;
        if let Some(i) = self.active_index() {
            let u = &mut self.users_db.users[i].1;
            proof {
                lemma_holds_str_view(u.completed_missions@, mission_id@);
            }
            add_flag(&mut u.completed_missions, mission_id);
        }
    }

    /// Give a mission (recorded by its decimal id) unless it was given or
    /// completed before
    pub fn give_mission(&mut self, mission_id: u32)
        ensures
            final(self)@ == old(self)@.map_active(|u: UserView| u.give(decimal(mission_id as nat))),
    {
        broadcast use lemma_profiles_update;
        let mid = u32_to_string(mission_id);
        if let Some(i) = self.active_index() {
            let u = &mut self.users_db.users[i].1;
            proof {
                lemma_holds_str_view(u.given_missions@, mid@);
                lemma_holds_str_view(u.completed_missions@, mid@);
            }
            if !contains_str(u.given_missions.as_slice(), mid.as_str())
                && !contains_str(u.completed_missions.as_slice(), mid.as_str()) {
                let ghost o = u.given_missions@;
                u.given_missions.push(mid);
                assert(strings_view(u.given_missions@) =~= strings_view(o).push(decimal(mission_id as nat)));
            }
        }
    }

    /// Are there given missions not yet taken?
    pub fn has_pending_missions(&self) -> (r: bool)
        ensures
            r == (match self@.active_user() {
                Some(u) => u.given_missions.len() > 0,
                None => false,
            }),
    {
        match self.active() {
            Some(u) => u.given_missions.len() > 0,
            None => false,
        }
    }

    /// Take the first given mission, record it as completed, and return its
    /// id read as a number (`None` if there is none, or its text is no number)
    pub fn pop_pending_mission(&mut self) -> (r: Option<u32>)
        ensures
            match old(self)@.active_user() {
                Some(u) => if u.given_missions.len() > 0 {
                    &&& final(self)@ == old(self)@.map_active(|v: UserView| v.pop_given())
                    &&& r == parse_u32_spec(u.given_missions[0])
                } else {
                    final(self)@ == old(self)@ && r is None
                },
                None => final(self)@ == old(self)@ && r is None,
            },
    {
        broadcast use lemma_profiles_update;
        if let Some(i) = self.active_index() {
            let u = &mut self.users_db.users[i].1;
            if u.given_missions.len() == 0 {
                return None;
            }
            let ghost o = u.given_missions@;
            let m = u.given_missions.remove(0);
            assert(strings_view(u.given_missions@) =~= strings_view(o).drop_first());
            proof {
                lemma_holds_str_view(u.completed_missions@, m@);
            }
            add_flag(&mut u.completed_missions, m.as_str());
            parse_u32(m.as_str())
        } else {
            None
        }
    }

    /// Own an item / story flag, once
    pub fn add_stuff(&mut self, item: &str)
        ensures
            final(self)@ == old(self)@.map_active(|u: UserView| u.add_stuff(item@)),
    {
        broadcast use lemma_profiles_update;
        if let Some(i) = self.active_index() {
            let u = &mut self.users_db.users[i].1;
            proof {
                lemma_holds_str_view(u.own_stuff@, item@);
            }
            add_flag(&mut u.own_stuff, item);
        }
    }

    /// Does the active player own the item?
    pub fn has_stuff(&self, item: &str) -> (r: bool)
        ensures
            r == (match self@.active_user() {
                Some(u) => u.own_stuff.contains(item@),
                None => false,
            }),
    {
        match self.active() {
            Some(u) => {
                proof {
                    lemma_holds_str_view(u.own_stuff@, item@);
                }
                contains_str(u.own_stuff.as_slice(), item)
            },
            None => false,
        }
    }

    /// Remove an owned item
    pub fn remove_stuff(&mut self, item: &str)
        ensures
            final(self)@ == old(self)@.map_active(|u: UserView| u.remove_stuff(item@)),
    {
        broadcast use lemma_profiles_update;
        if let Some(i) = self.active_index() {
            let u = &mut self.users_db.users[i].1;
            remove_flag(&mut u.own_stuff, item);
        }
    }

    /// Update last visited pile
    pub fn save_last_pile(&mut self, pile: u8)
        ensures
            final(self)@ == old(self)@.map_active(|u: UserView| u.with_last_pile(pile)),
    {
        broadcast use lemma_profiles_update;
        if let Some(i) = self.active_index() {
            let u = &mut self.users_db.users[i].1;
            u.my_last_pile = pile;
        }
    }

    /// Put a part in the active player's yard at the next free spot (quest
    /// reward)
    pub fn add_yard_part(&mut self, part_id: u32)
        requires
            match old(self)@.active_user() {
                Some(u) => (u.junk.yard.len() / 5) * 60 + 200 <= i32::MAX,
                None => true,
            },
        ensures
            final(self)@ == old(self)@.map_active(|u: UserView| u.add_yard_part(part_id)),
    {
        broadcast use lemma_profiles_update;
        if let Some(i) = self.active_index() {
            let u = &mut self.users_db.users[i].1;
            let n = u.junk.yard.len();
            assert(n / 5 * 60 + 200 <= i32::MAX);
            let x: i32 = 100 + ((n % 5) as i32) * 80;
            let y: i32 = 200 + ((n / 5) as i32) * 60;
            u.junk.yard.insert(part_id, (x, y));
        }
    }

    /// The active player's last visited junk pile (1 without a player)
    pub fn current_pile_index(&self) -> (r: u8)
        ensures
            r == (match self@.active_user() {
                Some(u) => u.my_last_pile,
                None => 1u8,
            }),
    {
        match self.active() {
            Some(u) => u.my_last_pile,
            None => 1,
        }
    }

    /// Award a medal (recorded by its decimal id) to the active player's
    /// car, once
    pub fn award_medal(&mut self, medal_id: u32)
        ensures
            final(self)@ == old(self)@.map_active(|u: UserView| if u.car.medals.contains(decimal(medal_id as nat)) {
                u
            } else {
                UserView { car: CarView { medals: u.car.medals.push(decimal(medal_id as nat)), ..u.car }, ..u }
            }),
    {
        broadcast use lemma_profiles_update;
        let m = u32_to_string(medal_id);
        if let Some(i) = self.active_index() {
            let u = &mut self.users_db.users[i].1;
            proof {
                lemma_holds_str_view(u.car.medals@, m@);
            }
            if !contains_str(u.car.medals.as_slice(), m.as_str()) {
                let ghost o = u.car.medals@;
                u.car.medals.push(m);
                assert(strings_view(u.car.medals@) =~= strings_view(o).push(decimal(medal_id as nat)));
            }
        }
    }

    /// Move a part dropped on a door or arrow: it leaves every junk location
    /// of the active player, then goes where the target leads. Returns whether
    /// the target is known (an unknown target still takes the part out of the
    /// junk locations).
    pub fn place_dropped_part(&mut self, part_id: u32, target_id: &str) -> (r: bool)
        requires
            drop_places(target_id@) ==> part_id as int * 37 <= u32::MAX,
        ensures
            r == drop_spot_of(target_id@, part_id) is Some,
            final(self)@ == old(self)@.map_active(|u: UserView|
                u.with_junk(junk_after_drop(u.junk, part_id, drop_spot_of(target_id@, part_id)))),
    {
        broadcast use lemma_profiles_update;
        let spot = drop_spot(target_id, part_id);
        if let Some(i) = self.active_index() {
            let u = &mut self.users_db.users[i].1;
            u.junk.remove_part_everywhere(part_id);
            match spot {
                Some(DropSpot::Pile(n, pos)) => {
                    u.junk.pile_mut(n).insert(part_id, pos);
                },
                Some(DropSpot::Yard(pos)) => {
                    u.junk.yard.insert(part_id, pos);
                },
                Some(DropSpot::ShopFloor(pos)) => {
                    u.junk.shop_floor.insert(part_id, pos);
                },
                _ => {},
            }
        }
        spot.is_some()
    }

    /// Figge brings up to three parts of his list that are not in the active
    /// player's yard, in list order; returns them
    pub fn give_figge_parts(&mut self) -> (r: Vec<u32>)
        requires
            match old(self)@.active_user() {
                Some(u) => (u.junk.yard.len() + 3) / 5 * 60 + 200 <= i32::MAX,
                None => true,
            },
        ensures
            match old(self)@.active_user() {
                Some(u) => {
                    &&& r@ == gifts(u, figge_parts()).1
                    &&& final(self)@ == old(self)@.map_active(|v: UserView| gifts(v, figge_parts()).0)
                },
                None => r@.len() == 0 && final(self)@ == old(self)@,
            },
    {
        let mut given: Vec<u32> = Vec::new();
        if self.active_index().is_none() {
            return given;
        }
        let ids = figge_part_ids();
        let ghost st0 = self@;
        let ghost u0 = st0.active_user().unwrap();
        proof {
            assert(ids@.take(0) =~= Seq::<u32>::empty());
            assert(st0.map_active(|v: UserView| gifts(v, ids@.take(0)).0) =~= st0) by {
                lemma_map_active(st0, |v: UserView| gifts(v, ids@.take(0)).0);
                let i = st0.active_index().unwrap();
                assert(st0.users.update(i, (st0.users[i].0, st0.users[i].1)) =~= st0.users);
            }
        }
        let mut k: usize = 0;
        while k < ids.len() && given.len() < 3
            invariant
                ids@ == figge_parts(),
                k <= ids@.len(),
                given@.len() <= 3,
                st0 == old(self)@,
                st0.active_user() == Some(u0),
                (u0.junk.yard.len() + 3) / 5 * 60 + 200 <= i32::MAX,
                given@ == gifts(u0, ids@.take(k as int)).1,
                self@ == st0.map_active(|v: UserView| gifts(v, ids@.take(k as int)).0),
                self@.active_user() == Some(gifts(u0, ids@.take(k as int)).0),
                gifts(u0, ids@.take(k as int)).0.junk.yard.dom().finite(),
                gifts(u0, ids@.take(k as int)).0.junk.yard.len() <= u0.junk.yard.len() + given@.len(),
            decreases ids@.len() - k,
        {
            let id = ids[k];
            let ghost g = gifts(u0, ids@.take(k as int));
            let ghost t = ids@.take(k + 1);
            assert(t.drop_last() =~= ids@.take(k as int));
            assert(t.last() == id);
            let ghost before = self@;
            if !self.has_yard_part(id) {
                proof {
                    assert((g.0.junk.yard.len() / 5) * 60 + 200 <= i32::MAX) by (nonlinear_arith)
                        requires
                            g.0.junk.yard.len() <= u0.junk.yard.len() + 2,
                            (u0.junk.yard.len() + 3) / 5 * 60 + 200 <= i32::MAX,
                    ;
                }
                self.add_yard_part(id);
                given.push(id);
                proof {
                    lemma_map_active(before, |v: UserView| v.add_yard_part(id));
                    lemma_map_active(st0, |v: UserView| gifts(v, ids@.take(k as int)).0);
                    lemma_map_active(st0, |v: UserView| gifts(v, t).0);
                    let i = st0.active_index().unwrap();
                    lemma_find_user(st0.users, st0.active.unwrap());
                    let gk = |v: UserView| gifts(v, ids@.take(k as int)).0;
                    assert(before == st0.map_active(gk));
                    assert(st0.map_active(gk).users[i].0 == st0.users[i].0);
                    assert(st0.users[i].1 == u0);
                    assert(!g.0.junk.yard.contains_key(id));
                    assert(g.1.len() < 3);
                    assert(gifts(u0, t) == (g.0.add_yard_part(id), g.1.push(id)));
                    assert(before.active_index() == Some(i));
                    assert(before.users[i].1 == g.0);
                    assert(before.users[i].0 == st0.users[i].0);
                    let h = |v: UserView| gifts(v, t).0;
                    assert(h(u0) == g.0.add_yard_part(id));
                    assert(st0.map_active(h).users == st0.users.update(i, (st0.users[i].0, h(st0.users[i].1))));
                    assert(self@.users == before.users.update(i, (before.users[i].0, before.users[i].1.add_yard_part(id))));
                    assert(self@.users =~= st0.map_active(h).users);
                    vstd::set::axiom_set_insert_len(g.0.junk.yard.dom(), id);
                }
            } else {
                proof {
                    lemma_map_active(st0, |v: UserView| gifts(v, t).0);
                    assert(self@.users =~= st0.map_active(|v: UserView| gifts(v, t).0).users);
                }
            }
            k = k + 1;
        }
        proof {
            if k < ids@.len() {
                lemma_gifts_saturated(u0, ids@, k as int, ids@.len() as int);
            }
            assert(ids@.take(ids@.len() as int) =~= ids@);
            lemma_map_active(st0, |v: UserView| gifts(v, figge_parts()).0);
            assert(self@.users =~= st0.map_active(|v: UserView| gifts(v, figge_parts()).0).users);
        }
        given
    }

    /// Is the part in the active player's yard?
    pub fn has_yard_part(&self, part_id: u32) -> (r: bool)
        ensures
            r == (match self@.active_user() {
                Some(u) => u.junk.yard.contains_key(part_id),
                None => false,
            }),
    {
        match self.active() {
            Some(u) => u.junk.yard.contains_key(&part_id),
            None => false,
        }
    }

    /// The random-reward parts the active player does not own yet (none
    /// without an active player)
    pub fn unowned_random_parts(&self) -> (r: Vec<u32>)
        ensures
            r@ == (match self@.active_user() {
                Some(u) => unowned_ids(random_ids(), u),
                None => Seq::empty(),
            }),
    {
        let mut out: Vec<u32> = Vec::new();
        match self.active() {
            Some(u) => {
                let ids = PartsDB::random_part_ids();
                let mut i: usize = 0;
                while i < ids.len()
                    invariant
                        ids@ == random_ids(),
                        i <= ids@.len(),
                        out@ == unowned_ids(ids@.take(i as int), u@),
                    decreases ids@.len() - i,
                {
                    let id = ids[i];
                    let ghost t = ids@.take(i + 1);
                    assert(t.drop_last() =~= ids@.take(i as int));
                    let owned_here = u.junk.pile1.contains_key(&id) || u.junk.pile2.contains_key(&id)
                        || u.junk.pile3.contains_key(&id) || u.junk.pile4.contains_key(&id)
                        || u.junk.pile5.contains_key(&id) || u.junk.pile6.contains_key(&id)
                        || u.junk.shop_floor.contains_key(&id) || u.junk.yard.contains_key(&id)
                        || contains_u32(u.car.parts.as_slice(), id);
                    if !owned_here {
                        out.push(id);
                    }
                    i = i + 1;
                }
                assert(ids@.take(ids@.len() as int) =~= ids@);
            },
            None => {},
        }
        out
    }

    /// A random part the active player does not own yet, for "#Random"
    /// rewards; `None` when there is no active player or no such part
    pub fn random_unowned_part(&self) -> (r: Option<u32>)
        ensures
            match self@.active_user() {
                Some(u) => {
                    &&& (r is None <==> unowned_ids(random_ids(), u).len() == 0)
                    &&& (r matches Some(id) ==> unowned_ids(random_ids(), u).contains(id))
                },
                None => r is None,
            },
    {
        if self.active().is_none() {
            return None;
        }
        let candidates = self.unowned_random_parts();
        choose_random(candidates.as_slice())
    }
}


// ---------------------------------------------------------------------------
// Laws
// ---------------------------------------------------------------------------

/// After an item is added, the active player owns it.
pub proof fn law_add_stuff_then_owned(st: SaveState, item: Seq<char>)
    requires
        st.active_user() is Some,
    ensures
        st.map_active(|u: UserView| u.add_stuff(item)).active_user().unwrap().own_stuff.contains(item),
{
    lemma_map_active(st, |u: UserView| u.add_stuff(item));
    let u = st.active_user().unwrap();
    if !u.own_stuff.contains(item) {
        assert(u.own_stuff.push(item)[u.own_stuff.len() as int] == item);
    }
}

/// Adding an item twice leaves the profiles as adding it once.
pub proof fn law_add_stuff_twice_is_once(st: SaveState, item: Seq<char>)
    ensures
        st.map_active(|u: UserView| u.add_stuff(item)).map_active(|u: UserView| u.add_stuff(item))
            == st.map_active(|u: UserView| u.add_stuff(item)),
{
    let once = st.map_active(|u: UserView| u.add_stuff(item));
    match st.active_index() {
        Some(i) => {
            let u = st.users[i].1;
            lemma_find_user(st.users, st.active.unwrap());
            lemma_find_user_update(st.users, i, (st.users[i].0, u.add_stuff(item)), st.active.unwrap());
            assert(once.active_index() == Some(i));
            let v = u.add_stuff(item);
            assert(v.own_stuff.contains(item)) by {
                if !u.own_stuff.contains(item) {
                    assert(u.own_stuff.push(item)[u.own_stuff.len() as int] == item);
                }
            }
            assert(v.add_stuff(item) == v);
            assert(once.users.update(i, (once.users[i].0, v.add_stuff(item))) =~= once.users);
        },
        None => {},
    }
}

/// The profiles after logging in under a name: unchanged when the name has
/// a profile, else with a fresh profile of that name added at the end
pub open spec fn users_after_login(users: Seq<(Seq<char>, UserView)>, name: Seq<char>) -> Seq<(Seq<char>, UserView)> {
    if find_user(users, name) is Some { users } else { users.push((name, fresh_user(name))) }
}

/// Logging in twice under a name leaves the same profiles as logging in once.
pub proof fn law_login_twice_is_once(users: Seq<(Seq<char>, UserView)>, name: Seq<char>)
    ensures
        users_after_login(users_after_login(users, name), name) == users_after_login(users, name),
{
    if find_user(users, name) is None {
        let after = users.push((name, fresh_user(name)));
        assert(after.last().0 == name);
    }
}

/// After an item is removed, the active player no longer owns it.
pub proof fn law_remove_stuff_then_not_owned(st: SaveState, item: Seq<char>)
    requires
        st.active_user() is Some,
    ensures
        !st.map_active(|u: UserView| u.remove_stuff(item)).active_user().unwrap().own_stuff.contains(item),
{
    lemma_map_active(st, |u: UserView| u.remove_stuff(item));
    crate::text::lemma_drop_flag_absent(st.active_user().unwrap().own_stuff, item);
}

/// A mission given to a player with no pending missions, and not completed
/// before, is the next one popped: it comes back as the same number and is
/// then recorded as completed.
pub proof fn law_give_then_pop(st: SaveState, mission_id: u32)
    requires
        st.active_user() is Some,
        st.active_user().unwrap().given_missions.len() == 0,
        !st.active_user().unwrap().completed_missions.contains(decimal(mission_id as nat)),
    ensures
        ({
            let given = st.map_active(|u: UserView| u.give(decimal(mission_id as nat)));
            let g = given.active_user().unwrap();
            &&& g.given_missions.len() > 0
            &&& parse_u32_spec(g.given_missions[0]) == Some(mission_id)
            &&& g.pop_given().completed_missions.contains(decimal(mission_id as nat))
            &&& g.pop_given().given_missions.len() == 0
        }),
{
    let m = decimal(mission_id as nat);
    lemma_map_active(st, |u: UserView| u.give(m));
    let u = st.active_user().unwrap();
    assert(!u.given_missions.contains(m));
    let g = u.give(m);
    assert(g.given_missions =~= seq![m]);
    crate::text::lemma_parse_decimal_roundtrip(mission_id);
    let p = g.pop_given();
    assert(p.completed_missions =~= u.completed_missions.push(m));
    assert(p.completed_missions[u.completed_missions.len() as int] == m);
}

/// A part added to the yard is in the yard.
pub proof fn law_add_yard_part_then_present(st: SaveState, part_id: u32)
    requires
        st.active_user() is Some,
    ensures
        st.map_active(|u: UserView| u.add_yard_part(part_id)).active_user().unwrap().junk.yard.contains_key(part_id),
{
    lemma_map_active(st, |u: UserView| u.add_yard_part(part_id));
}

/// After a part is removed everywhere, no location holds it, and every other
/// part stays where it was.
pub proof fn law_remove_part_everywhere(j: JunkView, part_id: u32, other: u32)
    requires
        other != part_id,
    ensures
        !j.without_part(part_id).holds_part(part_id),
        j.without_part(part_id).holds_part(other) == j.holds_part(other),
{
}

/// How many junk locations hold the part
pub open spec fn holders(j: JunkView, part_id: u32) -> int {
    (if j.pile1.contains_key(part_id) { 1int } else { 0int })
        + (if j.pile2.contains_key(part_id) { 1int } else { 0int })
        + (if j.pile3.contains_key(part_id) { 1int } else { 0int })
        + (if j.pile4.contains_key(part_id) { 1int } else { 0int })
        + (if j.pile5.contains_key(part_id) { 1int } else { 0int })
        + (if j.pile6.contains_key(part_id) { 1int } else { 0int })
        + (if j.shop_floor.contains_key(part_id) { 1int } else { 0int })
        + (if j.yard.contains_key(part_id) { 1int } else { 0int })
}

/// A dropped part is never duplicated: after the drop exactly one junk
/// location holds it (at the spot's position) when the target leads
/// somewhere, and none when it does not.
pub proof fn law_dropped_part_held_once(j: JunkView, part_id: u32, spot: Option<DropSpot>)
    ensures
        ({
            let r = junk_after_drop(j, part_id, spot);
            match spot {
                Some(DropSpot::Pile(n, pos)) => holders(r, part_id) == 1 && r.pile(n)[part_id] == pos,
                Some(DropSpot::Yard(pos)) => holders(r, part_id) == 1 && r.yard[part_id] == pos,
                Some(DropSpot::ShopFloor(pos)) => holders(r, part_id) == 1 && r.shop_floor[part_id] == pos,
                _ => holders(r, part_id) == 0,
            }
        }),
{
}

/// A profile stored under a name is what looking up that name gives back,
/// and every other name keeps its profile.
pub proof fn law_insert_then_lookup(users: Seq<(Seq<char>, UserView)>, name: Seq<char>, u: UserView, other: Seq<char>)
    requires
        other != name,
    ensures
        ({
            let after = match find_user(users, name) {
                Some(i) => users.update(i, (name, u)),
                None => users.push((name, u)),
            };
            &&& lookup_user(after, name) == Some(u)
            &&& lookup_user(after, other) == lookup_user(users, other)
        }),
{
    lemma_find_user(users, name);
    lemma_find_user(users, other);
    match find_user(users, name) {
        Some(i) => {
            lemma_find_user_update(users, i, (name, u), name);
            lemma_find_user_update(users, i, (name, u), other);
        },
        None => {
            let after = users.push((name, u));
            assert(after.drop_last() =~= users);
            match find_user(users, other) {
                Some(k) => assert(after[k] == users[k]),
                None => {},
            }
        },
    }
}

/// A deleted profile is gone, and only it: every other name keeps its
/// profile.
pub proof fn law_delete_profile(users: Seq<(Seq<char>, UserView)>, name: Seq<char>, other: Seq<char>)
    requires
        names_distinct(users),
        other != name,
    ensures
        ({
            let after = match find_user(users, name) {
                Some(i) => users.remove(i),
                None => users,
            };
            &&& lookup_user(after, name) is None
            &&& lookup_user(after, other) == lookup_user(users, other)
        }),
{
    lemma_find_user(users, name);
    lemma_find_user(users, other);
    match find_user(users, name) {
        Some(i) => {
            let after = users.remove(i);
            lemma_find_user(after, name);
            lemma_find_user(after, other);
            assert forall|j: int| 0 <= j < after.len() implies #[trigger] after[j].0 != name by {
                if j < i {
                    assert(after[j] == users[j]);
                } else {
                    assert(after[j] == users[j + 1]);
                }
            }
            match find_user(users, other) {
                Some(k) => {
                    let k2 = if k < i { k } else { k - 1 };
                    assert(after[k2] == users[k]);
                    assert(names_distinct(after)) by {
                        assert forall|a: int, b: int| 0 <= a < after.len() && 0 <= b < after.len() && a != b
                            implies #[trigger] after[a].0 != #[trigger] after[b].0 by {
                            let a2 = if a < i { a } else { a + 1 };
                            let b2 = if b < i { b } else { b + 1 };
                            assert(after[a] == users[a2]);
                            assert(after[b] == users[b2]);
                        }
                    }
                    lemma_find_user_unique(after, other, k2);
                },
                None => {
                    assert forall|j: int| 0 <= j < after.len() implies #[trigger] after[j].0 != other by {
                        if j < i {
                            assert(after[j] == users[j]);
                        } else {
                            assert(after[j] == users[j + 1]);
                        }
                    }
                },
            }
        },
        None => {},
    }
}

proof fn lemma_unowned_ids(ids: Seq<u32>, u: UserView, x: u32)
    ensures
        unowned_ids(ids, u).contains(x) <==> (ids.contains(x) && !u.owns_part(x)),
    decreases ids.len(),
{
    if ids.len() > 0 {
        let d = ids.drop_last();
        let l = ids.last();
        lemma_unowned_ids(d, u, x);
        let r = unowned_ids(d, u);
        let whole = unowned_ids(ids, u);
        if ids.contains(x) && !u.owns_part(x) {
            if l == x {
                assert(whole == r.push(x));
                assert(whole[r.len() as int] == x);
            } else {
                let k = choose|k: int| 0 <= k < ids.len() && ids[k] == x;
                assert(d[k] == x);
                assert(d.contains(x));
                let k2 = choose|k2: int| 0 <= k2 < r.len() && r[k2] == x;
                if u.owns_part(l) {
                    assert(whole == r);
                } else {
                    assert(whole == r.push(l));
                    assert(whole[k2] == x);
                }
            }
        }
        if whole.contains(x) {
            let k = choose|k: int| 0 <= k < whole.len() && whole[k] == x;
            if u.owns_part(l) {
                assert(whole == r);
                assert(r.contains(x));
                let k2 = choose|k2: int| 0 <= k2 < d.len() && d[k2] == x;
                assert(ids[k2] == x);
            } else {
                assert(whole == r.push(l));
                if k == r.len() {
                    assert(ids[ids.len() - 1] == x);
                } else {
                    assert(r[k] == x);
                    assert(r.contains(x));
                    let k2 = choose|k2: int| 0 <= k2 < d.len() && d[k2] == x;
                    assert(ids[k2] == x);
                }
            }
        }
    }
}

/// A part picked as a random reward is a random-reward part that the player
/// does not own yet.
pub proof fn law_random_reward_unowned(u: UserView, x: u32)
    requires
        unowned_ids(random_ids(), u).contains(x),
    ensures
        random_ids().contains(x),
        !u.owns_part(x),
{
    lemma_unowned_ids(random_ids(), u, x);
}

} // verus!
