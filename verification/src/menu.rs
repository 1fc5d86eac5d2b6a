//! The main menu's profile selection: a name typed in a text field or
//! picked from the list of saved names, with Play and Delete buttons.

use vstd::prelude::*;
use crate::scene::Scene;
use crate::text::{contains_str, holds_str, owned, push_char, strings_view};

verus! {

/// Longest name the text field takes
pub const MAX_NAME_LEN: usize = 20;

/// Name text field
pub const NAME_FIELD_X: i32 = 90;
pub const NAME_FIELD_Y: i32 = 60;
pub const NAME_FIELD_W: i32 = 180;
pub const NAME_FIELD_H: i32 = 22;
/// List of saved names
pub const NAME_LIST_X: i32 = 350;
pub const NAME_LIST_Y: i32 = 60;
pub const NAME_LIST_W: i32 = 230;
pub const NAME_LIST_H: i32 = 160;
pub const NAME_LIST_ITEM_H: i32 = 25;
/// Play button
pub const PLAY_BTN_X: i32 = 350;
pub const PLAY_BTN_Y: i32 = 234;
pub const PLAY_BTN_W: i32 = 110;
pub const PLAY_BTN_H: i32 = 28;
/// Delete button
pub const DELETE_BTN_X: i32 = 470;
pub const DELETE_BTN_Y: i32 = 234;
pub const DELETE_BTN_W: i32 = 110;
pub const DELETE_BTN_H: i32 = 28;

/// Characters the text field takes: printable ASCII and space
pub open spec fn typeable(c: char) -> bool {
    ('!' <= c && c <= '~') || c == ' '
}

/// The name with leading and trailing spaces removed
pub open spec fn trim_spaces(s: Seq<char>) -> Seq<char>
    decreases s.len(),
{
    if s.len() == 0 {
        s
    } else if s[0] == ' ' {
        trim_spaces(s.drop_first())
    } else if s.last() == ' ' {
        trim_spaces(s.drop_last())
    } else {
        s
    }
}

/// The menu's name entry as plain values
#[verifier::ext_equal]
pub struct NameEntryV {
    /// Text typed in the name field
    pub input: Seq<char>,
    /// Saved profile names, in list order
    pub names: Seq<Seq<char>>,
    /// Index of the name picked in the list
    pub selected: Option<usize>,
}

/// The main menu's name entry
pub struct NameEntry {
    input_text: String,
    saved_names: Vec<String>,
    selected_name: Option<usize>,
}

impl View for NameEntry {
    type V = NameEntryV;

    closed spec fn view(&self) -> NameEntryV {
        NameEntryV {
            input: self.input_text@,
            names: strings_view(self.saved_names@),
            selected: self.selected_name,
        }
    }
}

/// Is the point inside the rectangle?
pub open spec fn in_rect(x: i32, y: i32, rx: i32, ry: i32, rw: i32, rh: i32) -> bool {
    x >= rx && x < rx + rw && y >= ry && y < ry + rh
}

/// The name a start would use: the typed name without surrounding spaces,
/// else the picked saved name (empty if the pick is out of range)
pub open spec fn effective_name_spec(v: NameEntryV) -> Seq<char> {
    if trim_spaces(v.input).len() > 0 {
        trim_spaces(v.input)
    } else {
        match v.selected {
            Some(i) => if i < v.names.len() { v.names[i as int] } else { Seq::empty() },
            None => Seq::empty(),
        }
    }
}

/// The saved names after starting as `name`: it is added at the end unless
/// already there
pub open spec fn names_after_start(names: Seq<Seq<char>>, name: Seq<char>) -> Seq<Seq<char>> {
    if names.contains(name) { names } else { names.push(name) }
}

/// The entry after a typed character: backspace removes the last
/// character; a printable ASCII character or space is added while the field
/// holds fewer than 20
pub open spec fn char_typed(v: NameEntryV, ch: char) -> NameEntryV {
    NameEntryV {
        input: if ch == '\x08' {
            if v.input.len() > 0 { v.input.drop_last() } else { v.input }
        } else if typeable(ch) && v.input.len() < MAX_NAME_LEN {
            v.input.push(ch)
        } else {
            v.input
        },
        ..v
    }
}

/// Enter: with a name to use, it is remembered and the game goes to the
/// garage; without one nothing happens
pub open spec fn entered(v: NameEntryV) -> (NameEntryV, Option<Scene>) {
    let name = effective_name_spec(v);
    if name.len() == 0 {
        (v, None)
    } else {
        (NameEntryV { names: names_after_start(v.names, name), ..v }, Some(Scene::Garage))
    }
}

/// A click in the menu: Play starts with the name to use (remembering it),
/// Delete removes the picked saved name, and a click on the list picks a
/// name and clears the text field
pub open spec fn menu_clicked(v: NameEntryV, x: i32, y: i32) -> (NameEntryV, Option<Scene>) {
    let name = effective_name_spec(v);
    if in_rect(x, y, PLAY_BTN_X, PLAY_BTN_Y, PLAY_BTN_W, PLAY_BTN_H) && name.len() > 0 {
        (NameEntryV { names: names_after_start(v.names, name), ..v }, Some(Scene::Garage))
    } else {
        let d = if in_rect(x, y, DELETE_BTN_X, DELETE_BTN_Y, DELETE_BTN_W, DELETE_BTN_H) {
            match v.selected {
                Some(i) => if i < v.names.len() {
                    NameEntryV { names: v.names.remove(i as int), selected: None, ..v }
                } else {
                    v
                },
                None => v,
            }
        } else {
            v
        };
        let idx = (y - NAME_LIST_Y) / (NAME_LIST_ITEM_H as int);
        let l = if in_rect(x, y, NAME_LIST_X, NAME_LIST_Y, NAME_LIST_W, NAME_LIST_H) && idx < d.names.len() {
            NameEntryV { selected: Some(idx as usize), input: Seq::empty(), ..d }
        } else {
            d
        };
        (l, None)
    }
}

/// Cutting leading and trailing spaces off `s` does not change how it trims
proof fn lemma_trim_cut(s: Seq<char>, a: int, b: int)
    requires
        0 <= a,
        0 <= b,
        a + b <= s.len(),
        forall|i: int| 0 <= i < a ==> s[i] == ' ',
        forall|i: int| s.len() - b <= i < s.len() ==> s[i] == ' ',
    ensures
        trim_spaces(s) == trim_spaces(s.subrange(a, s.len() - b)),
    decreases s.len(),
{
    if a > 0 {
        let t = s.drop_first();
        assert forall|i: int| 0 <= i < a - 1 implies t[i] == ' ' by {
            assert(t[i] == s[i + 1]);
        }
        assert forall|i: int| t.len() - b <= i < t.len() implies t[i] == ' ' by {
            assert(t[i] == s[i + 1]);
        }
        lemma_trim_cut(t, a - 1, b);
        assert(t.subrange(a - 1, t.len() - b) == s.subrange(a, s.len() - b));
    } else if b > 0 {
        let m = s.subrange(0, s.len() - b);
        if s[0] == ' ' {
            let t = s.drop_first();
            if m.len() == 0 {
                assert forall|i: int| t.len() - (b - 1) <= i < t.len() implies t[i] == ' ' by {
                    assert(t[i] == s[i + 1]);
                }
                lemma_trim_cut(t, 0, b - 1);
                assert(t.subrange(0, t.len() - (b - 1)) == Seq::<char>::empty());
                assert(m == Seq::<char>::empty());
            } else {
                assert forall|i: int| t.len() - b <= i < t.len() implies t[i] == ' ' by {
                    assert(t[i] == s[i + 1]);
                }
                lemma_trim_cut(t, 0, b);
                assert(t.subrange(0, t.len() - b) == m.drop_first());
                assert(m[0] == ' ');
            }
        } else {
            let t = s.drop_last();
            assert forall|i: int| t.len() - (b - 1) <= i < t.len() implies t[i] == ' ' by {
                assert(t[i] == s[i]);
            }
            lemma_trim_cut(t, 0, b - 1);
            assert(t.subrange(0, t.len() - (b - 1)) == m);
        }
    } else {
        assert(s.subrange(0, s.len() as int) == s);
    }
}

impl NameEntry {
    #[verifier::type_invariant]
    closed spec fn inv(self) -> bool {
        &&& self.input_text@.len() <= MAX_NAME_LEN
        &&& forall|i: int| 0 <= i < self.input_text@.len() ==> typeable(#[trigger] self.input_text@[i])
    }

    /// The name entry is well formed: the text field holds at most 20
    /// typeable characters
    pub closed spec fn wf(self) -> bool {
        self.inv()
    }

    /// An empty text field over the given saved names, nothing picked
    pub fn new(saved_names: Vec<String>) -> (r: Self)
        ensures
            r@.input == Seq::<char>::empty(),
            r@.names == strings_view(saved_names@),
            r@.selected is None,
    {
        NameEntry { input_text: String::new(), saved_names, selected_name: None }
    }

    /// Text typed in the name field
    pub fn input_text(&self) -> (r: &str)
        ensures
            r@ == self@.input,
    {
        self.input_text.as_str()
    }

    /// Saved profile names
    pub fn saved_names(&self) -> (r: &[String])
        ensures
            strings_view(r@) == self@.names,
    {
        self.saved_names.as_slice()
    }

    /// Index of the picked saved name
    pub fn selected_name(&self) -> (r: Option<usize>)
        ensures
            r == self@.selected,
    {
        self.selected_name
    }

    /// A typed character: backspace removes the last character; a printable
    /// ASCII character or space is added while the field holds fewer than 20
    pub fn on_char_input(&mut self, ch: char)
        ensures
            final(self)@ == char_typed(old(self)@, ch),
    {
        proof { use_type_invariant(&*self); }
        let n = self.input_text.unicode_len();
        if ch == '\x08' {
            if n > 0 {
                let mut shorter = String::new();
                let mut i: usize = 0;
                while i < n - 1
                    invariant
                        n == self.input_text@.len(),
                        n > 0,
                        i <= n - 1,
                        shorter@ == self.input_text@.subrange(0, i as int),
                    decreases n - 1 - i,
                {
                    let c = self.input_text.as_str().get_char(i);
                    push_char(&mut shorter, c);
                    assert(shorter@ =~= self.input_text@.subrange(0, i + 1));
                    i = i + 1;
                }
                assert(shorter@ =~= self.input_text@.drop_last());
                self.input_text = shorter;
            }
        } else if (('!' <= ch && ch <= '~') || ch == ' ') && n < MAX_NAME_LEN {
            let mut longer = self.input_text.clone();
            push_char(&mut longer, ch);
            self.input_text = longer;
        }
    }

    /// The name a start would use
    pub fn effective_name(&self) -> (r: String)
        ensures
            r@ == effective_name_spec(self@),
    {
        proof { use_type_invariant(self); }
        let s = self.input_text.as_str();
        let n = s.unicode_len();
        let mut a: usize = 0;
        while a < n && s.get_char(a) == ' '
            invariant
                n == s@.len(),
                a <= n,
                forall|i: int| 0 <= i < a ==> s@[i] == ' ',
            decreases n - a,
        {
            a = a + 1;
        }
        let mut b: usize = n;
        while b > a && s.get_char(b - 1) == ' '
            invariant
                n == s@.len(),
                a <= b <= n,
                forall|i: int| b <= i < n ==> s@[i] == ' ',
            decreases b - a,
        {
            b = b - 1;
        }
        proof {
            lemma_trim_cut(s@, a as int, (n - b) as int);
            let t = s@.subrange(a as int, b as int);
            if t.len() > 0 {
                assert(t[0] != ' ' || a == n);
                assert(t.last() != ' ');
            }
            assert(trim_spaces(t) == t) by {
                if t.len() > 0 {
                    assert(t[0] == s@[a as int]);
                    assert(t.last() == s@[b - 1]);
                }
            }
        }
        if b > a {
            let mut name = String::new();
            let mut i: usize = a;
            while i < b
                invariant
                    n == s@.len(),
                    a <= i <= b <= n,
                    name@ == s@.subrange(a as int, i as int),
                decreases b - i,
            {
                push_char(&mut name, s.get_char(i));
                assert(name@ =~= s@.subrange(a as int, i + 1));
                i = i + 1;
            }
            name
        } else {
            match self.selected_name {
                Some(idx) => {
                    if idx < self.saved_names.len() {
                        self.saved_names[idx].clone()
                    } else {
                        String::new()
                    }
                },
                None => String::new(),
            }
        }
    }

    /// Add `name` to the saved names unless it is there
    fn remember(&mut self, name: String)
        ensures
            final(self)@.names == names_after_start(old(self)@.names, name@),
            final(self)@.input == old(self)@.input,
            final(self)@.selected == old(self)@.selected,
    {
        proof { use_type_invariant(&*self); }
        if !contains_str(self.saved_names.as_slice(), name.as_str()) {
            proof {
                assert(!strings_view(self.saved_names@).contains(name@)) by {
                    if strings_view(self.saved_names@).contains(name@) {
                        let k = choose|k: int| 0 <= k < strings_view(self.saved_names@).len() && strings_view(self.saved_names@)[k] == name@;
                        assert(self.saved_names@[k]@ == name@);
                    }
                }
            }
            let mut names: Vec<String> = Vec::new();
            std::mem::swap(&mut names, &mut self.saved_names);
            names.push(name);
            self.saved_names = names;
            assert(strings_view(self.saved_names@) =~= strings_view(old(self).saved_names@).push(name@));
        } else {
            proof {
                let k = choose|k: int| 0 <= k < self.saved_names@.len() && #[trigger] self.saved_names@[k]@ == name@;
                assert(strings_view(self.saved_names@)[k] == name@);
            }
        }
    }

    /// Enter in the menu: with a name to use, it is remembered and the game
    /// goes to the garage
    pub fn on_enter(&mut self) -> (r: Option<Scene>)
        ensures
            (final(self)@, r) == entered(old(self)@),
    {
        let name = self.effective_name();
        if name.unicode_len() == 0 {
            return None;
        }
        self.remember(name);
        Some(Scene::Garage)
    }

    /// A click in the menu: Play starts with the name to use (remembering
    /// it), Delete removes the picked saved name, and a click on the list
    /// picks a name and clears the text field
    pub fn menu_click(&mut self, x: i32, y: i32) -> (r: Option<Scene>)
        ensures
            (final(self)@, r) == menu_clicked(old(self)@, x, y),
    {
        proof { use_type_invariant(&*self); }
        if x >= PLAY_BTN_X && x < PLAY_BTN_X + PLAY_BTN_W && y >= PLAY_BTN_Y && y < PLAY_BTN_Y + PLAY_BTN_H {
            let name = self.effective_name();
            if name.unicode_len() > 0 {
                self.remember(name);
                return Some(Scene::Garage);
            }
        }
        if x >= DELETE_BTN_X && x < DELETE_BTN_X + DELETE_BTN_W && y >= DELETE_BTN_Y && y < DELETE_BTN_Y + DELETE_BTN_H {
            if let Some(idx) = self.selected_name {
                if idx < self.saved_names.len() {
                    let mut names: Vec<String> = Vec::new();
                    std::mem::swap(&mut names, &mut self.saved_names);
                    names.remove(idx);
                    self.saved_names = names;
                    self.selected_name = None;
                    assert(strings_view(self.saved_names@) =~= strings_view(old(self).saved_names@).remove(idx as int));
                }
            }
        }
        if x >= NAME_LIST_X && x < NAME_LIST_X + NAME_LIST_W && y >= NAME_LIST_Y && y < NAME_LIST_Y + NAME_LIST_H {
            let rel_y = y - NAME_LIST_Y;
            let idx = (rel_y / NAME_LIST_ITEM_H) as usize;
            if idx < self.saved_names.len() {
                self.selected_name = Some(idx);
                self.input_text = String::new();
            }
        }
        None
    }
}

/// Starting as a name remembers it exactly once: afterwards the saved
/// names hold it, and names that were all different stay all different.
pub proof fn law_start_remembers_once(names: Seq<Seq<char>>, name: Seq<char>)
    ensures
        names_after_start(names, name).contains(name),
        names.no_duplicates() ==> names_after_start(names, name).no_duplicates(),
{
    if !names.contains(name) {
        let after = names.push(name);
        assert(after[names.len() as int] == name);
        assert forall|i: int, j: int| names.no_duplicates() && 0 <= i < after.len() && 0 <= j < after.len() && i != j
            implies after[i] != after[j] by {
            if i < names.len() && j < names.len() {
                assert(after[i] == names[i] && after[j] == names[j]);
            } else if i < names.len() {
                assert(after[i] == names[i]);
            } else if j < names.len() {
                assert(after[j] == names[j]);
            }
        }
    }
}

} // verus!
