//! Dialogs, subtitles, quest flags and missions.
//!
//! A dialog is audio playback with subtitle lines shown one after another.
//! Quest progress is tracked with string flags: cache flags that are reset
//! when a drive starts, and permanent flags that persist in the save.

use vstd::prelude::*;
use std::collections::HashMap;
use crate::text::{holds_str, owned, push_char, str_eq, contains_str, clone_strings, strings_view, add_flag, remove_flag, drop_flag};

verus! {

broadcast use vstd::std_specs::hash::group_hash_axioms;

// ---------------------------------------------------------------------------
// Subtitles
// ---------------------------------------------------------------------------

/// Shortest time a subtitle line stays on screen (ms)
pub const MIN_LINE_MS: u32 = 500;

/// A single subtitle line
pub struct SubtitleLine {
    /// The text to display (may contain {highlighted} words)
    pub text: String,
    /// Speaker name (e.g. "mulle", "figge")
    pub speaker: String,
    /// Display duration in milliseconds
    pub duration_ms: u32,
}

/// Words enclosed in braces, scanning `t` from `i` on; `in_brace` tells
/// whether an opening brace is pending and `cur` holds the word so far.
pub open spec fn braced_words_from(t: Seq<char>, i: int, in_brace: bool, cur: Seq<char>) -> Seq<Seq<char>>
    decreases t.len() - i,
{
    if i < 0 || i >= t.len() {
        seq![]
    } else if t[i] == '{' {
        braced_words_from(t, i + 1, true, seq![])
    } else if t[i] == '}' {
        if in_brace {
            seq![cur] + braced_words_from(t, i + 1, false, cur)
        } else {
            braced_words_from(t, i + 1, false, cur)
        }
    } else if in_brace {
        braced_words_from(t, i + 1, true, cur.push(t[i]))
    } else {
        braced_words_from(t, i + 1, false, cur)
    }
}

/// The highlighted words of a text: each run of characters between a '{'
/// and the next '}'
pub open spec fn braced_words(t: Seq<char>) -> Seq<Seq<char>> {
    braced_words_from(t, 0, false, seq![])
}

/// The characters of `t` from `i` on, without '{' and '}'
pub open spec fn strip_braces_from(t: Seq<char>, i: int) -> Seq<char>
    decreases t.len() - i,
{
    if i < 0 || i >= t.len() {
        seq![]
    } else if t[i] == '{' || t[i] == '}' {
        strip_braces_from(t, i + 1)
    } else {
        seq![t[i]] + strip_braces_from(t, i + 1)
    }
}

/// A text without brace markers
pub open spec fn strip_braces(t: Seq<char>) -> Seq<char> {
    strip_braces_from(t, 0)
}

impl SubtitleLine {
    /// A line shown for `base_ms`, but at least `MIN_LINE_MS`.
    ///
    /// The base duration grows with the logarithm of the text length
    /// (`1000 * ln(max(len, 2))` ms); the caller computes it.
    pub fn new(text: &str, speaker: &str, base_ms: u32) -> (r: Self)
        ensures
            r.text@ == text@,
            r.speaker@ == speaker@,
            r.duration_ms == if base_ms > MIN_LINE_MS { base_ms } else { MIN_LINE_MS },
    {
        SubtitleLine {
            text: owned(text),
            speaker: owned(speaker),
            duration_ms: if base_ms > MIN_LINE_MS { base_ms } else { MIN_LINE_MS },
        }
    }

    /// A copy of this line
    pub fn duplicate(&self) -> (r: Self)
        ensures
            r == *self,
    {
        SubtitleLine { text: self.text.clone(), speaker: self.speaker.clone(), duration_ms: self.duration_ms }
    }

    /// Extract highlighted words (wrapped in {braces})
    pub fn highlighted_words(&self) -> (r: Vec<String>)
        ensures
            strings_view(r@) == braced_words(self.text@),
    {
        let t = self.text.as_str();
        let n = t.unicode_len();
        let mut words: Vec<String> = Vec::new();
        let mut in_brace = false;
        let mut current = String::new();
        let mut i: usize = 0;
        while i < n
            invariant
                n == t@.len(),
                t@ == self.text@,
                i <= n,
                strings_view(words@) + braced_words_from(t@, i as int, in_brace, current@) == braced_words(t@),
            decreases n - i,
        {
            let ch = t.get_char(i);
            let ghost before = words@;
            if ch == '{' {
                in_brace = true;
                current = String::new();
            } else if ch == '}' {
                if in_brace {
                    words.push(current.clone());
                    in_brace = false;
                    proof {
                        assert(strings_view(words@) =~= strings_view(before).push(current@));
                        assert(strings_view(before) + (seq![current@] + braced_words_from(t@, i + 1, false, current@))
                            =~= strings_view(words@) + braced_words_from(t@, i + 1, false, current@));
                    }
                }
            } else if in_brace {
                push_char(&mut current, ch);
            }
            i = i + 1;
        }
        proof {
            assert(strings_view(words@) =~= strings_view(words@) + braced_words_from(t@, n as int, in_brace, current@));
        }
        words
    }

    /// Plain text (without brace markers)
    pub fn plain_text(&self) -> (r: String)
        ensures
            r@ == strip_braces(self.text@),
    {
        let t = self.text.as_str();
        let n = t.unicode_len();
        let mut out = String::new();
        let mut i: usize = 0;
        while i < n
            invariant
                n == t@.len(),
                t@ == self.text@,
                i <= n,
                out@ + strip_braces_from(t@, i as int) == strip_braces(t@),
            decreases n - i,
        {
            let ch = t.get_char(i);
            let ghost before = out@;
            if ch != '{' && ch != '}' {
                push_char(&mut out, ch);
                proof {
                    assert(before + (seq![ch] + strip_braces_from(t@, i + 1)) =~= out@ + strip_braces_from(t@, i + 1));
                }
            }
            i = i + 1;
        }
        proof {
            assert(out@ =~= out@ + strip_braces_from(t@, n as int));
        }
        out
    }
}

/// Copy of a list of subtitle lines
pub fn duplicate_lines(lines: &Vec<SubtitleLine>) -> (r: Vec<SubtitleLine>)
    ensures
        r@ == lines@,
{
    let mut out: Vec<SubtitleLine> = Vec::new();
    let mut i: usize = 0;
    while i < lines.len()
        invariant
            i <= lines.len(),
            out@ == lines@.take(i as int),
        decreases lines.len() - i,
    {
        out.push(lines[i].duplicate());
        proof {
            assert(lines@.take(i + 1) =~= lines@.take(i as int).push(lines@[i as int]));
        }
        i = i + 1;
    }
    proof {
        assert(lines@.take(lines@.len() as int) =~= lines@);
    }
    out
}

// ---------------------------------------------------------------------------
// Dialog sequences
// ---------------------------------------------------------------------------

/// A dialog sequence: subtitle lines played in order
pub struct DialogSequence {
    /// Audio member name (e.g. "03d012v0")
    pub audio_id: String,
    /// Subtitle lines
    pub lines: Vec<SubtitleLine>,
    /// Current line index
    pub current_line: usize,
    /// Elapsed time on the current line (ms)
    pub elapsed_ms: u32,
    /// Whether the dialog has finished
    pub finished: bool,
}

/// Whether advancing a running dialog by `dt` moves to the next line
pub open spec fn line_changes(d: DialogSequence, dt: u32) -> bool {
    d.running() && d.elapsed_ms + dt >= d.lines@[d.current_line as int].duration_ms
}

/// A dialog after `dt` more milliseconds: the current line ends once its
/// duration has elapsed; the dialog finishes after its last line.
pub open spec fn advanced(d: DialogSequence, dt: u32) -> DialogSequence {
    if !d.running() {
        d
    } else if line_changes(d, dt) {
        DialogSequence {
            elapsed_ms: 0,
            current_line: (d.current_line + 1) as usize,
            finished: d.current_line + 1 >= d.lines@.len(),
            ..d
        }
    } else {
        DialogSequence { elapsed_ms: (d.elapsed_ms + dt) as u32, ..d }
    }
}

impl DialogSequence {
    /// The current line index is valid while the dialog runs
    pub open spec fn well_formed(&self) -> bool {
        self.finished || self.lines@.len() == 0 || self.current_line < self.lines@.len()
    }

    /// Whether `advance` does anything
    pub open spec fn running(&self) -> bool {
        !self.finished && self.lines@.len() > 0
    }

    /// A dialog at its first line
    pub fn new(audio_id: &str, lines: Vec<SubtitleLine>) -> (r: Self)
        ensures
            r.audio_id@ == audio_id@,
            r.lines@ == lines@,
            r.current_line == 0,
            r.elapsed_ms == 0,
            !r.finished,
            r.well_formed(),
    {
        DialogSequence { audio_id: owned(audio_id), lines, current_line: 0, elapsed_ms: 0, finished: false }
    }

    /// Advance the dialog by `dt_ms` milliseconds. Returns true if the line changed.
    pub fn advance(&mut self, dt_ms: u32) -> (changed: bool)
        requires
            old(self).well_formed(),
            old(self).running() ==> old(self).elapsed_ms + dt_ms <= u32::MAX,
        ensures
            *final(self) == advanced(*old(self), dt_ms),
            changed == line_changes(*old(self), dt_ms),
            final(self).well_formed(),
    {
        if self.finished || self.lines.len() == 0 {
            return false;
        }
        self.elapsed_ms = self.elapsed_ms + dt_ms;
        let d = self.lines[self.current_line].duration_ms;
        if self.elapsed_ms >= d {
            self.elapsed_ms = 0;
            self.current_line = self.current_line + 1;
            if self.current_line >= self.lines.len() {
                self.finished = true;
            }
            return true;
        }
        false
    }

    /// The subtitle to display now
    pub fn current_subtitle(&self) -> (r: Option<&SubtitleLine>)
        ensures
            r == (if self.finished || self.current_line >= self.lines@.len() {
                None
            } else {
                Some(&self.lines@[self.current_line as int])
            }),
    {
        if self.finished {
            None
        } else if self.current_line < self.lines.len() {
            Some(&self.lines[self.current_line])
        } else {
            None
        }
    }

    /// Skip to the end
    pub fn skip(&mut self)
        ensures
            final(self).finished,
            final(self).current_line == old(self).lines@.len(),
            final(self).audio_id == old(self).audio_id,
            final(self).lines == old(self).lines,
            final(self).elapsed_ms == old(self).elapsed_ms,
    {
        self.finished = true;
        self.current_line = self.lines.len();
    }
}

// ---------------------------------------------------------------------------
// Quest flags
// ---------------------------------------------------------------------------

/// Quest flags: cache flags (reset when leaving the yard) and permanent
/// flags (persisted in the save, never reset)
pub struct QuestState {
    /// Active cache flags
    pub cache: Vec<String>,
    /// Permanent flags
    pub permanent: Vec<String>,
}

impl QuestState {
    /// No flags set
    pub fn new() -> (r: Self)
        ensures
            r.cache@.len() == 0,
            r.permanent@.len() == 0,
    {
        QuestState { cache: Vec::new(), permanent: Vec::new() }
    }

    /// Set a cache flag (once)
    pub fn add_cache(&mut self, flag: &str)
        ensures
            holds_str(old(self).cache@, flag@) ==> final(self).cache@ == old(self).cache@,
            !holds_str(old(self).cache@, flag@) ==> strings_view(final(self).cache@) == strings_view(old(self).cache@).push(flag@),
            holds_str(final(self).cache@, flag@),
            final(self).permanent == old(self).permanent,
    {
        add_flag(&mut self.cache, flag);
    }

    /// Is a cache flag set?
    pub fn has_cache(&self, flag: &str) -> (r: bool)
        ensures
            r == holds_str(self.cache@, flag@),
    {
        contains_str(self.cache.as_slice(), flag)
    }

    /// Remove a cache flag
    pub fn remove_cache(&mut self, flag: &str)
        ensures
            strings_view(final(self).cache@) == drop_flag(strings_view(old(self).cache@), flag@),
            !holds_str(final(self).cache@, flag@),
            final(self).permanent == old(self).permanent,
    {
        remove_flag(&mut self.cache, flag);
    }

    /// Reset all cache flags (when a drive starts)
    pub fn reset_cache(&mut self)
        ensures
            final(self).cache@.len() == 0,
            final(self).permanent == old(self).permanent,
    {
        self.cache = Vec::new();
    }

    /// Set a permanent flag (once)
    pub fn add_permanent(&mut self, flag: &str)
        ensures
            holds_str(old(self).permanent@, flag@) ==> final(self).permanent@ == old(self).permanent@,
            !holds_str(old(self).permanent@, flag@) ==> strings_view(final(self).permanent@) == strings_view(old(self).permanent@).push(flag@),
            holds_str(final(self).permanent@, flag@),
            final(self).cache == old(self).cache,
    {
        add_flag(&mut self.permanent, flag);
    }

    /// Is a permanent flag set?
    pub fn has_permanent(&self, flag: &str) -> (r: bool)
        ensures
            r == holds_str(self.permanent@, flag@),
    {
        contains_str(self.permanent.as_slice(), flag)
    }

    /// Load flags from save data
    pub fn load_from_save(&mut self, cache_list: &[String], own_stuff: &[String])
        ensures
            final(self).cache@ == cache_list@,
            final(self).permanent@ == own_stuff@,
    {
        self.cache = clone_strings(cache_list);
        self.permanent = clone_strings(own_stuff);
    }

    /// Cache flags, for saving
    pub fn cache_list(&self) -> (r: &[String])
        ensures
            r@ == self.cache@,
    {
        self.cache.as_slice()
    }

    /// Permanent flags, for saving
    pub fn permanent_list(&self) -> (r: &[String])
        ensures
            r@ == self.permanent@,
    {
        self.permanent.as_slice()
    }
}

// ---------------------------------------------------------------------------
// Missions
// ---------------------------------------------------------------------------

/// How a mission is delivered
#[derive(Debug, Clone, Copy, PartialEq, Eq, Structural)]
pub enum MissionDelivery {
    Telephone,
    Mail,
}

/// A mission definition
pub struct Mission {
    pub mission_id: u32,
    /// Delivery type: telephone or mail
    pub delivery: MissionDelivery,
    /// Director member name of the mail image (empty for telephone)
    pub image: String,
    /// Audio member name of the mission sound
    pub sound: String,
}

/// Mission database
pub struct MissionDB {
    pub missions: HashMap<u32, Mission>,
}

/// The built-in missions: id, delivery, mail image, sound
pub open spec fn mission_table() -> Seq<(u32, MissionDelivery, Seq<char>, Seq<char>)> {
    seq![
        (1u32, MissionDelivery::Telephone, ""@, "50d001v0"@),
        (2u32, MissionDelivery::Mail, "50b001v0"@, "50d016v0"@),
        (3u32, MissionDelivery::Telephone, ""@, "50d003v0"@),
        (4u32, MissionDelivery::Mail, "50b002v0"@, "50d004v0"@),
        (5u32, MissionDelivery::Telephone, ""@, "50d005v0"@),
        (6u32, MissionDelivery::Mail, "50b003v0"@, "50d006v0"@),
        (7u32, MissionDelivery::Telephone, ""@, "50d007v0"@),
        (8u32, MissionDelivery::Mail, "50b004v0"@, "50d008v0"@),
    ]
}

/// Whether a mission matches a row of the table
pub open spec fn mission_is(m: Mission, row: (u32, MissionDelivery, Seq<char>, Seq<char>)) -> bool {
    &&& m.mission_id == row.0
    &&& m.delivery == row.1
    &&& m.image@ == row.2
    &&& m.sound@ == row.3
}

impl MissionDB {
    /// The eight built-in missions, keyed by id
    pub fn load() -> (r: Self)
        ensures
            r.missions@.dom() == Set::new(|id: u32| 1 <= id <= 8),
            forall|k: int| 0 <= k < 8 ==> #[trigger] mission_is(r.missions@[mission_table()[k].0], mission_table()[k]),
    {
        let mut missions: HashMap<u32, Mission> = HashMap::new();
        missions.insert(1, Mission { mission_id: 1, delivery: MissionDelivery::Telephone, image: owned(""), sound: owned("50d001v0") });
        missions.insert(2, Mission { mission_id: 2, delivery: MissionDelivery::Mail, image: owned("50b001v0"), sound: owned("50d016v0") });
        missions.insert(3, Mission { mission_id: 3, delivery: MissionDelivery::Telephone, image: owned(""), sound: owned("50d003v0") });
        missions.insert(4, Mission { mission_id: 4, delivery: MissionDelivery::Mail, image: owned("50b002v0"), sound: owned("50d004v0") });
        missions.insert(5, Mission { mission_id: 5, delivery: MissionDelivery::Telephone, image: owned(""), sound: owned("50d005v0") });
        missions.insert(6, Mission { mission_id: 6, delivery: MissionDelivery::Mail, image: owned("50b003v0"), sound: owned("50d006v0") });
        missions.insert(7, Mission { mission_id: 7, delivery: MissionDelivery::Telephone, image: owned(""), sound: owned("50d007v0") });
        missions.insert(8, Mission { mission_id: 8, delivery: MissionDelivery::Mail, image: owned("50b004v0"), sound: owned("50d008v0") });
        proof {
            assert(missions@.dom() =~= Set::new(|id: u32| 1 <= id <= 8));
            assert forall|k: int| 0 <= k < 8 implies #[trigger] mission_is(missions@[mission_table()[k].0], mission_table()[k]) by {
                if k == 0 {} else if k == 1 {} else if k == 2 {} else if k == 3 {}
                else if k == 4 {} else if k == 5 {} else if k == 6 {} else {}
            }
        }
        MissionDB { missions }
    }

    /// A mission by id
    pub fn get(&self, id: u32) -> (r: Option<&Mission>)
        ensures
            r == (if self.missions@.contains_key(id) { Some(&self.missions@[id]) } else { None }),
    {
        self.missions.get(&id)
    }
}

// ---------------------------------------------------------------------------
// Road legality hints
// ---------------------------------------------------------------------------

/// The audio of Mulle's hint for a missing part, if the failure is known
pub open spec fn hint_of(failure: Seq<char>) -> Option<Seq<char>> {
    if failure == "engine"@ {
        Some("03d040v0"@)
    } else if failure == "tires"@ {
        Some("03d041v0"@)
    } else if failure == "brake"@ {
        Some("03d042v0"@)
    } else if failure == "steering"@ {
        Some("03d043v0"@)
    } else if failure == "fuel_tank"@ {
        Some("03d044v0"@)
    } else if failure == "battery"@ {
        Some("03d045v0"@)
    } else if failure == "gearbox"@ {
        Some("03d046v0"@)
    } else if failure == "fuel_consumption"@ {
        Some("03d040v0"@)
    } else {
        None
    }
}

/// The hints for the failures from index `i` on, in order, skipping unknown ones
pub open spec fn hints_from(failures: Seq<&str>, i: int) -> Seq<Seq<char>>
    decreases failures.len() - i,
{
    if i < 0 || i >= failures.len() {
        seq![]
    } else {
        match hint_of(failures[i]@) {
            Some(h) => seq![h] + hints_from(failures, i + 1),
            None => hints_from(failures, i + 1),
        }
    }
}

/// The view of a list of string slices
pub open spec fn strs_view(l: Seq<&str>) -> Seq<Seq<char>> {
    l.map_values(|s: &str| s@)
}

fn hint_for(failure: &str) -> (r: Option<&'static str>)
    ensures
        r matches Some(h) ==> hint_of(failure@) == Some(h@),
        r is None ==> hint_of(failure@) is None,
{
    if str_eq(failure, "engine") {
        Some("03d040v0")
    } else if str_eq(failure, "tires") {
        Some("03d041v0")
    } else if str_eq(failure, "brake") {
        Some("03d042v0")
    } else if str_eq(failure, "steering") {
        Some("03d043v0")
    } else if str_eq(failure, "fuel_tank") {
        Some("03d044v0")
    } else if str_eq(failure, "battery") {
        Some("03d045v0")
    } else if str_eq(failure, "gearbox") {
        Some("03d046v0")
    } else if str_eq(failure, "fuel_consumption") {
        Some("03d040v0")
    } else {
        None
    }
}

/// Audio ids of Mulle's hints for the missing car parts
pub fn road_legal_hint_sounds(failures: &[&str]) -> (r: Vec<&'static str>)
    ensures
        strs_view(r@) == hints_from(failures@, 0),
{
    let mut sounds: Vec<&'static str> = Vec::new();
    let mut i: usize = 0;
    while i < failures.len()
        invariant
            i <= failures@.len(),
            strs_view(sounds@) + hints_from(failures@, i as int) == hints_from(failures@, 0),
        decreases failures@.len() - i,
    {
        let ghost before = sounds@;
        match hint_for(failures[i]) {
            Some(h) => {
                sounds.push(h);
                proof {
                    assert(strs_view(sounds@) =~= strs_view(before).push(h@));
                    assert(strs_view(before) + (seq![h@] + hints_from(failures@, i + 1))
                        =~= strs_view(sounds@) + hints_from(failures@, i + 1));
                }
            },
            None => {},
        }
        i = i + 1;
    }
    proof {
        assert(strs_view(sounds@) =~= strs_view(sounds@) + hints_from(failures@, i as int));
    }
    sounds
}

// ---------------------------------------------------------------------------
// Dialog manager
// ---------------------------------------------------------------------------

/// A named time point in a sound, used for lip-sync ("talk", "silence", ...)
pub struct CuePoint {
    pub time_ms: u32,
    pub name: String,
}

/// Events emitted by the dialog manager
pub enum DialogEvent {
    /// A dialog sequence finished playing
    DialogFinished { audio_id: String },
    /// The queue is now empty (no more dialogs)
    QueueEmpty,
    /// A cue point was reached during audio playback
    CuePoint { audio_id: String, cue_name: String },
}

/// Abstract dialog event
pub enum DialogEventV {
    DialogFinished(Seq<char>),
    QueueEmpty,
    CuePoint(Seq<char>, Seq<char>),
}

impl View for DialogEvent {
    type V = DialogEventV;

    open spec fn view(&self) -> DialogEventV {
        match self {
            DialogEvent::DialogFinished { audio_id } => DialogEventV::DialogFinished(audio_id@),
            DialogEvent::QueueEmpty => DialogEventV::QueueEmpty,
            DialogEvent::CuePoint { audio_id, cue_name } => DialogEventV::CuePoint(audio_id@, cue_name@),
        }
    }
}

/// The abstract events of a list of events
pub open spec fn events_view(l: Seq<DialogEvent>) -> Seq<DialogEventV> {
    l.map_values(|e: DialogEvent| e@)
}

/// Cue points of the playing dialog audio, and which of them already fired
pub struct CueTracker {
    pub cue_points: Vec<CuePoint>,
    pub completed: Vec<bool>,
    pub audio_id: String,
}

/// Cue events that fire at audio time `t`, for the cue points from `i` on:
/// every cue point not fired yet whose time has been reached, in order
pub open spec fn cues_firing(cps: Seq<CuePoint>, done: Seq<bool>, audio_id: Seq<char>, t: u32, i: int) -> Seq<DialogEventV>
    decreases cps.len() - i,
{
    if i < 0 || i >= cps.len() {
        seq![]
    } else if !done[i] && t >= cps[i].time_ms {
        seq![DialogEventV::CuePoint(audio_id, cps[i].name@)] + cues_firing(cps, done, audio_id, t, i + 1)
    } else {
        cues_firing(cps, done, audio_id, t, i + 1)
    }
}

/// Which cue points have fired once the audio reached time `t`
pub open spec fn cues_done(cps: Seq<CuePoint>, done: Seq<bool>, t: u32) -> Seq<bool> {
    Seq::new(done.len(), |i: int| done[i] || t >= cps[i].time_ms)
}

/// The subtitle lines registered for `key` among the first `k` entries (the last entry wins)
pub open spec fn lines_in(db: Seq<(String, Vec<SubtitleLine>)>, key: Seq<char>, k: int) -> Option<Seq<SubtitleLine>>
    decreases k,
{
    if k <= 0 {
        None
    } else if db[k - 1].0@ == key {
        Some(db[k - 1].1@)
    } else {
        lines_in(db, key, k - 1)
    }
}

/// The subtitle lines registered for an audio id
pub open spec fn lines_for(db: Seq<(String, Vec<SubtitleLine>)>, key: Seq<char>) -> Option<Seq<SubtitleLine>> {
    lines_in(db, key, db.len() as int)
}

/// The dialog manager: the playing dialog, queued dialogs and subtitle data
pub struct DialogManager {
    /// Currently playing dialog (if any)
    pub active_dialog: Option<DialogSequence>,
    /// Queued dialogs (played in order)
    pub queue: Vec<DialogSequence>,
    /// Registered subtitle data: audio id and lines; a later entry for the
    /// same id replaces an earlier one
    pub subtitle_db: Vec<(String, Vec<SubtitleLine>)>,
    /// Cue-point tracking of the playing audio (for lip-sync)
    pub cue_tracker: Option<CueTracker>,
}

impl DialogManager {
    /// Every dialog can advance and the cue tracker is consistent
    pub open spec fn well_formed(&self) -> bool {
        &&& (self.active_dialog matches Some(d) ==> d.well_formed())
        &&& forall|i: int| 0 <= i < self.queue@.len() ==> (#[trigger] self.queue@[i]).well_formed()
        &&& (self.cue_tracker matches Some(t) ==> t.completed@.len() == t.cue_points@.len())
    }

    /// The registered lines for an audio id
    pub open spec fn lines_of(&self, audio_id: Seq<char>) -> Option<Seq<SubtitleLine>> {
        lines_for(self.subtitle_db@, audio_id)
    }

    /// A manager with the built-in subtitles registered and nothing playing
    pub fn new() -> (r: Self)
        ensures
            r.well_formed(),
            r.active_dialog is None,
            r.queue@.len() == 0,
            r.cue_tracker is None,
            forall|k: int| 0 <= k < default_subtitles().len() ==> #[trigger] lines_match(
                r.lines_of(default_subtitles()[k].0),
                default_subtitles()[k].1,
            ),
    {
        let mut mgr = DialogManager {
            active_dialog: None,
            queue: Vec::new(),
            subtitle_db: Vec::new(),
            cue_tracker: None,
        };
        mgr.register_default_subtitles();
        mgr
    }

    /// Register subtitle lines for an audio id
    pub fn set_lines(&mut self, audio_id: &str, lines: Vec<SubtitleLine>)
        ensures
            final(self).lines_of(audio_id@) == Some(lines@),
            forall|k: Seq<char>| k != audio_id@ ==> #[trigger] final(self).lines_of(k) == old(self).lines_of(k),
            final(self).active_dialog == old(self).active_dialog,
            final(self).queue == old(self).queue,
            final(self).cue_tracker == old(self).cue_tracker,
    {
        let ghost o = self.subtitle_db@;
        self.subtitle_db.push((owned(audio_id), lines));
        proof {
            assert(self.subtitle_db@.drop_last() =~= o);
            assert forall|k: Seq<char>| k != audio_id@ implies #[trigger] lines_for(self.subtitle_db@, k) == lines_for(o, k) by {
                assert(lines_in(self.subtitle_db@, k, o.len() as int) == lines_in(o, k, o.len() as int)) by {
                    lemma_lines_in_prefix(self.subtitle_db@, o, k, o.len() as int);
                }
            }
        }
    }

    fn find_lines(&self, audio_id: &str) -> (r: Option<Vec<SubtitleLine>>)
        ensures
            r matches Some(l) ==> self.lines_of(audio_id@) == Some(l@),
            r is None ==> self.lines_of(audio_id@) is None,
    {
        let mut k: usize = self.subtitle_db.len();
        while k > 0
            invariant
                k <= self.subtitle_db@.len(),
                self.lines_of(audio_id@) == lines_in(self.subtitle_db@, audio_id@, k as int),
            decreases k,
        {
            if str_eq(self.subtitle_db[k - 1].0.as_str(), audio_id) {
                return Some(duplicate_lines(&self.subtitle_db[k - 1].1));
            }
            k = k - 1;
        }
        None
    }

    /// Start a dialog, or queue it if one is playing.
    ///
    /// Without registered lines the dialog shows "[audio_id]" for
    /// `fallback_base_ms` (see `SubtitleLine::new`).
    pub fn talk(&mut self, audio_id: &str, fallback_base_ms: u32)
        requires
            old(self).well_formed(),
        ensures
            final(self).well_formed(),
            final(self).subtitle_db == old(self).subtitle_db,
            final(self).cue_tracker == old(self).cue_tracker,
            ({
                let d = if old(self).active_dialog is Some {
                    final(self).queue@.last()
                } else {
                    final(self).active_dialog->0
                };
                &&& d.audio_id@ == audio_id@
                &&& d.current_line == 0
                &&& d.elapsed_ms == 0
                &&& !d.finished
                &&& match old(self).lines_of(audio_id@) {
                    Some(l) => d.lines@ == l,
                    None => d.lines@.len() == 1 && d.lines@[0].text@ == seq!['['] + audio_id@ + seq![']']
                        && d.lines@[0].speaker@ == seq!['?']
                        && d.lines@[0].duration_ms == (if fallback_base_ms > MIN_LINE_MS { fallback_base_ms } else { MIN_LINE_MS }),
                }
            }),
            old(self).active_dialog is Some ==> {
                &&& final(self).active_dialog == old(self).active_dialog
                &&& final(self).queue@.len() == old(self).queue@.len() + 1
                &&& final(self).queue@ == old(self).queue@.push(final(self).queue@.last())
            },
            old(self).active_dialog is None ==> {
                &&& final(self).active_dialog is Some
                &&& final(self).queue == old(self).queue
            },
    {
        let lines = match self.find_lines(audio_id) {
            Some(l) => l,
            None => {
                let mut text = String::new();
                push_char(&mut text, '[');
                let n = audio_id.unicode_len();
                let mut i: usize = 0;
                while i < n
                    invariant
                        n == audio_id@.len(),
                        i <= n,
                        text@ == seq!['['] + audio_id@.take(i as int),
                    decreases n - i,
                {
                    push_char(&mut text, audio_id.get_char(i));
                    proof {
                        assert(audio_id@.take(i + 1) =~= audio_id@.take(i as int).push(audio_id@[i as int]));
                    }
                    i = i + 1;
                }
                push_char(&mut text, ']');
                proof {
                    assert(audio_id@.take(n as int) =~= audio_id@);
                    assert(text@ =~= seq!['['] + audio_id@ + seq![']']);
                }
                let mut v: Vec<SubtitleLine> = Vec::new();
                v.push(SubtitleLine::new(text.as_str(), "?", fallback_base_ms));
                proof {
                    reveal_strlit("?");
                }
                v
            },
        };
        let seq = DialogSequence::new(audio_id, lines);
        if self.active_dialog.is_some() {
            let ghost oq = self.queue@;
            self.queue.push(seq);
            proof {
                assert(self.queue@ =~= oq.push(self.queue@.last()));
                assert forall|i: int| 0 <= i < self.queue@.len() implies (#[trigger] self.queue@[i]).well_formed() by {
                    if i < oq.len() {
                        assert(self.queue@[i] == oq[i]);
                    }
                }
            }
        } else {
            self.active_dialog = Some(seq);
        }
    }

    /// Track the cue points of the dialog audio that just started.
    /// Nothing changes when there are no cue points.
    pub fn set_cue_tracking(&mut self, audio_id: &str, cue_points: Vec<CuePoint>)
        requires
            old(self).well_formed(),
        ensures
            final(self).well_formed(),
            final(self).active_dialog == old(self).active_dialog,
            final(self).queue == old(self).queue,
            final(self).subtitle_db == old(self).subtitle_db,
            cue_points@.len() == 0 ==> final(self).cue_tracker == old(self).cue_tracker,
            cue_points@.len() > 0 ==> (final(self).cue_tracker matches Some(t) && t.audio_id@ == audio_id@
                && t.cue_points@ == cue_points@ && t.completed@ == Seq::new(cue_points@.len(), |i: int| false)),
    {
        if cue_points.len() == 0 {
            return;
        }
        let n = cue_points.len();
        let mut completed: Vec<bool> = Vec::new();
        let mut i: usize = 0;
        while i < n
            invariant
                i <= n,
                completed@ == Seq::new(i as nat, |j: int| false),
            decreases n - i,
        {
            completed.push(false);
            proof {
                assert(completed@ =~= Seq::new((i + 1) as nat, |j: int| false));
            }
            i = i + 1;
        }
        self.cue_tracker = Some(CueTracker { cue_points, completed, audio_id: owned(audio_id) });
    }

    /// Fire the cue points reached at audio time `elapsed`
    fn poll_cues(&mut self, elapsed: u32, events: &mut Vec<DialogEvent>)
        requires
            old(self).well_formed(),
        ensures
            final(self).well_formed(),
            final(self).active_dialog == old(self).active_dialog,
            final(self).queue == old(self).queue,
            final(self).subtitle_db == old(self).subtitle_db,
            match old(self).cue_tracker {
                Some(t) => {
                    &&& events_view(final(events)@) == events_view(old(events)@) + cues_firing(t.cue_points@, t.completed@, t.audio_id@, elapsed, 0)
                    &&& (final(self).cue_tracker matches Some(t2) && t2.cue_points == t.cue_points && t2.audio_id == t.audio_id
                        && t2.completed@ == cues_done(t.cue_points@, t.completed@, elapsed))
                },
                None => final(events)@ == old(events)@ && final(self).cue_tracker is None,
            },
    {
        let taken = self.cue_tracker.take();
        match taken {
            None => {
                assert(events@ == old(events)@);
                assert(old(self).cue_tracker is None);
            },
            Some(mut t) => {
                let ghost done0 = t.completed@;
                let ghost t0 = t;
                let ghost ev0 = events_view(events@);
                let n = t.cue_points.len();
                let mut i: usize = 0;
                while i < n
                    invariant
                        n == t.cue_points@.len(),
                        t.cue_points == t0.cue_points,
                        t.audio_id == t0.audio_id,
                        t.completed@.len() == n,
                        done0.len() == n,
                        i <= n,
                        t.completed@ == Seq::new(n as nat, |j: int| if j < i { done0[j] || elapsed >= t0.cue_points@[j].time_ms } else { done0[j] }),
                        events_view(events@) + cues_firing(t.cue_points@, done0, t.audio_id@, elapsed, i as int)
                            == ev0 + cues_firing(t.cue_points@, done0, t.audio_id@, elapsed, 0),
                    decreases n - i,
                {
                    let ghost before = events_view(events@);
                    let ghost c0 = t.completed@;
                    if !t.completed[i] && elapsed >= t.cue_points[i].time_ms {
                        t.completed.set(i, true);
                        assert(t.completed@ == c0.update(i as int, true));
                        events.push(DialogEvent::CuePoint {
                            audio_id: t.audio_id.clone(),
                            cue_name: t.cue_points[i].name.clone(),
                        });
                        proof {
                            let e = DialogEventV::CuePoint(t.audio_id@, t.cue_points@[i as int].name@);
                            assert(events_view(events@) =~= before.push(e));
                            assert(before + (seq![e] + cues_firing(t.cue_points@, done0, t.audio_id@, elapsed, i + 1))
                                =~= events_view(events@) + cues_firing(t.cue_points@, done0, t.audio_id@, elapsed, i + 1));
                        }
                    }
                    assert(t.completed@ =~= Seq::new(n as nat, |j: int| if j < i + 1 { done0[j] || elapsed >= t0.cue_points@[j].time_ms } else { done0[j] }));
                    i = i + 1;
                }
                proof {
                    assert(events_view(events@) =~= events_view(events@) + cues_firing(t.cue_points@, done0, t.audio_id@, elapsed, n as int));
                    assert(t.completed@ =~= cues_done(t.cue_points@, done0, elapsed));
                }
                self.cue_tracker = Some(t);
            },
        }
    }

    /// Update the dialog manager by `dt_ms`, with the playing audio at
    /// `audio_elapsed_ms`. Returns cue-point events, then the events of a
    /// dialog that finished.
    pub fn update(&mut self, dt_ms: u32, audio_elapsed_ms: u32) -> (events: Vec<DialogEvent>)
        requires
            old(self).well_formed(),
            (old(self).active_dialog matches Some(d) && d.running()) ==> old(self).active_dialog->0.elapsed_ms + dt_ms <= u32::MAX,
        ensures
            final(self).well_formed(),
            final(self).subtitle_db == old(self).subtitle_db,
            ({
                let cues = match old(self).cue_tracker {
                    Some(t) => cues_firing(t.cue_points@, t.completed@, t.audio_id@, audio_elapsed_ms, 0),
                    None => seq![],
                };
                match old(self).active_dialog {
                    None => {
                        &&& events_view(events@) == cues
                        &&& final(self).active_dialog is None
                        &&& final(self).queue == old(self).queue
                    },
                    Some(d) => {
                        let d2 = advanced(d, dt_ms);
                        if d2.finished {
                            &&& final(self).cue_tracker is None
                            &&& if old(self).queue@.len() > 0 {
                                &&& events_view(events@) == cues.push(DialogEventV::DialogFinished(d.audio_id@))
                                &&& final(self).active_dialog == Some(old(self).queue@[0])
                                &&& final(self).queue@ == old(self).queue@.drop_first()
                            } else {
                                &&& events_view(events@) == cues.push(DialogEventV::DialogFinished(d.audio_id@)).push(DialogEventV::QueueEmpty)
                                &&& final(self).active_dialog is None
                                &&& final(self).queue@.len() == 0
                            }
                        } else {
                            &&& events_view(events@) == cues
                            &&& final(self).active_dialog == Some(d2)
                            &&& final(self).queue == old(self).queue
                        }
                    },
                }
            }),
    {
        let mut events: Vec<DialogEvent> = Vec::new();
        self.poll_cues(audio_elapsed_ms, &mut events);
        proof {
            assert(events_view(events@) =~= seq![] + events_view(events@));
        }
        let taken = self.active_dialog.take();
        match taken {
            None => {},
            Some(mut dialog) => {
                dialog.advance(dt_ms);
                if dialog.finished {
                    let ghost before = events_view(events@);
                    self.cue_tracker = None;
                    events.push(DialogEvent::DialogFinished { audio_id: dialog.audio_id.clone() });
                    proof {
                        assert(events_view(events@) =~= before.push(DialogEventV::DialogFinished(dialog.audio_id@)));
                    }
                    if self.queue.len() > 0 {
                        let ghost oq = self.queue@;
                        let next = self.queue.remove(0);
                        proof {
                            assert(self.queue@ =~= oq.drop_first());
                            assert forall|i: int| 0 <= i < self.queue@.len() implies (#[trigger] self.queue@[i]).well_formed() by {
                                assert(self.queue@[i] == oq[i + 1]);
                            }
                        }
                        self.active_dialog = Some(next);
                    } else {
                        let ghost before2 = events_view(events@);
                        events.push(DialogEvent::QueueEmpty);
                        proof {
                            assert(events_view(events@) =~= before2.push(DialogEventV::QueueEmpty));
                        }
                    }
                } else {
                    self.active_dialog = Some(dialog);
                }
            },
        }
        events
    }

    /// The subtitle to render now, if any
    pub fn current_subtitle(&self) -> (r: Option<&SubtitleLine>)
        ensures
            r == (match self.active_dialog {
                Some(d) => if d.finished || d.current_line >= d.lines@.len() {
                    None
                } else {
                    Some(&d.lines@[d.current_line as int])
                },
                None => None,
            }),
    {
        match &self.active_dialog {
            Some(d) => d.current_subtitle(),
            None => None,
        }
    }

    /// Skip the playing dialog; the next queued dialog starts
    pub fn skip_current(&mut self)
        requires
            old(self).well_formed(),
        ensures
            final(self).well_formed(),
            final(self).cue_tracker is None,
            final(self).subtitle_db == old(self).subtitle_db,
            old(self).queue@.len() > 0 ==> final(self).active_dialog == Some(old(self).queue@[0])
                && final(self).queue@ == old(self).queue@.drop_first(),
            old(self).queue@.len() == 0 ==> final(self).active_dialog is None && final(self).queue@.len() == 0,
    {
        self.active_dialog = None;
        self.cue_tracker = None;
        if self.queue.len() > 0 {
            let ghost oq = self.queue@;
            let next = self.queue.remove(0);
            proof {
                assert(self.queue@ =~= oq.drop_first());
                assert forall|i: int| 0 <= i < self.queue@.len() implies (#[trigger] self.queue@[i]).well_formed() by {
                    assert(self.queue@[i] == oq[i + 1]);
                }
            }
            self.active_dialog = Some(next);
        }
    }

    /// Whether a dialog is playing
    pub fn is_talking(&self) -> (r: bool)
        ensures
            r == self.active_dialog is Some,
    {
        self.active_dialog.is_some()
    }

    /// Stop and drop all dialogs
    pub fn clear(&mut self)
        ensures
            final(self).active_dialog is None,
            final(self).cue_tracker is None,
            final(self).queue@.len() == 0,
            final(self).subtitle_db == old(self).subtitle_db,
    {
        self.active_dialog = None;
        self.cue_tracker = None;
        self.queue = Vec::new();
    }

    /// Register one line for an audio id
    fn set_line(&mut self, audio_id: &str, text: &str, speaker: &str, base_ms: u32)
        ensures
            lines_match(final(self).lines_of(audio_id@), seq![(text@, speaker@, base_ms)]),
            forall|k: Seq<char>| k != audio_id@ ==> #[trigger] final(self).lines_of(k) == old(self).lines_of(k),
            final(self).active_dialog == old(self).active_dialog,
            final(self).queue == old(self).queue,
            final(self).cue_tracker == old(self).cue_tracker,
    {
        let mut v: Vec<SubtitleLine> = Vec::new();
        v.push(SubtitleLine::new(text, speaker, base_ms));
        self.set_lines(audio_id, v);
    }

    /// Register two lines for an audio id
    fn set_two_lines(&mut self, audio_id: &str, first: (&str, u32), second: (&str, u32), speaker: &str)
        ensures
            lines_match(final(self).lines_of(audio_id@), seq![(first.0@, speaker@, first.1), (second.0@, speaker@, second.1)]),
            forall|k: Seq<char>| k != audio_id@ ==> #[trigger] final(self).lines_of(k) == old(self).lines_of(k),
            final(self).active_dialog == old(self).active_dialog,
            final(self).queue == old(self).queue,
            final(self).cue_tracker == old(self).cue_tracker,
    {
        let mut v: Vec<SubtitleLine> = Vec::new();
        v.push(SubtitleLine::new(first.0, speaker, first.1));
        v.push(SubtitleLine::new(second.0, speaker, second.1));
        self.set_lines(audio_id, v);
    }

    /// Register the built-in subtitles
    fn register_default_subtitles(&mut self)
        ensures
            forall|k: int| 0 <= k < default_subtitles().len() ==> #[trigger] lines_match(
                final(self).lines_of(default_subtitles()[k].0),
                default_subtitles()[k].1,
            ),
            final(self).active_dialog == old(self).active_dialog,
            final(self).queue == old(self).queue,
            final(self).cue_tracker == old(self).cue_tracker,
    {
        // Garage: Mulle's comment
        self.set_line("03d012v0", "- Keine Räder, kein Spaß...", "mulle", 3367);
        // Road legality hints
        self.set_line("03d040v0", "- Du brauchst noch einen Motor!", "mulle", 3433);
        self.set_line("03d041v0", "- Du brauchst noch Räder!", "mulle", 3258);
        self.set_line("03d042v0", "- Du brauchst noch Bremsen!", "mulle", 3295);
        self.set_line("03d043v0", "- Du brauchst noch ein Lenkrad!", "mulle", 3433);
        self.set_line("03d044v0", "- Du brauchst noch einen Tank!", "mulle", 3401);
        self.set_line("03d045v0", "- Du brauchst noch eine Batterie!", "mulle", 3496);
        self.set_line("03d046v0", "- Du brauchst noch ein Getriebe!", "mulle", 3465);
        // Fuel empty on the road
        self.set_line("05d011v0", "- Oh nein, der Tank ist leer!", "mulle", 3367);
        // Figge Ferrum
        self.set_two_lines(
            "92d002v0",
            ("- Mein {Salka} ist schon wieder weggelaufen,", 3784),
            ("- Hast du ihn gesehen?", 3091),
            "figge",
        );
        self.set_two_lines(
            "92d003v0",
            ("- Danke, dass du {Salka} zurückgebracht hast!", 3828),
            ("- Hier, nimm diesen Extra-Tank als Belohnung.", 3806),
            "figge",
        );
        self.set_line("92d004v0", "- Nein, ich habe deinen Hund nicht gesehen.", "mulle", 3761);
        proof {
            lemma_default_ids_distinct();
        }
    }
}

/// Whether registered lines have the given text, speaker and base duration
pub open spec fn lines_match(l: Option<Seq<SubtitleLine>>, want: Seq<(Seq<char>, Seq<char>, u32)>) -> bool {
    match l {
        Some(lines) => {
            &&& lines.len() == want.len()
            &&& forall|i: int| 0 <= i < lines.len() ==> {
                &&& (#[trigger] lines[i]).text@ == want[i].0
                &&& lines[i].speaker@ == want[i].1
                &&& lines[i].duration_ms == (if want[i].2 > MIN_LINE_MS { want[i].2 } else { MIN_LINE_MS })
            }
        },
        None => false,
    }
}

/// The built-in subtitles: audio id, and for each line its text, speaker
/// and base display time (ms) for its length
pub open spec fn default_subtitles() -> Seq<(Seq<char>, Seq<(Seq<char>, Seq<char>, u32)>)> {
    seq![
        ("03d012v0"@, seq![("- Keine Räder, kein Spaß..."@, "mulle"@, 3367u32)]),
        ("03d040v0"@, seq![("- Du brauchst noch einen Motor!"@, "mulle"@, 3433u32)]),
        ("03d041v0"@, seq![("- Du brauchst noch Räder!"@, "mulle"@, 3258u32)]),
        ("03d042v0"@, seq![("- Du brauchst noch Bremsen!"@, "mulle"@, 3295u32)]),
        ("03d043v0"@, seq![("- Du brauchst noch ein Lenkrad!"@, "mulle"@, 3433u32)]),
        ("03d044v0"@, seq![("- Du brauchst noch einen Tank!"@, "mulle"@, 3401u32)]),
        ("03d045v0"@, seq![("- Du brauchst noch eine Batterie!"@, "mulle"@, 3496u32)]),
        ("03d046v0"@, seq![("- Du brauchst noch ein Getriebe!"@, "mulle"@, 3465u32)]),
        ("05d011v0"@, seq![("- Oh nein, der Tank ist leer!"@, "mulle"@, 3367u32)]),
        ("92d002v0"@, seq![
            ("- Mein {Salka} ist schon wieder weggelaufen,"@, "figge"@, 3784u32),
            ("- Hast du ihn gesehen?"@, "figge"@, 3091u32),
        ]),
        ("92d003v0"@, seq![
            ("- Danke, dass du {Salka} zurückgebracht hast!"@, "figge"@, 3828u32),
            ("- Hier, nimm diesen Extra-Tank als Belohnung."@, "figge"@, 3806u32),
        ]),
        ("92d004v0"@, seq![("- Nein, ich habe deinen Hund nicht gesehen."@, "mulle"@, 3761u32)]),
    ]
}

proof fn lemma_lines_in_prefix(db: Seq<(String, Vec<SubtitleLine>)>, pre: Seq<(String, Vec<SubtitleLine>)>, key: Seq<char>, k: int)
    requires
        0 <= k <= pre.len() <= db.len(),
        forall|i: int| 0 <= i < pre.len() ==> db[i] == pre[i],
    ensures
        lines_in(db, key, k) == lines_in(pre, key, k),
    decreases k,
{
    if k > 0 {
        lemma_lines_in_prefix(db, pre, key, k - 1);
    }
}

proof fn lemma_default_ids_distinct()
    ensures
        forall|i: int, j: int| 0 <= i < j < default_subtitles().len() ==> default_subtitles()[i].0 != default_subtitles()[j].0,
{
    reveal_strlit("03d012v0");
    reveal_strlit("03d040v0");
    reveal_strlit("03d041v0");
    reveal_strlit("03d042v0");
    reveal_strlit("03d043v0");
    reveal_strlit("03d044v0");
    reveal_strlit("03d045v0");
    reveal_strlit("03d046v0");
    reveal_strlit("05d011v0");
    reveal_strlit("92d002v0");
    reveal_strlit("92d003v0");
    reveal_strlit("92d004v0");
    assert("03d012v0"@ != "03d040v0"@) by { assert("03d012v0"@[4] != "03d040v0"@[4]); }
    assert("03d012v0"@ != "03d041v0"@) by { assert("03d012v0"@[4] != "03d041v0"@[4]); }
    assert("03d012v0"@ != "03d042v0"@) by { assert("03d012v0"@[4] != "03d042v0"@[4]); }
    assert("03d012v0"@ != "03d043v0"@) by { assert("03d012v0"@[4] != "03d043v0"@[4]); }
    assert("03d012v0"@ != "03d044v0"@) by { assert("03d012v0"@[4] != "03d044v0"@[4]); }
    assert("03d012v0"@ != "03d045v0"@) by { assert("03d012v0"@[4] != "03d045v0"@[4]); }
    assert("03d012v0"@ != "03d046v0"@) by { assert("03d012v0"@[4] != "03d046v0"@[4]); }
    assert("03d012v0"@ != "05d011v0"@) by { assert("03d012v0"@[1] != "05d011v0"@[1]); }
    assert("03d012v0"@ != "92d002v0"@) by { assert("03d012v0"@[0] != "92d002v0"@[0]); }
    assert("03d012v0"@ != "92d003v0"@) by { assert("03d012v0"@[0] != "92d003v0"@[0]); }
    assert("03d012v0"@ != "92d004v0"@) by { assert("03d012v0"@[0] != "92d004v0"@[0]); }
    assert("03d040v0"@ != "03d041v0"@) by { assert("03d040v0"@[5] != "03d041v0"@[5]); }
    assert("03d040v0"@ != "03d042v0"@) by { assert("03d040v0"@[5] != "03d042v0"@[5]); }
    assert("03d040v0"@ != "03d043v0"@) by { assert("03d040v0"@[5] != "03d043v0"@[5]); }
    assert("03d040v0"@ != "03d044v0"@) by { assert("03d040v0"@[5] != "03d044v0"@[5]); }
    assert("03d040v0"@ != "03d045v0"@) by { assert("03d040v0"@[5] != "03d045v0"@[5]); }
    assert("03d040v0"@ != "03d046v0"@) by { assert("03d040v0"@[5] != "03d046v0"@[5]); }
    assert("03d040v0"@ != "05d011v0"@) by { assert("03d040v0"@[1] != "05d011v0"@[1]); }
    assert("03d040v0"@ != "92d002v0"@) by { assert("03d040v0"@[0] != "92d002v0"@[0]); }
    assert("03d040v0"@ != "92d003v0"@) by { assert("03d040v0"@[0] != "92d003v0"@[0]); }
    assert("03d040v0"@ != "92d004v0"@) by { assert("03d040v0"@[0] != "92d004v0"@[0]); }
    assert("03d041v0"@ != "03d042v0"@) by { assert("03d041v0"@[5] != "03d042v0"@[5]); }
    assert("03d041v0"@ != "03d043v0"@) by { assert("03d041v0"@[5] != "03d043v0"@[5]); }
    assert("03d041v0"@ != "03d044v0"@) by { assert("03d041v0"@[5] != "03d044v0"@[5]); }
    assert("03d041v0"@ != "03d045v0"@) by { assert("03d041v0"@[5] != "03d045v0"@[5]); }
    assert("03d041v0"@ != "03d046v0"@) by { assert("03d041v0"@[5] != "03d046v0"@[5]); }
    assert("03d041v0"@ != "05d011v0"@) by { assert("03d041v0"@[1] != "05d011v0"@[1]); }
    assert("03d041v0"@ != "92d002v0"@) by { assert("03d041v0"@[0] != "92d002v0"@[0]); }
    assert("03d041v0"@ != "92d003v0"@) by { assert("03d041v0"@[0] != "92d003v0"@[0]); }
    assert("03d041v0"@ != "92d004v0"@) by { assert("03d041v0"@[0] != "92d004v0"@[0]); }
    assert("03d042v0"@ != "03d043v0"@) by { assert("03d042v0"@[5] != "03d043v0"@[5]); }
    assert("03d042v0"@ != "03d044v0"@) by { assert("03d042v0"@[5] != "03d044v0"@[5]); }
    assert("03d042v0"@ != "03d045v0"@) by { assert("03d042v0"@[5] != "03d045v0"@[5]); }
    assert("03d042v0"@ != "03d046v0"@) by { assert("03d042v0"@[5] != "03d046v0"@[5]); }
    assert("03d042v0"@ != "05d011v0"@) by { assert("03d042v0"@[1] != "05d011v0"@[1]); }
    assert("03d042v0"@ != "92d002v0"@) by { assert("03d042v0"@[0] != "92d002v0"@[0]); }
    assert("03d042v0"@ != "92d003v0"@) by { assert("03d042v0"@[0] != "92d003v0"@[0]); }
    assert("03d042v0"@ != "92d004v0"@) by { assert("03d042v0"@[0] != "92d004v0"@[0]); }
    assert("03d043v0"@ != "03d044v0"@) by { assert("03d043v0"@[5] != "03d044v0"@[5]); }
    assert("03d043v0"@ != "03d045v0"@) by { assert("03d043v0"@[5] != "03d045v0"@[5]); }
    assert("03d043v0"@ != "03d046v0"@) by { assert("03d043v0"@[5] != "03d046v0"@[5]); }
    assert("03d043v0"@ != "05d011v0"@) by { assert("03d043v0"@[1] != "05d011v0"@[1]); }
    assert("03d043v0"@ != "92d002v0"@) by { assert("03d043v0"@[0] != "92d002v0"@[0]); }
    assert("03d043v0"@ != "92d003v0"@) by { assert("03d043v0"@[0] != "92d003v0"@[0]); }
    assert("03d043v0"@ != "92d004v0"@) by { assert("03d043v0"@[0] != "92d004v0"@[0]); }
    assert("03d044v0"@ != "03d045v0"@) by { assert("03d044v0"@[5] != "03d045v0"@[5]); }
    assert("03d044v0"@ != "03d046v0"@) by { assert("03d044v0"@[5] != "03d046v0"@[5]); }
    assert("03d044v0"@ != "05d011v0"@) by { assert("03d044v0"@[1] != "05d011v0"@[1]); }
    assert("03d044v0"@ != "92d002v0"@) by { assert("03d044v0"@[0] != "92d002v0"@[0]); }
    assert("03d044v0"@ != "92d003v0"@) by { assert("03d044v0"@[0] != "92d003v0"@[0]); }
    assert("03d044v0"@ != "92d004v0"@) by { assert("03d044v0"@[0] != "92d004v0"@[0]); }
    assert("03d045v0"@ != "03d046v0"@) by { assert("03d045v0"@[5] != "03d046v0"@[5]); }
    assert("03d045v0"@ != "05d011v0"@) by { assert("03d045v0"@[1] != "05d011v0"@[1]); }
    assert("03d045v0"@ != "92d002v0"@) by { assert("03d045v0"@[0] != "92d002v0"@[0]); }
    assert("03d045v0"@ != "92d003v0"@) by { assert("03d045v0"@[0] != "92d003v0"@[0]); }
    assert("03d045v0"@ != "92d004v0"@) by { assert("03d045v0"@[0] != "92d004v0"@[0]); }
    assert("03d046v0"@ != "05d011v0"@) by { assert("03d046v0"@[1] != "05d011v0"@[1]); }
    assert("03d046v0"@ != "92d002v0"@) by { assert("03d046v0"@[0] != "92d002v0"@[0]); }
    assert("03d046v0"@ != "92d003v0"@) by { assert("03d046v0"@[0] != "92d003v0"@[0]); }
    assert("03d046v0"@ != "92d004v0"@) by { assert("03d046v0"@[0] != "92d004v0"@[0]); }
    assert("05d011v0"@ != "92d002v0"@) by { assert("05d011v0"@[0] != "92d002v0"@[0]); }
    assert("05d011v0"@ != "92d003v0"@) by { assert("05d011v0"@[0] != "92d003v0"@[0]); }
    assert("05d011v0"@ != "92d004v0"@) by { assert("05d011v0"@[0] != "92d004v0"@[0]); }
    assert("92d002v0"@ != "92d003v0"@) by { assert("92d002v0"@[5] != "92d003v0"@[5]); }
    assert("92d002v0"@ != "92d004v0"@) by { assert("92d002v0"@[5] != "92d004v0"@[5]); }
    assert("92d003v0"@ != "92d004v0"@) by { assert("92d003v0"@[5] != "92d004v0"@[5]); }
}

/// Time on a subtitle line accumulates: advancing a running dialog by `dt`
/// keeps its line, with `dt` more milliseconds on it, while the total stays
/// below the line's duration; once the total reaches the duration the next
/// line starts from zero (or, after the last line, the dialog finishes).
/// Two advances before the line ends are one advance by their sum.
pub proof fn law_subtitle_time_accumulates(d: DialogSequence, dt: u32, dt2: u32)
    requires
        d.running(),
        d.current_line < d.lines@.len(),
        d.elapsed_ms + dt + dt2 <= u32::MAX,
    ensures
        ({
            let dur = d.lines@[d.current_line as int].duration_ms;
            let a = advanced(d, dt);
            &&& d.elapsed_ms + dt < dur ==> {
                &&& a.current_line == d.current_line
                &&& a.elapsed_ms == d.elapsed_ms + dt
                &&& !a.finished
                &&& advanced(a, dt2) == advanced(d, (dt + dt2) as u32)
            }
            &&& d.elapsed_ms + dt >= dur ==> {
                &&& a.current_line == d.current_line + 1
                &&& a.elapsed_ms == 0
                &&& a.finished == (d.current_line + 1 >= d.lines@.len())
            }
            &&& a.lines == d.lines && a.audio_id == d.audio_id
        }),
{
    let dur = d.lines@[d.current_line as int].duration_ms;
    let a = advanced(d, dt);
    assert(d.lines.len() == d.lines@.len());
    if d.elapsed_ms + dt < dur {
        assert(a.running());
        assert(a.lines@[a.current_line as int].duration_ms == dur);
        assert(a.elapsed_ms + dt2 == d.elapsed_ms + ((dt + dt2) as u32));
    }
}

} // verus!
