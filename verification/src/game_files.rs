//! Recognizing the game's files: names of entries on the game disc, which
//! of them are extracted, and which files count as game data.

use vstd::prelude::*;
use crate::text::{push_char, str_eq, to_upper, uppercase};

verus! {

/// The characters before the first ';' (all of them without one)
pub open spec fn before_semicolon(s: Seq<char>) -> Seq<char>
    decreases s.len(),
{
    if s.len() == 0 {
        s
    } else if s[0] == ';' {
        Seq::empty()
    } else {
        seq![s[0]] + before_semicolon(s.drop_first())
    }
}

/// The file name of a disc directory entry: `None` for the entries of the
/// directory itself and its parent ("\0", "\x01") and for an empty name;
/// else the name without its version suffix (from ';' on)
pub open spec fn iso_entry_name_spec(identifier: Seq<char>) -> Option<Seq<char>> {
    if identifier == seq!['\0'] || identifier == seq!['\x01'] || identifier.len() == 0 {
        None
    } else {
        Some(before_semicolon(identifier))
    }
}

proof fn lemma_before_semicolon_prefix(s: Seq<char>, i: int)
    requires
        0 <= i <= s.len(),
        forall|k: int| 0 <= k < i ==> s[k] != ';',
    ensures
        before_semicolon(s) == s.subrange(0, i) + before_semicolon(s.subrange(i, s.len() as int)),
    decreases i,
{
    if i > 0 {
        let t = s.drop_first();
        assert forall|k: int| 0 <= k < i - 1 implies t[k] != ';' by {
            assert(t[k] == s[k + 1]);
        }
        lemma_before_semicolon_prefix(t, i - 1);
        assert(t.subrange(i - 1, t.len() as int) == s.subrange(i, s.len() as int));
        assert(s.subrange(0, i) == seq![s[0]] + t.subrange(0, i - 1));
    } else {
        assert(s.subrange(0, s.len() as int) == s);
    }
}

/// The file name of a disc directory entry
pub fn iso_entry_name(identifier: &str) -> (r: Option<String>)
    ensures
        match iso_entry_name_spec(identifier@) {
            Some(n) => r matches Some(x) && x@ == n,
            None => r is None,
        },
{
    let n = identifier.unicode_len();
    if n == 0 {
        return None;
    }
    if n == 1 {
        let c = identifier.get_char(0);
        if c == '\0' || c == '\x01' {
            assert(identifier@ =~= seq![c]);
            return None;
        }
    }
    let mut name = String::new();
    let mut i: usize = 0;
    while i < n && identifier.get_char(i) != ';'
        invariant
            n == identifier@.len(),
            i <= n,
            name@ == identifier@.subrange(0, i as int),
            forall|k: int| 0 <= k < i ==> identifier@[k] != ';',
        decreases n - i,
    {
        push_char(&mut name, identifier.get_char(i));
        assert(name@ =~= identifier@.subrange(0, i + 1));
        i = i + 1;
    }
    proof {
        lemma_before_semicolon_prefix(identifier@, i as int);
        let rest = identifier@.subrange(i as int, n as int);
        if i < n {
            assert(rest[0] == ';');
        }
        assert(before_semicolon(rest) == Seq::<char>::empty());
        assert(identifier@.subrange(0, i as int) + Seq::<char>::empty() == identifier@.subrange(0, i as int));
    }
    Some(name)
}

/// Path of an entry below the disc root: the name, or prefix "/" name
pub open spec fn entry_path_spec(prefix: Seq<char>, name: Seq<char>) -> Seq<char> {
    if prefix.len() == 0 { name } else { prefix + seq!['/'] + name }
}

/// Path of an entry below the disc root
pub fn entry_path(prefix: &str, name: &str) -> (r: String)
    ensures
        r@ == entry_path_spec(prefix@, name@),
{
    let mut s = String::new();
    if prefix.unicode_len() > 0 {
        push_str_all(&mut s, prefix);
        push_char(&mut s, '/');
    }
    push_str_all(&mut s, name);
    assert(s@ =~= entry_path_spec(prefix@, name@));
    s
}

/// Append all characters of `t`
fn push_str_all(s: &mut String, t: &str)
    ensures
        final(s)@ == old(s)@ + t@,
{
    let n = t.unicode_len();
    let ghost start = s@;
    let mut i: usize = 0;
    while i < n
        invariant
            n == t@.len(),
            i <= n,
            s@ == start + t@.subrange(0, i as int),
        decreases n - i,
    {
        push_char(s, t.get_char(i));
        assert(s@ =~= start + t@.subrange(0, i + 1));
        i = i + 1;
    }
    assert(t@.subrange(0, n as int) =~= t@);
}

/// Does `s` end with `e`?
pub open spec fn ends_with(s: Seq<char>, e: Seq<char>) -> bool {
    s.len() >= e.len() && s.subrange(s.len() - e.len(), s.len() as int) == e
}

/// Does `s` hold `n` as a contiguous part?
pub open spec fn contains_part(s: Seq<char>, n: Seq<char>) -> bool {
    exists|i: int| 0 <= i <= s.len() - n.len() && #[trigger] s.subrange(i, i + n.len()) == n
}

fn str_ends_with(s: &str, e: &str) -> (r: bool)
    ensures
        r == ends_with(s@, e@),
{
    let sl = s.unicode_len();
    let el = e.unicode_len();
    if el > sl {
        return false;
    }
    let mut i: usize = 0;
    while i < el
        invariant
            sl == s@.len(), el == e@.len(), el <= sl, i <= el,
            forall|k: int| 0 <= k < i ==> s@[sl - el + k] == e@[k],
        decreases el - i,
    {
        if s.get_char(sl - el + i) != e.get_char(i) {
            assert(s@.subrange(sl - el, sl as int)[i as int] != e@[i as int]);
            return false;
        }
        i = i + 1;
    }
    assert(s@.subrange(sl - el, sl as int) =~= e@);
    true
}

fn str_contains_part(s: &str, n: &str) -> (r: bool)
    ensures
        r == contains_part(s@, n@),
{
    let sl = s.unicode_len();
    let nl = n.unicode_len();
    if nl > sl {
        return false;
    }
    let mut i: usize = 0;
    while i <= sl - nl
        invariant
            sl == s@.len(), nl == n@.len(), nl <= sl,
            i <= sl - nl + 1,
            forall|k: int| 0 <= k < i ==> #[trigger] s@.subrange(k, k + nl) != n@,
        decreases sl - nl + 1 - i,
    {
        let mut j: usize = 0;
        let mut same = true;
        while j < nl
            invariant
                sl == s@.len(), nl == n@.len(), i + nl <= sl,
                j <= nl,
                same == (forall|m: int| 0 <= m < j ==> s@[i + m] == n@[m]),
            decreases nl - j,
        {
            if s.get_char(i + j) != n.get_char(j) {
                same = false;
            }
            j = j + 1;
        }
        if same {
            assert(s@.subrange(i as int, i + nl) =~= n@);
            return true;
        }
        assert(s@.subrange(i as int, i + nl) != n@) by {
            let m = choose|m: int| 0 <= m < nl && s@[i + m] != n@[m];
            assert(s@.subrange(i as int, i + nl)[m] == s@[i + m]);
        }
        i = i + 1;
    }
    false
}

/// Installer and autorun files on the disc, by uppercased name: they are
/// not extracted
pub open spec fn installer_name(upper: Seq<char>) -> bool {
    upper == "AUTORUN.INF"@ || upper == "SETUP.EXE"@ || upper == "INSTALL.EXE"@
        || (ends_with(upper, ".INI"@) && (contains_part(upper, "SETUP"@) || contains_part(upper, "INSTALL"@)))
}

/// Is the uppercased name one of the installer files?
pub fn is_installer_name(upper: &str) -> (r: bool)
    ensures
        r == installer_name(upper@),
{
    str_eq(upper, "AUTORUN.INF") || str_eq(upper, "SETUP.EXE") || str_eq(upper, "INSTALL.EXE")
        || (str_ends_with(upper, ".INI") && (str_contains_part(upper, "SETUP") || str_contains_part(upper, "INSTALL")))
}

/// Is a disc file left out of the extraction? (installer files, compared
/// in uppercase)
pub fn skip_on_extract(name: &str) -> (r: bool)
    ensures
        r == installer_name(uppercase(name@)),
{
    let upper = to_upper(name);
    is_installer_name(upper.as_str())
}

/// Extensions (uppercased) of Director files and game executables
pub open spec fn game_extension(upper: Seq<char>) -> bool {
    upper == "DXR"@ || upper == "CXT"@ || upper == "CST"@ || upper == "DIR"@
        || upper == "HLP"@ || upper == "EXE"@ || upper == "X32"@
}

/// Is the uppercased extension one of a game file?
pub fn is_game_extension(upper: &str) -> (r: bool)
    ensures
        r == game_extension(upper@),
{
    str_eq(upper, "DXR") || str_eq(upper, "CXT") || str_eq(upper, "CST") || str_eq(upper, "DIR")
        || str_eq(upper, "HLP") || str_eq(upper, "EXE") || str_eq(upper, "X32")
}

/// Does a file with this extension count as a game file? (compared in
/// uppercase)
pub fn counts_as_game_file(ext: &str) -> (r: bool)
    ensures
        r == game_extension(uppercase(ext@)),
{
    let upper = to_upper(ext);
    is_game_extension(upper.as_str())
}

/// A Director movie or cast, by uppercased file name
pub open spec fn movie_name(upper: Seq<char>) -> bool {
    ends_with(upper, ".DXR"@) || ends_with(upper, ".CXT"@)
}

/// Is the uppercased file name a Director movie or cast?
pub fn is_movie_name(upper: &str) -> (r: bool)
    ensures
        r == movie_name(upper@),
{
    str_ends_with(upper, ".DXR") || str_ends_with(upper, ".CXT")
}

/// Is the file a Director movie or cast? (compared in uppercase)
pub fn is_movie_file(name: &str) -> (r: bool)
    ensures
        r == movie_name(uppercase(name@)),
{
    let upper = to_upper(name);
    is_movie_name(upper.as_str())
}

/// ASCII case-insensitive equality
pub open spec fn ascii_lower(c: char) -> char {
    if 'A' <= c && c <= 'Z' { ((c as u32) + 32) as char } else { c }
}

/// Is the extension "iso", in any ASCII case?
pub open spec fn iso_extension(ext: Seq<char>) -> bool {
    ext.len() == 3 && ascii_lower(ext[0]) == 'i' && ascii_lower(ext[1]) == 's' && ascii_lower(ext[2]) == 'o'
}

/// Is the extension "iso", in any ASCII case?
pub fn is_iso_extension(ext: &str) -> (r: bool)
    ensures
        r == iso_extension(ext@),
{
    if ext.unicode_len() != 3 {
        return false;
    }
    let a = ext.get_char(0);
    let b = ext.get_char(1);
    let c = ext.get_char(2);
    (a == 'i' || a == 'I') && (b == 's' || b == 'S') && (c == 'o' || c == 'O')
}

/// Files whose presence marks a folder as holding the game
pub fn game_signatures() -> (r: &'static [&'static str])
    ensures
        r@.len() == 5,
        r@[0]@ == "DATA.CST"@,
        r@[1]@ == "Startcd.dir"@,
        r@[2]@ == "AUTOBAU.HLP"@,
        r@[3]@ == "WILLY32.EXE"@,
        r@[4]@ == "Data/DATA.CST"@,
{
    let r: &'static [&'static str] = &["DATA.CST", "Startcd.dir", "AUTOBAU.HLP", "WILLY32.EXE", "Data/DATA.CST"];
    r
}

/// An extracted folder is reused when it looks like the game and holds at
/// least 10 game files
pub fn reuse_extraction(is_game_dir: bool, game_files: usize) -> (r: bool)
    ensures
        r == (is_game_dir && game_files >= 10),
{
    is_game_dir && game_files >= 10
}

} // verus!
