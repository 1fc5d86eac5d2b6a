//! The decoded cast members of the game's Director files, as scenes read
//! them: a file by name, a member by number, each bitmap member with its
//! size and registration point and its decoded images.

use vstd::prelude::*;
use vstd::string::StringExecFns;
use crate::text::str_eq;

verus! {

/// Size and registration point of a bitmap member, as the file stores them
#[derive(Clone, Copy)]
pub struct BitmapInfo {
    pub width: u16,
    pub height: u16,
    pub reg_x: i16,
    pub reg_y: i16,
}

/// A decoded image: RGBA bytes, row by row
pub struct DecodedImage {
    pub width: u32,
    pub height: u32,
    pub pixels: Vec<u8>,
}

/// A cast member
pub struct CastMember {
    pub num: u32,
    pub name: String,
    /// Whether the member is a bitmap
    pub is_bitmap: bool,
    /// Bitmap header (bitmaps only)
    pub info: Option<BitmapInfo>,
    /// The image as stored (for backgrounds)
    pub image: Option<DecodedImage>,
    /// The image with its background color made transparent (for overlays,
    /// buttons and animation frames)
    pub transparent: Option<DecodedImage>,
}

/// A Director file's members, in the order the file lists them
pub struct CastFile {
    pub name: String,
    pub members: Vec<CastMember>,
}

/// All decoded cast files
pub struct CastStore {
    pub files: Vec<CastFile>,
}

/// Position of the first file with the given name
pub open spec fn file_index(fs: Seq<CastFile>, name: Seq<char>) -> Option<int>
    decreases fs.len(),
{
    if fs.len() == 0 {
        None
    } else {
        match file_index(fs.drop_last(), name) {
            Some(i) => Some(i),
            None => if fs.last().name@ == name { Some(fs.len() - 1) } else { None },
        }
    }
}

/// Position of the first member with the given number
pub open spec fn member_index(ms: Seq<CastMember>, num: u32) -> Option<int>
    decreases ms.len(),
{
    if ms.len() == 0 {
        None
    } else {
        match member_index(ms.drop_last(), num) {
            Some(i) => Some(i),
            None => if ms.last().num == num { Some(ms.len() - 1) } else { None },
        }
    }
}

/// Position of the first member with the given name
pub open spec fn named_index(ms: Seq<CastMember>, name: Seq<char>) -> Option<int>
    decreases ms.len(),
{
    if ms.len() == 0 {
        None
    } else {
        match named_index(ms.drop_last(), name) {
            Some(i) => Some(i),
            None => if ms.last().name@ == name { Some(ms.len() - 1) } else { None },
        }
    }
}

/// Pixel count of a bitmap member (0 for others)
pub open spec fn bitmap_area(m: CastMember) -> u32 {
    if m.is_bitmap && m.info is Some {
        (m.info.unwrap().width as u32 * m.info.unwrap().height as u32) as u32
    } else {
        0
    }
}

/// The bitmap member with the most pixels among the first `n` (the first
/// of equals; none when all are empty)
pub open spec fn largest_index(ms: Seq<CastMember>, n: int) -> Option<int>
    decreases n,
{
    if n <= 0 {
        None
    } else {
        let prev = largest_index(ms, n - 1);
        let best = match prev {
            Some(p) => bitmap_area(ms[p]),
            None => 0,
        };
        if bitmap_area(ms[n - 1]) > best { Some(n - 1) } else { prev }
    }
}

impl CastStore {
    /// Is there a file of that name?
    pub open spec fn has_file(self, name: Seq<char>) -> bool {
        file_index(self.files@, name) is Some
    }

    /// The member of the given number in the named file
    pub open spec fn member(self, file: Seq<char>, num: u32) -> Option<CastMember> {
        match file_index(self.files@, file) {
            Some(f) => match member_index(self.files@[f].members@, num) {
                Some(i) => Some(self.files@[f].members@[i]),
                None => None,
            },
            None => None,
        }
    }

    /// A member's registration point; (0, 0) without a bitmap header
    pub open spec fn reg_point(self, file: Seq<char>, num: u32) -> (i32, i32) {
        match self.member(file, num) {
            Some(m) => match m.info {
                Some(i) => (i.reg_x as i32, i.reg_y as i32),
                None => (0, 0),
            },
            None => (0, 0),
        }
    }

    /// The number of the first member with the given name in the file
    pub open spec fn member_named(self, file: Seq<char>, name: Seq<char>) -> Option<u32> {
        match file_index(self.files@, file) {
            Some(f) => match named_index(self.files@[f].members@, name) {
                Some(i) => Some(self.files@[f].members@[i].num),
                None => None,
            },
            None => None,
        }
    }

    /// The number of the largest bitmap member in the file
    pub open spec fn largest_bitmap(self, file: Seq<char>) -> Option<u32> {
        match file_index(self.files@, file) {
            Some(f) => match largest_index(self.files@[f].members@, self.files@[f].members@.len() as int) {
                Some(i) => Some(self.files@[f].members@[i].num),
                None => None,
            },
            None => None,
        }
    }

    /// The file a stem names: "<stem>.DXR" if present, else "<stem>.CXT" if
    /// present, else "<stem>.DXR"
    pub open spec fn resolved(self, stem: Seq<char>) -> Seq<char> {
        if self.has_file(stem + ".DXR"@) {
            stem + ".DXR"@
        } else if self.has_file(stem + ".CXT"@) {
            stem + ".CXT"@
        } else {
            stem + ".DXR"@
        }
    }
}

proof fn lemma_file_index(fs: Seq<CastFile>, name: Seq<char>, i: int)
    requires
        0 <= i < fs.len(),
        fs[i].name@ == name,
        file_index(fs.take(i), name) is None,
    ensures
        file_index(fs, name) == Some(i),
    decreases fs.len(),
{
    if i == fs.len() - 1 {
        assert(fs.drop_last() =~= fs.take(i));
    } else {
        assert(fs.drop_last().take(i) =~= fs.take(i));
        lemma_file_index(fs.drop_last(), name, i);
    }
}

proof fn lemma_member_index(ms: Seq<CastMember>, num: u32, i: int)
    requires
        0 <= i < ms.len(),
        ms[i].num == num,
        member_index(ms.take(i), num) is None,
    ensures
        member_index(ms, num) == Some(i),
    decreases ms.len(),
{
    if i == ms.len() - 1 {
        assert(ms.drop_last() =~= ms.take(i));
    } else {
        assert(ms.drop_last().take(i) =~= ms.take(i));
        lemma_member_index(ms.drop_last(), num, i);
    }
}

proof fn lemma_named_index(ms: Seq<CastMember>, name: Seq<char>, i: int)
    requires
        0 <= i < ms.len(),
        ms[i].name@ == name,
        named_index(ms.take(i), name) is None,
    ensures
        named_index(ms, name) == Some(i),
    decreases ms.len(),
{
    if i == ms.len() - 1 {
        assert(ms.drop_last() =~= ms.take(i));
    } else {
        assert(ms.drop_last().take(i) =~= ms.take(i));
        lemma_named_index(ms.drop_last(), name, i);
    }
}

impl CastStore {
    /// Position of the file of that name
    fn find_file(&self, name: &str) -> (r: Option<usize>)
        ensures
            match file_index(self.files@, name@) {
                Some(i) => r == Some(i as usize),
                None => r is None,
            },
            r matches Some(k) ==> k < self.files@.len() && file_index(self.files@, name@) == Some(k as int),
    {
        let mut i: usize = 0;
        while i < self.files.len()
            invariant
                i <= self.files@.len(),
                file_index(self.files@.take(i as int), name@) is None,
            decreases self.files@.len() - i,
        {
            assert(self.files@.take(i + 1).drop_last() =~= self.files@.take(i as int));
            if str_eq(self.files[i].name.as_str(), name) {
                proof {
                    lemma_file_index(self.files@, name@, i as int);
                }
                return Some(i);
            }
            i = i + 1;
        }
        assert(self.files@.take(self.files@.len() as int) =~= self.files@);
        None
    }

    /// Is there a file of that name?
    pub fn contains_file(&self, name: &str) -> (r: bool)
        ensures
            r == self.has_file(name@),
    {
        self.find_file(name).is_some()
    }

    /// The member of the given number in the named file
    pub fn get_member(&self, file: &str, num: u32) -> (r: Option<&CastMember>)
        ensures
            match self.member(file@, num) {
                Some(m) => r == Some(&m),
                None => r is None,
            },
    {
        let f = match self.find_file(file) {
            Some(f) => f,
            None => return None,
        };
        let ms = &self.files[f].members;
        let mut i: usize = 0;
        while i < ms.len()
            invariant
                i <= ms@.len(),
                f < self.files@.len(),
                ms@ == self.files@[f as int].members@,
                file_index(self.files@, file@) == Some(f as int),
                member_index(ms@.take(i as int), num) is None,
            decreases ms@.len() - i,
        {
            assert(ms@.take(i + 1).drop_last() =~= ms@.take(i as int));
            if ms[i].num == num {
                proof {
                    lemma_member_index(ms@, num, i as int);
                }
                return Some(&ms[i]);
            }
            i = i + 1;
        }
        assert(ms@.take(ms@.len() as int) =~= ms@);
        None
    }

    /// A member's registration point; (0, 0) without a bitmap header
    pub fn reg_point_of(&self, file: &str, num: u32) -> (r: (i32, i32))
        ensures
            r == self.reg_point(file@, num),
    {
        match self.get_member(file, num) {
            Some(m) => match m.info {
                Some(i) => (i.reg_x as i32, i.reg_y as i32),
                None => (0, 0),
            },
            None => (0, 0),
        }
    }

    /// The number of the first member with the given name in the file
    pub fn find_member_by_name(&self, file: &str, name: &str) -> (r: Option<u32>)
        ensures
            r == self.member_named(file@, name@),
    {
        let f = match self.find_file(file) {
            Some(f) => f,
            None => return None,
        };
        let ms = &self.files[f].members;
        let mut i: usize = 0;
        while i < ms.len()
            invariant
                i <= ms@.len(),
                f < self.files@.len(),
                ms@ == self.files@[f as int].members@,
                file_index(self.files@, file@) == Some(f as int),
                named_index(ms@.take(i as int), name@) is None,
            decreases ms@.len() - i,
        {
            assert(ms@.take(i + 1).drop_last() =~= ms@.take(i as int));
            if str_eq(ms[i].name.as_str(), name) {
                proof {
                    lemma_named_index(ms@, name@, i as int);
                }
                return Some(ms[i].num);
            }
            i = i + 1;
        }
        assert(ms@.take(ms@.len() as int) =~= ms@);
        None
    }

    /// The number of the largest bitmap member in the file
    pub fn largest_bitmap_of(&self, file: &str) -> (r: Option<u32>)
        ensures
            r == self.largest_bitmap(file@),
    {
        let f = match self.find_file(file) {
            Some(f) => f,
            None => return None,
        };
        let ms = &self.files[f].members;
        let mut best: Option<usize> = None;
        let mut best_px: u32 = 0;
        let mut i: usize = 0;
        while i < ms.len()
            invariant
                i <= ms@.len(),
                f < self.files@.len(),
                ms@ == self.files@[f as int].members@,
                file_index(self.files@, file@) == Some(f as int),
                match best {
                    Some(b) => largest_index(ms@, i as int) == Some(b as int) && b < i && best_px == bitmap_area(ms@[b as int]),
                    None => largest_index(ms@, i as int) is None && best_px == 0,
                },
            decreases ms@.len() - i,
        {
            let m = &ms[i];
            if m.is_bitmap {
                if let Some(bi) = m.info {
                    assert(bi.width as u32 * bi.height as u32 <= 0xffff * 0xffff) by (nonlinear_arith)
                        requires
                            bi.width <= 0xffff,
                            bi.height <= 0xffff,
                    ;
                    let px: u32 = bi.width as u32 * bi.height as u32;
                    if px > best_px {
                        best_px = px;
                        best = Some(i);
                    }
                }
            }
            i = i + 1;
        }
        match best {
            Some(b) => Some(ms[b].num),
            None => None,
        }
    }

    /// The file a stem names: "<stem>.DXR" if present, else "<stem>.CXT" if
    /// present, else "<stem>.DXR"
    pub fn resolve_file(&self, stem: &str) -> (r: String)
        ensures
            r@ == self.resolved(stem@),
    {
        let mut dxr = String::new();
        dxr.append(stem);
        dxr.append(".DXR");
        if self.contains_file(dxr.as_str()) {
            return dxr;
        }
        let mut cxt = String::new();
        cxt.append(stem);
        cxt.append(".CXT");
        if self.contains_file(cxt.as_str()) {
            return cxt;
        }
        dxr
    }
}

} // verus!
