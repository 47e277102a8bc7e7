//! The inode address space: every file of the tree is a `File`, and every
//! `File` is one 64-bit inode split into a comic-number half and a kind half.

use vstd::prelude::*;

use crate::decimal::{lemma_padded4, padded4, parse_number, push_padded4};
use vstd::arithmetic::div_mod::{lemma_fundamental_div_mod, lemma_fundamental_div_mod_converse};

verus! {

/// Two to the 32nd: the weight of the upper (comic number) half of an inode.
pub const HALF: u64 = 0x1_0000_0000;

/// What a directory entry is.
#[derive(Clone, Copy, Debug, PartialEq, Eq, Structural)]
pub enum FileType {
    Directory,
    RegularFile,
}

/// Like an inode, but fancier.
///
/// A comic number `n` is non-zero; `Root`, `Refresh` and `Credits` stand at
/// the top of the tree.
#[derive(Clone, Copy, Debug, PartialEq, Eq, Structural)]
pub enum File {
    Root,
    Refresh,
    Credits,
    Image(u32),
    MetaFolder(u32),
    AltText(u32),
    Title(u32),
    Transcript(u32),
    Date(u32),
    RawImage(u32),
}

/// The inode with the given upper and lower halves.
pub open spec fn from_halves(high: int, low: int) -> int {
    high * HALF + low
}

impl File {
    /// Whether this file exists in the address space: a comic number is never 0.
    pub open spec fn is_defined(self) -> bool {
        match self {
            File::Root | File::Refresh | File::Credits => true,
            File::Image(n) | File::MetaFolder(n) | File::AltText(n) | File::Title(n)
            | File::Transcript(n) | File::Date(n) | File::RawImage(n) => n != 0,
        }
    }

    /// The inode of a file.
    pub open spec fn inode_of(self) -> int {
        match self {
            File::Root => 1,
            File::Refresh => 2,
            File::Credits => 3,
            File::Image(n) => from_halves(n as int, 0),
            File::MetaFolder(n) => from_halves(n as int, 1),
            File::AltText(n) => from_halves(n as int, 2),
            File::Title(n) => from_halves(n as int, 3),
            File::Transcript(n) => from_halves(n as int, 4),
            File::Date(n) => from_halves(n as int, 5),
            File::RawImage(n) => from_halves(n as int, 6),
        }
    }

    /// The file of an inode, if the inode names one.
    pub open spec fn decode(ino: u64) -> Option<File> {
        let high = ino / HALF;
        let low = ino % HALF;
        if high == 0 {
            if low == 1 {
                Some(File::Root)
            } else if low == 2 {
                Some(File::Refresh)
            } else if low == 3 {
                Some(File::Credits)
            } else {
                None
            }
        } else {
            let n = high as u32;
            if low == 0 {
                Some(File::Image(n))
            } else if low == 1 {
                Some(File::MetaFolder(n))
            } else if low == 2 {
                Some(File::AltText(n))
            } else if low == 3 {
                Some(File::Title(n))
            } else if low == 4 {
                Some(File::Transcript(n))
            } else if low == 5 {
                Some(File::Date(n))
            } else if low == 6 {
                Some(File::RawImage(n))
            } else {
                None
            }
        }
    }

    /// The directory that holds a file; the root has none.
    pub open spec fn parent_of(self) -> Option<File> {
        match self {
            File::Root => None,
            File::Refresh | File::Credits | File::Image(_) | File::MetaFolder(_) => Some(
                File::Root,
            ),
            File::AltText(n) | File::Title(n) | File::Transcript(n) | File::Date(n)
            | File::RawImage(n) => Some(File::MetaFolder(n)),
        }
    }

    /// Whether a file is a directory.
    pub open spec fn kind_of(self) -> FileType {
        match self {
            File::Root | File::MetaFolder(_) => FileType::Directory,
            _ => FileType::RegularFile,
        }
    }

    /// The name of a file within its directory.
    pub open spec fn name_of(self) -> Seq<char> {
        match self {
            File::Root => Seq::empty(),
            File::Refresh => "refresh"@,
            File::Credits => "credits"@,
            File::Image(n) => "comic_"@ + padded4(n as nat) + ".png"@,
            File::MetaFolder(n) => "info_"@ + padded4(n as nat),
            File::AltText(_) => "alt"@,
            File::Title(_) => "title"@,
            File::Transcript(_) => "transcript"@,
            File::Date(_) => "date"@,
            File::RawImage(_) => "raw_image"@,
        }
    }
}

/// Whether `s` starts with `p`.
pub open spec fn starts_with(s: Seq<char>, p: Seq<char>) -> bool {
    p.len() <= s.len() && s.subrange(0, p.len() as int) == p
}

/// Whether `s` ends with `p`.
pub open spec fn ends_with(s: Seq<char>, p: Seq<char>) -> bool {
    p.len() <= s.len() && s.subrange(s.len() - p.len(), s.len() as int) == p
}

/// The child called `name` of the directory `parent`, if there is one.
pub open spec fn child_named(parent: File, name: Seq<char>) -> Option<File> {
    match parent {
        File::Root => {
            if starts_with(name, "comic_"@) && ends_with(name, ".png"@) && name.len() >= 10 {
                match crate::decimal::number_in(name.subrange(6, name.len() - 4)) {
                    Some(n) => Some(File::Image(n)),
                    None => None,
                }
            } else if starts_with(name, "info_"@) {
                match crate::decimal::number_in(name.subrange(5, name.len() as int)) {
                    Some(n) => Some(File::MetaFolder(n)),
                    None => None,
                }
            } else if name == "refresh"@ {
                Some(File::Refresh)
            } else if name == "credits"@ {
                Some(File::Credits)
            } else {
                None
            }
        },
        File::MetaFolder(n) => {
            if name == "alt"@ {
                Some(File::AltText(n))
            } else if name == "title"@ {
                Some(File::Title(n))
            } else if name == "transcript"@ {
                Some(File::Transcript(n))
            } else if name == "date"@ {
                Some(File::Date(n))
            } else if name == "raw_image"@ {
                Some(File::RawImage(n))
            } else {
                None
            }
        },
        _ => None,
    }
}

/// An entry of a listing: inode, kind and name.
pub open spec fn entry_of(f: File) -> (int, FileType, Seq<char>) {
    (f.inode_of(), f.kind_of(), f.name_of())
}

/// The entry at position `index` of the listing of `dir`, when the archive
/// holds comics `1..=count`.
pub open spec fn listing_entry(dir: File, index: int, count: int) -> Option<
    (int, FileType, Seq<char>),
> {
    match dir {
        File::Root => {
            if index == 0 {
                Some((1, FileType::Directory, "."@))
            } else if index == 1 {
                Some((1, FileType::Directory, ".."@))
            } else if index == 2 {
                Some(entry_of(File::Refresh))
            } else if index == 3 {
                Some(entry_of(File::Credits))
            } else if index <= count + 3 {
                Some(entry_of(File::Image((index - 3) as u32)))
            } else if index <= 2 * count + 3 {
                Some(entry_of(File::MetaFolder((index - 3 - count) as u32)))
            } else {
                None
            }
        },
        File::MetaFolder(n) => {
            if n == 0 || n > count {
                None
            } else if index == 0 {
                Some((File::MetaFolder(n).inode_of(), FileType::Directory, "."@))
            } else if index == 1 {
                Some((1, FileType::Directory, ".."@))
            } else if index == 2 {
                Some(entry_of(File::AltText(n)))
            } else if index == 3 {
                Some(entry_of(File::Title(n)))
            } else if index == 4 {
                Some(entry_of(File::Transcript(n)))
            } else if index == 5 {
                Some(entry_of(File::Date(n)))
            } else if index == 6 {
                Some(entry_of(File::RawImage(n)))
            } else {
                None
            }
        },
        _ => None,
    }
}

/// Whether an executable entry stands for the spec entry `e`.
pub open spec fn entry_matches(t: (u64, FileType, String), e: (int, FileType, Seq<char>)) -> bool {
    t.0 == e.0 && t.1 == e.1 && t.2@ == e.2
}

/// Whether an executable listing result stands for the spec one.
pub open spec fn listing_matches(
    r: Option<(u64, FileType, String)>,
    e: Option<(int, FileType, Seq<char>)>,
) -> bool {
    match (r, e) {
        (None, None) => true,
        (Some(t), Some(x)) => entry_matches(t, x),
        _ => false,
    }
}

fn from_halves_exec(high: u32, low: u64) -> (r: u64)
    requires
        low < HALF,
    ensures
        r == from_halves(high as int, low as int),
{
    (high as u64) * HALF + low
}

/// The characters of `s`.
pub fn chars_of(s: &str) -> (r: Vec<char>)
    ensures
        r@ == s@,
{
    let n = s.unicode_len();
    let mut v: Vec<char> = Vec::new();
    let mut i: usize = 0;
    while i < n
        invariant
            n == s@.len(),
            i <= n,
            v@ == s@.subrange(0, i as int),
        decreases n - i,
    {
        let c = s.get_char(i);
        v.push(c);
        i = i + 1;
        assert(v@ =~= s@.subrange(0, i as int));
    }
    assert(v@ =~= s@);
    v
}

/// Whether `v[start..]` begins with the characters of `lit`.
fn has_at(v: &Vec<char>, start: usize, lit: &str) -> (r: bool)
    requires
        start <= v@.len(),
    ensures
        r == (lit@.len() <= v@.len() - start && v@.subrange(
            start as int,
            start + lit@.len(),
        ) == lit@),
{
    let n = lit.unicode_len();
    let vlen = v.len();
    if n > vlen - start {
        return false;
    }
    let mut i: usize = 0;
    while i < n
        invariant
            n == lit@.len(),
            vlen == v@.len(),
            start <= v@.len(),
            n <= v@.len() - start,
            i <= n,
            v@.subrange(start as int, start + i) == lit@.subrange(0, i as int),
        decreases n - i,
    {
        assert(start + i < v@.len());
        if v[start + i] != lit.get_char(i) {
            assert(v@.subrange(start as int, start + n)[i as int] == v@[start + i]);
            return false;
        }
        i = i + 1;
        assert(v@.subrange(start as int, start + i) =~= lit@.subrange(0, i as int));
    }
    assert(lit@.subrange(0, n as int) =~= lit@);
    true
}

/// Whether `v` is exactly the characters of `lit`.
fn is_lit(v: &Vec<char>, lit: &str) -> (r: bool)
    ensures
        r == (v@ == lit@),
{
    let r = v.len() == lit.unicode_len() && has_at(v, 0, lit);
    proof {
        if v@.len() == lit@.len() {
            assert(v@.subrange(0, lit@.len() as int) =~= v@);
        }
    }
    r
}

impl File {
    /// Get a file from a raw inode.
    ///
    /// Every file corresponds to exactly one inode, but not every inode is a
    /// valid file.
    pub fn from_inode(ino: u64) -> (r: Option<File>)
        ensures
            r == File::decode(ino),
    {
        let upper: u64 = ino / HALF;
        let lower: u64 = ino % HALF;
        if upper == 0 {
            if lower == 1 {
                Some(File::Root)
            } else if lower == 2 {
                Some(File::Refresh)
            } else if lower == 3 {
                Some(File::Credits)
            } else {
                None
            }
        } else {
            let num = upper as u32;
            if lower == 0 {
                Some(File::Image(num))
            } else if lower == 1 {
                Some(File::MetaFolder(num))
            } else if lower == 2 {
                Some(File::AltText(num))
            } else if lower == 3 {
                Some(File::Title(num))
            } else if lower == 4 {
                Some(File::Transcript(num))
            } else if lower == 5 {
                Some(File::Date(num))
            } else if lower == 6 {
                Some(File::RawImage(num))
            } else {
                None
            }
        }
    }

    /// Get the inode of a file: the comic number in the upper half, the kind
    /// in the lower half (0 image, 1 metadata folder, 2 alt text, 3 title,
    /// 4 transcript, 5 date, 6 raw image), and 1, 2, 3 for the root, the
    /// refresh file and the credits file.
    pub fn inode(&self) -> (r: u64)
        ensures
            r == self.inode_of(),
    {
        match self {
            File::Root => 1,
            File::Refresh => 2,
            File::Credits => 3,
            File::Image(n) => from_halves_exec(*n, 0),
            File::MetaFolder(n) => from_halves_exec(*n, 1),
            File::AltText(n) => from_halves_exec(*n, 2),
            File::Title(n) => from_halves_exec(*n, 3),
            File::Transcript(n) => from_halves_exec(*n, 4),
            File::Date(n) => from_halves_exec(*n, 5),
            File::RawImage(n) => from_halves_exec(*n, 6),
        }
    }
}

impl File {
    /// The child of `parent` called `filename`, if `parent` is a directory
    /// that names its children that way.
    pub fn from_filename(parent: &File, filename: &str) -> (r: Option<File>)
        ensures
            r == child_named(*parent, filename@),
    {
        match parent {
            File::Root => {
                let v = chars_of(filename);
                let len = v.len();
                proof {
                    reveal_strlit("comic_");
                    reveal_strlit(".png");
                    reveal_strlit("info_");
                }
                if len >= 10 && has_at(&v, 0, "comic_") && has_at(&v, len - 4, ".png") {
                    assert(starts_with(v@, "comic_"@));
                    match parse_number(&v, 6, len - 4) {
                        Some(n) => Some(File::Image(n)),
                        None => None,
                    }
                } else if len >= 5 && has_at(&v, 0, "info_") {
                    match parse_number(&v, 5, len) {
                        Some(n) => Some(File::MetaFolder(n)),
                        None => None,
                    }
                } else if is_lit(&v, "refresh") {
                    Some(File::Refresh)
                } else if is_lit(&v, "credits") {
                    Some(File::Credits)
                } else {
                    proof {
                        if starts_with(v@, "comic_"@) && ends_with(v@, ".png"@) && len < 10 {
                            let k = len - 4;
                            assert(v@.subrange(len - 4, len as int)[0] == v@[k]);
                            assert(v@.subrange(0, 6)[k] == v@[k]);
                            assert(false);
                        }
                    }
                    None
                }
            },
            File::MetaFolder(n) => {
                let v = chars_of(filename);
                if is_lit(&v, "alt") {
                    Some(File::AltText(*n))
                } else if is_lit(&v, "title") {
                    Some(File::Title(*n))
                } else if is_lit(&v, "transcript") {
                    Some(File::Transcript(*n))
                } else if is_lit(&v, "date") {
                    Some(File::Date(*n))
                } else if is_lit(&v, "raw_image") {
                    Some(File::RawImage(*n))
                } else {
                    None
                }
            },
            _ => None,
        }
    }

    /// The name of this file within its directory; the root has an empty name.
    pub fn filename(&self) -> (r: String)
        ensures
            r@ == self.name_of(),
    {
        match self {
            File::Root => String::new(),
            File::Refresh => String::from_str("refresh"),
            File::Credits => String::from_str("credits"),
            File::Image(n) => {
                let mut s = String::from_str("comic_");
                push_padded4(&mut s, *n);
                s.append(".png");
                s
            },
            File::MetaFolder(n) => {
                let mut s = String::from_str("info_");
                push_padded4(&mut s, *n);
                s
            },
            File::AltText(_) => String::from_str("alt"),
            File::Title(_) => String::from_str("title"),
            File::Transcript(_) => String::from_str("transcript"),
            File::Date(_) => String::from_str("date"),
            File::RawImage(_) => String::from_str("raw_image"),
        }
    }

    /// Whether this file is a directory or a regular file.
    pub fn filetype(&self) -> (r: FileType)
        ensures
            r == self.kind_of(),
    {
        match self {
            File::Root | File::MetaFolder(_) => FileType::Directory,
            _ => FileType::RegularFile,
        }
    }

    /// This file's listing entry.
    fn triple(&self) -> (r: Option<(u64, FileType, String)>)
        ensures
            r matches Some(t) && entry_matches(t, entry_of(*self)),
    {
        Some((self.inode(), self.filetype(), self.filename()))
    }

    /// The entry at position `index` of this directory's listing, when the
    /// archive holds comics `1..=num_comics`.
    ///
    /// The root lists `.`, `..`, the refresh and credits files, then every
    /// comic image, then every metadata folder, in ascending comic order. A
    /// metadata folder lists `.`, `..`, then alt text, title, transcript,
    /// date and raw image; one beyond the known comics, or of no comic (0),
    /// lists nothing.
    pub fn child_by_index(&self, index: u64, num_comics: u64) -> (r: Option<
        (u64, FileType, String),
    >)
        requires
            num_comics <= u32::MAX,
        ensures
            listing_matches(r, listing_entry(*self, index as int, num_comics as int)),
    {
        proof {
            reveal_strlit(".");
            reveal_strlit("..");
        }
        match self {
            File::Root => {
                if index == 0 {
                    Some((File::Root.inode(), File::Root.filetype(), String::from_str(".")))
                } else if index == 1 {
                    Some((File::Root.inode(), File::Root.filetype(), String::from_str("..")))
                } else if index == 2 {
                    File::Refresh.triple()
                } else if index == 3 {
                    File::Credits.triple()
                } else if index <= num_comics + 3 {
                    File::Image((index - 3) as u32).triple()
                } else if index <= 2 * num_comics + 3 {
                    File::MetaFolder((index - 3 - num_comics) as u32).triple()
                } else {
                    None
                }
            },
            File::MetaFolder(num) => {
                if *num == 0 || *num as u64 > num_comics {
                    return None;
                }
                if index == 0 {
                    Some(
                        (
                            File::MetaFolder(*num).inode(),
                            File::MetaFolder(*num).filetype(),
                            String::from_str("."),
                        ),
                    )
                } else if index == 1 {
                    Some((File::Root.inode(), File::Root.filetype(), String::from_str("..")))
                } else if index == 2 {
                    File::AltText(*num).triple()
                } else if index == 3 {
                    File::Title(*num).triple()
                } else if index == 4 {
                    File::Transcript(*num).triple()
                } else if index == 5 {
                    File::Date(*num).triple()
                } else if index == 6 {
                    File::RawImage(*num).triple()
                } else {
                    None
                }
            },
            _ => None,
        }
    }
}

/// The inode of a defined file decodes to that file again.
pub proof fn lemma_decode_inode(f: File)
    requires
        f.is_defined(),
    ensures
        0 <= f.inode_of() <= u64::MAX,
        File::decode(f.inode_of() as u64) == Some(f),
{
    let (high, low): (int, int) = match f {
        File::Root => (0, 1),
        File::Refresh => (0, 2),
        File::Credits => (0, 3),
        File::Image(n) => (n as int, 0),
        File::MetaFolder(n) => (n as int, 1),
        File::AltText(n) => (n as int, 2),
        File::Title(n) => (n as int, 3),
        File::Transcript(n) => (n as int, 4),
        File::Date(n) => (n as int, 5),
        File::RawImage(n) => (n as int, 6),
    };
    assert(f.inode_of() == from_halves(high, low));
    assert(0 <= high * HALF <= u32::MAX * HALF) by (nonlinear_arith)
        requires
            0 <= high <= u32::MAX,
    ;
    lemma_fundamental_div_mod_converse(f.inode_of(), HALF as int, high, low);
}

/// An inode that decodes to a file is a defined file's inode: distinct files
/// never share an inode.
pub proof fn lemma_inode_decode(ino: u64)
    ensures
        File::decode(ino) matches Some(f) ==> f.is_defined() && f.inode_of() == ino,
{
    lemma_fundamental_div_mod(ino as int, HALF as int);
    let high = ino / HALF;
    assert(high <= u32::MAX) by {
        assert(ino as int == HALF * high + ino % HALF);
        if high > u32::MAX {
            assert(HALF * high >= HALF * (u32::MAX + 1)) by (nonlinear_arith)
                requires
                    high >= u32::MAX + 1,
            ;
        }
    }
    assert(HALF * (ino / HALF) == (ino / HALF) * HALF) by (nonlinear_arith);
}

/// A file's name, resolved in the directory that holds it, gives the file back.
pub proof fn lemma_name_resolves(f: File)
    requires
        f.is_defined(),
        f.parent_of() is Some,
    ensures
        child_named(f.parent_of().unwrap(), f.name_of()) == Some(f),
{
    reveal_strlit("comic_");
    reveal_strlit(".png");
    reveal_strlit("info_");
    reveal_strlit("refresh");
    reveal_strlit("credits");
    reveal_strlit("alt");
    reveal_strlit("title");
    reveal_strlit("transcript");
    reveal_strlit("date");
    reveal_strlit("raw_image");
    let name = f.name_of();
    match f {
        File::Image(n) => {
            lemma_padded4(n as nat);
            let p = padded4(n as nat);
            assert(name.subrange(0, 6) =~= "comic_"@);
            assert(name.subrange(name.len() - 4, name.len() as int) =~= ".png"@);
            assert(name.subrange(6, name.len() - 4) =~= p);
        },
        File::MetaFolder(n) => {
            lemma_padded4(n as nat);
            let p = padded4(n as nat);
            assert(name[0] == 'i');
            assert(name.subrange(0, 6)[0] == 'i');
            assert(name.subrange(0, 5) =~= "info_"@);
            assert(name.subrange(5, name.len() as int) =~= p);
        },
        File::Refresh => {
            assert(name.subrange(0, 6)[0] == 'r');
            assert(name.subrange(0, 5)[0] == 'r');
        },
        File::Credits => {
            assert(name.subrange(0, 6)[0] == 'c');
            assert(name.subrange(0, 6)[1] == 'r');
            assert(name.subrange(0, 5)[0] == 'c');
        },
        File::AltText(_) => {},
        File::Title(_) => {
            assert(name != "alt"@);
        },
        File::Transcript(_) => {
            assert(name != "alt"@);
            assert(name != "title"@);
        },
        File::Date(_) => {
            assert(name != "alt"@);
            assert(name != "title"@);
            assert(name != "transcript"@);
        },
        File::RawImage(_) => {
            assert(name != "alt"@);
            assert(name != "title"@);
            assert(name != "transcript"@);
            assert(name != "date"@);
        },
        File::Root => {},
    }
}

/// A name resolves only in the directory that holds the file it names, so no
/// file has two parents.
pub proof fn lemma_single_parent(parent: File, name: Seq<char>)
    ensures
        child_named(parent, name) matches Some(f) ==> f.parent_of() == Some(parent)
            && f.is_defined() == parent.is_defined(),
{
}

/// The root lists `.` and `..` first, and exactly `2 * k + 4` entries when
/// the archive holds `k` comics: every position below that has an entry, and
/// the listing ends there.
pub proof fn lemma_root_listing(k: int, i: int)
    requires
        0 <= k <= u32::MAX,
    ensures
        listing_entry(File::Root, 0, k) == Some((1int, FileType::Directory, "."@)),
        listing_entry(File::Root, 1, k) == Some((1int, FileType::Directory, ".."@)),
        0 <= i < 2 * k + 4 ==> listing_entry(File::Root, i, k) is Some,
        i >= 2 * k + 4 ==> listing_entry(File::Root, i, k) is None,
{
}

/// A metadata folder of a known comic lists exactly seven entries: `.`,
/// `..`, then alt text, title, transcript, date and raw image; one of a
/// comic beyond the count, or of no comic, lists nothing.
pub proof fn lemma_folder_listing(n: u32, count: int, i: int)
    ensures
        0 < n <= count ==> listing_entry(File::MetaFolder(n), 0, count) == Some(
            (File::MetaFolder(n).inode_of(), FileType::Directory, "."@),
        ) && listing_entry(File::MetaFolder(n), 1, count) == Some(
            (1int, FileType::Directory, ".."@),
        ) && listing_entry(File::MetaFolder(n), 2, count) == Some(entry_of(File::AltText(n)))
            && listing_entry(File::MetaFolder(n), 3, count) == Some(entry_of(File::Title(n)))
            && listing_entry(File::MetaFolder(n), 4, count) == Some(entry_of(File::Transcript(n)))
            && listing_entry(File::MetaFolder(n), 5, count) == Some(entry_of(File::Date(n)))
            && listing_entry(File::MetaFolder(n), 6, count) == Some(entry_of(File::RawImage(n))),
        0 < n <= count && i >= 7 ==> listing_entry(File::MetaFolder(n), i, count) is None,
        n == 0 || n > count ==> listing_entry(File::MetaFolder(n), i, count) is None,
{
}

} // verus!
