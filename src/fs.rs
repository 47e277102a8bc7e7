//! The filesystem operations: what each one answers for a decoded inode and
//! for what the retrieval tiers produced.

use vstd::prelude::*;
use vstd::utf8::encode_utf8;

use crate::comic::Comic;
use crate::file::{child_named, listing_entry, File, FileType};
use crate::request::{RequestMode, Resource, Retrieval};

verus! {

pub const BLOCK_SIZE: u64 = 512;

/// The size every directory reports.
pub const DIR_SIZE: u64 = 4096;

/// The size a regular file reports while its content is not known yet.
pub const DEFAULT_SIZE: u64 = 4096;

/// Read-only for everyone.
pub const DEFAULT_PERM: u16 = 0o444;

/// Read-write for everyone: the refresh file.
pub const REFRESH_PERM: u16 = 0o666;

/// The content of the credits file.
pub const CREDITS: &'static str = "Comics by Randall Munroe, https://xkcd.com/, under the Creative Commons Attribution-NonCommercial 2.5 License.\n";

/// Why an operation failed.
#[derive(Clone, Copy, Debug, PartialEq, Eq, Structural)]
pub enum FsError {
    NotFound,
    NotADirectory,
    IsADirectory,
    InvalidArgument,
    PermissionDenied,
    /// Every allowed tier failed to produce the bytes of a file that exists.
    RemoteUnavailable,
}

/// The attributes of a file, but for the owner, which the caller supplies.
#[derive(Clone, Copy, Debug, PartialEq, Eq, Structural)]
pub struct FileAttr {
    pub ino: u64,
    pub size: u64,
    pub blocks: u64,
    /// Access, modification, change and creation time, in seconds since the epoch.
    pub time: i64,
    pub kind: FileType,
    pub perm: u16,
}

/// What an operation needs the retrieval tiers for.
#[derive(Clone, Copy, Debug, PartialEq, Eq, Structural)]
pub enum Purpose {
    /// Reporting attributes: the cache alone, never a fetch or a render.
    Attributes,
    /// Opening or reading: every tier.
    Content,
}

/// The retrievals that answer for a file: its comic's metadata first, then
/// its image, if it is an image file.
#[derive(Clone, Copy, Debug)]
pub struct Needs {
    pub comic: Option<Retrieval>,
    pub image: Option<Retrieval>,
}

/// The number of 512-byte blocks that hold `size` bytes.
pub open spec fn blocks_of(size: int) -> int {
    (size + BLOCK_SIZE - 1) / BLOCK_SIZE as int
}

/// The mode a purpose retrieves under.
pub open spec fn mode_for(purpose: Purpose) -> RequestMode {
    match purpose {
        Purpose::Attributes => RequestMode::VeryFast,
        Purpose::Content => RequestMode::Normal,
    }
}

impl File {
    /// The comic a file belongs to.
    pub open spec fn number_of(self) -> Option<u32> {
        match self {
            File::Root | File::Refresh | File::Credits => None,
            File::Image(n) | File::MetaFolder(n) | File::AltText(n) | File::Title(n)
            | File::Transcript(n) | File::Date(n) | File::RawImage(n) => Some(n),
        }
    }

    /// The image resource whose bytes a file holds.
    pub open spec fn image_of(self) -> Option<Resource> {
        match self {
            File::Image(n) => Some(Resource::RenderedImage(n)),
            File::RawImage(n) => Some(Resource::RawImage(n)),
            _ => None,
        }
    }

    /// The comic a file belongs to.
    pub fn comic_number(&self) -> (r: Option<u32>)
        ensures
            r == self.number_of(),
    {
        match self {
            File::Root | File::Refresh | File::Credits => None,
            File::Image(n) | File::MetaFolder(n) | File::AltText(n) | File::Title(n)
            | File::Transcript(n) | File::Date(n) | File::RawImage(n) => Some(*n),
        }
    }

    /// The image resource whose bytes a file holds.
    pub fn image_resource(&self) -> (r: Option<Resource>)
        ensures
            r == self.image_of(),
    {
        match self {
            File::Image(n) => Some(Resource::RenderedImage(*n)),
            File::RawImage(n) => Some(Resource::RawImage(*n)),
            _ => None,
        }
    }
}

/// The comic behind a reference.
pub open spec fn owned(comic: Option<&Comic>) -> Option<Comic> {
    match comic {
        Some(c) => Some(*c),
        None => None,
    }
}

/// The bytes an optional buffer holds.
pub open spec fn bytes_view(b: Option<Vec<u8>>) -> Option<Seq<u8>> {
    match b {
        Some(v) => Some(v@),
        None => None,
    }
}

/// The bytes of a text.
pub open spec fn text_bytes(s: String) -> Seq<u8> {
    encode_utf8(s@)
}

/// The bytes of a file, given its comic and its image as retrieved.
pub open spec fn content_of(file: File, comic: Option<Comic>, image: Option<Seq<u8>>) -> Result<
    Seq<u8>,
    FsError,
> {
    match file {
        File::Root | File::MetaFolder(_) => Err(FsError::IsADirectory),
        File::Refresh => Ok(Seq::empty()),
        File::Credits => Ok(encode_utf8(CREDITS@)),
        File::Image(_) | File::RawImage(_) => match image {
            Some(b) => Ok(b),
            None => Err(FsError::RemoteUnavailable),
        },
        File::AltText(_) => match comic {
            Some(c) => Ok(text_bytes(c.alt)),
            None => Err(FsError::RemoteUnavailable),
        },
        File::Title(_) => match comic {
            Some(c) => Ok(text_bytes(c.title)),
            None => Err(FsError::RemoteUnavailable),
        },
        File::Transcript(_) => match comic {
            Some(c) => match c.transcript {
                Some(t) => Ok(text_bytes(t)),
                None => Err(FsError::RemoteUnavailable),
            },
            None => Err(FsError::RemoteUnavailable),
        },
        File::Date(_) => match comic {
            Some(c) => Ok(encode_utf8(c.isodate_of())),
            None => Err(FsError::RemoteUnavailable),
        },
    }
}

/// The size of a regular file, if its content is known: an image counts
/// only once its comic is known too.
pub open spec fn size_of(file: File, comic: Option<Comic>, image_len: Option<usize>) -> Option<int> {
    match file {
        File::Image(_) | File::RawImage(_) => match (comic, image_len) {
            (Some(_), Some(n)) => Some(n as int),
            _ => None,
        },
        _ => match content_of(file, comic, None) {
            Ok(b) => Some(b.len() as int),
            Err(_) => None,
        },
    }
}

/// The publication time of the comic, or the epoch when it is not known.
pub open spec fn time_or_epoch(comic: Option<Comic>) -> i64 {
    match comic {
        Some(c) => c.time_of() as i64,
        None => 0,
    }
}

/// The attributes of a file, given its comic and the length of its image as
/// retrieved.
pub open spec fn attr_of(file: File, comic: Option<Comic>, image_len: Option<usize>) -> FileAttr {
    match file {
        File::Root => FileAttr {
            ino: 1,
            size: DIR_SIZE,
            blocks: blocks_of(DIR_SIZE as int) as u64,
            time: 0,
            kind: FileType::Directory,
            perm: DEFAULT_PERM,
        },
        File::Refresh => FileAttr {
            ino: 2,
            size: 0,
            blocks: 1,
            time: 0,
            kind: FileType::RegularFile,
            perm: REFRESH_PERM,
        },
        File::MetaFolder(_) => FileAttr {
            ino: file.inode_of() as u64,
            size: DIR_SIZE,
            blocks: blocks_of(DIR_SIZE as int) as u64,
            time: time_or_epoch(comic),
            kind: FileType::Directory,
            perm: DEFAULT_PERM,
        },
        _ => {
            let size = match size_of(file, comic, image_len) {
                Some(s) => s,
                None => DEFAULT_SIZE as int,
            };
            FileAttr {
                ino: file.inode_of() as u64,
                size: size as u64,
                blocks: blocks_of(size) as u64,
                time: if file is Credits {
                    0
                } else {
                    time_or_epoch(comic)
                },
                kind: FileType::RegularFile,
                perm: DEFAULT_PERM,
            }
        },
    }
}

/// The byte range `[offset, end)` that a read of `size` bytes at `offset`
/// returns from content of `len` bytes: `[offset, offset + size)` clamped to
/// the content; an offset outside the content is an invalid argument.
pub open spec fn read_range(len: int, offset: int, size: int) -> Result<(int, int), FsError> {
    let end = if offset + size < len {
        offset + size
    } else {
        len
    };
    if offset < 0 || offset >= len {
        Err(FsError::InvalidArgument)
    } else {
        Ok((offset, end))
    }
}

/// What a read returns.
pub open spec fn read_result(
    file: Option<File>,
    comic: Option<Comic>,
    image: Option<Seq<u8>>,
    offset: int,
    size: int,
) -> Result<Seq<u8>, FsError> {
    match file {
        None => Err(FsError::NotFound),
        Some(f) => match content_of(f, comic, image) {
            Err(e) => Err(e),
            Ok(bytes) => match read_range(bytes.len() as int, offset, size) {
                Err(e) => Err(e),
                Ok((s, e)) => Ok(bytes.subrange(s, e)),
            },
        },
    }
}

/// Whether opening a file succeeds: a new handle when the bytes behind it
/// can be obtained; directories cannot be opened, and a file whose bytes the
/// tiers could not produce is a transport error.
pub open spec fn open_result(file: Option<File>, comic: Option<Comic>, image: Option<Seq<u8>>) -> Result<
    (),
    FsError,
> {
    match file {
        None => Err(FsError::NotFound),
        Some(f) => match content_of(f, comic, image) {
            Ok(_) => Ok(()),
            Err(FsError::IsADirectory) => Err(FsError::IsADirectory),
            Err(_) => Err(FsError::RemoteUnavailable),
        },
    }
}

/// The bytes an optional borrowed buffer holds.
pub open spec fn ref_bytes_view(b: Option<&Vec<u8>>) -> Option<Seq<u8>> {
    match b {
        Some(v) => Some(v@),
        None => None,
    }
}

/// Whether the bytes of a file can be had from its comic and its image as
/// retrieved, without building them.
fn content_check(file: &File, comic: Option<&Comic>, image: Option<&Vec<u8>>) -> (r: Result<
    (),
    FsError,
>)
    ensures
        match (r, content_of(*file, owned(comic), ref_bytes_view(image))) {
            (Ok(_), Ok(_)) => true,
            (Err(e), Err(x)) => e == x,
            _ => false,
        },
{
    match file {
        File::Root | File::MetaFolder(_) => Err(FsError::IsADirectory),
        File::Refresh | File::Credits => Ok(()),
        File::Image(_) | File::RawImage(_) => match image {
            Some(_) => Ok(()),
            None => Err(FsError::RemoteUnavailable),
        },
        File::Transcript(_) => match comic {
            Some(c) => match &c.transcript {
                Some(_) => Ok(()),
                None => Err(FsError::RemoteUnavailable),
            },
            None => Err(FsError::RemoteUnavailable),
        },
        File::AltText(_) | File::Title(_) | File::Date(_) => match comic {
            Some(_) => Ok(()),
            None => Err(FsError::RemoteUnavailable),
        },
    }
}

fn text_content(s: &String) -> (r: Vec<u8>)
    ensures
        r@ == text_bytes(*s),
{
    s.as_str().as_bytes_vec()
}

fn text_size(s: &String) -> (r: usize)
    ensures
        r == text_bytes(*s).len(),
{
    s.as_str().as_bytes().len()
}

/// The bytes of a file, given its comic and its image as retrieved.
pub fn file_content(file: &File, comic: Option<&Comic>, image: Option<Vec<u8>>) -> (r: Result<
    Vec<u8>,
    FsError,
>)
    ensures
        match (r, content_of(*file, owned(comic), bytes_view(image))) {
            (Ok(v), Ok(b)) => v@ == b,
            (Err(e), Err(x)) => e == x,
            _ => false,
        },
{
    match file {
        File::Root | File::MetaFolder(_) => Err(FsError::IsADirectory),
        File::Refresh => Ok(Vec::new()),
        File::Credits => Ok(CREDITS.as_bytes_vec()),
        File::Image(_) | File::RawImage(_) => match image {
            Some(b) => Ok(b),
            None => Err(FsError::RemoteUnavailable),
        },
        File::AltText(_) => match comic {
            Some(c) => Ok(text_content(&c.alt)),
            None => Err(FsError::RemoteUnavailable),
        },
        File::Title(_) => match comic {
            Some(c) => Ok(text_content(&c.title)),
            None => Err(FsError::RemoteUnavailable),
        },
        File::Transcript(_) => match comic {
            Some(c) => match &c.transcript {
                Some(t) => Ok(text_content(t)),
                None => Err(FsError::RemoteUnavailable),
            },
            None => Err(FsError::RemoteUnavailable),
        },
        File::Date(_) => match comic {
            Some(c) => {
                let d = c.isodate();
                Ok(d.as_str().as_bytes_vec())
            },
            None => Err(FsError::RemoteUnavailable),
        },
    }
}

/// The size of a regular file, if its content is known.
fn content_size(file: &File, comic: Option<&Comic>, image_len: Option<usize>) -> (r: Option<u64>)
    ensures
        match (r, size_of(*file, owned(comic), image_len)) {
            (Some(a), Some(b)) => a == b,
            (None, None) => true,
            _ => false,
        },
{
    match file {
        File::Image(_) | File::RawImage(_) => match (comic, image_len) {
            (Some(_), Some(n)) => Some(n as u64),
            _ => None,
        },
        File::Root | File::MetaFolder(_) => None,
        File::Refresh => Some(0),
        File::Credits => Some(CREDITS.as_bytes().len() as u64),
        File::AltText(_) => match comic {
            Some(c) => Some(text_size(&c.alt) as u64),
            None => None,
        },
        File::Title(_) => match comic {
            Some(c) => Some(text_size(&c.title) as u64),
            None => None,
        },
        File::Transcript(_) => match comic {
            Some(c) => match &c.transcript {
                Some(t) => Some(text_size(t) as u64),
                None => None,
            },
            None => None,
        },
        File::Date(_) => match comic {
            Some(c) => {
                let d = c.isodate();
                Some(d.as_str().as_bytes().len() as u64)
            },
            None => None,
        },
    }
}

fn time_or_epoch_exec(comic: Option<&Comic>) -> (r: i64)
    ensures
        r == time_or_epoch(owned(comic)),
{
    match comic {
        Some(c) => c.time(),
        None => 0,
    }
}

/// The byte range `[offset, end)` that a read of `size` bytes at `offset`
/// returns from content of `len` bytes: `[offset, offset + size)` clamped to
/// the content, and an invalid argument for an offset before the start or at
/// or past the end.
pub fn read_bounds(len: usize, offset: i64, size: u32) -> (r: Result<(usize, usize), FsError>)
    ensures
        match (r, read_range(len as int, offset as int, size as int)) {
            (Ok((a, b)), Ok((x, y))) => a == x && b == y,
            (Err(e), Err(x)) => e == x,
            _ => false,
        },
{
    if offset < 0 || offset as u64 >= len as u64 {
        return Err(FsError::InvalidArgument);
    }
    let start = offset as usize;
    let end = if (size as usize) < len - start {
        start + size as usize
    } else {
        len
    };
    Ok((start, end))
}

/// An offset at the end of the content is an invalid argument, one byte
/// before it a read of any positive size returns that last byte, and a read
/// of no bytes at an offset inside the content returns an empty range.
pub proof fn lemma_read_at_end(len: int, size: int, offset: int)
    requires
        len > 0,
        size > 0,
    ensures
        read_range(len, len, size) == Err::<(int, int), FsError>(FsError::InvalidArgument),
        read_range(len, len - 1, size) == Ok::<(int, int), FsError>((len - 1, len)),
        0 <= offset < len ==> read_range(len, offset, 0) == Ok::<(int, int), FsError>(
            (offset, offset),
        ),
{
}

/// The content length of an image file is its read boundary: a read at it
/// is an invalid argument, a read one byte before it returns the last byte.
pub proof fn lemma_image_read_boundary(n: u32, comic: Option<Comic>, bytes: Seq<u8>, size: int)
    requires
        bytes.len() > 0,
        size > 0,
    ensures
        read_result(Some(File::Image(n)), comic, Some(bytes), bytes.len() as int, size) == Err::<
            Seq<u8>,
            FsError,
        >(FsError::InvalidArgument),
        read_result(Some(File::Image(n)), comic, Some(bytes), bytes.len() - 1, size) == Ok::<
            Seq<u8>,
            FsError,
        >(bytes.subrange(bytes.len() - 1, bytes.len() as int)),
{
}

/// The listing of `file`, which must be a directory.
pub fn readdir_target(file: Option<File>) -> (r: Result<File, FsError>)
    ensures
        match file {
            None => r == Err::<File, FsError>(FsError::NotFound),
            Some(f) => if f.kind_of() == FileType::Directory {
                r == Ok::<File, FsError>(f)
            } else {
                r == Err::<File, FsError>(FsError::NotADirectory)
            },
        },
{
    match file {
        None => Err(FsError::NotFound),
        Some(f) => match f {
            File::Root | File::MetaFolder(_) => Ok(f),
            _ => Err(FsError::NotADirectory),
        },
    }
}

/// The comic count a listing works with: comic numbers are 32-bit.
pub open spec fn clamped_count(count: u64) -> u64 {
    if count > u32::MAX {
        u32::MAX as u64
    } else {
        count
    }
}

/// One listing of a directory as the replies take it: the entries from a
/// cursor on, until the reply is full or the listing ends.
#[derive(Clone, Copy, Debug)]
pub struct Listing {
    pub dir: File,
    /// The position of the next entry.
    pub cursor: u64,
    /// The comics known to the listing.
    pub count: u64,
    /// Whether the listing is over.
    pub done: bool,
}

impl Listing {
    pub open spec fn wf(self) -> bool {
        self.count <= u32::MAX && self.cursor <= i64::MAX
    }

    /// Starts listing `file` at `offset`, with comics `1..=count` known. An
    /// offset before the start lists nothing.
    pub fn start(file: Option<File>, offset: i64, count: u64) -> (r: Result<Listing, FsError>)
        ensures
            match file {
                None => r == Err::<Listing, FsError>(FsError::NotFound),
                Some(f) => if f.kind_of() == FileType::Directory {
                    r matches Ok(l) && l.wf() && l.dir == f && l.count == clamped_count(count)
                        && l.done == (offset < 0) && (offset >= 0 ==> l.cursor == offset)
                } else {
                    r == Err::<Listing, FsError>(FsError::NotADirectory)
                },
            },
    {
        let dir = match readdir_target(file) {
            Ok(d) => d,
            Err(e) => return Err(e),
        };
        let count = if count > 0xffff_ffff {
            0xffff_ffff
        } else {
            count
        };
        if offset < 0 {
            Ok(Listing { dir, cursor: 0, count, done: true })
        } else {
            Ok(Listing { dir, cursor: offset as u64, count, done: false })
        }
    }

    /// The next entry for the reply, with the offset that resumes after it:
    /// none once the reply reported itself `full` or the listing ended.
    pub fn next(&mut self, full: bool) -> (r: Option<(u64, i64, FileType, String)>)
        requires
            old(self).wf(),
        ensures
            final(self).wf(),
            final(self).dir == old(self).dir,
            final(self).count == old(self).count,
            old(self).done || full ==> r is None && final(self).done,
            !(old(self).done || full) && listing_entry(
                old(self).dir,
                old(self).cursor as int,
                old(self).count as int,
            ) is None ==> r is None && final(self).done,
            !(old(self).done || full) ==> (listing_entry(
                old(self).dir,
                old(self).cursor as int,
                old(self).count as int,
            ) matches Some(e) ==> (r matches Some(t) && t.0 == e.0 && t.1 == old(self).cursor + 1
                && t.2 == e.1 && t.3@ == e.2 && final(self).cursor == old(self).cursor + 1
                && !final(self).done)),
    {
        if self.done || full {
            self.done = true;
            return None;
        }
        match self.dir.child_by_index(self.cursor, self.count) {
            None => {
                self.done = true;
                None
            },
            Some((ino, kind, name)) => {
                proof {
                    let e = listing_entry(self.dir, self.cursor as int, self.count as int);
                    assert(e is Some);
                    match self.dir {
                        File::Root => {
                            assert(self.cursor as int <= 2 * (self.count as int) + 3);
                        },
                        File::MetaFolder(_) => {
                            assert(self.cursor <= 6);
                        },
                        _ => {},
                    }
                    assert(self.cursor < i64::MAX);
                }
                self.cursor = self.cursor + 1;
                Some((ino, self.cursor as i64, kind, name))
            },
        }
    }
}

/// The file that `name` names in the directory `parent`.
pub fn lookup_target(parent: Option<File>, name: &str) -> (r: Result<File, FsError>)
    ensures
        match parent {
            None => r == Err::<File, FsError>(FsError::NotFound),
            Some(p) => match child_named(p, name@) {
                Some(f) => r == Ok::<File, FsError>(f),
                None => r == Err::<File, FsError>(FsError::NotFound),
            },
        },
{
    match parent {
        None => Err(FsError::NotFound),
        Some(p) => match File::from_filename(&p, name) {
            Some(f) => Ok(f),
            None => Err(FsError::NotFound),
        },
    }
}

/// The retrievals that answer for `file`: for attributes under `VeryFast`,
/// which never fetches or renders, for content under `Normal`.
pub fn needs(file: &File, purpose: Purpose) -> (r: Needs)
    ensures
        match file.number_of() {
            None => r.comic is None,
            Some(n) => r.comic matches Some(c) && c.resource == Resource::Comic(n) && c.mode
                == mode_for(purpose) && c.action == crate::request::first_action(
                Resource::Comic(n),
                mode_for(purpose),
            ),
        },
        match file.image_of() {
            None => r.image is None,
            Some(res) => r.image matches Some(i) && i.resource == res && i.mode == mode_for(
                purpose,
            ) && i.action == crate::request::first_action(res, mode_for(purpose)),
        },
{
    let mode = match purpose {
        Purpose::Attributes => RequestMode::VeryFast,
        Purpose::Content => RequestMode::Normal,
    };
    let comic = match file.comic_number() {
        Some(n) => Some(Retrieval::start(Resource::Comic(n), mode)),
        None => None,
    };
    let image = match file.image_resource() {
        Some(res) => Some(Retrieval::start(res, mode)),
        None => None,
    };
    Needs { comic, image }
}

/// The retrieval that a write to the refresh file starts: the newest comic,
/// from the network, whatever the cache holds.
pub open spec fn refresh_retrieval(r: Retrieval) -> bool {
    r.resource == Resource::Latest && r.mode == RequestMode::BustCache && r.action
        == crate::request::first_action(Resource::Latest, RequestMode::BustCache)
}

fn refresh() -> (r: Retrieval)
    ensures
        refresh_retrieval(r),
{
    Retrieval::start(Resource::Latest, RequestMode::BustCache)
}

/// The handle after `h`, wrapping around.
pub open spec fn handle_after(h: u64) -> u64 {
    if h == u64::MAX {
        0
    } else {
        (h + 1) as u64
    }
}

/// The filesystem's own state: the next file handle to hand out.
pub struct XkcdFs {
    next_fh: u64,
}

impl XkcdFs {
    /// The handle that the next successful open returns.
    pub closed spec fn next_handle(&self) -> u64 {
        self.next_fh
    }

    pub fn new() -> (r: XkcdFs)
        ensures
            r.next_handle() == 1,
    {
        XkcdFs { next_fh: 1 }
    }

    /// The number of 512-byte blocks that hold `size` bytes.
    pub fn blocks(size: u64) -> (r: u64)
        ensures
            r == blocks_of(size as int),
    {
        size / BLOCK_SIZE + if size % BLOCK_SIZE == 0 {
            0
        } else {
            1
        }
    }

    /// Hands out a handle; handles wrap around, being opaque and short-lived.
    pub fn gen_fh(&mut self) -> (r: u64)
        ensures
            r == old(self).next_handle(),
            final(self).next_handle() == handle_after(old(self).next_handle()),
    {
        let fh = self.next_fh;
        self.next_fh = self.next_fh.wrapping_add(1);
        fh
    }

    /// The attributes of `file`, given its comic and the length of its image
    /// as retrieved for attributes: directories report a fixed size, a file
    /// whose content is not known yet a fixed placeholder size.
    pub fn file_attr(file: &File, comic: Option<&Comic>, image_len: Option<usize>) -> (r: FileAttr)
        ensures
            r == attr_of(*file, owned(comic), image_len),
    {
        match file {
            File::Root => FileAttr {
                ino: file.inode(),
                size: DIR_SIZE,
                blocks: Self::blocks(DIR_SIZE),
                time: 0,
                kind: file.filetype(),
                perm: DEFAULT_PERM,
            },
            File::Refresh => FileAttr {
                ino: file.inode(),
                size: 0,
                blocks: 1,
                time: 0,
                kind: file.filetype(),
                perm: REFRESH_PERM,
            },
            File::MetaFolder(_) => FileAttr {
                ino: file.inode(),
                size: DIR_SIZE,
                blocks: Self::blocks(DIR_SIZE),
                time: time_or_epoch_exec(comic),
                kind: file.filetype(),
                perm: DEFAULT_PERM,
            },
            _ => {
                let size = match content_size(file, comic, image_len) {
                    Some(s) => s,
                    None => DEFAULT_SIZE,
                };
                let time = match file {
                    File::Credits => 0,
                    _ => time_or_epoch_exec(comic),
                };
                FileAttr {
                    ino: file.inode(),
                    size,
                    blocks: Self::blocks(size),
                    time,
                    kind: file.filetype(),
                    perm: DEFAULT_PERM,
                }
            },
        }
    }

    /// Attribute lookup: an inode that names no file is not found.
    pub fn getattr(file: Option<File>, comic: Option<&Comic>, image_len: Option<usize>) -> (r:
        Result<FileAttr, FsError>)
        ensures
            match file {
                None => r == Err::<FileAttr, FsError>(FsError::NotFound),
                Some(f) => r == Ok::<FileAttr, FsError>(attr_of(f, owned(comic), image_len)),
            },
    {
        match file {
            None => Err(FsError::NotFound),
            Some(f) => Ok(Self::file_attr(&f, comic, image_len)),
        }
    }

    /// Reads `size` bytes at `offset` from `file`, given its comic and its
    /// image as retrieved for content.
    pub fn read(
        file: Option<File>,
        comic: Option<&Comic>,
        image: Option<Vec<u8>>,
        offset: i64,
        size: u32,
    ) -> (r: Result<Vec<u8>, FsError>)
        ensures
            match (r, read_result(file, owned(comic), bytes_view(image), offset as int, size as int)) {
                (Ok(v), Ok(b)) => v@ == b,
                (Err(e), Err(x)) => e == x,
                _ => false,
            },
    {
        let f = match file {
            None => return Err(FsError::NotFound),
            Some(f) => f,
        };
        let bytes = match file_content(&f, comic, image) {
            Err(e) => return Err(e),
            Ok(b) => b,
        };
        let (start, end) = match read_bounds(bytes.len(), offset, size) {
            Err(e) => return Err(e),
            Ok(range) => range,
        };
        let mut out: Vec<u8> = Vec::new();
        let mut i: usize = start;
        while i < end
            invariant
                start <= i <= end <= bytes@.len(),
                out@ == bytes@.subrange(start as int, i as int),
            decreases end - i,
        {
            out.push(bytes[i]);
            i = i + 1;
            assert(out@ =~= bytes@.subrange(start as int, i as int));
        }
        Ok(out)
    }

    /// Opens `file`, given its comic and its image as retrieved for content:
    /// a new handle when its bytes can be obtained, a transport error when
    /// they cannot.
    pub fn open(&mut self, file: Option<File>, comic: Option<&Comic>, image: Option<&Vec<u8>>) -> (r:
        Result<u64, FsError>)
        ensures
            match open_result(file, owned(comic), ref_bytes_view(image)) {
                Ok(_) => r == Ok::<u64, FsError>(old(self).next_handle())
                    && final(self).next_handle() == handle_after(old(self).next_handle()),
                Err(e) => r == Err::<u64, FsError>(e)
                    && final(self).next_handle() == old(self).next_handle(),
            },
    {
        let f = match file {
            None => return Err(FsError::NotFound),
            Some(f) => f,
        };
        match content_check(&f, comic, image) {
            Ok(()) => Ok(self.gen_fh()),
            Err(FsError::IsADirectory) => Err(FsError::IsADirectory),
            Err(_) => Err(FsError::RemoteUnavailable),
        }
    }

    /// Writes `len` bytes to `file`: only the refresh file accepts them, and
    /// every write to it asks for the newest comic afresh and reports all
    /// bytes written.
    pub fn write(file: Option<File>, len: usize) -> (r: Result<(u32, Retrieval), FsError>)
        ensures
            match file {
                None => r == Err::<(u32, Retrieval), FsError>(FsError::NotFound),
                Some(File::Refresh) => r matches Ok((n, refresh)) && n == len as u32
                    && refresh_retrieval(refresh),
                Some(_) => r == Err::<(u32, Retrieval), FsError>(FsError::PermissionDenied),
            },
    {
        match file {
            None => Err(FsError::NotFound),
            Some(File::Refresh) => Ok((len as u32, refresh())),
            Some(_) => Err(FsError::PermissionDenied),
        }
    }

    /// Setting attributes changes nothing; on the refresh file it first asks
    /// for the newest comic afresh, as a write does. Either way the reply is
    /// an attribute lookup.
    pub fn setattr(file: Option<File>) -> (r: Option<Retrieval>)
        ensures
            match file {
                Some(File::Refresh) => r matches Some(refresh) && refresh_retrieval(refresh),
                _ => r is None,
            },
    {
        match file {
            Some(File::Refresh) => Some(refresh()),
            _ => None,
        }
    }
}

} // verus!
