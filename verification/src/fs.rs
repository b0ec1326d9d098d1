//! What the file system reports about a file (`statx`), and its type bits.
use vstd::prelude::*;

use crate::error::IoError;

verus! {

/// The bits of a mode that hold the file type.
pub const S_IFMT: u32 = 0o170000;
/// A directory.
pub const S_IFDIR: u32 = 0o040000;
/// A regular file.
pub const S_IFREG: u32 = 0o100000;
/// A symbolic link.
pub const S_IFLNK: u32 = 0o120000;
/// A named pipe.
pub const S_IFIFO: u32 = 0o010000;

/// The birth time was filled in.
pub const STATX_BTIME: u32 = 0x0800;

/// A point in time as seconds and nanoseconds since the Unix epoch (`statx_timestamp`).
#[derive(Clone, Copy, PartialEq, Eq, Structural, Debug)]
pub struct StatxTimestamp {
    pub tv_sec: i64,
    pub tv_nsec: u32,
}

/// The fields of `statx` that a file's metadata reads.
#[derive(Clone, Copy, PartialEq, Eq, Structural, Debug)]
pub struct Statx {
    /// Which fields the file system filled in (`STATX_*` bits).
    pub stx_mask: u32,
    pub stx_mode: u16,
    pub stx_size: u64,
    pub stx_atime: StatxTimestamp,
    pub stx_btime: StatxTimestamp,
    pub stx_ctime: StatxTimestamp,
    pub stx_mtime: StatxTimestamp,
}

/// Metadata information about a file.
pub struct Metadata {
    pub statx: Statx,
}

/// The type of a file, as the type bits of its mode.
#[derive(Clone, Copy, PartialEq, Eq, Structural, Debug)]
pub struct FileType(pub u16);

impl Metadata {
    /// The last access time (`atime`).
    pub fn accessed(&self) -> (r: Result<StatxTimestamp, IoError>)
        ensures
            r == Ok::<StatxTimestamp, IoError>(self.statx.stx_atime),
    {
        Ok(self.statx.stx_atime)
    }

    /// The creation time (`btime`), when the file system reports one; an `Unsupported`
    /// error otherwise.
    pub fn created(&self) -> (r: Result<StatxTimestamp, IoError>)
        ensures
            self.statx.stx_mask & STATX_BTIME != 0 ==> r == Ok::<StatxTimestamp, IoError>(
                self.statx.stx_btime,
            ),
            self.statx.stx_mask & STATX_BTIME == 0 ==> r == Err::<StatxTimestamp, IoError>(
                IoError::Kind(crate::error::ErrorKind::Unsupported),
            ),
    {
        if self.statx.stx_mask & STATX_BTIME != 0 {
            Ok(self.statx.stx_btime)
        } else {
            Err(IoError::Kind(crate::error::ErrorKind::Unsupported))
        }
    }

    /// The last modification time (`mtime`).
    pub fn modified(&self) -> (r: Result<StatxTimestamp, IoError>)
        ensures
            r == Ok::<StatxTimestamp, IoError>(self.statx.stx_mtime),
    {
        Ok(self.statx.stx_mtime)
    }

    /// Whether the metadata is that of a directory.
    pub fn is_dir(&self) -> (r: bool)
        ensures
            r == is_type(self.statx.stx_mode, S_IFDIR),
    {
        self.file_type().is_dir()
    }

    /// Whether the metadata is that of a regular file.
    pub fn is_file(&self) -> (r: bool)
        ensures
            r == is_type(self.statx.stx_mode, S_IFREG),
    {
        self.file_type().is_file()
    }

    /// The file type: the mode.
    pub fn file_type(&self) -> (t: FileType)
        ensures
            t == FileType(self.statx.stx_mode),
    {
        FileType(self.statx.stx_mode)
    }

    /// Whether the metadata is that of a symbolic link.
    pub fn is_symlink(&self) -> (r: bool)
        ensures
            r == is_type(self.statx.stx_mode, S_IFLNK),
    {
        self.file_type().is_symlink()
    }

    /// The size of the file in bytes, taken modulo the size of `usize`.
    pub fn len(&self) -> (r: usize)
        ensures
            r == self.statx.stx_size as usize,
    {
        self.statx.stx_size as usize
    }
}

/// Whether the type bits of `mode` are `ty`.
pub open spec fn is_type(mode: u16, ty: u32) -> bool {
    mode as u32 & S_IFMT == ty
}

impl FileType {
    /// Whether this is a directory.
    pub fn is_dir(&self) -> (r: bool)
        ensures
            r == is_type(self.0, S_IFDIR),
    {
        (self.0 as u32 & S_IFMT) == S_IFDIR
    }

    /// Whether this is a regular file.
    pub fn is_file(&self) -> (r: bool)
        ensures
            r == is_type(self.0, S_IFREG),
    {
        (self.0 as u32 & S_IFMT) == S_IFREG
    }

    /// Whether this is a symbolic link.
    pub fn is_symlink(&self) -> (r: bool)
        ensures
            r == is_type(self.0, S_IFLNK),
    {
        (self.0 as u32 & S_IFMT) == S_IFLNK
    }

    /// Whether this is a named pipe: the pipe bit of the mode is set.
    pub fn is_fifo(&self) -> (r: bool)
        ensures
            r == (self.0 as u32 & S_IFIFO == S_IFIFO),
    {
        (self.0 as u32 & S_IFIFO) == S_IFIFO
    }
}

/// The type tests read the four type bits of the mode (`0o170000`) and compare them with
/// the type's value: `0o040000` for a directory, `0o100000` for a regular file,
/// `0o120000` for a symbolic link. Other types, such as a character device
/// (`0o020000`), a block device (`0o060000`) or a socket (`0o140000`), are none of the
/// three.
pub proof fn lemma_file_type_bits(mode: u16)
    ensures
        is_type(mode, S_IFDIR) == ((mode as u32 & 0o170000u32) == 0o040000u32),
        is_type(mode, S_IFREG) == ((mode as u32 & 0o170000u32) == 0o100000u32),
        is_type(mode, S_IFLNK) == ((mode as u32 & 0o170000u32) == 0o120000u32),
        (mode as u32 & 0o170000u32) == 0o020000u32 || (mode as u32 & 0o170000u32) == 0o060000u32
            || (mode as u32 & 0o170000u32) == 0o140000u32 ==> !is_type(mode, S_IFDIR) && !is_type(
            mode,
            S_IFREG,
        ) && !is_type(mode, S_IFLNK),
{
}

/// A mode is of at most one of the types directory, regular file and symbolic link.
pub proof fn lemma_file_types_exclusive(mode: u16)
    ensures
        !(is_type(mode, S_IFDIR) && is_type(mode, S_IFREG)),
        !(is_type(mode, S_IFDIR) && is_type(mode, S_IFLNK)),
        !(is_type(mode, S_IFREG) && is_type(mode, S_IFLNK)),
{
}

} // verus!
