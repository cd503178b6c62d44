//! Files and directories: the decisions of a `std::fs`-flavored layer over the
//! POSIX file API.
//!
//! The descriptors themselves are owned by the platform layer, which performs
//! the system calls; this module computes what those calls are given (open
//! flags, C paths, seek arguments) and what their results mean (errors,
//! short writes, directory entries, metadata).
use vstd::prelude::*;
use vstd::string::StringSliceAdditionalSpecFns;
use vstd::utf8::{decode_utf8, valid_utf8};

use crate::error::{Errno, Error};
use crate::text::str_from_utf8;
use crate::util::{c_string, cstr};

verus! {

/// `O_RDONLY`.
pub const O_RDONLY: i32 = 0;

/// `O_WRONLY`.
pub const O_WRONLY: i32 = 1;

/// `O_RDWR`.
pub const O_RDWR: i32 = 2;

/// `O_APPEND`.
pub const O_APPEND: i32 = 0x8;

/// `O_CREAT`.
pub const O_CREAT: i32 = 0x200;

/// `O_TRUNC`.
pub const O_TRUNC: i32 = 0x400;

/// `O_EXCL`.
pub const O_EXCL: i32 = 0x800;

/// `SEEK_SET`.
pub const SEEK_SET: i32 = 0;

/// `SEEK_CUR`.
pub const SEEK_CUR: i32 = 1;

/// `SEEK_END`.
pub const SEEK_END: i32 = 2;

/// `S_IFMT`: the file-type bits of a mode.
pub const S_IFMT: u32 = 0o170000;

/// `S_IFDIR`: directory.
pub const S_IFDIR: u32 = 0o040000;

/// `S_IFREG`: regular file.
pub const S_IFREG: u32 = 0o100000;

/// Default permission bits for newly created files (`rw-r--r--`).
pub const DEFAULT_CREATE_MODE: u32 = 0o644;

/// Permission bits for new directories (`rwxr-xr-x`).
pub const DEFAULT_DIR_MODE: u32 = 0o755;

/// Reference point for a seek (mirrors `std::io::SeekFrom`).
#[derive(Clone, Copy, Debug, PartialEq, Eq)]
pub enum SeekFrom {
    /// Seek to an absolute offset (bytes from the start).
    Start(u64),
    /// Seek relative to the end of the file (may be negative).
    End(i64),
    /// Seek relative to the current position (may be negative).
    Current(i64),
}

/// The `(offset, whence)` arguments of `lseek` for `pos`; an absolute offset
/// beyond `i64::MAX` wraps, as the `off_t` conversion does.
pub fn seek_args(pos: SeekFrom) -> (r: (i64, i32))
    ensures
        r == (match pos {
            SeekFrom::Start(n) => (n as i64, SEEK_SET),
            SeekFrom::End(n) => (n, SEEK_END),
            SeekFrom::Current(n) => (n, SEEK_CUR),
        }),
{
    match pos {
        SeekFrom::Start(n) => (n as i64, SEEK_SET),
        SeekFrom::End(n) => (n, SEEK_END),
        SeekFrom::Current(n) => (n, SEEK_CUR),
    }
}

/// The result of `lseek`: `-1` is failure (carrying `errno`, read right
/// after the call), otherwise the new absolute offset.
pub fn seek_result(ret: i64, errno: i32) -> (r: Result<u64, Error>)
    ensures
        ret == -1 ==> r == Err::<u64, Error>(Error::Os(Errno(errno))),
        ret != -1 ==> r == Ok::<u64, Error>(ret as u64),
{
    if ret == -1 {
        Err(Error::last_os(errno))
    } else {
        Ok(ret as u64)
    }
}

/// What to do after one `write` of a `write_all` loop.
pub enum WriteStep {
    /// Continue with the bytes from this offset on (the whole buffer is
    /// written once it reaches the length).
    Advance(usize),
    /// Call `write` again on the same bytes.
    Retry,
    /// Stop with this error.
    Fail(Error),
}

/// One step of [`File`]-style `write_all`: `result` is the outcome of writing
/// the bytes from `offset` on. A write that makes no progress is an error, to
/// avoid looping forever.
pub fn file_write_step(offset: usize, len: usize, result: Result<usize, Error>) -> (s: WriteStep)
    requires
        offset < len,
        result matches Ok(n) ==> n <= len - offset,
    ensures
        match result {
            Ok(0) => s == WriteStep::Fail(
                Error::InvalidInput("write returned zero (failed to write whole buffer)"),
            ),
            Ok(n) => s == WriteStep::Advance((offset + n) as usize),
            Err(e) => s == WriteStep::Fail(e),
        },
{
    match result {
        Ok(0) => WriteStep::Fail(
            Error::InvalidInput("write returned zero (failed to write whole buffer)"),
        ),
        Ok(n) => WriteStep::Advance(offset + n),
        Err(e) => WriteStep::Fail(e),
    }
}

/// Options and flags configuring how a file is opened (mirrors
/// `std::fs::OpenOptions`).
#[derive(Clone, Copy, Debug, Default, PartialEq, Eq)]
pub struct OpenOptions {
    pub read: bool,
    pub write: bool,
    pub append: bool,
    pub truncate: bool,
    pub create: bool,
    pub create_new: bool,
}

/// The access mode for `o`, or `None` when neither reading nor writing is
/// requested.
pub open spec fn access_mode(o: OpenOptions) -> Option<i32> {
    if o.read && !(o.write || o.append) {
        Some(O_RDONLY)
    } else if !o.read && (o.write || o.append) {
        Some(O_WRONLY)
    } else if o.read && (o.write || o.append) {
        Some(O_RDWR)
    } else {
        None
    }
}

/// The `open` flags for `o` (given an access mode): append, then either
/// create-exclusive, or create and truncate as requested.
pub open spec fn open_flags_of(o: OpenOptions, access: i32) -> i32 {
    let f1 = if o.append {
        access | O_APPEND
    } else {
        access
    };
    if o.create_new {
        f1 | (O_CREAT | O_EXCL)
    } else {
        let f2 = if o.create {
            f1 | O_CREAT
        } else {
            f1
        };
        if o.truncate {
            f2 | O_TRUNC
        } else {
            f2
        }
    }
}

impl OpenOptions {
    /// A fresh set of options with every flag disabled.
    pub fn new() -> (o: OpenOptions)
        ensures
            o == (OpenOptions {
                read: false,
                write: false,
                append: false,
                truncate: false,
                create: false,
                create_new: false,
            }),
    {
        OpenOptions {
            read: false,
            write: false,
            append: false,
            truncate: false,
            create: false,
            create_new: false,
        }
    }

    /// Allow reads from the opened file.
    pub fn read(&mut self, read: bool) -> (r: &mut OpenOptions)
        ensures
            *r == (OpenOptions { read, ..*old(self) }),
            *final(self) == *final(r),
    {
        self.read = read;
        self
    }

    /// Allow writes to the opened file.
    pub fn write(&mut self, write: bool) -> (r: &mut OpenOptions)
        ensures
            *r == (OpenOptions { write, ..*old(self) }),
            *final(self) == *final(r),
    {
        self.write = write;
        self
    }

    /// Open in append mode; every write goes to the end of the file.
    pub fn append(&mut self, append: bool) -> (r: &mut OpenOptions)
        ensures
            *r == (OpenOptions { append, ..*old(self) }),
            *final(self) == *final(r),
    {
        self.append = append;
        self
    }

    /// Truncate the file to length 0 when opening it.
    pub fn truncate(&mut self, truncate: bool) -> (r: &mut OpenOptions)
        ensures
            *r == (OpenOptions { truncate, ..*old(self) }),
            *final(self) == *final(r),
    {
        self.truncate = truncate;
        self
    }

    /// Create the file if it does not already exist.
    pub fn create(&mut self, create: bool) -> (r: &mut OpenOptions)
        ensures
            *r == (OpenOptions { create, ..*old(self) }),
            *final(self) == *final(r),
    {
        self.create = create;
        self
    }

    /// Create a new file, failing if the path already exists.
    ///
    /// Implies `create` and ignores `truncate` (matching `std`).
    pub fn create_new(&mut self, create_new: bool) -> (r: &mut OpenOptions)
        ensures
            *r == (OpenOptions { create_new, ..*old(self) }),
            *final(self) == *final(r),
    {
        self.create_new = create_new;
        self
    }

    /// The access-mode portion of the open flags (`O_RDONLY` etc.).
    pub fn access_flags(&self) -> (r: Result<i32, Error>)
        ensures
            match access_mode(*self) {
                Some(m) => r == Ok::<i32, Error>(m),
                None => r == Err::<i32, Error>(
                    Error::InvalidInput(
                        "OpenOptions: no access mode set (need read and/or write)",
                    ),
                ),
            },
    {
        let writes = self.write || self.append;
        if self.read && !writes {
            Ok(O_RDONLY)
        } else if !self.read && writes {
            Ok(O_WRONLY)
        } else if self.read && writes {
            Ok(O_RDWR)
        } else {
            Err(Error::InvalidInput("OpenOptions: no access mode set (need read and/or write)"))
        }
    }

    /// The full `open` flags for these options.
    pub fn open_flags(&self) -> (r: Result<i32, Error>)
        ensures
            match access_mode(*self) {
                Some(m) => r == Ok::<i32, Error>(open_flags_of(*self, m)),
                None => r == Err::<i32, Error>(
                    Error::InvalidInput(
                        "OpenOptions: no access mode set (need read and/or write)",
                    ),
                ),
            },
    {
        let mut flags = match self.access_flags() {
            Ok(f) => f,
            Err(e) => {
                return Err(e);
            },
        };
        if self.append {
            flags = flags | O_APPEND;
        }
        if self.create_new {
            flags = flags | (O_CREAT | O_EXCL);
        } else {
            if self.create {
                flags = flags | O_CREAT;
            }
            if self.truncate {
                flags = flags | O_TRUNC;
            }
        }
        Ok(flags)
    }

    /// The arguments of the `open` call for `path`: the C path, the flags and
    /// the creation mode (consulted only when a file is created). The flags
    /// are checked before the path.
    pub fn open_args(&self, path: &str) -> (r: Result<(Vec<u8>, i32, u32), Error>)
        ensures
            match access_mode(*self) {
                None => r == Err::<(Vec<u8>, i32, u32), Error>(
                    Error::InvalidInput(
                        "OpenOptions: no access mode set (need read and/or write)",
                    ),
                ),
                Some(m) => if path.spec_bytes().contains(0u8) {
                    r == Err::<(Vec<u8>, i32, u32), Error>(
                        Error::InvalidInput("string contains an interior NUL byte"),
                    )
                } else {
                    r matches Ok(a) && a.0@ == c_string(path.spec_bytes()) && a.1
                        == open_flags_of(*self, m) && a.2 == DEFAULT_CREATE_MODE
                },
            },
    {
        let flags = match self.open_flags() {
            Ok(f) => f,
            Err(e) => {
                return Err(e);
            },
        };
        match cstr(path) {
            Ok(c) => Ok((c, flags, DEFAULT_CREATE_MODE)),
            Err(e) => Err(e),
        }
    }
}

/// The options of `File::open`: read-only.
pub fn open_options_for_read() -> (o: OpenOptions)
    ensures
        o == (OpenOptions { read: true, ..OpenOptions::default_spec() }),
{
    let mut o = OpenOptions::new();
    o.read(true);
    o
}

/// The options of `File::create`: write, create and truncate.
pub fn open_options_for_create() -> (o: OpenOptions)
    ensures
        o == (OpenOptions {
            write: true,
            create: true,
            truncate: true,
            ..OpenOptions::default_spec()
        }),
{
    let mut o = OpenOptions::new();
    o.write(true).create(true).truncate(true);
    o
}

impl OpenOptions {
    /// Every flag disabled.
    pub open spec fn default_spec() -> OpenOptions {
        OpenOptions {
            read: false,
            write: false,
            append: false,
            truncate: false,
            create: false,
            create_new: false,
        }
    }
}

/// Metadata describing a filesystem object: the `stat` fields it reads.
#[derive(Clone, Copy, Debug)]
pub struct Metadata {
    /// `st_size`.
    pub size: i64,
    /// `st_mode`.
    pub mode: u16,
}

impl Metadata {
    /// Size of the file in bytes.
    pub fn len(&self) -> (n: u64)
        ensures
            n == self.size as u64,
    {
        self.size as u64
    }

    /// `true` if the size is zero.
    pub fn is_empty(&self) -> (b: bool)
        ensures
            b == (self.size as u64 == 0),
    {
        self.len() == 0
    }

    /// `true` if this is a directory.
    pub fn is_dir(&self) -> (b: bool)
        ensures
            b == ((self.mode as u32 & S_IFMT) == S_IFDIR),
    {
        (self.mode as u32 & S_IFMT) == S_IFDIR
    }

    /// `true` if this is a regular file.
    pub fn is_file(&self) -> (b: bool)
        ensures
            b == ((self.mode as u32 & S_IFMT) == S_IFREG),
    {
        (self.mode as u32 & S_IFMT) == S_IFREG
    }

    /// The raw mode bits (file type and permissions).
    pub fn mode(&self) -> (m: u32)
        ensures
            m == self.mode as u32,
    {
        self.mode as u32
    }
}

/// An entry of a directory listing.
#[derive(Clone, Debug)]
pub struct DirEntry {
    name: String,
}

impl DirEntry {
    /// The bare file name of this entry (no directory component).
    pub fn file_name(&self) -> (s: &str)
        ensures
            s@ == self.name_view(),
    {
        self.name.as_str()
    }

    /// The name as characters.
    pub closed spec fn name_view(&self) -> Seq<char> {
        self.name@
    }
}

/// The characters that `String::from_utf8_lossy` makes of `bytes`: their
/// UTF-8 decoding, with each invalid sequence replaced by U+FFFD.
pub uninterp spec fn utf8_lossy(bytes: Seq<u8>) -> Seq<char>;

/// `String::from_utf8_lossy`, made owned: the string for `bytes`, with each
/// invalid sequence replaced by U+FFFD. Its result is named by
/// [`utf8_lossy`], a function of the bytes alone; of that name only this is
/// stated: valid UTF-8 decodes exactly.
#[verifier::external_body]
fn string_from_utf8_lossy(bytes: &[u8]) -> (s: String)
    ensures
        s@ == utf8_lossy(bytes@),
        valid_utf8(bytes@) ==> s@ == decode_utf8(bytes@),
{
    String::from_utf8_lossy(bytes).into_owned()
}

/// The name bytes of a directory entry: `d_name` clamped to `d_namlen` bytes
/// and to the array, and cut at the first NUL.
pub open spec fn dirent_name_bytes(d_name: Seq<u8>, d_namlen: nat) -> Seq<u8> {
    let clamped = if d_namlen < d_name.len() {
        d_name.take(d_namlen as int)
    } else {
        d_name
    };
    match crate::text::find_first(clamped, seq![0u8]) {
        Some(i) => clamped.take(i),
        None => clamped,
    }
}

/// The name of a directory entry from its raw `d_name` array and `d_namlen`,
/// decoded lossily: invalid UTF-8 becomes U+FFFD.
pub fn dirent_name(d_name: &[u8], d_namlen: usize) -> (s: String)
    ensures
        s@ == utf8_lossy(dirent_name_bytes(d_name@, d_namlen as nat)),
        valid_utf8(dirent_name_bytes(d_name@, d_namlen as nat)) ==> s@ == decode_utf8(
            dirent_name_bytes(d_name@, d_namlen as nat),
        ),
{
    let max = if d_namlen < d_name.len() {
        d_namlen
    } else {
        d_name.len()
    };
    let ghost clamped = if (d_namlen as nat) < d_name@.len() {
        d_name@.take(d_namlen as int)
    } else {
        d_name@
    };
    assert(clamped =~= d_name@.take(max as int));
    let mut end: usize = 0;
    while end < max && d_name[end] != 0
        invariant
            end <= max <= d_name@.len(),
            clamped == d_name@.take(max as int),
            crate::text::find_first(clamped, seq![0u8]) == crate::text::find_from(
                clamped,
                seq![0u8],
                end as int,
            ),
        decreases max - end,
    {
        proof {
            assert(!crate::text::matches_at(clamped, seq![0u8], end as int)) by {
                if crate::text::matches_at(clamped, seq![0u8], end as int) {
                    assert(clamped.subrange(end as int, end + 1)[0] == clamped[end as int]);
                }
            }
            crate::text::lemma_find_from_step(clamped, seq![0u8], end as int);
        }
        end = end + 1;
    }
    proof {
        if end < max {
            assert(clamped.subrange(end as int, end + 1) =~= seq![0u8]);
        }
    }
    let bytes = vstd::slice::slice_subrange(d_name, 0, end);
    assert(bytes@ =~= dirent_name_bytes(d_name@, d_namlen as nat));
    string_from_utf8_lossy(bytes)
}

/// What one `readdir` call means.
pub enum DirStep {
    /// The end of the directory.
    End,
    /// `readdir` failed.
    Fail(Error),
    /// `.` or `..`: read the next entry.
    Skip,
    /// An entry to yield.
    Entry(DirEntry),
}

/// Interpret one `readdir` result: `None` (a null entry) with `errno` still
/// `0` is the end of the directory and otherwise an error; `.` and `..` are
/// skipped; any other name is an entry.
pub fn dir_step(entry: Option<String>, errno: i32) -> (s: DirStep)
    ensures
        match entry {
            None => if errno == 0 {
                s is End
            } else {
                s == DirStep::Fail(Error::Os(Errno(errno)))
            },
            Some(name) => if name@ == "."@ || name@ == ".."@ {
                s is Skip
            } else {
                s matches DirStep::Entry(e) && e.name_view() == name@
            },
        },
{
    match entry {
        None => {
            if errno == 0 {
                DirStep::End
            } else {
                DirStep::Fail(Error::Os(Errno(errno)))
            }
        },
        Some(name) => {
            let dot = String::from_str(".");
            let dotdot = String::from_str("..");
            if name == dot || name == dotdot {
                DirStep::Skip
            } else {
                DirStep::Entry(DirEntry { name })
            }
        },
    }
}

/// The contents of a file as a `String`; [`Error::InvalidInput`] if they are
/// not valid UTF-8.
pub fn string_from_file_bytes(bytes: Vec<u8>) -> (r: Result<String, Error>)
    ensures
        valid_utf8(bytes@) ==> (r matches Ok(s) && s@ == decode_utf8(bytes@)),
        !valid_utf8(bytes@) ==> r == Err::<String, Error>(
            Error::InvalidInput("file contents are not valid UTF-8"),
        ),
{
    match str_from_utf8(bytes.as_slice()) {
        Some(s) => {
            proof {
                vstd::utf8::encode_utf8_decode_utf8(s@);
            }
            Ok(s.to_owned())
        },
        None => Err(Error::InvalidInput("file contents are not valid UTF-8")),
    }
}

} // verus!

verus! {

/// `create_new` implies `create` and ignores `truncate` (matching `std`):
/// with it set, the open flags are the access mode, `O_APPEND` if requested,
/// and `O_CREAT | O_EXCL`, whatever `create` and `truncate` say.
pub proof fn law_create_new_overrides(o: OpenOptions, access: i32, create: bool, truncate: bool)
    requires
        o.create_new,
    ensures
        open_flags_of(o, access) == open_flags_of(OpenOptions { create, truncate, ..o }, access),
        open_flags_of(o, access) == (if o.append {
            access | O_APPEND
        } else {
            access
        }) | (O_CREAT | O_EXCL),
{
}

/// An open needs an access mode: it is refused exactly when neither reading
/// nor writing (or appending) is requested; append alone opens write-only.
pub proof fn law_access_mode(o: OpenOptions)
    ensures
        access_mode(o) is None <==> (!o.read && !o.write && !o.append),
        (!o.read && o.append) ==> access_mode(o) == Some(O_WRONLY),
{
}

proof fn lemma_or_identities(x: i32)
    by (bit_vector)
    ensures
        x | 0 == x,
        x | (0x200i32 | 0x800i32) == ((x | 0x200i32) | 0) | 0x800i32,
{
}

proof fn lemma_flag_bits(m: i32, a: i32, c: i32, t: i32, e: i32)
    by (bit_vector)
    requires
        0 <= m <= 2,
        a == 0 || a == 8,
        c == 0 || c == 0x200,
        t == 0 || t == 0x400,
        e == 0 || e == 0x800,
    ensures
        (m | a | c | t | e) & 3 == m,
        (m | a | c | t | e) & 8 == a,
        (m | a | c | t | e) & 0x200 == c,
        (m | a | c | t | e) & 0x400 == t,
        (m | a | c | t | e) & 0x800 == e,
{
}

/// Each `open` flag is requested exactly when its option asks for it: the
/// access mode sits in the low bits; `O_APPEND` iff `append`; `O_CREAT` iff
/// `create` or `create_new`; `O_EXCL` iff `create_new`; and `O_TRUNC` iff
/// `truncate` without `create_new`, so creating or appending never
/// truncates on its own.
pub proof fn law_open_flag_bits(o: OpenOptions, m: i32)
    requires
        access_mode(o) == Some(m),
    ensures
        open_flags_of(o, m) & 3 == m,
        (open_flags_of(o, m) & O_APPEND == O_APPEND) <==> o.append,
        (open_flags_of(o, m) & O_APPEND == 0) <==> !o.append,
        (open_flags_of(o, m) & O_CREAT == O_CREAT) <==> (o.create || o.create_new),
        (open_flags_of(o, m) & O_CREAT == 0) <==> !(o.create || o.create_new),
        (open_flags_of(o, m) & O_EXCL == O_EXCL) <==> o.create_new,
        (open_flags_of(o, m) & O_EXCL == 0) <==> !o.create_new,
        (open_flags_of(o, m) & O_TRUNC == O_TRUNC) <==> (o.truncate && !o.create_new),
        (open_flags_of(o, m) & O_TRUNC == 0) <==> !(o.truncate && !o.create_new),
{
    let a: i32 = if o.append { 8 } else { 0 };
    let c: i32 = if o.create || o.create_new { 0x200 } else { 0 };
    let t: i32 = if o.truncate && !o.create_new { 0x400 } else { 0 };
    let e: i32 = if o.create_new { 0x800 } else { 0 };
    let f1 = if o.append { m | O_APPEND } else { m };
    lemma_or_identities(m);
    lemma_or_identities(f1);
    assert(f1 == m | a);
    let f2 = if o.create { f1 | O_CREAT } else { f1 };
    lemma_or_identities(f2);
    lemma_or_identities(f1 | c);
    lemma_or_identities(f1 | c | t);
    assert(open_flags_of(o, m) == m | a | c | t | e);
    lemma_flag_bits(m, a, c, t, e);
}

} // verus!
