//! Small helpers shared by the OS-facing modules: C strings and the mapping of
//! libc return values to [`Result`]s.
use vstd::prelude::*;
use vstd::string::StringSliceAdditionalSpecFns;

use crate::error::{Errno, Error};

verus! {

/// The bytes of the C string for `s`: its UTF-8 bytes followed by a NUL.
pub open spec fn c_string(s: Seq<u8>) -> Seq<u8> {
    s.push(0u8)
}

/// Convert `s` to an owned, NUL-terminated C string (its bytes, then `0`),
/// erroring on an interior NUL.
pub fn cstr(s: &str) -> (r: Result<Vec<u8>, Error>)
    ensures
        s.spec_bytes().contains(0u8) ==> r == Err::<Vec<u8>, Error>(
            Error::InvalidInput("string contains an interior NUL byte"),
        ),
        !s.spec_bytes().contains(0u8) ==> (r matches Ok(v) && v@ == c_string(s.spec_bytes())),
{
    let bytes = s.as_bytes();
    let mut out: Vec<u8> = Vec::new();
    let mut i: usize = 0;
    while i < bytes.len()
        invariant
            i <= bytes@.len(),
            bytes@ == s.spec_bytes(),
            out@ == bytes@.take(i as int),
            !out@.contains(0u8),
        decreases bytes@.len() - i,
    {
        if bytes[i] == 0 {
            assert(bytes@[i as int] == 0u8);
            return Err(Error::InvalidInput("string contains an interior NUL byte"));
        }
        out.push(bytes[i]);
        assert(bytes@.take(i + 1) =~= bytes@.take(i as int).push(bytes@[i as int]));
        i = i + 1;
    }
    assert(bytes@.take(i as int) =~= bytes@);
    out.push(0);
    Ok(out)
}

/// Map a libc `int` return where `-1` signals failure; `errno` is the
/// thread's `errno` read right after the call, which the failure carries.
pub fn cvt_i32(ret: i32, errno: i32) -> (r: Result<i32, Error>)
    ensures
        ret == -1 ==> r == Err::<i32, Error>(Error::Os(Errno(errno))),
        ret != -1 ==> r == Ok::<i32, Error>(ret),
{
    if ret == -1 {
        Err(Error::last_os(errno))
    } else {
        Ok(ret)
    }
}

/// Map a libc `ssize_t` return: `-1` is failure (carrying `errno`, read
/// right after the call), else the byte count.
pub fn cvt_ssize(ret: isize, errno: i32) -> (r: Result<usize, Error>)
    ensures
        ret == -1 ==> r == Err::<usize, Error>(Error::Os(Errno(errno))),
        ret != -1 ==> r == Ok::<usize, Error>(ret as usize),
{
    if ret == -1 {
        Err(Error::last_os(errno))
    } else {
        Ok(ret as usize)
    }
}

/// Map a libc pointer return where a null pointer (`None`) signals failure,
/// carrying `errno`, read right after the call.
pub fn cvt_ptr<T>(ptr: Option<T>, errno: i32) -> (r: Result<T, Error>)
    ensures
        ptr is None ==> r == Err::<T, Error>(Error::Os(Errno(errno))),
        ptr matches Some(p) ==> r == Ok::<T, Error>(p),
{
    match ptr {
        None => Err(Error::last_os(errno)),
        Some(p) => Ok(p),
    }
}

} // verus!

verus! {

/// A C string reads back as the string: its first NUL is right after the
/// string's bytes, which are unchanged before it.
pub proof fn law_c_string_reads_back(s: Seq<u8>)
    requires
        !s.contains(0u8),
    ensures
        crate::text::find_first(c_string(s), seq![0u8]) == Some(s.len() as int),
        c_string(s).take(s.len() as int) == s,
{
    let c = c_string(s);
    assert(c.subrange(s.len() as int, s.len() + 1int) =~= seq![0u8]);
    assert forall|i: int| 0 <= i < s.len() implies !#[trigger] crate::text::matches_at(
        c,
        seq![0u8],
        i,
    ) by {
        if crate::text::matches_at(c, seq![0u8], i) {
            assert(c.subrange(i, i + 1)[0] == c[i]);
            assert(s[i] == 0u8);
        }
    }
    crate::text::lemma_find_first_is(c, seq![0u8], s.len() as int);
    assert(c.take(s.len() as int) =~= s);
}

} // verus!
