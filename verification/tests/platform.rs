use ps5::error::{strerror_message, Errno, Error, SceError};
use ps5::fs::{
    dir_step, dirent_name, file_write_step, open_options_for_create, open_options_for_read,
    seek_args, seek_result, string_from_file_bytes, DirStep, Metadata, OpenOptions, SeekFrom,
    WriteStep, O_APPEND, O_CREAT, O_EXCL, O_RDONLY, O_RDWR, O_TRUNC, O_WRONLY,
};
use ps5::util::{cstr, cvt_i32, cvt_ptr, cvt_ssize};

#[test]
fn errno_predicates() {
    assert!(Errno(35).would_block());
    assert!(!Errno(4).would_block());
    assert!(Errno(4).interrupted());
    assert!(!Errno(35).interrupted());
    assert_eq!(Errno(9).code(), 9);
}

#[test]
fn error_constructors() {
    assert_eq!(Error::sce("sceNetInit", -5), Error::Sce(SceError { op: "sceNetInit", code: -5 }));
    assert_eq!(Error::gai(8), Error::Gai(8));
    assert_eq!(Error::Os(Errno(2)).errno(), Some(Errno(2)));
    assert_eq!(Error::Gai(2).errno(), None);
    assert_eq!(Error::from(Errno(4)), Error::Os(Errno(4)));
    assert!(Error::Os(Errno(4)).is_interrupted());
    assert!(!Error::Gai(4).is_interrupted());
    assert_eq!(Error::last_os(5), Error::Os(Errno(5)));
}

#[test]
fn error_texts() {
    assert_eq!(
        SceError { op: "sceHttp2SendRequest", code: -2137784319 }.message(),
        "sceHttp2SendRequest failed (sce 0x80940001)"
    );
    assert_eq!(SceError { op: "x", code: 255 }.message(), "x failed (sce 0x000000ff)");
    assert_eq!(Error::Os(Errno(2)).describe("No such file"), "No such file (errno 2)");
    assert_eq!(Error::Gai(-3).describe(""), "name resolution failed (EAI -3)");
    assert_eq!(Error::InvalidInput("bad").describe(""), "invalid input: bad");
    assert_eq!(Errno(13).describe("Permission denied"), "Permission denied (errno 13)");
    assert_eq!(strerror_message(None), "unknown error");
    assert_eq!(strerror_message(Some(b"Bad file")), "Bad file");
    assert_eq!(strerror_message(Some(b"\xff")), "invalid error message");
}

#[test]
fn c_strings() {
    assert_eq!(cstr("ab").unwrap(), b"ab\0".to_vec());
    assert_eq!(cstr("").unwrap(), b"\0".to_vec());
    assert_eq!(cstr("a\0b").unwrap_err(), Error::InvalidInput("string contains an interior NUL byte"));
}

#[test]
fn return_value_mapping() {
    assert_eq!(cvt_i32(3, 9).unwrap(), 3);
    assert_eq!(cvt_i32(-1, 9), Err(Error::Os(Errno(9))));
    assert_eq!(cvt_i32(-2, 9).unwrap(), -2);
    assert_eq!(cvt_ssize(10, 9).unwrap(), 10);
    assert_eq!(cvt_ssize(-1, 35), Err(Error::Os(Errno(35))));
    assert_eq!(cvt_ptr(Some(5u8), 9).unwrap(), 5);
    assert_eq!(cvt_ptr::<u8>(None, 2), Err(Error::Os(Errno(2))));
}

#[test]
fn open_flag_combinations() {
    assert_eq!(open_options_for_read().open_flags().unwrap(), O_RDONLY);
    assert_eq!(open_options_for_create().open_flags().unwrap(), O_WRONLY | O_CREAT | O_TRUNC);
    let mut o = OpenOptions::new();
    assert_eq!(
        o.open_flags().unwrap_err(),
        Error::InvalidInput("OpenOptions: no access mode set (need read and/or write)")
    );
    o.read(true).append(true);
    assert_eq!(o.open_flags().unwrap(), O_RDWR | O_APPEND);
    o.create_new(true).truncate(true).create(false);
    assert_eq!(o.open_flags().unwrap(), O_RDWR | O_APPEND | O_CREAT | O_EXCL);
    let mut w = OpenOptions::new();
    w.append(true);
    assert_eq!(w.access_flags().unwrap(), O_WRONLY);
}

#[test]
fn open_arguments() {
    let (path, flags, mode) = open_options_for_read().open_args("/data/x").unwrap();
    assert_eq!(path, b"/data/x\0".to_vec());
    assert_eq!(flags, O_RDONLY);
    assert_eq!(mode, 0o644);
    assert!(matches!(OpenOptions::new().open_args("a\0"), Err(Error::InvalidInput(m)) if m.contains("no access mode")));
    assert_eq!(
        open_options_for_read().open_args("a\0").unwrap_err(),
        Error::InvalidInput("string contains an interior NUL byte")
    );
}

#[test]
fn seek_arguments_and_results() {
    assert_eq!(seek_args(SeekFrom::Start(7)), (7, 0));
    assert_eq!(seek_args(SeekFrom::Current(-3)), (-3, 1));
    assert_eq!(seek_args(SeekFrom::End(-1)), (-1, 2));
    assert_eq!(seek_args(SeekFrom::Start(u64::MAX)), (-1, 0));
    assert_eq!(seek_result(42, 0).unwrap(), 42);
    assert_eq!(seek_result(-1, 29), Err(Error::Os(Errno(29))));
}

#[test]
fn file_write_steps() {
    assert!(matches!(file_write_step(0, 10, Ok(4)), WriteStep::Advance(4)));
    assert!(matches!(file_write_step(4, 10, Ok(6)), WriteStep::Advance(10)));
    assert!(matches!(
        file_write_step(4, 10, Ok(0)),
        WriteStep::Fail(Error::InvalidInput("write returned zero (failed to write whole buffer)"))
    ));
    assert!(matches!(file_write_step(0, 1, Err(Error::Gai(1))), WriteStep::Fail(Error::Gai(1))));
}

#[test]
fn metadata_queries() {
    let dir = Metadata { size: 0, mode: 0o040755 };
    assert!(dir.is_dir() && !dir.is_file() && dir.is_empty());
    let file = Metadata { size: 12, mode: 0o100644 };
    assert!(file.is_file() && !file.is_dir() && !file.is_empty());
    assert_eq!(file.len(), 12);
    assert_eq!(file.mode(), 0o100644);
    assert_eq!(Metadata { size: -1, mode: 0 }.len(), u64::MAX);
}

#[test]
fn directory_entries() {
    let mut raw = [0u8; 8];
    raw[..3].copy_from_slice(b"abc");
    assert_eq!(dirent_name(&raw, 3), "abc");
    assert_eq!(dirent_name(&raw, 2), "ab");
    assert_eq!(dirent_name(&raw, 200), "abc");
    assert_eq!(dirent_name(b"a\xffb", 3), "a\u{fffd}b");
    assert_eq!(dirent_name(b"x\xe2\x82\0zz", 6), "x\u{fffd}");
    assert_eq!(dirent_name(b"\xc3\xa9\xc3", 3), "\u{e9}\u{fffd}");
    assert!(matches!(dir_step(None, 0), DirStep::End));
    assert!(matches!(dir_step(None, 9), DirStep::Fail(Error::Os(Errno(9)))));
    assert!(matches!(dir_step(Some(".".to_string()), 0), DirStep::Skip));
    assert!(matches!(dir_step(Some("..".to_string()), 0), DirStep::Skip));
    match dir_step(Some("...".to_string()), 0) {
        DirStep::Entry(e) => assert_eq!(e.file_name(), "..."),
        _ => panic!("expected an entry"),
    }
}

#[test]
fn file_contents_as_text() {
    assert_eq!(string_from_file_bytes(b"hi \xc3\xa9".to_vec()).unwrap(), "hi \u{e9}");
    assert_eq!(
        string_from_file_bytes(vec![0xc3]).unwrap_err(),
        Error::InvalidInput("file contents are not valid UTF-8")
    );
}
