//! Errors and their texts.

use urma_rs::error::{check_status, null_err};
use urma_rs::Error;

#[test]
fn each_error_has_its_text() {
    assert_eq!(
        Error::NotFound("no eid on device 'udma2'".to_string()).to_string(),
        "not found: no eid on device 'udma2'"
    );
    assert_eq!(Error::Null("urma_create_jfc", 0).to_string(), "urma_create_jfc returned NULL");
    assert_eq!(Error::Status(-22, "urma_init").to_string(), "urma_init failed, status -22");
    assert_eq!(Error::Status(4096, "urma_init").to_string(), "urma_init failed, status 4096");
    assert_eq!(
        Error::PollTimeout { user_ctx: 0xbeef }.to_string(),
        "poll completion timeout (user_ctx 0xbeef)"
    );
    assert_eq!(
        Error::BadCompletion { status: 12, user_ctx: 0 }.to_string(),
        "bad completion (status 12, user_ctx 0x0)"
    );
    assert_eq!(
        Error::BadCompletion { status: i32::MIN, user_ctx: u64::MAX }.to_string(),
        "bad completion (status -2147483648, user_ctx 0xffffffffffffffff)"
    );
    assert_eq!(Error::Invalid("x".to_string()).to_string(), "invalid: x");
}

#[test]
fn an_errno_is_explained_by_the_platform() {
    let errno = 2;
    let words = std::io::Error::from_raw_os_error(errno).to_string();
    assert_eq!(
        Error::Null("urma_import_seg", errno).to_string(),
        format!("urma_import_seg returned NULL (errno 2: {words})")
    );
    assert_eq!(
        Error::Null("f", -5).render("words"),
        "f returned NULL (errno -5: words)"
    );
}

#[test]
fn an_io_error_speaks_for_itself() {
    let e = Error::from(std::io::Error::other("socket closed"));
    assert_eq!(e.to_string(), "io: socket closed");
    assert!(matches!(e, Error::Io(_)));
}

#[test]
fn only_success_is_no_error() {
    assert!(check_status(0, "urma_init").is_ok());
    for st in [-1, 1, 17, 0x1000] {
        match check_status(st, "urma_init") {
            Err(Error::Status(s, what)) => {
                assert_eq!(s, st);
                assert_eq!(what, "urma_init");
            }
            _ => panic!("a status other than success is an error"),
        }
    }
}

#[test]
fn a_null_is_an_error_with_its_errno() {
    match null_err("urma_create_jfr", 12) {
        Error::Null(what, errno) => {
            assert_eq!(what, "urma_create_jfr");
            assert_eq!(errno, 12);
        }
        _ => panic!("a NULL is reported as such"),
    }
}
