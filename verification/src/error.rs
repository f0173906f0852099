//! Error types.

use vstd::prelude::*;
use vstd::string::*;

use crate::ffi::URMA_SUCCESS;
use crate::text;
use crate::text::{push_hex, push_signed};

verus! {

/// An I/O error of the standard library, carried as it is.
#[verifier::external_type_specification]
#[verifier::external_body]
pub struct ExIoError(std::io::Error);

/// What can go wrong in this crate.
#[derive(Debug)]
pub enum Error {
    /// Device missing etc., with a human-readable message
    NotFound(String),
    /// A create-style API returned NULL; errno is captured at the failure site
    /// (0 when the C library does not set one)
    Null(&'static str, i32),
    /// A urma call returned non-URMA_SUCCESS
    Status(i32, &'static str),
    /// Timed out polling for a completion
    PollTimeout { user_ctx: u64 },
    /// Completion check failed (status not SUCCESS or user_ctx mismatch)
    BadCompletion { status: i32, user_ctx: u64 },
    /// Invalid argument
    Invalid(String),
    /// IO (socket etc.)
    Io(std::io::Error),
}

pub type Result<T> = std::result::Result<T, Error>;

/// An [`Error`] with its messages as sequences of characters.
pub enum ErrorView {
    NotFound(Seq<char>),
    Null(Seq<char>, i32),
    Status(i32, Seq<char>),
    PollTimeout { user_ctx: u64 },
    BadCompletion { status: i32, user_ctx: u64 },
    Invalid(Seq<char>),
    Io(std::io::Error),
}

impl View for Error {
    type V = ErrorView;

    open spec fn view(&self) -> ErrorView {
        match *self {
            Error::NotFound(m) => ErrorView::NotFound(m@),
            Error::Null(what, errno) => ErrorView::Null(what@, errno),
            Error::Status(st, what) => ErrorView::Status(st, what@),
            Error::PollTimeout { user_ctx } => ErrorView::PollTimeout { user_ctx },
            Error::BadCompletion { status, user_ctx } => ErrorView::BadCompletion {
                status,
                user_ctx,
            },
            Error::Invalid(m) => ErrorView::Invalid(m@),
            Error::Io(e) => ErrorView::Io(e),
        }
    }
}

impl From<std::io::Error> for Error {
    fn from(e: std::io::Error) -> (r: Self) {
        Error::Io(e)
    }
}

impl vstd::std_specs::convert::FromSpecImpl<std::io::Error> for Error {
    open spec fn obeys_from_spec() -> bool {
        true
    }

    open spec fn from_spec(e: std::io::Error) -> Self {
        Error::Io(e)
    }
}

/// The text of an error, given what the platform says about its OS part.
/// `os_text` is the platform's text for the errno of [`Error::Null`] and for
/// the error inside [`Error::Io`]; the other errors do not use it.
pub open spec fn error_text(e: ErrorView, os_text: Seq<char>) -> Seq<char> {
    match e {
        ErrorView::NotFound(m) => "not found: "@ + m,
        ErrorView::Null(what, errno) => if errno == 0 {
            what + " returned NULL"@
        } else {
            what + " returned NULL (errno "@ + text::decimal(errno as int) + ": "@ + os_text + ")"@
        },
        ErrorView::Status(st, what) => what + " failed, status "@ + text::decimal(st as int),
        ErrorView::PollTimeout { user_ctx } => "poll completion timeout (user_ctx 0x"@ + text::hex(
            user_ctx as nat,
        ) + ")"@,
        ErrorView::BadCompletion { status, user_ctx } => "bad completion (status "@ + text::decimal(
            status as int,
        ) + ", user_ctx 0x"@ + text::hex(user_ctx as nat) + ")"@,
        ErrorView::Invalid(m) => "invalid: "@ + m,
        ErrorView::Io(_) => "io: "@ + os_text,
    }
}

/// `std::io::Error::from_raw_os_error`: the platform's error for an errno. What
/// the platform says of an errno depends on it, so nothing is said of the result.
pub assume_specification[ std::io::Error::from_raw_os_error ](code: i32) -> std::io::Error;

/// `t` is how the platform shows the error that it has for `errno`.
pub open spec fn os_words(errno: i32, t: String) -> bool {
    exists|e: std::io::Error|
        {
            &&& call_ensures(std::io::Error::from_raw_os_error, (errno,), e)
            &&& #[trigger] to_string_from_display_ensures::<std::io::Error>(&e, t)
        }
}

/// What the platform says of an errno.
fn os_error_text(errno: i32) -> (t: String)
    ensures
        os_words(errno, t),
{
    let from_raw = std::io::Error::from_raw_os_error;
    let e = from_raw(errno);
    let t = e.to_string();
    assert(call_ensures(std::io::Error::from_raw_os_error, (errno,), e));
    t
}

impl Error {
    /// The error as text, with the platform's own words already at hand.
    pub fn render(&self, os_text: &str) -> (r: String)
        ensures
            r@ == error_text(self@, os_text@),
    {
        let mut s = String::new();
        match self {
            Error::NotFound(m) => {
                s.append("not found: ");
                s.append(m.as_str());
            },
            Error::Null(what, errno) => {
                s.append(what);
                if *errno == 0 {
                    s.append(" returned NULL");
                } else {
                    s.append(" returned NULL (errno ");
                    push_signed(&mut s, *errno);
                    s.append(": ");
                    s.append(os_text);
                    s.append(")");
                }
            },
            Error::Status(st, what) => {
                s.append(what);
                s.append(" failed, status ");
                push_signed(&mut s, *st);
            },
            Error::PollTimeout { user_ctx } => {
                s.append("poll completion timeout (user_ctx 0x");
                push_hex(&mut s, *user_ctx);
                s.append(")");
            },
            Error::BadCompletion { status, user_ctx } => {
                s.append("bad completion (status ");
                push_signed(&mut s, *status);
                s.append(", user_ctx 0x");
                push_hex(&mut s, *user_ctx);
                s.append(")");
            },
            Error::Invalid(m) => {
                s.append("invalid: ");
                s.append(m.as_str());
            },
            Error::Io(_) => {
                s.append("io: ");
                s.append(os_text);
            },
        }
        assert(s@ =~= error_text(self@, os_text@));
        s
    }

    /// The error as text. An I/O error is shown in its own words, and an errno in
    /// those that the platform has for it.
    pub fn to_string(&self) -> (r: String)
        ensures
            match *self {
                Error::Io(e) => exists|t: String| #[trigger]
                    to_string_from_display_ensures::<std::io::Error>(&e, t) && r@ == error_text(
                        self@,
                        t@,
                    ),
                Error::Null(_, errno) if errno != 0 => exists|t: String| #[trigger]
                    os_words(errno, t) && r@ == error_text(self@, t@),
                _ => r@ == error_text(self@, Seq::empty()),
            },
    {
        let os_text = match self {
            Error::Null(_, errno) if *errno != 0 => os_error_text(*errno),
            Error::Io(e) => e.to_string(),
            _ => String::new(),
        };
        self.render(os_text.as_str())
    }
}

/// A urma call succeeded when it returned `URMA_SUCCESS`; any other status is
/// an error that names the call.
pub fn check_status(st: i32, what: &'static str) -> (r: Result<()>)
    ensures
        r is Ok <==> st == URMA_SUCCESS,
        r matches Err(e) ==> e@ == ErrorView::Status(st, what@),
{
    if st == URMA_SUCCESS {
        Ok(())
    } else {
        Err(Error::Status(st, what))
    }
}

/// The error of a call that returned NULL, with the errno found right after it.
pub fn null_err(what: &'static str, errno: i32) -> (r: Error)
    ensures
        r@ == ErrorView::Null(what@, errno),
{
    Error::Null(what, errno)
}

} // verus!
