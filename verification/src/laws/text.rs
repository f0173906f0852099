//! Numbers, identifiers and errors as text.

use vstd::prelude::*;
use vstd::string::*;

use crate::error;
use crate::error::{check_status, null_err, Error, ErrorView, Result};
use crate::ffi::{urma_eid_t, urma_jetty_id_t, URMA_SUCCESS};
use crate::text;
use crate::text::{push_decimal, push_hex, push_hex_byte, push_signed};
use crate::urma::value;
use crate::urma::value::{Eid, JettyId};

verus! {

/* ============================== Numbers ============================== */

/// What a digit counts: the decimal ones, and the lower-case hexadecimal ones.
pub open spec fn digit_value(c: char) -> int {
    if '0' <= c <= '9' {
        c as int - '0' as int
    } else if 'a' <= c <= 'f' {
        c as int - 'a' as int + 10
    } else {
        -1
    }
}

/// The number that a row of digits stands for.
pub open spec fn number(s: Seq<char>, base: int) -> int
    decreases s.len(),
{
    if s.len() == 0 {
        0
    } else {
        number(s.drop_last(), base) * base + digit_value(s.last())
    }
}

/// The text is how `n` is written in that base: digits of the base, that stand for
/// it, and no zero in front of others.
pub open spec fn writes(s: Seq<char>, n: int, base: int) -> bool {
    &&& s.len() > 0
    &&& forall|i: int| 0 <= i < s.len() ==> 0 <= digit_value(#[trigger] s[i]) < base
    &&& number(s, base) == n
    &&& s.len() > 1 ==> s[0] != '0'
}

proof fn lemma_digit(d: int)
    requires
        0 <= d < 16,
    ensures
        digit_value(text::digit_char(d)) == d,
        d != 0 ==> text::digit_char(d) != '0',
{
}

proof fn lemma_digits(n: nat, base: nat)
    requires
        base == 10 || base == 16,
    ensures
        writes(text::digits(n, base), n as int, base as int),
        n > 0 ==> text::digits(n, base)[0] != '0',
    decreases n,
{
    reveal_with_fuel(number, 2);
    let s = text::digits(n, base);
    if n < base {
        lemma_digit(n as int);
        assert(s.drop_last() =~= seq![]);
    } else {
        let high = n / base;
        let low = n % base;
        vstd::arithmetic::div_mod::lemma_div_decreases(n as int, base as int);
        vstd::arithmetic::div_mod::lemma_fundamental_div_mod(n as int, base as int);
        vstd::arithmetic::div_mod::lemma_mod_bound(n as int, base as int);
        assert(high >= 1) by {
            vstd::arithmetic::div_mod::lemma_div_is_ordered(
                base as int,
                n as int,
                base as int,
            );
            vstd::arithmetic::div_mod::lemma_div_by_self(base as int);
        }
        lemma_digits(high, base);
        lemma_digit(low as int);
        let h = text::digits(high, base);
        assert(s == h.push(text::digit_char(low as int)));
        assert(s.drop_last() =~= h);
        assert(s.last() == text::digit_char(low as int));
        assert(number(h, base as int) * base == base * high) by (nonlinear_arith)
            requires
                number(h, base as int) == high,
        ;
        assert forall|i: int| 0 <= i < s.len() implies 0 <= digit_value(#[trigger] s[i])
            < base by {
            if i < h.len() {
                assert(s[i] == h[i]);
            }
        }
        assert(s[0] == h[0]);
    }
}

/// A number in decimal is written as such, with a sign in front if it is negative.
pub proof fn law_decimal_writes_the_number(n: int)
    ensures
        n >= 0 ==> writes(text::decimal(n), n, 10),
        n < 0 ==> {
            &&& text::decimal(n).len() > 1
            &&& text::decimal(n)[0] == '-'
            &&& writes(text::decimal(n).drop_first(), -n, 10)
        },
{
    if n < 0 {
        lemma_digits((-n) as nat, 10);
        assert(text::decimal(n).drop_first() =~= text::digits((-n) as nat, 10));
    } else {
        lemma_digits(n as nat, 10);
    }
}

/// A number in hexadecimal is written as such.
pub proof fn law_hex_writes_the_number(n: nat)
    ensures
        writes(text::hex(n), n as int, 16),
{
    lemma_digits(n, 16);
}

/// A byte is written as two hexadecimal digits, the higher one first.
pub proof fn law_hex_byte_writes_the_byte(b: u8)
    ensures
        text::hex_byte(b).len() == 2,
        digit_value(text::hex_byte(b)[0]) == b as int / 16,
        digit_value(text::hex_byte(b)[1]) == b as int % 16,
{
    lemma_digit(b as int / 16);
    lemma_digit(b as int % 16);
}

/// What is appended to a text is the number, and the text before it stays.
pub proof fn law_numbers_are_appended(
    dec: &mut String,
    n: u64,
    sig: &mut String,
    i: i32,
    hex: &mut String,
    byte: &mut String,
    b: u8,
)
    requires
        call_ensures(push_decimal, (dec, n), ()),
        call_ensures(push_signed, (sig, i), ()),
        call_ensures(push_hex, (hex, n), ()),
        call_ensures(push_hex_byte, (byte, b), ()),
    ensures
        final(dec)@ == old(dec)@ + text::decimal(n as int),
        final(sig)@ == old(sig)@ + text::decimal(i as int),
        final(hex)@ == old(hex)@ + text::hex(n as nat),
        final(byte)@ == old(byte)@ + text::hex_byte(b),
{
}

/* ============================== Identifiers ============================== */

/// The group `k` of an EID's text: two bytes, each as two digits.
pub open spec fn shows_group(t: Seq<char>, raw: Seq<u8>, k: int) -> bool {
    &&& digit_value(t[5 * k]) == raw[2 * k] as int / 16
    &&& digit_value(t[5 * k + 1]) == raw[2 * k] as int % 16
    &&& digit_value(t[5 * k + 2]) == raw[2 * k + 1] as int / 16
    &&& digit_value(t[5 * k + 3]) == raw[2 * k + 1] as int % 16
}

/// Group `k` is followed by a colon.
pub open spec fn colon_after(t: Seq<char>, k: int) -> bool {
    t[5 * k + 4] == ':'
}

/// The text of an EID: eight groups, with colons between them.
pub open spec fn shows_eid(t: Seq<char>, raw: Seq<u8>) -> bool {
    &&& t.len() == 39
    &&& forall|k: int| 0 <= k < 8 ==> #[trigger] shows_group(t, raw, k)
    &&& forall|k: int| 0 <= k < 7 ==> #[trigger] colon_after(t, k)
}

proof fn lemma_pairs(raw: Seq<u8>, n: nat)
    requires
        0 < n <= 8,
        raw.len() == 16,
    ensures
        value::pairs_text(raw, n).len() == 5 * n - 1,
        forall|k: int| 0 <= k < n ==> #[trigger] shows_group(value::pairs_text(raw, n), raw, k),
        forall|k: int| 0 <= k < n - 1 ==> #[trigger] colon_after(value::pairs_text(raw, n), k),
    decreases n,
{
    reveal_with_fuel(value::pairs_text, 2);
    let t = value::pairs_text(raw, n);
    let (a, b) = (raw[2 * n - 2], raw[2 * n - 1]);
    law_hex_byte_writes_the_byte(a);
    law_hex_byte_writes_the_byte(b);
    if n == 1 {
        assert(t =~= text::hex_byte(a) + text::hex_byte(b));
    } else {
        let m = (n - 1) as nat;
        let before = value::pairs_text(raw, m);
        lemma_pairs(raw, m);
        assert(t =~= before.push(':') + text::hex_byte(a) + text::hex_byte(b));
        assert forall|k: int| 0 <= k < n - 1 implies #[trigger] colon_after(t, k) by {
            if k < m - 1 {
                assert(colon_after(before, k));
            }
        }
        assert forall|k: int| 0 <= k < n implies #[trigger] shows_group(t, raw, k) by {
            if k < m {
                assert(shows_group(before, raw, k));
            }
        }
    }
}

/// See [`shows_eid`].
pub proof fn law_eid_is_shown_in_groups(eid: &Eid, r: String)
    requires
        call_ensures(Eid::to_string, (eid,), r),
    ensures
        shows_eid(r@, eid.0@),
{
    lemma_pairs(eid.0@, 8);
}

/// The debug output of a raw EID shows what the EID shows, in brackets.
pub proof fn law_raw_eid_is_shown_as_the_eid(raw: &urma_eid_t, eid: &Eid, t: String, r: String)
    requires
        eid.0 == raw.raw,
        call_ensures(Eid::to_string, (eid,), t),
        call_ensures(urma_eid_t::to_debug_string, (raw,), r),
    ensures
        r@ == "urma_eid_t("@ + t@ + ")"@,
{
}

/// An identifier is the library's, field by field, on both sides.
pub proof fn law_jetty_id_is_the_librarys(raw: &urma_jetty_id_t, id: JettyId, back: urma_jetty_id_t)
    requires
        call_ensures(JettyId::from_raw, (raw,), id),
        call_ensures(JettyId::to_raw, (id,), back),
    ensures
        id.eid.0 == raw.eid.raw,
        id.uasid == raw.uasid,
        id.id == raw.id,
        back.eid.raw == raw.eid.raw,
        back.uasid == raw.uasid,
        back.id == raw.id,
{
}

/* ============================== Errors ============================== */

/// What is said of an error is what is in it.
pub proof fn law_error_is_seen_whole(e: Error)
    ensures
        e matches Error::NotFound(m) ==> e@ == ErrorView::NotFound(m@),
        e matches Error::Null(what, errno) ==> e@ == ErrorView::Null(what@, errno),
        e matches Error::Status(st, what) ==> e@ == ErrorView::Status(st, what@),
        e matches Error::PollTimeout { user_ctx } ==> e@ == (ErrorView::PollTimeout { user_ctx }),
        e matches Error::BadCompletion { status, user_ctx } ==> e@ == (ErrorView::BadCompletion {
            status,
            user_ctx,
        }),
        e matches Error::Invalid(m) ==> e@ == ErrorView::Invalid(m@),
        e matches Error::Io(io) ==> e@ == ErrorView::Io(io),
{
}

/// The text of an error names what failed and shows the numbers that came with it.
/// `words` are the platform's own, for the errors that have such.
pub open spec fn says(t: Seq<char>, e: Error, words: Seq<char>) -> bool {
    match e {
        Error::NotFound(m) => t == "not found: "@ + m@,
        Error::Null(what, errno) => {
            &&& errno == 0 ==> t == what@ + " returned NULL"@
            &&& errno != 0 ==> t == what@ + " returned NULL (errno "@ + text::decimal(errno as int)
                + ": "@ + words + ")"@
        },
        Error::Status(st, what) => t == what@ + " failed, status "@ + text::decimal(st as int),
        Error::PollTimeout { user_ctx } => t == "poll completion timeout (user_ctx 0x"@ + text::hex(
            user_ctx as nat,
        ) + ")"@,
        Error::BadCompletion { status, user_ctx } => t == "bad completion (status "@
            + text::decimal(status as int) + ", user_ctx 0x"@ + text::hex(user_ctx as nat) + ")"@,
        Error::Invalid(m) => t == "invalid: "@ + m@,
        Error::Io(_) => t == "io: "@ + words,
    }
}

/// See [`says`].
pub proof fn law_error_text_says_what_failed(e: &Error, os_text: &str, r: String)
    requires
        call_ensures(Error::render, (e, os_text), r),
    ensures
        says(r@, *e, os_text@),
{
}

/// An error is shown with the words that the platform has for its errno, or that an
/// I/O error has for itself.
pub proof fn law_error_is_shown(e: &Error, r: String)
    requires
        call_ensures(Error::to_string, (e,), r),
    ensures
        *e matches Error::Io(io) ==> exists|t: String| #[trigger]
            to_string_from_display_ensures::<std::io::Error>(&io, t) && says(r@, *e, t@),
        *e matches Error::Null(_, errno) ==> errno != 0 ==> exists|t: String| #[trigger]
            error::os_words(errno, t) && says(r@, *e, t@),
        *e matches Error::Null(_, errno) ==> errno == 0 ==> says(r@, *e, Seq::empty()),
        !(e is Io) && !(e is Null) ==> says(r@, *e, Seq::empty()),
{
}

/// A status is an error exactly if it is not success; the error has the status and
/// the name of the call.
pub proof fn law_status_is_checked(st: i32, what: &'static str, r: Result<()>)
    requires
        call_ensures(check_status, (st, what), r),
    ensures
        st == URMA_SUCCESS ==> r is Ok,
        st != URMA_SUCCESS ==> (r matches Err(e) && e@ == ErrorView::Status(st, what@)),
{
}

/// An I/O error is carried as it is.
pub proof fn law_io_error_is_carried(e: std::io::Error, r: Error)
    requires
        call_ensures(<Error as From<std::io::Error>>::from, (e,), r),
    ensures
        r == Error::Io(e),
{
}

/// The error of a NULL has the name of the call and the errno found after it.
pub proof fn law_null_keeps_its_errno(what: &'static str, errno: i32, r: Error)
    requires
        call_ensures(null_err, (what, errno), r),
    ensures
        r@ == ErrorView::Null(what@, errno),
{
}

} // verus!
