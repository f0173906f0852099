//! Exported descriptors: opaque blobs, made by one process and imported by
//! another.

use vstd::prelude::*;
use vstd::string::*;

use crate::call::{Call, Effect, Kind, Object, Reply, Step};
use crate::error::{check_status, null_err, Error, ErrorView, Result};
use crate::ffi::{Addr, URMA_SUCCESS};
use crate::operation;
use crate::operation::{Operation, Request};
use crate::session::Session;
use crate::text;
use crate::text::push_decimal;
use crate::tree;

verus! {

/// The size of a `urma_seg_t`: what an exported segment context starts with.
pub const SEG_SIZE: usize = 48;

/// The size of a `urma_rjetty_t`: what an exported jetty descriptor starts with.
pub const RJETTY_SIZE: usize = 48;

/// Where the tp_type is in a `urma_rjetty_t`.
pub const RJETTY_TP_TYPE_OFFSET: usize = 40;

/// The order in which the machine keeps the bytes of a word.
#[derive(Clone, Copy, PartialEq, Eq, Structural, Debug)]
pub enum ByteOrder {
    /// The least significant byte comes first
    Little,
    /// The most significant byte comes first
    Big,
}

/* ============================== Words and bytes ============================== */

/// The byte of a word that stands `j` places from its start in memory.
pub open spec fn word_byte(w: u64, j: int, order: ByteOrder) -> u8 {
    let place = match order {
        ByteOrder::Little => j,
        ByteOrder::Big => 7 - j,
    };
    (w >> (8 * place) as u64) as u8
}

/// The byte of a half word that stands `j` places from its start in memory.
pub open spec fn half_byte(v: u32, j: int, order: ByteOrder) -> u8 {
    let place = match order {
        ByteOrder::Little => j,
        ByteOrder::Big => 3 - j,
    };
    (v >> (8 * place) as u32) as u8
}

/// The bytes that the words are in memory.
pub open spec fn image(words: Seq<u64>, order: ByteOrder) -> Seq<u8> {
    Seq::new(8 * words.len(), |i: int| word_byte(words[i / 8], i % 8, order))
}

/// The bytes, with zeros behind them up to a multiple of eight.
pub open spec fn padded(bytes: Seq<u8>) -> Seq<u8> {
    Seq::new(
        (8 * words_for(bytes.len() as int)) as nat,
        |i: int| byte_at(bytes, i),
    )
}

/// The byte at `i`, or zero behind the end.
pub open spec fn byte_at(bytes: Seq<u8>, i: int) -> u8 {
    if i < bytes.len() {
        bytes[i]
    } else {
        0u8
    }
}

/// Nothing of a blob is lost when it is aligned, and what follows it is zero.
pub proof fn law_aligned_blob_is_whole(bytes: Seq<u8>)
    ensures
        padded(bytes).len() >= bytes.len(),
        padded(bytes).len() < bytes.len() + 8,
        padded(bytes).take(bytes.len() as int) == bytes,
        forall|i: int| bytes.len() <= i < padded(bytes).len() ==> #[trigger] padded(bytes)[i] == 0,
{
    assert(padded(bytes).take(bytes.len() as int) =~= bytes);
}

/// How many words hold `n` bytes.
pub open spec fn words_for(n: int) -> int {
    (n + 7) / 8
}

/// Eight bytes as a word, the least significant first.
fn join(b: [u8; 8]) -> (w: u64)
    ensures
        forall|k: int| 0 <= k < 8 ==> (w >> (8 * k) as u64) as u8 == #[trigger] b@[k],
{
    let (b0, b1, b2, b3, b4, b5, b6, b7): (u64, u64, u64, u64, u64, u64, u64, u64) = (
        b[0] as u64,
        b[1] as u64,
        b[2] as u64,
        b[3] as u64,
        b[4] as u64,
        b[5] as u64,
        b[6] as u64,
        b[7] as u64,
    );
    let w: u64 = b0 | (b1 << 8) | (b2 << 16) | (b3 << 24) | (b4 << 32) | (b5 << 40) | (b6 << 48) | (
    b7 << 56);
    proof {
        assert(b0 < 256 && b1 < 256 && b2 < 256 && b3 < 256 && b4 < 256 && b5 < 256 && b6 < 256
            && b7 < 256 && w == b0 | (b1 << 8) | (b2 << 16) | (b3 << 24) | (b4 << 32) | (b5 << 40)
            | (b6 << 48) | (b7 << 56) ==> (w >> 0) as u8 == b0 as u8 && (w >> 8) as u8 == b1 as u8
            && (w >> 16) as u8 == b2 as u8 && (w >> 24) as u8 == b3 as u8 && (w >> 32) as u8
            == b4 as u8 && (w >> 40) as u8 == b5 as u8 && (w >> 48) as u8 == b6 as u8 && (w
            >> 56) as u8 == b7 as u8) by (bit_vector);
        assert forall|k: int| 0 <= k < 8 implies (w >> (8 * k) as u64) as u8 == #[trigger] b@[k] by {
            assert(k == 0 || k == 1 || k == 2 || k == 3 || k == 4 || k == 5 || k == 6 || k == 7);
        }
    }
    w
}

/// Eight bytes as the word that they are in memory.
fn load(b: [u8; 8], order: ByteOrder) -> (w: u64)
    ensures
        forall|j: int| 0 <= j < 8 ==> word_byte(w, j, order) == #[trigger] b@[j],
{
    match order {
        ByteOrder::Little => {
            let w: u64 = join(b);
            assert forall|j: int| 0 <= j < 8 implies word_byte(w, j, order) == #[trigger] b@[j] by {}
            w
        },
        ByteOrder::Big => {
            let turned: [u8; 8] = [b[7], b[6], b[5], b[4], b[3], b[2], b[1], b[0]];
            let w: u64 = join(turned);
            assert forall|j: int| 0 <= j < 8 implies word_byte(w, j, order) == #[trigger] b@[j] by {
                assert(turned@[7 - j] == b@[j]);
            }
            w
        },
    }
}

/// See [`byte_at`].
fn byte_or_zero(bytes: &[u8], i: usize) -> (b: u8)
    ensures
        b == byte_at(bytes@, i as int),
{
    if i < bytes.len() {
        bytes[i]
    } else {
        0
    }
}

/// The bytes as words that are aligned for any C struct: in memory the words are
/// the bytes, with zeros behind them.
pub fn align_words(bytes: &[u8], order: ByteOrder) -> (words: Vec<u64>)
    ensures
        words@.len() == words_for(bytes@.len() as int),
        image(words@, order) == padded(bytes@),
{
    let len: usize = bytes.len();
    let n: usize = len / 8 + if len % 8 != 0 {
        1
    } else {
        0
    };
    let mut words: Vec<u64> = Vec::new();
    let mut k: usize = 0;
    while k < n
        invariant
            k <= n,
            len == bytes@.len(),
            n == words_for(len as int),
            words@.len() == k,
            forall|i: int|
                0 <= i < 8 * k ==> #[trigger] word_byte(words@[i / 8], i % 8, order)
                    == byte_at(bytes@, i),
        decreases n - k,
    {
        let ghost before = words@;
        let rest = vstd::slice::slice_subrange(bytes, 8 * k, len);
        let b: [u8; 8] = [
            byte_or_zero(rest, 0),
            byte_or_zero(rest, 1),
            byte_or_zero(rest, 2),
            byte_or_zero(rest, 3),
            byte_or_zero(rest, 4),
            byte_or_zero(rest, 5),
            byte_or_zero(rest, 6),
            byte_or_zero(rest, 7),
        ];
        words.push(load(b, order));
        assert forall|i: int| 0 <= i < 8 * (k + 1) implies #[trigger] word_byte(
            words@[i / 8],
            i % 8,
            order,
        ) == byte_at(bytes@, i) by {
            if i < 8 * k {
                assert(words@[i / 8] == before[i / 8]);
                assert(word_byte(before[i / 8], i % 8, order) == byte_at(bytes@, i));
            } else {
                assert(i / 8 == k && i % 8 == i - 8 * k);
                assert(word_byte(words@[k as int], i - 8 * k, order) == b@[i - 8 * k]);
            }
        }
        k += 1;
    }
    assert(image(words@, order) =~= padded(bytes@));
    words
}

/// Write `v` over the four bytes at `offset`, which is a multiple of eight.
pub fn put_half(words: &mut Vec<u64>, offset: usize, v: u32, order: ByteOrder)
    requires
        offset % 8 == 0,
        offset / 8 < old(words)@.len(),
    ensures
        final(words)@.len() == old(words)@.len(),
        image(final(words)@, order) == overwritten(
            image(old(words)@, order),
            offset as int,
            v,
            order,
        ),
{
    let k: usize = offset / 8;
    let w: u64 = words[k];
    let x: u64 = v as u64;
    let patched: u64 = match order {
        ByteOrder::Little => (w & 0xffff_ffff_0000_0000) | x,
        ByteOrder::Big => (w & 0xffff_ffff) | (x << 32),
    };
    words.set(k, patched);
    proof {
        assert forall|i: int| 0 <= i < 8 * words@.len() implies image(words@, order)[i]
            == overwritten(image(old(words)@, order), offset as int, v, order)[i] by {
            if i / 8 == k {
                lemma_patched(w, v, patched, i % 8, order);
            }
        }
        assert(image(words@, order) =~= overwritten(
            image(old(words)@, order),
            offset as int,
            v,
            order,
        ));
    }
}

/// The bytes with the four at `offset` replaced by those of `v`.
pub open spec fn overwritten(bytes: Seq<u8>, offset: int, v: u32, order: ByteOrder) -> Seq<u8> {
    Seq::new(
        bytes.len(),
        |i: int| if offset <= i < offset + 4 {
            half_byte(v, i - offset, order)
        } else {
            bytes[i]
        },
    )
}

/// What the first half of a word is replaced by, and that the other half stays.
proof fn lemma_patched(w: u64, v: u32, patched: u64, j: int, order: ByteOrder)
    requires
        0 <= j < 8,
        patched == match order {
            ByteOrder::Little => (w & 0xffff_ffff_0000_0000) | (v as u64),
            ByteOrder::Big => (w & 0xffff_ffff) | ((v as u64) << 32),
        },
    ensures
        word_byte(patched, j, order) == if j < 4 {
            half_byte(v, j, order)
        } else {
            word_byte(w, j, order)
        },
{
    match order {
        ByteOrder::Little => {
            assert(patched == (w & 0xffff_ffff_0000_0000) | (v as u64) ==> (patched >> 0) as u8
                == (v >> 0) as u8 && (patched >> 8) as u8 == (v >> 8) as u8 && (patched
                >> 16) as u8 == (v >> 16) as u8 && (patched >> 24) as u8 == (v >> 24) as u8 && (
            patched >> 32) as u8 == (w >> 32) as u8 && (patched >> 40) as u8 == (w >> 40) as u8 && (
            patched >> 48) as u8 == (w >> 48) as u8 && (patched >> 56) as u8 == (w >> 56) as u8)
                by (bit_vector);
        },
        ByteOrder::Big => {
            assert(patched == (w & 0xffff_ffff) | ((v as u64) << 32) ==> (patched >> 0) as u8 == (w
                >> 0) as u8 && (patched >> 8) as u8 == (w >> 8) as u8 && (patched >> 16) as u8 == (w
                >> 16) as u8 && (patched >> 24) as u8 == (w >> 24) as u8 && (patched >> 32) as u8
                == (v >> 0) as u8 && (patched >> 40) as u8 == (v >> 8) as u8 && (patched
                >> 48) as u8 == (v >> 16) as u8 && (patched >> 56) as u8 == (v >> 24) as u8)
                by (bit_vector);
        },
    }
    assert(j == 0 || j == 1 || j == 2 || j == 3 || j == 4 || j == 5 || j == 6 || j == 7);
}

/* ============================== Too short ============================== */

/// A blob of `len` bytes is too short to hold what it should.
pub open spec fn too_short(what: Seq<char>, len: int, min: int) -> ErrorView {
    ErrorView::Invalid(
        what + " blob too short: "@ + text::decimal(len) + " < "@ + text::decimal(min),
    )
}

/// See [`too_short`].
pub fn too_short_err(what: &str, len: usize, min: usize) -> (r: Error)
    ensures
        r@ == too_short(what@, len as int, min as int),
{
    let mut s = String::new();
    s.append(what);
    s.append(" blob too short: ");
    push_decimal(&mut s, len as u64);
    s.append(" < ");
    push_decimal(&mut s, min as u64);
    assert(s@ =~= what@ + " blob too short: "@ + text::decimal(len as int) + " < "@ + text::decimal(
        min as int,
    ));
    Error::Invalid(s)
}

/* ============================== Export ============================== */

/// What is exported.
#[derive(Clone, Copy, PartialEq, Eq, Structural, Debug)]
pub enum BlobSource {
    /// A segment context
    SegCtx,
    /// The descriptor of a jetty for its importers
    Rjetty,
}

/// Where an export stands.
pub enum ExportStage {
    /// The library is asked for the blob
    Get,
    /// The blob is copied and given back to the library
    Put { addr: Addr, bytes: Vec<u8> },
}

/// A descriptor is being exported.
pub struct BlobExport {
    pub source: BlobSource,
    /// The segment or jetty that is described
    pub node: usize,
    /// Its `urma_target_seg_t` or `urma_jetty_t`
    pub target: Addr,
    pub stage: ExportStage,
}

impl BlobSource {
    /// The C function that makes the blob.
    pub open spec fn getter(self) -> Seq<char> {
        match self {
            BlobSource::SegCtx => "urma_get_seg_ctx"@,
            BlobSource::Rjetty => "urma_get_rjetty"@,
        }
    }

    /// What the blob is called.
    pub open spec fn title(self) -> Seq<char> {
        match self {
            BlobSource::SegCtx => "seg ctx"@,
            BlobSource::Rjetty => "rjetty"@,
        }
    }

    /// The size of the C struct that the blob starts with.
    pub open spec fn min(self) -> usize {
        match self {
            BlobSource::SegCtx => SEG_SIZE,
            BlobSource::Rjetty => RJETTY_SIZE,
        }
    }

    pub open spec fn kind(self) -> Kind {
        match self {
            BlobSource::SegCtx => Kind::SegBlob,
            BlobSource::Rjetty => Kind::RjettyBlob,
        }
    }

    /// The call that gives the blob at `addr` back.
    pub open spec fn put_call(self, addr: Addr) -> Call {
        match self {
            BlobSource::SegCtx => Call::PutSegCtx { seg: addr },
            BlobSource::Rjetty => Call::PutRjetty { rjetty: addr },
        }
    }

    fn getter_name(self) -> (r: &'static str)
        ensures
            r@ == self.getter(),
    {
        match self {
            BlobSource::SegCtx => "urma_get_seg_ctx",
            BlobSource::Rjetty => "urma_get_rjetty",
        }
    }

    /// Whether a copied blob is long enough: the blob, or the error.
    pub fn check_blob(self, bytes: Vec<u8>) -> (r: Result<Vec<u8>>)
        ensures
            match r {
                Ok(blob) => bytes@.len() >= self.min() && blob == bytes,
                Err(e) => bytes@.len() < self.min() && e@ == too_short(
                    self.title(),
                    bytes@.len() as int,
                    self.min() as int,
                ),
            },
    {
        let (what, min): (&'static str, usize) = match self {
            BlobSource::SegCtx => ("seg ctx", SEG_SIZE),
            BlobSource::Rjetty => ("rjetty", RJETTY_SIZE),
        };
        if bytes.len() < min {
            Err(too_short_err(what, bytes.len(), min))
        } else {
            Ok(bytes)
        }
    }
}

impl Request for BlobExport {
    type Output = Vec<u8>;

    open spec fn held(&self) -> Set<Object> {
        match self.stage {
            ExportStage::Get => Set::empty(),
            ExportStage::Put { addr, .. } => set![Object { kind: self.source.kind(), addr }],
        }
    }

    open spec fn effect(&self) -> Effect {
        match self.stage {
            ExportStage::Get => Effect::Make(self.source.kind()),
            ExportStage::Put { addr, .. } => Effect::GiveBack(
                Object { kind: self.source.kind(), addr },
            ),
        }
    }

    open spec fn initializes(&self) -> bool {
        false
    }

    open spec fn awaits(&self, reply: &Reply) -> bool {
        match self.stage {
            ExportStage::Get => reply is Blob,
            ExportStage::Put { .. } => reply is Done,
        }
    }

    open spec fn ready(&self, session: &Session) -> bool {
        match self.source {
            BlobSource::SegCtx => tree::seg_at(session.tree(), self.node, self.target),
            BlobSource::Rjetty => tree::jetty_at(session.tree(), self.node, self.target),
        }
    }

    open spec fn rank(&self) -> nat {
        match self.stage {
            ExportStage::Get => 1,
            ExportStage::Put { .. } => 0,
        }
    }

    open spec fn kept(output: &Vec<u8>, session: &Session) -> Set<Object> {
        Set::empty()
    }

    open spec fn follows(
        &self,
        reply: Reply,
        r: Step<BlobExport, Vec<u8>>,
        before: &Session,
        after: &Session,
    ) -> bool {
        match (self.stage, reply) {
            (ExportStage::Get, Reply::Blob { status, addr, errno, bytes }) => if status
                != URMA_SUCCESS {
                operation::fails(
                    r,
                    ErrorView::Status(status, self.source.getter()),
                    before,
                    after,
                )
            } else if addr == 0 {
                operation::fails(r, ErrorView::Null(self.source.getter(), errno), before, after)
            } else {
                operation::asks(
                    r,
                    BlobExport { stage: ExportStage::Put { addr, bytes }, ..*self },
                    self.source.put_call(addr),
                    before,
                    after,
                )
            },
            (ExportStage::Put { bytes, .. }, Reply::Done) => if bytes@.len() < self.source.min() {
                operation::fails(
                    r,
                    too_short(
                        self.source.title(),
                        bytes@.len() as int,
                        self.source.min() as int,
                    ),
                    before,
                    after,
                )
            } else {
                r == Step::<BlobExport, Vec<u8>>::Done(Ok(bytes)) && *after == *before
            },
            _ => false,
        }
    }
}

impl Operation for BlobExport {
    proof fn accounts(
        &self,
        reply: Reply,
        r: Step<BlobExport, Vec<u8>>,
        before: &Session,
        after: &Session,
    ) {
    }

    fn step(self, session: &mut Session, reply: Reply) -> (r: Step<BlobExport, Vec<u8>>) {
        let (source, node, target) = (self.source, self.node, self.target);
        match self.stage {
            ExportStage::Get => match reply {
                Reply::Blob { status, addr, errno, bytes } => {
                    if let Err(e) = check_status(status, source.getter_name()) {
                        return Step::Done(Err(e));
                    }
                    if addr == 0 {
                        return Step::Done(Err(null_err(source.getter_name(), errno)));
                    }
                    let put = match source {
                        BlobSource::SegCtx => Call::PutSegCtx { seg: addr },
                        BlobSource::Rjetty => Call::PutRjetty { rjetty: addr },
                    };
                    let stage = ExportStage::Put { addr, bytes };
                    Step::Ask(BlobExport { source, node, target, stage }, put)
                },
                _ => vstd::pervasive::unreached(),
            },
            ExportStage::Put { bytes, .. } => Step::Done(source.check_blob(bytes)),
        }
    }
}

} // verus!
