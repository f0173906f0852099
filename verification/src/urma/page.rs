//! Page-aligned buffers.

use vstd::arithmetic::power2;
use vstd::prelude::*;
use vstd::string::*;

use crate::call;
use crate::call::{Call, Effect, Kind, Object, Reply, Step};
use crate::error::{Error, ErrorView};
use crate::ffi::Addr;
use crate::operation;
use crate::operation::{Operation, Request};
use crate::session::Session;
use crate::tree::{Page, PAGE_SIZE};

verus! {

/// 4KB-aligned heap buffer. Plain `urma_register_seg` documents no alignment
/// requirement; page alignment is kept as cheap insurance (use [`PAGE_SIZE`],
/// never a magic 4096).
pub struct PageBuf {
    page: Page,
}

/// A page-aligned buffer is being allocated.
pub struct PageAlloc {
    pub size: usize,
}

/// `size`, rounded up to the nearest multiple of `align`.
pub open spec fn round_up(size: int, align: int) -> int {
    (size + align - 1) / align * align
}

/// Whether memory of this size and alignment has a layout: the alignment is a
/// power of two, and the size, rounded up to a multiple of it, does not exceed
/// `isize::MAX`.
pub open spec fn has_layout(size: usize, align: usize) -> bool {
    power2::is_pow2(align as int) && round_up(size as int, align as int) <= isize::MAX
}

/// The error of a layout, as the standard library has it.
#[verifier::external_type_specification]
#[verifier::external_body]
pub struct ExLayoutError(std::alloc::LayoutError);

/// `std::alloc::Layout::from_size_align`, of which only the error is kept. See
/// [`has_layout`] for when there is none.
#[verifier::external_body]
fn layout_fault(size: usize, align: usize) -> (r: Option<std::alloc::LayoutError>)
    ensures
        (r is None) == has_layout(size, align),
{
    std::alloc::Layout::from_size_align(size, align).err()
}

/// How large a buffer can be: rounded up to pages, its size has to fit in an
/// `isize`.
pub open spec fn fits_in_pages(len: usize) -> bool {
    round_up(len as int, PAGE_SIZE as int) <= isize::MAX
}

/// Why the layout of a buffer is bad, in the words `why`.
pub open spec fn bad_layout(why: Seq<char>) -> ErrorView {
    ErrorView::Invalid("bad layout: "@ + why)
}

/// The layout of a buffer is bad, in the words that the standard library has for
/// a layout error.
pub open spec fn is_bad_layout(e: ErrorView) -> bool {
    exists|fault: std::alloc::LayoutError, t: String| #[trigger]
        to_string_from_display_ensures::<std::alloc::LayoutError>(&fault, t) && e == bad_layout(t@)
}

/// Whether a buffer of this length can be asked of the allocator, and the error
/// if not.
pub fn check_page_len(len: usize) -> (r: Option<Error>)
    ensures
        r is None <==> len > 0 && fits_in_pages(len),
        len == 0 ==> (r matches Some(e) && e@ == ErrorView::Invalid("zero-length page buffer"@)),
        len > 0 && !fits_in_pages(len) ==> (r matches Some(e) && is_bad_layout(e@)),
{
    if len == 0 {
        /* the global allocator takes no zero-sized layout; a zero-length buffer is useless anyway */
        return Some(Error::Invalid("zero-length page buffer".to_owned()));
    }
    assert(power2::is_pow2(4096)) by {
        reveal_with_fuel(power2::is_pow2, 13);
    }
    match layout_fault(len, PAGE_SIZE) {
        None => None,
        Some(fault) => {
            let why = fault.to_string();
            Some(bad_layout_err(why.as_str()))
        },
    }
}

/// See [`bad_layout`].
pub fn bad_layout_err(why: &str) -> (r: Error)
    ensures
        r@ == bad_layout(why@),
{
    let mut s = String::new();
    s.append("bad layout: ");
    s.append(why);
    assert(s@ =~= "bad layout: "@ + why@);
    Error::Invalid(s)
}

/// The error of an allocation that failed.
pub fn alloc_err() -> (r: Error)
    ensures
        r@ == ErrorView::Invalid("alloc page buffer failed"@),
{
    Error::Invalid("alloc page buffer failed".to_owned())
}

impl PageBuf {
    /// The memory.
    pub closed spec fn memory(&self) -> Page {
        self.page
    }

    /// Where the buffer is.
    pub fn addr(&self) -> (r: Addr)
        ensures
            r == self.memory().addr,
    {
        self.page.addr
    }

    /// How many bytes it has.
    pub fn size(&self) -> (r: usize)
        ensures
            r == self.memory().size,
    {
        self.page.size
    }

    /// The buffer that is this memory.
    pub(crate) fn from_page(page: Page) -> (r: PageBuf)
        ensures
            r.memory() == page,
    {
        PageBuf { page }
    }

    /// Allocate `len` zeroed bytes, aligned to [`PAGE_SIZE`].
    pub fn new(len: usize) -> (r: Step<PageAlloc, PageBuf>)
        ensures
            operation::starts(r),
            match r {
                Step::Ask(state, c) => {
                    &&& len > 0 && fits_in_pages(len)
                    &&& state.size == len
                    &&& c == (Call::AllocZeroed { size: len, align: PAGE_SIZE })
                },
                Step::Done(Ok(_)) => false,
                Step::Done(Err(e)) => {
                    &&& len == 0 ==> e@ == ErrorView::Invalid("zero-length page buffer"@)
                    &&& len > 0 ==> !fits_in_pages(len) && is_bad_layout(e@)
                },
            },
    {
        match check_page_len(len) {
            Some(e) => Step::Done(Err(e)),
            None => Step::Ask(
                PageAlloc { size: len },
                Call::AllocZeroed { size: len, align: PAGE_SIZE },
            ),
        }
    }

    /// The call that gives the memory back, when the buffer is dropped.
    pub fn release(self) -> (c: Call)
        ensures
            c == (Call::Dealloc {
                addr: self.memory().addr,
                size: self.memory().size,
                align: PAGE_SIZE,
            }),
    {
        Call::Dealloc { addr: self.page.addr, size: self.page.size, align: PAGE_SIZE }
    }
}

impl Request for PageAlloc {
    type Output = PageBuf;

    open spec fn held(&self) -> Set<Object> {
        Set::empty()
    }

    open spec fn effect(&self) -> Effect {
        Effect::Make(Kind::Memory)
    }

    open spec fn initializes(&self) -> bool {
        false
    }

    open spec fn awaits(&self, reply: &Reply) -> bool {
        reply matches Reply::Pointer { addr, .. } && call::is_aligned(*addr, PAGE_SIZE)
    }

    open spec fn ready(&self, session: &Session) -> bool {
        true
    }

    open spec fn rank(&self) -> nat {
        0
    }

    open spec fn kept(output: &PageBuf, session: &Session) -> Set<Object> {
        set![Object { kind: Kind::Memory, addr: output.memory().addr }]
    }

    open spec fn follows(
        &self,
        reply: Reply,
        r: Step<PageAlloc, PageBuf>,
        before: &Session,
        after: &Session,
    ) -> bool {
        match reply {
            Reply::Pointer { addr, .. } => if addr == 0 {
                operation::fails(r, ErrorView::Invalid("alloc page buffer failed"@), before, after)
            } else {
                &&& r matches Step::Done(Ok(buf))
                &&& buf.memory() == (Page { addr, size: self.size })
                &&& call::is_aligned(buf.memory().addr, PAGE_SIZE)
                &&& *after == *before
            },
            _ => false,
        }
    }
}

impl Operation for PageAlloc {
    proof fn accounts(
        &self,
        reply: Reply,
        r: Step<PageAlloc, PageBuf>,
        before: &Session,
        after: &Session,
    ) {
    }

    fn step(self, session: &mut Session, reply: Reply) -> (r: Step<PageAlloc, PageBuf>) {
        match reply {
            Reply::Pointer { addr, .. } => {
                if addr == 0 {
                    Step::Done(Err(alloc_err()))
                } else {
                    Step::Done(Ok(PageBuf { page: Page { addr, size: self.size } }))
                }
            },
            _ => vstd::pervasive::unreached(),
        }
    }
}

} // verus!
