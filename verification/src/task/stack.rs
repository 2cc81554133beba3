use vstd::prelude::*;

verus! {

/// The bit formula that rounds `size` up to whole pages: `(size + mask) & !mask`
/// with `mask == page - 1`.
pub open spec fn spec_align_to_page_size(size: usize, page: usize) -> usize
    recommends
        page >= 1,
        size + page - 1 <= usize::MAX,
{
    let mask: usize = (page - 1) as usize;
    ((size + mask) as usize) & !mask
}

/// A page size the mask trick works for: a non-zero power of two.
pub open spec fn is_power_of_two(page: usize) -> bool {
    page != 0 && page & ((page - 1) as usize) == 0
}

/// Rounds `size` up to a multiple of `page_size` (a power of two).
pub fn align_to_page_size(size: usize, page_size: usize) -> (r: usize)
    requires
        page_size >= 1,
        size + page_size - 1 <= usize::MAX,
    ensures
        r == spec_align_to_page_size(size, page_size),
{
    let mask = page_size - 1;
    (size + mask) & !mask
}

/// For a power-of-two page, rounding gives the least page-aligned size that is at
/// least `size`: aligned (no bit below the page size set), not below `size`,
/// and less than one page above it.
pub proof fn lemma_align_to_page_size(size: usize, page: usize)
    requires
        is_power_of_two(page),
        size + page - 1 <= usize::MAX,
    ensures
        spec_align_to_page_size(size, page) & ((page - 1) as usize) == 0,
        size <= spec_align_to_page_size(size, page),
        spec_align_to_page_size(size, page) < size + page,
{
    let mask: usize = (page - 1) as usize;
    let x: usize = (size + mask) as usize;
    assert(x & !mask & mask == 0) by (bit_vector);
    assert(x - (x & !mask) <= mask) by (bit_vector);
    assert(x & !mask <= x) by (bit_vector);
    assert(page != 0 && page & mask == 0 && mask == page - 1 && x == size + mask
        ==> size <= x & !mask) by (bit_vector);
}

/// StackSize specifies desired stack size for new task.
///
/// It defaults to `8` times page size or `MINSIGSTKSZ` depending on which one is bigger.
/// A positive `size` asks for that many bytes on top of the default, a negative one
/// for exactly that many bytes (rounded up to pages).
#[derive(Copy, Clone, Debug)]
pub struct StackSize {
    size: isize,
}

impl Default for StackSize {
    fn default() -> (r: StackSize)
        ensures
            r.spec_size() == 0,
    {
        StackSize { size: 0 }
    }
}

/// The bytes a stack of requested size `size` takes, before the lower bound
/// `MINSIGSTKSZ` is applied.
pub open spec fn spec_stack_bytes(size: isize, page: usize) -> int {
    if size == 0 {
        8 * page
    } else if size > 0 {
        8 * page + spec_align_to_page_size(size as usize, page)
    } else {
        spec_align_to_page_size((-size) as usize, page) as int
    }
}

/// The stack size for request `size`: its pages, never below `min`.
pub open spec fn spec_aligned_page_size(size: isize, page: usize, min: usize) -> int {
    if spec_stack_bytes(size, page) >= min {
        spec_stack_bytes(size, page)
    } else {
        min as int
    }
}

/// The stack size for request `size` with page size `page` and signal stack minimum
/// `min`, where the arithmetic fits in `usize`.
pub open spec fn spec_stack_size_for(size: isize, page: usize, min: usize) -> Option<usize> {
    if stack_bytes_fit(size, page) {
        Some(spec_aligned_page_size(size, page, min) as usize)
    } else {
        None
    }
}

/// The arithmetic of `aligned_page_size` stays within `usize` for this request.
pub open spec fn stack_bytes_fit(size: isize, page: usize) -> bool {
    &&& page >= 1
    &&& size > isize::MIN
    &&& (size > 0 ==> size + page - 1 <= usize::MAX && 8 * page + spec_align_to_page_size(
        size as usize,
        page,
    ) <= usize::MAX)
    &&& (size < 0 ==> -size + page - 1 <= usize::MAX)
    &&& 8 * page <= usize::MAX
}

impl StackSize {
    /// The requested size: 0 for the default, positive for extra bytes, negative for
    /// an exact size.
    pub closed spec fn spec_size(self) -> isize {
        self.size
    }

    /// The stack size in bytes for the given page size and signal stack minimum:
    /// pages for the request, never below `min_stack_size`.
    pub fn aligned_page_size(&self, page_size: usize, min_stack_size: usize) -> (r: usize)
        requires
            stack_bytes_fit(self.spec_size(), page_size),
        ensures
            r == spec_aligned_page_size(self.spec_size(), page_size, min_stack_size),
    {
        let size: usize = if self.size == 0 {
            8 * page_size
        } else if self.size > 0 {
            8 * page_size + align_to_page_size(self.size as usize, page_size)
        } else {
            align_to_page_size((-self.size) as usize, page_size)
        };
        if size >= min_stack_size {
            size
        } else {
            min_stack_size
        }
    }

    /// Specifies extra stack size in addition to default.
    pub fn with_extra_size(size: usize) -> (r: StackSize)
        requires
            size <= isize::MAX,
        ensures
            r.spec_size() == size,
    {
        StackSize { size: size as isize }
    }

    /// Specifies desired stack size.
    pub fn with_size(size: usize) -> (r: StackSize)
        requires
            size <= isize::MAX,
        ensures
            r.spec_size() == -(if size >= 1 {
                size as int
            } else {
                1
            }),
    {
        let s: usize = if size >= 1 {
            size
        } else {
            1
        };
        StackSize { size: -(s as isize) }
    }

    /// The stack size in bytes for page size `page_size` and signal stack minimum
    /// `min_stack_size`, or `None` where the request does not fit in `usize` with
    /// that page size.
    pub fn stack_size_for(&self, page_size: usize, min_stack_size: usize) -> (r: Option<usize>)
        ensures
            r == spec_stack_size_for(self.spec_size(), page_size, min_stack_size),
    {
        if self.fits(page_size) {
            let v = self.aligned_page_size(page_size, min_stack_size);
            Some(v)
        } else {
            None
        }
    }

    /// The stack size in bytes on this machine: the page size that `sysconf` reports
    /// and `libc::MINSIGSTKSZ` decide it (see `stack_size_for`). `None` where `sysconf`
    /// reports no usable page size or the request does not fit in `usize`.
    pub fn stack_size_bytes(&self) -> (r: Option<usize>)
        ensures
            r matches Some(v) ==> exists|page: usize, min: usize|
                page >= 1 && stack_bytes_fit(self.spec_size(), page) && v
                    == #[trigger] spec_aligned_page_size(self.spec_size(), page, min),
    {
        match page_size_get() {
            Some(page) => {
                let min = min_sig_stack_size();
                let r = self.stack_size_for(page, min);
                assert(r matches Some(v) ==> v == spec_aligned_page_size(self.spec_size(), page, min));
                r
            },
            None => None,
        }
    }

    /// Whether the arithmetic for this request fits in `usize` with the given page size.
    pub fn fits(&self, page_size: usize) -> (r: bool)
        ensures
            r == stack_bytes_fit(self.spec_size(), page_size),
    {
        if page_size < 1 || self.size == isize::MIN {
            return false;
        }
        if usize::MAX / 8 < page_size {
            return false;
        }
        if self.size > 0 {
            let s = self.size as usize;
            if s > usize::MAX - (page_size - 1) {
                return false;
            }
            let a = align_to_page_size(s, page_size);
            a <= usize::MAX - 8 * page_size
        } else if self.size < 0 {
            let s = (-self.size) as usize;
            s <= usize::MAX - (page_size - 1)
        } else {
            true
        }
    }
}

/// Calls `nix::unistd::sysconf(SysconfVar::PAGE_SIZE)`. The source of that function
/// returns `Ok(Some(raw))` only where the C call returned something else than `-1`;
/// errors and "no value" both come back as `None` here. Which page size the machine
/// reports is not stated.
#[verifier::external_body]
fn sysconf_page_size() -> (r: Option<i64>)
    ensures
        r matches Some(v) ==> v != -1,
{
    match nix::unistd::sysconf(nix::unistd::SysconfVar::PAGE_SIZE) {
        Ok(Some(v)) => Some(v as i64),
        _ => None,
    }
}

/// Reads the constant `libc::MINSIGSTKSZ`, the least stack a signal handler may run
/// on. Its value depends on the target, so nothing is stated of it.
#[verifier::external_body]
fn min_sig_stack_size() -> usize {
    libc::MINSIGSTKSZ
}

/// What a `sysconf` reply gives as page size: a positive value that fits in `usize`.
pub open spec fn spec_page_size_of(raw: Option<i64>) -> Option<usize> {
    match raw {
        Some(v) => if 0 < v && v <= usize::MAX {
            Some(v as usize)
        } else {
            None
        },
        None => None,
    }
}

/// The page size a `sysconf` reply gives, if it gives one.
pub fn page_size_of(raw: Option<i64>) -> (r: Option<usize>)
    ensures
        r == spec_page_size_of(raw),
{
    match raw {
        Some(v) => {
            if v > 0 && (v as u64) <= (usize::MAX as u64) {
                Some(v as usize)
            } else {
                None
            }
        },
        None => None,
    }
}

/// The page size of this machine, where `sysconf` reports a positive one (see
/// `page_size_of`).
pub fn page_size_get() -> (r: Option<usize>)
    ensures
        r matches Some(v) ==> v >= 1,
{
    page_size_of(sysconf_page_size())
}

/// A stack is never smaller than asked for: with a power-of-two page, an exact
/// request gets at least its size, an extra request at least eight pages plus the
/// extra, and every stack at least the signal stack minimum.
pub proof fn lemma_stack_at_least(size: isize, page: usize, min: usize)
    requires
        is_power_of_two(page),
        stack_bytes_fit(size, page),
    ensures
        spec_aligned_page_size(size, page, min) >= min,
        size < 0 ==> spec_aligned_page_size(size, page, min) >= -size,
        size > 0 ==> spec_aligned_page_size(size, page, min) >= 8 * page + size,
        size == 0 ==> spec_aligned_page_size(size, page, min) >= 8 * page,
{
    if size > 0 {
        lemma_align_to_page_size(size as usize, page);
    } else if size < 0 {
        lemma_align_to_page_size((-size) as usize, page);
    }
}

} // verus!
