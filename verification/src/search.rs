//! The masked search for a byte pattern in process memory, read chunk by chunk.
//!
//! The search is a state machine: `step` says which bytes to read next (or that the
//! search is over), and `feed` takes the bytes that the read gave and answers with
//! the match or the next step. Consecutive chunks overlap by the pattern's length
//! less one byte, so that no occurrence is lost at a chunk boundary.
use vstd::prelude::*;
use crate::error::ProcessError;
use crate::memory::BUFFER_T;

verus! {

/// A mask byte that lets any memory byte match the pattern byte beside it.
pub const WILDCARD: u8 = 0x78;
/// The mask byte of an exact match.
pub const EXACT: u8 = 0x2D;
/// The byte that fills unused space between functions (`int3`).
pub const SPACE_BYTE: u8 = 0xCC;

/// `window` starts with the pattern `find`, where a `WILDCARD` in `mask` lets any byte stand.
pub open spec fn masked_match(window: Seq<u8>, find: Seq<u8>, mask: Seq<u8>) -> bool {
    &&& window.len() >= find.len()
    &&& forall|j: int| 0 <= j < find.len() ==> window[j] == find[j] || mask[j] == WILDCARD
}

/// The first offset at or after `from` in `bytes` where the whole pattern matches.
pub open spec fn first_hit(bytes: Seq<u8>, find: Seq<u8>, mask: Seq<u8>, from: int) -> Option<int>
    decreases bytes.len() + 1 - from,
{
    if from < 0 || from + find.len() > bytes.len() {
        None
    } else if masked_match(bytes.subrange(from, from + find.len()), find, mask) {
        Some(from)
    } else {
        first_hit(bytes, find, mask, from + 1)
    }
}

/// How many bytes the next read asks for when the search stands at `chunk`: up to
/// the byte before `end`, and never more than one buffer.
pub open spec fn read_len(chunk: int, end: int) -> int {
    if end - chunk - 1 < BUFFER_T {
        end - chunk - 1
    } else {
        BUFFER_T as int
    }
}

/// Where the search stands after a chunk of `k` bytes at `chunk` held no match:
/// behind the chunk, moved back by the pattern's length less one (but by less than `k`).
pub open spec fn advanced(chunk: int, end: int, k: int, flen: int) -> int {
    let c = chunk + k;
    if c < end {
        c - (if k - 1 < flen - 1 { k - 1 } else { flen - 1 })
    } else {
        c
    }
}

/// What the search does next.
#[derive(Debug, PartialEq, Eq, Structural)]
pub enum SearchStep {
    /// Read `len` bytes of memory at `address` and hand them to `feed`.
    Read { address: i64, len: usize },
    /// The pattern stands at this address.
    Found(i64),
    /// The pattern is not in the searched range.
    NotFound,
}

/// The abstract state of a search: where it stands, where it ends, the pattern and its mask.
pub struct SearchModel {
    pub chunk: int,
    pub end: int,
    pub find: Seq<u8>,
    pub mask: Seq<u8>,
}

/// The step that a search in state `m` takes.
pub open spec fn next_step(m: SearchModel) -> SearchStep {
    if m.chunk >= m.end {
        SearchStep::NotFound
    } else if read_len(m.chunk, m.end) < m.find.len() {
        SearchStep::NotFound
    } else {
        SearchStep::Read { address: m.chunk as i64, len: read_len(m.chunk, m.end) as usize }
    }
}

/// The state after a read of `k` bytes that held no match.
pub open spec fn after_miss(m: SearchModel, k: int) -> SearchModel {
    SearchModel { chunk: advanced(m.chunk, m.end, k, m.find.len() as int), ..m }
}

/// What `feed` may be given in state `m`: between one byte and the number asked for,
/// and no fewer than the pattern's length less one.
pub open spec fn feedable(m: SearchModel, k: int) -> bool {
    &&& next_step(m) matches SearchStep::Read { address, len }
    &&& 1 <= k <= len
    &&& k + 1 >= m.find.len()
}

/// The answer of the search in state `m` to the `bytes` that a read gave: the match
/// in them, or the next step from the advanced state.
pub open spec fn feed_answer(m: SearchModel, bytes: Seq<u8>) -> SearchStep {
    match first_hit(bytes, m.find, m.mask, 0) {
        Some(i) => SearchStep::Found((m.chunk + i) as i64),
        None => next_step(after_miss(m, bytes.len() as int)),
    }
}

/// A masked search for a byte pattern between two addresses.
pub struct PatternSearch {
    chunk: i64,
    end: i64,
    find: Vec<u8>,
    mask: Vec<u8>,
}

impl View for PatternSearch {
    type V = SearchModel;

    closed spec fn view(&self) -> SearchModel {
        SearchModel { chunk: self.chunk as int, end: self.end as int, find: self.find@, mask: self.mask@ }
    }
}

/// The search's invariant: every pattern byte has a mask byte, and the distance to
/// the end fits in a machine word.
pub open spec fn search_wf(m: SearchModel) -> bool {
    &&& m.mask.len() >= m.find.len()
    &&& m.end - m.chunk <= i64::MAX
    &&& i64::MIN <= m.chunk <= i64::MAX
    &&& i64::MIN <= m.end <= i64::MAX
}

/// The error that a search that found nothing is answered with.
pub fn pattern_not_found() -> (e: ProcessError)
    ensures
        e.message() == "Pattern not found."@,
{
    ProcessError::new("Pattern not found.")
}

/// A copy of `src`.
pub(crate) fn copy_bytes(src: &[u8]) -> (out: Vec<u8>)
    ensures
        out@ == src@,
{
    let mut out: Vec<u8> = Vec::new();
    let mut i: usize = 0;
    while i < src.len()
        invariant
            0 <= i <= src@.len(),
            out@ =~= src@.subrange(0, i as int),
        decreases src@.len() - i,
    {
        out.push(src[i]);
        i = i + 1;
    }
    assert(out@ =~= src@);
    out
}

fn filled(len: usize, byte: u8) -> (out: Vec<u8>)
    ensures
        out@ == Seq::new(len as nat, |_i: int| byte),
{
    let mut out: Vec<u8> = Vec::new();
    let mut i: usize = 0;
    while i < len
        invariant
            0 <= i <= len,
            out@ =~= Seq::new(i as nat, |_i: int| byte),
        decreases len - i,
    {
        out.push(byte);
        i = i + 1;
    }
    out
}

impl PatternSearch {
    /// A search for `find` in `[start, end)`, where a `WILDCARD` byte in `mask` lets
    /// the pattern byte beside it match any byte.
    pub fn find_pattern_mask(start: i64, end: i64, find: &[u8], mask: &[u8]) -> (s: PatternSearch)
        requires
            mask@.len() >= find@.len(),
            end - start <= i64::MAX,
        ensures
            s@ == (SearchModel { chunk: start as int, end: end as int, find: find@, mask: mask@ }),
            search_wf(s@),
    {
        PatternSearch { chunk: start, end, find: copy_bytes(find), mask: copy_bytes(mask) }
    }

    /// A search for exactly the bytes `find` in `[start, end)`.
    pub fn find_pattern(start: i64, end: i64, find: &[u8]) -> (s: PatternSearch)
        requires
            end - start <= i64::MAX,
        ensures
            s@ == (SearchModel {
                chunk: start as int,
                end: end as int,
                find: find@,
                mask: Seq::new(find@.len(), |_i: int| EXACT),
            }),
            search_wf(s@),
    {
        let mask = filled(find.len(), EXACT);
        PatternSearch::find_pattern_mask(start, end, find, mask.as_slice())
    }

    /// A search for `len` bytes of unused space (`SPACE_BYTE`) in `[start, end)`.
    pub fn find_space(start: i64, end: i64, len: usize) -> (s: PatternSearch)
        requires
            end - start <= i64::MAX,
        ensures
            s@ == (SearchModel {
                chunk: start as int,
                end: end as int,
                find: Seq::new(len as nat, |_i: int| SPACE_BYTE),
                mask: Seq::new(len as nat, |_i: int| EXACT),
            }),
            search_wf(s@),
    {
        let find = filled(len, SPACE_BYTE);
        PatternSearch::find_pattern(start, end, find.as_slice())
    }

    /// The next step of the search.
    pub fn step(&self) -> (r: SearchStep)
        requires
            search_wf(self@),
        ensures
            r == next_step(self@),
    {
        if self.chunk >= self.end {
            return SearchStep::NotFound;
        }
        let room: i64 = self.end - self.chunk - 1;
        let n: i64 = if room < BUFFER_T as i64 {
            room
        } else {
            BUFFER_T as i64
        };
        if (n as usize) < self.find.len() {
            SearchStep::NotFound
        } else {
            SearchStep::Read { address: self.chunk, len: n as usize }
        }
    }

    fn matches_at(&self, bytes: &[u8], i: usize) -> (r: bool)
        requires
            search_wf(self@),
            i + self@.find.len() <= bytes@.len(),
        ensures
            r == masked_match(
                bytes@.subrange(i as int, i + self@.find.len()),
                self@.find,
                self@.mask,
            ),
    {
        let ghost w = bytes@.subrange(i as int, i + self@.find.len());
        let blen = bytes.len();
        let mut j: usize = 0;
        while j < self.find.len()
            invariant
                0 <= j <= self@.find.len(),
                i + self@.find.len() <= bytes@.len(),
                blen == bytes@.len(),
                self@.mask.len() >= self@.find.len(),
                w == bytes@.subrange(i as int, i + self@.find.len()),
                forall|jj: int|
                    0 <= jj < j ==> w[jj] == self@.find[jj] || self@.mask[jj] == WILDCARD,
            decreases self@.find.len() - j,
        {
            assert(i + j < bytes@.len());
            if bytes[i + j] != self.find[j] && self.mask[j] != WILDCARD {
                assert(w[j as int] == bytes@[i + j]);
                assert(!(w[j as int] == self@.find[j as int] || self@.mask[j as int] == WILDCARD));
                return false;
            }
            assert(w[j as int] == bytes@[i + j]);
            j = j + 1;
        }
        true
    }

    /// Hands the search the `bytes` that the read it asked for gave: answers with the
    /// address of the first match in them, or moves on and answers with the next step.
    pub fn feed(&mut self, bytes: &[u8]) -> (r: SearchStep)
        requires
            search_wf(old(self)@),
            feedable(old(self)@, bytes@.len() as int),
        ensures
            search_wf(final(self)@),
            r == feed_answer(old(self)@, bytes@),
            first_hit(bytes@, old(self)@.find, old(self)@.mask, 0) is Some ==> final(self)@
                == old(self)@,
            first_hit(bytes@, old(self)@.find, old(self)@.mask, 0) is None ==> final(self)@
                == after_miss(old(self)@, bytes@.len() as int),
    {
        let k = bytes.len();
        let flen = self.find.len();
        let limit = k + 1 - flen;
        let mut i: usize = 0;
        while i < limit
            invariant
                search_wf(self@),
                self@ == old(self)@,
                k == bytes@.len(),
                flen == self@.find.len(),
                limit == k + 1 - flen,
                0 <= i <= limit,
                self@.chunk < self@.end,
                k <= self@.end - self@.chunk - 1,
                first_hit(bytes@, self@.find, self@.mask, 0) == first_hit(
                    bytes@,
                    self@.find,
                    self@.mask,
                    i as int,
                ),
            decreases limit - i,
        {
            if self.matches_at(bytes, i) {
                return SearchStep::Found(self.chunk + i as i64);
            }
            i = i + 1;
        }
        if flen == 0 {
            assert(masked_match(bytes@.subrange(0, 0), self@.find, self@.mask));
            assert(false);
        }
        let c: i64 = self.chunk + k as i64;
        if c < self.end {
            let back: usize = if k - 1 < flen - 1 {
                k - 1
            } else {
                flen - 1
            };
            self.chunk = c - back as i64;
        } else {
            self.chunk = c;
        }
        self.step()
    }
}

/// The first address in `[lo, hi]` at which the pattern matches the memory image
/// `mem`, which holds the bytes from address `base` on.
pub open spec fn first_match_in(
    mem: Seq<u8>,
    base: int,
    lo: int,
    hi: int,
    find: Seq<u8>,
    mask: Seq<u8>,
) -> Option<int>
    decreases hi + 1 - lo,
{
    if lo > hi {
        None
    } else if masked_match(mem.subrange(lo - base, lo - base + find.len()), find, mask) {
        Some(lo)
    } else {
        first_match_in(mem, base, lo + 1, hi, find, mask)
    }
}

/// The answer of a search in state `m` when every read gives all the bytes asked for,
/// taken from the memory image `mem` that starts at address `base`: the steps of
/// `next_step`, `first_hit` and `after_miss` followed to the end.
pub open spec fn run_on_image(m: SearchModel, mem: Seq<u8>, base: int) -> Option<int>
    decreases m.end - m.chunk,
{
    if m.chunk >= m.end {
        None
    } else if read_len(m.chunk, m.end) < m.find.len() || read_len(m.chunk, m.end) == 0 {
        None
    } else {
        let n = read_len(m.chunk, m.end);
        let bytes = mem.subrange(m.chunk - base, m.chunk - base + n);
        match first_hit(bytes, m.find, m.mask, 0) {
            Some(i) => Some(m.chunk + i),
            None => {
                if advanced(m.chunk, m.end, n, m.find.len() as int) > m.chunk {
                    run_on_image(after_miss(m, n), mem, base)
                } else {
                    None
                }
            },
        }
    }
}

proof fn lemma_first_hit_is_first_match(
    bytes: Seq<u8>,
    mem: Seq<u8>,
    base: int,
    chunk: int,
    from: int,
    find: Seq<u8>,
    mask: Seq<u8>,
)
    requires
        0 <= chunk - base,
        chunk - base + bytes.len() <= mem.len(),
        bytes == mem.subrange(chunk - base, chunk - base + bytes.len()),
        0 <= from,
    ensures
        (match first_hit(bytes, find, mask, from) {
            Some(i) => Some(chunk + i),
            None => None::<int>,
        }) == first_match_in(
            mem,
            base,
            chunk + from,
            chunk + bytes.len() - find.len(),
            find,
            mask,
        ),
    decreases bytes.len() + 1 - from,
{
    if from + find.len() > bytes.len() {
    } else {
        assert(bytes.subrange(from, from + find.len()) =~= mem.subrange(
            chunk + from - base,
            chunk + from - base + find.len(),
        ));
        lemma_first_hit_is_first_match(bytes, mem, base, chunk, from + 1, find, mask);
    }
}

proof fn lemma_first_match_split(
    mem: Seq<u8>,
    base: int,
    lo: int,
    mid: int,
    hi: int,
    find: Seq<u8>,
    mask: Seq<u8>,
)
    requires
        lo <= mid + 1,
        mid <= hi,
    ensures
        first_match_in(mem, base, lo, hi, find, mask) == (match first_match_in(
            mem,
            base,
            lo,
            mid,
            find,
            mask,
        ) {
            Some(p) => Some(p),
            None => first_match_in(mem, base, mid + 1, hi, find, mask),
        }),
    decreases mid + 1 - lo,
{
    if lo <= mid {
        lemma_first_match_split(mem, base, lo + 1, mid, hi, find, mask);
    }
}

/// A search whose reads all give the bytes asked for answers with the first address
/// at which the pattern matches, among those whose match ends before the last byte
/// of the range; it answers with nothing when there is none. This holds for patterns
/// of at most one buffer's length, and for an empty pattern unless the range holds a
/// single byte (a read of no byte cannot be answered).
pub proof fn law_search_finds_first_match(m: SearchModel, mem: Seq<u8>, base: int)
    requires
        search_wf(m),
        m.find.len() <= BUFFER_T,
        m.find.len() >= 1 || m.end - m.chunk != 1,
        base <= m.chunk,
        m.end - 1 <= base + mem.len(),
    ensures
        run_on_image(m, mem, base) == first_match_in(
            mem,
            base,
            m.chunk,
            m.end - 1 - m.find.len(),
            m.find,
            m.mask,
        ),
    decreases m.end - m.chunk,
{
    let hi = m.end - 1 - m.find.len();
    if m.chunk >= m.end {
    } else if read_len(m.chunk, m.end) < m.find.len() || read_len(m.chunk, m.end) == 0 {
    } else {
        let n = read_len(m.chunk, m.end);
        let bytes = mem.subrange(m.chunk - base, m.chunk - base + n);
        lemma_first_hit_is_first_match(bytes, mem, base, m.chunk, 0, m.find, m.mask);
        let mid = m.chunk + n - m.find.len();
        lemma_first_match_split(mem, base, m.chunk, mid, hi, m.find, m.mask);
        match first_hit(bytes, m.find, m.mask, 0) {
            Some(i) => {},
            None => {
                if m.find.len() == 0 {
                    assert(masked_match(bytes.subrange(0, 0), m.find, m.mask));
                    assert(false);
                }
                let m2 = after_miss(m, n);
                assert(m2.chunk == mid + 1);
                law_search_finds_first_match(m2, mem, base);
            },
        }
    }
}

/// Whatever bytes the reads give, an address that the search answers with holds a
/// match in the bytes read there, and no earlier offset of those bytes does.
pub proof fn law_found_offset_matches(bytes: Seq<u8>, find: Seq<u8>, mask: Seq<u8>, from: int)
    requires
        first_hit(bytes, find, mask, from) is Some,
    ensures
        ({
            let i = first_hit(bytes, find, mask, from)->Some_0;
            &&& from <= i
            &&& i + find.len() <= bytes.len()
            &&& masked_match(bytes.subrange(i, i + find.len()), find, mask)
            &&& forall|j: int|
                from <= j < i ==> !masked_match(
                    #[trigger] bytes.subrange(j, j + find.len()),
                    find,
                    mask,
                )
        }),
    decreases bytes.len() + 1 - from,
{
    if masked_match(bytes.subrange(from, from + find.len()), find, mask) {
    } else {
        law_found_offset_matches(bytes, find, mask, from + 1);
    }
}

/// Every read that holds no match moves the search forward by at least one byte, so
/// that the search ends.
pub proof fn law_miss_moves_forward(m: SearchModel, k: int)
    requires
        search_wf(m),
        feedable(m, k),
    ensures
        after_miss(m, k).chunk > m.chunk,
        search_wf(after_miss(m, k)),
{
}

/// A search with the exact mask matches a window exactly when the window starts with the pattern.
pub proof fn law_exact_mask_matches_exactly(window: Seq<u8>, find: Seq<u8>)
    ensures
        masked_match(window, find, Seq::new(find.len(), |_i: int| EXACT)) <==> (window.len()
            >= find.len() && window.subrange(0, find.len() as int) == find),
{
    let mask = Seq::new(find.len(), |_i: int| EXACT);
    if masked_match(window, find, mask) {
        assert(window.subrange(0, find.len() as int) =~= find);
    }
    if window.len() >= find.len() && window.subrange(0, find.len() as int) == find {
        assert forall|j: int| 0 <= j < find.len() implies window[j] == find[j] || mask[j]
            == WILDCARD by {
            assert(window.subrange(0, find.len() as int)[j] == window[j]);
        }
    }
}

/// A window that starts with the pattern matches it, whatever the mask.
pub proof fn law_pattern_matches_itself(window: Seq<u8>, find: Seq<u8>, mask: Seq<u8>)
    requires
        window.len() >= find.len(),
        window.subrange(0, find.len() as int) == find,
    ensures
        masked_match(window, find, mask),
{
    assert forall|j: int| 0 <= j < find.len() implies window[j] == find[j] || mask[j] == WILDCARD by {
        assert(window.subrange(0, find.len() as int)[j] == window[j]);
    }
}

/// A position of the pattern whose mask byte is `WILDCARD` matches any byte, at every
/// index of the pattern (the last one included): changing the window's byte there never
/// changes whether the window matches.
pub proof fn law_wildcard_matches_any_byte(window: Seq<u8>, find: Seq<u8>, mask: Seq<u8>, j: int, b: u8)
    requires
        0 <= j < find.len(),
        j < window.len(),
        mask[j] == WILDCARD,
    ensures
        masked_match(window.update(j, b), find, mask) == masked_match(window, find, mask),
        window.len() >= find.len() && (forall|k: int| 0 <= k < find.len() && k != j ==> window[k] == find[k])
            ==> masked_match(window.update(j, b), find, mask),
{
    let w2 = window.update(j, b);
    if masked_match(window, find, mask) {
        assert forall|k: int| 0 <= k < find.len() implies w2[k] == find[k] || mask[k] == WILDCARD by {
            if k != j {
                assert(w2[k] == window[k]);
            }
        }
    }
    if masked_match(w2, find, mask) {
        assert forall|k: int| 0 <= k < find.len() implies window[k] == find[k] || mask[k] == WILDCARD by {
            if k != j {
                assert(w2[k] == window[k]);
            }
        }
    }
    if window.len() >= find.len() && (forall|k: int| 0 <= k < find.len() && k != j ==> window[k] == find[k]) {
        assert forall|k: int| 0 <= k < find.len() implies w2[k] == find[k] || mask[k] == WILDCARD by {
            if k != j {
                assert(w2[k] == window[k]);
            }
        }
    }
}

} // verus!
