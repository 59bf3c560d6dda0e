//! The search for the code that refers to a given label: find the byte pattern,
//! follow the relative operand of the instruction at a fixed offset from it, and
//! compare the bytes there with the label; on a mismatch, search again a stride
//! further on.
//!
//! Like the pattern search it runs on, the scan is a state machine: `step` says
//! which bytes to read next, `feed` takes what the read gave.
use vstd::prelude::*;
use crate::error::ProcessError;
use crate::search::{
    PatternSearch, SearchModel, SearchStep, next_step, feedable, first_hit, search_wf, copy_bytes,
};
use crate::words::{le_u32, sign_extend32, to_lparam, RELATIVE_ADDRESS_T};

verus! {

/// How a scan ends.
#[derive(Debug, Clone, Copy, PartialEq, Eq, Structural)]
pub enum ScanEnd {
    /// The label is referred to from the pattern at this address.
    Found(i64),
    /// The range was left without finding the label.
    NotFound,
    /// A pattern search inside the range found nothing.
    PatternMissing,
    /// The operand read did not give four bytes.
    BadOperand,
}

/// Where a scan stands.
#[derive(Debug, Clone, Copy, PartialEq, Eq, Structural)]
pub enum ScanPhase {
    /// Searching for the pattern.
    Searching,
    /// Reading the relative operand of the instruction near the candidate.
    Operand,
    /// Reading the bytes at the operand's target.
    Label,
    /// Over.
    Finished(ScanEnd),
}

/// What a scan does next.
#[derive(Debug, PartialEq, Eq, Structural)]
pub enum ScanAction {
    /// Read `len` bytes at `address` and hand them to `feed`.
    Read { address: i64, len: usize },
    /// The scan is over.
    Finished(ScanEnd),
}

/// The abstract state of a scan.
pub struct ScanModel {
    pub search: SearchModel,
    pub end: int,
    pub pattern: Seq<u8>,
    pub mask: Seq<u8>,
    pub offset: int,
    pub op_size: int,
    pub label: Seq<u8>,
    pub stride: int,
    pub phase: ScanPhase,
    pub candidate: int,
    pub target: int,
}

/// The scan's invariant: the pattern search is sound, and no address that the scan
/// computes leaves the machine word.
pub open spec fn scan_wf(m: ScanModel) -> bool {
    &&& search_wf(m.search)
    &&& m.search.end == m.end
    &&& m.search.find == m.pattern
    &&& m.search.mask == m.mask
    &&& m.mask.len() >= m.pattern.len()
    &&& 0 <= m.search.chunk
    &&& 0 <= m.offset
    &&& RELATIVE_ADDRESS_T <= m.op_size
    &&& 0 <= m.stride
    &&& m.end + m.offset + m.op_size + 0x8000_0000 <= i64::MAX
    &&& m.end + m.stride <= i64::MAX
    &&& (m.phase is Operand || m.phase is Label) ==> 0 <= m.candidate < m.end
    &&& m.phase is Label ==> i64::MIN <= m.target <= i64::MAX
}

/// Where the relative operand of the instruction near `candidate` stands.
pub open spec fn operand_address(m: ScanModel) -> int {
    m.candidate + m.offset + m.op_size - RELATIVE_ADDRESS_T
}

/// The step that a scan in state `m` takes.
pub open spec fn scan_step(m: ScanModel) -> ScanAction {
    match m.phase {
        ScanPhase::Searching => match next_step(m.search) {
            SearchStep::Read { address, len } => ScanAction::Read { address, len },
            _ => ScanAction::Finished(ScanEnd::PatternMissing),
        },
        ScanPhase::Operand => ScanAction::Read {
            address: operand_address(m) as i64,
            len: RELATIVE_ADDRESS_T,
        },
        ScanPhase::Label => ScanAction::Read { address: m.target as i64, len: m.label.len() as usize },
        ScanPhase::Finished(e) => ScanAction::Finished(e),
    }
}

/// What `feed` may be given in state `m`: what the read asked for, at least one byte
/// of it, and in the label phase bytes that are valid UTF-8 (the label comparison
/// reads them as text).
pub open spec fn scan_feedable(m: ScanModel, bytes: Seq<u8>) -> bool {
    match m.phase {
        ScanPhase::Searching => feedable(m.search, bytes.len() as int),
        ScanPhase::Operand => 1 <= bytes.len() <= RELATIVE_ADDRESS_T,
        ScanPhase::Label => 1 <= bytes.len() <= m.label.len() && vstd::utf8::valid_utf8(bytes),
        ScanPhase::Finished(_) => false,
    }
}

/// A fresh pattern search from `current` to the end of the scan.
pub open spec fn search_from(m: ScanModel, current: int) -> SearchModel {
    SearchModel { chunk: current, end: m.end, find: m.pattern, mask: m.mask }
}

/// The state in which a scan in state `m` continues from `current`.
pub open spec fn restart_at(m: ScanModel, current: int) -> ScanModel {
    if current < m.end {
        ScanModel { search: search_from(m, current), phase: ScanPhase::Searching, ..m }
    } else {
        ScanModel { phase: ScanPhase::Finished(ScanEnd::NotFound), ..m }
    }
}

/// The state of a scan in state `m` after it was given `bytes`.
pub open spec fn scan_after(m: ScanModel, bytes: Seq<u8>) -> ScanModel {
    match m.phase {
        ScanPhase::Searching => match first_hit(bytes, m.pattern, m.mask, 0) {
            Some(i) => ScanModel {
                phase: ScanPhase::Operand,
                candidate: m.search.chunk + i,
                ..m
            },
            None => ScanModel {
                search: crate::search::after_miss(m.search, bytes.len() as int),
                ..m
            },
        },
        ScanPhase::Operand => if bytes.len() != RELATIVE_ADDRESS_T {
            ScanModel { phase: ScanPhase::Finished(ScanEnd::BadOperand), ..m }
        } else {
            ScanModel {
                phase: ScanPhase::Label,
                target: m.candidate + m.offset + m.op_size + sign_extend32(le_u32(bytes)),
                ..m
            }
        },
        ScanPhase::Label => if bytes == m.label {
            ScanModel { phase: ScanPhase::Finished(ScanEnd::Found(m.candidate as i64)), ..m }
        } else {
            restart_at(m, m.candidate + m.stride)
        },
        ScanPhase::Finished(_) => m,
    }
}

/// A scan for the label `label`.
pub struct LabelScan {
    search: PatternSearch,
    end: i64,
    pattern: Vec<u8>,
    mask: Vec<u8>,
    offset: i64,
    op_size: usize,
    label: Vec<u8>,
    stride: usize,
    phase: ScanPhase,
    candidate: i64,
    target: i64,
}

impl View for LabelScan {
    type V = ScanModel;

    closed spec fn view(&self) -> ScanModel {
        ScanModel {
            search: self.search@,
            end: self.end as int,
            pattern: self.pattern@,
            mask: self.mask@,
            offset: self.offset as int,
            op_size: self.op_size as int,
            label: self.label@,
            stride: self.stride as int,
            phase: self.phase,
            candidate: self.candidate as int,
            target: self.target as int,
        }
    }
}

fn bytes_equal(a: &[u8], b: &[u8]) -> (r: bool)
    ensures
        r == (a@ == b@),
{
    if a.len() != b.len() {
        return false;
    }
    let mut i: usize = 0;
    while i < a.len()
        invariant
            a@.len() == b@.len(),
            0 <= i <= a@.len(),
            forall|j: int| 0 <= j < i ==> a@[j] == b@[j],
        decreases a@.len() - i,
    {
        if a[i] != b[i] {
            return false;
        }
        i = i + 1;
    }
    assert(a@ =~= b@);
    true
}

impl LabelScan {
    /// A scan of `[start, end)` for `pattern` (masked by `mask`), whose instruction at
    /// `offset` behind the pattern, `op_size` bytes long, refers to `label`; on a
    /// mismatch the search goes on `stride` bytes behind the candidate.
    pub fn new(
        start: i64,
        end: i64,
        pattern: &[u8],
        mask: &[u8],
        offset: i64,
        op_size: usize,
        label: &[u8],
        stride: usize,
    ) -> (s: LabelScan)
        requires
            mask@.len() >= pattern@.len(),
            0 <= start,
            0 <= offset,
            RELATIVE_ADDRESS_T <= op_size <= i64::MAX,
            stride <= i64::MAX,
            end + offset + op_size + 0x8000_0000 <= i64::MAX,
            end + stride <= i64::MAX,
        ensures
            scan_wf(s@),
            s@.search == (SearchModel {
                chunk: start as int,
                end: end as int,
                find: pattern@,
                mask: mask@,
            }),
            s@.end == end,
            s@.pattern == pattern@,
            s@.mask == mask@,
            s@.offset == offset,
            s@.op_size == op_size,
            s@.label == label@,
            s@.stride == stride,
            s@.phase == (if start < end {
                ScanPhase::Searching
            } else {
                ScanPhase::Finished(ScanEnd::NotFound)
            }),
    {
        let phase = if start < end {
            ScanPhase::Searching
        } else {
            ScanPhase::Finished(ScanEnd::NotFound)
        };
        LabelScan {
            search: PatternSearch::find_pattern_mask(start, end, pattern, mask),
            end,
            pattern: copy_bytes(pattern),
            mask: copy_bytes(mask),
            offset,
            op_size,
            label: copy_bytes(label),
            stride,
            phase,
            candidate: 0,
            target: 0,
        }
    }

    /// Where the scan stands.
    pub fn phase(&self) -> (p: ScanPhase)
        ensures
            p == self@.phase,
    {
        self.phase
    }

    /// The next step of the scan.
    pub fn step(&self) -> (r: ScanAction)
        requires
            scan_wf(self@),
        ensures
            r == scan_step(self@),
    {
        match self.phase {
            ScanPhase::Searching => match self.search.step() {
                SearchStep::Read { address, len } => ScanAction::Read { address, len },
                _ => ScanAction::Finished(ScanEnd::PatternMissing),
            },
            ScanPhase::Operand => {
                let op = self.op_size as i64;
                ScanAction::Read {
                    address: self.candidate + self.offset + op - 4,
                    len: RELATIVE_ADDRESS_T,
                }
            },
            ScanPhase::Label => ScanAction::Read { address: self.target, len: self.label.len() },
            ScanPhase::Finished(e) => ScanAction::Finished(e),
        }
    }

    /// Hands the scan the bytes that the read it asked for gave; answers with the
    /// next step.
    pub fn feed(&mut self, bytes: &[u8]) -> (r: ScanAction)
        requires
            scan_wf(old(self)@),
            scan_feedable(old(self)@, bytes@),
        ensures
            scan_wf(final(self)@),
            final(self)@ == scan_after(old(self)@, bytes@),
            r == scan_step(final(self)@),
    {
        match self.phase {
            ScanPhase::Searching => {
                let answer = self.search.feed(bytes);
                match answer {
                    SearchStep::Found(p) => {
                        proof {
                            crate::search::law_found_offset_matches(
                                bytes@,
                                self@.pattern,
                                self@.mask,
                                0,
                            );
                        }
                        assert(0 <= p < self@.end);
                        self.phase = ScanPhase::Operand;
                        self.candidate = p;
                    },
                    _ => {},
                }
            },
            ScanPhase::Operand => {
                match to_lparam(bytes) {
                    Ok(rel) => {
                        let op = self.op_size as i64;
                        self.target = self.candidate + self.offset + op + rel;
                        self.phase = ScanPhase::Label;
                    },
                    Err(_) => {
                        self.phase = ScanPhase::Finished(ScanEnd::BadOperand);
                    },
                }
            },
            ScanPhase::Label => {
                if bytes_equal(bytes, self.label.as_slice()) {
                    self.phase = ScanPhase::Finished(ScanEnd::Found(self.candidate));
                } else {
                    let stride = self.stride as i64;
                    let current = self.candidate + stride;
                    if current < self.end {
                        self.search = PatternSearch::find_pattern_mask(
                            current,
                            self.end,
                            self.pattern.as_slice(),
                            self.mask.as_slice(),
                        );
                        self.phase = ScanPhase::Searching;
                    } else {
                        self.phase = ScanPhase::Finished(ScanEnd::NotFound);
                    }
                }
            },
            ScanPhase::Finished(_) => {},
        }
        self.step()
    }
}

/// The `len` bytes of the memory image `mem`, which holds the bytes from address
/// `base` on, at `address`.
pub open spec fn image_bytes(mem: Seq<u8>, base: int, address: int, len: int) -> Seq<u8> {
    mem.subrange(address - base, address - base + len)
}

/// The image holds `len` bytes at `address`.
pub open spec fn in_image(mem: Seq<u8>, base: int, address: int, len: int) -> bool {
    base <= address && 0 <= len && address - base + len <= mem.len()
}

/// `bytes` are what the image holds at `address`.
pub open spec fn read_from_image(mem: Seq<u8>, base: int, address: int, bytes: Seq<u8>) -> bool {
    in_image(mem, base, address, bytes.len() as int) && bytes == image_bytes(
        mem,
        base,
        address,
        bytes.len() as int,
    )
}

/// The scan's pattern matches the image at `p`.
pub open spec fn pattern_at(m: ScanModel, mem: Seq<u8>, base: int, p: int) -> bool {
    in_image(mem, base, p, m.pattern.len() as int) && crate::search::masked_match(
        image_bytes(mem, base, p, m.pattern.len() as int),
        m.pattern,
        m.mask,
    )
}

/// Where the instruction near the candidate `p` leads, by the operand the image holds.
pub open spec fn target_in_image(m: ScanModel, mem: Seq<u8>, base: int, p: int) -> int {
    let at = p + m.offset + m.op_size - RELATIVE_ADDRESS_T;
    p + m.offset + m.op_size + sign_extend32(
        le_u32(image_bytes(mem, base, at, RELATIVE_ADDRESS_T as int)),
    )
}

/// The instruction near the candidate `p` leads to the scan's label in the image.
pub open spec fn refers_to_label(m: ScanModel, mem: Seq<u8>, base: int, p: int) -> bool {
    let at = p + m.offset + m.op_size - RELATIVE_ADDRESS_T;
    let target = target_in_image(m, mem, base, p);
    &&& in_image(mem, base, at, RELATIVE_ADDRESS_T as int)
    &&& in_image(mem, base, target, m.label.len() as int)
    &&& image_bytes(mem, base, target, m.label.len() as int) == m.label
}

/// What a scan in state `m` has established about the image: a candidate is a match
/// of the pattern, the target it holds is the one its operand gives, and an address
/// it reports found is a match whose instruction refers to the label.
pub open spec fn scan_sound(m: ScanModel, mem: Seq<u8>, base: int) -> bool {
    match m.phase {
        ScanPhase::Searching => true,
        ScanPhase::Operand => pattern_at(m, mem, base, m.candidate),
        ScanPhase::Label => {
            &&& pattern_at(m, mem, base, m.candidate)
            &&& in_image(mem, base, operand_address(m), RELATIVE_ADDRESS_T as int)
            &&& m.target == target_in_image(m, mem, base, m.candidate)
        },
        ScanPhase::Finished(ScanEnd::Found(p)) => pattern_at(m, mem, base, p as int) && refers_to_label(
            m,
            mem,
            base,
            p as int,
        ),
        ScanPhase::Finished(_) => true,
    }
}

/// A scan whose reads all give bytes that the memory image holds at the addresses
/// read stays sound: each step keeps `scan_sound`, which a new scan has. So an address
/// that the scan reports found is one where the pattern matches the image and whose
/// instruction leads to the label (for the "LeaveGame" scan: the routine that refers
/// to that name).
pub proof fn law_scan_stays_sound(m: ScanModel, mem: Seq<u8>, base: int, bytes: Seq<u8>)
    requires
        scan_wf(m),
        scan_feedable(m, bytes),
        scan_sound(m, mem, base),
        scan_step(m) matches ScanAction::Read { address, len } && read_from_image(
            mem,
            base,
            address as int,
            bytes,
        ),
    ensures
        scan_sound(scan_after(m, bytes), mem, base),
{
    let address = scan_step(m)->Read_address as int;
    match m.phase {
        ScanPhase::Searching => {
            assert(address == m.search.chunk);
            match first_hit(bytes, m.pattern, m.mask, 0) {
                Some(i) => {
                    crate::search::law_found_offset_matches(bytes, m.pattern, m.mask, 0);
                    let p = m.search.chunk + i;
                    assert(bytes.subrange(i, i + m.pattern.len()) =~= image_bytes(
                        mem,
                        base,
                        p,
                        m.pattern.len() as int,
                    ));
                },
                None => {},
            }
        },
        ScanPhase::Operand => {
            assert(address == operand_address(m));
        },
        ScanPhase::Label => {
            assert(address == m.target);
            if bytes == m.label {
                assert(image_bytes(mem, base, m.target, m.label.len() as int) == bytes);
            }
        },
        ScanPhase::Finished(_) => {},
    }
}

/// A new scan is sound.
pub proof fn law_new_scan_is_sound(m: ScanModel, mem: Seq<u8>, base: int)
    requires
        m.phase == ScanPhase::Searching || m.phase == ScanPhase::Finished(ScanEnd::NotFound),
    ensures
        scan_sound(m, mem, base),
{
}

/// The `len` bytes of the memory `f` (a byte at each address) at `address`.
pub open spec fn mem_window(f: spec_fn(int) -> u8, address: int, len: int) -> Seq<u8> {
    Seq::new(len as nat, |i: int| f(address + i))
}

/// What a scan looks for, which no step changes: the end of the range, the pattern
/// and its mask, where the instruction stands behind the pattern and how long it is,
/// the label, and the stride.
pub struct ScanGoal {
    pub end: int,
    pub pattern: Seq<u8>,
    pub mask: Seq<u8>,
    pub offset: int,
    pub op_size: int,
    pub label: Seq<u8>,
    pub stride: int,
}

/// What the scan in state `m` looks for.
pub open spec fn goal_of(m: ScanModel) -> ScanGoal {
    ScanGoal {
        end: m.end,
        pattern: m.pattern,
        mask: m.mask,
        offset: m.offset,
        op_size: m.op_size,
        label: m.label,
        stride: m.stride,
    }
}

/// The first address in `[lo, hi]` at which the pattern matches the memory `f`.
pub open spec fn first_match_mem(g: ScanGoal, f: spec_fn(int) -> u8, lo: int, hi: int) -> Option<int>
    decreases hi + 1 - lo,
{
    if lo > hi {
        None
    } else if crate::search::masked_match(mem_window(f, lo, g.pattern.len() as int), g.pattern, g.mask) {
        Some(lo)
    } else {
        first_match_mem(g, f, lo + 1, hi)
    }
}

/// Where the instruction near the candidate `p` leads, by the operand that `f` holds.
pub open spec fn target_in_mem(g: ScanGoal, f: spec_fn(int) -> u8, p: int) -> int {
    p + g.offset + g.op_size + sign_extend32(
        le_u32(mem_window(f, p + g.offset + g.op_size - RELATIVE_ADDRESS_T, RELATIVE_ADDRESS_T as int)),
    )
}

/// The instruction near the candidate `p` leads to the label in `f`.
pub open spec fn refers_in_mem(g: ScanGoal, f: spec_fn(int) -> u8, p: int) -> bool {
    mem_window(f, target_in_mem(g, f, p), g.label.len() as int) == g.label
}

/// A match found in `[lo, hi]` lies in `[lo, hi]`.
pub proof fn lemma_first_match_mem_bounds(g: ScanGoal, f: spec_fn(int) -> u8, lo: int, hi: int)
    ensures
        first_match_mem(g, f, lo, hi) matches Some(c) ==> lo <= c <= hi,
    decreases hi + 1 - lo,
{
    if lo <= hi {
        lemma_first_match_mem_bounds(g, f, lo + 1, hi);
    }
}

/// How a scan that searches from `from` on ends when every read gives the bytes that
/// `f` holds: at the first match of the pattern, `Found` when its instruction refers
/// to the label; otherwise the search goes on a stride behind that match, and ends
/// `NotFound` when that leaves the range. `PatternMissing` when no match is left in
/// the searched part of the range (a match must end before its last byte).
pub open spec fn outcome_from(g: ScanGoal, f: spec_fn(int) -> u8, from: int) -> ScanEnd
    decreases g.end - from when g.stride >= 1
{
    match first_match_mem(g, f, from, g.end - 1 - g.pattern.len()) {
        None => ScanEnd::PatternMissing,
        Some(c) => {
            proof {
                lemma_first_match_mem_bounds(g, f, from, g.end - 1 - g.pattern.len());
            }
            if refers_in_mem(g, f, c) {
                ScanEnd::Found(c as i64)
            } else if c + g.stride < g.end {
                outcome_from(g, f, c + g.stride)
            } else {
                ScanEnd::NotFound
            }
        },
    }
}

/// How the scan ends once it has the candidate `c`.
pub open spec fn outcome_at(g: ScanGoal, f: spec_fn(int) -> u8, c: int) -> ScanEnd {
    if refers_in_mem(g, f, c) {
        ScanEnd::Found(c as i64)
    } else if c + g.stride < g.end {
        outcome_from(g, f, c + g.stride)
    } else {
        ScanEnd::NotFound
    }
}

/// How a scan of `[start, end)` ends when every read gives the bytes that `f` holds:
/// `Found(c)` for the first candidate `c`, in stride order, whose instruction refers
/// to the label; `NotFound` when the strides leave the range first; `PatternMissing`
/// when the pattern cannot be found again.
pub open spec fn scan_outcome(g: ScanGoal, f: spec_fn(int) -> u8, start: int) -> ScanEnd {
    if start < g.end {
        outcome_from(g, f, start)
    } else {
        ScanEnd::NotFound
    }
}

/// The scan in state `m`, fed with what `f` holds, is on its way to `outcome`.
pub open spec fn on_track(m: ScanModel, f: spec_fn(int) -> u8, outcome: ScanEnd) -> bool {
    match m.phase {
        ScanPhase::Searching => outcome_from(goal_of(m), f, m.search.chunk) == outcome,
        ScanPhase::Operand => outcome_at(goal_of(m), f, m.candidate) == outcome,
        ScanPhase::Label => {
            &&& m.target == target_in_mem(goal_of(m), f, m.candidate)
            &&& outcome_at(goal_of(m), f, m.candidate) == outcome
        },
        ScanPhase::Finished(e) => e == outcome,
    }
}

proof fn lemma_hit_is_first_match_mem(
    g: ScanGoal,
    f: spec_fn(int) -> u8,
    bytes: Seq<u8>,
    chunk: int,
    from: int,
)
    requires
        bytes == mem_window(f, chunk, bytes.len() as int),
        0 <= from,
    ensures
        (match first_hit(bytes, g.pattern, g.mask, from) {
            Some(i) => Some(chunk + i),
            None => None::<int>,
        }) == first_match_mem(g, f, chunk + from, chunk + bytes.len() - g.pattern.len()),
    decreases bytes.len() + 1 - from,
{
    if from + g.pattern.len() > bytes.len() {
    } else {
        assert(bytes.subrange(from, from + g.pattern.len()) =~= mem_window(
            f,
            chunk + from,
            g.pattern.len() as int,
        ));
        lemma_hit_is_first_match_mem(g, f, bytes, chunk, from + 1);
    }
}

proof fn lemma_first_match_mem_split(g: ScanGoal, f: spec_fn(int) -> u8, lo: int, mid: int, hi: int)
    requires
        lo <= mid + 1,
        mid <= hi,
    ensures
        first_match_mem(g, f, lo, hi) == (match first_match_mem(g, f, lo, mid) {
            Some(p) => Some(p),
            None => first_match_mem(g, f, mid + 1, hi),
        }),
    decreases mid + 1 - lo,
{
    if lo <= mid {
        lemma_first_match_mem_split(g, f, lo + 1, mid, hi);
    }
}

/// A new scan of `[start, end)` is on its way to `scan_outcome`.
pub proof fn law_new_scan_on_track(m: ScanModel, f: spec_fn(int) -> u8, start: int)
    requires
        m.search.chunk == start,
        m.phase == (if start < m.end {
            ScanPhase::Searching
        } else {
            ScanPhase::Finished(ScanEnd::NotFound)
        }),
    ensures
        on_track(m, f, scan_outcome(goal_of(m), f, start)),
{
}

/// Every step of a scan whose reads give all the bytes that the memory `f` holds at the
/// addresses read keeps it on its way to the same outcome (patterns of at most one
/// buffer's length, strides of at least one byte).
pub proof fn law_scan_stays_on_track(m: ScanModel, f: spec_fn(int) -> u8, outcome: ScanEnd, bytes: Seq<u8>)
    requires
        scan_wf(m),
        m.stride >= 1,
        m.pattern.len() <= crate::memory::BUFFER_T,
        m.label.len() <= usize::MAX,
        on_track(m, f, outcome),
        scan_feedable(m, bytes),
        scan_step(m) matches ScanAction::Read { address, len } && bytes == mem_window(
            f,
            address as int,
            len as int,
        ),
    ensures
        on_track(scan_after(m, bytes), f, outcome),
        goal_of(scan_after(m, bytes)) == goal_of(m),
{
    let g = goal_of(m);
    let plen = m.pattern.len() as int;
    match m.phase {
        ScanPhase::Searching => {
            let chunk = m.search.chunk;
            let n = bytes.len() as int;
            let hi = m.end - 1 - plen;
            let mid = chunk + n - plen;
            lemma_hit_is_first_match_mem(g, f, bytes, chunk, 0);
            lemma_first_match_mem_split(g, f, chunk, mid, hi);
            assert(goal_of(scan_after(m, bytes)) == g);
            match first_hit(bytes, m.pattern, m.mask, 0) {
                Some(i) => {
                    assert(first_match_mem(g, f, chunk, hi) == Some(chunk + i));
                    assert(outcome_from(g, f, chunk) == outcome_at(g, f, chunk + i));
                },
                None => {
                    if plen == 0 {
                        assert(crate::search::masked_match(bytes.subrange(0, 0), m.pattern, m.mask));
                        assert(false);
                    }
                    assert(scan_after(m, bytes).search.chunk == mid + 1);
                    assert(first_match_mem(g, f, chunk, hi) == first_match_mem(g, f, mid + 1, hi));
                    assert(outcome_from(g, f, chunk) == outcome_from(g, f, mid + 1));
                },
            }
        },
        ScanPhase::Operand => {},
        ScanPhase::Label => {
            assert(goal_of(scan_after(m, bytes)) == g);
            assert(bytes == mem_window(f, m.target, m.label.len() as int));
            assert((bytes == m.label) == refers_in_mem(g, f, m.candidate));
        },
        ScanPhase::Finished(_) => {},
    }
}

/// A scan on its way to `outcome` whose next step ends it ends with `outcome` (patterns
/// of at most one buffer's length).
pub proof fn law_finished_scan_reaches_outcome(m: ScanModel, f: spec_fn(int) -> u8, outcome: ScanEnd)
    requires
        scan_wf(m),
        m.stride >= 1,
        m.pattern.len() <= crate::memory::BUFFER_T,
        on_track(m, f, outcome),
        scan_step(m) is Finished,
    ensures
        scan_step(m) == ScanAction::Finished(outcome),
{
    if m.phase is Searching {
        let g = goal_of(m);
        assert(first_match_mem(g, f, m.search.chunk, m.end - 1 - m.pattern.len()) is None);
    }
}

/// How far a scan is from its end: every step that reads lowers it, and it never goes
/// below zero.
pub open spec fn scan_measure(m: ScanModel) -> int {
    match m.phase {
        ScanPhase::Searching => if m.search.chunk < m.end {
            3 * (m.end - m.search.chunk) + 2
        } else {
            0
        },
        ScanPhase::Operand => 3 * (m.end - m.candidate) + 1,
        ScanPhase::Label => 3 * (m.end - m.candidate),
        ScanPhase::Finished(_) => 0,
    }
}

/// Every step of a scan (with a stride of at least one byte) lowers its measure, so
/// that every scan ends.
pub proof fn law_scan_step_progresses(m: ScanModel, bytes: Seq<u8>)
    requires
        scan_wf(m),
        m.stride >= 1,
        scan_feedable(m, bytes),
    ensures
        0 <= scan_measure(scan_after(m, bytes)) < scan_measure(m),
{
    if m.phase is Searching {
        crate::search::law_miss_moves_forward(m.search, bytes.len() as int);
        match first_hit(bytes, m.pattern, m.mask, 0) {
            Some(i) => {
                crate::search::law_found_offset_matches(bytes, m.pattern, m.mask, 0);
            },
            None => {},
        }
    }
}

} // verus!
