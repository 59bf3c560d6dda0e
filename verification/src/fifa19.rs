//! The fixes applied inside the game: finding the "leave game" routine, turning the
//! alt-tab disconnect off, hooking the event dispatcher, and showing or hiding the
//! console window.
use vstd::prelude::*;
use vstd::string::StringSliceAdditionalSpecFns;
use crate::error::ProcessError;
use crate::memory::{rel_jump_bytes, rel_operand, address_bytes};
use crate::scan::{LabelScan, ScanModel, ScanPhase, ScanEnd, scan_wf};
use crate::search::SearchModel;
use crate::words::{dword_le, qword_le, as_unsigned64, QWORD_T};

verus! {

/// Offset of the `call` that refers to the "LeaveGame" name, behind its pattern.
pub const LEAVE_GAME_OPERAND_OFFSET: i64 = 23;
/// Size of an instruction with a relative 32-bit operand and a 3-byte opcode part.
pub const REL_OP_SIZE: usize = 7;
/// Offset of the conditional jump that disconnects on alt-tab, behind its pattern.
pub const ALT_TAB_JUMP_OFFSET: i64 = 21;
/// Offset of the instruction that refers to the alt-tab setting's name.
pub const ALT_TAB_OPERAND_OFFSET: i64 = 33;
/// Size of a conditional near jump (`0F 8x rel32`).
pub const JCC_SIZE: usize = 6;
/// Offset of the hooked instruction behind the event dispatcher's pattern.
pub const EVENT_HOOK_OFFSET_T: i64 = 18;
/// Number of free bytes the event hook's code needs.
pub const EVENT_HOOK_T: usize = 76;
/// Opcode of a near relative jump.
pub const JMP: u8 = 0xE9;
/// Opcode of `nop`.
pub const NOP: u8 = 0x90;

/// The scan for the routine that leaves the game: the instruction 23 bytes behind
/// the pattern, 7 bytes long, refers to the name "LeaveGame".
pub fn search_leave_game(start: i64, end: i64, pattern: &[u8], mask: &[u8], stride: usize) -> (s: LabelScan)
    requires
        mask@.len() >= pattern@.len(),
        0 <= start,
        stride <= i64::MAX,
        end + 0x8000_0100 <= i64::MAX,
        end + stride <= i64::MAX,
    ensures
        scan_wf(s@),
        s@.search == (SearchModel { chunk: start as int, end: end as int, find: pattern@, mask: mask@ }),
        s@.offset == LEAVE_GAME_OPERAND_OFFSET,
        s@.op_size == REL_OP_SIZE,
        s@.label == "LeaveGame".spec_bytes(),
        s@.stride == stride,
        s@.phase == (if start < end { ScanPhase::Searching } else { ScanPhase::Finished(ScanEnd::NotFound) }),
{
    LabelScan::new(
        start,
        end,
        pattern,
        mask,
        LEAVE_GAME_OPERAND_OFFSET,
        REL_OP_SIZE,
        "LeaveGame".as_bytes(),
        stride,
    )
}

/// The scan for the check that disconnects on alt-tab: the instruction 33 bytes
/// behind the pattern, 7 bytes long, refers to the name of the setting
/// "FIFA_SETTING_ENABLE_ALT_TAB_DISCONNECTS".
pub fn search_alt_tab_check(start: i64, end: i64, pattern: &[u8], mask: &[u8], stride: usize) -> (s: LabelScan)
    requires
        mask@.len() >= pattern@.len(),
        0 <= start,
        stride <= i64::MAX,
        end + 0x8000_0100 <= i64::MAX,
        end + stride <= i64::MAX,
    ensures
        scan_wf(s@),
        s@.search == (SearchModel { chunk: start as int, end: end as int, find: pattern@, mask: mask@ }),
        s@.offset == ALT_TAB_OPERAND_OFFSET,
        s@.op_size == REL_OP_SIZE,
        s@.label == "FIFA_SETTING_ENABLE_ALT_TAB_DISCONNECTS".spec_bytes(),
        s@.stride == stride,
        s@.phase == (if start < end { ScanPhase::Searching } else { ScanPhase::Finished(ScanEnd::NotFound) }),
{
    LabelScan::new(
        start,
        end,
        pattern,
        mask,
        ALT_TAB_OPERAND_OFFSET,
        REL_OP_SIZE,
        "FIFA_SETTING_ENABLE_ALT_TAB_DISCONNECTS".as_bytes(),
        stride,
    )
}

/// Where the conditional jump that disconnects on alt-tab stands, once its pattern
/// was found at `pattern_addr`; an address of zero stands for "not found", and
/// nothing is patched then.
pub fn alt_tab_jump_address(pattern_addr: i64) -> (r: Option<i64>)
    requires
        pattern_addr + ALT_TAB_JUMP_OFFSET <= i64::MAX,
    ensures
        pattern_addr == 0 ==> r is None,
        pattern_addr != 0 ==> r == Some((pattern_addr + ALT_TAB_JUMP_OFFSET) as i64),
{
    if pattern_addr != 0 {
        Some(pattern_addr + ALT_TAB_JUMP_OFFSET)
    } else {
        None
    }
}

/// The six bytes that replace the conditional jump at `address`, which reaches
/// `target`: an unconditional jump to the same target, then a `nop`.
pub fn unconditional_jump_patch(address: i64, target: i64) -> (r: Vec<u8>)
    requires
        i64::MIN <= target - address <= i64::MAX,
        i64::MIN <= rel_operand(address as int, 1, target as int) <= i64::MAX,
    ensures
        r@ == seq![JMP] + dword_le(as_unsigned64(rel_operand(address as int, 1, target as int)))
            + seq![NOP],
        r@.len() == JCC_SIZE,
{
    let op = [JMP];
    let mut out = rel_jump_bytes(address, op.as_slice(), target);
    assert(op@ =~= seq![JMP]);
    out.push(NOP);
    out
}

/// Where the hooked instruction stands behind the event dispatcher's pattern.
pub fn event_hook_address(pattern_addr: i64) -> (r: i64)
    requires
        pattern_addr + EVENT_HOOK_OFFSET_T <= i64::MAX,
    ensures
        r == pattern_addr + EVENT_HOOK_OFFSET_T,
{
    pattern_addr + EVENT_HOOK_OFFSET_T
}

/// The jump written over the hooked instruction at `hook_addr`: to the hook's code
/// at `inject_addr`. The code returns to the address behind this jump.
pub fn event_hook_jump(hook_addr: i64, inject_addr: i64) -> (r: Vec<u8>)
    requires
        i64::MIN <= inject_addr - hook_addr <= i64::MAX,
        i64::MIN <= rel_operand(hook_addr as int, 1, inject_addr as int) <= i64::MAX,
    ensures
        r@ == seq![JMP] + dword_le(
            as_unsigned64(rel_operand(hook_addr as int, 1, inject_addr as int)),
        ),
{
    let op = [JMP];
    let out = rel_jump_bytes(hook_addr, op.as_slice(), inject_addr);
    assert(op@ =~= seq![JMP]);
    out
}

fn append_bytes(out: &mut Vec<u8>, more: &[u8])
    ensures
        final(out)@ == old(out)@ + more@,
{
    let mut i: usize = 0;
    while i < more.len()
        invariant
            0 <= i <= more@.len(),
            out@ =~= old(out)@ + more@.subrange(0, i as int),
        decreases more@.len() - i,
    {
        out.push(more[i]);
        i = i + 1;
    }
    assert(more@.subrange(0, more@.len() as int) =~= more@);
}

/// The bytes of the hook's code before its final jump: save the registers, prepare
/// the call, the address of the event handler, the call, restore the registers, and
/// the instruction that the hook replaced.
pub open spec fn hook_body(
    push: Seq<u8>,
    prepare_call: Seq<u8>,
    on_event: int,
    call: Seq<u8>,
    pop: Seq<u8>,
    original: Seq<u8>,
) -> Seq<u8> {
    push + prepare_call + qword_le(as_unsigned64(on_event)) + call + pop + original
}

/// The code of the event hook, written at `inject_addr`: its body, then a jump back
/// to `return_addr`.
pub fn event_hook_code(
    inject_addr: i64,
    on_event: i64,
    return_addr: i64,
    push: &[u8],
    prepare_call: &[u8],
    call: &[u8],
    pop: &[u8],
    original: &[u8],
) -> (r: Vec<u8>)
    requires
        ({
            let len = hook_body(push@, prepare_call@, on_event as int, call@, pop@, original@).len();
            &&& len <= i64::MAX
            &&& inject_addr + len <= i64::MAX
            &&& i64::MIN <= return_addr - (inject_addr + len) <= i64::MAX
            &&& i64::MIN <= rel_operand(inject_addr + len, 1, return_addr as int)
        }),
    ensures
        ({
            let body = hook_body(push@, prepare_call@, on_event as int, call@, pop@, original@);
            r@ == body + seq![JMP] + dword_le(
                as_unsigned64(rel_operand(inject_addr + body.len(), 1, return_addr as int)),
            )
        }),
{
    let mut out: Vec<u8> = Vec::new();
    append_bytes(&mut out, push);
    append_bytes(&mut out, prepare_call);
    match address_bytes(on_event, QWORD_T) {
        Ok(q) => append_bytes(&mut out, q.as_slice()),
        Err(_) => {
            assert(false);
        },
    }
    append_bytes(&mut out, call);
    append_bytes(&mut out, pop);
    append_bytes(&mut out, original);
    let ghost body = hook_body(push@, prepare_call@, on_event as int, call@, pop@, original@);
    assert(out@ =~= body);
    let at: i64 = inject_addr + out.len() as i64;
    let op = [JMP];
    let jump = rel_jump_bytes(at, op.as_slice(), return_addr);
    assert(op@ =~= seq![JMP]);
    append_bytes(&mut out, jump.as_slice());
    out
}

/// The jump that replaces the alt-tab check reaches the same target as the
/// conditional jump it replaces, fills the same six bytes, and only its opcode and
/// operand differ from a plain `jmp` followed by a `nop`; this holds whenever the
/// distance fits in 32 signed bits.
pub proof fn law_alt_tab_patch_keeps_target(address: int, target: int)
    requires
        -0x8000_0000 <= rel_operand(address, 1, target) < 0x8000_0000,
    ensures
        ({
            let b = seq![JMP] + dword_le(as_unsigned64(rel_operand(address, 1, target))) + seq![NOP];
            &&& b.len() == JCC_SIZE
            &&& b[0] == JMP
            &&& b[5] == NOP
            &&& address + 5 + crate::words::sign_extend32(crate::words::le_u32(b.subrange(1, 5)))
                == target
        }),
{
    crate::memory::law_rel_jump_roundtrip(address, seq![JMP], target);
    let j = seq![JMP] + dword_le(as_unsigned64(rel_operand(address, 1, target)));
    let b = j + seq![NOP];
    assert(b.subrange(1, 5) =~= j.subrange(1, 5));
}

/// The event hook leads to its code and back: the jump over the hooked instruction
/// reaches the code at `inject_addr`, and the jump that ends the code (behind a body
/// of `body_len` bytes) reaches the instruction behind the hook's jump. This holds
/// whenever both distances fit in 32 signed bits.
pub proof fn law_event_hook_round_trip(hook_addr: int, inject_addr: int, body_len: int)
    requires
        body_len >= 0,
        -0x8000_0000 <= rel_operand(hook_addr, 1, inject_addr) < 0x8000_0000,
        -0x8000_0000 <= rel_operand(inject_addr + body_len, 1, hook_addr + 5) < 0x8000_0000,
    ensures
        ({
            let hook = seq![JMP] + dword_le(as_unsigned64(rel_operand(hook_addr, 1, inject_addr)));
            &&& hook.len() == 5
            &&& hook_addr + 5 + crate::words::sign_extend32(crate::words::le_u32(hook.subrange(1, 5)))
                == inject_addr
        }),
        ({
            let back = seq![JMP] + dword_le(
                as_unsigned64(rel_operand(inject_addr + body_len, 1, hook_addr + 5)),
            );
            &&& back.len() == 5
            &&& inject_addr + body_len + 5 + crate::words::sign_extend32(
                crate::words::le_u32(back.subrange(1, 5)),
            ) == hook_addr + 5
        }),
{
    crate::memory::law_rel_jump_roundtrip(hook_addr, seq![JMP], inject_addr);
    crate::memory::law_rel_jump_roundtrip(inject_addr + body_len, seq![JMP], hook_addr + 5);
}

/// What the console switch does next.
#[derive(Debug)]
pub enum ConsoleAction {
    /// Look for the process's console window and hand `window_found` the answer.
    QueryWindow,
    /// Allocate a console and hand `console_allocated` the answer.
    AllocConsole,
    /// Show (or hide) the window that was found and hand `window_shown` the answer.
    Show { visible: bool },
    /// The switch is over, with this result.
    Done(Result<(), ProcessError>),
    /// No window could be found; the switch gives up.
    Abort(ProcessError),
}

/// Where the console switch stands.
#[derive(Debug, Clone, Copy, PartialEq, Eq, Structural)]
pub enum ConsolePhase {
    /// Looking for the window; `alloc` says whether a console may still be allocated.
    Query { alloc: bool },
    /// Allocating a console.
    Allocating,
    /// Showing or hiding the window.
    Showing,
}

/// Showing or hiding the console window of the process, allocating a console first
/// when one is shown and there is none.
pub struct ConsoleSwitch {
    pub enabled: bool,
    pub phase: ConsolePhase,
}

/// Shows the console window; a console is allocated when there is none.
pub fn enable_console() -> (c: ConsoleSwitch)
    ensures
        c.enabled,
        c.phase == (ConsolePhase::Query { alloc: true }),
{
    ConsoleSwitch { enabled: true, phase: ConsolePhase::Query { alloc: true } }
}

/// Hides the console window; there must be one.
pub fn disable_console() -> (c: ConsoleSwitch)
    ensures
        !c.enabled,
        c.phase == (ConsolePhase::Query { alloc: false }),
{
    ConsoleSwitch { enabled: false, phase: ConsolePhase::Query { alloc: false } }
}

impl ConsoleSwitch {
    /// The first action of the switch.
    pub fn start(&self) -> (a: ConsoleAction)
        ensures
            self.phase is Query ==> a == ConsoleAction::QueryWindow,
            self.phase is Allocating ==> a == ConsoleAction::AllocConsole,
            self.phase is Showing ==> a == (ConsoleAction::Show { visible: self.enabled }),
    {
        match self.phase {
            ConsolePhase::Query { .. } => ConsoleAction::QueryWindow,
            ConsolePhase::Allocating => ConsoleAction::AllocConsole,
            ConsolePhase::Showing => ConsoleAction::Show { visible: self.enabled },
        }
    }

    /// Whether the window was found: it is shown or hidden then; otherwise a console
    /// is allocated if that is still allowed, and the switch gives up if not.
    pub fn window_found(&mut self, found: bool) -> (a: ConsoleAction)
        requires
            old(self).phase is Query,
        ensures
            final(self).enabled == old(self).enabled,
            found ==> final(self).phase == ConsolePhase::Showing && a == (ConsoleAction::Show {
                visible: old(self).enabled,
            }),
            !found && old(self).phase->alloc ==> final(self).phase == ConsolePhase::Allocating
                && a == ConsoleAction::AllocConsole,
            !found && !old(self).phase->alloc ==> final(self).phase == old(self).phase && (a matches ConsoleAction::Abort(e) && e.message() == "Console window not found."@),
    {
        let alloc = match self.phase {
            ConsolePhase::Query { alloc } => alloc,
            _ => false,
        };
        if found {
            self.phase = ConsolePhase::Showing;
            ConsoleAction::Show { visible: self.enabled }
        } else if alloc {
            self.phase = ConsolePhase::Allocating;
            ConsoleAction::AllocConsole
        } else {
            ConsoleAction::Abort(ProcessError::new("Console window not found."))
        }
    }

    /// A console was allocated (whether that succeeded is not looked at): the window
    /// is looked for once more, and no further console may be allocated.
    pub fn console_allocated(&mut self, _allocated: bool) -> (a: ConsoleAction)
        requires
            old(self).phase is Allocating,
        ensures
            final(self).enabled == old(self).enabled,
            final(self).phase == (ConsolePhase::Query { alloc: false }),
            a == ConsoleAction::QueryWindow,
    {
        self.phase = ConsolePhase::Query { alloc: false };
        ConsoleAction::QueryWindow
    }

    /// Whether showing or hiding the window succeeded: the switch is over.
    pub fn window_shown(&self, success: bool) -> (a: ConsoleAction)
        requires
            self.phase is Showing,
        ensures
            success ==> a == ConsoleAction::Done(Ok(())),
            !success ==> (a matches ConsoleAction::Done(Err(e)) && e.message() == "ShowWindow failed."@),
    {
        if success {
            ConsoleAction::Done(Ok(()))
        } else {
            ConsoleAction::Done(Err(ProcessError::new("ShowWindow failed.")))
        }
    }
}

/// The hook's code saves the registers and prepares the call with the given bytes, then
/// holds the full 64-bit address of the event handler (seen as unsigned, its high double
/// word included), little-endian, for every handler address.
pub proof fn law_hook_holds_the_handler_address(
    push: Seq<u8>,
    prepare_call: Seq<u8>,
    on_event: i64,
    call: Seq<u8>,
    pop: Seq<u8>,
    original: Seq<u8>,
)
    ensures
        ({
            let b = hook_body(push, prepare_call, on_event as int, call, pop, original);
            let at = (push.len() + prepare_call.len()) as int;
            &&& b.subrange(0, push.len() as int) == push
            &&& b.subrange(push.len() as int, at) == prepare_call
            &&& crate::words::le_u64(b.subrange(at, at + 8)) == (if on_event >= 0 {
                on_event as int
            } else {
                on_event + 0x1_0000_0000_0000_0000
            })
        }),
{
    let u = as_unsigned64(on_event as int);
    crate::words::law_qword_roundtrip(u);
    let b = hook_body(push, prepare_call, on_event as int, call, pop, original);
    let at = (push.len() + prepare_call.len()) as int;
    assert(b.subrange(0, push.len() as int) =~= push);
    assert(b.subrange(push.len() as int, at) =~= prepare_call);
    assert(b.subrange(at, at + 8) =~= qword_le(u));
}

} // verus!
