use fixfifa::fifa19::{search_alt_tab_check, search_leave_game};
use fixfifa::scan::{LabelScan, ScanAction, ScanEnd, ScanPhase};
use fixfifa::search::EXACT;

fn run(mut s: LabelScan, mem: &[u8]) -> ScanEnd {
    let mut step = s.step();
    loop {
        match step {
            ScanAction::Read { address, len } => {
                let from = address as usize;
                let to = (from + len).min(mem.len());
                step = s.feed(&mem[from..to]);
            }
            ScanAction::Finished(end) => return end,
        }
    }
}

/// Memory with the pattern at `at`, and a 7-byte instruction `offset` bytes behind it
/// whose operand points at `label_at`.
fn image(at: usize, offset: usize, label_at: usize, label: &[u8]) -> Vec<u8> {
    let mut mem = vec![0u8; 4096];
    mem[at..at + 3].copy_from_slice(&[0xAA, 0xBB, 0xCC]);
    let insn = at + offset;
    let rel = label_at as i64 - (insn as i64 + 7);
    mem[insn + 3..insn + 7].copy_from_slice(&(rel as i32).to_le_bytes());
    mem[label_at..label_at + label.len()].copy_from_slice(label);
    mem
}

#[test]
fn leave_game_is_found() {
    let mem = image(100, 23, 2000, b"LeaveGame");
    let s = search_leave_game(0, 4000, &[0xAA, 0xBB, 0xCC], &[EXACT; 3], 3);
    assert_eq!(run(s, &mem), ScanEnd::Found(100));
}

#[test]
fn wrong_label_moves_on_then_pattern_missing() {
    let mem = image(100, 23, 2000, b"LeaveGamX");
    let s = search_leave_game(0, 4000, &[0xAA, 0xBB, 0xCC], &[EXACT; 3], 3);
    assert_eq!(run(s, &mem), ScanEnd::PatternMissing);
}

#[test]
fn second_candidate_is_taken() {
    let mut mem = image(100, 23, 2000, b"LeaveGamX");
    mem[300..303].copy_from_slice(&[0xAA, 0xBB, 0xCC]);
    let rel = 2500i64 - (300 + 23 + 7);
    mem[300 + 23 + 3..300 + 23 + 7].copy_from_slice(&(rel as i32).to_le_bytes());
    mem[2500..2509].copy_from_slice(b"LeaveGame");
    let s = search_leave_game(0, 4000, &[0xAA, 0xBB, 0xCC], &[EXACT; 3], 3);
    assert_eq!(run(s, &mem), ScanEnd::Found(300));
}

#[test]
fn alt_tab_label_is_found() {
    let label = b"FIFA_SETTING_ENABLE_ALT_TAB_DISCONNECTS";
    let mem = image(50, 33, 3000, label);
    let s = search_alt_tab_check(0, 4000, &[0xAA, 0xBB, 0xCC], &[EXACT; 3], 3);
    assert_eq!(run(s, &mem), ScanEnd::Found(50));
}

#[test]
fn empty_range_ends_without_search() {
    let s = search_leave_game(10, 10, &[1], &[EXACT], 3);
    assert_eq!(s.step(), ScanAction::Finished(ScanEnd::NotFound));
}

#[test]
fn short_operand_read_ends_the_scan() {
    let mem = image(100, 23, 2000, b"LeaveGame");
    let mut s = search_leave_game(0, 4000, &[0xAA, 0xBB, 0xCC], &[EXACT; 3], 3);
    let mut step = s.step();
    loop {
        match step {
            ScanAction::Read { address, len } if len == 4 => {
                let a = address as usize;
                step = s.feed(&mem[a..a + 2]);
            }
            ScanAction::Read { address, len } => {
                let a = address as usize;
                step = s.feed(&mem[a..a + len]);
            }
            ScanAction::Finished(end) => {
                assert_eq!(end, ScanEnd::BadOperand);
                break;
            }
        }
    }
}

#[test]
fn phase_follows_the_reads() {
    let mem = image(100, 23, 2000, b"LeaveGame");
    let mut s = search_leave_game(0, 4000, &[0xAA, 0xBB, 0xCC], &[EXACT; 3], 3);
    assert_eq!(s.phase(), ScanPhase::Searching);
    let mut phases = Vec::new();
    let mut step = s.step();
    while let ScanAction::Read { address, len } = step {
        let a = address as usize;
        step = s.feed(&mem[a..a + len]);
        phases.push(s.phase());
    }
    assert_eq!(
        phases,
        vec![ScanPhase::Operand, ScanPhase::Label, ScanPhase::Finished(ScanEnd::Found(100))]
    );
}

#[test]
fn stride_skips_a_nearby_candidate() {
    // Candidates at 100 (wrong name) and 104 (right name); a stride of 5 skips 104.
    let mut mem = vec![0u8; 4096];
    mem[100] = 0xAA;
    mem[104] = 0xAA;
    let rel = 2000i64 - (100 + 23 + 7);
    mem[126..130].copy_from_slice(&(rel as i32).to_le_bytes());
    let rel = 2500i64 - (104 + 23 + 7);
    mem[130..134].copy_from_slice(&(rel as i32).to_le_bytes());
    mem[2000..2009].copy_from_slice(b"LeaveGamX");
    mem[2500..2509].copy_from_slice(b"LeaveGame");
    let s = search_leave_game(0, 4000, &[0xAA], &[EXACT], 5);
    assert_eq!(run(s, &mem), ScanEnd::PatternMissing);
    let s = search_leave_game(0, 4000, &[0xAA], &[EXACT], 4);
    assert_eq!(run(s, &mem), ScanEnd::Found(104));
    let s = search_leave_game(0, 104, &[0xAA], &[EXACT], 4);
    assert_eq!(run(s, &mem), ScanEnd::NotFound);
}
