use fixfifa::search::{pattern_not_found, PatternSearch, SearchStep, EXACT, WILDCARD};

/// Runs a search against a memory image that starts at `base`; every read gives at
/// most `chunk_limit` of the bytes asked for.
fn run(mut s: PatternSearch, mem: &[u8], base: i64, chunk_limit: usize) -> Option<i64> {
    let mut step = s.step();
    loop {
        match step {
            SearchStep::Read { address, len } => {
                let from = (address - base) as usize;
                let n = len.min(chunk_limit);
                step = s.feed(&mem[from..from + n]);
            }
            SearchStep::Found(p) => return Some(p),
            SearchStep::NotFound => return None,
        }
    }
}

#[test]
fn finds_exact_pattern() {
    let mut mem = vec![0u8; 100];
    mem[40..44].copy_from_slice(&[1, 2, 3, 4]);
    let s = PatternSearch::find_pattern(1000, 1100, &[1, 2, 3, 4]);
    assert_eq!(run(s, &mem, 1000, usize::MAX), Some(1040));
}

#[test]
fn wildcard_matches_any_byte() {
    let mut mem = vec![0u8; 100];
    mem[10..14].copy_from_slice(&[9, 7, 3, 9]);
    let s = PatternSearch::find_pattern_mask(0, 100, &[9, 0, 3, 9], &[EXACT, WILDCARD, EXACT, EXACT]);
    assert_eq!(run(s, &mem, 0, usize::MAX), Some(10));
}

#[test]
fn pattern_across_chunk_boundary_is_found() {
    let mut mem = vec![0u8; 20000];
    mem[8190..8194].copy_from_slice(&[5, 6, 7, 8]);
    let s = PatternSearch::find_pattern(0, 20000, &[5, 6, 7, 8]);
    assert_eq!(run(s, &mem, 0, usize::MAX), Some(8190));
}

#[test]
fn first_of_two_matches_is_found() {
    let mut mem = vec![0u8; 30000];
    mem[9000..9002].copy_from_slice(&[1, 1]);
    mem[20000..20002].copy_from_slice(&[1, 1]);
    let s = PatternSearch::find_pattern(0, 30000, &[1, 1]);
    assert_eq!(run(s, &mem, 0, usize::MAX), Some(9000));
}

#[test]
fn last_byte_of_range_is_not_searched() {
    let mut mem = vec![0u8; 10];
    mem[8..10].copy_from_slice(&[4, 4]);
    let s = PatternSearch::find_pattern(0, 10, &[4, 4]);
    assert_eq!(run(s, &mem, 0, usize::MAX), None);
    let mut mem = vec![0u8; 10];
    mem[7..9].copy_from_slice(&[4, 4]);
    let s = PatternSearch::find_pattern(0, 10, &[4, 4]);
    assert_eq!(run(s, &mem, 0, usize::MAX), Some(7));
}

#[test]
fn short_reads_still_find() {
    let mut mem = vec![0u8; 64];
    mem[30..33].copy_from_slice(&[2, 3, 4]);
    let s = PatternSearch::find_pattern(0, 64, &[2, 3, 4]);
    assert_eq!(run(s, &mem, 0, 5), Some(30));
}

#[test]
fn space_is_a_run_of_int3() {
    let mut mem = vec![0u8; 64];
    mem[20..30].copy_from_slice(&[0xCC; 10]);
    let s = PatternSearch::find_space(0, 64, 8);
    assert_eq!(run(s, &mem, 0, usize::MAX), Some(20));
}

#[test]
fn empty_range_is_not_found() {
    let s = PatternSearch::find_pattern(50, 50, &[1]);
    assert_eq!(s.step(), SearchStep::NotFound);
    assert_eq!(pattern_not_found().description(), "Pattern not found.");
}

#[test]
fn first_step_reads_up_to_the_byte_before_end() {
    let s = PatternSearch::find_pattern(100, 110, &[1]);
    assert_eq!(s.step(), SearchStep::Read { address: 100, len: 9 });
    let s = PatternSearch::find_pattern(0, 100000, &[1]);
    assert_eq!(s.step(), SearchStep::Read { address: 0, len: 8192 });
}
