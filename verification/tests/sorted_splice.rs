use kmd_logic::sorted_splice_range;

fn retained_then_sorted(
    existing: &[(u64, u64)],
    first: u64,
    end: u64,
    block: &[(u64, u64)],
) -> Vec<(u64, u64)> {
    let mut out: Vec<(u64, u64)> = existing
        .iter()
        .copied()
        .filter(|(k, _)| *k < first || *k >= end)
        .collect();
    out.extend_from_slice(block);
    out.sort_by_key(|(k, _)| *k);
    out
}

fn spliced(
    existing: &[(u64, u64)],
    first: u64,
    end: u64,
    block: &[(u64, u64)],
) -> Vec<(u64, u64)> {
    let keys: Vec<u64> = existing.iter().map(|(k, _)| *k).collect();
    let (start, removed) = sorted_splice_range(&keys, first, end);
    let mut out: Vec<(u64, u64)> = Vec::new();
    out.extend_from_slice(&existing[..start]);
    out.extend_from_slice(block);
    out.extend_from_slice(&existing[start + removed..]);
    out
}

fn next(state: &mut u64) -> u64 {
    let mut x = *state;
    x ^= x << 13;
    x ^= x >> 7;
    x ^= x << 17;
    *state = x;
    x
}

#[test]
fn splice_matches_retain_then_sort_over_random_ranges() {
    let mut seed = 0x9E37_79B9_7F4A_7C15u64;
    for case in 0..2000u64 {
        let n = (next(&mut seed) % 40) as usize;
        let mut existing: Vec<(u64, u64)> = Vec::new();
        let mut key = next(&mut seed) % 8;
        for i in 0..n {
            existing.push((key, key * 1000 + i as u64));
            key += 1 + next(&mut seed) % 4;
        }

        let first = next(&mut seed) % 80;
        let len = next(&mut seed) % 12;
        let end = first + len;
        let block: Vec<(u64, u64)> = (first..end).map(|k| (k, k * 7 + case)).collect();

        let want = retained_then_sorted(&existing, first, end, &block);
        let got = spliced(&existing, first, end, &block);
        assert_eq!(want, got, "case {case}: first={first} end={end}");
        assert!(
            got.windows(2).all(|w| w[0].0 <= w[1].0),
            "case {case} unsorted"
        );
    }
}

#[test]
fn empty_block_is_pure_removal() {
    let existing = [(1u64, 10u64), (2, 20), (5, 50), (9, 90)];
    let keys: Vec<u64> = existing.iter().map(|(k, _)| *k).collect();
    let (start, removed) = sorted_splice_range(&keys, 2, 6);
    assert_eq!((start, removed), (1, 2));
}

#[test]
fn range_beyond_the_end_removes_nothing() {
    let existing = [(1u64, 10u64), (2, 20)];
    let keys: Vec<u64> = existing.iter().map(|(k, _)| *k).collect();
    assert_eq!(sorted_splice_range(&keys, 100, 200), (2, 0));
}
