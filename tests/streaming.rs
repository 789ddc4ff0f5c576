use xxhash::XXH32;
use xxhash::XXH64;

fn pattern(len: usize) -> Vec<u8> {
    (0..len).map(|i| (i * 7 + 3) as u8).collect()
}

/// Every way of cutting `data` at two points.
fn two_cuts(len: usize) -> Vec<(usize, usize)> {
    let mut out = Vec::new();
    for a in 0..=len {
        for b in a..=len {
            out.push((a, b));
        }
    }
    out
}

#[test]
fn xxh32_chunking_does_not_matter() {
    let data = pattern(70);
    let whole = XXH32::hash_with_seed(9, &data);
    for (a, b) in two_cuts(data.len()) {
        let mut s = XXH32::with_seed(9);
        s.write(&data[..a]);
        s.write(&data[a..b]);
        s.write(&data[b..]);
        assert_eq!(s.finish(), whole);
    }
}

#[test]
fn xxh64_chunking_does_not_matter() {
    let data = pattern(100);
    let whole = XXH64::hash_with_seed(9, &data);
    for (a, b) in two_cuts(data.len()) {
        let mut s = XXH64::with_seed(9);
        s.write(&data[..a]);
        s.write(&data[a..b]);
        s.write(&data[b..]);
        assert_eq!(s.finish(), whole);
    }
}

#[test]
fn one_shot_matches_streaming() {
    for len in 0..80 {
        let data = pattern(len);
        let mut s32 = XXH32::with_seed(0xDEAD_BEEF);
        s32.write(&data);
        assert_eq!(s32.finish(), XXH32::hash_with_seed(0xDEAD_BEEF, &data));
        let mut s64 = XXH64::with_seed(0xDEAD_BEEF_0BAD_F00D);
        s64.write(&data);
        assert_eq!(s64.finish(), XXH64::hash_with_seed(0xDEAD_BEEF_0BAD_F00D, &data));
        assert_eq!(XXH32::hash(&data), XXH32::hash_with_seed(0, &data));
        assert_eq!(XXH64::hash(&data), XXH64::hash_with_seed(0, &data));
    }
}

#[test]
fn finish_is_repeatable() {
    let data = pattern(45);
    let mut s32 = XXH32::new();
    s32.write(&data);
    let first = s32.finish();
    assert_eq!(s32.finish(), first);
    assert_eq!(s32.finish(), first);
    let mut s64 = XXH64::new();
    s64.write(&data);
    let first = s64.finish();
    assert_eq!(s64.finish(), first);
    assert_eq!(s64.finish(), first);
}

#[test]
fn seeds_give_distinct_digests() {
    let data = b"xxhash";
    let seeds: Vec<u32> = vec![0, 1, 2, 3, 42, 1000, 0xFFFF_FFFF, 0x9E37_79B1];
    let mut d32: Vec<u32> = seeds.iter().map(|s| XXH32::hash_with_seed(*s, data)).collect();
    let mut d64: Vec<u64> = seeds.iter().map(|s| XXH64::hash_with_seed(*s as u64, data)).collect();
    d32.sort();
    d32.dedup();
    d64.sort();
    d64.dedup();
    assert_eq!(d32.len(), seeds.len());
    assert_eq!(d64.len(), seeds.len());
}

#[test]
fn digest_then_resume() {
    let a = pattern(23);
    let b = pattern(61);
    let mut ab = a.clone();
    ab.extend_from_slice(&b);

    let mut s32 = XXH32::with_seed(5);
    s32.write(&a);
    assert_eq!(s32.finish(), XXH32::hash_with_seed(5, &a));
    s32.write(&b);
    assert_eq!(s32.finish(), XXH32::hash_with_seed(5, &ab));

    let mut s64 = XXH64::with_seed(5);
    s64.write(&a);
    assert_eq!(s64.finish(), XXH64::hash_with_seed(5, &a));
    s64.write(&b);
    assert_eq!(s64.finish(), XXH64::hash_with_seed(5, &ab));
}

#[test]
fn empty_writes_change_nothing() {
    let data = pattern(37);
    let mut s32 = XXH32::with_seed(3);
    s32.write(&[]);
    s32.write(&data);
    s32.write(&[]);
    assert_eq!(s32.finish(), XXH32::hash_with_seed(3, &data));
    let mut s64 = XXH64::with_seed(3);
    s64.write(&[]);
    s64.write(&data);
    s64.write(&[]);
    assert_eq!(s64.finish(), XXH64::hash_with_seed(3, &data));
}

#[test]
fn clone_evolves_independently() {
    let data = pattern(50);
    let mut s = XXH64::with_seed(1);
    s.write(&data[..20]);
    let copy = s.clone();
    s.write(&data[20..]);
    assert_eq!(copy.finish(), XXH64::hash_with_seed(1, &data[..20]));
    assert_eq!(s.finish(), XXH64::hash_with_seed(1, &data));

    let mut t = XXH32::with_seed(1);
    t.write(&data[..20]);
    let copy = t.clone();
    t.write(&data[20..]);
    assert_eq!(copy.finish(), XXH32::hash_with_seed(1, &data[..20]));
    assert_eq!(t.finish(), XXH32::hash_with_seed(1, &data));
}

#[test]
fn default_is_seed_zero() {
    let data = pattern(33);
    let mut s32 = XXH32::default();
    s32.write(&data);
    assert_eq!(s32.finish(), XXH32::hash(&data));
    let mut s64 = XXH64::default();
    s64.write(&data);
    assert_eq!(s64.finish(), XXH64::hash(&data));
}
