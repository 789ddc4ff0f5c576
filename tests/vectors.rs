use xxhash::XXH32;
use xxhash::XXH64;

const PRIME: u32 = 2654435761;

/// The sanity buffer of the reference test table.
fn sanity_buffer(len: usize) -> Vec<u8> {
    let mut gen: u64 = PRIME as u64;
    let mut out = Vec::with_capacity(len);
    for _ in 0..len {
        out.push((gen >> 56) as u8);
        gen = gen.wrapping_mul(11400714785074694797);
    }
    out
}

fn check32(len: usize, seed: u32, expected: u32) {
    let buf = sanity_buffer(len);
    assert_eq!(XXH32::hash_with_seed(seed, &buf), expected);
    let mut s = XXH32::with_seed(seed);
    s.write(&buf);
    assert_eq!(s.finish(), expected);
    let mut bytewise = XXH32::with_seed(seed);
    for b in buf.iter() {
        bytewise.write(&[*b]);
    }
    assert_eq!(bytewise.finish(), expected);
}

fn check64(len: usize, seed: u64, expected: u64) {
    let buf = sanity_buffer(len);
    assert_eq!(XXH64::hash_with_seed(seed, &buf), expected);
    let mut s = XXH64::with_seed(seed);
    s.write(&buf);
    assert_eq!(s.finish(), expected);
    let mut bytewise = XXH64::with_seed(seed);
    for b in buf.iter() {
        bytewise.write(&[*b]);
    }
    assert_eq!(bytewise.finish(), expected);
}

#[test]
fn xxh32_empty_seed_zero() {
    assert_eq!(XXH32::hash(&[]), 0x02CC5D05);
    assert_eq!(XXH32::new().finish(), 0x02CC5D05);
    check32(0, 0, 0x02CC5D05);
}

#[test]
fn xxh32_empty_seed_prime() {
    check32(0, PRIME, 0x36B78AE7);
}

#[test]
fn xxh32_one_byte() {
    check32(1, 0, 0xCF65B03E);
    check32(1, PRIME, 0xB4545AA4);
}

#[test]
fn xxh32_fourteen_bytes() {
    check32(14, 0, 0x1208E7E2);
    check32(14, PRIME, 0x6AF1D1FE);
}

#[test]
fn xxh32_many_stripes() {
    check32(222, 0, 0x5BD11DBD);
    check32(222, PRIME, 0x58803C5F);
}

#[test]
fn xxh64_empty_seed_zero() {
    assert_eq!(XXH64::hash(&[]), 0xEF46DB3751D8E999);
    assert_eq!(XXH64::new().finish(), 0xEF46DB3751D8E999);
    check64(0, 0, 0xEF46DB3751D8E999);
}

#[test]
fn xxh64_empty_seed_prime() {
    check64(0, PRIME as u64, 0xAC75FDA2929B17EF);
}

#[test]
fn xxh64_one_byte() {
    check64(1, 0, 0xE934A84ADB052768);
    check64(1, PRIME as u64, 0x5014607643A9B4C3);
}

#[test]
fn xxh64_fourteen_bytes() {
    check64(14, 0, 0x8282DCC4994E35C8);
    check64(14, PRIME as u64, 0xC3BD6BF63DEB6DF0);
}

#[test]
fn xxh64_many_stripes() {
    check64(222, 0, 0xB641AE8CB691C174);
    check64(222, PRIME as u64, 0x20CB8AB7AE10C14A);
}

#[test]
fn short_text() {
    assert_eq!(XXH32::hash(b"abc"), 0x32D153FF);
    assert_eq!(XXH64::hash(b"abc"), 0x44BC2CF5AD770999);
    assert_eq!(XXH64::hash(b"a"), 0xD24EC4F1A98C6E5B);
}
