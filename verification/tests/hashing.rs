use dupfind::duplicates::DigestIndex;
use dupfind::hasher::{digest_hex, to_hex, Hasher, CHUNK_SIZE};
use sha2::{Digest, Sha256};

#[test]
fn to_hex_writes_two_lower_case_digits_per_byte() {
    assert_eq!(to_hex(&[10, 20, 30]), "0a141e");
    assert_eq!(to_hex(&[]), "");
    assert_eq!(to_hex(&[0x00, 0xff, 0x0f, 0xf0, 0x9a, 0xbc]), "00ff0ff09abc");
}

#[test]
fn to_hex_covers_every_byte() {
    for b in 0..=255u8 {
        assert_eq!(to_hex(&[b]), format!("{:02x}", b));
    }
}

#[test]
fn the_digest_of_no_bytes_is_the_known_one() {
    assert_eq!(
        digest_hex(b""),
        "e3b0c44298fc1c149afbf4c8996fb92427ae41e4649b934ca495991b7852b855"
    );
    assert_eq!(
        Hasher::new().finish(),
        "e3b0c44298fc1c149afbf4c8996fb92427ae41e4649b934ca495991b7852b855"
    );
}

#[test]
fn the_digest_of_abc_is_the_known_one() {
    assert_eq!(
        digest_hex(b"abc"),
        "ba7816bf8f01cfea414140de5dae2223b00361a396177a9cb410ff61f20015ad"
    );
}

#[test]
fn the_digest_is_what_the_sha2_crate_formats() {
    let data = b"the quick brown fox jumps over the lazy dog";
    let mut h = Sha256::new();
    h.update(data);
    assert_eq!(digest_hex(data), format!("{:x}", h.finalize()));
}

#[test]
fn chunks_give_the_digest_of_the_whole() {
    let data: Vec<u8> = (0..20_000u32).map(|i| (i % 251) as u8).collect();
    let whole = digest_hex(&data);
    for size in [1usize, 7, 64, 8192, 19_999, 20_000] {
        let mut h = Hasher::new();
        for chunk in data.chunks(size) {
            h.update(chunk);
        }
        assert_eq!(h.finish(), whole);
    }
    let mut h = Hasher::new();
    h.update(&data[..5]);
    h.update(&[]);
    h.update(&data[5..]);
    assert_eq!(h.finish(), whole);
}

#[test]
fn a_digest_has_sixty_four_digits() {
    let d = digest_hex(b"some content");
    assert_eq!(d.len(), 64);
    assert!(d.chars().all(|c| c.is_ascii_digit() || ('a'..='f').contains(&c)));
}

#[test]
fn identical_files_are_grouped_and_a_different_one_is_not() {
    let first = digest_hex(b"same bytes\n");
    let second = digest_hex(b"same bytes\n");
    let third = digest_hex(b"other bytes\n");
    assert_eq!(first, second);
    assert_ne!(first, third);

    let mut index = DigestIndex::new();
    index.record(first.clone(), String::from("dir/a.txt"));
    index.record(third.clone(), String::from("dir/c.txt"));
    index.record(second, String::from("dir/b.txt"));
    assert_eq!(index.len(), 2);

    let found = index.duplicates();
    assert_eq!(found.len(), 1);
    assert_eq!(found[0].digest, first);
    assert_eq!(found[0].paths, vec![String::from("dir/a.txt"), String::from("dir/b.txt")]);
    for group in &found {
        assert!(!group.paths.contains(&String::from("dir/c.txt")));
        assert_ne!(group.digest, third);
    }
}

#[test]
fn feed_takes_only_the_bytes_that_were_read() {
    let buffer = *b"abcdefgh";
    let mut h = Hasher::new();
    assert!(h.feed(&buffer, 3));
    assert_eq!(h.finish(), digest_hex(b"abc"));

    let mut h = Hasher::new();
    assert!(h.feed(&buffer, 8));
    assert!(h.feed(&buffer, 1));
    assert_eq!(h.finish(), digest_hex(b"abcdefgha"));
}

#[test]
fn feed_of_an_empty_read_ends_the_input() {
    let buffer = [7u8; 16];
    let mut h = Hasher::new();
    assert!(h.feed(&buffer, 16));
    assert!(!h.feed(&buffer, 0));
    assert_eq!(h.finish(), digest_hex(&[7u8; 16]));
}

#[test]
fn a_file_is_read_in_chunks_of_eight_kibibytes() {
    assert_eq!(CHUNK_SIZE, 8192);
    let data: Vec<u8> = (0..3 * CHUNK_SIZE + 5).map(|i| (i % 256) as u8).collect();
    let mut h = Hasher::new();
    let mut buffer = [0u8; CHUNK_SIZE];
    let mut at = 0;
    loop {
        let n = (data.len() - at).min(CHUNK_SIZE);
        buffer[..n].copy_from_slice(&data[at..at + n]);
        at += n;
        if !h.feed(&buffer, n) {
            break;
        }
    }
    assert_eq!(h.finish(), digest_hex(&data));
}
