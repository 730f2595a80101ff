use keyfob::crypto::sha256;
use keyfob::entropy::{get_combined_entropy, get_ram_entropy, get_temp_entropy, get_timer_entropy};
use keyfob::fob::{bytes_equal, is_paired, set_paired, xor_with};
use keyfob::hex::{byte_to_half_hex, write_to_hex};
use keyfob::protocol::{
    payload_len, u64_from_be, u64_from_le, u64_to_be, uart_read_board, uart_read_host,
    uart_write_board, uart_write_host, Action, FOB_IS_PAIRED,
};
use keyfob::store::Store;
use keyfob::words::{bytes_to_words, words_to_bytes};
use sha2::Digest;

const ABC_DIGEST: &str = "ba7816bf8f01cfea414140de5dae2223b00361a396177a9cb410ff61f20015ad";

#[test]
fn words_round_trip() {
    let bytes: Vec<u8> = (0u8..64).collect();
    let mut words = vec![0u32; 16];
    bytes_to_words(&bytes, &mut words);
    assert_eq!(words[0], 0x03020100);
    assert_eq!(words[15], 0x3f3e3d3c);
    let mut back = vec![0u8; 64];
    words_to_bytes(&words, &mut back);
    assert_eq!(back, bytes);
    let ws = [0xdeadbeefu32, 0, u32::MAX];
    let mut bs = [0u8; 12];
    words_to_bytes(&ws, &mut bs);
    assert_eq!(bs[..4], [0xef, 0xbe, 0xad, 0xde]);
    let mut ws2 = [0u32; 3];
    bytes_to_words(&bs, &mut ws2);
    assert_eq!(ws2, ws);
}

#[test]
fn words_of_empty_buffer() {
    let mut words: [u32; 0] = [];
    bytes_to_words(&[], &mut words);
    let mut bytes: [u8; 0] = [];
    words_to_bytes(&words, &mut bytes);
}

#[test]
fn sha256_known_digest() {
    let d = sha256(b"abc");
    assert_eq!(String::from_utf8(write_to_hex(&d)).unwrap(), ABC_DIGEST);
    assert_ne!(d.to_vec(), b"abc".to_vec());
}

#[test]
fn hex_rendering() {
    assert_eq!(byte_to_half_hex(0), b'0');
    assert_eq!(byte_to_half_hex(9), b'9');
    assert_eq!(byte_to_half_hex(10), b'a');
    assert_eq!(byte_to_half_hex(15), b'f');
    assert_eq!(write_to_hex(&[0x00, 0x9f, 0xa5]), b"009fa5".to_vec());
    assert!(write_to_hex(&[]).is_empty());
}

#[test]
fn entropy_sources_hash_their_samples() {
    let ram: Vec<u8> = (0..=255u8).cycle().take(1024).collect();
    assert_eq!(get_ram_entropy(&ram), sha256(&ram));
    let samples: Vec<u32> = vec![0x1234_5678, 0xffff_ff01, 0x0000_0100];
    assert_eq!(get_temp_entropy(&samples), sha256(&[0x78, 0x01, 0x00]));
    let ticks = [0x0102030405060708u64, 0xff];
    let mut expected = ticks[0].to_le_bytes().to_vec();
    expected.extend_from_slice(&ticks[1].to_le_bytes());
    assert_eq!(get_timer_entropy(&ticks), sha256(&expected));
    let mut h = sha2::Sha256::new();
    for t in ticks {
        h.update(t.to_le_bytes());
    }
    let streamed: [u8; 32] = h.finalize().into();
    assert_eq!(get_timer_entropy(&ticks), streamed);
}

#[test]
fn combined_entropy_xors_sources() {
    let a = [0x0fu8; 32];
    let b = [0xf0u8; 32];
    let mut c = [0u8; 32];
    c[3] = 0xff;
    let r = get_combined_entropy(&a, &b, &c);
    assert_eq!(r[0], 0xff);
    assert_eq!(r[3], 0x00);
    assert_eq!(get_combined_entropy(&a, &a, &c), c);
}

#[test]
fn store_reads_zero_until_written() {
    let mut s = Store::new();
    assert_eq!(s.len(), 2048);
    assert_eq!(s.read(0x7C0, 64), vec![0; 64]);
    s.write(0x100, &[1, 2, 3, 4, 5, 6, 7, 8]);
    assert_eq!(s.read(0x100, 8), vec![1, 2, 3, 4, 5, 6, 7, 8]);
    assert_eq!(s.read(0x0FC, 4), vec![0; 4]);
    assert_eq!(s.read(0x108, 4), vec![0; 4]);
    s.write(0x104, &[9, 9, 9, 9]);
    assert_eq!(s.read(0x100, 8), vec![1, 2, 3, 4, 9, 9, 9, 9]);
    let img = Store::from_image(vec![7; 2048]);
    assert_eq!(img.read(0x7FC, 4), vec![7; 4]);
}

#[test]
fn paired_flag() {
    let mut s = Store::new();
    assert!(!is_paired(&s));
    let mut acts = Vec::new();
    set_paired(&mut s, &mut acts);
    assert!(is_paired(&s));
    assert!(matches!(&acts[..], [Action::Persist(o, w)] if *o == FOB_IS_PAIRED && w == &vec![1u32]));
    let mut t = Store::new();
    t.write(FOB_IS_PAIRED, &[0, 0, 0, 0x80]);
    assert!(is_paired(&t));
}

#[test]
fn payload_lengths_by_tag() {
    assert_eq!(payload_len(0x40), 3);
    assert_eq!(payload_len(0x41), 3);
    assert_eq!(payload_len(0x42), 0);
    assert_eq!(payload_len(0x43), 292);
    assert_eq!(payload_len(0x44), 0);
    assert_eq!(payload_len(0x50), 72);
    assert_eq!(payload_len(0x60), 0);
    assert_eq!(payload_len(0x61), 72);
    assert_eq!(payload_len(0x62), 72);
    assert_eq!(payload_len(0x63), 0);
    assert_eq!(payload_len(0x64), 192);
    assert_eq!(payload_len(0x69), 0);
    assert_eq!(payload_len(0x99), 0);
}

#[test]
fn nonce_codec() {
    assert_eq!(u64_to_be(0x0102030405060708), vec![1, 2, 3, 4, 5, 6, 7, 8]);
    assert_eq!(u64_from_be(&[1, 2, 3, 4, 5, 6, 7, 9]), 0x0102030405060709);
    assert_eq!(u64_from_le(&[8, 7, 6, 5, 4, 3, 2, 1, 0xff]), 0x0102030405060708);
    assert_eq!(keyfob::protocol::nonce_successor(u64::MAX), 0);
    assert_eq!(keyfob::protocol::nonce_successor(0x0102030405060708), 0x0102030405060709);
}

#[test]
fn uart_framing() {
    let mut acts = Vec::new();
    uart_write_host(&mut acts, &[1, 2]);
    uart_write_board(&mut acts, &[3]);
    assert!(matches!(&acts[0], Action::Host(b) if b == &vec![1, 2]));
    assert!(matches!(&acts[1], Action::Board(b) if b == &vec![3]));
    let received = [10u8, 11, 12, 13, 14];
    let mut a = [0u8; 2];
    uart_read_host(&mut a, &received, 1);
    assert_eq!(a, [11, 12]);
    let mut b = [0u8; 3];
    uart_read_board(&mut b, &received, 2);
    assert_eq!(b, [12, 13, 14]);
}

#[test]
fn xor_wrap_unwraps_only_with_the_same_pin() {
    let secret = [0x5au8; 32];
    let salt = [7u8; 12];
    let key_for = |pin: &[u8]| {
        let mut m = pin.to_vec();
        m.push(0);
        m.extend_from_slice(&salt);
        sha256(&m)
    };
    let enc = xor_with(&secret, &key_for(&[1, 2, 3]));
    assert_ne!(enc, secret.to_vec());
    assert_eq!(xor_with(&enc, &key_for(&[1, 2, 3])), secret.to_vec());
    assert_ne!(xor_with(&enc, &key_for(&[1, 2, 4])), secret.to_vec());
}

#[test]
fn full_length_comparison() {
    assert!(bytes_equal(&[1, 2, 3], &[1, 2, 3]));
    assert!(!bytes_equal(&[1, 2, 3], &[1, 2, 4]));
    assert!(!bytes_equal(&[1, 2], &[1, 2, 3]));
    assert!(bytes_equal(&[], &[]));
}
