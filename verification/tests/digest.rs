use peerwatch::digest::FileDigest;

fn digest_in_pieces(data: &[u8], sizes: &[usize]) -> Vec<u8> {
    let mut digest = FileDigest::new();
    let mut at = 0;
    let mut turn = 0;
    loop {
        let mut buffer = [0xeeu8; 1024];
        let n = sizes[turn % sizes.len()].min(data.len() - at);
        buffer[..n].copy_from_slice(&data[at..at + n]);
        at += n;
        turn += 1;
        if digest.absorb(&buffer, n) {
            return digest.finish();
        }
    }
}

fn hex(bytes: &[u8]) -> String {
    bytes.iter().map(|byte| format!("{byte:02x}")).collect()
}

#[test]
fn digests_of_known_messages() {
    assert_eq!(
        hex(&digest_in_pieces(b"", &[1024])),
        "e3b0c44298fc1c149afbf4c8996fb92427ae41e4649b934ca495991b7852b855"
    );
    assert_eq!(
        hex(&digest_in_pieces(b"abc", &[1024])),
        "ba7816bf8f01cfea414140de5dae2223b00361a396177a9cb410ff61f20015ad"
    );
}

#[test]
fn digests_do_not_depend_on_the_reads() {
    let data: Vec<u8> = (0..5000u32).map(|i| (i % 251) as u8).collect();
    let whole = digest_in_pieces(&data, &[1024]);
    assert_eq!(whole, digest_in_pieces(&data, &[1]));
    assert_eq!(whole, digest_in_pieces(&data, &[1000, 7, 64, 333]));
    assert_eq!(whole.len(), 32);
}

#[test]
fn an_empty_read_ends_the_file() {
    let mut digest = FileDigest::new();
    assert!(!digest.absorb(b"abc", 2));
    assert!(digest.absorb(b"abc", 0));
    assert_ne!(digest.finish(), digest_in_pieces(b"abc", &[3]));
}
