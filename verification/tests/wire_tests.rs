use armada::hosts::HostAddr;
use armada::codec::{Target, build_probe};
use armada::wire::encode_syn_v4;

// the internet checksum, recomputed independently of the library
fn reference_checksum(bytes: &[u8]) -> u16 {
    let mut sum: u64 = 0;
    for pair in bytes.chunks(2) {
        sum += (pair[0] as u64) * 256 + (pair[1] as u64);
    }
    while sum > 0xFFFF {
        sum = (sum & 0xFFFF) + (sum >> 16);
    }
    !(sum as u16)
}

#[test]
fn syn_header_layout() {
    let t = Target { host: HostAddr::V4(0x0A000001), port: 443 };
    let p = build_probe(t, HostAddr::V4(0xC0A80101), 51000, 7);
    let h = encode_syn_v4(&p);
    assert_eq!(h.len(), 20);
    // source port 51000 = 0xC738, destination 443 = 0x01BB
    assert_eq!(&h[0..4], &[0xC7, 0x38, 0x01, 0xBB]);
    // sequence number carries the cookie
    assert_eq!(&h[4..8], &p.seq.to_be_bytes());
    // no acknowledgment on a SYN
    assert_eq!(&h[8..12], &[0, 0, 0, 0]);
    // data offset 5, flags SYN only, window 1024
    assert_eq!(&h[12..16], &[0x50, 0x02, 0x04, 0x00]);
    // urgent pointer zero
    assert_eq!(&h[18..20], &[0, 0]);
}

#[test]
fn syn_header_checksum_verifies() {
    let t = Target { host: HostAddr::V4(0x0A000001), port: 80 };
    let p = build_probe(t, HostAddr::V4(0xC0A80101), 50001, 99);
    let h = encode_syn_v4(&p);
    // checksum over the IPv4 pseudo-header and the header itself, with
    // the embedded checksum zeroed
    let mut covered = Vec::new();
    covered.extend_from_slice(&0xC0A80101u32.to_be_bytes());
    covered.extend_from_slice(&0x0A000001u32.to_be_bytes());
    covered.extend_from_slice(&[0, 6, 0, 20]);
    covered.extend_from_slice(&h[0..16]);
    covered.extend_from_slice(&[0, 0]);
    covered.extend_from_slice(&h[18..20]);
    let expect = reference_checksum(&covered);
    assert_eq!(&h[16..18], &expect.to_be_bytes());
}
