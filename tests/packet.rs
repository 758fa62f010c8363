use pscan::packet::{build, ipv4_header_bytes, syn_segment_bytes};
use pscan::syn::SynScan;

fn ones_complement_sum(data: &[u8]) -> u32 {
    let mut sum: u32 = 0;
    for w in data.chunks(2) {
        sum += u32::from(w[0]) << 8 | u32::from(w[1]);
    }
    while sum >> 16 != 0 {
        sum = (sum >> 16) + (sum & 0xffff);
    }
    sum
}

#[test]
fn ipv4_header_known_checksum() {
    let h = ipv4_header_bytes(0xc0a8_0001, 0xc0a8_00c7, 0x11, 95, 0);
    assert_eq!(
        h,
        vec![
            0x45, 0x00, 0x00, 0x73, 0x00, 0x00, 0x40, 0x00, 0x40, 0x11, 0xb8, 0x61, 0xc0, 0xa8,
            0x00, 0x01, 0xc0, 0xa8, 0x00, 0xc7
        ]
    );
}

#[test]
fn syn_segment_layout() {
    let s = syn_segment_bytes(0x0a00_0001, 0x0a00_0002, 0x1234, 22);
    assert_eq!(s.len(), 40);
    assert_eq!(&s[0..4], &[0x12, 0x34, 0x00, 0x16]);
    assert_eq!(&s[4..12], &[0; 8]);
    assert_eq!(s[12], 0xa0);
    assert_eq!(s[13], 0x02);
    assert_eq!(&s[14..16], &[0xff, 0xff]);
    assert_eq!(&s[18..20], &[0, 0]);
    assert_eq!(&s[20..31], &[2, 4, 5, 180, 4, 2, 1, 1, 3, 3, 7]);
    assert_eq!(&s[31..40], &[0; 9]);
    assert_ne!(&s[16..18], &[0, 0]);
}

#[test]
fn syn_frame_checksums_verify() {
    let local = [0x02, 0x11, 0x22, 0x33, 0x44, 0x55];
    let gateway = [0x02, 0xaa, 0xbb, 0xcc, 0xdd, 0xee];
    let src = 0xc0a8_0102;
    let dst = 0x5db8_d822;
    let p = SynScan::with_source(local, gateway, src, dst, 443, 51000, 0xbeef);
    let f = p.frame();
    assert_eq!(f.len(), 74);
    assert_eq!(&f[0..6], &gateway);
    assert_eq!(&f[6..12], &local);
    assert_eq!(&f[12..14], &[0x08, 0x00]);
    assert_eq!(f[14], 0x45);
    assert_eq!(&f[16..18], &[0, 60]);
    assert_eq!(&f[18..20], &[0xbe, 0xef]);
    assert_eq!(f[20] & 0x40, 0x40);
    assert_eq!(f[22], 64);
    assert_eq!(f[23], 6);
    assert_eq!(ones_complement_sum(&f[14..34]), 0xffff);
    let mut covered = Vec::new();
    covered.extend_from_slice(&src.to_be_bytes());
    covered.extend_from_slice(&dst.to_be_bytes());
    covered.extend_from_slice(&[0, 6, 0, 40]);
    covered.extend_from_slice(&f[34..74]);
    assert_eq!(ones_complement_sum(&covered), 0xffff);
    assert_eq!(f[46] >> 4, 10);
    assert_eq!(f[47], 0x02);
}

#[test]
fn build_wraps_payload() {
    let f = build([1; 6], [2; 6], 0x0102_0304, 0x0506_0708, 17, &[9, 9, 9], 1);
    assert_eq!(f.len(), 14 + 20 + 3);
    assert_eq!(&f[0..6], &[2; 6]);
    assert_eq!(&f[6..12], &[1; 6]);
    assert_eq!(&f[16..18], &[0, 23]);
    assert_eq!(&f[26..30], &[1, 2, 3, 4]);
    assert_eq!(&f[30..34], &[5, 6, 7, 8]);
    assert_eq!(&f[34..], &[9, 9, 9]);
    assert_eq!(ones_complement_sum(&f[14..34]), 0xffff);
}
