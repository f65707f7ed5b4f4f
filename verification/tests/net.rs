//! The address and mask codec, held to the foreign runtime's byte layouts
//! and text forms.

use zui::net::{decode_address, Address, IPMask, IPNet, IP};

#[test]
fn test_mask_bits() {
    let mask = IPMask::from(16);
    assert!(mask.bytes[0] == 0xff);
    assert!(mask.bytes[1] == 0xff);

    assert!(mask.bits() == 16);

    let mask = IPMask::from(18);
    assert!(mask.bits() == 18);
    assert!(mask.bytes[0] == 0xff);
    assert!(mask.bytes[1] == 0xff);
    assert!(mask.bytes[2] == 0b11000000);

    let mask = IPMask::from(4);
    assert!(mask.bits() == 4);
    assert!(mask.bytes[0] == 0b11110000);

    let mask = IPMask::from(6);
    assert!(mask.bits() == 6);
    assert!(mask.bytes[0] == 0b11111100);

    let mask = IPMask::from(128);
    assert!(mask.bits() == 128);
    assert!(mask.bytes.len() == 16);
    assert!(mask.bytes.iter().all(|v| *v == 0xff));
}

#[test]
fn mask_round_trip_both_families() {
    for n in 0..=128u8 {
        let mask = IPMask::from(n);
        assert_eq!(mask.bits(), n);
    }
}

#[test]
fn mask_24_is_three_saturated_bytes() {
    let mask = IPMask::from(24);
    assert_eq!(mask.bytes, vec![0xff, 0xff, 0xff]);
    assert_eq!(mask.bits(), 24);
}

#[test]
fn mask_18_leaves_top_two_bits() {
    let mask = IPMask::from(18);
    assert_eq!(mask.bytes, vec![0xff, 0xff, 0b11000000]);
    assert_eq!(mask.bits(), 18);
}

#[test]
fn mask_zero_is_empty() {
    let mask = IPMask::from(0);
    assert!(mask.bytes.is_empty());
    assert_eq!(mask.bits(), 0);
}

#[test]
fn decode_mapped_sixteen_byte_buffer_normalizes() {
    // 192.168.1.20 carried in a 16-byte slot, IPv4-mapped.
    let ip = IP {
        bytes: vec![0, 0, 0, 0, 0, 0, 0, 0, 0, 0, 0xff, 0xff, 0xc0, 0xa8, 0x01, 0x14],
    };
    match ip.address() {
        Address::V4(a, b, c, d) => {
            assert_eq!((a, b, c, d), (192, 168, 1, 20));
        }
        Address::V6(_) => panic!("mapped buffer must decode to the 4-byte family"),
    }
    assert_eq!(ip.to_text(), "192.168.1.20");
}

#[test]
fn decode_genuine_sixteen_byte_buffer() {
    // 2a10:b600:0:be77:f1d6:fc0:40ad:8b29
    let ip = IP {
        bytes: vec![
            0x2a, 0x10, 0xb6, 0x00, 0x00, 0x00, 0xbe, 0x77, 0xf1, 0xd6, 0x0f, 0xc0, 0x40, 0xad,
            0x8b, 0x29,
        ],
    };
    assert_eq!(ip.to_text(), "2a10:b600:0:be77:f1d6:fc0:40ad:8b29");
}

#[test]
fn decode_four_byte_buffer() {
    let ip = IP { bytes: vec![10, 0, 0, 1] };
    assert_eq!(ip.to_text(), "10.0.0.1");
}

#[test]
fn decode_short_buffer_pads_with_zeroes() {
    let ip = IP { bytes: vec![0x2a, 0x10] };
    assert_eq!(ip.to_text(), "2a10::");
}

#[test]
fn decode_long_buffer_keeps_first_sixteen_bytes() {
    let mut bytes = vec![
        0x2a, 0x10, 0xb6, 0x00, 0x00, 0x00, 0xbe, 0x77, 0xf1, 0xd6, 0x0f, 0xc0, 0x40, 0xad, 0x8b,
        0x29,
    ];
    bytes.extend_from_slice(&[0xde, 0xad]);
    let ip = IP { bytes };
    assert_eq!(ip.to_text(), "2a10:b600:0:be77:f1d6:fc0:40ad:8b29");
}

#[test]
fn v6_text_compresses_longest_zero_run() {
    let ip = IP {
        bytes: vec![0x2a, 0x10, 0xb6, 0x00, 0x00, 0x00, 0xbe, 0x77, 0, 0, 0, 0, 0, 0, 0, 0],
    };
    assert_eq!(ip.to_text(), "2a10:b600:0:be77::");
}

#[test]
fn v6_text_all_zero_is_double_colon() {
    let ip = IP { bytes: vec![0, 0, 0, 0, 0, 0, 0, 0, 0, 0, 0, 0, 0, 0, 0, 1] };
    // One low bit set keeps this out of the mapped form.
    assert_eq!(ip.to_text(), "::1");
}

#[test]
fn v6_text_first_of_equal_zero_runs_wins() {
    // groups: 1:0:0:1:0:0:1:1 — two runs of two; the first is compressed.
    let ip = IP {
        bytes: vec![0, 1, 0, 0, 0, 0, 0, 1, 0, 0, 0, 0, 0, 1, 0, 1],
    };
    assert_eq!(ip.to_text(), "1::1:0:0:1:1");
}

#[test]
fn prefix_formats_address_slash_bits() {
    let net = IPNet {
        ip: IP { bytes: vec![192, 168, 1, 0] },
        mask: IPMask { bytes: vec![0xff, 0xff, 0xff, 0x00] },
    };
    assert_eq!(net.to_string(), "192.168.1.0/24");

    let net = IPNet {
        ip: IP {
            bytes: vec![0x2a, 0x10, 0xb6, 0x00, 0x00, 0x00, 0xbe, 0x77, 0, 0, 0, 0, 0, 0, 0, 0],
        },
        mask: IPMask {
            bytes: vec![0xff, 0xff, 0xff, 0xff, 0xff, 0xff, 0xff, 0xff, 0, 0, 0, 0, 0, 0, 0, 0],
        },
    };
    assert_eq!(net.to_string(), "2a10:b600:0:be77::/64");
}

#[test]
fn decode_address_function_matches_ip_method() {
    let buf = vec![172, 16, 0, 5];
    match decode_address(&buf) {
        Address::V4(a, b, c, d) => assert_eq!((a, b, c, d), (172, 16, 0, 5)),
        Address::V6(_) => panic!("a 4-byte buffer is the 4-byte family"),
    }
}
