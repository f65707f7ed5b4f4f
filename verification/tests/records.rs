//! Rendering of the streamed records: versions, exit devices, and
//! address-list entries.

use zui::services::{ExitDevice, IPNet, PRVersion, Version};

fn num_pre(n: u64) -> PRVersion {
    PRVersion { version_str: String::new(), version_num: n, is_num: true }
}

fn str_pre(s: &str) -> PRVersion {
    PRVersion { version_str: s.to_string(), version_num: 0, is_num: false }
}

#[test]
fn version_triple_alone() {
    let v = Version { major: 3, minor: 7, patch: 11, pre: None, build: None };
    assert_eq!(v.to_string(), "3.7.11");
}

#[test]
fn version_with_pre_release_list() {
    let v = Version {
        major: 1,
        minor: 0,
        patch: 0,
        pre: Some(vec![str_pre("rc"), num_pre(2)]),
        build: None,
    };
    assert_eq!(v.to_string(), "1.0.0_rc.2");
}

#[test]
fn version_with_build_list() {
    let v = Version {
        major: 2,
        minor: 4,
        patch: 6,
        pre: None,
        build: Some(vec!["nightly".to_string(), "f00d".to_string()]),
    };
    assert_eq!(v.to_string(), "2.4.6+nightly.f00d");
}

#[test]
fn version_with_both_lists_keeps_given_order() {
    let v = Version {
        major: 0,
        minor: 9,
        patch: 1,
        pre: Some(vec![num_pre(7), str_pre("alpha")]),
        build: Some(vec!["linux".to_string()]),
    };
    assert_eq!(v.to_string(), "0.9.1_7.alpha+linux");
}

#[test]
fn exit_device_single() {
    let e = ExitDevice { is_single: true, is_dual: false, as_dual_interface: String::new() };
    assert_eq!(e.to_string(), "Single");
}

#[test]
fn exit_device_dual_names_interface() {
    let e = ExitDevice {
        is_single: false,
        is_dual: true,
        as_dual_interface: "eth1".to_string(),
    };
    assert_eq!(e.to_string(), "Dual eth1");
}

#[test]
fn exit_device_unknown() {
    let e = ExitDevice { is_single: false, is_dual: false, as_dual_interface: String::new() };
    assert_eq!(e.to_string(), "Unknown");
}

#[test]
fn exit_device_single_wins_over_dual() {
    let e = ExitDevice { is_single: true, is_dual: true, as_dual_interface: "eth0".to_string() };
    assert_eq!(e.to_string(), "Single");
}

#[test]
fn address_entry_four_bytes() {
    let n = IPNet { ip: vec![192, 168, 1, 0], mask: vec![0xff, 0xff, 0xff, 0] };
    assert_eq!(n.to_string(), "192.168.1.0");
}

#[test]
fn address_entry_sixteen_bytes() {
    let n = IPNet {
        ip: vec![0x2a, 0x10, 0xb6, 0x00, 0x00, 0x00, 0xbe, 0x77, 0, 0, 0, 0, 0, 0, 0, 1],
        mask: vec![],
    };
    assert_eq!(n.to_string(), "2a10:b600:0:be77::1");
}

#[test]
fn address_entry_other_length_is_empty() {
    let n = IPNet { ip: vec![1, 2, 3], mask: vec![] };
    assert_eq!(n.to_string(), "");
}
