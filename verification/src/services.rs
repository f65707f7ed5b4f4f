//! The records the node's services stream to the dashboard: the software
//! version triple, reserved capacity counters, CPU and memory snapshots,
//! network prefixes per plane, the optional public configuration, and the
//! public-network exit device. Field-for-field these match the foreign
//! runtime's wire records; the binary that embeds the library carries the
//! serialization attributes on its own copies.

use vstd::prelude::*;
use vstd::string::*;
use crate::net::{decode_address, spec_ip_text, spec_padded16};
use crate::text::{dec_u64, spec_dec};

verus! {

/// One pre-release identifier of a version: either numeric or textual.
#[derive(Debug, Clone)]
pub struct PRVersion {
    pub version_str: String,
    pub version_num: u64,
    pub is_num: bool,
}

/// Text of a pre-release identifier: the number when numeric, else the
/// string as given.
pub open spec fn spec_prversion_text(p: PRVersion) -> Seq<char> {
    if p.is_num {
        spec_dec(p.version_num as nat)
    } else {
        p.version_str@
    }
}

impl PRVersion {
    /// Renders this identifier.
    pub fn to_string(&self) -> (r: String)
        ensures
            r@ == spec_prversion_text(*self),
    {
        if self.is_num {
            dec_u64(self.version_num)
        } else {
            self.version_str.clone()
        }
    }
}

/// The items joined with periods, in their given order.
pub open spec fn spec_dotted(items: Seq<Seq<char>>) -> Seq<char>
    decreases items.len(),
{
    if items.len() == 0 {
        Seq::empty()
    } else if items.len() == 1 {
        items[0]
    } else {
        spec_dotted(items.drop_last()) + seq!['.'] + items.last()
    }
}

/// Texts of a pre-release identifier list.
pub open spec fn spec_pre_texts(l: Seq<PRVersion>) -> Seq<Seq<char>> {
    l.map_values(|p: PRVersion| spec_prversion_text(p))
}

/// A semantic version triple with optional ordered pre-release and
/// build-metadata lists. The lists are display-only: they are rendered in
/// their given order, with no precedence computed.
#[derive(Debug, Clone)]
pub struct Version {
    pub major: u64,
    pub minor: u64,
    pub patch: u64,
    pub pre: Option<Vec<PRVersion>>,
    pub build: Option<Vec<String>>,
}

/// Text of a version: `major.minor.patch`, then `_` and the dotted
/// pre-release list when present, then `+` and the dotted build list when
/// present.
pub open spec fn spec_version_text(v: Version) -> Seq<char> {
    spec_dec(v.major as nat) + seq!['.'] + spec_dec(v.minor as nat) + seq!['.'] + spec_dec(
        v.patch as nat,
    ) + (match v.pre {
        Option::None => Seq::<char>::empty(),
        Option::Some(l) => seq!['_'] + spec_dotted(spec_pre_texts(l@)),
    }) + (match v.build {
        Option::None => Seq::<char>::empty(),
        Option::Some(b) => seq!['+'] + spec_dotted(b.deep_view()),
    })
}

impl Version {
    /// Renders the version. A present pre-release or build list must hold
    /// at least one entry, as the wire producer guarantees.
    pub fn to_string(&self) -> (r: String)
        requires
            self.pre matches Some(l) ==> l@.len() > 0,
            self.build matches Some(b) ==> b@.len() > 0,
        ensures
            r@ == spec_version_text(*self),
    {
        proof {
            reveal_strlit(".");
            reveal_strlit("_");
            reveal_strlit("+");
        }
        let mut s = dec_u64(self.major);
        s.append(".");
        let t = dec_u64(self.minor);
        s.append(t.as_str());
        s.append(".");
        let t = dec_u64(self.patch);
        s.append(t.as_str());
        let ghost head = s@;
        match &self.pre {
            None => {},
            Some(pre) => {
                s.append("_");
                let t = pre[0].to_string();
                s.append(t.as_str());
                let ghost texts = spec_pre_texts(pre@);
                proof {
                    assert(texts.take(1) =~= seq![texts[0]]);
                }
                let mut j: usize = 1;
                while j < pre.len()
                    invariant
                        1 <= j <= pre@.len(),
                        texts == spec_pre_texts(pre@),
                        s@ == head + seq!['_'] + spec_dotted(texts.take(j as int)),
                    decreases pre@.len() - j,
                {
                    proof {
                        reveal_strlit(".");
                    }
                    s.append(".");
                    let t = pre[j].to_string();
                    s.append(t.as_str());
                    proof {
                        assert(texts.take(j as int + 1).drop_last() =~= texts.take(j as int));
                        assert(texts.take(j as int + 1).last() == texts[j as int]);
                    }
                    j = j + 1;
                }
                proof {
                    assert(texts.take(pre@.len() as int) =~= texts);
                }
            },
        }
        let ghost mid = s@;
        match &self.build {
            None => {},
            Some(build) => {
                s.append("+");
                let t = build[0].clone();
                s.append(t.as_str());
                let ghost texts = build.deep_view();
                proof {
                    assert(texts.take(1) =~= seq![texts[0]]);
                }
                let mut j: usize = 1;
                while j < build.len()
                    invariant
                        1 <= j <= build@.len(),
                        texts == build.deep_view(),
                        s@ == mid + seq!['+'] + spec_dotted(texts.take(j as int)),
                    decreases build@.len() - j,
                {
                    proof {
                        reveal_strlit(".");
                    }
                    s.append(".");
                    let t = build[j].clone();
                    s.append(t.as_str());
                    proof {
                        assert(texts.take(j as int + 1).drop_last() =~= texts.take(j as int));
                        assert(texts.take(j as int + 1).last() == texts[j as int]);
                    }
                    j = j + 1;
                }
                proof {
                    assert(texts.take(build@.len() as int) =~= texts);
                }
            },
        }
        s
    }
}

/// One resource unit count.
pub type Unit = u64;

/// Reserved capacity counters, replaced wholesale on each update and never
/// partially merged.
#[derive(Debug, Clone, Copy, PartialEq, Eq, Structural)]
pub struct Capacity {
    pub cru: u64,
    pub sru: Unit,
    pub hru: Unit,
    pub mru: Unit,
    pub ipv4u: u64,
}

/// A memory snapshot, replaced wholesale per update. The used percentage
/// travels as the IEEE-754 bit pattern of the producer's figure, carried
/// opaquely: verified code holds no floating point.
#[derive(Debug, Clone, Copy, PartialEq, Eq, Structural)]
pub struct VirtualMemory {
    pub total: u64,
    pub available: u64,
    pub used: u64,
    pub used_percent_bits: u64,
}

/// A CPU load snapshot; the percentage is carried as its IEEE-754 bit
/// pattern, as in [`VirtualMemory`].
#[derive(Debug, Clone, Copy, PartialEq, Eq, Structural)]
pub struct TimesStat {
    pub percent_bits: u64,
}

/// An address and mask pair as the address-list streams carry it: both
/// raw byte buffers.
#[derive(Debug, Clone)]
pub struct IPNet {
    pub ip: Vec<u8>,
    pub mask: Vec<u8>,
}

/// Text of an address-list entry: the canonical address text for a 4- or
/// 16-byte buffer, empty for any other length. The mask takes no part in
/// this rendering.
pub open spec fn spec_ipnet_text(ip: Seq<u8>) -> Seq<char> {
    if ip.len() == 4 || ip.len() == 16 {
        spec_ip_text(ip)
    } else {
        Seq::<char>::empty()
    }
}

impl IPNet {
    /// Renders the address part of this entry.
    pub fn to_string(&self) -> (r: String)
        ensures
            r@ == spec_ipnet_text(self.ip@),
    {
        let n = self.ip.len();
        if n == 4 || n == 16 {
            proof {
                if n == 16 {
                    assert(spec_padded16(self.ip@) =~= self.ip@);
                }
            }
            let a = decode_address(&self.ip);
            a.to_text()
        } else {
            String::new()
        }
    }
}

/// The address lists one network plane reports.
pub type NetlinkAddresses = Vec<IPNet>;

/// The optional public-network configuration: one prefix per family and a
/// flag saying whether a configuration is present at all.
#[derive(Debug, Clone)]
pub struct OptionPublicConfig {
    pub ipv4: IPNet,
    pub ipv6: IPNet,
    pub has_public_config: bool,
}

/// The node's public-network egress, mutually exclusive by construction:
/// a single bridge, a dual setup through a named physical interface, or
/// unknown.
#[derive(Debug, Clone)]
pub struct ExitDevice {
    pub is_single: bool,
    pub is_dual: bool,
    pub as_dual_interface: String,
}

/// Text of an exit device: `Single`, `Dual` with the interface name, or
/// `Unknown`; a set single flag wins over a set dual flag.
pub open spec fn spec_exit_device_text(e: ExitDevice) -> Seq<char> {
    if e.is_single {
        "Single"@
    } else if e.is_dual {
        "Dual "@ + e.as_dual_interface@
    } else {
        "Unknown"@
    }
}

impl ExitDevice {
    /// Renders the exit device classification.
    pub fn to_string(&self) -> (r: String)
        ensures
            r@ == spec_exit_device_text(*self),
    {
        if self.is_single {
            String::from_str("Single")
        } else if self.is_dual {
            let mut s = String::from_str("Dual ");
            s.append(self.as_dual_interface.as_str());
            s
        } else {
            String::from_str("Unknown")
        }
    }
}

} // verus!
