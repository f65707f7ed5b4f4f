//! The shared dashboard view: the latest value of every telemetry feed,
//! plus the loop-local quit flag.
//!
//! Each feed has exactly one writer, so an update replaces one field and
//! touches nothing else. Updates travel as tagged values, and updates to
//! different fields commute: the rendered frame may mix field values of
//! different ages, but no update can disturb another field's value.

use vstd::prelude::*;
use crate::services::{
    Capacity, ExitDevice, NetlinkAddresses, OptionPublicConfig, TimesStat, Version, VirtualMemory,
};

verus! {

/// The character that asks the dashboard to quit.
pub const QUIT_KEY: char = 'q';

/// The aggregate snapshot the render loop draws from. Created empty at
/// startup, mutated in place for the process lifetime, never persisted.
#[derive(Debug, Clone)]
pub struct DashboardState {
    pub version: Option<Version>,
    pub capacity: Option<Capacity>,
    pub cpu: Option<TimesStat>,
    pub memory: Option<VirtualMemory>,
    pub zos_addresses: NetlinkAddresses,
    pub ygg_addresses: NetlinkAddresses,
    pub dmz_addresses: NetlinkAddresses,
    pub public_config: Option<OptionPublicConfig>,
    pub exit_device: Option<ExitDevice>,
    pub should_quit: bool,
}

/// One feed's latest value, tagged with the field it owns.
#[derive(Debug, Clone)]
pub enum StateUpdate {
    Version(Version),
    Capacity(Capacity),
    Cpu(TimesStat),
    Memory(VirtualMemory),
    ZosAddresses(NetlinkAddresses),
    YggAddresses(NetlinkAddresses),
    DmzAddresses(NetlinkAddresses),
    PublicConfig(OptionPublicConfig),
    ExitDevice(ExitDevice),
}

/// Which field an update writes.
pub open spec fn spec_update_field(u: StateUpdate) -> int {
    match u {
        StateUpdate::Version(_) => 0,
        StateUpdate::Capacity(_) => 1,
        StateUpdate::Cpu(_) => 2,
        StateUpdate::Memory(_) => 3,
        StateUpdate::ZosAddresses(_) => 4,
        StateUpdate::YggAddresses(_) => 5,
        StateUpdate::DmzAddresses(_) => 6,
        StateUpdate::PublicConfig(_) => 7,
        StateUpdate::ExitDevice(_) => 8,
    }
}

/// The state after applying one update: the tagged field replaced
/// wholesale, every other field as it was.
pub open spec fn spec_apply(s: DashboardState, u: StateUpdate) -> DashboardState {
    match u {
        StateUpdate::Version(v) => DashboardState { version: Some(v), ..s },
        StateUpdate::Capacity(v) => DashboardState { capacity: Some(v), ..s },
        StateUpdate::Cpu(v) => DashboardState { cpu: Some(v), ..s },
        StateUpdate::Memory(v) => DashboardState { memory: Some(v), ..s },
        StateUpdate::ZosAddresses(v) => DashboardState { zos_addresses: v, ..s },
        StateUpdate::YggAddresses(v) => DashboardState { ygg_addresses: v, ..s },
        StateUpdate::DmzAddresses(v) => DashboardState { dmz_addresses: v, ..s },
        StateUpdate::PublicConfig(v) => DashboardState { public_config: Some(v), ..s },
        StateUpdate::ExitDevice(v) => DashboardState { exit_device: Some(v), ..s },
    }
}

/// The state after one key press: the quit key raises the quit flag, any
/// other character changes nothing.
pub open spec fn spec_on_key(s: DashboardState, c: char) -> DashboardState {
    if c == QUIT_KEY {
        DashboardState { should_quit: true, ..s }
    } else {
        s
    }
}

impl DashboardState {
    /// The empty view every field starts from.
    pub fn new() -> (r: Self)
        ensures
            r.version is None,
            r.capacity is None,
            r.cpu is None,
            r.memory is None,
            r.zos_addresses@.len() == 0,
            r.ygg_addresses@.len() == 0,
            r.dmz_addresses@.len() == 0,
            r.public_config is None,
            r.exit_device is None,
            !r.should_quit,
    {
        DashboardState {
            version: None,
            capacity: None,
            cpu: None,
            memory: None,
            zos_addresses: Vec::new(),
            ygg_addresses: Vec::new(),
            dmz_addresses: Vec::new(),
            public_config: None,
            exit_device: None,
            should_quit: false,
        }
    }

    /// Writes one feed's value into the field it owns.
    pub fn apply_update(&mut self, u: StateUpdate)
        ensures
            *final(self) == spec_apply(*old(self), u),
    {
        match u {
            StateUpdate::Version(v) => {
                self.version = Some(v);
            },
            StateUpdate::Capacity(v) => {
                self.capacity = Some(v);
            },
            StateUpdate::Cpu(v) => {
                self.cpu = Some(v);
            },
            StateUpdate::Memory(v) => {
                self.memory = Some(v);
            },
            StateUpdate::ZosAddresses(v) => {
                self.zos_addresses = v;
            },
            StateUpdate::YggAddresses(v) => {
                self.ygg_addresses = v;
            },
            StateUpdate::DmzAddresses(v) => {
                self.dmz_addresses = v;
            },
            StateUpdate::PublicConfig(v) => {
                self.public_config = Some(v);
            },
            StateUpdate::ExitDevice(v) => {
                self.exit_device = Some(v);
            },
        }
    }

    /// Applies one key press.
    pub fn on_key(&mut self, c: char)
        ensures
            *final(self) == spec_on_key(*old(self), c),
    {
        if c == QUIT_KEY {
            self.should_quit = true;
        }
    }
}

/// Updates that write different fields commute: the order in which two
/// pollers publish does not change the resulting view, so no feed can
/// disturb another feed's field.
pub proof fn lemma_updates_commute(s: DashboardState, a: StateUpdate, b: StateUpdate)
    requires
        spec_update_field(a) != spec_update_field(b),
    ensures
        spec_apply(spec_apply(s, a), b) == spec_apply(spec_apply(s, b), a),
{
}

/// A key press never changes a telemetry field, and an update never
/// changes the quit flag: the input path and the feed path touch disjoint
/// parts of the view.
pub proof fn lemma_input_and_updates_commute(s: DashboardState, c: char, u: StateUpdate)
    ensures
        spec_on_key(spec_apply(s, u), c) == spec_apply(spec_on_key(s, c), u),
{
}

} // verus!
