//! The building: zones, their groups, and the devices in them.

use vstd::prelude::*;

use crate::kind::{DeviceType, Type};
use crate::value::Value;
use crate::views::{views, views_push};

verus! {

/// A single piece of hardware.
#[derive(Debug, PartialEq, Eq)]
pub struct Device {
    pub id: String,
    pub name: String,
    pub zone_id: usize,
    pub present: bool,
    pub device_type: DeviceType,
    pub types: Vec<Type>,
    pub button_type: Type,
}

/// The contents of a `Device`.
pub struct DeviceView {
    pub id: Seq<char>,
    pub name: Seq<char>,
    pub zone_id: usize,
    pub present: bool,
    pub device_type: DeviceType,
    pub types: Seq<Type>,
    pub button_type: Type,
}

impl View for Device {
    type V = DeviceView;

    open spec fn view(&self) -> DeviceView {
        DeviceView {
            id: self.id@,
            name: self.name@,
            zone_id: self.zone_id,
            present: self.present,
            device_type: self.device_type,
            types: self.types@,
            button_type: self.button_type,
        }
    }
}

/// Copies a run of type tags.
pub fn copy_types(types: &Vec<Type>) -> (r: Vec<Type>)
    ensures
        r@ == types@,
{
    let mut out: Vec<Type> = Vec::new();
    let mut i: usize = 0;
    while i < types.len()
        invariant
            i <= types.len(),
            out@ == types@.take(i as int),
        decreases types.len() - i,
    {
        out.push(types[i]);
        assert(out@ =~= types@.take(i + 1));
        i = i + 1;
    }
    assert(out@ =~= types@);
    out
}

impl Clone for Device {
    fn clone(&self) -> (r: Device)
        ensures
            r@ == self@,
    {
        Device {
            id: self.id.clone(),
            name: self.name.clone(),
            zone_id: self.zone_id,
            present: self.present,
            device_type: self.device_type,
            types: copy_types(&self.types),
            button_type: self.button_type,
        }
    }
}

/// Copies a run of devices.
pub fn copy_devices(devices: &Vec<Device>) -> (r: Vec<Device>)
    ensures
        views(r@) == views(devices@),
{
    let mut out: Vec<Device> = Vec::new();
    let mut i: usize = 0;
    while i < devices.len()
        invariant
            i <= devices.len(),
            views(out@) == views(devices@.take(i as int)),
        decreases devices.len() - i,
    {
        let ghost before = out@;
        let d = devices[i].clone();
        out.push(d);
        proof {
            views_push(before, d);
            views_push(devices@.take(i as int), devices@[i as int]);
            assert(devices@.take(i + 1) =~= devices@.take(i as int).push(devices@[i as int]));
        }
        i = i + 1;
    }
    assert(devices@.take(devices@.len() as int) =~= devices@);
    out
}

/// A set of devices of one type in a zone that scenes address together.
/// Group 0 stands for every device of the type; 1 to 3 are sub-groups.
#[derive(Debug, PartialEq, Eq)]
pub struct Group {
    pub id: usize,
    pub zone_id: usize,
    pub typ: Type,
    pub status: Value,
    pub devices: Vec<Device>,
}

/// The contents of a `Group`.
pub struct GroupView {
    pub id: usize,
    pub zone_id: usize,
    pub typ: Type,
    pub status: Value,
    pub devices: Seq<DeviceView>,
}

impl View for Group {
    type V = GroupView;

    open spec fn view(&self) -> GroupView {
        GroupView {
            id: self.id,
            zone_id: self.zone_id,
            typ: self.typ,
            status: self.status,
            devices: views(self.devices@),
        }
    }
}

impl Clone for Group {
    fn clone(&self) -> (r: Group)
        ensures
            r@ == self@,
    {
        Group {
            id: self.id,
            zone_id: self.zone_id,
            typ: self.typ,
            status: self.status,
            devices: copy_devices(&self.devices),
        }
    }
}

/// Copies a run of groups.
pub fn copy_groups(groups: &Vec<Group>) -> (r: Vec<Group>)
    ensures
        views(r@) == views(groups@),
{
    let mut out: Vec<Group> = Vec::new();
    let mut i: usize = 0;
    while i < groups.len()
        invariant
            i <= groups.len(),
            views(out@) == views(groups@.take(i as int)),
        decreases groups.len() - i,
    {
        let ghost before = out@;
        let g = groups[i].clone();
        out.push(g);
        proof {
            views_push(before, g);
            views_push(groups@.take(i as int), groups@[i as int]);
            assert(groups@.take(i + 1) =~= groups@.take(i as int).push(groups@[i as int]));
        }
        i = i + 1;
    }
    assert(groups@.take(groups@.len() as int) =~= groups@);
    out
}

/// A room, or a part of one.
#[derive(Debug, PartialEq, Eq)]
pub struct Zone {
    pub id: usize,
    pub name: String,
    pub types: Vec<Type>,
    pub groups: Vec<Group>,
}

/// The contents of a `Zone`.
pub struct ZoneView {
    pub id: usize,
    pub name: Seq<char>,
    pub types: Seq<Type>,
    pub groups: Seq<GroupView>,
}

impl View for Zone {
    type V = ZoneView;

    open spec fn view(&self) -> ZoneView {
        ZoneView {
            id: self.id,
            name: self.name@,
            types: self.types@,
            groups: views(self.groups@),
        }
    }
}

impl Clone for Zone {
    fn clone(&self) -> (r: Zone)
        ensures
            r@ == self@,
    {
        Zone {
            id: self.id,
            name: self.name.clone(),
            types: copy_types(&self.types),
            groups: copy_groups(&self.groups),
        }
    }
}

/// Copies a run of zones.
pub fn copy_zones(zones: &Vec<Zone>) -> (r: Vec<Zone>)
    ensures
        views(r@) == views(zones@),
{
    let mut out: Vec<Zone> = Vec::new();
    let mut i: usize = 0;
    while i < zones.len()
        invariant
            i <= zones.len(),
            views(out@) == views(zones@.take(i as int)),
        decreases zones.len() - i,
    {
        let ghost before = out@;
        let z = zones[i].clone();
        out.push(z);
        proof {
            views_push(before, z);
            views_push(zones@.take(i as int), zones@[i as int]);
            assert(zones@.take(i + 1) =~= zones@.take(i as int).push(zones@[i as int]));
        }
        i = i + 1;
    }
    assert(zones@.take(zones@.len() as int) =~= zones@);
    out
}

/// A meter in the installation.
#[derive(Debug, PartialEq, Eq)]
pub struct Circut {
    pub id: String,
    pub name: String,
    pub present: bool,
    pub valid: bool,
}

/// The contents of a `Circut`.
pub struct CircutView {
    pub id: Seq<char>,
    pub name: Seq<char>,
    pub present: bool,
    pub valid: bool,
}

impl View for Circut {
    type V = CircutView;

    open spec fn view(&self) -> CircutView {
        CircutView { id: self.id@, name: self.name@, present: self.present, valid: self.valid }
    }
}

impl Clone for Circut {
    fn clone(&self) -> (r: Circut)
        ensures
            r@ == self@,
    {
        Circut {
            id: self.id.clone(),
            name: self.name.clone(),
            present: self.present,
            valid: self.valid,
        }
    }
}

/// How one device treats one scene.
#[derive(Clone, Copy, Debug, PartialEq, Eq, Structural)]
pub struct SceneMode {
    pub scene: usize,
    pub dont_care: bool,
    pub local_prio: bool,
    pub special_mode: bool,
    pub flash_mode: bool,
    pub led_con_index: usize,
}

} // verus!
