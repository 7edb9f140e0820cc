//! Building the model of the installation.
//!
//! The server has no call that describes everything. The model is put
//! together from many replies: all devices, all zones, for each zone and
//! group type the scenes that can be reached and the scene called last, for
//! each sub-group and candidate device its scene mode, and for each shade
//! group the position of one of its motors.
//!
//! `Builder` is the plan of that work. It names the next request; it takes
//! the reply and moves on. A reply that fails costs only the unit that it
//! was about, except for the two lists at the start, without which there is
//! nothing to build.

use vstd::prelude::*;

use crate::action::{Action, action_from_scene};
use crate::api::{RawApi, signed};
use crate::cache::{set_status, with_groups, with_status};
use crate::calls::{
    angle_in, ANGLE_OFFSET, devices_in, last_scene_in, opening_in, OPENING_OFFSET, output_query_of,
    scene_mode_in, scenes_in, zone_type_params, zones_in,
};
use crate::error::Error;
use crate::group::{fresh_group, fresh_groups, group_ids};
use crate::kind::Type;
use crate::model::{Device, DeviceView, Group, GroupView, Zone, ZoneView};
use crate::request::{Reply, ReplyView, Request, RequestView};
use crate::text::decimal_text;
use crate::value::{Value, value_from_action};
use crate::views::{views, views_add, views_push};

verus! {

/// The zone id that stands for no zone.
pub const NO_ZONE: usize = 0;

/// The zone id that stands for all zones at once.
pub const BROADCAST_ZONE: usize = 65534;

/// What the builder is waiting for.
#[derive(Clone, Copy, Debug, PartialEq, Eq, Structural)]
pub enum Stage {
    /// The list of all devices.
    Devices,
    /// The list of all zones.
    Zones,
    /// The scenes that a zone can reach for one of its group types.
    Scenes,
    /// The scene that was called last on a zone and group type.
    LastScene,
    /// The scene mode of a device for a sub-group.
    Members,
    /// The opening of the first motor of a shade group.
    Opening,
    /// The tilt of that motor.
    Angle,
    /// Nothing: the model is complete.
    Done,
    /// Nothing: the build was given up.
    Failed(Error),
}

/// The state of a build: where it stands and what has been built so far.
#[derive(Debug)]
pub(crate) struct Work {
    stage: Stage,
    devices: Vec<Device>,
    zones: Vec<Zone>,
    zone: usize,
    item: usize,
    device: usize,
    held: Vec<Group>,
    open: u16,
}

/// The contents of a `Builder`.
pub struct BuilderView {
    pub stage: Stage,
    /// All devices of the installation.
    pub devices: Seq<DeviceView>,
    /// The zones, as far as they are built.
    pub zones: Seq<ZoneView>,
    /// The zone that is being worked on, by its place.
    pub zone: nat,
    /// The place of the group type, or of the group, that is being worked on.
    pub item: nat,
    /// The place of the device that is being sorted.
    pub device: nat,
    /// The groups that wait for their state.
    pub held: Seq<GroupView>,
    /// The opening that was read, while the tilt is awaited.
    pub open: u16,
}

impl View for Work {
    type V = BuilderView;

    closed spec fn view(&self) -> BuilderView {
        BuilderView {
            stage: self.stage,
            devices: views(self.devices@),
            zones: views(self.zones@),
            zone: self.zone as nat,
            item: self.item as nat,
            device: self.device as nat,
            held: views(self.held@),
            open: self.open,
        }
    }
}

/// Whether a device belongs to a group.
#[derive(Clone, Copy, Debug, PartialEq, Eq, Structural)]
pub enum Membership {
    /// It does not.
    No,
    /// It does.
    Yes,
    /// Its scene mode decides.
    Ask,
}

/// What is known of a device and a group without asking. Only lights and
/// shades are sorted into groups, and only into groups of their own zone
/// and of the type of their active button. Every such device is in group 0;
/// for a sub-group the device has to be asked.
pub open spec fn membership(group: GroupView, device: DeviceView) -> Membership {
    if !device.device_type.groupable() || device.zone_id != group.zone_id || group.typ
        != device.button_type {
        Membership::No
    } else if group.id == 0 {
        Membership::Yes
    } else {
        Membership::Ask
    }
}

/// The zones that stand for rooms: the two reserved ids are left out.
pub open spec fn real_zones(zones: Seq<ZoneView>) -> Seq<ZoneView>
    decreases zones.len(),
{
    if zones.len() == 0 {
        Seq::empty()
    } else if zones.last().id != NO_ZONE && zones.last().id != BROADCAST_ZONE {
        real_zones(zones.drop_last()).push(zones.last())
    } else {
        real_zones(zones.drop_last())
    }
}

/// The groups, each with the state given.
pub open spec fn all_with_status(groups: Seq<GroupView>, status: Value) -> Seq<GroupView> {
    Seq::new(groups.len(), |i: int| with_status(groups[i], status))
}

/// A group with one more device.
pub open spec fn with_device(group: GroupView, device: DeviceView) -> GroupView {
    GroupView { devices: group.devices.push(device), ..group }
}

impl BuilderView {
    /// Whether the cursor stands on a zone.
    pub open spec fn on_zone(self) -> bool {
        self.zone < self.zones.len()
    }

    /// Whether the cursor stands on a group type of a zone.
    pub open spec fn on_type(self) -> bool {
        self.on_zone() && self.item < self.zones[self.zone as int].types.len()
    }

    /// Whether the cursor stands on a group of a zone.
    pub open spec fn on_group(self) -> bool {
        self.on_zone() && self.item < self.zones[self.zone as int].groups.len()
    }

    /// Whether the cursor stands on a group and a device.
    pub open spec fn on_device(self) -> bool {
        self.on_group() && self.device < self.devices.len()
    }

    /// The zone under the cursor.
    pub open spec fn this_zone(self) -> ZoneView {
        self.zones[self.zone as int]
    }

    /// The group type under the cursor.
    pub open spec fn this_type(self) -> Type {
        self.this_zone().types[self.item as int]
    }

    /// The group under the cursor.
    pub open spec fn this_group(self) -> GroupView {
        self.this_zone().groups[self.item as int]
    }

    /// The device under the cursor.
    pub open spec fn this_device(self) -> DeviceView {
        self.devices[self.device as int]
    }

    /// Whether nothing is left to do.
    pub open spec fn ended(self) -> bool {
        self.stage is Done || self.stage is Failed
    }

    /// Whether the builder waits for a reply: it stands on a unit of work
    /// that cannot be done without one.
    pub open spec fn waiting(self) -> bool {
        match self.stage {
            Stage::Devices => true,
            Stage::Zones => true,
            Stage::Scenes => self.on_type(),
            Stage::LastScene => self.on_type(),
            Stage::Members => self.on_device() && membership(self.this_group(), self.this_device())
                == Membership::Ask,
            Stage::Opening => self.on_group() && self.this_group().typ == Type::Shadow
                && self.this_group().devices.len() > 0,
            Stage::Angle => self.on_group() && self.this_group().devices.len() > 0,
            Stage::Done => false,
            Stage::Failed(_) => false,
        }
    }

    /// Whether the builder is at rest: it waits for a reply or has ended.
    pub open spec fn resting(self) -> bool {
        self.waiting() || self.ended()
    }

    /// The zones with other groups in the zone under the cursor.
    pub open spec fn regrouped(self, groups: Seq<GroupView>) -> Seq<ZoneView> {
        self.zones.update(self.zone as int, with_groups(self.this_zone(), groups))
    }

    /// The zones with another group under the cursor.
    pub open spec fn replaced_group(self, group: GroupView) -> Seq<ZoneView> {
        self.regrouped(self.this_zone().groups.update(self.item as int, group))
    }

    /// One step of work that needs no reply. The cursor moves over what is
    /// exhausted; a device that belongs to group 0 is sorted in; a group
    /// that is no shade group, or has no device, is passed.
    pub open spec fn moved(self) -> BuilderView {
        match self.stage {
            Stage::Scenes => if !self.on_zone() {
                BuilderView { stage: Stage::Members, zone: 0, item: 0, device: 0, ..self }
            } else {
                BuilderView { zone: self.zone + 1, item: 0, ..self }
            },
            Stage::LastScene => BuilderView { stage: Stage::Scenes, held: Seq::empty(), ..self },
            Stage::Members => if !self.on_zone() {
                BuilderView { stage: Stage::Opening, zone: 0, item: 0, device: 0, ..self }
            } else if !self.on_group() {
                BuilderView { zone: self.zone + 1, item: 0, device: 0, ..self }
            } else if !self.on_device() {
                BuilderView { item: self.item + 1, device: 0, ..self }
            } else if membership(self.this_group(), self.this_device()) == Membership::Yes {
                BuilderView {
                    zones: self.replaced_group(with_device(self.this_group(), self.this_device())),
                    device: self.device + 1,
                    ..self
                }
            } else {
                BuilderView { device: self.device + 1, ..self }
            },
            Stage::Opening => if !self.on_zone() {
                BuilderView { stage: Stage::Done, ..self }
            } else if !self.on_group() {
                BuilderView { zone: self.zone + 1, item: 0, ..self }
            } else {
                BuilderView { item: self.item + 1, ..self }
            },
            Stage::Angle => BuilderView { stage: Stage::Opening, ..self },
            _ => self,
        }
    }

    /// The rank of the stage: later stages rank lower.
    pub open spec fn rank(self) -> nat {
        match self.stage {
            Stage::LastScene => 6,
            Stage::Scenes => 5,
            Stage::Members => 4,
            Stage::Angle => 3,
            Stage::Opening => 2,
            _ => 0,
        }
    }

    /// How many zones lie ahead, the one under the cursor included.
    pub open spec fn zones_left(self) -> nat {
        if self.on_zone() {
            (self.zones.len() - self.zone) as nat
        } else {
            0
        }
    }

    /// How many group types or groups of the zone lie ahead.
    pub open spec fn items_left(self) -> nat {
        if self.stage is Scenes && self.on_type() {
            (self.this_zone().types.len() - self.item) as nat
        } else if !(self.stage is Scenes) && self.on_group() {
            (self.this_zone().groups.len() - self.item) as nat
        } else {
            0
        }
    }

    /// How many devices lie ahead for the group.
    pub open spec fn devices_left(self) -> nat {
        if self.device < self.devices.len() {
            (self.devices.len() - self.device) as nat
        } else {
            0
        }
    }

    /// The builder after all work that needs no reply: it is at rest.
    pub open spec fn settled(self) -> BuilderView
        decreases self.rank(), self.zones_left(), self.items_left(), self.devices_left(),
    {
        if self.resting() {
            self
        } else {
            self.moved().settled()
        }
    }
}

impl BuilderView {
    /// The builder at the start of a build.
    pub open spec fn start() -> BuilderView {
        BuilderView {
            stage: Stage::Devices,
            devices: Seq::empty(),
            zones: Seq::empty(),
            zone: 0,
            item: 0,
            device: 0,
            held: Seq::empty(),
            open: 0,
        }
    }

    /// The request that the builder waits for an answer to.
    pub open spec fn request(self, token: Seq<char>) -> Option<RequestView> {
        match self.stage {
            Stage::Devices => Some(signed("apartment/getDevices"@, Seq::empty(), token)),
            Stage::Zones => Some(signed("apartment/getReachableGroups"@, Seq::empty(), token)),
            Stage::Scenes => Some(
                signed(
                    "zone/getReachableScenes"@,
                    zone_type_params(self.this_zone().id, self.this_type()),
                    token,
                ),
            ),
            Stage::LastScene => Some(
                signed(
                    "zone/getLastCalledScene"@,
                    zone_type_params(self.this_zone().id, self.this_type()),
                    token,
                ),
            ),
            Stage::Members => Some(
                signed(
                    "device/getSceneMode"@,
                    seq![
                        ("dsid"@, self.this_device().id),
                        ("sceneID"@, decimal_text(self.this_group().id as nat)),
                    ],
                    token,
                ),
            ),
            Stage::Opening => Some(
                output_query_of(self.this_group().devices[0].id, OPENING_OFFSET, token),
            ),
            Stage::Angle => Some(
                output_query_of(self.this_group().devices[0].id, ANGLE_OFFSET, token),
            ),
            Stage::Done => None,
            Stage::Failed(_) => None,
        }
    }

    /// The builder after the unit under the cursor was given up or done:
    /// the cursor stands on the next group type.
    pub open spec fn next_type(self) -> BuilderView {
        BuilderView { stage: Stage::Scenes, item: self.item + 1, held: Seq::empty(), ..self }
    }

    /// The builder after the groups were added to the zone under the cursor.
    pub open spec fn grouped(self, groups: Seq<GroupView>) -> BuilderView {
        BuilderView {
            zones: self.regrouped(self.this_zone().groups + groups),
            ..self.next_type()
        }
    }

    /// The builder after the shade group under the cursor was given up or
    /// done: the cursor stands on the next group.
    pub open spec fn next_group(self) -> BuilderView {
        BuilderView { stage: Stage::Opening, item: self.item + 1, ..self }
    }

    /// The builder right after a reply, before it moves on. The two lists
    /// at the start are needed: without them the build fails. Any other
    /// reply that fails costs its unit only: the zone gets no groups of the
    /// type, the device stays out of the group, the shade group keeps its
    /// unknown state.
    pub open spec fn fed(self, reply: ReplyView) -> BuilderView {
        match self.stage {
            Stage::Devices => match devices_in(reply) {
                Ok(devices) => BuilderView { stage: Stage::Zones, devices, ..self },
                Err(e) => BuilderView { stage: Stage::Failed(e), ..self },
            },
            Stage::Zones => match zones_in(reply) {
                Ok(zones) => BuilderView {
                    stage: Stage::Scenes,
                    zones: real_zones(zones),
                    zone: 0,
                    item: 0,
                    ..self
                },
                Err(e) => BuilderView { stage: Stage::Failed(e), ..self },
            },
            Stage::Scenes => match scenes_in(reply) {
                Ok(scenes) => {
                    let groups = fresh_groups(
                        group_ids(scenes),
                        self.this_zone().id,
                        self.this_type(),
                    );
                    if self.this_type() == Type::Shadow {
                        self.grouped(groups)
                    } else {
                        BuilderView { stage: Stage::LastScene, held: groups, ..self }
                    }
                },
                Err(_) => self.next_type(),
            },
            Stage::LastScene => match last_scene_in(reply) {
                Ok(scene) => self.grouped(
                    all_with_status(
                        self.held,
                        value_from_action(action_from_scene(self.this_type(), scene)),
                    ),
                ),
                Err(_) => self.next_type(),
            },
            Stage::Members => match scene_mode_in(reply) {
                Ok(mode) => if !mode.dont_care {
                    BuilderView {
                        zones: self.replaced_group(
                            with_device(self.this_group(), self.this_device()),
                        ),
                        device: self.device + 1,
                        ..self
                    }
                } else {
                    BuilderView { device: self.device + 1, ..self }
                },
                Err(_) => BuilderView { device: self.device + 1, ..self },
            },
            Stage::Opening => match opening_in(reply) {
                Ok(open) => BuilderView { stage: Stage::Angle, open, ..self },
                Err(_) => self.next_group(),
            },
            Stage::Angle => match angle_in(reply) {
                Ok(angle) => BuilderView {
                    zones: self.replaced_group(
                        with_status(self.this_group(), Value::Shadow(self.open, angle)),
                    ),
                    ..self.next_group()
                },
                Err(_) => self.next_group(),
            },
            Stage::Done => self,
            Stage::Failed(_) => self,
        }
    }

    /// What a finished build gives: the zones, or the error that ended it.
    /// A build that still waits for a reply counts as one whose transport
    /// failed.
    pub open spec fn outcome(self) -> Result<Seq<ZoneView>, Error> {
        match self.stage {
            Stage::Done => Ok(self.zones),
            Stage::Failed(e) => Err(e),
            _ => Err(Error::Transport),
        }
    }
}

/// Decides what is known of a device and a group without asking.
pub fn decide(group: &Group, device: &Device) -> (r: Membership)
    ensures
        r == membership(group@, device@),
{
    if !device.device_type.is_groupable() || device.zone_id != group.zone_id || group.typ
        != device.button_type {
        Membership::No
    } else if group.id == 0 {
        Membership::Yes
    } else {
        Membership::Ask
    }
}

/// Leaves the two reserved zone ids out.
pub fn keep_real_zones(zones: &Vec<Zone>) -> (r: Vec<Zone>)
    ensures
        views(r@) == real_zones(views(zones@)),
{
    let ghost all = views(zones@);
    let mut out: Vec<Zone> = Vec::new();
    let mut i: usize = 0;
    proof {
        assert(all.take(0) =~= Seq::<ZoneView>::empty());
        assert(views(out@) =~= Seq::<ZoneView>::empty());
    }
    while i < zones.len()
        invariant
            i <= zones.len(),
            all == views(zones@),
            views(out@) == real_zones(all.take(i as int)),
        decreases zones.len() - i,
    {
        proof {
            assert(all.take(i + 1).drop_last() =~= all.take(i as int));
            assert(all.take(i + 1).last() == zones@[i as int]@);
        }
        if zones[i].id != NO_ZONE && zones[i].id != BROADCAST_ZONE {
            let z = zones[i].clone();
            proof {
                views_push(out@, z);
            }
            out.push(z);
        }
        i = i + 1;
    }
    assert(all.take(zones@.len() as int) =~= all);
    out
}

/// Gives every group the state.
pub fn set_all_status(groups: &mut Vec<Group>, status: Value)
    ensures
        views(final(groups)@) == all_with_status(views(old(groups)@), status),
{
    let ghost before = views(groups@);
    let mut i: usize = 0;
    while i < groups.len()
        invariant
            i <= groups.len(),
            groups@.len() == before.len(),
            forall|k: int| 0 <= k < i ==> (#[trigger] groups@[k])@ == with_status(before[k], status),
            forall|k: int| i <= k < groups@.len() ==> (#[trigger] groups@[k])@ == before[k],
        decreases groups.len() - i,
    {
        groups[i].status = status;
        i = i + 1;
    }
    assert(views(groups@) =~= all_with_status(before, status));
}

impl Work {
    /// Whether the builder is well formed: it waits for a reply on a unit
    /// of work that exists, or it has ended, and what it has built is
    /// sound.
    pub open spec fn wf(&self) -> bool {
        self@.resting() && self@.sound() && self@.shades_wait()
    }

    /// The plan of a new build. Nothing is built yet; the list of devices
    /// is asked for first.
    pub fn new() -> (r: Work)
        ensures
            r@ == BuilderView::start(),
            r.wf(),
    {
        let r = Work {
            stage: Stage::Devices,
            devices: Vec::new(),
            zones: Vec::new(),
            zone: 0,
            item: 0,
            device: 0,
            held: Vec::new(),
            open: 0,
        };
        proof {
            assert(views(r.devices@) =~= Seq::<DeviceView>::empty());
            assert(views(r.zones@) =~= Seq::<ZoneView>::empty());
            assert(views(r.held@) =~= Seq::<GroupView>::empty());
        }
        r
    }

    /// What the builder is waiting for.
    pub fn stage(&self) -> (r: Stage)
        ensures
            r == self@.stage,
    {
        self.stage
    }

    /// Whether nothing is left to do.
    pub fn is_finished(&self) -> (r: bool)
        ensures
            r == self@.ended(),
    {
        match self.stage {
            Stage::Done => true,
            Stage::Failed(_) => true,
            _ => false,
        }
    }

    /// The request that is due: the one whose reply `feed` takes next.
    /// A build that has ended asks for nothing.
    pub fn request(&self, api: &RawApi) -> (r: Option<Request>)
        requires
            self.wf(),
        ensures
            match r {
                Some(request) => self@.request(api@.token) == Some(request@),
                None => self@.request(api@.token) is None,
            },
            r is None <==> self@.ended(),
    {
        match self.stage {
            Stage::Devices => Some(api.get_devices_request()),
            Stage::Zones => Some(api.get_zones_request()),
            Stage::Scenes => Some(
                api.get_scenes_request(
                    self.zones[self.zone].id,
                    self.zones[self.zone].types[self.item],
                ),
            ),
            Stage::LastScene => Some(
                api.get_last_called_scene_request(
                    self.zones[self.zone].id,
                    self.zones[self.zone].types[self.item],
                ),
            ),
            Stage::Members => Some(
                api.get_device_scene_mode_request(
                    self.devices[self.device].id.as_str(),
                    self.zones[self.zone].groups[self.item].id,
                ),
            ),
            Stage::Opening => Some(
                api.get_shadow_device_open_request(
                    self.zones[self.zone].groups[self.item].devices[0].id.as_str(),
                ),
            ),
            Stage::Angle => Some(
                api.get_shadow_device_angle_request(
                    self.zones[self.zone].groups[self.item].devices[0].id.as_str(),
                ),
            ),
            Stage::Done => None,
            Stage::Failed(_) => None,
        }
    }

    /// Sorts the device under the cursor into the group under the cursor.
    fn add_member(&mut self)
        requires
            old(self)@.on_device(),
        ensures
            final(self)@ == (BuilderView {
                zones: old(self)@.replaced_group(
                    with_device(old(self)@.this_group(), old(self)@.this_device()),
                ),
                ..old(self)@
            }),
    {
        let ghost before = self@;
        let d = self.devices[self.device].clone();
        proof {
            views_push(self.zones@[self.zone as int].groups@[self.item as int].devices@, d);
        }
        self.zones[self.zone].groups[self.item].devices.push(d);
        proof {
            let g = with_device(before.this_group(), before.this_device());
            assert(views(self.zones@[self.zone as int].groups@) =~= before.this_zone().groups.update(
                self.item as int,
                g,
            ));
            assert(views(self.zones@) =~= before.replaced_group(g));
        }
    }

    /// Adds groups to the zone under the cursor.
    fn add_groups(&mut self, groups: Vec<Group>)
        requires
            old(self)@.on_zone(),
        ensures
            final(self)@ == (BuilderView {
                zones: old(self)@.regrouped(old(self)@.this_zone().groups + views(groups@)),
                ..old(self)@
            }),
    {
        let ghost before = self@;
        let ghost added = views(groups@);
        let mut groups = groups;
        proof {
            views_add(self.zones@[self.zone as int].groups@, groups@);
        }
        self.zones[self.zone].groups.append(&mut groups);
        proof {
            assert(views(self.zones@) =~= before.regrouped(before.this_zone().groups + added));
        }
    }

    /// Does all work that needs no reply.
    fn settle(&mut self)
        ensures
            final(self)@ == old(self)@.settled(),
            final(self)@.resting(),
    {
        loop
            invariant
                self@.settled() == old(self)@.settled(),
            ensures
                self@.resting(),
            decreases self@.rank(), self@.zones_left(), self@.items_left(), self@.devices_left(),
        {
            match self.stage {
                Stage::Scenes => {
                    if self.zone >= self.zones.len() {
                        self.stage = Stage::Members;
                        self.zone = 0;
                        self.item = 0;
                        self.device = 0;
                    } else if self.item >= self.zones[self.zone].types.len() {
                        self.zone = self.zone + 1;
                        self.item = 0;
                    } else {
                        break ;
                    }
                },
                Stage::LastScene => {
                    if self.zone < self.zones.len() && self.item < self.zones[self.zone].types.len() {
                        break ;
                    }
                    self.stage = Stage::Scenes;
                    self.held = Vec::new();
                    assert(views(self.held@) =~= Seq::<GroupView>::empty());
                },
                Stage::Members => {
                    if self.zone >= self.zones.len() {
                        self.stage = Stage::Opening;
                        self.zone = 0;
                        self.item = 0;
                        self.device = 0;
                    } else if self.item >= self.zones[self.zone].groups.len() {
                        self.zone = self.zone + 1;
                        self.item = 0;
                        self.device = 0;
                    } else if self.device >= self.devices.len() {
                        self.item = self.item + 1;
                        self.device = 0;
                    } else {
                        match decide(
                            &self.zones[self.zone].groups[self.item],
                            &self.devices[self.device],
                        ) {
                            Membership::Ask => {
                                break ;
                            },
                            Membership::Yes => {
                                self.add_member();
                                self.device = self.device + 1;
                            },
                            Membership::No => {
                                self.device = self.device + 1;
                            },
                        }
                    }
                },
                Stage::Opening => {
                    if self.zone >= self.zones.len() {
                        self.stage = Stage::Done;
                    } else if self.item >= self.zones[self.zone].groups.len() {
                        self.zone = self.zone + 1;
                        self.item = 0;
                    } else if self.zones[self.zone].groups[self.item].typ == Type::Shadow
                        && self.zones[self.zone].groups[self.item].devices.len() > 0 {
                        break ;
                    } else {
                        self.item = self.item + 1;
                    }
                },
                Stage::Angle => {
                    if self.zone < self.zones.len() && self.item
                        < self.zones[self.zone].groups.len()
                        && self.zones[self.zone].groups[self.item].devices.len() > 0 {
                        break ;
                    }
                    self.stage = Stage::Opening;
                },
                _ => {
                    break ;
                },
            }
        }
    }

    /// Moves the cursor to the next group type of the zone.
    fn to_next_type(&mut self)
        requires
            old(self)@.on_type(),
        ensures
            final(self)@ == old(self)@.next_type(),
    {
        let types = self.zones[self.zone].types.len();
        assert(self.item < types);
        self.stage = Stage::Scenes;
        self.item = self.item + 1;
        self.held = Vec::new();
        assert(views(self.held@) =~= Seq::<GroupView>::empty());
    }

    /// Moves the cursor to the next group of the zone.
    fn to_next_group(&mut self)
        requires
            old(self)@.on_group(),
        ensures
            final(self)@ == old(self)@.next_group(),
    {
        let groups = self.zones[self.zone].groups.len();
        assert(self.item < groups);
        self.stage = Stage::Opening;
        self.item = self.item + 1;
    }

    /// Takes the reply to the request that was due, and moves on to the
    /// next unit of work that needs a reply.
    pub fn feed(&mut self, api: &RawApi, reply: Reply)
        requires
            old(self).wf(),
        ensures
            final(self)@ == old(self)@.fed(reply@).settled(),
            final(self).wf(),
            old(self)@.waiting() ==> final(self)@.nearer(old(self)@),
    {
        proof {
            feeding_keeps_sound(self@, reply@);
            feeding_keeps_shades_waiting(self@, reply@);
            if self@.waiting() {
                feeding_gets_nearer(self@, reply@);
            }
        }
        match self.stage {
            Stage::Devices => match api.get_devices(reply) {
                Ok(devices) => {
                    self.devices = devices;
                    self.stage = Stage::Zones;
                },
                Err(e) => {
                    self.stage = Stage::Failed(e);
                },
            },
            Stage::Zones => match api.get_zones(reply) {
                Ok(zones) => {
                    self.zones = keep_real_zones(&zones);
                    self.stage = Stage::Scenes;
                    self.zone = 0;
                    self.item = 0;
                },
                Err(e) => {
                    self.stage = Stage::Failed(e);
                },
            },
            Stage::Scenes => match api.get_scenes(reply) {
                Ok(scenes) => {
                    let typ = self.zones[self.zone].types[self.item];
                    let groups = Group::from_scenes(
                        scenes.as_slice(),
                        self.zones[self.zone].id,
                        &typ,
                    );
                    if typ == Type::Shadow {
                        self.add_groups(groups);
                        self.to_next_type();
                    } else {
                        self.held = groups;
                        self.stage = Stage::LastScene;
                    }
                },
                Err(_) => {
                    self.to_next_type();
                },
            },
            Stage::LastScene => match api.get_last_called_scene(reply) {
                Ok(scene) => {
                    let typ = self.zones[self.zone].types[self.item];
                    let status = Value::from_action(Action::new(typ, scene), 0);
                    let mut held: Vec<Group> = Vec::new();
                    core::mem::swap(&mut held, &mut self.held);
                    set_all_status(&mut held, status);
                    self.add_groups(held);
                    self.to_next_type();
                },
                Err(_) => {
                    self.to_next_type();
                },
            },
            Stage::Members => {
                let devices = self.devices.len();
                assert(self.device < devices);
                match api.get_device_scene_mode(reply) {
                    Ok(mode) => {
                        if !mode.dont_care {
                            self.add_member();
                        }
                    },
                    Err(_) => {},
                }
                self.device = self.device + 1;
            },
            Stage::Opening => match api.get_shadow_device_open(reply) {
                Ok(open) => {
                    self.open = open;
                    self.stage = Stage::Angle;
                },
                Err(_) => {
                    self.to_next_group();
                },
            },
            Stage::Angle => match api.get_shadow_device_angle(reply) {
                Ok(angle) => {
                    let ghost before = self@;
                    let status = Value::Shadow(self.open, angle);
                    set_status(&mut self.zones[self.zone].groups, self.item, status);
                    proof {
                        assert(views(self.zones@) =~= before.replaced_group(
                            with_status(before.this_group(), status),
                        ));
                    }
                    self.to_next_group();
                },
                Err(_) => {
                    self.to_next_group();
                },
            },
            Stage::Done => {},
            Stage::Failed(_) => {},
        }
        self.settle();
    }

    /// Ends the build and hands the zones over. A build that was given up
    /// hands over its error; one that still waits for a reply counts as
    /// one whose transport failed.
    pub fn finish(self) -> (r: Result<Vec<Zone>, Error>)
        requires
            self.wf(),
        ensures
            match r {
                Ok(zones) => self@.outcome() == Ok::<Seq<ZoneView>, Error>(views(zones@))
                    && zones_sound(views(zones@)),
                Err(e) => self@.outcome() == Err::<Seq<ZoneView>, Error>(e),
            },
    {
        match self.stage {
            Stage::Done => Ok(self.zones),
            Stage::Failed(e) => Err(e),
            _ => Err(Error::Transport),
        }
    }
}

/// Whether a device may be in a group: it is a light or a shade, stands in
/// the zone of the group, and its active button has the type of the group.
pub open spec fn fits(group: GroupView, device: DeviceView) -> bool {
    membership(group, device) != Membership::No
}

/// Whether a group belongs to the zone with the id and holds only devices
/// that may be in it.
pub open spec fn group_sound(group: GroupView, zone_id: usize) -> bool {
    &&& group.zone_id == zone_id
    &&& forall|i: int| 0 <= i < group.devices.len() ==> fits(group, #[trigger] group.devices[i])
}

/// Whether every group of a zone belongs to it and holds only devices that
/// may be in it.
pub open spec fn zone_sound(zone: ZoneView) -> bool {
    forall|g: int| 0 <= g < zone.groups.len() ==> group_sound(#[trigger] zone.groups[g], zone.id)
}

/// Whether every zone is sound.
pub open spec fn zones_sound(zones: Seq<ZoneView>) -> bool {
    forall|z: int| 0 <= z < zones.len() ==> zone_sound(#[trigger] zones[z])
}

impl BuilderView {
    /// Whether what has been built so far is sound: the zones are, and the
    /// groups that wait for their state belong to the zone under the
    /// cursor and are empty of devices that may not be in them.
    pub open spec fn sound(self) -> bool {
        &&& zones_sound(self.zones)
        &&& !(self.stage is LastScene) ==> self.held.len() == 0
        &&& forall|h: int|
            0 <= h < self.held.len() ==> self.on_zone() && group_sound(
                #[trigger] self.held[h],
                self.this_zone().id,
            )
    }
}

/// Zones as the server lists them have no groups, so they are sound.
pub proof fn listed_zones_are_sound(items: Seq<crate::json::JsonView>)
    requires
        crate::wire::zones_of(items) is Ok,
    ensures
        zones_sound(crate::wire::zones_of(items)->Ok_0),
        forall|z: int|
            0 <= z < crate::wire::zones_of(items)->Ok_0.len() ==> (#[trigger] crate::wire::zones_of(
                items,
            )->Ok_0[z]).groups.len() == 0,
    decreases items.len(),
{
    if items.len() > 0 {
        listed_zones_are_sound(items.drop_last());
    }
}

/// Leaving zones out keeps the rest sound.
pub proof fn real_zones_are_sound(zones: Seq<ZoneView>)
    requires
        zones_sound(zones),
    ensures
        zones_sound(real_zones(zones)),
    decreases zones.len(),
{
    if zones.len() > 0 {
        let front = zones.drop_last();
        assert forall|z: int| 0 <= z < front.len() implies zone_sound(#[trigger] front[z]) by {
            assert(front[z] == zones[z]);
        }
        real_zones_are_sound(front);
        assert(zone_sound(zones[zones.len() - 1]));
    }
}

/// A sound zone that gets sound groups of its own stays sound.
pub proof fn more_groups_stay_sound(zone: ZoneView, groups: Seq<GroupView>)
    requires
        zone_sound(zone),
        forall|h: int| 0 <= h < groups.len() ==> group_sound(#[trigger] groups[h], zone.id),
    ensures
        zone_sound(with_groups(zone, zone.groups + groups)),
{
    let all = zone.groups + groups;
    assert forall|g: int| 0 <= g < all.len() implies group_sound(#[trigger] all[g], zone.id) by {
        if g < zone.groups.len() {
            assert(all[g] == zone.groups[g]);
        } else {
            assert(all[g] == groups[g - zone.groups.len()]);
        }
    }
}

/// Sound zones stay sound when one of them is replaced by a sound zone.
pub proof fn replaced_zone_stays_sound(zones: Seq<ZoneView>, z: int, zone: ZoneView)
    requires
        zones_sound(zones),
        0 <= z < zones.len(),
        zone_sound(zone),
    ensures
        zones_sound(zones.update(z, zone)),
{
    let next = zones.update(z, zone);
    assert forall|k: int| 0 <= k < next.len() implies zone_sound(#[trigger] next[k]) by {
        if k != z {
            assert(next[k] == zones[k]);
        }
    }
}

/// A sound zone stays sound when one of its groups is replaced by a sound
/// group of the zone.
pub proof fn replaced_group_stays_sound(zone: ZoneView, g: int, group: GroupView)
    requires
        zone_sound(zone),
        0 <= g < zone.groups.len(),
        group_sound(group, zone.id),
    ensures
        zone_sound(with_groups(zone, zone.groups.update(g, group))),
{
    let next = zone.groups.update(g, group);
    assert forall|k: int| 0 <= k < next.len() implies group_sound(#[trigger] next[k], zone.id) by {
        if k != g {
            assert(next[k] == zone.groups[k]);
        }
    }
}

/// A sound group stays sound when a device that fits is added.
pub proof fn added_device_stays_sound(group: GroupView, zone_id: usize, device: DeviceView)
    requires
        group_sound(group, zone_id),
        fits(group, device),
    ensures
        group_sound(with_device(group, device), zone_id),
{
    let next = with_device(group, device);
    assert forall|i: int| 0 <= i < next.devices.len() implies fits(
        next,
        #[trigger] next.devices[i],
    ) by {
        if i < group.devices.len() {
            assert(next.devices[i] == group.devices[i]);
            assert(fits(group, group.devices[i]));
        }
    }
}

/// A sound group stays sound under another state.
pub proof fn restated_group_stays_sound(group: GroupView, zone_id: usize, status: Value)
    requires
        group_sound(group, zone_id),
    ensures
        group_sound(with_status(group, status), zone_id),
{
    let next = with_status(group, status);
    assert forall|i: int| 0 <= i < next.devices.len() implies fits(
        next,
        #[trigger] next.devices[i],
    ) by {
        assert(fits(group, group.devices[i]));
    }
}

/// The start of a build is sound.
pub proof fn start_is_sound()
    ensures
        BuilderView::start().sound(),
        BuilderView::start().resting(),
{
}

/// One step of work that needs no reply keeps the build sound.
pub proof fn moving_keeps_sound(b: BuilderView)
    requires
        b.sound(),
        !b.resting(),
    ensures
        b.moved().sound(),
{
    match b.stage {
        Stage::Members => {
            if b.on_device() && membership(b.this_group(), b.this_device()) == Membership::Yes {
                let group = with_device(b.this_group(), b.this_device());
                assert(zone_sound(b.this_zone()));
                assert(group_sound(b.this_group(), b.this_zone().id));
                added_device_stays_sound(b.this_group(), b.this_zone().id, b.this_device());
                replaced_group_stays_sound(b.this_zone(), b.item as int, group);
                replaced_zone_stays_sound(
                    b.zones,
                    b.zone as int,
                    with_groups(b.this_zone(), b.this_zone().groups.update(b.item as int, group)),
                );
            }
        },
        _ => {},
    }
}

/// All the work that needs no reply keeps the build sound.
pub proof fn settling_keeps_sound(b: BuilderView)
    requires
        b.sound(),
    ensures
        b.settled().sound(),
        b.settled().resting(),
    decreases b.rank(), b.zones_left(), b.items_left(), b.devices_left(),
{
    if !b.resting() {
        moving_keeps_sound(b);
        settling_keeps_sound(b.moved());
    }
}

/// Taking a reply keeps the build sound, whatever the reply says.
pub proof fn feeding_keeps_sound(b: BuilderView, reply: ReplyView)
    requires
        b.sound(),
        b.resting(),
    ensures
        b.fed(reply).sound(),
        b.fed(reply).settled().sound(),
        b.fed(reply).settled().resting(),
{
    let c = b.fed(reply);
    match b.stage {
        Stage::Zones => {
            match zones_in(reply) {
                Ok(zones) => {
                    let p = crate::request::payload_of(reply)->Ok_0;
                    let items = crate::decode::list_field(p, crate::error::Field::Zones)->Ok_0;
                    listed_zones_are_sound(items);
                    real_zones_are_sound(zones);
                },
                Err(_) => {},
            }
        },
        Stage::Scenes => {
            match scenes_in(reply) {
                Ok(scenes) => {
                    let groups = fresh_groups(group_ids(scenes), b.this_zone().id, b.this_type());
                    assert forall|h: int| 0 <= h < groups.len() implies group_sound(
                        #[trigger] groups[h],
                        b.this_zone().id,
                    ) by {}
                    if b.this_type() == Type::Shadow {
                        more_groups_stay_sound(b.this_zone(), groups);
                        replaced_zone_stays_sound(
                            b.zones,
                            b.zone as int,
                            with_groups(b.this_zone(), b.this_zone().groups + groups),
                        );
                    }
                },
                Err(_) => {},
            }
        },
        Stage::LastScene => {
            match last_scene_in(reply) {
                Ok(scene) => {
                    let status = value_from_action(action_from_scene(b.this_type(), scene));
                    let groups = all_with_status(b.held, status);
                    assert forall|h: int| 0 <= h < groups.len() implies group_sound(
                        #[trigger] groups[h],
                        b.this_zone().id,
                    ) by {
                        restated_group_stays_sound(b.held[h], b.this_zone().id, status);
                    }
                    more_groups_stay_sound(b.this_zone(), groups);
                    replaced_zone_stays_sound(
                        b.zones,
                        b.zone as int,
                        with_groups(b.this_zone(), b.this_zone().groups + groups),
                    );
                },
                Err(_) => {},
            }
        },
        Stage::Members => {
            match scene_mode_in(reply) {
                Ok(mode) => {
                    if !mode.dont_care {
                        let group = with_device(b.this_group(), b.this_device());
                        assert(zone_sound(b.this_zone()));
                        assert(group_sound(b.this_group(), b.this_zone().id));
                        added_device_stays_sound(b.this_group(), b.this_zone().id, b.this_device());
                        replaced_group_stays_sound(b.this_zone(), b.item as int, group);
                        replaced_zone_stays_sound(
                            b.zones,
                            b.zone as int,
                            with_groups(
                                b.this_zone(),
                                b.this_zone().groups.update(b.item as int, group),
                            ),
                        );
                    }
                },
                Err(_) => {},
            }
        },
        Stage::Angle => {
            match angle_in(reply) {
                Ok(angle) => {
                    let status = Value::Shadow(b.open, angle);
                    let group = with_status(b.this_group(), status);
                    assert(zone_sound(b.this_zone()));
                    assert(group_sound(b.this_group(), b.this_zone().id));
                    restated_group_stays_sound(b.this_group(), b.this_zone().id, status);
                    replaced_group_stays_sound(b.this_zone(), b.item as int, group);
                    replaced_zone_stays_sound(
                        b.zones,
                        b.zone as int,
                        with_groups(b.this_zone(), b.this_zone().groups.update(b.item as int, group)),
                    );
                },
                Err(_) => {},
            }
        },
        _ => {},
    }
    assert(c.sound());
    settling_keeps_sound(c);
}

impl BuilderView {
    /// The part of the build that the builder is in, counted down.
    pub open spec fn phase(self) -> nat {
        match self.stage {
            Stage::Devices => 5,
            Stage::Zones => 4,
            Stage::Scenes => 3,
            Stage::LastScene => 3,
            Stage::Members => 2,
            Stage::Opening => 1,
            Stage::Angle => 1,
            Stage::Done => 0,
            Stage::Failed(_) => 0,
        }
    }

    /// How many units of the zone under the cursor lie ahead: group types
    /// while groups are derived, groups afterwards.
    pub open spec fn units_left(self) -> nat {
        if self.phase() == 3 && self.on_type() {
            (self.this_zone().types.len() - self.item) as nat
        } else if (self.phase() == 2 || self.phase() == 1) && self.on_group() {
            (self.this_zone().groups.len() - self.item) as nat
        } else {
            0
        }
    }

    /// How many more questions the unit under the cursor may take after the
    /// one that is due.
    pub open spec fn questions_left(self) -> nat {
        match self.stage {
            Stage::Scenes => 1,
            Stage::Opening => 1,
            _ => 0,
        }
    }

    /// Whether this builder is nearer to the end of the build than another:
    /// it is in a later part, or in the same part with fewer zones ahead,
    /// or fewer units of the zone, or fewer devices, or fewer questions.
    pub open spec fn nearer(self, other: BuilderView) -> bool {
        ||| self.phase() < other.phase()
        ||| self.phase() == other.phase() && self.zones_left() < other.zones_left()
        ||| self.phase() == other.phase() && self.zones_left() == other.zones_left()
            && self.units_left() < other.units_left()
        ||| self.phase() == other.phase() && self.zones_left() == other.zones_left()
            && self.units_left() == other.units_left() && self.devices_left()
            < other.devices_left()
        ||| self.phase() == other.phase() && self.zones_left() == other.zones_left()
            && self.units_left() == other.units_left() && self.devices_left()
            == other.devices_left() && self.questions_left() < other.questions_left()
    }
}

/// Work that needs no reply never leads away from the end of the build.
pub proof fn settling_gets_no_farther(b: BuilderView)
    requires
        b.stage is LastScene || b.stage is Angle ==> b.waiting(),
    ensures
        b.settled() == b || b.settled().nearer(b),
    decreases b.rank(), b.zones_left(), b.items_left(), b.devices_left(),
{
    if !b.resting() {
        let m = b.moved();
        assert(m.nearer(b));
        settling_gets_no_farther(m);
    }
}

/// Every reply brings the build nearer to its end, whatever it says. As
/// the distance is made of natural numbers that are compared place by
/// place, it cannot shrink for ever: every build ends after finitely many
/// requests.
pub proof fn feeding_gets_nearer(b: BuilderView, reply: ReplyView)
    requires
        b.waiting(),
    ensures
        b.fed(reply).settled().nearer(b),
{
    let c = b.fed(reply);
    assert(c.nearer(b));
    assert(c.stage is LastScene || c.stage is Angle ==> c.waiting());
    settling_gets_no_farther(c);
}

/// The plan of a build, and what has been built so far.
///
/// A builder always waits for a reply on a unit of work that exists, or has
/// ended; and what it has built is always sound.
#[derive(Debug)]
pub struct Builder {
    work: Work,
}

impl View for Builder {
    type V = BuilderView;

    closed spec fn view(&self) -> BuilderView {
        self.work@
    }
}

impl Builder {
    #[verifier::type_invariant]
    spec fn inv(self) -> bool {
        self.work.wf()
    }

    /// The plan of a new build. Nothing is built yet; the list of devices
    /// is asked for first.
    pub fn new() -> (r: Builder)
        ensures
            r@ == BuilderView::start(),
    {
        Builder { work: Work::new() }
    }

    /// What the builder is waiting for. Whatever it is, the builder is at
    /// rest, what it has built is sound, and the shade groups that it has
    /// not come to yet are in an unknown state.
    pub fn stage(&self) -> (r: Stage)
        ensures
            r == self@.stage,
            self@.resting(),
            self@.sound(),
            self@.shades_wait(),
    {
        proof {
            use_type_invariant(self);
        }
        self.work.stage()
    }

    /// Whether nothing is left to do.
    pub fn is_finished(&self) -> (r: bool)
        ensures
            r == self@.ended(),
    {
        self.work.is_finished()
    }

    /// The request that is due: the one whose reply `feed` takes next.
    /// A build that has ended asks for nothing.
    pub fn request(&self, api: &RawApi) -> (r: Option<Request>)
        ensures
            match r {
                Some(request) => self@.request(api@.token) == Some(request@),
                None => self@.request(api@.token) is None,
            },
            r is None <==> self@.ended(),
            r is Some <==> self@.waiting(),
    {
        proof {
            use_type_invariant(self);
        }
        self.work.request(api)
    }

    /// Takes the reply to the request that was due, and moves on to the
    /// next unit of work that needs a reply. Every reply brings the build
    /// nearer to its end. A build that has ended takes no notice.
    pub fn feed(&mut self, api: &RawApi, reply: Reply)
        ensures
            final(self)@ == old(self)@.fed(reply@).settled(),
            old(self)@.waiting() ==> final(self)@.nearer(old(self)@),
            old(self)@.ended() ==> final(self)@ == old(self)@,
    {
        proof {
            use_type_invariant(&*self);
        }
        let mut work = Work::new();
        core::mem::swap(&mut work, &mut self.work);
        work.feed(api, reply);
        self.work = work;
    }

    /// Ends the build and hands the zones over: every group in them
    /// belongs to its zone and holds only devices that may be in it. A
    /// build that was given up hands over its error; one that still waits
    /// for a reply counts as one whose transport failed.
    pub fn finish(self) -> (r: Result<Vec<Zone>, Error>)
        ensures
            match r {
                Ok(zones) => self@.outcome() == Ok::<Seq<ZoneView>, Error>(views(zones@))
                    && zones_sound(views(zones@)),
                Err(e) => self@.outcome() == Err::<Seq<ZoneView>, Error>(e),
            },
    {
        proof {
            use_type_invariant(&self);
        }
        self.work.finish()
    }
}

/// Whether two lists hold the same zones at the same places: the same
/// ids, names and group types. Their groups may differ.
pub open spec fn same_rooms(a: Seq<ZoneView>, b: Seq<ZoneView>) -> bool {
    &&& a.len() == b.len()
    &&& forall|i: int|
        0 <= i < a.len() ==> (#[trigger] a[i]).id == b[i].id && a[i].name == b[i].name
            && a[i].types == b[i].types
}

/// Work that needs no reply keeps the zones as the server listed them.
pub proof fn settling_keeps_rooms(b: BuilderView)
    ensures
        same_rooms(b.settled().zones, b.zones),
        b.settled().devices == b.devices,
    decreases b.rank(), b.zones_left(), b.items_left(), b.devices_left(),
{
    if !b.resting() {
        let m = b.moved();
        assert(same_rooms(m.zones, b.zones));
        settling_keeps_rooms(m);
        let s = m.settled();
        assert forall|i: int| 0 <= i < s.zones.len() implies (#[trigger] s.zones[i]).id
            == b.zones[i].id && s.zones[i].name == b.zones[i].name && s.zones[i].types
            == b.zones[i].types by {
            assert(m.zones[i].id == b.zones[i].id);
        }
    }
}

/// Once the zones are listed, no reply changes which zones there are or in
/// what order they stand: every step keeps their ids, names and group
/// types, and the list of devices.
pub proof fn feeding_keeps_rooms(b: BuilderView, reply: ReplyView)
    requires
        b.resting(),
        !(b.stage is Devices),
        !(b.stage is Zones),
    ensures
        same_rooms(b.fed(reply).settled().zones, b.zones),
        b.fed(reply).settled().devices == b.devices,
{
    let c = b.fed(reply);
    assert(same_rooms(c.zones, b.zones));
    settling_keeps_rooms(c);
    let s = c.settled();
    assert forall|i: int| 0 <= i < s.zones.len() implies (#[trigger] s.zones[i]).id
        == b.zones[i].id && s.zones[i].name == b.zones[i].name && s.zones[i].types
        == b.zones[i].types by {
        assert(c.zones[i].id == b.zones[i].id);
    }
}

/// Work that needs no reply never gives a build up.
pub proof fn settling_never_fails(b: BuilderView)
    requires
        !(b.stage is Failed),
    ensures
        !(b.settled().stage is Failed),
    decreases b.rank(), b.zones_left(), b.items_left(), b.devices_left(),
{
    if !b.resting() {
        settling_never_fails(b.moved());
    }
}

/// Only the two lists at the start can fail a build: it is given up
/// exactly where the list of devices or the list of zones cannot be read,
/// with the error of that reply. No later reply ends it that way.
pub proof fn only_the_lists_can_fail(b: BuilderView, reply: ReplyView)
    requires
        b.waiting(),
    ensures
        b.fed(reply).settled().stage is Failed <==> (b.stage is Devices && devices_in(reply) is Err)
            || (b.stage is Zones && zones_in(reply) is Err),
        b.stage is Devices && devices_in(reply) is Err ==> b.fed(reply).settled().stage
            == Stage::Failed(devices_in(reply)->Err_0),
        b.stage is Zones && zones_in(reply) is Err ==> b.fed(reply).settled().stage
            == Stage::Failed(zones_in(reply)->Err_0),
{
    let c = b.fed(reply);
    if !(c.stage is Failed) {
        settling_never_fails(c);
    }
}

/// The devices that may be in a group, in the order of the list.
pub open spec fn fitting(group: GroupView, devices: Seq<DeviceView>) -> Seq<DeviceView>
    decreases devices.len(),
{
    if devices.len() == 0 {
        Seq::empty()
    } else if fits(group, devices[0]) {
        seq![devices[0]] + fitting(group, devices.drop_first())
    } else {
        fitting(group, devices.drop_first())
    }
}

/// A group with other devices.
pub open spec fn with_devices(group: GroupView, devices: Seq<DeviceView>) -> GroupView {
    GroupView { devices, ..group }
}

/// Which devices may be in a group does not depend on the devices that are
/// in it already.
pub proof fn fitting_ignores_members(group: GroupView, other: GroupView, devices: Seq<DeviceView>)
    requires
        group.id == other.id,
        group.zone_id == other.zone_id,
        group.typ == other.typ,
    ensures
        fitting(group, devices) == fitting(other, devices),
    decreases devices.len(),
{
    if devices.len() > 0 {
        fitting_ignores_members(group, other, devices.drop_first());
    }
}

/// Putting a group where it stands already changes nothing.
proof fn same_group_again(b: BuilderView, devices: Seq<DeviceView>)
    requires
        b.on_group(),
        devices =~= b.this_group().devices,
    ensures
        b.replaced_group(with_devices(b.this_group(), devices)) == b.zones,
{
    let group = with_devices(b.this_group(), devices);
    assert(group == b.this_group());
    assert(b.this_zone().groups.update(b.item as int, group) =~= b.this_zone().groups);
    assert(with_groups(b.this_zone(), b.this_zone().groups) == b.this_zone());
    assert(b.zones.update(b.zone as int, b.this_zone()) =~= b.zones);
}

/// The catch-all group takes every device that fits, in the order in
/// which the server listed the devices, and no device has to be asked: from
/// a cursor on group 0 the build goes on as from the next group, with the
/// fitting devices that lay ahead added to the group.
pub proof fn catch_all_group_takes_what_fits(b: BuilderView)
    requires
        b.stage is Members,
        b.on_group(),
        b.this_group().id == 0,
        b.device <= b.devices.len(),
    ensures
        b.settled() == (BuilderView {
            zones: b.replaced_group(
                with_devices(
                    b.this_group(),
                    b.this_group().devices + fitting(
                        b.this_group(),
                        b.devices.skip(b.device as int),
                    ),
                ),
            ),
            item: b.item + 1,
            device: 0,
            ..b
        }).settled(),
    decreases b.devices.len() - b.device,
{
    let group = b.this_group();
    let ahead = b.devices.skip(b.device as int);
    let target = BuilderView {
        zones: b.replaced_group(with_devices(group, group.devices + fitting(group, ahead))),
        item: b.item + 1,
        device: 0,
        ..b
    };
    let m = b.moved();
    assert(!b.resting());
    assert(b.settled() == m.settled());
    if b.device == b.devices.len() {
        assert(ahead.len() == 0);
        assert(group.devices + fitting(group, ahead) =~= group.devices);
        same_group_again(b, group.devices + fitting(group, ahead));
        assert(m == target);
    } else {
        let d = b.this_device();
        let rest = b.devices.skip(b.device as int + 1);
        assert(ahead[0] == d);
        assert(ahead.drop_first() =~= rest);
        let next = m.this_group();
        assert(m.this_zone().groups.len() == b.this_zone().groups.len());
        if fits(group, d) {
            assert(next == with_device(group, d));
            assert(next.devices + fitting(group, rest) =~= group.devices + fitting(group, ahead));
            assert(m.this_zone().groups.update(
                b.item as int,
                with_devices(next, next.devices + fitting(group, rest)),
            ) =~= b.this_zone().groups.update(
                b.item as int,
                with_devices(group, group.devices + fitting(group, ahead)),
            ));
            assert(m.zones.update(
                b.zone as int,
                with_groups(
                    m.this_zone(),
                    b.this_zone().groups.update(
                        b.item as int,
                        with_devices(group, group.devices + fitting(group, ahead)),
                    ),
                ),
            ) =~= target.zones);
        } else {
            assert(next == group);
            assert(fitting(group, ahead) == fitting(group, rest));
        }
        fitting_ignores_members(next, group, rest);
        catch_all_group_takes_what_fits(m);
        assert(with_devices(next, next.devices + fitting(next, rest)) == with_devices(
            group,
            group.devices + fitting(group, ahead),
        ));
        assert(m.replaced_group(with_devices(next, next.devices + fitting(next, rest)))
            == target.zones);
    }
}

impl BuilderView {
    /// Whether the build has not come to the group at this place of this
    /// zone yet, to read the position of its motor.
    pub open spec fn before_reading(self, z: int, g: int) -> bool {
        match self.stage {
            Stage::Opening => z > self.zone || (z == self.zone && g >= self.item),
            Stage::Angle => z > self.zone || (z == self.zone && g >= self.item),
            Stage::Done => false,
            _ => true,
        }
    }

    /// Whether every shade group that the build has not come to yet is in
    /// an unknown state, and no shade group waits for a state from a scene.
    pub open spec fn shades_wait(self) -> bool {
        &&& forall|z: int, g: int|
            0 <= z < self.zones.len() && 0 <= g < self.zones[z].groups.len() && (
            #[trigger] self.zones[z].groups[g]).typ == Type::Shadow && self.before_reading(z, g)
                ==> self.zones[z].groups[g].status == Value::Unknown
        &&& forall|h: int| 0 <= h < self.held.len() ==> (#[trigger] self.held[h]).typ != Type::Shadow
    }
}

/// Whether two lists hold zones with the same groups in the same states:
/// the same ids, types and states at the same places. The devices of the
/// groups may differ.
pub open spec fn same_states(a: Seq<ZoneView>, b: Seq<ZoneView>) -> bool {
    &&& a.len() == b.len()
    &&& forall|z: int| 0 <= z < a.len() ==> (#[trigger] a[z]).groups.len() == b[z].groups.len()
    &&& forall|z: int, g: int|
        0 <= z < a.len() && 0 <= g < a[z].groups.len() ==> (#[trigger] a[z].groups[g]).status
            == b[z].groups[g].status && a[z].groups[g].id == b[z].groups[g].id
            && a[z].groups[g].typ == b[z].groups[g].typ
}

/// Work that needs no reply changes the state of no group, and adds and
/// drops none.
pub proof fn settling_keeps_states(b: BuilderView)
    ensures
        same_states(b.settled().zones, b.zones),
    decreases b.rank(), b.zones_left(), b.items_left(), b.devices_left(),
{
    if !b.resting() {
        let m = b.moved();
        assert(same_states(m.zones, b.zones)) by {
            if b.stage is Members && b.on_device() && membership(b.this_group(), b.this_device())
                == Membership::Yes {
                let group = with_device(b.this_group(), b.this_device());
                let groups = b.this_zone().groups.update(b.item as int, group);
                assert(m.zones == b.zones.update(b.zone as int, with_groups(b.this_zone(), groups)));
                assert forall|z: int, g: int|
                    0 <= z < m.zones.len() && 0 <= g < m.zones[z].groups.len() implies (
                #[trigger] m.zones[z].groups[g]).status == b.zones[z].groups[g].status
                    && m.zones[z].groups[g].id == b.zones[z].groups[g].id
                    && m.zones[z].groups[g].typ == b.zones[z].groups[g].typ by {
                    if z == b.zone && g == b.item {
                    } else if z == b.zone {
                        assert(groups[g] == b.this_zone().groups[g]);
                    }
                }
            }
        }
        settling_keeps_states(m);
        let s = m.settled();
        assert forall|z: int| 0 <= z < s.zones.len() implies (#[trigger] s.zones[z]).groups.len()
            == b.zones[z].groups.len() by {
            assert(m.zones[z].groups.len() == b.zones[z].groups.len());
        }
        assert forall|z: int, g: int|
            0 <= z < s.zones.len() && 0 <= g < s.zones[z].groups.len() implies (
        #[trigger] s.zones[z].groups[g]).status == b.zones[z].groups[g].status
            && s.zones[z].groups[g].id == b.zones[z].groups[g].id && s.zones[z].groups[g].typ
            == b.zones[z].groups[g].typ by {
            assert(m.zones[z].groups.len() == b.zones[z].groups.len());
            assert(m.zones[z].groups[g].status == b.zones[z].groups[g].status);
        }
    }
}

/// One step of work that needs no reply leaves the shade groups waiting.
pub proof fn moving_keeps_shades_waiting(b: BuilderView)
    requires
        b.shades_wait(),
        !b.resting(),
    ensures
        b.moved().shades_wait(),
{
    let m = b.moved();
    if b.stage is Members && b.on_device() && membership(b.this_group(), b.this_device())
        == Membership::Yes {
        let group = with_device(b.this_group(), b.this_device());
        let groups = b.this_zone().groups.update(b.item as int, group);
        assert(m.zones == b.zones.update(b.zone as int, with_groups(b.this_zone(), groups)));
        assert forall|z: int, g: int|
            0 <= z < m.zones.len() && 0 <= g < m.zones[z].groups.len() && (
            #[trigger] m.zones[z].groups[g]).typ == Type::Shadow && m.before_reading(
                z,
                g,
            ) implies m.zones[z].groups[g].status == Value::Unknown by {
            if z == b.zone && g == b.item {
                assert(b.zones[z].groups[g].typ == Type::Shadow);
            } else if z == b.zone {
                assert(groups[g] == b.this_zone().groups[g]);
                assert(b.zones[z].groups[g].typ == Type::Shadow);
            } else {
                assert(b.zones[z].groups[g].typ == Type::Shadow);
            }
        }
    } else {
        assert forall|z: int, g: int|
            0 <= z < m.zones.len() && 0 <= g < m.zones[z].groups.len() && (
            #[trigger] m.zones[z].groups[g]).typ == Type::Shadow && m.before_reading(
                z,
                g,
            ) implies m.zones[z].groups[g].status == Value::Unknown by {
            assert(b.zones[z].groups[g].typ == Type::Shadow);
            assert(b.before_reading(z, g));
        }
    }
}

/// All the work that needs no reply leaves the shade groups waiting.
pub proof fn settling_keeps_shades_waiting(b: BuilderView)
    requires
        b.shades_wait(),
    ensures
        b.settled().shades_wait(),
    decreases b.rank(), b.zones_left(), b.items_left(), b.devices_left(),
{
    if !b.resting() {
        moving_keeps_shades_waiting(b);
        settling_keeps_shades_waiting(b.moved());
    }
}

/// Zones without groups stay without groups when some are left out.
pub proof fn real_zones_have_no_groups(zones: Seq<ZoneView>)
    requires
        forall|z: int| 0 <= z < zones.len() ==> (#[trigger] zones[z]).groups.len() == 0,
    ensures
        forall|z: int|
            0 <= z < real_zones(zones).len() ==> (#[trigger] real_zones(zones)[z]).groups.len()
                == 0,
    decreases zones.len(),
{
    if zones.len() > 0 {
        let front = zones.drop_last();
        assert forall|z: int| 0 <= z < front.len() implies (#[trigger] front[z]).groups.len()
            == 0 by {
            assert(front[z] == zones[z]);
        }
        real_zones_have_no_groups(front);
        assert(zones[zones.len() - 1].groups.len() == 0);
        let kept = real_zones(zones);
        assert forall|z: int| 0 <= z < kept.len() implies (#[trigger] kept[z]).groups.len()
            == 0 by {
            if z < real_zones(front).len() {
                assert(kept[z] == real_zones(front)[z]);
            }
        }
    }
}

/// The groups of a zone after more groups were added: the old ones at
/// their places, the new ones behind them.
proof fn grouped_zones(b: BuilderView, groups: Seq<GroupView>, z: int, g: int)
    requires
        b.on_zone(),
        0 <= z < b.zones.len(),
        0 <= g < b.regrouped(b.this_zone().groups + groups)[z].groups.len(),
    ensures
        b.regrouped(b.this_zone().groups + groups).len() == b.zones.len(),
        z != b.zone ==> b.regrouped(b.this_zone().groups + groups)[z] == b.zones[z],
        z == b.zone && g < b.this_zone().groups.len() ==> b.regrouped(
            b.this_zone().groups + groups,
        )[z].groups[g] == b.zones[z].groups[g],
        z == b.zone && g >= b.this_zone().groups.len() ==> b.regrouped(
            b.this_zone().groups + groups,
        )[z].groups[g] == groups[g - b.this_zone().groups.len()],
{
}

/// A reply leaves the shade groups that the build has not come to yet in
/// their unknown state, whatever it says.
pub proof fn feeding_keeps_shades_waiting(b: BuilderView, reply: ReplyView)
    requires
        b.shades_wait(),
        b.resting(),
    ensures
        b.fed(reply).shades_wait(),
        b.fed(reply).settled().shades_wait(),
{
    let c = b.fed(reply);
    match b.stage {
        Stage::Zones => {
            match zones_in(reply) {
                Ok(zones) => {
                    let p = crate::request::payload_of(reply)->Ok_0;
                    let items = crate::decode::list_field(p, crate::error::Field::Zones)->Ok_0;
                    listed_zones_are_sound(items);
                    real_zones_have_no_groups(zones);
                },
                Err(_) => {},
            }
        },
        Stage::Scenes => {
            match scenes_in(reply) {
                Ok(scenes) => {
                    let groups = fresh_groups(group_ids(scenes), b.this_zone().id, b.this_type());
                    if b.this_type() == Type::Shadow {
                        assert forall|z: int, g: int|
                            0 <= z < c.zones.len() && 0 <= g < c.zones[z].groups.len() && (
                            #[trigger] c.zones[z].groups[g]).typ == Type::Shadow
                                && c.before_reading(z, g) implies c.zones[z].groups[g].status
                            == Value::Unknown by {
                            grouped_zones(b, groups, z, g);
                            if z == b.zone && g < b.this_zone().groups.len() {
                                assert(b.zones[z].groups[g].typ == Type::Shadow);
                            } else if z != b.zone {
                                assert(b.zones[z].groups[g].typ == Type::Shadow);
                            }
                        }
                    }
                },
                Err(_) => {},
            }
        },
        Stage::LastScene => {
            match last_scene_in(reply) {
                Ok(scene) => {
                    let status = value_from_action(action_from_scene(b.this_type(), scene));
                    let groups = all_with_status(b.held, status);
                    assert forall|z: int, g: int|
                        0 <= z < c.zones.len() && 0 <= g < c.zones[z].groups.len() && (
                        #[trigger] c.zones[z].groups[g]).typ == Type::Shadow && c.before_reading(
                            z,
                            g,
                        ) implies c.zones[z].groups[g].status == Value::Unknown by {
                        grouped_zones(b, groups, z, g);
                        if z == b.zone && g < b.this_zone().groups.len() {
                            assert(b.zones[z].groups[g].typ == Type::Shadow);
                        } else if z != b.zone {
                            assert(b.zones[z].groups[g].typ == Type::Shadow);
                        } else {
                            let h = g - b.this_zone().groups.len();
                            assert(b.held[h].typ != Type::Shadow);
                        }
                    }
                },
                Err(_) => {},
            }
        },
        Stage::Members => {
            match scene_mode_in(reply) {
                Ok(mode) => {
                    if !mode.dont_care {
                        let group = with_device(b.this_group(), b.this_device());
                        let groups = b.this_zone().groups.update(b.item as int, group);
                        assert forall|z: int, g: int|
                            0 <= z < c.zones.len() && 0 <= g < c.zones[z].groups.len() && (
                            #[trigger] c.zones[z].groups[g]).typ == Type::Shadow
                                && c.before_reading(z, g) implies c.zones[z].groups[g].status
                            == Value::Unknown by {
                            if z == b.zone && g != b.item {
                                assert(groups[g] == b.this_zone().groups[g]);
                            }
                            assert(b.zones[z].groups[g].typ == Type::Shadow);
                        }
                    }
                },
                Err(_) => {},
            }
        },
        Stage::Angle => {
            match angle_in(reply) {
                Ok(angle) => {
                    let group = with_status(b.this_group(), Value::Shadow(b.open, angle));
                    let groups = b.this_zone().groups.update(b.item as int, group);
                    assert forall|z: int, g: int|
                        0 <= z < c.zones.len() && 0 <= g < c.zones[z].groups.len() && (
                        #[trigger] c.zones[z].groups[g]).typ == Type::Shadow && c.before_reading(
                            z,
                            g,
                        ) implies c.zones[z].groups[g].status == Value::Unknown by {
                        if z == b.zone && g != b.item {
                            assert(groups[g] == b.this_zone().groups[g]);
                        }
                        assert(b.zones[z].groups[g].typ == Type::Shadow);
                    }
                },
                Err(_) => {},
            }
        },
        _ => {},
    }
    assert(c.shades_wait()) by {
        assert forall|z: int, g: int|
            0 <= z < c.zones.len() && 0 <= g < c.zones[z].groups.len() && (
            #[trigger] c.zones[z].groups[g]).typ == Type::Shadow && c.before_reading(
                z,
                g,
            ) implies c.zones[z].groups[g].status == Value::Unknown by {
            if c.zones == b.zones {
                assert(b.zones[z].groups[g].typ == Type::Shadow);
                assert(b.before_reading(z, g));
            }
        }
    }
    settling_keeps_shades_waiting(c);
}

/// The state of a shade group is what its first device reported, and
/// unknown where it did not report. The group under the cursor is in an
/// unknown state when its device is asked. If the opening cannot be read,
/// the tilt is not asked for and the state stays unknown. If the opening
/// is read, the tilt of the same device is asked for next; the state is
/// the opening and the tilt that were read, and unknown if the tilt cannot
/// be read. No other group changes its state on the way.
pub proof fn shade_state_is_what_its_device_reported(
    b: BuilderView,
    open: ReplyView,
    angle: ReplyView,
    token: Seq<char>,
)
    requires
        b.stage is Opening,
        b.waiting(),
        b.shades_wait(),
    ensures
        b.this_group().status == Value::Unknown,
        b.request(token) == Some(
            output_query_of(b.this_group().devices[0].id, OPENING_OFFSET, token),
        ),
        opening_in(open) is Err ==> same_states(b.fed(open).settled().zones, b.zones) && !(b.fed(
            open,
        ).settled().stage is Angle),
        opening_in(open) is Ok ==> {
            let c = b.fed(open).settled();
            let d = c.fed(angle).settled();
            &&& c == (BuilderView { stage: Stage::Angle, open: opening_in(open)->Ok_0, ..b })
            &&& c.request(token) == Some(
                output_query_of(b.this_group().devices[0].id, ANGLE_OFFSET, token),
            )
            &&& d.zones.len() == b.zones.len()
            &&& forall|z: int|
                0 <= z < b.zones.len() ==> (#[trigger] d.zones[z]).groups.len()
                    == b.zones[z].groups.len()
            &&& d.zones[b.zone as int].groups[b.item as int].status == (match angle_in(angle) {
                Ok(a) => Value::Shadow(opening_in(open)->Ok_0, a),
                Err(_) => Value::Unknown,
            })
            &&& forall|z: int, g: int|
                0 <= z < b.zones.len() && 0 <= g < b.zones[z].groups.len() && !(z == b.zone && g
                    == b.item) ==> (#[trigger] d.zones[z].groups[g]).status
                    == b.zones[z].groups[g].status
        },
{
    assert(b.zones[b.zone as int].groups[b.item as int].typ == Type::Shadow);
    assert(b.before_reading(b.zone as int, b.item as int));
    match opening_in(open) {
        Err(_) => {
            let n = b.fed(open);
            settling_keeps_states(n);
            settling_never_waits_for_a_tilt(n);
        },
        Ok(o) => {
            let c = b.fed(open);
            assert(c.waiting());
            assert(c.settled() == c);
            let e = c.fed(angle);
            settling_keeps_states(e);
            let d = e.settled();
            let group = match angle_in(angle) {
                Ok(a) => with_status(b.this_group(), Value::Shadow(o, a)),
                Err(_) => b.this_group(),
            };
            assert(e.zones.len() == b.zones.len());
            assert(e.zones[b.zone as int].groups[b.item as int].status == group.status);
            assert forall|z: int| 0 <= z < b.zones.len() implies (#[trigger] d.zones[z]).groups.len()
                == b.zones[z].groups.len() by {
                assert(e.zones[z].groups.len() == b.zones[z].groups.len());
            }
            assert forall|z: int, g: int|
                0 <= z < b.zones.len() && 0 <= g < b.zones[z].groups.len() && !(z == b.zone && g
                    == b.item) implies (#[trigger] d.zones[z].groups[g]).status
                == b.zones[z].groups[g].status by {
                assert(e.zones[z].groups.len() == b.zones[z].groups.len());
                assert(e.zones[z].groups[g].status == b.zones[z].groups[g].status) by {
                    if angle_in(angle) is Ok && z == b.zone {
                        let groups = b.this_zone().groups.update(b.item as int, group);
                        assert(groups[g] == b.this_zone().groups[g]);
                    }
                }
            }
            assert(e.zones[b.zone as int].groups.len() == b.zones[b.zone as int].groups.len());
        },
    }
}

/// Work that needs no reply never comes to wait for a tilt: a tilt is
/// asked for only right after the opening of the same device was read.
pub proof fn settling_never_waits_for_a_tilt(b: BuilderView)
    requires
        !(b.stage is Angle),
        !(b.stage is LastScene),
    ensures
        !(b.settled().stage is Angle),
    decreases b.rank(), b.zones_left(), b.items_left(), b.devices_left(),
{
    if !b.resting() {
        settling_never_waits_for_a_tilt(b.moved());
    }
}

/// A zone with light groups only, whose reachable scenes are scene 0 alone
/// and whose last scene was 5, is built with one light group: the
/// catch-all group 0, fully on, with the fitting devices in it. The four
/// replies are all that the build asks for.
pub proof fn light_zone_is_built_with_one_group(
    devices: ReplyView,
    zones: ReplyView,
    scenes: ReplyView,
    last: ReplyView,
    zone: ZoneView,
)
    requires
        devices_in(devices) is Ok,
        zones_in(zones) == Ok::<Seq<ZoneView>, Error>(seq![zone]),
        zone.id != NO_ZONE,
        zone.id != BROADCAST_ZONE,
        zone.types == seq![Type::Light],
        scenes_in(scenes) == Ok::<Seq<usize>, Error>(seq![0usize]),
        last_scene_in(last) == Ok::<usize, Error>(5usize),
    ensures
        ({
            let end = BuilderView::start().fed(devices).settled().fed(zones).settled().fed(
                scenes,
            ).settled().fed(last).settled();
            &&& end.stage is Done
            &&& end.outcome() == Ok::<Seq<ZoneView>, Error>(end.zones)
            &&& end.zones.len() == 1
            &&& end.zones[0].id == zone.id
            &&& end.zones[0].name == zone.name
            &&& end.zones[0].groups.len() == 1
            &&& end.zones[0].groups[0] == (GroupView {
                id: 0,
                zone_id: zone.id,
                typ: Type::Light,
                status: Value::Light(crate::value::FULL),
                devices: fitting(
                    fresh_group(0, zone.id, Type::Light),
                    devices_in(devices)->Ok_0,
                ),
            })
        }),
{
    let ds = devices_in(devices)->Ok_0;
    let fresh = fresh_group(0, zone.id, Type::Light);
    let lit = with_status(fresh, Value::Light(crate::value::FULL));
    // the two lists
    let b1 = BuilderView::start().fed(devices);
    assert(b1.waiting());
    assert(b1.settled() == b1);
    let b2 = b1.fed(zones);
    assert(real_zones(seq![zone]) =~= seq![zone]) by {
        reveal_with_fuel(real_zones, 2);
        assert(seq![zone].drop_last() =~= Seq::<ZoneView>::empty());
    }
    assert(zone.groups.len() == 0) by {
        let p = crate::request::payload_of(zones)->Ok_0;
        let items = crate::decode::list_field(p, crate::error::Field::Zones)->Ok_0;
        listed_zones_are_sound(items);
        assert(seq![zone][0] == zone);
    }
    assert(b2.zones == seq![zone]);
    assert(b2.this_zone() == zone);
    assert(b2.this_type() == Type::Light);
    assert(b2.waiting());
    assert(b2.settled() == b2);
    // the groups of the zone
    let b3 = b2.fed(scenes);
    assert(group_ids(seq![0usize]) =~= seq![0usize]) by {
        reveal_with_fuel(crate::group::group_scenes, 2);
        reveal_with_fuel(crate::group::sub_groups, 2);
        assert(seq![0usize].drop_last() =~= Seq::<usize>::empty());
        assert(crate::group::group_scenes(seq![0usize]) =~= seq![0usize]);
    }
    assert(fresh_groups(seq![0usize], zone.id, Type::Light) =~= seq![fresh]);
    assert(b3.held == seq![fresh]);
    assert(b3.stage is LastScene);
    assert(b3.waiting());
    assert(b3.settled() == b3);
    let b4 = b3.fed(last);
    assert(action_from_scene(Type::Light, 5) == Action::AllLightOn);
    assert(all_with_status(seq![fresh], Value::Light(crate::value::FULL)) =~= seq![lit]);
    assert(zone.groups + seq![lit] =~= seq![lit]);
    let built = with_groups(zone, seq![lit]);
    assert(b4.zones =~= seq![built]);
    assert(b4.stage is Scenes && b4.zone == 0 && b4.item == 1 && b4.held.len() == 0);
    // nothing else is asked
    let s1 = b4.moved();
    assert(!b4.resting());
    assert(b4.settled() == s1.settled());
    assert(s1.stage is Scenes && s1.zone == 1);
    let s2 = s1.moved();
    assert(!s1.resting());
    assert(s1.settled() == s2.settled());
    assert(s2.stage is Members && s2.zone == 0 && s2.item == 0 && s2.device == 0);
    assert(s2.zones == seq![built]);
    assert(s2.this_group() == lit);
    catch_all_group_takes_what_fits(s2);
    assert(ds.skip(0) =~= ds);
    fitting_ignores_members(lit, fresh, ds);
    let full = with_devices(lit, fitting(fresh, ds));
    assert(lit.devices + fitting(lit, ds) =~= fitting(fresh, ds));
    let done_zone = with_groups(zone, seq![full]);
    assert(seq![lit].update(0, full) =~= seq![full]);
    assert(seq![built].update(0, done_zone) =~= seq![done_zone]);
    let t = BuilderView { zones: seq![done_zone], item: 1, device: 0, ..s2 };
    assert(s2.replaced_group(with_devices(lit, lit.devices + fitting(lit, ds))) == seq![done_zone]);
    assert(s2.settled() == t.settled());
    let t1 = t.moved();
    assert(!t.resting());
    assert(t.settled() == t1.settled());
    assert(t1.stage is Members && t1.zone == 1);
    let t2 = t1.moved();
    assert(!t1.resting());
    assert(t1.settled() == t2.settled());
    assert(t2.stage is Opening && t2.zone == 0 && t2.item == 0);
    assert(t2.this_group() == full);
    let t3 = t2.moved();
    assert(!t2.resting());
    assert(t2.settled() == t3.settled());
    assert(t3.stage is Opening && t3.zone == 0 && t3.item == 1);
    let t4 = t3.moved();
    assert(!t3.resting());
    assert(t3.settled() == t4.settled());
    assert(t4.stage is Opening && t4.zone == 1);
    let t5 = t4.moved();
    assert(!t4.resting());
    assert(t4.settled() == t5.settled());
    assert(t5.stage is Done);
    assert(t5.settled() == t5);
    assert(t5.zones == seq![done_zone]);
}

} // verus!
