//! The model of the building and what is done with it.
//!
//! `Appartement` owns the zones. Whoever shares it between threads puts it
//! behind one lock and holds that lock for each call; the engine itself
//! never waits and never sends.

use vstd::prelude::*;

use crate::action::action_from_scene;
use crate::api::{RawApi, RawApiView};
use crate::builder::{Builder, BuilderView, zones_sound};
use crate::cache::{
    addressed, restate, restate_zones, restated, set_status, with_groups, with_status,
    zones_restated,
};
use crate::calls::{action_call_of, confirmed, poll_of};
use crate::command::{
    choose_course, Course, course_of, drive_group, drive_zone, group_drive, zone_drive,
};
use crate::dispatch::{
    expand, expanded, Resolution, resolution_of, ResolutionView, resolve, resolve_value,
    resolved_value,
};
use crate::error::{Error, Missing};
use crate::event::{
    batch_of, carries_its_action, Event, EventView, polled_events_carry_their_action,
};
use crate::kind::Type;
use crate::lookup::{
    find_group, find_zone, group_index, group_index_by_ids, group_index_is_first, zone_index,
    zone_index_by_ids, zone_index_is_first,
};
use crate::model::{copy_zones, Zone, ZoneView};
use crate::request::{Reply, ReplyView, Request, RequestView};
use crate::value::Value;
use crate::views::{views, views_add, views_push};

verus! {

/// The model of one installation.
#[derive(Debug)]
pub struct Appartement {
    api: RawApi,
    zones: Vec<Zone>,
    file: Option<String>,
    channel: u64,
    listening: bool,
}

/// The contents of an `Appartement`.
pub struct AppartementView {
    /// The session with the server.
    pub api: RawApiView,
    /// The zones, in the order in which the server listed them.
    pub zones: Seq<ZoneView>,
    /// Where the model is kept between runs, if anywhere.
    pub file: Option<Seq<char>>,
    /// The number of the event channel that was handed out last.
    pub channel: u64,
    /// Whether that channel is still open.
    pub listening: bool,
}

impl View for Appartement {
    type V = AppartementView;

    closed spec fn view(&self) -> AppartementView {
        AppartementView {
            api: self.api@,
            zones: views(self.zones@),
            file: match self.file {
                Some(f) => Some(f@),
                None => None,
            },
            channel: self.channel,
            listening: self.listening,
        }
    }
}

/// A handle on an event channel. Each channel that is opened gets the next
/// number.
#[derive(Clone, Copy, Debug, PartialEq, Eq, Structural)]
pub struct Channel {
    pub number: u64,
}

/// Whether a channel is the open one.
pub open spec fn open_for(a: AppartementView, channel: Channel) -> bool {
    a.listening && a.channel == channel.number
}

/// The channel that a subscription opens, if it opens one.
pub open spec fn channel_after(a: AppartementView, reply: ReplyView) -> Result<Channel, Error> {
    match confirmed(reply) {
        Err(e) => Err(e),
        Ok(_) => if a.channel < u64::MAX {
            Ok(Channel { number: (a.channel + 1) as u64 })
        } else {
            Err(Error::Concurrency)
        },
    }
}

/// The model after a subscription was tried.
pub open spec fn after_subscription(a: AppartementView, reply: ReplyView) -> AppartementView {
    match channel_after(a, reply) {
        Ok(channel) => AppartementView { channel: channel.number, listening: true, ..a },
        Err(_) => AppartementView { listening: false, ..a },
    }
}

/// The events of a batch, each expanded, one after the other. An event that
/// cannot be expanded is left out.
pub open spec fn all_expanded(zones: Seq<ZoneView>, batch: Seq<EventView>) -> Seq<EventView>
    decreases batch.len(),
{
    if batch.len() == 0 {
        Seq::empty()
    } else {
        all_expanded(zones, batch.drop_last()) + (match expanded(zones, batch.last()) {
            Ok(events) => events,
            Err(_) => Seq::empty(),
        })
    }
}

/// The events that a poll on a channel brings.
pub open spec fn received(a: AppartementView, channel: Channel, reply: ReplyView) -> Seq<EventView> {
    if open_for(a, channel) {
        all_expanded(a.zones, batch_of(reply))
    } else {
        Seq::empty()
    }
}

/// The state with which an event is delivered, if it is delivered.
pub open spec fn delivery_value(
    a: AppartementView,
    channel: Channel,
    event: EventView,
    replies: Option<(ReplyView, ReplyView)>,
) -> Option<Value> {
    if !open_for(a, channel) {
        None
    } else {
        match resolved_value(a.zones, event.value, event.typ, event.zone, event.group, replies) {
            Ok(v) => Some(v),
            Err(_) => None,
        }
    }
}

/// The event as it is delivered, if it is delivered.
pub open spec fn delivered(
    a: AppartementView,
    channel: Channel,
    event: EventView,
    replies: Option<(ReplyView, ReplyView)>,
) -> Option<EventView> {
    match delivery_value(a, channel, event, replies) {
        Some(value) => Some(EventView { value, ..event }),
        None => None,
    }
}

/// The model after an event was handled: where it is delivered, every group
/// that it addresses holds the state that it is delivered with.
pub open spec fn after_delivery(
    a: AppartementView,
    channel: Channel,
    event: EventView,
    replies: Option<(ReplyView, ReplyView)>,
) -> AppartementView {
    match delivery_value(a, channel, event, replies) {
        Some(value) => AppartementView {
            zones: zones_restated(a.zones, event.zone, event.typ, Some(event.group), value),
            ..a
        },
        None => a,
    }
}

/// The state of the first group with the id in the first zone with the id.
pub open spec fn value_at(zones: Seq<ZoneView>, zone: usize, group: usize) -> Result<Value, Error> {
    match zone_index(zones, zone) {
        None => Err(Error::Lookup(Missing::Zone(zone))),
        Some(z) => match group_index(zones[z].groups, group, None) {
            None => Err(Error::Lookup(Missing::Group(group))),
            Some(g) => Ok(zones[z].groups[g].status),
        },
    }
}

/// The requests that bring a value about, in the order in which they are
/// sent. A scene call needs no look into the model; direct writes go to the
/// shade motors of the group, or of all groups of the zone.
pub open spec fn requests_of(
    zones: Seq<ZoneView>,
    token: Seq<char>,
    zone: usize,
    group: Option<usize>,
    value: Value,
) -> Result<Seq<RequestView>, Error> {
    match course_of(group, value) {
        Course::Nothing => Ok(Seq::empty()),
        Course::Call(action) => match action_call_of(zone, action, token) {
            Ok(request) => Ok(seq![request]),
            Err(e) => Err(e),
        },
        Course::Drive(open, angle) => match zone_index(zones, zone) {
            None => Err(Error::Lookup(Missing::Zone(zone))),
            Some(z) => match group {
                None => Ok(zone_drive(zones[z].groups, open, angle, token)),
                Some(g) => match group_index(zones[z].groups, g, None) {
                    None => Err(Error::Lookup(Missing::Group(g))),
                    Some(k) => Ok(group_drive(zones[z].groups[k].devices, open, angle, token)),
                },
            },
        },
    }
}

/// The zones after a value was written to the motors directly: the group
/// that was driven holds the value, or every shade group of the zone does.
pub open spec fn driven(
    zones: Seq<ZoneView>,
    zone: usize,
    group: Option<usize>,
    value: Value,
) -> Seq<ZoneView> {
    match zone_index(zones, zone) {
        None => zones,
        Some(z) => match group {
            None => zones.update(
                z,
                with_groups(zones[z], restated(zones[z].groups, Type::Shadow, None, value)),
            ),
            Some(g) => match group_index(zones[z].groups, g, None) {
                None => zones,
                Some(k) => zones.update(
                    z,
                    with_groups(
                        zones[z],
                        zones[z].groups.update(k, with_status(zones[z].groups[k], value)),
                    ),
                ),
            },
        },
    }
}

/// The zones after a value was brought about. After a scene call they are
/// as before: the event that follows the call will correct them.
pub open spec fn after_set(
    zones: Seq<ZoneView>,
    zone: usize,
    group: Option<usize>,
    value: Value,
) -> Seq<ZoneView> {
    match course_of(group, value) {
        Course::Drive(_, _) => driven(zones, zone, group, value),
        _ => zones,
    }
}

impl Appartement {
    /// A model of the installation behind `api`, with the zones given and
    /// no event channel.
    pub fn new(api: RawApi, zones: Vec<Zone>, file: Option<String>) -> (r: Appartement)
        ensures
            r@ == (AppartementView {
                api: api@,
                zones: views(zones@),
                file: match file {
                    Some(f) => Some(f@),
                    None => None,
                },
                channel: 0,
                listening: false,
            }),
    {
        Appartement { api, zones, file, channel: 0, listening: false }
    }

    /// A model of the installation behind `api`, from a build that has
    /// ended. The model is not kept between runs.
    pub fn connect(api: RawApi, build: Builder) -> (r: Result<Appartement, Error>)
        ensures
            match r {
                Ok(a) => build@.outcome() is Ok && zones_sound(a@.zones) && a@ == (AppartementView {
                    api: api@,
                    zones: build@.outcome()->Ok_0,
                    file: None,
                    channel: 0,
                    listening: false,
                }),
                Err(e) => build@.outcome() == Err::<Seq<ZoneView>, Error>(e),
            },
    {
        let zones = build.finish()?;
        Ok(Appartement::new(api, zones, None))
    }

    /// A model of the installation behind `api` that is kept in `file`
    /// between runs, with the zones that were found there. Where none were
    /// found, the model is empty and has to be built: see `needs_update`.
    pub fn connect_file(api: RawApi, file: &str, loaded: Option<Vec<Zone>>) -> (r: Appartement)
        ensures
            r@ == (AppartementView {
                api: api@,
                zones: match loaded {
                    Some(zones) => views(zones@),
                    None => Seq::empty(),
                },
                file: Some(file@),
                channel: 0,
                listening: false,
            }),
    {
        let zones = match loaded {
            Some(zones) => zones,
            None => {
                let none: Vec<Zone> = Vec::new();
                assert(views(none@) =~= Seq::<ZoneView>::empty());
                none
            },
        };
        Appartement::new(api, zones, Some(file.to_string()))
    }

    /// Whether the model holds no zone, so that it has to be built before
    /// it is of use.
    pub fn needs_update(&self) -> (r: bool)
        ensures
            r == (self@.zones.len() == 0),
    {
        self.zones.is_empty()
    }

    /// The plan of a build of the whole model.
    pub fn update_structure(&self) -> (r: Builder)
        ensures
            r@ == BuilderView::start(),
    {
        Builder::new()
    }

    /// Replaces the zones by those of a build that has ended, and returns
    /// a copy of them. A build that was given up leaves the model as it is.
    pub fn update_all(&mut self, build: Builder) -> (r: Result<Vec<Zone>, Error>)
        ensures
            match r {
                Ok(zones) => build@.outcome() == Ok::<Seq<ZoneView>, Error>(views(zones@))
                    && zones_sound(views(zones@)) && final(self)@ == (AppartementView {
                    zones: views(zones@),
                    ..old(self)@
                }),
                Err(e) => build@.outcome() == Err::<Seq<ZoneView>, Error>(e) && final(self)@
                    == old(self)@,
            },
    {
        let zones = build.finish()?;
        let copy = copy_zones(&zones);
        self.zones = zones;
        Ok(copy)
    }

    /// Where the model is to be written, and what: the file, if there is
    /// one, and a copy of the zones.
    pub fn save_status(&self) -> (r: Option<(String, Vec<Zone>)>)
        ensures
            match r {
                Some((file, zones)) => self@.file == Some(file@) && views(zones@) == self@.zones,
                None => self@.file is None,
            },
    {
        match &self.file {
            Some(file) => Some((file.clone(), copy_zones(&self.zones))),
            None => None,
        }
    }

    /// The session with the server.
    pub fn api(&self) -> (r: &RawApi)
        ensures
            r@ == self@.api,
    {
        &self.api
    }

    /// A copy of all zones with their groups, as they are now.
    pub fn get_zones(&self) -> (r: Vec<Zone>)
        ensures
            views(r@) == self@.zones,
    {
        copy_zones(&self.zones)
    }

    /// The state of a group.
    pub fn get_value(&self, zone: usize, group: usize) -> (r: Result<Value, Error>)
        ensures
            r == value_at(self@.zones, zone, group),
    {
        match find_zone(&self.zones, zone) {
            None => Err(Error::Lookup(Missing::Zone(zone))),
            Some(z) => match find_group(&self.zones[z].groups, group, None) {
                None => Err(Error::Lookup(Missing::Group(group))),
                Some(g) => Ok(self.zones[z].groups[g].status),
            },
        }
    }

    /// The requests that bring a value about on a group, or on the whole
    /// zone where no group is given. They are to be sent in order; once all
    /// of them are confirmed, `confirm_value` records the outcome.
    pub fn set_value(&self, zone: usize, group: Option<usize>, value: Value) -> (r: Result<
        Vec<Request>,
        Error,
    >)
        ensures
            match r {
                Ok(requests) => requests_of(self@.zones, self@.api.token, zone, group, value)
                    == Ok::<Seq<RequestView>, Error>(views(requests@)),
                Err(e) => requests_of(self@.zones, self@.api.token, zone, group, value) == Err::<
                    Seq<RequestView>,
                    Error,
                >(e),
            },
    {
        let mut out: Vec<Request> = Vec::new();
        assert(views(out@) =~= Seq::<RequestView>::empty());
        match choose_course(group, value) {
            Course::Nothing => Ok(out),
            Course::Call(action) => {
                let request = self.api.call_action(zone, action)?;
                proof {
                    views_push(out@, request);
                    assert(views(out@).push(request@) =~= seq![request@]);
                }
                out.push(request);
                Ok(out)
            },
            Course::Drive(open, angle) => {
                let z = match find_zone(&self.zones, zone) {
                    Some(z) => z,
                    None => {
                        return Err(Error::Lookup(Missing::Zone(zone)));
                    },
                };
                match group {
                    None => {
                        drive_zone(&self.api, &self.zones[z].groups, open, angle, &mut out);
                        assert(views(out@) =~= zone_drive(
                            views(self.zones@)[z as int].groups,
                            open,
                            angle,
                            self@.api.token,
                        ));
                        Ok(out)
                    },
                    Some(g) => {
                        let k = match find_group(&self.zones[z].groups, g, None) {
                            Some(k) => k,
                            None => {
                                return Err(Error::Lookup(Missing::Group(g)));
                            },
                        };
                        drive_group(
                            &self.api,
                            &self.zones[z].groups[k].devices,
                            open,
                            angle,
                            &mut out,
                        );
                        assert(views(out@) =~= group_drive(
                            views(self.zones@)[z as int].groups[k as int].devices,
                            open,
                            angle,
                            self@.api.token,
                        ));
                        Ok(out)
                    },
                }
            },
        }
    }

    /// Records that a value was brought about: after direct writes the
    /// groups that were driven hold the value.
    pub fn confirm_value(&mut self, zone: usize, group: Option<usize>, value: Value)
        ensures
            final(self)@ == (AppartementView {
                zones: after_set(old(self)@.zones, zone, group, value),
                ..old(self)@
            }),
    {
        match choose_course(group, value) {
            Course::Drive(_, _) => {
                let ghost before = views(self.zones@);
                match find_zone(&self.zones, zone) {
                    None => {},
                    Some(z) => match group {
                        None => {
                            restate(&mut self.zones[z].groups, Type::Shadow, None, value);
                            assert(views(self.zones@) =~= driven(before, zone, group, value));
                        },
                        Some(g) => match find_group(&self.zones[z].groups, g, None) {
                            None => {},
                            Some(k) => {
                                set_status(&mut self.zones[z].groups, k, value);
                                assert(views(self.zones@) =~= driven(before, zone, group, value));
                            },
                        },
                    },
                }
            },
            _ => {},
        }
    }

    /// The events that one reported scene call stands for.
    pub fn expand_value(&self, event: Event) -> (r: Result<Vec<Event>, Error>)
        ensures
            match r {
                Ok(events) => expanded(self@.zones, event@) == Ok::<Seq<EventView>, Error>(
                    views(events@),
                ),
                Err(e) => expanded(self@.zones, event@) == Err::<Seq<EventView>, Error>(e),
            },
    {
        expand(&self.zones, event)
    }

    /// How the state of a group is found out, given what is known of it.
    pub fn update_value(&self, value: Value, typ: &Type, zone: usize, group: usize) -> (r: Result<
        Resolution,
        Error,
    >)
        ensures
            match r {
                Ok(res) => resolution_of(self@.zones, self@.api.token, value, *typ, zone, group)
                    == Ok::<ResolutionView, Error>(res@),
                Err(e) => resolution_of(self@.zones, self@.api.token, value, *typ, zone, group)
                    == Err::<ResolutionView, Error>(e),
            },
    {
        resolve(&self.api, &self.zones, value, typ, zone, group)
    }

    /// How the state that an event leaves behind is found out.
    pub fn update_event_value(&self, event: &Event) -> (r: Result<Resolution, Error>)
        ensures
            match r {
                Ok(res) => resolution_of(
                    self@.zones,
                    self@.api.token,
                    event@.value,
                    event@.typ,
                    event@.zone,
                    event@.group,
                ) == Ok::<ResolutionView, Error>(res@),
                Err(e) => resolution_of(
                    self@.zones,
                    self@.api.token,
                    event@.value,
                    event@.typ,
                    event@.zone,
                    event@.group,
                ) == Err::<ResolutionView, Error>(e),
            },
    {
        resolve(&self.api, &self.zones, event.value, &event.typ, event.zone, event.group)
    }

    /// Whether a channel is the one that is open now.
    pub fn is_open(&self, channel: &Channel) -> (r: bool)
        ensures
            r == open_for(self@, *channel),
    {
        self.listening && self.channel == channel.number
    }

    /// Opens a new event channel from the reply to the subscription. The
    /// channel that was open before is closed first, whatever the reply
    /// says; a new one is open only where the server took the subscription.
    pub fn event_channel(&mut self, reply: Reply) -> (r: Result<Channel, Error>)
        ensures
            final(self)@ == after_subscription(old(self)@, reply@),
            r == channel_after(old(self)@, reply@),
    {
        self.listening = false;
        match self.api.confirm(reply) {
            Err(e) => Err(e),
            Ok(_) => match self.channel.checked_add(1) {
                None => Err(Error::Concurrency),
                Some(number) => {
                    self.channel = number;
                    self.listening = true;
                    Ok(Channel { number })
                },
            },
        }
    }

    /// Closes the event channel. Whoever gives the model up calls this, so
    /// that the polling ends at its next turn.
    pub fn close(&mut self)
        ensures
            final(self)@ == (AppartementView { listening: false, ..old(self)@ }),
    {
        self.listening = false;
    }

    /// The next request of the polling stage: the poll, as long as the
    /// channel is open, and nothing once it is closed.
    pub fn poll(&self, channel: &Channel) -> (r: Option<Request>)
        ensures
            match r {
                Some(request) => open_for(self@, *channel) && request@ == poll_of(
                    self@.api.token,
                ),
                None => !open_for(self@, *channel),
            },
    {
        if self.is_open(channel) {
            Some(self.api.poll_request())
        } else {
            None
        }
    }

    /// The events that a poll brought, expanded, in the order in which they
    /// are to be resolved and delivered. A closed channel brings nothing.
    pub fn receive(&self, channel: &Channel, reply: Reply) -> (r: Vec<Event>)
        ensures
            views(r@) == received(self@, *channel, reply@),
    {
        let mut out: Vec<Event> = Vec::new();
        assert(views(out@) =~= Seq::<EventView>::empty());
        if !self.is_open(channel) {
            return out;
        }
        let batch = self.api.poll_events(reply);
        let ghost all = views(batch@);
        let mut i: usize = 0;
        assert(all.take(0) =~= Seq::<EventView>::empty());
        while i < batch.len()
            invariant
                i <= batch.len(),
                all == views(batch@),
                views(out@) == all_expanded(views(self.zones@), all.take(i as int)),
            decreases batch.len() - i,
        {
            proof {
                assert(all.take(i + 1).drop_last() =~= all.take(i as int));
                assert(all.take(i + 1).last() == batch@[i as int]@);
            }
            match expand(&self.zones, batch[i].clone()) {
                Ok(more) => {
                    let mut more = more;
                    proof {
                        views_add(out@, more@);
                    }
                    out.append(&mut more);
                },
                Err(_) => {
                    assert(views(out@) + Seq::<EventView>::empty() =~= views(out@));
                },
            }
            i = i + 1;
        }
        assert(all.take(batch@.len() as int) =~= all);
        out
    }

    /// Finishes an event: its state is resolved, the groups that it
    /// addresses take that state, and the event is handed back for
    /// delivery. On a closed channel, and where the state cannot be
    /// resolved, nothing is delivered and nothing changes.
    pub fn deliver(&mut self, channel: &Channel, event: Event, replies: Option<(Reply, Reply)>) -> (r:
        Option<Event>)
        ensures
            match r {
                Some(e) => delivered(
                    old(self)@,
                    *channel,
                    event@,
                    match replies {
                        Some((open, angle)) => Some((open@, angle@)),
                        None => None,
                    },
                ) == Some(e@),
                None => delivered(
                    old(self)@,
                    *channel,
                    event@,
                    match replies {
                        Some((open, angle)) => Some((open@, angle@)),
                        None => None,
                    },
                ) is None,
            },
            final(self)@ == after_delivery(
                old(self)@,
                *channel,
                event@,
                match replies {
                    Some((open, angle)) => Some((open@, angle@)),
                    None => None,
                },
            ),
    {
        if !self.is_open(channel) {
            return None;
        }
        let value = resolve_value(
            &self.api,
            &self.zones,
            event.value,
            event.typ,
            event.zone,
            event.group,
            replies,
        );
        match value {
            Err(_) => None,
            Ok(v) => {
                restate_zones(&mut self.zones, event.zone, event.typ, Some(event.group), v);
                Some(event.with_value(v))
            },
        }
    }
}

/// Whether a channel was replaced: a channel with a later number was opened
/// after it.
pub open spec fn replaced(a: AppartementView, channel: Channel) -> bool {
    channel.number < a.channel
}

/// Opening a new channel replaces every channel that was handed out before.
pub proof fn new_channel_replaces(a: AppartementView, reply: ReplyView, earlier: Channel)
    requires
        earlier.number <= a.channel,
    ensures
        !open_for(after_subscription(a, reply), earlier),
        channel_after(a, reply) is Ok ==> replaced(after_subscription(a, reply), earlier),
        channel_after(a, reply) is Ok ==> open_for(
            after_subscription(a, reply),
            channel_after(a, reply)->Ok_0,
        ),
{
}

/// A channel that was replaced stays replaced, whatever is done with the
/// model afterwards: no step lowers the number of the open channel.
pub proof fn replaced_for_good(
    a: AppartementView,
    earlier: Channel,
    reply: ReplyView,
    channel: Channel,
    event: EventView,
    replies: Option<(ReplyView, ReplyView)>,
)
    requires
        replaced(a, earlier),
    ensures
        replaced(after_subscription(a, reply), earlier),
        replaced(after_delivery(a, channel, event, replies), earlier),
        replaced(AppartementView { listening: false, ..a }, earlier),
{
}

/// Nothing comes out of a channel that was replaced: it is not polled, a
/// reply that still arrives for it brings no events, and an event that is
/// still under way is neither delivered nor written to the model.
pub proof fn replaced_channel_is_silent(
    a: AppartementView,
    earlier: Channel,
    reply: ReplyView,
    event: EventView,
    replies: Option<(ReplyView, ReplyView)>,
)
    requires
        replaced(a, earlier),
    ensures
        !open_for(a, earlier),
        received(a, earlier, reply) == Seq::<EventView>::empty(),
        delivered(a, earlier, event, replies) is None,
        after_delivery(a, earlier, event, replies) == a,
{
}

/// What is written to a group directly is what is read from it afterwards,
/// and no other group of the zone and no other zone changes.
pub proof fn driven_group_holds_the_value(
    zones: Seq<ZoneView>,
    zone: usize,
    group: usize,
    value: Value,
    z: int,
    k: int,
)
    requires
        course_of(Some(group), value) is Drive,
        zone_index(zones, zone) == Some(z),
        group_index(zones[z].groups, group, None) == Some(k),
    ensures
        value_at(after_set(zones, zone, Some(group), value), zone, group) == Ok::<Value, Error>(
            value,
        ),
        after_set(zones, zone, Some(group), value).len() == zones.len(),
        forall|i: int|
            0 <= i < zones.len() && i != z ==> after_set(zones, zone, Some(group), value)[i]
                == zones[i],
        after_set(zones, zone, Some(group), value)[z].groups.len() == zones[z].groups.len(),
        forall|j: int|
            0 <= j < zones[z].groups.len() && j != k ==> after_set(
                zones,
                zone,
                Some(group),
                value,
            )[z].groups[j] == zones[z].groups[j],
        after_set(zones, zone, Some(group), value)[z].groups[k] == with_status(
            zones[z].groups[k],
            value,
        ),
{
    zone_index_is_first(zones, zone);
    group_index_is_first(zones[z].groups, group, None);
    let after = after_set(zones, zone, Some(group), value);
    let groups = zones[z].groups.update(k, with_status(zones[z].groups[k], value));
    assert(after == zones.update(z, with_groups(zones[z], groups)));
    zone_index_by_ids(after, zones, zone);
    group_index_by_ids(after[z].groups, zones[z].groups, group, None);
}

/// After a direct write to a whole zone every shade group of the zone
/// holds the value; every other group, and every other zone, is as it was.
pub proof fn driven_zone_holds_the_value(zones: Seq<ZoneView>, zone: usize, value: Value, z: int)
    requires
        course_of(None, value) is Drive,
        zone_index(zones, zone) == Some(z),
    ensures
        after_set(zones, zone, None, value).len() == zones.len(),
        forall|i: int|
            0 <= i < zones.len() && i != z ==> after_set(zones, zone, None, value)[i] == zones[i],
        after_set(zones, zone, None, value)[z].groups.len() == zones[z].groups.len(),
        forall|j: int|
            0 <= j < zones[z].groups.len() ==> (#[trigger] after_set(
                zones,
                zone,
                None,
                value,
            )[z].groups[j]) == (if zones[z].groups[j].typ == Type::Shadow {
                with_status(zones[z].groups[j], value)
            } else {
                zones[z].groups[j]
            }),
{
    zone_index_is_first(zones, zone);
}

/// A value that is brought about by a scene call leaves the model alone.
pub proof fn scene_calls_leave_the_model(
    zones: Seq<ZoneView>,
    zone: usize,
    group: Option<usize>,
    value: Value,
)
    requires
        !(course_of(group, value) is Drive),
    ensures
        after_set(zones, zone, group, value) == zones,
{
}

/// After an event was delivered, every group that it addresses holds the
/// state that it was delivered with: the groups of its type and sub-group
/// in the zones with its zone id. Nothing else changes.
pub proof fn delivered_event_is_in_the_model(
    a: AppartementView,
    channel: Channel,
    event: EventView,
    replies: Option<(ReplyView, ReplyView)>,
    value: Value,
)
    requires
        delivery_value(a, channel, event, replies) == Some(value),
    ensures
        delivered(a, channel, event, replies) == Some(EventView { value, ..event }),
        after_delivery(a, channel, event, replies).zones.len() == a.zones.len(),
        forall|i: int|
            0 <= i < a.zones.len() ==> (#[trigger] after_delivery(
                a,
                channel,
                event,
                replies,
            ).zones[i]).groups.len() == a.zones[i].groups.len(),
        forall|i: int, j: int|
            0 <= i < a.zones.len() && 0 <= j < a.zones[i].groups.len() ==> (
            #[trigger] after_delivery(a, channel, event, replies).zones[i].groups[j]) == (if a.zones[i].id
                == event.zone && addressed(a.zones[i].groups[j], event.typ, Some(event.group)) {
                with_status(a.zones[i].groups[j], value)
            } else {
                a.zones[i].groups[j]
            }),
{
}

/// Expanding events keeps the action that they carry.
pub proof fn expanded_events_carry_their_action(zones: Seq<ZoneView>, batch: Seq<EventView>)
    requires
        forall|i: int| 0 <= i < batch.len() ==> carries_its_action(#[trigger] batch[i]),
    ensures
        forall|i: int|
            0 <= i < all_expanded(zones, batch).len() ==> carries_its_action(
                #[trigger] all_expanded(zones, batch)[i],
            ),
    decreases batch.len(),
{
    if batch.len() > 0 {
        let front = batch.drop_last();
        assert forall|i: int| 0 <= i < front.len() implies carries_its_action(
            #[trigger] front[i],
        ) by {
            assert(front[i] == batch[i]);
        }
        expanded_events_carry_their_action(zones, front);
        let last = batch[batch.len() - 1];
        assert(carries_its_action(last));
        let head = all_expanded(zones, front);
        let tail = match expanded(zones, last) {
            Ok(events) => events,
            Err(_) => Seq::empty(),
        };
        assert forall|i: int| 0 <= i < tail.len() implies carries_its_action(#[trigger] tail[i]) by {}
        let all = all_expanded(zones, batch);
        assert(all == head + tail);
        assert forall|i: int| 0 <= i < all.len() implies carries_its_action(#[trigger] all[i]) by {
            if i < head.len() {
                assert(all[i] == head[i]);
            } else {
                assert(all[i] == tail[i - head.len()]);
            }
        }
    }
}

/// A delivered event carries the action decoded from its type and scene:
/// every event that a poll brings does, and delivery changes nothing of
/// an event but its state.
pub proof fn delivered_events_carry_their_action(
    a: AppartementView,
    channel: Channel,
    reply: ReplyView,
    i: int,
    replies: Option<(ReplyView, ReplyView)>,
)
    requires
        0 <= i < received(a, channel, reply).len(),
    ensures
        carries_its_action(received(a, channel, reply)[i]),
        forall|b: AppartementView, later: Channel|
            (#[trigger] delivered(b, later, received(a, channel, reply)[i], replies)) is Some ==> {
                let event = received(a, channel, reply)[i];
                let out = delivered(b, later, event, replies)->0;
                &&& carries_its_action(out)
                &&& out.action == action_from_scene(out.typ, out.scene)
                &&& out == (EventView { value: out.value, ..event })
            },
{
    polled_events_carry_their_action(reply);
    expanded_events_carry_their_action(a.zones, batch_of(reply));
}

} // verus!
