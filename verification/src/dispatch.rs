//! From a reported scene call to an event that says what state the group is
//! in now.

use vstd::prelude::*;

use crate::api::RawApi;
use crate::calls::{angle_in, ANGLE_OFFSET, opening_in, OPENING_OFFSET, output_query_of};
use crate::error::{Error, Missing};
use crate::event::{Event, EventView};
use crate::kind::Type;
use crate::lookup::{find_group, find_zone, group_index, zone_index};
use crate::model::{Group, GroupView, Zone, ZoneView};
use crate::request::{Reply, ReplyView, Request, RequestView};
use crate::value::Value;
use crate::views::{views, views_push};

verus! {

/// The ids of the shade groups, in order.
pub open spec fn shadow_ids(groups: Seq<GroupView>) -> Seq<usize>
    decreases groups.len(),
{
    if groups.len() == 0 {
        Seq::empty()
    } else if groups.last().typ == Type::Shadow {
        shadow_ids(groups.drop_last()).push(groups.last().id)
    } else {
        shadow_ids(groups.drop_last())
    }
}

/// One copy of an event for each id, differing in the group alone.
pub open spec fn retargeted(event: EventView, ids: Seq<usize>) -> Seq<EventView> {
    Seq::new(ids.len(), |i: int| EventView { group: ids[i], ..event })
}

/// Whether an event addresses every shade group of its zone: the two step
/// actions do.
pub open spec fn addresses_all(event: EventView) -> bool {
    event.typ == Type::Shadow && event.action.is_step()
}

/// The events that one reported scene call stands for. A step action
/// becomes one event for each shade group of the zone; anything else stays
/// as it is.
pub open spec fn expanded(zones: Seq<ZoneView>, event: EventView) -> Result<Seq<EventView>, Error> {
    if addresses_all(event) {
        match zone_index(zones, event.zone) {
            Some(z) => Ok(retargeted(event, shadow_ids(zones[z].groups))),
            None => Err(Error::Lookup(Missing::Zone(event.zone))),
        }
    } else {
        Ok(seq![event])
    }
}

/// Collects the ids of the shade groups.
pub fn shadow_group_ids(groups: &Vec<Group>) -> (r: Vec<usize>)
    ensures
        r@ == shadow_ids(views(groups@)),
{
    let ghost all = views(groups@);
    let mut out: Vec<usize> = Vec::new();
    let mut i: usize = 0;
    assert(all.take(0) =~= Seq::<GroupView>::empty());
    while i < groups.len()
        invariant
            i <= groups.len(),
            all == views(groups@),
            out@ == shadow_ids(all.take(i as int)),
        decreases groups.len() - i,
    {
        proof {
            assert(all.take(i + 1).drop_last() =~= all.take(i as int));
            assert(all.take(i + 1).last() == groups@[i as int]@);
        }
        if groups[i].typ == Type::Shadow {
            out.push(groups[i].id);
        }
        i = i + 1;
    }
    assert(all.take(groups@.len() as int) =~= all);
    out
}

/// Expands one reported scene call.
pub fn expand(zones: &Vec<Zone>, event: Event) -> (r: Result<Vec<Event>, Error>)
    ensures
        match r {
            Ok(events) => expanded(views(zones@), event@) == Ok::<Seq<EventView>, Error>(
                views(events@),
            ),
            Err(e) => expanded(views(zones@), event@) == Err::<Seq<EventView>, Error>(e),
        },
{
    let mut out: Vec<Event> = Vec::new();
    let step = event.typ == Type::Shadow && (event.action == crate::action::Action::ShadowStepOpen
        || event.action == crate::action::Action::ShadowStepClose);
    if step {
        let z = match find_zone(zones, event.zone) {
            Some(z) => z,
            None => {
                return Err(Error::Lookup(Missing::Zone(event.zone)));
            },
        };
        let ids = shadow_group_ids(&zones[z].groups);
        let mut i: usize = 0;
        while i < ids.len()
            invariant
                i <= ids.len(),
                out@.len() == i,
                forall|k: int|
                    0 <= k < i ==> (#[trigger] out@[k])@ == (EventView { group: ids@[k], ..event@ }),
            decreases ids.len() - i,
        {
            out.push(event.for_group(ids[i]));
            i = i + 1;
        }
        assert(views(out@) =~= retargeted(event@, ids@));
        Ok(out)
    } else {
        proof {
            views_push(out@, event);
            assert(views(out@).push(event@) =~= seq![event@]);
        }
        out.push(event);
        Ok(out)
    }
}

/// How the state of a group is found out.
#[derive(Debug, PartialEq, Eq)]
pub enum Resolution {
    /// The state is known, or cannot be asked for.
    Known(Value),
    /// The state is read from a device: first its opening, then its tilt.
    Ask(Request, Request),
}

/// The contents of a `Resolution`.
pub enum ResolutionView {
    Known(Value),
    Ask(RequestView, RequestView),
}

impl View for Resolution {
    type V = ResolutionView;

    open spec fn view(&self) -> ResolutionView {
        match self {
            Resolution::Known(v) => ResolutionView::Known(*v),
            Resolution::Ask(open, angle) => ResolutionView::Ask(open@, angle@),
        }
    }
}

/// Whether the state has to be read from a device: only a shade group has a
/// state that no scene tells.
pub open spec fn needs_probe(value: Value, typ: Type) -> bool {
    value == Value::Unknown && typ == Type::Shadow
}

/// The device that stands for a shade group: the first device of the first
/// shade group with the id, in the first zone with the id.
pub open spec fn probe_device(zones: Seq<ZoneView>, zone: usize, group: usize) -> Result<
    Seq<char>,
    Error,
> {
    match zone_index(zones, zone) {
        None => Err(Error::Lookup(Missing::Zone(zone))),
        Some(z) => match group_index(zones[z].groups, group, Some(Type::Shadow)) {
            None => Err(Error::Lookup(Missing::Group(group))),
            Some(g) => if zones[z].groups[g].devices.len() == 0 {
                Err(Error::Lookup(Missing::Device(group)))
            } else {
                Ok(zones[z].groups[g].devices[0].id)
            },
        },
    }
}

/// How the state of a group is found out, given what is known of it.
pub open spec fn resolution_of(
    zones: Seq<ZoneView>,
    token: Seq<char>,
    value: Value,
    typ: Type,
    zone: usize,
    group: usize,
) -> Result<ResolutionView, Error> {
    if !needs_probe(value, typ) {
        Ok(ResolutionView::Known(value))
    } else {
        match probe_device(zones, zone, group) {
            Ok(device) => Ok(
                ResolutionView::Ask(
                    output_query_of(device, OPENING_OFFSET, token),
                    output_query_of(device, ANGLE_OFFSET, token),
                ),
            ),
            Err(e) => Err(e),
        }
    }
}

/// The state that the two replies of a device tell.
pub open spec fn shadow_value_of(open: ReplyView, angle: ReplyView) -> Result<Value, Error> {
    match opening_in(open) {
        Ok(o) => match angle_in(angle) {
            Ok(a) => Ok(Value::Shadow(o, a)),
            Err(e) => Err(e),
        },
        Err(e) => Err(e),
    }
}

/// The state of the group that an event addresses, given the replies of the
/// device where it had to be asked. Replies that are not needed are not
/// looked at; replies that are needed and not there count as a failed
/// transport.
pub open spec fn resolved_value(
    zones: Seq<ZoneView>,
    value: Value,
    typ: Type,
    zone: usize,
    group: usize,
    replies: Option<(ReplyView, ReplyView)>,
) -> Result<Value, Error> {
    if !needs_probe(value, typ) {
        Ok(value)
    } else {
        match probe_device(zones, zone, group) {
            Err(e) => Err(e),
            Ok(_) => match replies {
                Some((open, angle)) => shadow_value_of(open, angle),
                None => Err(Error::Transport),
            },
        }
    }
}

/// Finds the device that stands for a shade group.
pub fn find_probe<'a>(zones: &'a Vec<Zone>, zone: usize, group: usize) -> (r: Result<&'a str, Error>)
    ensures
        match r {
            Ok(id) => probe_device(views(zones@), zone, group) == Ok::<Seq<char>, Error>(id@),
            Err(e) => probe_device(views(zones@), zone, group) == Err::<Seq<char>, Error>(e),
        },
{
    let z = match find_zone(zones, zone) {
        Some(z) => z,
        None => {
            return Err(Error::Lookup(Missing::Zone(zone)));
        },
    };
    let g = match find_group(&zones[z].groups, group, Some(Type::Shadow)) {
        Some(g) => g,
        None => {
            return Err(Error::Lookup(Missing::Group(group)));
        },
    };
    if zones[z].groups[g].devices.len() == 0 {
        return Err(Error::Lookup(Missing::Device(group)));
    }
    Ok(zones[z].groups[g].devices[0].id.as_str())
}

/// Decides how the state of a group is found out.
pub fn resolve(
    api: &RawApi,
    zones: &Vec<Zone>,
    value: Value,
    typ: &Type,
    zone: usize,
    group: usize,
) -> (r: Result<Resolution, Error>)
    ensures
        match r {
            Ok(res) => resolution_of(views(zones@), api@.token, value, *typ, zone, group) == Ok::<
                ResolutionView,
                Error,
            >(res@),
            Err(e) => resolution_of(views(zones@), api@.token, value, *typ, zone, group) == Err::<
                ResolutionView,
                Error,
            >(e),
        },
{
    if value != Value::Unknown {
        return Ok(Resolution::Known(value));
    }
    if *typ == Type::Shadow {
        let device = find_probe(zones, zone, group)?;
        return Ok(
            Resolution::Ask(
                api.get_shadow_device_open_request(device),
                api.get_shadow_device_angle_request(device),
            ),
        );
    }
    Ok(Resolution::Known(value))
}

/// Reads the state of a shade from the two replies of one of its devices.
pub fn shadow_value(api: &RawApi, open: Reply, angle: Reply) -> (r: Result<Value, Error>)
    ensures
        r == shadow_value_of(open@, angle@),
{
    let o = api.get_shadow_device_open(open)?;
    let a = api.get_shadow_device_angle(angle)?;
    Ok(Value::Shadow(o, a))
}

/// Finds the state of a group, with the replies of the device at hand.
pub fn resolve_value(
    api: &RawApi,
    zones: &Vec<Zone>,
    value: Value,
    typ: Type,
    zone: usize,
    group: usize,
    replies: Option<(Reply, Reply)>,
) -> (r: Result<Value, Error>)
    ensures
        r == resolved_value(
            views(zones@),
            value,
            typ,
            zone,
            group,
            match replies {
                Some((open, angle)) => Some((open@, angle@)),
                None => None,
            },
        ),
{
    if value != Value::Unknown || typ != Type::Shadow {
        return Ok(value);
    }
    let _ = find_probe(zones, zone, group)?;
    match replies {
        Some((open, angle)) => shadow_value(api, open, angle),
        None => Err(Error::Transport),
    }
}

/// A step event in a zone of the model stands for exactly one event for
/// each shade group of that zone, in the order of the groups, and each of
/// them is the event itself but for the group that it addresses.
pub proof fn step_events_reach_every_shade_group(zones: Seq<ZoneView>, event: EventView, z: int)
    requires
        addresses_all(event),
        zone_index(zones, event.zone) == Some(z),
    ensures
        expanded(zones, event) is Ok,
        expanded(zones, event)->Ok_0.len() == shadow_ids(zones[z].groups).len(),
        forall|i: int|
            0 <= i < shadow_ids(zones[z].groups).len() ==> (#[trigger] expanded(
                zones,
                event,
            )->Ok_0[i]) == (EventView { group: shadow_ids(zones[z].groups)[i], ..event }),
{
}

/// In a zone whose groups are all shade groups there are as many shade
/// group ids as groups, and they are the ids of the groups in order.
pub proof fn shade_zone_ids(groups: Seq<GroupView>)
    requires
        forall|i: int| 0 <= i < groups.len() ==> (#[trigger] groups[i]).typ == Type::Shadow,
    ensures
        shadow_ids(groups).len() == groups.len(),
        forall|i: int| 0 <= i < groups.len() ==> shadow_ids(groups)[i] == (#[trigger] groups[i]).id,
    decreases groups.len(),
{
    if groups.len() > 0 {
        let front = groups.drop_last();
        assert forall|i: int| 0 <= i < front.len() implies (#[trigger] front[i]).typ
            == Type::Shadow by {
            assert(front[i] == groups[i]);
        }
        shade_zone_ids(front);
        assert forall|i: int| 0 <= i < groups.len() implies shadow_ids(groups)[i] == (
        #[trigger] groups[i]).id by {
            if i < front.len() {
                assert(front[i] == groups[i]);
            }
        }
    }
}

/// Any other event stands for itself alone.
pub proof fn other_events_stand_alone(zones: Seq<ZoneView>, event: EventView)
    requires
        !addresses_all(event),
    ensures
        expanded(zones, event) == Ok::<Seq<EventView>, Error>(seq![event]),
{
}

} // verus!
