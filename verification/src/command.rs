//! How a wish for a state is carried out.
//!
//! Scenes can express only the ends of the range. A light is switched by a
//! scene; a shade is moved by a scene where it is to be fully open or fully
//! closed, and by writing to each of its motors otherwise. After such direct
//! writes no event comes back, so the model is corrected by hand.

use vstd::prelude::*;

use crate::action::Action;
use crate::api::RawApi;
use crate::calls::{ANGLE_OFFSET, OPENING_OFFSET, output_write_of};
use crate::kind::DeviceType;
use crate::model::{Device, DeviceView, Group, GroupView};
use crate::request::{Request, RequestView};
use crate::value::{
    angle_raw, at_least_half, at_least_nine_tenths, at_most_tenth, is_high, is_high_tenth,
    is_low_tenth, opening_raw, Value,
};
use crate::views::{views, views_push};

verus! {

/// The way in which a state is brought about.
#[derive(Clone, Copy, Debug, PartialEq, Eq, Structural)]
pub enum Course {
    /// Nothing is to be done.
    Nothing,
    /// One scene call does it.
    Call(Action),
    /// Every shade motor is driven to the closing amount and tilt.
    Drive(u16, u16),
}

/// The action that switches lights on, for a sub-group or the whole zone.
pub open spec fn light_on(group: Option<usize>) -> Action {
    match group {
        Some(g) => Action::LightOn(g),
        None => Action::AllLightOn,
    }
}

/// The action that switches lights off.
pub open spec fn light_off(group: Option<usize>) -> Action {
    match group {
        Some(g) => Action::LightOff(g),
        None => Action::AllLightOff,
    }
}

/// The action that opens shades fully.
pub open spec fn shadow_up(group: Option<usize>) -> Action {
    match group {
        Some(g) => Action::ShadowUp(g),
        None => Action::AllShadowUp,
    }
}

/// The action that closes shades fully.
pub open spec fn shadow_down(group: Option<usize>) -> Action {
    match group {
        Some(g) => Action::ShadowDown(g),
        None => Action::AllShadowDown,
    }
}

/// How a value is brought about on a sub-group or on the whole zone.
pub open spec fn course_of(group: Option<usize>, value: Value) -> Course {
    match value {
        Value::Light(level) => if is_high(level) {
            Course::Call(light_on(group))
        } else {
            Course::Call(light_off(group))
        },
        Value::Shadow(open, angle) => if is_low_tenth(open) {
            Course::Call(shadow_up(group))
        } else if is_high_tenth(open) && is_low_tenth(angle) {
            Course::Call(shadow_down(group))
        } else {
            Course::Drive(open, angle)
        },
        Value::Unknown => Course::Nothing,
    }
}

/// Decides how a value is brought about.
pub fn choose_course(group: Option<usize>, value: Value) -> (r: Course)
    ensures
        r == course_of(group, value),
{
    match value {
        Value::Light(level) => if at_least_half(level) {
            Course::Call(
                match group {
                    Some(g) => Action::LightOn(g),
                    None => Action::AllLightOn,
                },
            )
        } else {
            Course::Call(
                match group {
                    Some(g) => Action::LightOff(g),
                    None => Action::AllLightOff,
                },
            )
        },
        Value::Shadow(open, angle) => if at_most_tenth(open) {
            Course::Call(
                match group {
                    Some(g) => Action::ShadowUp(g),
                    None => Action::AllShadowUp,
                },
            )
        } else if at_least_nine_tenths(open) && at_most_tenth(angle) {
            Course::Call(
                match group {
                    Some(g) => Action::ShadowDown(g),
                    None => Action::AllShadowDown,
                },
            )
        } else {
            Course::Drive(open, angle)
        },
        Value::Unknown => Course::Nothing,
    }
}

/// The writes that drive the shade motors among the devices: for each, in
/// order, first the opening, then the tilt.
pub open spec fn group_drive(
    devices: Seq<DeviceView>,
    open: u16,
    angle: u16,
    token: Seq<char>,
) -> Seq<RequestView>
    decreases devices.len(),
{
    if devices.len() == 0 {
        Seq::empty()
    } else if devices.last().device_type == DeviceType::Shadow {
        group_drive(devices.drop_last(), open, angle, token).push(
            output_write_of(devices.last().id, opening_raw(open) as nat, OPENING_OFFSET, token),
        ).push(output_write_of(devices.last().id, angle_raw(angle) as nat, ANGLE_OFFSET, token))
    } else {
        group_drive(devices.drop_last(), open, angle, token)
    }
}

/// The writes that drive the shade motors of every group, group by group.
pub open spec fn zone_drive(
    groups: Seq<GroupView>,
    open: u16,
    angle: u16,
    token: Seq<char>,
) -> Seq<RequestView>
    decreases groups.len(),
{
    if groups.len() == 0 {
        Seq::empty()
    } else {
        zone_drive(groups.drop_last(), open, angle, token) + group_drive(
            groups.last().devices,
            open,
            angle,
            token,
        )
    }
}

/// Adds the writes for the shade motors among the devices.
pub fn drive_group(api: &RawApi, devices: &Vec<Device>, open: u16, angle: u16, out: &mut Vec<Request>)
    ensures
        views(final(out)@) == views(old(out)@) + group_drive(
            views(devices@),
            open,
            angle,
            api@.token,
        ),
{
    let ghost all = views(devices@);
    let ghost start = views(out@);
    let mut i: usize = 0;
    proof {
        assert(all.take(0) =~= Seq::<DeviceView>::empty());
        assert(views(out@) =~= start + group_drive(all.take(0), open, angle, api@.token));
    }
    while i < devices.len()
        invariant
            i <= devices.len(),
            all == views(devices@),
            views(out@) == start + group_drive(all.take(i as int), open, angle, api@.token),
        decreases devices.len() - i,
    {
        let ghost front = group_drive(all.take(i as int), open, angle, api@.token);
        proof {
            assert(all.take(i + 1).drop_last() =~= all.take(i as int));
            assert(all.take(i + 1).last() == devices@[i as int]@);
        }
        if devices[i].device_type == DeviceType::Shadow {
            let first = api.set_shadow_device_open(devices[i].id.as_str(), open);
            let second = api.set_shadow_device_angle(devices[i].id.as_str(), angle);
            proof {
                views_push(out@, first);
                views_push(out@.push(first), second);
                assert((start + front).push(first@).push(second@) =~= start + front.push(
                    first@,
                ).push(second@));
            }
            out.push(first);
            out.push(second);
        }
        i = i + 1;
    }
    proof {
        assert(all.take(devices@.len() as int) =~= all);
    }
}

/// Adds the writes for the shade motors of every group.
pub fn drive_zone(api: &RawApi, groups: &Vec<Group>, open: u16, angle: u16, out: &mut Vec<Request>)
    ensures
        views(final(out)@) == views(old(out)@) + zone_drive(
            views(groups@),
            open,
            angle,
            api@.token,
        ),
{
    let ghost all = views(groups@);
    let ghost start = views(out@);
    let mut i: usize = 0;
    proof {
        assert(all.take(0) =~= Seq::<GroupView>::empty());
        assert(views(out@) =~= start + zone_drive(all.take(0), open, angle, api@.token));
    }
    while i < groups.len()
        invariant
            i <= groups.len(),
            all == views(groups@),
            views(out@) == start + zone_drive(all.take(i as int), open, angle, api@.token),
        decreases groups.len() - i,
    {
        let ghost front = zone_drive(all.take(i as int), open, angle, api@.token);
        let ghost more = group_drive(views(groups@[i as int].devices@), open, angle, api@.token);
        proof {
            assert(all.take(i + 1).drop_last() =~= all.take(i as int));
            assert(all.take(i + 1).last() == groups@[i as int]@);
            assert((start + front) + more =~= start + (front + more));
        }
        drive_group(api, &groups[i].devices, open, angle, out);
        i = i + 1;
    }
    proof {
        assert(all.take(groups@.len() as int) =~= all);
    }
}

} // verus!
