//! Overwriting the state of groups in the model.
//!
//! A state is replaced as a whole; nothing else of a group changes.

use vstd::prelude::*;

use crate::kind::Type;
use crate::model::{Group, GroupView, Zone, ZoneView};
use crate::value::Value;
use crate::views::views;

verus! {

/// A group with another state.
pub open spec fn with_status(group: GroupView, status: Value) -> GroupView {
    GroupView { status, ..group }
}

/// A zone with other groups.
pub open spec fn with_groups(zone: ZoneView, groups: Seq<GroupView>) -> ZoneView {
    ZoneView { groups, ..zone }
}

/// Whether a group is among those addressed: it has the type and, where an
/// id is given, carries it.
pub open spec fn addressed(group: GroupView, typ: Type, id: Option<usize>) -> bool {
    group.typ == typ && (id is None || id == Some(group.id))
}

/// The groups of a zone after every addressed group got the state.
pub open spec fn restated(
    groups: Seq<GroupView>,
    typ: Type,
    id: Option<usize>,
    status: Value,
) -> Seq<GroupView> {
    Seq::new(
        groups.len(),
        |i: int|
            if addressed(groups[i], typ, id) {
                with_status(groups[i], status)
            } else {
                groups[i]
            },
    )
}

/// The zones after every addressed group of every zone with the id got the
/// state.
pub open spec fn zones_restated(
    zones: Seq<ZoneView>,
    zone: usize,
    typ: Type,
    id: Option<usize>,
    status: Value,
) -> Seq<ZoneView> {
    Seq::new(
        zones.len(),
        |i: int|
            if zones[i].id == zone {
                with_groups(zones[i], restated(zones[i].groups, typ, id, status))
            } else {
                zones[i]
            },
    )
}

/// Gives one group a new state.
pub(crate) fn set_status(groups: &mut Vec<Group>, k: usize, status: Value)
    requires
        k < old(groups)@.len(),
    ensures
        views(final(groups)@) == views(old(groups)@).update(
            k as int,
            with_status(old(groups)@[k as int]@, status),
        ),
{
    groups[k].status = status;
    assert(views(groups@) =~= views(old(groups)@).update(
        k as int,
        with_status(old(groups)@[k as int]@, status),
    ));
}

/// Gives every addressed group a new state.
pub fn restate(groups: &mut Vec<Group>, typ: Type, id: Option<usize>, status: Value)
    ensures
        views(final(groups)@) == restated(views(old(groups)@), typ, id, status),
{
    let ghost before = views(groups@);
    let mut i: usize = 0;
    while i < groups.len()
        invariant
            i <= groups.len(),
            groups@.len() == before.len(),
            forall|k: int|
                0 <= k < i ==> (#[trigger] groups@[k])@ == restated(before, typ, id, status)[k],
            forall|k: int| i <= k < groups@.len() ==> (#[trigger] groups@[k])@ == before[k],
        decreases groups.len() - i,
    {
        let hit = groups[i].typ == typ && match id {
            Some(g) => groups[i].id == g,
            None => true,
        };
        if hit {
            groups[i].status = status;
        }
        i = i + 1;
    }
    assert(views(groups@) =~= restated(before, typ, id, status));
}

/// Gives every addressed group of every zone with the id a new state.
pub fn restate_zones(zones: &mut Vec<Zone>, zone: usize, typ: Type, id: Option<usize>, status: Value)
    ensures
        views(final(zones)@) == zones_restated(views(old(zones)@), zone, typ, id, status),
{
    let ghost before = views(zones@);
    let mut i: usize = 0;
    while i < zones.len()
        invariant
            i <= zones.len(),
            zones@.len() == before.len(),
            forall|k: int|
                0 <= k < i ==> (#[trigger] zones@[k])@ == zones_restated(
                    before,
                    zone,
                    typ,
                    id,
                    status,
                )[k],
            forall|k: int| i <= k < zones@.len() ==> (#[trigger] zones@[k])@ == before[k],
        decreases zones.len() - i,
    {
        if zones[i].id == zone {
            restate(&mut zones[i].groups, typ, id, status);
        }
        i = i + 1;
    }
    assert(views(zones@) =~= zones_restated(before, zone, typ, id, status));
}

} // verus!
