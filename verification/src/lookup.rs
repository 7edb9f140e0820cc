//! Finding zones and groups by id. Where several carry the id, the first one
//! is meant.

use vstd::prelude::*;

use crate::kind::Type;
use crate::model::{Group, GroupView, Zone, ZoneView};
use crate::views::views;

verus! {

/// The place of the first zone with the given id.
pub open spec fn zone_index(zones: Seq<ZoneView>, id: usize) -> Option<int>
    decreases zones.len(),
{
    if zones.len() == 0 {
        None
    } else if zones[0].id == id {
        Some(0)
    } else {
        match zone_index(zones.drop_first(), id) {
            Some(i) => Some(i + 1),
            None => None,
        }
    }
}

/// Whether a group is the one asked for: it carries the id and, where a type
/// is asked for, has that type.
pub open spec fn group_matches(group: GroupView, id: usize, typ: Option<Type>) -> bool {
    group.id == id && (typ is None || typ == Some(group.typ))
}

/// The place of the first group that is asked for.
pub open spec fn group_index(groups: Seq<GroupView>, id: usize, typ: Option<Type>) -> Option<int>
    decreases groups.len(),
{
    if groups.len() == 0 {
        None
    } else if group_matches(groups[0], id, typ) {
        Some(0)
    } else {
        match group_index(groups.drop_first(), id, typ) {
            Some(i) => Some(i + 1),
            None => None,
        }
    }
}

/// A zone that was found is in the list and carries the id; where none was
/// found, no zone does. No zone before the found one carries the id.
pub proof fn zone_index_is_first(zones: Seq<ZoneView>, id: usize)
    ensures
        match zone_index(zones, id) {
            Some(i) => 0 <= i < zones.len() && zones[i].id == id && forall|k: int|
                0 <= k < i ==> (#[trigger] zones[k]).id != id,
            None => forall|k: int| 0 <= k < zones.len() ==> (#[trigger] zones[k]).id != id,
        },
    decreases zones.len(),
{
    if zones.len() > 0 && zones[0].id != id {
        let rest = zones.drop_first();
        zone_index_is_first(rest, id);
        match zone_index(rest, id) {
            Some(i) => {
                assert forall|k: int| 0 <= k < i + 1 implies (#[trigger] zones[k]).id != id by {
                    if k > 0 {
                        assert(rest[k - 1] == zones[k]);
                    }
                }
            },
            None => {
                assert forall|k: int| 0 <= k < zones.len() implies (#[trigger] zones[k]).id
                    != id by {
                    if k > 0 {
                        assert(rest[k - 1] == zones[k]);
                    }
                }
            },
        }
    }
}

/// A group that was found is in the list and is the one asked for; where
/// none was found, no group is. No group before the found one is.
pub proof fn group_index_is_first(groups: Seq<GroupView>, id: usize, typ: Option<Type>)
    ensures
        match group_index(groups, id, typ) {
            Some(i) => 0 <= i < groups.len() && group_matches(groups[i], id, typ) && forall|
                k: int,
            |
                0 <= k < i ==> !group_matches(#[trigger] groups[k], id, typ),
            None => forall|k: int|
                0 <= k < groups.len() ==> !group_matches(#[trigger] groups[k], id, typ),
        },
    decreases groups.len(),
{
    if groups.len() > 0 && !group_matches(groups[0], id, typ) {
        let rest = groups.drop_first();
        group_index_is_first(rest, id, typ);
        match group_index(rest, id, typ) {
            Some(i) => {
                assert forall|k: int| 0 <= k < i + 1 implies !group_matches(
                    #[trigger] groups[k],
                    id,
                    typ,
                ) by {
                    if k > 0 {
                        assert(rest[k - 1] == groups[k]);
                    }
                }
            },
            None => {
                assert forall|k: int| 0 <= k < groups.len() implies !group_matches(
                    #[trigger] groups[k],
                    id,
                    typ,
                ) by {
                    if k > 0 {
                        assert(rest[k - 1] == groups[k]);
                    }
                }
            },
        }
    }
}

/// The first element that passes a test decides the index: a list whose
/// first `i` zones do not carry the id has its first such zone where the
/// rest has it.
pub proof fn zone_index_skips(zones: Seq<ZoneView>, id: usize, i: int)
    requires
        0 <= i <= zones.len(),
        forall|k: int| 0 <= k < i ==> (#[trigger] zones[k]).id != id,
    ensures
        zone_index(zones, id) == match zone_index(zones.skip(i), id) {
            Some(k) => Some(k + i),
            None => None,
        },
    decreases i,
{
    if i == 0 {
        assert(zones.skip(0) =~= zones);
    } else {
        let rest = zones.drop_first();
        assert(rest.skip(i - 1) =~= zones.skip(i));
        assert forall|k: int| 0 <= k < i - 1 implies (#[trigger] rest[k]).id != id by {
            assert(rest[k] == zones[k + 1]);
        }
        zone_index_skips(rest, id, i - 1);
        assert(zones[0].id != id);
    }
}

/// The same for groups.
pub proof fn group_index_skips(groups: Seq<GroupView>, id: usize, typ: Option<Type>, i: int)
    requires
        0 <= i <= groups.len(),
        forall|k: int| 0 <= k < i ==> !group_matches(#[trigger] groups[k], id, typ),
    ensures
        group_index(groups, id, typ) == match group_index(groups.skip(i), id, typ) {
            Some(k) => Some(k + i),
            None => None,
        },
    decreases i,
{
    if i == 0 {
        assert(groups.skip(0) =~= groups);
    } else {
        let rest = groups.drop_first();
        assert(rest.skip(i - 1) =~= groups.skip(i));
        assert forall|k: int| 0 <= k < i - 1 implies !group_matches(
            #[trigger] rest[k],
            id,
            typ,
        ) by {
            assert(rest[k] == groups[k + 1]);
        }
        group_index_skips(rest, id, typ, i - 1);
        assert(!group_matches(groups[0], id, typ));
    }
}

/// Finds the first zone with the given id.
pub fn find_zone(zones: &Vec<Zone>, id: usize) -> (r: Option<usize>)
    ensures
        match r {
            Some(i) => zone_index(views(zones@), id) == Some(i as int) && i < zones@.len(),
            None => zone_index(views(zones@), id) is None,
        },
{
    let ghost all = views(zones@);
    let mut i: usize = 0;
    while i < zones.len()
        invariant
            i <= zones.len(),
            all == views(zones@),
            forall|k: int| 0 <= k < i ==> (#[trigger] all[k]).id != id,
        decreases zones.len() - i,
    {
        if zones[i].id == id {
            proof {
                zone_index_skips(all, id, i as int);
                assert(all.skip(i as int)[0] == all[i as int]);
            }
            return Some(i);
        }
        i = i + 1;
    }
    proof {
        zone_index_skips(all, id, i as int);
        assert(all.skip(i as int).len() == 0);
    }
    None
}

/// Finds the first group with the given id and, where one is asked for, the
/// given type.
pub fn find_group(groups: &Vec<Group>, id: usize, typ: Option<Type>) -> (r: Option<usize>)
    ensures
        match r {
            Some(i) => group_index(views(groups@), id, typ) == Some(i as int) && i
                < groups@.len(),
            None => group_index(views(groups@), id, typ) is None,
        },
{
    let ghost all = views(groups@);
    let mut i: usize = 0;
    while i < groups.len()
        invariant
            i <= groups.len(),
            all == views(groups@),
            forall|k: int| 0 <= k < i ==> !group_matches(#[trigger] all[k], id, typ),
        decreases groups.len() - i,
    {
        let hit = groups[i].id == id && match typ {
            Some(t) => groups[i].typ == t,
            None => true,
        };
        if hit {
            proof {
                group_index_skips(all, id, typ, i as int);
                assert(all.skip(i as int)[0] == all[i as int]);
            }
            return Some(i);
        }
        i = i + 1;
    }
    proof {
        group_index_skips(all, id, typ, i as int);
        assert(all.skip(i as int).len() == 0);
    }
    None
}

/// Where a zone is found depends on the ids alone: two lists whose zones
/// carry the same ids at the same places find the same place.
pub proof fn zone_index_by_ids(a: Seq<ZoneView>, b: Seq<ZoneView>, id: usize)
    requires
        a.len() == b.len(),
        forall|i: int| 0 <= i < a.len() ==> (#[trigger] a[i]).id == b[i].id,
    ensures
        zone_index(a, id) == zone_index(b, id),
    decreases a.len(),
{
    if a.len() > 0 {
        let x = a.drop_first();
        let y = b.drop_first();
        assert forall|i: int| 0 <= i < x.len() implies (#[trigger] x[i]).id == y[i].id by {
            assert(x[i] == a[i + 1]);
            assert(y[i] == b[i + 1]);
        }
        zone_index_by_ids(x, y, id);
        assert(a[0].id == b[0].id);
    }
}

/// Where a group is found depends on ids and types alone.
pub proof fn group_index_by_ids(a: Seq<GroupView>, b: Seq<GroupView>, id: usize, typ: Option<Type>)
    requires
        a.len() == b.len(),
        forall|i: int|
            0 <= i < a.len() ==> (#[trigger] a[i]).id == b[i].id && a[i].typ == b[i].typ,
    ensures
        group_index(a, id, typ) == group_index(b, id, typ),
    decreases a.len(),
{
    if a.len() > 0 {
        let x = a.drop_first();
        let y = b.drop_first();
        assert forall|i: int| 0 <= i < x.len() implies (#[trigger] x[i]).id == y[i].id && x[i].typ
            == y[i].typ by {
            assert(x[i] == a[i + 1]);
            assert(y[i] == b[i + 1]);
        }
        group_index_by_ids(x, y, id, typ);
        assert(a[0].id == b[0].id && a[0].typ == b[0].typ);
    }
}

} // verus!
