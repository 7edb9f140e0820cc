//! How groups are derived from the scenes that a zone can reach.

use vstd::prelude::*;

use crate::action::group_id_from_scene;
use crate::kind::Type;
use crate::model::{Group, GroupView};
use crate::value::Value;
use crate::views::views;

verus! {

/// A group that was just derived: nothing is known of its state and no
/// device has been sorted into it.
pub open spec fn fresh_group(id: usize, zone_id: usize, typ: Type) -> GroupView {
    GroupView { id, zone_id, typ, status: Value::Unknown, devices: Seq::empty() }
}

/// The scenes that stand for a group, in the order given: 0 for the whole
/// zone, 1 to 3 for the sub-groups.
pub open spec fn group_scenes(scenes: Seq<usize>) -> Seq<usize>
    decreases scenes.len(),
{
    if scenes.len() == 0 {
        Seq::empty()
    } else if scenes.last() <= 3 {
        group_scenes(scenes.drop_last()).push(scenes.last())
    } else {
        group_scenes(scenes.drop_last())
    }
}

/// The ids that are left when the catch-all group 0 is dropped.
pub open spec fn sub_groups(ids: Seq<usize>) -> Seq<usize>
    decreases ids.len(),
{
    if ids.len() == 0 {
        Seq::empty()
    } else if ids.last() > 0 {
        sub_groups(ids.drop_last()).push(ids.last())
    } else {
        sub_groups(ids.drop_last())
    }
}

/// The ids of the groups that a list of reachable scenes gives: the
/// sub-groups where there are any, else the catch-all group 0 where the
/// list names it, however often, and nothing where it names neither.
pub open spec fn group_ids(scenes: Seq<usize>) -> Seq<usize> {
    let found = group_scenes(scenes);
    let subs = sub_groups(found);
    if subs.len() > 0 {
        subs
    } else if found.len() > 0 {
        seq![0]
    } else {
        Seq::empty()
    }
}

/// Fresh groups of one zone and type, one for each id.
pub open spec fn fresh_groups(ids: Seq<usize>, zone_id: usize, typ: Type) -> Seq<GroupView> {
    Seq::new(ids.len(), |i: int| fresh_group(ids[i], zone_id, typ))
}

impl Group {
    /// A group without devices and without a known state.
    pub fn new(id: usize, zone_id: usize, typ: Type) -> (r: Group)
        ensures
            r@ == fresh_group(id, zone_id, typ),
    {
        let r = Group { id, zone_id, typ, devices: Vec::new(), status: Value::Unknown };
        assert(views(r.devices@) =~= Seq::empty());
        r
    }

    /// The sub-group that a scene number addresses.
    pub fn group_id_from_scene_id(scene: usize) -> (r: usize)
        ensures
            r == group_id_from_scene(scene),
    {
        if scene > 0 && scene < 5 {
            return scene;
        }
        if scene > 5 && scene < 9 {
            return scene - 5;
        }
        if scene > 50 && scene < 55 {
            return scene - 51;
        }
        0
    }

    /// The group that a reachable scene stands for, if it stands for one.
    pub fn from_scene(scene: usize, zone_id: usize, typ: &Type) -> (r: Option<Group>)
        ensures
            match r {
                Some(g) => scene <= 3 && g@ == fresh_group(scene, zone_id, *typ),
                None => scene > 3,
            },
    {
        if scene >= 1 && scene <= 3 {
            return Some(Group::new(scene, zone_id, *typ));
        }
        if scene == 0 {
            return Some(Group::new(0, zone_id, *typ));
        }
        None
    }

    /// The groups of a zone and type, derived from the scenes that can be
    /// reached there.
    pub fn from_scenes(scenes: &[usize], zone_id: usize, typ: &Type) -> (r: Vec<Group>)
        ensures
            views(r@) == fresh_groups(group_ids(scenes@), zone_id, *typ),
    {
        let mut found: Vec<usize> = Vec::new();
        let mut i: usize = 0;
        assert(scenes@.take(0) =~= Seq::<usize>::empty());
        while i < scenes.len()
            invariant
                i <= scenes.len(),
                found@ == group_scenes(scenes@.take(i as int)),
            decreases scenes.len() - i,
        {
            assert(scenes@.take(i + 1).drop_last() =~= scenes@.take(i as int));
            if scenes[i] <= 3 {
                found.push(scenes[i]);
            }
            i = i + 1;
        }
        assert(scenes@.take(scenes@.len() as int) =~= scenes@);
        let mut ids: Vec<usize> = Vec::new();
        let mut k: usize = 0;
        assert(found@.take(0) =~= Seq::<usize>::empty());
        while k < found.len()
            invariant
                k <= found.len(),
                ids@ == sub_groups(found@.take(k as int)),
            decreases found.len() - k,
        {
            assert(found@.take(k + 1).drop_last() =~= found@.take(k as int));
            if found[k] > 0 {
                ids.push(found[k]);
            }
            k = k + 1;
        }
        assert(found@.take(found@.len() as int) =~= found@);
        if ids.len() == 0 && found.len() > 0 {
            ids.push(0);
            assert(ids@ =~= seq![0usize]);
        }
        assert(ids@ == group_ids(scenes@));
        let mut out: Vec<Group> = Vec::new();
        let mut n: usize = 0;
        while n < ids.len()
            invariant
                n <= ids.len(),
                out@.len() == n,
                forall|m: int| 0 <= m < n ==> (#[trigger] out@[m])@ == fresh_group(ids@[m], zone_id, *typ),
            decreases ids.len() - n,
        {
            out.push(Group::new(ids[n], zone_id, *typ));
            n = n + 1;
        }
        assert(views(out@) =~= fresh_groups(ids@, zone_id, *typ));
        out
    }
}

impl Default for Group {
    fn default() -> (r: Group)
        ensures
            r@ == fresh_group(0, 0, Type::Unknown),
    {
        Group::new(0, 0, Type::Unknown)
    }
}

/// Where the reachable scenes name no sub-group, there is the catch-all
/// group alone if scene 0 is among them, and no group otherwise.
pub proof fn without_sub_groups(scenes: Seq<usize>)
    requires
        forall|i: int| 0 <= i < scenes.len() ==> !(1 <= #[trigger] scenes[i] <= 3),
    ensures
        group_ids(scenes) == (if exists|i: int| 0 <= i < scenes.len() && scenes[i] == 0 {
            seq![0usize]
        } else {
            Seq::<usize>::empty()
        }),
{
    no_sub_groups(scenes);
}

/// Scenes that name no sub-group give none, and give a catch-all scene
/// exactly where 0 is among them.
proof fn no_sub_groups(scenes: Seq<usize>)
    requires
        forall|i: int| 0 <= i < scenes.len() ==> !(1 <= #[trigger] scenes[i] <= 3),
    ensures
        sub_groups(group_scenes(scenes)).len() == 0,
        group_scenes(scenes).len() > 0 <==> exists|i: int| 0 <= i < scenes.len() && scenes[i] == 0,
        forall|k: int|
            0 <= k < group_scenes(scenes).len() ==> #[trigger] group_scenes(scenes)[k] == 0,
    decreases scenes.len(),
{
    if scenes.len() > 0 {
        let front = scenes.drop_last();
        assert forall|i: int| 0 <= i < front.len() implies !(1 <= #[trigger] front[i] <= 3) by {
            assert(front[i] == scenes[i]);
        }
        no_sub_groups(front);
        let last = scenes.len() - 1;
        if scenes[last] == 0 {
            assert(group_scenes(scenes) == group_scenes(front).push(0));
            assert(group_scenes(scenes).drop_last() =~= group_scenes(front));
        } else {
            assert(!(scenes[last] <= 3));
        }
        if exists|i: int| 0 <= i < front.len() && front[i] == 0 {
            let i = choose|i: int| 0 <= i < front.len() && front[i] == 0;
            assert(scenes[i] == 0);
        }
        if exists|i: int| 0 <= i < scenes.len() && scenes[i] == 0 {
            let i = choose|i: int| 0 <= i < scenes.len() && scenes[i] == 0;
            if i < last {
                assert(front[i] == 0);
            }
        }
    }
}

/// The catch-all group is never found beside a sub-group.
pub proof fn sub_groups_stand_alone(scenes: Seq<usize>)
    ensures
        group_ids(scenes).len() > 1 ==> forall|k: int|
            0 <= k < group_ids(scenes).len() ==> #[trigger] group_ids(scenes)[k] > 0,
        forall|k: int| 0 <= k < group_ids(scenes).len() ==> #[trigger] group_ids(scenes)[k] <= 3,
{
    group_scenes_are_small(scenes);
    sub_groups_are_sub_groups(group_scenes(scenes));
}

/// What is left after the catch-all group was dropped is no catch-all
/// group, and was there before.
proof fn sub_groups_are_sub_groups(ids: Seq<usize>)
    requires
        forall|k: int| 0 <= k < ids.len() ==> #[trigger] ids[k] <= 3,
    ensures
        forall|k: int|
            0 <= k < sub_groups(ids).len() ==> 0 < (#[trigger] sub_groups(ids)[k]) && sub_groups(
                ids,
            )[k] <= 3,
    decreases ids.len(),
{
    if ids.len() > 0 {
        let front = ids.drop_last();
        assert forall|k: int| 0 <= k < front.len() implies #[trigger] front[k] <= 3 by {
            assert(front[k] == ids[k]);
        }
        sub_groups_are_sub_groups(front);
        assert(ids[ids.len() - 1] <= 3);
        let subs = sub_groups(ids);
        assert forall|k: int| 0 <= k < subs.len() implies 0 < (#[trigger] subs[k]) && subs[k]
            <= 3 by {
            if k < sub_groups(front).len() {
                assert(subs[k] == sub_groups(front)[k]);
            }
        }
    }
}

/// Only the scenes 0 to 3 stand for a group.
proof fn group_scenes_are_small(scenes: Seq<usize>)
    ensures
        forall|k: int|
            0 <= k < group_scenes(scenes).len() ==> #[trigger] group_scenes(scenes)[k] <= 3,
    decreases scenes.len(),
{
    if scenes.len() > 0 {
        let front = scenes.drop_last();
        group_scenes_are_small(front);
        let found = group_scenes(scenes);
        assert forall|k: int| 0 <= k < found.len() implies #[trigger] found[k] <= 3 by {
            if k < group_scenes(front).len() {
                assert(found[k] == group_scenes(front)[k]);
            }
        }
    }
}

} // verus!
