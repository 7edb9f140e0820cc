//! Events: what the server reports when a scene was called.

use vstd::prelude::*;
use vstd::std_specs::convert::FromSpecImpl;

use crate::action::{Action, action_from_scene, group_id_from_scene};
use crate::decode::{field_of, get_field, get_text, list_field, text_field, wrong_type};
use crate::error::{Error, Fault, Field};
use crate::json::{Json, JsonView};
use crate::kind::{Type, type_of_text};
use crate::model::Group;
use crate::request::{payload_of, ReplyView};
use crate::text::{parse_decimal, word_of_text};
use crate::value::{Value, value_from_action};
use crate::views::{views, views_push};

verus! {

/// A scene call that the server reports, with what the engine makes of it.
#[derive(Debug, PartialEq, Eq)]
pub struct Event {
    pub name: String,
    pub zone: usize,
    pub typ: Type,
    pub scene: usize,
    pub token: String,
    pub dsuid: String,
    pub origin: String,
    /// What the scene means on a group of this type.
    pub action: Action,
    /// The state that the group is in after the call.
    pub value: Value,
    /// The sub-group that the scene addresses.
    pub group: usize,
}

/// The contents of an `Event`.
pub struct EventView {
    pub name: Seq<char>,
    pub zone: usize,
    pub typ: Type,
    pub scene: usize,
    pub token: Seq<char>,
    pub dsuid: Seq<char>,
    pub origin: Seq<char>,
    pub action: Action,
    pub value: Value,
    pub group: usize,
}

impl View for Event {
    type V = EventView;

    open spec fn view(&self) -> EventView {
        EventView {
            name: self.name@,
            zone: self.zone,
            typ: self.typ,
            scene: self.scene,
            token: self.token@,
            dsuid: self.dsuid@,
            origin: self.origin@,
            action: self.action,
            value: self.value,
            group: self.group,
        }
    }
}

impl Clone for Event {
    fn clone(&self) -> (r: Event)
        ensures
            r@ == self@,
    {
        Event {
            name: self.name.clone(),
            zone: self.zone,
            typ: self.typ,
            scene: self.scene,
            token: self.token.clone(),
            dsuid: self.dsuid.clone(),
            origin: self.origin.clone(),
            action: self.action,
            value: self.value,
            group: self.group,
        }
    }
}

impl From<Event> for Action {
    fn from(e: Event) -> (r: Action) {
        Action::new(e.typ, e.scene)
    }
}

impl FromSpecImpl<Event> for Action {
    open spec fn obeys_from_spec() -> bool {
        true
    }

    open spec fn from_spec(e: Event) -> Action {
        action_from_scene(e.typ, e.scene)
    }
}

/// The machine word that a field holds as decimal text.
pub open spec fn text_word_field(j: JsonView, field: Field) -> Result<usize, Error> {
    match text_field(j, field) {
        Ok(text) => match word_of_text(text) {
            Some(n) => Ok(n),
            None => Err(wrong_type(field)),
        },
        Err(e) => Err(e),
    }
}

/// The type tag that a field holds as the decimal text of its code. A code
/// that names no type stands for `Unknown`; one beyond a byte is refused.
pub open spec fn text_type_field(j: JsonView, field: Field) -> Result<Type, Error> {
    match text_field(j, field) {
        Ok(text) => match type_of_text(text) {
            Some(t) => Ok(t),
            None => Err(wrong_type(field)),
        },
        Err(e) => Err(e),
    }
}

/// The event that an entry of the server's event list stands for. The
/// action, the sub-group and the state follow from type and scene.
pub open spec fn event_of(j: JsonView) -> Result<EventView, Error> {
    let name = text_field(j, Field::Name);
    let props = field_of(j, Field::Properties);
    if name is Err {
        Err(name->Err_0)
    } else if props is Err {
        Err(props->Err_0)
    } else {
        let p = props->Ok_0;
        let zone = text_word_field(p, Field::ZoneId);
        let typ = text_type_field(p, Field::GroupId);
        let scene = text_word_field(p, Field::SceneId);
        let token = text_field(p, Field::OriginToken);
        let dsuid = text_field(p, Field::OriginDsuid);
        let origin = text_field(p, Field::CallOrigin);
        if zone is Err {
            Err(zone->Err_0)
        } else if typ is Err {
            Err(typ->Err_0)
        } else if scene is Err {
            Err(scene->Err_0)
        } else if token is Err {
            Err(token->Err_0)
        } else if dsuid is Err {
            Err(dsuid->Err_0)
        } else if origin is Err {
            Err(origin->Err_0)
        } else {
            Ok(
                EventView {
                    name: name->Ok_0,
                    zone: zone->Ok_0,
                    typ: typ->Ok_0,
                    scene: scene->Ok_0,
                    token: token->Ok_0,
                    dsuid: dsuid->Ok_0,
                    origin: origin->Ok_0,
                    action: action_from_scene(typ->Ok_0, scene->Ok_0),
                    value: value_from_action(action_from_scene(typ->Ok_0, scene->Ok_0)),
                    group: group_id_from_scene(scene->Ok_0),
                },
            )
        }
    }
}

/// Reads a machine word that a field holds as decimal text.
pub fn get_text_word(j: &Json, field: Field) -> (r: Result<usize, Error>)
    ensures
        r == text_word_field(j@, field),
{
    let text = get_text(j, field)?;
    match parse_decimal(text.as_str()) {
        Some(n) => Ok(n),
        None => Err(Error::Protocol(Fault::WrongType(field))),
    }
}

/// Reads a type tag that a field holds as the decimal text of its code.
pub fn get_text_type(j: &Json, field: Field) -> (r: Result<Type, Error>)
    ensures
        r == text_type_field(j@, field),
{
    let text = get_text(j, field)?;
    match Type::from_str(text.as_str()) {
        Some(t) => Ok(t),
        None => Err(Error::Protocol(Fault::WrongType(field))),
    }
}

impl Event {
    /// Reads an event from an entry of the server's event list.
    pub fn from_json(j: &Json) -> (r: Result<Event, Error>)
        ensures
            match r {
                Ok(e) => event_of(j@) == Ok::<EventView, Error>(e@),
                Err(e) => event_of(j@) == Err::<EventView, Error>(e),
            },
    {
        let name = get_text(j, Field::Name)?;
        let p = get_field(j, Field::Properties)?;
        let zone = get_text_word(p, Field::ZoneId)?;
        let typ = get_text_type(p, Field::GroupId)?;
        let scene = get_text_word(p, Field::SceneId)?;
        let token = get_text(p, Field::OriginToken)?;
        let dsuid = get_text(p, Field::OriginDsuid)?;
        let origin = get_text(p, Field::CallOrigin)?;
        let action = Action::new(typ, scene);
        let group = Group::group_id_from_scene_id(scene);
        let value = Value::from_action(action, group);
        Ok(Event { name, zone, typ, scene, token, dsuid, origin, action, value, group })
    }

    /// The same event, addressed to another sub-group.
    pub fn for_group(&self, group: usize) -> (r: Event)
        ensures
            r@ == (EventView { group, ..self@ }),
    {
        let mut e = self.clone();
        e.group = group;
        e
    }

    /// The same event with another state.
    pub fn with_value(self, value: Value) -> (r: Event)
        ensures
            r@ == (EventView { value, ..self@ }),
    {
        let mut e = self;
        e.value = value;
        e
    }
}

/// A run of JSON objects read as events; the first that fails decides.
pub open spec fn events_of(items: Seq<JsonView>) -> Result<Seq<EventView>, Error>
    decreases items.len(),
{
    if items.len() == 0 {
        Ok(Seq::empty())
    } else {
        match events_of(items.drop_last()) {
            Ok(front) => match event_of(items.last()) {
                Ok(x) => Ok(front.push(x)),
                Err(e) => Err(e),
            },
            Err(e) => Err(e),
        }
    }
}

/// Once a front part of a run of events fails, the whole run fails the same
/// way.
pub proof fn failed_event(items: Seq<JsonView>, k: int)
    requires
        0 <= k <= items.len(),
        events_of(items.take(k)) is Err,
    ensures
        events_of(items) == events_of(items.take(k)),
    decreases items.len(),
{
    if k == items.len() {
        assert(items.take(k) =~= items);
    } else {
        assert(items.drop_last().take(k) =~= items.take(k));
        failed_event(items.drop_last(), k);
    }
}

/// Reads every element of an array as a event.
pub fn read_events(items: &Vec<Json>) -> (r: Result<Vec<Event>, Error>)
    ensures
        match r {
            Ok(out) => events_of(views(items@)) == Ok::<Seq<EventView>, Error>(views(out@)),
            Err(e) => events_of(views(items@)) == Err::<Seq<EventView>, Error>(e),
        },
{
    let ghost all = views(items@);
    let mut out: Vec<Event> = Vec::new();
    let mut i: usize = 0;
    proof {
        assert(all.take(0) =~= Seq::<JsonView>::empty());
        assert(views(out@) =~= Seq::<EventView>::empty());
    }
    while i < items.len()
        invariant
            i <= items.len(),
            all == views(items@),
            events_of(all.take(i as int)) == Ok::<Seq<EventView>, Error>(views(out@)),
        decreases items.len() - i,
    {
        proof {
            assert(all.take(i + 1).drop_last() =~= all.take(i as int));
            assert(all.take(i + 1).last() == items@[i as int]@);
        }
        match Event::from_json(&items[i]) {
            Ok(x) => {
                proof {
                    views_push(out@, x);
                }
                out.push(x);
            },
            Err(e) => {
                proof {
                    assert(events_of(all.take(i + 1)) == Err::<Seq<EventView>, Error>(e));
                    failed_event(all, i + 1);
                }
                return Err(e);
            },
        }
        i = i + 1;
    }
    proof {
        assert(all.take(items@.len() as int) =~= all);
    }
    Ok(out)
}

/// The events in the payload of a reply to a poll.
pub open spec fn events_in_payload(payload: JsonView) -> Result<Seq<EventView>, Error> {
    match list_field(payload, Field::Events) {
        Ok(items) => events_of(items),
        Err(e) => Err(e),
    }
}

/// The events in a reply to a poll.
pub open spec fn events_in(reply: ReplyView) -> Result<Seq<EventView>, Error> {
    match payload_of(reply) {
        Ok(p) => events_in_payload(p),
        Err(e) => Err(e),
    }
}

/// What a poll delivers: the events of a good reply, and nothing where the
/// poll failed or the reply cannot be read.
pub open spec fn batch_of(reply: ReplyView) -> Seq<EventView> {
    match events_in(reply) {
        Ok(events) => events,
        Err(_) => Seq::empty(),
    }
}

/// Whether an event carries the action that its scene means on a group of
/// its type.
pub open spec fn carries_its_action(event: EventView) -> bool {
    event.action == action_from_scene(event.typ, event.scene)
}

/// Every event that is read carries the action decoded from its type and
/// scene, the sub-group that the scene addresses, and the state that the
/// action leaves behind.
pub proof fn read_events_are_decoded(items: Seq<JsonView>)
    requires
        events_of(items) is Ok,
    ensures
        events_of(items)->Ok_0.len() == items.len(),
        forall|i: int|
            0 <= i < items.len() ==> carries_its_action(#[trigger] events_of(items)->Ok_0[i])
                && events_of(items)->Ok_0[i].group == group_id_from_scene(
                events_of(items)->Ok_0[i].scene,
            ) && events_of(items)->Ok_0[i].value == value_from_action(
                events_of(items)->Ok_0[i].action,
            ),
    decreases items.len(),
{
    if items.len() > 0 {
        let front = items.drop_last();
        read_events_are_decoded(front);
        let all = events_of(items)->Ok_0;
        assert forall|i: int| 0 <= i < items.len() implies carries_its_action(#[trigger] all[i])
            && all[i].group == group_id_from_scene(all[i].scene) && all[i].value
            == value_from_action(all[i].action) by {
            if i < front.len() {
                assert(all[i] == events_of(front)->Ok_0[i]);
            }
        }
    }
}

/// Every event of a poll carries the action decoded from its type and
/// scene.
pub proof fn polled_events_carry_their_action(reply: ReplyView)
    ensures
        forall|i: int|
            0 <= i < batch_of(reply).len() ==> carries_its_action(#[trigger] batch_of(reply)[i]),
{
    if events_in(reply) is Ok {
        let p = payload_of(reply)->Ok_0;
        let items = list_field(p, Field::Events)->Ok_0;
        read_events_are_decoded(items);
    }
}

} // verus!
