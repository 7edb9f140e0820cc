//! The calls of the server, one by one.

use vstd::prelude::*;

use crate::action::{Action, action_to_scene};
use crate::api::{one_param, RawApi, signed, three_params, two_params};
use crate::decode::{
    field_of, flag_field, get_field, get_flag, get_list, get_number, get_text, get_word_field,
    get_words, list_field, number_field, text_field, word_field, words_field, wrong_type,
};
use crate::error::{Error, Fault, Field};
use crate::event::{batch_of, Event, events_in_payload, EventView, read_events};
use crate::json::Json;
use crate::kind::{code_of_type, Type};
use crate::model::{Circut, CircutView, Device, DeviceView, SceneMode, Zone, ZoneView};
use crate::request::{payload_of, Reply, ReplyView, Request, RequestView};
use crate::text::{decimal, decimal_text};
use crate::value::{
    angle_raw, denormalize_angle, denormalize_opening, normalize_opening, opening_level,
    opening_raw,
};
use crate::views::views;
use crate::wire::{
    circuts_of, devices_of, read_circuts, read_devices, read_zones, scene_mode_of, zones_of,
};

verus! {

/// The offset under which a shade reports and takes its opening.
pub const OPENING_OFFSET: u64 = 2;

/// The offset under which a shade reports and takes its tilt.
pub const ANGLE_OFFSET: u64 = 4;

/// The number under which this client subscribes to events.
pub const SUBSCRIPTION: usize = 911;

/// How long the server holds a poll, in milliseconds.
pub const POLL_TIMEOUT: usize = 3000;

/// The request that subscribes to scene calls.
pub open spec fn subscription_of(token: Seq<char>) -> RequestView {
    signed(
        "event/subscribe"@,
        seq![("name"@, "callScene"@), ("subscriptionID"@, decimal_text(SUBSCRIPTION as nat))],
        token,
    )
}

/// The request that waits for events.
pub open spec fn poll_of(token: Seq<char>) -> RequestView {
    signed(
        "event/get"@,
        seq![
            ("timeout"@, decimal_text(POLL_TIMEOUT as nat)),
            ("subscriptionID"@, decimal_text(SUBSCRIPTION as nat)),
        ],
        token,
    )
}

/// The parameters that address a zone and a group type in it.
pub open spec fn zone_type_params(zone: usize, typ: Type) -> Seq<(Seq<char>, Seq<char>)> {
    seq![
        ("id"@, decimal_text(zone as nat)),
        ("groupID"@, decimal_text(code_of_type(typ) as nat)),
    ]
}

/// The request that calls a scene on a zone and a group type.
pub open spec fn scene_call_of(zone: usize, typ: Type, scene: usize, token: Seq<char>) -> RequestView {
    signed(
        "zone/callScene"@,
        seq![
            ("id"@, decimal_text(zone as nat)),
            ("groupID"@, decimal_text(code_of_type(typ) as nat)),
            ("sceneNumber"@, decimal_text(scene as nat)),
        ],
        token,
    )
}

/// The request that performs an action on a zone, if the action can be
/// called.
pub open spec fn action_call_of(zone: usize, action: Action, token: Seq<char>) -> Result<
    RequestView,
    Error,
> {
    match action_to_scene(action) {
        Some((typ, scene)) => Ok(scene_call_of(zone, typ, scene, token)),
        None => Err(Error::Protocol(Fault::NoScene)),
    }
}

/// The request that reads one output of a device.
pub open spec fn output_query_of(device: Seq<char>, offset: u64, token: Seq<char>) -> RequestView {
    signed(
        "device/getOutputValue"@,
        seq![("dsid"@, device), ("offset"@, decimal_text(offset as nat))],
        token,
    )
}

/// The request that writes one output of a device.
pub open spec fn output_write_of(device: Seq<char>, raw: nat, offset: u64, token: Seq<char>) -> RequestView {
    signed(
        "device/setOutputValue"@,
        seq![
            ("dsid"@, device),
            ("value"@, decimal_text(raw)),
            ("offset"@, decimal_text(offset as nat)),
        ],
        token,
    )
}

/// Whether a reply confirms that its request was carried out.
pub open spec fn confirmed(reply: ReplyView) -> Result<(), Error> {
    match payload_of(reply) {
        Ok(_) => Ok(()),
        Err(e) => Err(e),
    }
}

/// The name in the reply to a query for a name that stands inside a nested
/// result.
pub open spec fn appartement_name_of(reply: ReplyView) -> Result<Seq<char>, Error> {
    match payload_of(reply) {
        Ok(p) => match field_of(p, Field::Payload) {
            Ok(inner) => text_field(inner, Field::Name),
            Err(e) => Err(e),
        },
        Err(e) => Err(e),
    }
}

/// Whether the server says that it took the new name.
pub open spec fn name_taken_of(reply: ReplyView) -> Result<bool, Error> {
    match payload_of(reply) {
        Ok(p) => flag_field(p, Field::Status),
        Err(e) => Err(e),
    }
}

/// The zones in a reply.
pub open spec fn zones_in(reply: ReplyView) -> Result<Seq<ZoneView>, Error> {
    match payload_of(reply) {
        Ok(p) => match list_field(p, Field::Zones) {
            Ok(items) => zones_of(items),
            Err(e) => Err(e),
        },
        Err(e) => Err(e),
    }
}

/// The name of a zone in a reply.
pub open spec fn zone_name_of(reply: ReplyView) -> Result<Seq<char>, Error> {
    match payload_of(reply) {
        Ok(p) => text_field(p, Field::Name),
        Err(e) => Err(e),
    }
}

/// The devices in a reply: the payload itself is the list.
pub open spec fn devices_in(reply: ReplyView) -> Result<Seq<DeviceView>, Error> {
    match payload_of(reply) {
        Ok(p) => match p.items() {
            Some(items) => devices_of(items),
            None => Err(wrong_type(Field::Payload)),
        },
        Err(e) => Err(e),
    }
}

/// The scene mode in a reply.
pub open spec fn scene_mode_in(reply: ReplyView) -> Result<SceneMode, Error> {
    match payload_of(reply) {
        Ok(p) => scene_mode_of(p),
        Err(e) => Err(e),
    }
}

/// The meters in a reply.
pub open spec fn circuits_in(reply: ReplyView) -> Result<Seq<CircutView>, Error> {
    match payload_of(reply) {
        Ok(p) => match list_field(p, Field::Circuits) {
            Ok(items) => circuts_of(items),
            Err(e) => Err(e),
        },
        Err(e) => Err(e),
    }
}

/// The reachable scenes in a reply.
pub open spec fn scenes_in(reply: ReplyView) -> Result<Seq<usize>, Error> {
    match payload_of(reply) {
        Ok(p) => words_field(p, Field::ReachableScenes),
        Err(e) => Err(e),
    }
}

/// The scene that was called last, in a reply.
pub open spec fn last_scene_in(reply: ReplyView) -> Result<usize, Error> {
    match payload_of(reply) {
        Ok(p) => word_field(p, Field::Scene),
        Err(e) => Err(e),
    }
}

/// The raw value of the output `offset` in a reply. A reply that speaks of
/// another output is a fault of its own kind; a value beyond 16 bits is no
/// output value.
pub open spec fn output_in(reply: ReplyView, offset: u64) -> Result<u16, Error> {
    match payload_of(reply) {
        Ok(p) => match number_field(p, Field::Offset) {
            Ok(echo) => if echo != offset {
                Err(Error::Protocol(Fault::Offset))
            } else {
                match number_field(p, Field::Value) {
                    Ok(raw) => if raw <= 65535 {
                        Ok(raw as u16)
                    } else {
                        Err(wrong_type(Field::Value))
                    },
                    Err(e) => Err(e),
                }
            },
            Err(e) => Err(e),
        },
        Err(e) => Err(e),
    }
}

/// The closing amount of a shade in a reply.
pub open spec fn opening_in(reply: ReplyView) -> Result<u16, Error> {
    match output_in(reply, OPENING_OFFSET) {
        Ok(raw) => Ok(opening_level(raw)),
        Err(e) => Err(e),
    }
}

/// The tilt of a shade in a reply.
pub open spec fn angle_in(reply: ReplyView) -> Result<u16, Error> {
    output_in(reply, ANGLE_OFFSET)
}

/// Reads the raw value of one output from a reply.
pub fn read_output(reply: Reply, offset: u64) -> (r: Result<u16, Error>)
    ensures
        r == output_in(reply@, offset),
{
    let p = reply.payload()?;
    let echo = get_number(&p, Field::Offset)?;
    if echo != offset {
        return Err(Error::Protocol(Fault::Offset));
    }
    let raw = get_number(&p, Field::Value)?;
    if raw <= 65535 {
        Ok(raw as u16)
    } else {
        Err(Error::Protocol(Fault::WrongType(Field::Value)))
    }
}

impl RawApi {
    /// The request that asks for the name of the installation.
    pub fn get_appartement_name_request(&self) -> (r: Request)
        ensures
            r@ == signed("apartment/getName"@, Seq::empty(), self@.token),
    {
        self.generic_request("apartment/getName", None)
    }

    /// The name of the installation, from the reply.
    pub fn get_appartement_name(&self, reply: Reply) -> (r: Result<String, Error>)
        ensures
            match r {
                Ok(s) => appartement_name_of(reply@) == Ok::<Seq<char>, Error>(s@),
                Err(e) => appartement_name_of(reply@) == Err::<Seq<char>, Error>(e),
            },
    {
        let p = reply.payload()?;
        let inner = get_field(&p, Field::Payload)?;
        get_text(inner, Field::Name)
    }

    /// The request that gives the installation a new name. The server takes
    /// it under the path of the query for the name.
    pub fn set_appartement_name_request(&self, new_name: &str) -> (r: Request)
        ensures
            r@ == signed("apartment/getName"@, seq![("newName"@, new_name@)], self@.token),
    {
        self.generic_request("apartment/getName", Some(one_param("newName", new_name.to_string())))
    }

    /// Whether the new name was taken, from the reply.
    pub fn set_appartement_name(&self, reply: Reply) -> (r: Result<bool, Error>)
        ensures
            r == name_taken_of(reply@),
    {
        let p = reply.payload()?;
        get_flag(&p, Field::Status)
    }

    /// The request that asks for all zones and the group types in them.
    pub fn get_zones_request(&self) -> (r: Request)
        ensures
            r@ == signed("apartment/getReachableGroups"@, Seq::empty(), self@.token),
    {
        self.generic_request("apartment/getReachableGroups", None)
    }

    /// All zones, from the reply. They come without groups.
    pub fn get_zones(&self, reply: Reply) -> (r: Result<Vec<Zone>, Error>)
        ensures
            match r {
                Ok(zones) => zones_in(reply@) == Ok::<Seq<ZoneView>, Error>(views(zones@)),
                Err(e) => zones_in(reply@) == Err::<Seq<ZoneView>, Error>(e),
            },
    {
        let p = reply.payload()?;
        let items = get_list(&p, Field::Zones)?;
        read_zones(items)
    }

    /// The request that asks for the name of a zone.
    pub fn get_zone_name_request(&self, id: usize) -> (r: Request)
        ensures
            r@ == signed("zone/getName"@, seq![("id"@, decimal_text(id as nat))], self@.token),
    {
        self.generic_request("zone/getName", Some(one_param("id", decimal(id))))
    }

    /// The name of a zone, from the reply.
    pub fn get_zone_name(&self, reply: Reply) -> (r: Result<String, Error>)
        ensures
            match r {
                Ok(s) => zone_name_of(reply@) == Ok::<Seq<char>, Error>(s@),
                Err(e) => zone_name_of(reply@) == Err::<Seq<char>, Error>(e),
            },
    {
        let p = reply.payload()?;
        get_text(&p, Field::Name)
    }

    /// The request that asks for all devices of the installation.
    pub fn get_devices_request(&self) -> (r: Request)
        ensures
            r@ == signed("apartment/getDevices"@, Seq::empty(), self@.token),
    {
        self.generic_request("apartment/getDevices", None)
    }

    /// All devices, from the reply.
    pub fn get_devices(&self, reply: Reply) -> (r: Result<Vec<Device>, Error>)
        ensures
            match r {
                Ok(devices) => devices_in(reply@) == Ok::<Seq<DeviceView>, Error>(views(devices@)),
                Err(e) => devices_in(reply@) == Err::<Seq<DeviceView>, Error>(e),
            },
    {
        let p = reply.payload()?;
        match p.as_array() {
            Some(items) => read_devices(items),
            None => Err(Error::Protocol(Fault::WrongType(Field::Payload))),
        }
    }

    /// The request that asks how a device treats a scene.
    pub fn get_device_scene_mode_request(&self, device: &str, scene_id: usize) -> (r: Request)
        ensures
            r@ == signed(
                "device/getSceneMode"@,
                seq![("dsid"@, device@), ("sceneID"@, decimal_text(scene_id as nat))],
                self@.token,
            ),
    {
        self.generic_request(
            "device/getSceneMode",
            Some(two_params("dsid", device.to_string(), "sceneID", decimal(scene_id))),
        )
    }

    /// How a device treats a scene, from the reply.
    pub fn get_device_scene_mode(&self, reply: Reply) -> (r: Result<SceneMode, Error>)
        ensures
            r == scene_mode_in(reply@),
    {
        let p = reply.payload()?;
        SceneMode::from_json(&p)
    }

    /// The request that asks for all meters.
    pub fn get_circuits_request(&self) -> (r: Request)
        ensures
            r@ == signed("apartment/getCircuits"@, Seq::empty(), self@.token),
    {
        self.generic_request("apartment/getCircuits", None)
    }

    /// All meters, from the reply.
    pub fn get_circuits(&self, reply: Reply) -> (r: Result<Vec<Circut>, Error>)
        ensures
            match r {
                Ok(circuits) => circuits_in(reply@) == Ok::<Seq<CircutView>, Error>(
                    views(circuits@),
                ),
                Err(e) => circuits_in(reply@) == Err::<Seq<CircutView>, Error>(e),
            },
    {
        let p = reply.payload()?;
        let items = get_list(&p, Field::Circuits)?;
        read_circuts(items)
    }

    /// The request that asks which scenes a zone can reach for a group type.
    pub fn get_scenes_request(&self, zone: usize, typ: Type) -> (r: Request)
        ensures
            r@ == signed("zone/getReachableScenes"@, zone_type_params(zone, typ), self@.token),
    {
        self.generic_request(
            "zone/getReachableScenes",
            Some(two_params("id", decimal(zone), "groupID", decimal(typ.code() as usize))),
        )
    }

    /// The reachable scenes, from the reply.
    pub fn get_scenes(&self, reply: Reply) -> (r: Result<Vec<usize>, Error>)
        ensures
            match r {
                Ok(scenes) => scenes_in(reply@) == Ok::<Seq<usize>, Error>(scenes@),
                Err(e) => scenes_in(reply@) == Err::<Seq<usize>, Error>(e),
            },
    {
        let p = reply.payload()?;
        get_words(&p, Field::ReachableScenes)
    }

    /// The request that asks which scene was called last on a zone and
    /// group type.
    pub fn get_last_called_scene_request(&self, zone: usize, typ: Type) -> (r: Request)
        ensures
            r@ == signed("zone/getLastCalledScene"@, zone_type_params(zone, typ), self@.token),
    {
        self.generic_request(
            "zone/getLastCalledScene",
            Some(two_params("id", decimal(zone), "groupID", decimal(typ.code() as usize))),
        )
    }

    /// The scene that was called last, from the reply.
    pub fn get_last_called_scene(&self, reply: Reply) -> (r: Result<usize, Error>)
        ensures
            r == last_scene_in(reply@),
    {
        let p = reply.payload()?;
        get_word_field(&p, Field::Scene)
    }

    /// The request that calls a scene on a zone and group type.
    pub fn call_scene(&self, zone: usize, typ: Type, scene: usize) -> (r: Request)
        ensures
            r@ == scene_call_of(zone, typ, scene, self@.token),
    {
        self.generic_request(
            "zone/callScene",
            Some(
                three_params(
                    "id",
                    decimal(zone),
                    "groupID",
                    decimal(typ.code() as usize),
                    "sceneNumber",
                    decimal(scene),
                ),
            ),
        )
    }

    /// The request that performs an action on a zone. An action without a
    /// scene number cannot be called.
    pub fn call_action(&self, zone: usize, action: Action) -> (r: Result<Request, Error>)
        ensures
            match r {
                Ok(request) => action_call_of(zone, action, self@.token) == Ok::<
                    RequestView,
                    Error,
                >(request@),
                Err(e) => action_call_of(zone, action, self@.token) == Err::<RequestView, Error>(e),
            },
    {
        match action.to_scene_type() {
            Some((typ, scene)) => Ok(self.call_scene(zone, typ, scene)),
            None => Err(Error::Protocol(Fault::NoScene)),
        }
    }

    /// Checks the reply to a request that asks for nothing but to be done.
    pub fn confirm(&self, reply: Reply) -> (r: Result<(), Error>)
        ensures
            r == confirmed(reply@),
    {
        match reply.payload() {
            Ok(_) => Ok(()),
            Err(e) => Err(e),
        }
    }

    /// The request that reads how far a shade is open.
    pub fn get_shadow_device_open_request(&self, device: &str) -> (r: Request)
        ensures
            r@ == output_query_of(device@, OPENING_OFFSET, self@.token),
    {
        self.generic_request(
            "device/getOutputValue",
            Some(two_params("dsid", device.to_string(), "offset", decimal(OPENING_OFFSET as usize))),
        )
    }

    /// The closing amount of a shade, from the reply.
    pub fn get_shadow_device_open(&self, reply: Reply) -> (r: Result<u16, Error>)
        ensures
            r == opening_in(reply@),
    {
        let raw = read_output(reply, OPENING_OFFSET)?;
        Ok(normalize_opening(raw))
    }

    /// The request that closes a shade to the given amount.
    pub fn set_shadow_device_open(&self, device: &str, value: u16) -> (r: Request)
        ensures
            r@ == output_write_of(device@, opening_raw(value) as nat, OPENING_OFFSET, self@.token),
    {
        self.generic_request(
            "device/setOutputValue",
            Some(
                three_params(
                    "dsid",
                    device.to_string(),
                    "value",
                    decimal(denormalize_opening(value) as usize),
                    "offset",
                    decimal(OPENING_OFFSET as usize),
                ),
            ),
        )
    }

    /// The request that reads the tilt of a shade.
    pub fn get_shadow_device_angle_request(&self, device: &str) -> (r: Request)
        ensures
            r@ == output_query_of(device@, ANGLE_OFFSET, self@.token),
    {
        self.generic_request(
            "device/getOutputValue",
            Some(two_params("dsid", device.to_string(), "offset", decimal(ANGLE_OFFSET as usize))),
        )
    }

    /// The tilt of a shade, from the reply.
    pub fn get_shadow_device_angle(&self, reply: Reply) -> (r: Result<u16, Error>)
        ensures
            r == angle_in(reply@),
    {
        read_output(reply, ANGLE_OFFSET)
    }

    /// The request that tilts a shade to the given level.
    pub fn set_shadow_device_angle(&self, device: &str, value: u16) -> (r: Request)
        ensures
            r@ == output_write_of(device@, angle_raw(value) as nat, ANGLE_OFFSET, self@.token),
    {
        self.generic_request(
            "device/setOutputValue",
            Some(
                three_params(
                    "dsid",
                    device.to_string(),
                    "value",
                    decimal(denormalize_angle(value) as usize),
                    "offset",
                    decimal(ANGLE_OFFSET as usize),
                ),
            ),
        )
    }

    /// The request that subscribes this client to scene calls.
    pub fn new_event_channel_request(&self) -> (r: Request)
        ensures
            r@ == subscription_of(self@.token),
    {
        self.generic_request(
            "event/subscribe",
            Some(
                two_params(
                    "name",
                    "callScene".to_string(),
                    "subscriptionID",
                    decimal(SUBSCRIPTION),
                ),
            ),
        )
    }

    /// The request that waits for the next events of the subscription. The
    /// server holds it for up to three seconds.
    pub fn poll_request(&self) -> (r: Request)
        ensures
            r@ == poll_of(self@.token),
    {
        self.generic_request(
            "event/get",
            Some(
                two_params(
                    "timeout",
                    decimal(POLL_TIMEOUT),
                    "subscriptionID",
                    decimal(SUBSCRIPTION),
                ),
            ),
        )
    }

    /// Opens the event channel from the reply to the subscription: where the
    /// server took the subscription, polling can begin with the request
    /// that is returned.
    pub fn new_event_channel(&self, reply: Reply) -> (r: Result<Request, Error>)
        ensures
            match r {
                Ok(request) => confirmed(reply@) is Ok && request@ == poll_of(self@.token),
                Err(e) => confirmed(reply@) == Err::<(), Error>(e),
            },
    {
        match reply.payload() {
            Ok(_) => Ok(self.poll_request()),
            Err(e) => Err(e),
        }
    }

    /// The events in the payload of a reply to a poll.
    pub fn extract_events(&self, json: &Json) -> (r: Result<Vec<Event>, Error>)
        ensures
            match r {
                Ok(events) => events_in_payload(json@) == Ok::<Seq<EventView>, Error>(
                    views(events@),
                ),
                Err(e) => events_in_payload(json@) == Err::<Seq<EventView>, Error>(e),
            },
    {
        let items = get_list(json, Field::Events)?;
        read_events(items)
    }

    /// What a poll delivers. A poll that failed and a reply that cannot be
    /// read deliver nothing; polling goes on.
    pub fn poll_events(&self, reply: Reply) -> (r: Vec<Event>)
        ensures
            views(r@) == batch_of(reply@),
    {
        let events = match reply.payload() {
            Ok(p) => self.extract_events(&p),
            Err(e) => Err(e),
        };
        match events {
            Ok(events) => events,
            Err(_) => {
                let none: Vec<Event> = Vec::new();
                assert(views(none@) =~= Seq::<EventView>::empty());
                none
            },
        }
    }
}

} // verus!
