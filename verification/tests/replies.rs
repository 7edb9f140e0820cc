use dss::{
    Action, DeviceType, Error, Fault, Field, Json, Member, Missing, Param, RawApi, Reply, Request,
    Type, Value,
};

fn json(text: &str) -> Json {
    Json::parse(text).unwrap()
}

fn answer(text: &str) -> Reply {
    Reply::Answer(json(text))
}

fn result(text: &str) -> Reply {
    answer(&format!("{{\"ok\":true,\"result\":{}}}", text))
}

fn api() -> RawApi {
    RawApi::connect("10.0.0.2", "dssadmin", "secret", answer(r#"{"ok":true,"result":{"token":"T0K3N"}}"#))
        .unwrap()
}

fn request(path: &str, params: &[(&str, &str)]) -> Request {
    Request {
        path: path.to_string(),
        params: params
            .iter()
            .map(|(n, v)| Param { name: n.to_string(), value: v.to_string() })
            .collect(),
    }
}

fn missing(field: Field) -> Error {
    Error::Protocol(Fault::Missing(field))
}

fn wrong(field: Field) -> Error {
    Error::Protocol(Fault::WrongType(field))
}

#[test]
fn json_lookup_finds_the_first_entry() {
    let j = json(r#"{"a":1,"b":"x","c":[true,null]}"#);
    assert_eq!(j.get("a"), Some(&Json::Number(Some(1))));
    assert_eq!(j.get("b").and_then(|v| v.as_str()), Some("x"));
    assert_eq!(j.get("c").and_then(|v| v.as_array()).map(|a| a.len()), Some(2));
    assert_eq!(j.get("d"), None);
    assert_eq!(Json::Null.get("a"), None);
    let twice = Json::Object(vec![
        Member { key: "k".to_string(), value: Json::Bool(true) },
        Member { key: "k".to_string(), value: Json::Bool(false) },
    ]);
    assert_eq!(twice.get("k"), Some(&Json::Bool(true)));
    assert_eq!(twice.take("k"), Some(Json::Bool(true)));
}

#[test]
fn text_is_parsed_into_a_tree() {
    assert_eq!(Json::parse("null"), Some(Json::Null));
    assert_eq!(Json::parse(" true "), Some(Json::Bool(true)));
    assert_eq!(Json::parse("18446744073709551615"), Some(Json::Number(Some(u64::MAX))));
    assert_eq!(Json::parse("-3"), Some(Json::Number(None)));
    assert_eq!(Json::parse("0.5"), Some(Json::Number(None)));
    assert_eq!(Json::parse(r#""a\u0062""#), Some(Json::Text("ab".to_string())));
    assert_eq!(
        Json::parse(r#"{"a":[1,{"b":null}]}"#),
        Some(Json::Object(vec![Member {
            key: "a".to_string(),
            value: Json::Array(vec![
                Json::Number(Some(1)),
                Json::Object(vec![Member { key: "b".to_string(), value: Json::Null }]),
            ]),
        }]))
    );
    assert_eq!(Json::parse(r#"{"k":1,"k":2}"#).unwrap().get("k"), Some(&Json::Number(Some(2))));
}

#[test]
fn text_that_is_no_json_is_a_failed_reply() {
    for text in ["", "{", "{\"ok\":true", "<html></html>", "{\"ok\":true} x", "nul"] {
        assert_eq!(Json::parse(text), None);
        assert_eq!(Reply::from_text(text), Reply::Failure);
    }
    assert_eq!(Reply::from_text("{}"), Reply::Answer(Json::Object(vec![])));
    assert_eq!(Reply::from_text("{\"ok\":true}").payload(), Ok(Json::Null));
}

#[test]
fn json_values_are_read_by_kind() {
    assert_eq!(json("12").as_u64(), Some(12));
    assert_eq!(json("-1").as_u64(), None);
    assert_eq!(json("1.5").as_u64(), None);
    assert_eq!(json("\"12\"").as_u64(), None);
    assert_eq!(json("true").as_bool(), Some(true));
    assert_eq!(json("0").as_bool(), None);
    assert_eq!(json("\"x\"").as_str(), Some("x"));
    assert_eq!(json("null").as_str(), None);
    assert!(json("{}").as_array().is_none());
}

#[test]
fn login_request_carries_user_and_password() {
    assert_eq!(
        RawApi::login_request("dssadmin", "secret"),
        request("system/login", &[("user", "dssadmin"), ("password", "secret")])
    );
}

#[test]
fn addresses_point_at_the_json_root() {
    assert_eq!(RawApi::address("10.0.0.2", "system/login"), "https://10.0.0.2:8080/json/system/login");
    let a = api();
    assert_eq!(a.url(&a.get_zone_name_request(3)), "https://10.0.0.2:8080/json/zone/getName");
}

#[test]
fn connect_takes_the_token_from_the_reply() {
    let a = api();
    assert_eq!(a.generic_request("x", None), request("x", &[("token", "T0K3N")]));
}

#[test]
fn connect_fails_without_a_token() {
    let c = |reply: Reply| RawApi::connect("h", "u", "p", reply).map(|_| ());
    assert_eq!(c(Reply::Failure), Err(Error::Transport));
    assert_eq!(c(answer(r#"{"ok":true}"#)), Err(missing(Field::Payload)));
    assert_eq!(c(answer(r#"{"ok":true,"result":{}}"#)), Err(missing(Field::Token)));
    assert_eq!(c(answer(r#"{"ok":true,"result":{"token":5}}"#)), Err(wrong(Field::Token)));
    assert_eq!(c(answer(r#"{"result":{"token":"t"}}"#)), Ok(()));
}

#[test]
fn generic_request_puts_the_token_last() {
    let a = api();
    let given = vec![Param { name: "id".to_string(), value: "5".to_string() }];
    assert_eq!(a.generic_request("zone/getName", Some(given)), request("zone/getName", &[("id", "5"), ("token", "T0K3N")]));
}

#[test]
fn payload_is_checked() {
    assert_eq!(Reply::Failure.payload(), Err(Error::Transport));
    assert_eq!(answer(r#"{"result":{}}"#).payload(), Err(missing(Field::Status)));
    assert_eq!(answer(r#"{"ok":"yes"}"#).payload(), Err(wrong(Field::Status)));
    assert_eq!(answer(r#"{"ok":false,"message":"no"}"#).payload(), Err(Error::Protocol(Fault::Refused)));
    assert_eq!(answer(r#"{"ok":true}"#).payload(), Ok(Json::Null));
    assert_eq!(answer(r#"{"ok":true,"result":{"a":1}}"#).payload(), Ok(json(r#"{"a":1}"#)));
    assert_eq!(answer("[]").payload(), Err(missing(Field::Status)));
}

#[test]
fn requests_of_the_queries() {
    let a = api();
    assert_eq!(a.get_appartement_name_request(), request("apartment/getName", &[("token", "T0K3N")]));
    assert_eq!(a.set_appartement_name_request("Home"), request("apartment/getName", &[("newName", "Home"), ("token", "T0K3N")]));
    assert_eq!(a.get_zones_request(), request("apartment/getReachableGroups", &[("token", "T0K3N")]));
    assert_eq!(a.get_zone_name_request(12), request("zone/getName", &[("id", "12"), ("token", "T0K3N")]));
    assert_eq!(a.get_devices_request(), request("apartment/getDevices", &[("token", "T0K3N")]));
    assert_eq!(
        a.get_device_scene_mode_request("abc", 2),
        request("device/getSceneMode", &[("dsid", "abc"), ("sceneID", "2"), ("token", "T0K3N")])
    );
    assert_eq!(a.get_circuits_request(), request("apartment/getCircuits", &[("token", "T0K3N")]));
    assert_eq!(
        a.get_scenes_request(3, Type::Shadow),
        request("zone/getReachableScenes", &[("id", "3"), ("groupID", "2"), ("token", "T0K3N")])
    );
    assert_eq!(
        a.get_last_called_scene_request(3, Type::TemperatureControl),
        request("zone/getLastCalledScene", &[("id", "3"), ("groupID", "48"), ("token", "T0K3N")])
    );
    assert_eq!(
        a.get_shadow_device_open_request("abc"),
        request("device/getOutputValue", &[("dsid", "abc"), ("offset", "2"), ("token", "T0K3N")])
    );
    assert_eq!(
        a.get_shadow_device_angle_request("abc"),
        request("device/getOutputValue", &[("dsid", "abc"), ("offset", "4"), ("token", "T0K3N")])
    );
    assert_eq!(
        a.new_event_channel_request(),
        request("event/subscribe", &[("name", "callScene"), ("subscriptionID", "911"), ("token", "T0K3N")])
    );
    assert_eq!(
        a.poll_request(),
        request("event/get", &[("timeout", "3000"), ("subscriptionID", "911"), ("token", "T0K3N")])
    );
}

#[test]
fn requests_of_the_commands() {
    let a = api();
    assert_eq!(
        a.call_scene(3, Type::Light, 5),
        request("zone/callScene", &[("id", "3"), ("groupID", "1"), ("sceneNumber", "5"), ("token", "T0K3N")])
    );
    assert_eq!(a.call_action(3, Action::AllLightOn), Ok(a.call_scene(3, Type::Light, 5)));
    assert_eq!(a.call_action(3, Action::ShadowStop(2)), Ok(a.call_scene(3, Type::Shadow, 53)));
    assert_eq!(a.call_action(3, Action::Unknown), Err(Error::Protocol(Fault::NoScene)));
    assert_eq!(a.call_action(3, Action::LightOn(usize::MAX)), Err(Error::Protocol(Fault::NoScene)));
    assert_eq!(
        a.set_shadow_device_open("abc", 0),
        request("device/setOutputValue", &[("dsid", "abc"), ("value", "65535"), ("offset", "2"), ("token", "T0K3N")])
    );
    assert_eq!(
        a.set_shadow_device_open("abc", 32768),
        request("device/setOutputValue", &[("dsid", "abc"), ("value", "32767"), ("offset", "2"), ("token", "T0K3N")])
    );
    assert_eq!(
        a.set_shadow_device_angle("abc", 19660),
        request("device/setOutputValue", &[("dsid", "abc"), ("value", "76"), ("offset", "4"), ("token", "T0K3N")])
    );
    assert_eq!(
        a.set_shadow_device_angle("abc", 65535),
        request("device/setOutputValue", &[("dsid", "abc"), ("value", "255"), ("offset", "4"), ("token", "T0K3N")])
    );
}

#[test]
fn commands_are_confirmed() {
    let a = api();
    assert_eq!(a.confirm(answer(r#"{"ok":true}"#)), Ok(()));
    assert_eq!(a.confirm(answer(r#"{"ok":false}"#)), Err(Error::Protocol(Fault::Refused)));
    assert_eq!(a.confirm(Reply::Failure), Err(Error::Transport));
    assert_eq!(a.new_event_channel(answer(r#"{"ok":true}"#)), Ok(a.poll_request()));
    assert_eq!(a.new_event_channel(answer(r#"{"ok":false}"#)), Err(Error::Protocol(Fault::Refused)));
}

#[test]
fn names_are_read() {
    let a = api();
    assert_eq!(a.get_appartement_name(result(r#"{"result":{"name":"Home"}}"#)), Ok("Home".to_string()));
    assert_eq!(a.get_appartement_name(result(r#"{"name":"Home"}"#)), Err(missing(Field::Payload)));
    assert_eq!(a.get_appartement_name(result(r#"{"result":{"name":3}}"#)), Err(wrong(Field::Name)));
    assert_eq!(a.get_zone_name(result(r#"{"name":"Kitchen"}"#)), Ok("Kitchen".to_string()));
    assert_eq!(a.get_zone_name(result("{}")), Err(missing(Field::Name)));
    assert_eq!(a.get_zone_name(result(r#"{"name":null}"#)), Err(wrong(Field::Name)));
    assert_eq!(a.get_zone_name(Reply::Failure), Err(Error::Transport));
    assert_eq!(a.set_appartement_name(result(r#"{"ok":true}"#)), Ok(true));
    assert_eq!(a.set_appartement_name(result(r#"{"ok":false}"#)), Ok(false));
    assert_eq!(a.set_appartement_name(result("{}")), Err(missing(Field::Status)));
}

#[test]
fn zones_are_read_without_groups() {
    let a = api();
    let zones = a
        .get_zones(result(r#"{"zones":[{"zoneID":0,"name":"","groups":[1,2]},{"zoneID":2,"name":"Kitchen","groups":[1],"extra":5}]}"#))
        .unwrap();
    assert_eq!(zones.len(), 2);
    assert_eq!((zones[0].id, zones[0].name.as_str(), zones[0].types.clone()), (0, "", vec![Type::Light, Type::Shadow]));
    assert_eq!((zones[1].id, zones[1].name.as_str(), zones[1].types.clone()), (2, "Kitchen", vec![Type::Light]));
    assert!(zones[1].groups.is_empty());
}

#[test]
fn zones_that_cannot_be_read_name_the_field() {
    let a = api();
    let z = |text: &str| a.get_zones(result(text)).map(|_| ());
    assert_eq!(z("{}"), Err(missing(Field::Zones)));
    assert_eq!(z(r#"{"zones":{}}"#), Err(wrong(Field::Zones)));
    assert_eq!(z(r#"{"zones":[{"name":"a","groups":[]}]}"#), Err(missing(Field::ZoneId)));
    assert_eq!(z(r#"{"zones":[{"zoneID":"1","name":"a","groups":[]}]}"#), Err(wrong(Field::ZoneId)));
    assert_eq!(z(r#"{"zones":[{"zoneID":1,"groups":[]}]}"#), Err(missing(Field::Name)));
    assert_eq!(z(r#"{"zones":[{"zoneID":1,"name":"a"}]}"#), Err(missing(Field::Groups)));
    assert_eq!(z(r#"{"zones":[{"zoneID":1,"name":"a","groups":[6]}]}"#), Err(wrong(Field::Groups)));
    assert_eq!(z(r#"{"zones":[{"zoneID":1,"name":"a","groups":[256]}]}"#), Err(wrong(Field::Groups)));
    assert_eq!(z(r#"{"zones":[{"zoneID":1,"name":"a","groups":[1]},{"zoneID":2}]}"#), Err(missing(Field::Name)));
    assert_eq!(z(r#"{"zones":[]}"#), Ok(()));
}

#[test]
fn devices_are_read() {
    let a = api();
    let devices = a
        .get_devices(result(
            r#"[{"id":"d1","name":"Lamp","zoneID":2,"isPresent":true,"outputMode":22,"groups":[1],"buttonActiveGroup":1},
                {"id":"d2","name":"Blind","zoneID":3,"isPresent":false,"outputMode":33,"groups":[2,8],"buttonActiveGroup":2}]"#,
        ))
        .unwrap();
    assert_eq!(devices.len(), 2);
    assert_eq!(devices[0].id, "d1");
    assert_eq!(devices[0].name, "Lamp");
    assert_eq!(devices[0].zone_id, 2);
    assert!(devices[0].present);
    assert_eq!(devices[0].device_type, DeviceType::Light);
    assert_eq!(devices[0].types, vec![Type::Light]);
    assert_eq!(devices[0].button_type, Type::Light);
    assert_eq!(devices[1].device_type, DeviceType::Shadow);
    assert_eq!(devices[1].types, vec![Type::Shadow, Type::Joker]);
    assert!(!devices[1].present);
}

#[test]
fn devices_that_cannot_be_read_name_the_field() {
    let a = api();
    let d = |text: &str| a.get_devices(result(text)).map(|_| ());
    assert_eq!(d("{}"), Err(wrong(Field::Payload)));
    assert_eq!(a.get_devices(answer(r#"{"ok":true}"#)).map(|_| ()), Err(wrong(Field::Payload)));
    assert_eq!(d(r#"[{"name":"n"}]"#), Err(missing(Field::Id)));
    assert_eq!(d(r#"[{"id":"d","name":"n","zoneID":1,"isPresent":1,"outputMode":0,"groups":[],"buttonActiveGroup":1}]"#), Err(wrong(Field::IsPresent)));
    assert_eq!(d(r#"[{"id":"d","name":"n","zoneID":1,"isPresent":true,"groups":[],"buttonActiveGroup":1}]"#), Err(missing(Field::OutputMode)));
    assert_eq!(d(r#"[{"id":"d","name":"n","zoneID":1,"isPresent":true,"outputMode":0,"groups":[],"buttonActiveGroup":7}]"#), Err(wrong(Field::ButtonActiveGroup)));
    assert_eq!(d("[]"), Ok(()));
}

#[test]
fn circuits_and_scene_modes_are_read() {
    let a = api();
    let circuits = a
        .get_circuits(result(r#"{"circuits":[{"dsid":"m1","name":"Meter","isPresent":true,"isValid":false}]}"#))
        .unwrap();
    assert_eq!(circuits.len(), 1);
    assert_eq!((circuits[0].id.as_str(), circuits[0].name.as_str(), circuits[0].present, circuits[0].valid), ("m1", "Meter", true, false));
    assert_eq!(a.get_circuits(result("{}")).map(|_| ()), Err(missing(Field::Circuits)));
    assert_eq!(a.get_circuits(result(r#"{"circuits":[{"dsid":"m1","name":"x","isPresent":true}]}"#)).map(|_| ()), Err(missing(Field::IsValid)));
    let mode = a
        .get_device_scene_mode(result(r#"{"sceneID":2,"dontCare":true,"localPrio":false,"specialMode":false,"flashMode":true,"ledconIndex":3}"#))
        .unwrap();
    assert_eq!((mode.scene, mode.dont_care, mode.local_prio, mode.special_mode, mode.flash_mode, mode.led_con_index), (2, true, false, false, true, 3));
    assert_eq!(a.get_device_scene_mode(result(r#"{"sceneID":2}"#)), Err(missing(Field::DontCare)));
    assert_eq!(a.get_device_scene_mode(Reply::Failure), Err(Error::Transport));
}

#[test]
fn scenes_are_read() {
    let a = api();
    assert_eq!(a.get_scenes(result(r#"{"reachableScenes":[0,5,17]}"#)), Ok(vec![0, 5, 17]));
    assert_eq!(a.get_scenes(result(r#"{"reachableScenes":[]}"#)), Ok(vec![]));
    assert_eq!(a.get_scenes(result("{}")), Err(missing(Field::ReachableScenes)));
    assert_eq!(a.get_scenes(result(r#"{"reachableScenes":[0,-1]}"#)), Err(wrong(Field::ReachableScenes)));
    assert_eq!(a.get_last_called_scene(result(r#"{"scene":5}"#)), Ok(5));
    assert_eq!(a.get_last_called_scene(result(r#"{"scene":"5"}"#)), Err(wrong(Field::Scene)));
    assert_eq!(a.get_last_called_scene(result("{}")), Err(missing(Field::Scene)));
    assert_eq!(a.get_last_called_scene(answer(r#"{"ok":false}"#)), Err(Error::Protocol(Fault::Refused)));
}

#[test]
fn shade_outputs_are_read_and_normalized() {
    let a = api();
    assert_eq!(a.get_shadow_device_open(result(r#"{"offset":2,"value":0}"#)), Ok(65535));
    assert_eq!(a.get_shadow_device_open(result(r#"{"offset":2,"value":65535}"#)), Ok(0));
    assert_eq!(a.get_shadow_device_open(result(r#"{"offset":2,"value":16384}"#)), Ok(49151));
    assert_eq!(a.get_shadow_device_angle(result(r#"{"offset":4,"value":0}"#)), Ok(0));
    assert_eq!(a.get_shadow_device_angle(result(r#"{"offset":4,"value":65535}"#)), Ok(65535));
    assert_eq!(a.get_shadow_device_angle(result(r#"{"offset":4,"value":300}"#)), Ok(300));
}

#[test]
fn a_wrong_offset_is_told_apart_from_a_wrong_value() {
    let a = api();
    assert_eq!(a.get_shadow_device_open(result(r#"{"offset":4,"value":0}"#)), Err(Error::Protocol(Fault::Offset)));
    assert_eq!(a.get_shadow_device_angle(result(r#"{"offset":2,"value":0}"#)), Err(Error::Protocol(Fault::Offset)));
    assert_eq!(a.get_shadow_device_open(result(r#"{"value":0}"#)), Err(missing(Field::Offset)));
    assert_eq!(a.get_shadow_device_open(result(r#"{"offset":"2","value":0}"#)), Err(wrong(Field::Offset)));
    assert_eq!(a.get_shadow_device_open(result(r#"{"offset":2}"#)), Err(missing(Field::Value)));
    assert_eq!(a.get_shadow_device_open(result(r#"{"offset":2,"value":"1"}"#)), Err(wrong(Field::Value)));
    assert_eq!(a.get_shadow_device_open(result(r#"{"offset":2,"value":65536}"#)), Err(wrong(Field::Value)));
    assert_eq!(a.get_shadow_device_open(result(r#"{"offset":4,"value":65536}"#)), Err(Error::Protocol(Fault::Offset)));
    assert_eq!(a.get_shadow_device_open(Reply::Failure), Err(Error::Transport));
}

#[test]
fn events_are_read_and_decoded() {
    let a = api();
    let events = a
        .extract_events(&json(
            r#"{"events":[{"name":"callScene","properties":{"zoneID":"3","groupID":"2","sceneID":"43","originToken":"t","originDSUID":"u","callOrigin":"9"}},
                          {"name":"callScene","properties":{"zoneID":"2","groupID":"1","sceneID":"7","originToken":"","originDSUID":"","callOrigin":""}},
                          {"name":"callScene","properties":{"zoneID":"2","groupID":"6","sceneID":"5","originToken":"","originDSUID":"","callOrigin":""}}]}"#,
        ))
        .unwrap();
    assert_eq!(events.len(), 3);
    assert_eq!(events[0].name, "callScene");
    assert_eq!((events[0].zone, events[0].typ, events[0].scene), (3, Type::Shadow, 43));
    assert_eq!((events[0].token.as_str(), events[0].dsuid.as_str(), events[0].origin.as_str()), ("t", "u", "9"));
    assert_eq!((events[0].action, events[0].value, events[0].group), (Action::ShadowStepOpen, Value::Unknown, 0));
    assert_eq!((events[1].action, events[1].value, events[1].group), (Action::LightOn(2), Value::Light(65535), 2));
    assert_eq!((events[2].typ, events[2].action, events[2].value), (Type::Unknown, Action::Unknown, Value::Unknown));
    assert_eq!(Action::from(events[1].clone()), Action::LightOn(2));
}

#[test]
fn events_that_cannot_be_read_name_the_field() {
    let a = api();
    let e = |text: &str| a.extract_events(&json(text)).map(|_| ());
    let props = |p: &str| format!("{{\"events\":[{{\"name\":\"callScene\",\"properties\":{}}}]}}", p);
    assert_eq!(e("{}"), Err(missing(Field::Events)));
    assert_eq!(e(r#"{"events":5}"#), Err(wrong(Field::Events)));
    assert_eq!(e(r#"{"events":[{"properties":{}}]}"#), Err(missing(Field::Name)));
    assert_eq!(e(r#"{"events":[{"name":"x"}]}"#), Err(missing(Field::Properties)));
    assert_eq!(e(&props("{}")), Err(missing(Field::ZoneId)));
    assert_eq!(e(&props(r#"{"zoneID":3}"#)), Err(wrong(Field::ZoneId)));
    assert_eq!(e(&props(r#"{"zoneID":"x"}"#)), Err(wrong(Field::ZoneId)));
    assert_eq!(e(&props(r#"{"zoneID":"3","groupID":"256"}"#)), Err(wrong(Field::GroupId)));
    assert_eq!(e(&props(r#"{"zoneID":"3","groupID":"2"}"#)), Err(missing(Field::SceneId)));
    assert_eq!(e(&props(r#"{"zoneID":"3","groupID":"2","sceneID":"1"}"#)), Err(missing(Field::OriginToken)));
    assert_eq!(e(&props(r#"{"zoneID":"3","groupID":"2","sceneID":"1","originToken":""}"#)), Err(missing(Field::OriginDsuid)));
    assert_eq!(e(&props(r#"{"zoneID":"3","groupID":"2","sceneID":"1","originToken":"","originDSUID":""}"#)), Err(missing(Field::CallOrigin)));
    assert_eq!(e(r#"{"events":[]}"#), Ok(()));
}

#[test]
fn a_poll_that_fails_delivers_nothing() {
    let a = api();
    assert!(a.poll_events(Reply::Failure).is_empty());
    assert!(a.poll_events(answer(r#"{"ok":false}"#)).is_empty());
    assert!(a.poll_events(result("{}")).is_empty());
    assert!(a.poll_events(result(r#"{"events":[{"name":"x"}]}"#)).is_empty());
    assert!(a.poll_events(result(r#"{"events":[]}"#)).is_empty());
    let one = a.poll_events(result(
        r#"{"events":[{"name":"callScene","properties":{"zoneID":"2","groupID":"1","sceneID":"0","originToken":"","originDSUID":"","callOrigin":""}}]}"#,
    ));
    assert_eq!(one.len(), 1);
    assert_eq!(one[0].value, Value::Light(0));
}

#[test]
fn field_names_are_the_wire_names() {
    assert_eq!(Field::Status.name(), "ok");
    assert_eq!(Field::Payload.name(), "result");
    assert_eq!(Field::ZoneId.name(), "zoneID");
    assert_eq!(Field::OriginDsuid.name(), "originDSUID");
    assert_eq!(Field::LedconIndex.name(), "ledconIndex");
    assert_eq!(Field::ButtonActiveGroup.name(), "buttonActiveGroup");
}

#[test]
fn errors_in_words() {
    assert_eq!(Error::Transport.message(), "The server could not be reached");
    assert_eq!(Error::Protocol(Fault::Refused).message(), "Request failed, no ok code received");
    assert_eq!(missing(Field::Token).message(), "No token in Json response");
    assert_eq!(missing(Field::Status).message(), "No ok in Json response");
    assert_eq!(wrong(Field::ZoneId).message(), "The zoneID in the Json response has the wrong type");
    assert_eq!(Error::Protocol(Fault::Offset).message(), "Wrong offset returned");
    assert_eq!(Error::Protocol(Fault::NoScene).message(), "Action can't be transformed to scene command");
    assert_eq!(Error::Lookup(Missing::Zone(7)).message(), "No zone with id 7");
    assert_eq!(Error::Lookup(Missing::Group(12)).message(), "No group with id 12");
    assert_eq!(Error::Lookup(Missing::Device(0)).message(), "No devices in group 0");
    assert_eq!(Error::Concurrency.message(), "The shared model could not be acquired");
}
