use dss::{
    Action, Appartement, Builder, Channel, DeviceType, Error, Fault, Field, Missing, RawApi, Reply,
    Request, Resolution, Stage, Type, Value, Zone,
};

fn answer(text: &str) -> Reply {
    let reply = Reply::from_text(text);
    assert_ne!(reply, Reply::Failure);
    reply
}

fn result(text: &str) -> Reply {
    answer(&format!("{{\"ok\":true,\"result\":{}}}", text))
}

fn api() -> RawApi {
    RawApi::connect("host", "user", "pw", answer(r#"{"ok":true,"result":{"token":"tok"}}"#)).unwrap()
}

fn arg<'a>(request: &'a Request, name: &str) -> &'a str {
    request.params.iter().find(|p| p.name == name).map(|p| p.value.as_str()).unwrap_or("")
}

fn device(id: &str, zone: usize, mode: usize, button: u8) -> String {
    format!(
        "{{\"id\":\"{}\",\"name\":\"{}\",\"zoneID\":{},\"isPresent\":true,\"outputMode\":{},\"groups\":[{}],\"buttonActiveGroup\":{}}}",
        id, id, zone, mode, button, button
    )
}

fn mode(dont_care: bool) -> Reply {
    result(&format!(
        "{{\"sceneID\":1,\"dontCare\":{},\"localPrio\":false,\"specialMode\":false,\"flashMode\":false,\"ledconIndex\":0}}",
        dont_care
    ))
}

fn run(api: &RawApi, serve: &dyn Fn(&Request) -> Reply) -> (Builder, Vec<Request>) {
    let mut build = Builder::new();
    let mut sent = Vec::new();
    while let Some(request) = build.request(api) {
        assert!(sent.len() < 1000);
        let reply = serve(&request);
        sent.push(request);
        build.feed(api, reply);
    }
    (build, sent)
}

fn paths(sent: &[Request]) -> Vec<&str> {
    sent.iter().map(|r| r.path.as_str()).collect()
}

fn house(request: &Request) -> Reply {
    match request.path.as_str() {
        "apartment/getDevices" => result(&format!(
            "[{},{},{},{},{},{}]",
            device("lamp", 2, 22, 1),
            device("switch", 2, 0, 1),
            device("blind-a", 3, 33, 2),
            device("blind-b", 3, 33, 2),
            device("blind-c", 3, 33, 2),
            device("tv", 3, 39, 5)
        )),
        "apartment/getReachableGroups" => result(
            r#"{"zones":[{"zoneID":0,"name":"","groups":[1,2]},
                         {"zoneID":2,"name":"Kitchen","groups":[1]},
                         {"zoneID":3,"name":"Living","groups":[2]},
                         {"zoneID":65534,"name":"","groups":[1]}]}"#,
        ),
        "zone/getReachableScenes" => match (arg(request, "id"), arg(request, "groupID")) {
            ("2", "1") => result(r#"{"reachableScenes":[0]}"#),
            ("3", "2") => result(r#"{"reachableScenes":[0,1,2,5]}"#),
            _ => Reply::Failure,
        },
        "zone/getLastCalledScene" => match (arg(request, "id"), arg(request, "groupID")) {
            ("2", "1") => result(r#"{"scene":5}"#),
            _ => Reply::Failure,
        },
        "device/getSceneMode" => match (arg(request, "dsid"), arg(request, "sceneID")) {
            ("blind-a", "1") => mode(false),
            ("blind-b", "1") => mode(true),
            ("blind-b", "2") => mode(false),
            ("blind-c", "2") => mode(false),
            ("blind-a", "2") => mode(true),
            _ => Reply::Failure,
        },
        "device/getOutputValue" => match (arg(request, "dsid"), arg(request, "offset")) {
            ("blind-a", "2") => result(r#"{"offset":2,"value":65535}"#),
            ("blind-a", "4") => result(r#"{"offset":4,"value":100}"#),
            ("blind-b", "2") => result(r#"{"offset":2,"value":0}"#),
            ("blind-b", "4") => result(r#"{"offset":4,"value":65535}"#),
            _ => Reply::Failure,
        },
        _ => answer(r#"{"ok":true}"#),
    }
}

fn built() -> Appartement {
    let api = api();
    let (build, _) = run(&api, &house);
    Appartement::connect(api, build).unwrap()
}

fn ids(zones: &[Zone]) -> Vec<usize> {
    zones.iter().map(|z| z.id).collect()
}

#[test]
fn a_light_zone_with_scene_zero_and_last_scene_five_has_one_group_that_is_on() {
    let api = api();
    let serve = |request: &Request| match request.path.as_str() {
        "apartment/getDevices" => result("[]"),
        "apartment/getReachableGroups" => result(r#"{"zones":[{"zoneID":2,"name":"Kitchen","groups":[1]}]}"#),
        "zone/getReachableScenes" => result(r#"{"reachableScenes":[0]}"#),
        "zone/getLastCalledScene" => result(r#"{"scene":5}"#),
        _ => Reply::Failure,
    };
    let (build, sent) = run(&api, &serve);
    assert_eq!(build.stage(), Stage::Done);
    assert_eq!(
        paths(&sent),
        vec!["apartment/getDevices", "apartment/getReachableGroups", "zone/getReachableScenes", "zone/getLastCalledScene"]
    );
    let zones = build.finish().unwrap();
    assert_eq!(zones.len(), 1);
    assert_eq!(zones[0].id, 2);
    assert_eq!(zones[0].groups.len(), 1);
    let group = &zones[0].groups[0];
    assert_eq!((group.id, group.zone_id, group.typ, group.status), (0, 2, Type::Light, Value::Light(65535)));
    assert!(group.devices.is_empty());
}

#[test]
fn the_build_asks_in_order_and_leaves_out_the_reserved_zones() {
    let api = api();
    let (build, sent) = run(&api, &house);
    assert!(build.is_finished());
    assert_eq!(
        sent,
        vec![
            api.get_devices_request(),
            api.get_zones_request(),
            api.get_scenes_request(2, Type::Light),
            api.get_last_called_scene_request(2, Type::Light),
            api.get_scenes_request(3, Type::Shadow),
            api.get_device_scene_mode_request("blind-a", 1),
            api.get_device_scene_mode_request("blind-b", 1),
            api.get_device_scene_mode_request("blind-c", 1),
            api.get_device_scene_mode_request("blind-a", 2),
            api.get_device_scene_mode_request("blind-b", 2),
            api.get_device_scene_mode_request("blind-c", 2),
            api.get_shadow_device_open_request("blind-a"),
            api.get_shadow_device_angle_request("blind-a"),
            api.get_shadow_device_open_request("blind-b"),
            api.get_shadow_device_angle_request("blind-b"),
        ]
    );
    assert_eq!(ids(&build.finish().unwrap()), vec![2, 3]);
}

#[test]
fn the_build_sorts_devices_and_reads_shades() {
    let a = built();
    let zones = a.get_zones();
    let kitchen = &zones[0];
    assert_eq!(kitchen.groups.len(), 1);
    assert_eq!(kitchen.groups[0].devices.iter().map(|d| d.id.as_str()).collect::<Vec<_>>(), vec!["lamp"]);
    assert_eq!(kitchen.groups[0].devices[0].device_type, DeviceType::Light);
    assert_eq!(kitchen.groups[0].status, Value::Light(65535));
    let living = &zones[1];
    assert_eq!(living.groups.iter().map(|g| g.id).collect::<Vec<_>>(), vec![1, 2]);
    assert_eq!(living.groups[0].devices.iter().map(|d| d.id.as_str()).collect::<Vec<_>>(), vec!["blind-a"]);
    assert_eq!(
        living.groups[1].devices.iter().map(|d| d.id.as_str()).collect::<Vec<_>>(),
        vec!["blind-b", "blind-c"]
    );
    assert_eq!(living.groups[0].status, Value::Shadow(0, 100));
    assert_eq!(living.groups[1].status, Value::Shadow(65535, 65535));
    assert_eq!(a.get_value(2, 0), Ok(Value::Light(65535)));
    assert_eq!(a.get_value(3, 1), Ok(Value::Shadow(0, 100)));
}

#[test]
fn the_catch_all_group_takes_every_fitting_device_in_the_order_of_the_list() {
    let api = api();
    let serve = |request: &Request| match request.path.as_str() {
        "apartment/getDevices" => result(&format!(
            "[{},{},{},{},{},{}]",
            device("c", 2, 16, 1),
            device("elsewhere", 3, 16, 1),
            device("a", 2, 35, 1),
            device("switch", 2, 0, 1),
            device("shade", 2, 33, 2),
            device("b", 2, 22, 1)
        )),
        "apartment/getReachableGroups" => result(r#"{"zones":[{"zoneID":2,"name":"Kitchen","groups":[1]}]}"#),
        "zone/getReachableScenes" => result(r#"{"reachableScenes":[0, 5, 0]}"#),
        "zone/getLastCalledScene" => result(r#"{"scene":5}"#),
        _ => Reply::Failure,
    };
    let (build, sent) = run(&api, &serve);
    assert_eq!(sent.len(), 4);
    let zones = build.finish().unwrap();
    assert_eq!(zones[0].groups.len(), 1);
    assert_eq!(zones[0].groups[0].id, 0);
    assert_eq!(
        zones[0].groups[0].devices.iter().map(|d| d.id.as_str()).collect::<Vec<_>>(),
        vec!["c", "a", "b"]
    );
}

#[test]
fn a_shade_group_whose_device_does_not_answer_stays_unknown() {
    let api = api();
    let serve = |request: &Request| match request.path.as_str() {
        "apartment/getDevices" => result(&format!("[{},{}]", device("one", 3, 33, 2), device("two", 3, 33, 2))),
        "apartment/getReachableGroups" => result(r#"{"zones":[{"zoneID":3,"name":"Living","groups":[2]}]}"#),
        "zone/getReachableScenes" => result(r#"{"reachableScenes":[1,2,3]}"#),
        "device/getSceneMode" => match (arg(request, "dsid"), arg(request, "sceneID")) {
            ("one", "1") | ("two", "2") | ("one", "3") => mode(false),
            _ => mode(true),
        },
        "device/getOutputValue" => match (arg(request, "dsid"), arg(request, "offset")) {
            ("one", "2") => result(r#"{"offset":2,"value":65535}"#),
            ("one", "4") => Reply::Failure,
            _ => Reply::Failure,
        },
        _ => Reply::Failure,
    };
    let (build, sent) = run(&api, &serve);
    assert_eq!(
        sent[9..],
        [
            api.get_shadow_device_open_request("one"),
            api.get_shadow_device_angle_request("one"),
            api.get_shadow_device_open_request("two"),
            api.get_shadow_device_open_request("one"),
            api.get_shadow_device_angle_request("one"),
        ]
    );
    let zones = build.finish().unwrap();
    assert_eq!(
        zones[0].groups.iter().map(|g| (g.id, g.status)).collect::<Vec<_>>(),
        vec![(1, Value::Unknown), (2, Value::Unknown), (3, Value::Unknown)]
    );
}

#[test]
fn a_build_without_devices_or_zones_fails() {
    let api = api();
    let (build, sent) = run(&api, &|_: &Request| Reply::Failure);
    assert_eq!(build.stage(), Stage::Failed(Error::Transport));
    assert_eq!(sent.len(), 1);
    assert_eq!(build.finish().map(|_| ()), Err(Error::Transport));
    let (build, sent) = run(&api, &|r: &Request| match r.path.as_str() {
        "apartment/getDevices" => result("[]"),
        _ => answer(r#"{"ok":false}"#),
    });
    assert_eq!(build.stage(), Stage::Failed(Error::Protocol(Fault::Refused)));
    assert_eq!(sent.len(), 2);
    assert_eq!(
        Appartement::connect(api.clone(), build).map(|_| ()),
        Err(Error::Protocol(Fault::Refused))
    );
    let (build, _) = run(&api, &|r: &Request| match r.path.as_str() {
        "apartment/getDevices" => result("[]"),
        _ => result(r#"{"zones":[{"zoneID":1}]}"#),
    });
    assert_eq!(build.stage(), Stage::Failed(Error::Protocol(Fault::Missing(Field::Name))));
}

#[test]
fn a_unit_that_fails_is_skipped() {
    let api = api();
    let serve = |request: &Request| match request.path.as_str() {
        "apartment/getDevices" => result(&format!("[{},{}]", device("lamp", 2, 22, 1), device("blind", 2, 33, 2))),
        "apartment/getReachableGroups" => result(
            r#"{"zones":[{"zoneID":2,"name":"a","groups":[1,2,3]},{"zoneID":4,"name":"b","groups":[]},{"zoneID":5,"name":"c","groups":[1]}]}"#,
        ),
        "zone/getReachableScenes" => match (arg(request, "id"), arg(request, "groupID")) {
            ("2", "1") => result(r#"{"reachableScenes":[0]}"#),
            ("2", "2") => result(r#"{"reachableScenes":[0]}"#),
            ("5", "1") => result(r#"{"reachableScenes":[1,2]}"#),
            _ => Reply::Failure,
        },
        "zone/getLastCalledScene" => match arg(request, "id") {
            "5" => result(r#"{"scene":0}"#),
            _ => Reply::Failure,
        },
        _ => Reply::Failure,
    };
    let (build, sent) = run(&api, &serve);
    assert_eq!(build.stage(), Stage::Done);
    assert_eq!(
        sent[2..],
        [
            api.get_scenes_request(2, Type::Light),
            api.get_last_called_scene_request(2, Type::Light),
            api.get_scenes_request(2, Type::Shadow),
            api.get_scenes_request(2, Type::Heating),
            api.get_scenes_request(5, Type::Light),
            api.get_last_called_scene_request(5, Type::Light),
            api.get_shadow_device_open_request("blind"),
        ]
    );
    let zones = build.finish().unwrap();
    assert_eq!(ids(&zones), vec![2, 4, 5]);
    assert_eq!(zones[0].groups.iter().map(|g| (g.typ, g.id)).collect::<Vec<_>>(), vec![(Type::Shadow, 0)]);
    assert_eq!(zones[0].groups[0].status, Value::Unknown);
    assert_eq!(zones[0].groups[0].devices.len(), 1);
    assert!(zones[1].groups.is_empty());
    assert_eq!(zones[2].groups.iter().map(|g| (g.id, g.status)).collect::<Vec<_>>(), vec![(1, Value::Light(0)), (2, Value::Light(0))]);
    assert!(zones[2].groups[0].devices.is_empty());
}

#[test]
fn a_build_that_has_ended_takes_no_more_replies() {
    let api = api();
    let (mut build, _) = run(&api, &house);
    assert_eq!(build.stage(), Stage::Done);
    assert_eq!(build.request(&api), None);
    build.feed(&api, Reply::Failure);
    build.feed(&api, result("[]"));
    assert_eq!(build.stage(), Stage::Done);
    assert_eq!(ids(&build.finish().unwrap()), vec![2, 3]);
    let (mut failed, _) = run(&api, &|_: &Request| Reply::Failure);
    failed.feed(&api, result("[]"));
    assert_eq!(failed.stage(), Stage::Failed(Error::Transport));
}

#[test]
fn every_group_of_a_build_holds_only_devices_that_fit() {
    for zone in built().get_zones() {
        for group in &zone.groups {
            assert_eq!(group.zone_id, zone.id);
            for device in &group.devices {
                assert_eq!(device.zone_id, zone.id);
                assert_eq!(device.button_type, group.typ);
                assert!(device.device_type.is_groupable());
            }
        }
    }
}

#[test]
fn an_unfinished_build_counts_as_a_failed_transport() {
    let api = api();
    let mut build = Builder::new();
    assert_eq!(build.stage(), Stage::Devices);
    assert!(!build.is_finished());
    build.feed(&api, result("[]"));
    assert_eq!(build.stage(), Stage::Zones);
    assert_eq!(build.finish().map(|_| ()), Err(Error::Transport));
}

#[test]
fn updating_replaces_the_zones_and_a_failed_build_keeps_them() {
    let mut a = built();
    let (failed, _) = run(&api(), &|_: &Request| Reply::Failure);
    assert_eq!(a.update_all(failed).map(|_| ()), Err(Error::Transport));
    assert_eq!(ids(&a.get_zones()), vec![2, 3]);
    let (empty, _) = run(&api(), &|r: &Request| match r.path.as_str() {
        "apartment/getDevices" => result("[]"),
        _ => result(r#"{"zones":[{"zoneID":9,"name":"x","groups":[]}]}"#),
    });
    let zones = a.update_all(empty).unwrap();
    assert_eq!(ids(&zones), vec![9]);
    assert_eq!(a.get_zones(), zones);
    assert_eq!(a.update_structure().stage(), Stage::Devices);
}

#[test]
fn a_model_from_a_file_is_built_only_when_it_is_empty() {
    let loaded = built().get_zones();
    let a = Appartement::connect_file(api(), "zones.json", Some(loaded));
    assert!(!a.needs_update());
    let (file, zones) = a.save_status().unwrap();
    assert_eq!(file, "zones.json");
    assert_eq!(zones, a.get_zones());
    assert!(Appartement::connect_file(api(), "zones.json", None).needs_update());
    assert!(Appartement::connect_file(api(), "zones.json", Some(Vec::new())).needs_update());
    assert!(built().save_status().is_none());
}

#[test]
fn values_are_looked_up_by_zone_and_group() {
    let a = built();
    assert_eq!(a.get_value(2, 0), Ok(Value::Light(65535)));
    assert_eq!(a.get_value(3, 2), Ok(Value::Shadow(65535, 65535)));
    assert_eq!(a.get_value(7, 0), Err(Error::Lookup(Missing::Zone(7))));
    assert_eq!(a.get_value(2, 1), Err(Error::Lookup(Missing::Group(1))));
    assert_eq!(a.get_value(3, 0), Err(Error::Lookup(Missing::Group(0))));
}

#[test]
fn lights_are_set_by_scene_calls() {
    let mut a = built();
    let api = api();
    assert_eq!(a.set_value(2, None, Value::Light(65535)), Ok(vec![api.call_scene(2, Type::Light, 5)]));
    assert_eq!(a.set_value(2, None, Value::Light(32768)), Ok(vec![api.call_scene(2, Type::Light, 5)]));
    assert_eq!(a.set_value(2, None, Value::Light(32767)), Ok(vec![api.call_scene(2, Type::Light, 0)]));
    assert_eq!(a.set_value(2, Some(2), Value::Light(65535)), Ok(vec![api.call_scene(2, Type::Light, 7)]));
    assert_eq!(a.set_value(2, Some(2), Value::Light(0)), Ok(vec![api.call_scene(2, Type::Light, 2)]));
    assert_eq!(a.set_value(77, None, Value::Light(0)), Ok(vec![api.call_scene(77, Type::Light, 0)]));
    assert_eq!(a.set_value(2, Some(usize::MAX), Value::Light(65535)), Err(Error::Protocol(Fault::NoScene)));
    assert_eq!(a.set_value(2, None, Value::Unknown), Ok(vec![]));
    let before = a.get_zones();
    a.confirm_value(2, None, Value::Light(0));
    a.confirm_value(2, None, Value::Unknown);
    assert_eq!(a.get_zones(), before);
}

#[test]
fn shades_at_the_ends_are_set_by_scene_calls() {
    let mut a = built();
    let api = api();
    assert_eq!(a.set_value(3, None, Value::Shadow(0, 30000)), Ok(vec![api.call_scene(3, Type::Shadow, 5)]));
    assert_eq!(a.set_value(3, None, Value::Shadow(6553, 65535)), Ok(vec![api.call_scene(3, Type::Shadow, 5)]));
    assert_eq!(a.set_value(3, Some(1), Value::Shadow(0, 0)), Ok(vec![api.call_scene(3, Type::Shadow, 6)]));
    assert_eq!(a.set_value(3, None, Value::Shadow(65535, 0)), Ok(vec![api.call_scene(3, Type::Shadow, 0)]));
    assert_eq!(a.set_value(3, None, Value::Shadow(58982, 6553)), Ok(vec![api.call_scene(3, Type::Shadow, 0)]));
    assert_eq!(a.set_value(3, Some(2), Value::Shadow(65535, 0)), Ok(vec![api.call_scene(3, Type::Shadow, 2)]));
    let before = a.get_zones();
    a.confirm_value(3, None, Value::Shadow(65535, 0));
    a.confirm_value(3, Some(1), Value::Shadow(0, 0));
    assert_eq!(a.get_zones(), before);
}

#[test]
fn a_shade_in_between_is_driven_directly_in_every_group_of_the_zone() {
    let mut a = built();
    let api = api();
    let value = Value::Shadow(32768, 19660);
    let requests = a.set_value(3, None, value).unwrap();
    assert_eq!(
        requests,
        vec![
            api.set_shadow_device_open("blind-a", 32768),
            api.set_shadow_device_angle("blind-a", 19660),
            api.set_shadow_device_open("blind-b", 32768),
            api.set_shadow_device_angle("blind-b", 19660),
            api.set_shadow_device_open("blind-c", 32768),
            api.set_shadow_device_angle("blind-c", 19660),
        ]
    );
    assert!(requests.iter().all(|r| r.path == "device/setOutputValue"));
    assert_eq!(arg(&requests[0], "value"), "32767");
    assert_eq!(arg(&requests[1], "value"), "76");
    assert_eq!(a.get_value(3, 1), Ok(Value::Shadow(0, 100)));
    a.confirm_value(3, None, value);
    assert_eq!(a.get_value(3, 1), Ok(value));
    assert_eq!(a.get_value(3, 2), Ok(value));
    assert_eq!(a.get_value(2, 0), Ok(Value::Light(65535)));
}

#[test]
fn a_shade_group_in_between_is_driven_directly() {
    let mut a = built();
    let api = api();
    let value = Value::Shadow(60000, 30000);
    assert_eq!(
        a.set_value(3, Some(2), value),
        Ok(vec![
            api.set_shadow_device_open("blind-b", 60000),
            api.set_shadow_device_angle("blind-b", 30000),
            api.set_shadow_device_open("blind-c", 60000),
            api.set_shadow_device_angle("blind-c", 30000),
        ])
    );
    a.confirm_value(3, Some(2), value);
    assert_eq!(a.get_value(3, 2), Ok(value));
    assert_eq!(a.get_value(3, 1), Ok(Value::Shadow(0, 100)));
    assert_eq!(a.set_value(9, Some(2), value), Err(Error::Lookup(Missing::Zone(9))));
    assert_eq!(a.set_value(9, None, value), Err(Error::Lookup(Missing::Zone(9))));
    assert_eq!(a.set_value(3, Some(3), value), Err(Error::Lookup(Missing::Group(3))));
    let before = a.get_zones();
    a.confirm_value(9, None, value);
    a.confirm_value(3, Some(3), value);
    assert_eq!(a.get_zones(), before);
}

#[test]
fn only_shade_motors_are_driven() {
    let a = built();
    assert_eq!(a.set_value(2, None, Value::Shadow(30000, 30000)), Ok(vec![]));
    assert_eq!(a.set_value(2, Some(0), Value::Shadow(30000, 30000)), Ok(vec![]));
}

fn event(zone: usize, typ: u8, scene: usize) -> dss::Event {
    let a = api();
    let text = format!(
        "{{\"events\":[{{\"name\":\"callScene\",\"properties\":{{\"zoneID\":\"{}\",\"groupID\":\"{}\",\"sceneID\":\"{}\",\"originToken\":\"\",\"originDSUID\":\"d\",\"callOrigin\":\"1\"}}}}]}}",
        zone, typ, scene
    );
    a.poll_events(result(&text)).remove(0)
}

fn three_shade_groups() -> Appartement {
    let api = api();
    let serve = |request: &Request| match request.path.as_str() {
        "apartment/getDevices" => result(&format!("[{}]", device("blind", 3, 33, 2))),
        "apartment/getReachableGroups" => result(r#"{"zones":[{"zoneID":3,"name":"Living","groups":[1,2]}]}"#),
        "zone/getReachableScenes" => match arg(request, "groupID") {
            "2" => result(r#"{"reachableScenes":[1,2,3]}"#),
            _ => result(r#"{"reachableScenes":[0]}"#),
        },
        "zone/getLastCalledScene" => result(r#"{"scene":0}"#),
        "device/getSceneMode" => mode(false),
        _ => Reply::Failure,
    };
    let (build, _) = run(&api, &serve);
    let mut a = Appartement::connect(api, build).unwrap();
    let mut zones = a.get_zones();
    zones[0].groups[1].id = 0;
    zones[0].groups[2].id = 1;
    zones[0].groups[3].id = 2;
    a = Appartement::new(a.api().clone(), zones, None);
    a
}

#[test]
fn a_step_event_expands_to_one_event_for_each_shade_group() {
    let a = three_shade_groups();
    let step = event(3, 2, 43);
    assert_eq!(step.action, Action::ShadowStepOpen);
    let events = a.expand_value(step.clone()).unwrap();
    assert_eq!(events.len(), 3);
    assert_eq!(events.iter().map(|e| e.group).collect::<Vec<_>>(), vec![0, 1, 2]);
    for e in &events {
        let mut same = e.clone();
        same.group = step.group;
        assert_eq!(same, step);
    }
    let close = a.expand_value(event(3, 2, 42)).unwrap();
    assert_eq!(close.iter().map(|e| e.group).collect::<Vec<_>>(), vec![0, 1, 2]);
}

#[test]
fn other_events_are_not_expanded() {
    let a = three_shade_groups();
    let up = event(3, 2, 7);
    assert_eq!(a.expand_value(up.clone()), Ok(vec![up]));
    let light = event(3, 1, 43);
    assert_eq!(a.expand_value(light.clone()), Ok(vec![light]));
    let elsewhere = event(9, 2, 5);
    assert_eq!(a.expand_value(elsewhere.clone()), Ok(vec![elsewhere]));
    assert_eq!(a.expand_value(event(9, 2, 43)), Err(Error::Lookup(Missing::Zone(9))));
    assert_eq!(built().expand_value(event(2, 2, 43)), Ok(vec![]));
}

#[test]
fn a_known_value_needs_no_device() {
    let a = built();
    assert_eq!(a.update_value(Value::Light(5), &Type::Light, 2, 0), Ok(Resolution::Known(Value::Light(5))));
    assert_eq!(a.update_value(Value::Shadow(1, 2), &Type::Shadow, 99, 0), Ok(Resolution::Known(Value::Shadow(1, 2))));
    assert_eq!(a.update_value(Value::Unknown, &Type::Light, 99, 0), Ok(Resolution::Known(Value::Unknown)));
    assert_eq!(a.update_event_value(&event(2, 1, 5)), Ok(Resolution::Known(Value::Light(65535))));
}

#[test]
fn an_unknown_shade_value_is_read_from_the_first_device_of_the_group() {
    let a = built();
    let api = api();
    assert_eq!(
        a.update_value(Value::Unknown, &Type::Shadow, 3, 2),
        Ok(Resolution::Ask(api.get_shadow_device_open_request("blind-b"), api.get_shadow_device_angle_request("blind-b")))
    );
    assert_eq!(
        a.update_event_value(&event(3, 2, 51 + 1)),
        Ok(Resolution::Ask(api.get_shadow_device_open_request("blind-a"), api.get_shadow_device_angle_request("blind-a")))
    );
    assert_eq!(a.update_value(Value::Unknown, &Type::Shadow, 8, 1), Err(Error::Lookup(Missing::Zone(8))));
    assert_eq!(a.update_value(Value::Unknown, &Type::Shadow, 3, 0), Err(Error::Lookup(Missing::Group(0))));
    assert_eq!(a.update_value(Value::Unknown, &Type::Shadow, 2, 0), Err(Error::Lookup(Missing::Group(0))));
    let empty = Appartement::new(
        api.clone(),
        vec![Zone { id: 1, name: "z".to_string(), types: vec![], groups: vec![dss::Group::new(1, 1, Type::Shadow)] }],
        None,
    );
    assert_eq!(empty.update_value(Value::Unknown, &Type::Shadow, 1, 1), Err(Error::Lookup(Missing::Device(1))));
}

fn subscribed(a: &mut Appartement) -> Channel {
    a.event_channel(answer(r#"{"ok":true}"#)).unwrap()
}

fn batch(zone: usize, typ: u8, scene: usize) -> Reply {
    result(&format!(
        "{{\"events\":[{{\"name\":\"callScene\",\"properties\":{{\"zoneID\":\"{}\",\"groupID\":\"{}\",\"sceneID\":\"{}\",\"originToken\":\"\",\"originDSUID\":\"\",\"callOrigin\":\"\"}}}}]}}",
        zone, typ, scene
    ))
}

#[test]
fn an_event_with_a_known_value_updates_the_model_and_is_delivered() {
    let mut a = built();
    let channel = subscribed(&mut a);
    assert_eq!(a.poll(&channel), Some(api().poll_request()));
    let events = a.receive(&channel, batch(2, 1, 0));
    assert_eq!(events.len(), 1);
    let delivered = a.deliver(&channel, events[0].clone(), None).unwrap();
    assert_eq!(delivered, events[0]);
    assert_eq!(a.get_value(2, 0), Ok(Value::Light(0)));
    assert_eq!(a.get_value(3, 1), Ok(Value::Shadow(0, 100)));
}

#[test]
fn an_event_addresses_groups_by_zone_type_and_id() {
    let mut a = built();
    let channel = subscribed(&mut a);
    let up = a.receive(&channel, batch(3, 2, 7)).remove(0);
    assert_eq!((up.group, up.value), (2, Value::Shadow(0, 65535)));
    a.deliver(&channel, up, None).unwrap();
    assert_eq!(a.get_value(3, 2), Ok(Value::Shadow(0, 65535)));
    assert_eq!(a.get_value(3, 1), Ok(Value::Shadow(0, 100)));
    let other_type = a.receive(&channel, batch(3, 1, 6)).remove(0);
    a.deliver(&channel, other_type, None).unwrap();
    assert_eq!(a.get_value(3, 1), Ok(Value::Shadow(0, 100)));
}

#[test]
fn a_step_event_is_resolved_from_the_devices() {
    let mut a = built();
    let channel = subscribed(&mut a);
    let events = a.receive(&channel, batch(3, 2, 43));
    assert_eq!(events.iter().map(|e| e.group).collect::<Vec<_>>(), vec![1, 2]);
    let first = a
        .deliver(
            &channel,
            events[0].clone(),
            Some((result(r#"{"offset":2,"value":32767}"#), result(r#"{"offset":4,"value":4000}"#))),
        )
        .unwrap();
    assert_eq!(first.value, Value::Shadow(32768, 4000));
    assert_eq!(first.group, 1);
    assert_eq!(a.get_value(3, 1), Ok(Value::Shadow(32768, 4000)));
    assert_eq!(a.get_value(3, 2), Ok(Value::Shadow(65535, 65535)));
}

#[test]
fn an_event_that_cannot_be_resolved_is_dropped() {
    let mut a = built();
    let channel = subscribed(&mut a);
    let before = a.get_zones();
    let stop = a.receive(&channel, batch(3, 2, 52)).remove(0);
    assert_eq!(a.deliver(&channel, stop.clone(), None), None);
    assert_eq!(a.deliver(&channel, stop.clone(), Some((Reply::Failure, Reply::Failure))), None);
    assert_eq!(
        a.deliver(&channel, stop, Some((result(r#"{"offset":2,"value":1}"#), result(r#"{"offset":2,"value":1}"#)))),
        None
    );
    let nowhere = a.receive(&channel, batch(8, 2, 52)).remove(0);
    assert_eq!(a.deliver(&channel, nowhere, Some((result(r#"{"offset":2,"value":1}"#), result(r#"{"offset":4,"value":1}"#)))), None);
    assert!(a.receive(&channel, batch(8, 2, 43)).is_empty());
    let unknown_light = a.receive(&channel, batch(2, 1, 40)).remove(0);
    assert_eq!(a.deliver(&channel, unknown_light.clone(), None), Some(unknown_light));
    assert_eq!(a.get_value(2, 0), Ok(Value::Unknown));
    a.confirm_value(2, None, Value::Unknown);
    let mut zones = a.get_zones();
    zones[0].groups[0].status = Value::Light(65535);
    assert_eq!(zones, before);
}

#[test]
fn a_replaced_channel_delivers_nothing() {
    let mut a = built();
    let old = subscribed(&mut a);
    let pending = a.receive(&old, batch(2, 1, 0)).remove(0);
    let new = subscribed(&mut a);
    assert_ne!(old, new);
    assert!(!a.is_open(&old));
    assert!(a.is_open(&new));
    assert_eq!(a.poll(&old), None);
    assert!(a.receive(&old, batch(2, 1, 0)).is_empty());
    assert_eq!(a.deliver(&old, pending.clone(), None), None);
    assert_eq!(a.get_value(2, 0), Ok(Value::Light(65535)));
    assert_eq!(a.receive(&new, batch(2, 1, 0)).len(), 1);
    assert_eq!(a.deliver(&new, pending, None).map(|e| e.value), Some(Value::Light(0)));
    let newer = subscribed(&mut a);
    assert!(!a.is_open(&old));
    assert!(!a.is_open(&new));
    assert!(a.is_open(&newer));
}

#[test]
fn a_failed_subscription_closes_the_old_channel_and_opens_none() {
    let mut a = built();
    let old = subscribed(&mut a);
    assert_eq!(a.event_channel(Reply::Failure), Err(Error::Transport));
    assert!(!a.is_open(&old));
    assert_eq!(a.event_channel(answer(r#"{"ok":false}"#)), Err(Error::Protocol(Fault::Refused)));
    let next = subscribed(&mut a);
    assert!(a.is_open(&next));
    assert!(!a.is_open(&old));
}

#[test]
fn closing_ends_the_polling() {
    let mut a = built();
    assert!(!a.is_open(&Channel { number: 0 }));
    let channel = subscribed(&mut a);
    assert_eq!(channel, Channel { number: 1 });
    a.close();
    assert!(!a.is_open(&channel));
    assert_eq!(a.poll(&channel), None);
    assert!(a.receive(&channel, batch(2, 1, 0)).is_empty());
}
