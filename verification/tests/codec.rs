use dss::text::{decimal, parse_decimal};
use dss::value::{
    at_least_half, at_least_nine_tenths, at_most_tenth, denormalize_angle, denormalize_opening,
    normalize_angle, normalize_opening, FULL,
};
use dss::{Action, DeviceType, Group, Type, Value};

#[test]
fn light_scene_zero_is_all_off() {
    assert_eq!(Action::new(Type::Light, 0), Action::AllLightOff);
    assert_eq!(Value::from_action(Action::new(Type::Light, 0), 0), Value::Light(0));
}

#[test]
fn light_scene_five_is_all_on() {
    assert_eq!(Action::new(Type::Light, 5), Action::AllLightOn);
    assert_eq!(Value::from_action(Action::AllLightOn, 0), Value::Light(65535));
}

#[test]
fn light_scenes_one_to_four_switch_a_sub_group_off() {
    for scene in 1..=4usize {
        assert_eq!(Action::new(Type::Light, scene), Action::LightOff(scene));
    }
}

#[test]
fn light_scenes_six_to_eight_switch_a_sub_group_on() {
    assert_eq!(Action::new(Type::Light, 6), Action::LightOn(1));
    assert_eq!(Action::new(Type::Light, 7), Action::LightOn(2));
    assert_eq!(Action::new(Type::Light, 8), Action::LightOn(3));
}

#[test]
fn light_scenes_zero_to_eight_resolve_to_off_or_on() {
    for scene in 0..=8usize {
        let value = Value::from_action(Action::new(Type::Light, scene), 0);
        if scene <= 4 {
            assert_eq!(value, Value::Light(0));
        } else {
            assert_eq!(value, Value::Light(FULL));
        }
    }
}

#[test]
fn light_knows_no_shadow_scenes() {
    for scene in [9usize, 17, 18, 19, 42, 43, 51, 52, 53, 54, 55, 100] {
        assert_eq!(Action::new(Type::Light, scene), Action::Unknown);
    }
}

#[test]
fn shadow_scene_zero_is_all_down_and_five_is_all_up() {
    assert_eq!(Action::new(Type::Shadow, 0), Action::AllShadowDown);
    assert_eq!(Action::new(Type::Shadow, 5), Action::AllShadowUp);
}

#[test]
fn shadow_scenes_one_to_four_lower_and_six_to_eight_raise_a_sub_group() {
    for scene in 1..=4usize {
        assert_eq!(Action::new(Type::Shadow, scene), Action::ShadowDown(scene));
    }
    for scene in 6..=8usize {
        assert_eq!(Action::new(Type::Shadow, scene), Action::ShadowUp(scene - 5));
    }
}

#[test]
fn shadow_stop_scenes() {
    assert_eq!(Action::new(Type::Shadow, 55), Action::AllShadowStop);
    for scene in 51..=54usize {
        assert_eq!(Action::new(Type::Shadow, scene), Action::ShadowStop(scene - 51));
        assert_eq!(Group::group_id_from_scene_id(scene), scene - 51);
    }
}

#[test]
fn shadow_step_alias_and_special_scenes() {
    assert_eq!(Action::new(Type::Shadow, 42), Action::ShadowStepClose);
    assert_eq!(Action::new(Type::Shadow, 43), Action::ShadowStepOpen);
    assert_eq!(Action::new(Type::Shadow, 17), Action::AllShadowUp);
    assert_eq!(Action::new(Type::Shadow, 18), Action::AllShadowSpecial1);
    assert_eq!(Action::new(Type::Shadow, 19), Action::AllShadowSpecial2);
}

#[test]
fn unmatched_scenes_and_other_types_are_unknown() {
    for scene in [9usize, 16, 20, 41, 44, 50, 56, 1000] {
        assert_eq!(Action::new(Type::Shadow, scene), Action::Unknown);
    }
    for typ in [Type::Unknown, Type::Heating, Type::Audio, Type::Video, Type::Joker, Type::Window] {
        for scene in [0usize, 1, 5, 6, 17, 42, 51, 55] {
            assert_eq!(Action::new(typ, scene), Action::Unknown);
        }
    }
}

#[test]
fn every_action_has_its_scene() {
    assert_eq!(Action::AllLightOff.to_scene_type(), Some((Type::Light, 0)));
    assert_eq!(Action::AllLightOn.to_scene_type(), Some((Type::Light, 5)));
    assert_eq!(Action::LightOff(3).to_scene_type(), Some((Type::Light, 3)));
    assert_eq!(Action::LightOn(3).to_scene_type(), Some((Type::Light, 8)));
    assert_eq!(Action::AllShadowDown.to_scene_type(), Some((Type::Shadow, 0)));
    assert_eq!(Action::AllShadowUp.to_scene_type(), Some((Type::Shadow, 5)));
    assert_eq!(Action::AllShadowStop.to_scene_type(), Some((Type::Shadow, 55)));
    assert_eq!(Action::AllShadowSpecial1.to_scene_type(), Some((Type::Shadow, 18)));
    assert_eq!(Action::AllShadowSpecial2.to_scene_type(), Some((Type::Shadow, 19)));
    assert_eq!(Action::ShadowDown(2).to_scene_type(), Some((Type::Shadow, 2)));
    assert_eq!(Action::ShadowUp(2).to_scene_type(), Some((Type::Shadow, 7)));
    assert_eq!(Action::ShadowStop(2).to_scene_type(), Some((Type::Shadow, 53)));
    assert_eq!(Action::ShadowStepClose.to_scene_type(), Some((Type::Shadow, 42)));
    assert_eq!(Action::ShadowStepOpen.to_scene_type(), Some((Type::Shadow, 43)));
    assert_eq!(Action::Unknown.to_scene_type(), None);
}

#[test]
fn a_scene_number_beyond_the_machine_word_is_no_scene() {
    assert_eq!(Action::LightOn(usize::MAX).to_scene_type(), None);
    assert_eq!(Action::ShadowUp(usize::MAX - 4).to_scene_type(), None);
    assert_eq!(Action::ShadowStop(usize::MAX - 50).to_scene_type(), None);
    assert_eq!(Action::LightOn(usize::MAX - 5).to_scene_type(), Some((Type::Light, usize::MAX)));
}

#[test]
fn plain_scenes_round_trip() {
    for scene in 0..=8usize {
        assert_eq!(Action::new(Type::Light, scene).to_scene_type(), Some((Type::Light, scene)));
        assert_eq!(Action::new(Type::Shadow, scene).to_scene_type(), Some((Type::Shadow, scene)));
    }
    for scene in 51..=54usize {
        assert_eq!(Action::new(Type::Shadow, scene).to_scene_type(), Some((Type::Shadow, scene)));
    }
}

#[test]
fn scene_seventeen_does_not_round_trip() {
    assert_eq!(Action::new(Type::Shadow, 17).to_scene_type(), Some((Type::Shadow, 5)));
}

#[test]
fn values_of_actions() {
    assert_eq!(Value::from_action(Action::AllLightOn, 0), Value::Light(FULL));
    assert_eq!(Value::from_action(Action::LightOn(2), 2), Value::Light(FULL));
    assert_eq!(Value::from_action(Action::AllLightOff, 0), Value::Light(0));
    assert_eq!(Value::from_action(Action::LightOff(1), 1), Value::Light(0));
    assert_eq!(Value::from_action(Action::AllShadowUp, 0), Value::Shadow(0, FULL));
    assert_eq!(Value::from_action(Action::ShadowUp(1), 1), Value::Shadow(0, FULL));
    assert_eq!(Value::from_action(Action::AllShadowDown, 0), Value::Shadow(FULL, 0));
    assert_eq!(Value::from_action(Action::ShadowDown(3), 3), Value::Shadow(FULL, 0));
    for action in [
        Action::AllShadowStop,
        Action::ShadowStop(1),
        Action::ShadowStepOpen,
        Action::ShadowStepClose,
        Action::AllShadowSpecial1,
        Action::AllShadowSpecial2,
        Action::Unknown,
    ] {
        assert_eq!(Value::from_action(action, 0), Value::Unknown);
    }
}

#[test]
fn the_group_id_plays_no_part_in_the_value() {
    assert_eq!(Value::from_action(Action::LightOn(2), 7), Value::from_action(Action::LightOn(2), 0));
}

#[test]
fn group_ids_of_scenes() {
    assert_eq!(Group::group_id_from_scene_id(0), 0);
    assert_eq!(Group::group_id_from_scene_id(1), 1);
    assert_eq!(Group::group_id_from_scene_id(4), 4);
    assert_eq!(Group::group_id_from_scene_id(5), 0);
    assert_eq!(Group::group_id_from_scene_id(6), 1);
    assert_eq!(Group::group_id_from_scene_id(8), 3);
    assert_eq!(Group::group_id_from_scene_id(9), 0);
    assert_eq!(Group::group_id_from_scene_id(50), 0);
    assert_eq!(Group::group_id_from_scene_id(51), 0);
    assert_eq!(Group::group_id_from_scene_id(54), 3);
    assert_eq!(Group::group_id_from_scene_id(55), 0);
    assert_eq!(Group::group_id_from_scene_id(usize::MAX), 0);
}

#[test]
fn defaults_are_unknown() {
    assert_eq!(Action::default(), Action::Unknown);
    assert_eq!(Value::default(), Value::Unknown);
    let g = Group::default();
    assert_eq!((g.id, g.zone_id, g.typ, g.status, g.devices.len()), (0, 0, Type::Unknown, Value::Unknown, 0));
}

#[test]
fn a_light_is_on_from_half_brightness() {
    assert!(!Value::Light(0).as_bool());
    assert!(!Value::Light(32767).as_bool());
    assert!(Value::Light(32768).as_bool());
    assert!(Value::Light(FULL).as_bool());
    assert!(!Value::Shadow(FULL, FULL).as_bool());
    assert!(!Value::Unknown.as_bool());
}

#[test]
fn thresholds_in_level_steps() {
    assert!(!at_least_half(32767));
    assert!(at_least_half(32768));
    assert!(at_most_tenth(6553));
    assert!(!at_most_tenth(6554));
    assert!(!at_least_nine_tenths(58981));
    assert!(at_least_nine_tenths(58982));
}

#[test]
fn thresholds_agree_with_the_fractions() {
    for level in [0u16, 1, 6553, 6554, 32767, 32768, 58981, 58982, 65534, 65535] {
        let x = level as f64 / 65535.0;
        assert_eq!(at_least_half(level), x >= 0.5);
        assert_eq!(at_most_tenth(level), x <= 0.1);
        assert_eq!(at_least_nine_tenths(level), x >= 0.9);
    }
}

#[test]
fn opening_is_inverted() {
    assert_eq!(normalize_opening(0), FULL);
    assert_eq!(normalize_opening(FULL), 0);
    assert_eq!(normalize_opening(16384), 49151);
    assert_eq!(denormalize_opening(0), FULL);
    assert_eq!(denormalize_opening(FULL), 0);
    assert_eq!(denormalize_opening(49151), 16384);
}

#[test]
fn opening_round_trip_is_within_one_unit() {
    for raw in 0..=65535u16 {
        let back = denormalize_opening(normalize_opening(raw));
        assert!(back.abs_diff(raw) <= 1);
        assert_eq!(back, raw);
    }
}

#[test]
fn opening_agrees_with_the_fraction() {
    for raw in [0u16, 1, 255, 4660, 32768, 65534, 65535] {
        let normalized = 1.0 - raw as f64 / 65535.0;
        assert!((normalize_opening(raw) as f64 / 65535.0 - normalized).abs() < 1e-9);
    }
}

#[test]
fn angle_is_read_as_it_is_and_written_in_256_steps() {
    assert_eq!(normalize_angle(0), 0);
    assert_eq!(normalize_angle(12345), 12345);
    assert_eq!(normalize_angle(FULL), FULL);
    assert_eq!(denormalize_angle(0), 0);
    assert_eq!(denormalize_angle(256), 0);
    assert_eq!(denormalize_angle(257), 1);
    assert_eq!(denormalize_angle(32768), 127);
    assert_eq!(denormalize_angle(FULL), 255);
}

#[test]
fn angle_agrees_with_the_fraction() {
    for level in [0u16, 1, 256, 257, 19660, 32768, 65534, 65535] {
        let raw = (255.0 * (level as f64 / 65535.0)) as usize;
        assert_eq!(denormalize_angle(level) as usize, raw);
    }
}

#[test]
fn type_codes() {
    let table = [
        (0u8, Type::Unknown),
        (1, Type::Light),
        (2, Type::Shadow),
        (3, Type::Heating),
        (4, Type::Audio),
        (5, Type::Video),
        (8, Type::Joker),
        (9, Type::Cooling),
        (10, Type::Ventilation),
        (11, Type::Window),
        (12, Type::AirRecirculation),
        (48, Type::TemperatureControl),
        (64, Type::ApartmentVentilation),
    ];
    for (code, typ) in table {
        assert_eq!(Type::from(code), typ);
        assert_eq!(Type::from_code(code), Some(typ));
        assert_eq!(typ.code(), code);
    }
    for code in [6u8, 7, 13, 47, 49, 63, 65, 255] {
        assert_eq!(Type::from(code), Type::Unknown);
        assert_eq!(Type::from_code(code), None);
    }
}

#[test]
fn type_names() {
    assert_eq!(Type::Light.name(), "Light");
    assert_eq!(Type::Shadow.name(), "Shadow");
    assert_eq!(Type::AirRecirculation.name(), "AirRecirculation");
    assert_eq!(Type::ApartmentVentilation.name(), "ApartmentVentilation");
    assert_eq!(Type::Unknown.name(), "Unknown");
}

#[test]
fn device_types_of_output_modes() {
    assert_eq!(DeviceType::from(0usize), DeviceType::Switch);
    assert_eq!(DeviceType::from(16usize), DeviceType::Light);
    assert_eq!(DeviceType::from(22usize), DeviceType::Light);
    assert_eq!(DeviceType::from(35usize), DeviceType::Light);
    assert_eq!(DeviceType::from(33usize), DeviceType::Shadow);
    assert_eq!(DeviceType::from(39usize), DeviceType::Tv);
    assert_eq!(DeviceType::from(1usize), DeviceType::Unknown);
    assert_eq!(DeviceType::from(usize::MAX), DeviceType::Unknown);
    assert!(DeviceType::Light.is_groupable());
    assert!(DeviceType::Shadow.is_groupable());
    assert!(!DeviceType::Switch.is_groupable());
    assert!(!DeviceType::Tv.is_groupable());
    assert!(!DeviceType::Unknown.is_groupable());
}

#[test]
fn numbers_as_decimal_text() {
    assert_eq!(decimal(0), "0");
    assert_eq!(decimal(7), "7");
    assert_eq!(decimal(10), "10");
    assert_eq!(decimal(911), "911");
    assert_eq!(decimal(65534), "65534");
    assert_eq!(decimal(usize::MAX), usize::MAX.to_string());
}

#[test]
fn decimal_text_as_numbers() {
    assert_eq!(parse_decimal("0"), Some(0));
    assert_eq!(parse_decimal("007"), Some(7));
    assert_eq!(parse_decimal("+12"), Some(12));
    assert_eq!(parse_decimal("65534"), Some(65534));
    assert_eq!(parse_decimal(&usize::MAX.to_string()), Some(usize::MAX));
    assert_eq!(parse_decimal(""), None);
    assert_eq!(parse_decimal("+"), None);
    assert_eq!(parse_decimal("-1"), None);
    assert_eq!(parse_decimal("1 "), None);
    assert_eq!(parse_decimal(" 1"), None);
    assert_eq!(parse_decimal("1a"), None);
    assert_eq!(parse_decimal("١"), None);
    assert_eq!(parse_decimal("99999999999999999999999999"), None);
}

#[test]
fn decimal_text_agrees_with_the_standard_parser() {
    for text in ["", "+", "+0", "++1", "12", "0012", "18446744073709551615", "18446744073709551616", "1_0", "0x10"] {
        assert_eq!(parse_decimal(text), text.parse::<usize>().ok());
    }
}

#[test]
fn written_numbers_are_read_again() {
    for n in [0usize, 1, 9, 10, 99, 100, 911, 3000, 65535, usize::MAX] {
        assert_eq!(parse_decimal(&decimal(n)), Some(n));
    }
}

#[test]
fn groups_from_scenes() {
    let ids = |scenes: &[usize]| -> Vec<usize> {
        Group::from_scenes(scenes, 2, &Type::Light).iter().map(|g| g.id).collect()
    };
    assert_eq!(ids(&[]), Vec::<usize>::new());
    assert_eq!(ids(&[0]), vec![0]);
    assert_eq!(ids(&[0, 5]), vec![0]);
    assert_eq!(ids(&[0, 1, 2, 3, 4, 5, 6]), vec![1, 2, 3]);
    assert_eq!(ids(&[2]), vec![2]);
    assert_eq!(ids(&[3, 1]), vec![3, 1]);
    assert_eq!(ids(&[0, 2]), vec![2]);
    assert_eq!(ids(&[4, 5, 17]), Vec::<usize>::new());
    assert_eq!(ids(&[0, 0]), vec![0]);
    assert_eq!(ids(&[0, 5, 0, 17, 0]), vec![0]);
    assert_eq!(ids(&[0, 2, 0]), vec![2]);
    assert_eq!(ids(&[1, 1]), vec![1, 1]);
}

#[test]
fn derived_groups_are_fresh() {
    let groups = Group::from_scenes(&[0, 1, 2], 7, &Type::Shadow);
    assert_eq!(groups.len(), 2);
    for g in &groups {
        assert_eq!(g.zone_id, 7);
        assert_eq!(g.typ, Type::Shadow);
        assert_eq!(g.status, Value::Unknown);
        assert!(g.devices.is_empty());
    }
}

#[test]
fn group_from_one_scene() {
    assert_eq!(Group::from_scene(0, 1, &Type::Light).map(|g| g.id), Some(0));
    assert_eq!(Group::from_scene(1, 1, &Type::Light).map(|g| g.id), Some(1));
    assert_eq!(Group::from_scene(3, 1, &Type::Light).map(|g| g.id), Some(3));
    assert!(Group::from_scene(4, 1, &Type::Light).is_none());
    assert!(Group::from_scene(5, 1, &Type::Light).is_none());
    let g = Group::new(3, 9, Type::Heating);
    assert_eq!((g.id, g.zone_id, g.typ, g.status), (3, 9, Type::Heating, Value::Unknown));
}

#[test]
fn type_tags_from_decimal_text() {
    assert_eq!(Type::from_str("1"), Some(Type::Light));
    assert_eq!(Type::from_str("2"), Some(Type::Shadow));
    assert_eq!(Type::from_str("064"), Some(Type::ApartmentVentilation));
    assert_eq!(Type::from_str("+48"), Some(Type::TemperatureControl));
    assert_eq!(Type::from_str("6"), Some(Type::Unknown));
    assert_eq!(Type::from_str("255"), Some(Type::Unknown));
    assert_eq!(Type::from_str("256"), None);
    assert_eq!(Type::from_str(""), None);
    assert_eq!(Type::from_str("light"), None);
    assert_eq!(Type::from_str("-1"), None);
}
