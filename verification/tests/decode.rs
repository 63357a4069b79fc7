use yeeclient::addr::Endpoint;
use yeeclient::addr::Ipv4;
use yeeclient::err::FieldName;
use yeeclient::err::YeeError;
use yeeclient::fields::ColorMode;
use yeeclient::fields::PowerStatus;
use yeeclient::fields::Rgb;
use yeeclient::fields::parse_bounded;
use yeeclient::fields::parse_color_mode;
use yeeclient::fields::parse_power;
use yeeclient::fields::parse_rgb;
use yeeclient::fields::parse_support;
use yeeclient::light::Light;
use yeeclient::parser::Headers;
use yeeclient::session::DedupeCollector;

const ALL_FIELDS: [(&str, &str); 12] = [
    ("id", "0x1234"),
    ("model", "floor"),
    ("fw_ver", "40"),
    ("power", "on"),
    ("support", "get_power set_power get_rgb set_rgb"),
    ("bright", "34"),
    ("color_mode", "2"),
    ("ct", "0"),
    ("rgb", "657930"),
    ("hue", "314"),
    ("sat", "12"),
    ("name", "room_light"),
];

fn map_without(skipped: Option<&str>) -> Headers {
    let mut h = Headers::new();
    for (name, value) in ALL_FIELDS {
        if Some(name) != skipped {
            h.push(name.to_string(), value.to_string());
        }
    }
    h
}

fn get_map() -> Headers {
    map_without(None)
}

fn test_addr() -> Endpoint {
    Endpoint { ip: Ipv4 { a: 192, b: 168, c: 0, d: 42 }, port: 1234 }
}

#[test]
fn get_correct_location() {
    let map = get_map();
    let addr = test_addr();

    let light = Light::from_fields(&map, addr).unwrap();

    assert_eq!(light.location(), &addr);
}

#[test]
fn get_correct_support() {
    let map = get_map();
    let light = Light::from_fields(&map, test_addr()).unwrap();

    let mut support: Vec<String> = light.support().clone();
    support.sort();
    let mut expected: Vec<String> =
        ["get_power", "set_power", "get_rgb", "set_rgb"].iter().map(|s| s.to_string()).collect();
    expected.sort();
    assert_eq!(support, expected);
}

#[test]
fn decode_complete_mapping() {
    let map = get_map();
    let light = Light::from_fields(&map, test_addr()).unwrap();

    assert_eq!(light.id(), "0x1234");
    assert_eq!(light.model(), "floor");
    assert_eq!(light.fw_ver(), 40);
    assert_eq!(light.power(), &PowerStatus::On);
    assert_eq!(light.bright(), 34);
    assert_eq!(light.color_mode(), &ColorMode::ColorTemperature);
    assert_eq!(light.ct(), 0);
    assert_eq!(light.rgb(), &Rgb { red: 10, green: 10, blue: 10 });
    assert_eq!(light.hue(), 314);
    assert_eq!(light.sat(), 12);
    assert_eq!(light.name(), "room_light");
}

#[test]
fn each_missing_field_is_reported() {
    let expected: [(&str, FieldName); 12] = [
        ("id", FieldName::Id),
        ("model", FieldName::Model),
        ("fw_ver", FieldName::FwVer),
        ("power", FieldName::Power),
        ("support", FieldName::Support),
        ("bright", FieldName::Bright),
        ("color_mode", FieldName::ColorMode),
        ("ct", FieldName::Ct),
        ("rgb", FieldName::Rgb),
        ("hue", FieldName::Hue),
        ("sat", FieldName::Sat),
        ("name", FieldName::Name),
    ];
    for (name, field) in expected {
        let map = map_without(Some(name));
        let result = Light::from_fields(&map, test_addr());
        match result {
            Err(YeeError::FieldMissing { field: reported }) => assert_eq!(reported, field),
            _ => panic!("removing {} did not report it as missing", name),
        }
    }
}

#[test]
fn each_invalid_field_is_reported() {
    let cases: [(&str, &str, FieldName); 8] = [
        ("fw_ver", "abc", FieldName::FwVer),
        ("power", "ON", FieldName::Power),
        ("bright", "12x", FieldName::Bright),
        ("color_mode", "9", FieldName::ColorMode),
        ("ct", "-1", FieldName::Ct),
        ("rgb", "16777216", FieldName::Rgb),
        ("hue", "65536", FieldName::Hue),
        ("sat", "256", FieldName::Sat),
    ];
    for (name, bad, field) in cases {
        let mut map = map_without(Some(name));
        map.push(name.to_string(), bad.to_string());
        let result = Light::from_fields(&map, test_addr());
        match result {
            Err(YeeError::FieldInvalid { field: reported, raw }) => {
                assert_eq!(reported, field);
                assert_eq!(raw, bad);
            },
            _ => panic!("value {:?} for {} was not reported as invalid", bad, name),
        }
    }
}

#[test]
fn rgb_unpacks_packed_decimal() {
    assert_eq!(parse_rgb("657930"), Some(Rgb { red: 10, green: 10, blue: 10 }));
    assert_eq!(parse_rgb("16777215"), Some(Rgb { red: 255, green: 255, blue: 255 }));
    assert_eq!(parse_rgb("255"), Some(Rgb { red: 0, green: 0, blue: 255 }));
    assert_eq!(parse_rgb("16777216"), None);
}

#[test]
fn color_mode_codes() {
    assert_eq!(parse_color_mode("1"), Some(ColorMode::Color));
    assert_eq!(parse_color_mode("2"), Some(ColorMode::ColorTemperature));
    assert_eq!(parse_color_mode("3"), Some(ColorMode::Hsv));
    assert_eq!(parse_color_mode("0"), None);
    assert_eq!(parse_color_mode("4"), None);
    assert_eq!(parse_color_mode("two"), None);
}

#[test]
fn power_is_exact_match() {
    assert_eq!(parse_power("on"), Some(PowerStatus::On));
    assert_eq!(parse_power("off"), Some(PowerStatus::Off));
    assert_eq!(parse_power("On"), None);
    assert_eq!(parse_power("on "), None);
    assert_eq!(parse_power(""), None);
}

#[test]
fn support_tokenization() {
    assert_eq!(parse_support(""), Vec::<String>::new());
    assert_eq!(parse_support("   "), Vec::<String>::new());
    let abc = parse_support("a b c");
    assert_eq!(abc, vec!["a".to_string(), "b".to_string(), "c".to_string()]);
    let deduped = parse_support("a a b  a");
    assert_eq!(deduped, vec!["a".to_string(), "b".to_string()]);
}

#[test]
fn decimal_parsing_edges() {
    assert_eq!(parse_bounded("0", 255), Some(0));
    assert_eq!(parse_bounded("00", 255), Some(0));
    assert_eq!(parse_bounded("+5", 255), Some(5));
    assert_eq!(parse_bounded("255", 255), Some(255));
    assert_eq!(parse_bounded("256", 255), None);
    assert_eq!(parse_bounded("", 255), None);
    assert_eq!(parse_bounded("+", 255), None);
    assert_eq!(parse_bounded(" 5", 255), None);
    assert_eq!(parse_bounded("5 ", 255), None);
    assert_eq!(parse_bounded("65535", 65535), Some(65535));
    assert_eq!(parse_bounded("65536", 65535), None);
    assert_eq!(parse_bounded("999999999999999999999999", 65535), None);
}

#[test]
fn duplicate_header_keeps_last_value() {
    let mut map = get_map();
    map.push("bright".to_string(), "77".to_string());
    let light = Light::from_fields(&map, test_addr()).unwrap();
    assert_eq!(light.bright(), 77);
}

#[test]
fn decoding_twice_gives_equal_lights() {
    let map = get_map();
    let first = Light::from_fields(&map, test_addr()).unwrap();
    let second = Light::from_fields(&map, test_addr()).unwrap();
    assert!(first == second);
}

#[test]
fn same_id_means_same_device() {
    let map = get_map();
    let mut other = map_without(Some("model"));
    other.push("model".to_string(), "strip".to_string());
    let first = Light::from_fields(&map, test_addr()).unwrap();
    let second = Light::from_fields(&other, test_addr()).unwrap();
    assert_eq!(first.model(), "floor");
    assert_eq!(second.model(), "strip");
    assert!(first == second);
}

#[test]
fn collector_keeps_first_per_id() {
    let map = get_map();
    let mut collector = DedupeCollector::new();

    let first = Light::from_fields(&map, test_addr()).unwrap();
    assert!(collector.offer(first));

    let mut other = map_without(Some("name"));
    other.push("name".to_string(), "renamed".to_string());
    let duplicate = Light::from_fields(&other, test_addr()).unwrap();
    assert!(!collector.offer(duplicate));

    let mut third = map_without(Some("id"));
    third.push("id".to_string(), "0x9999".to_string());
    let fresh = Light::from_fields(&third, test_addr()).unwrap();
    assert!(collector.offer(fresh));

    let lights = collector.finish();
    assert_eq!(lights.len(), 2);
    assert_eq!(lights[0].name(), "room_light");
}
