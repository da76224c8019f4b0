use cnx::pattern::Groups;
use cnx::text::{Attributes, Color, Font, Padding};
use cnx::widgets::sensors_bsd;
use cnx::widgets::sensors_linux::{parse_sensors_output, Readings, Sensors, SensorsError, Value};

fn attr() -> Attributes {
    Attributes {
        font: Font::new("SourceCodePro 21"),
        fg_color: Color::white(),
        bg_color: None,
        padding: Padding::new(8, 8, 0, 0),
    }
}

const OUTPUT: &str = r#"applesmc-isa-0300
Adapter: ISA adapter
Right Side  :    0 RPM  (min = 2000 RPM, max = 6199 RPM)
Ts1S:         -127.0 C
Ts2S:          +34.0 F

coretemp-isa-0000
Adapter: ISA adapter
Package id 0:  +58.0 C  (high = +105.0 C, crit = +105.0 C)
Core 0:        +53.0 C  (high = +105.0 C, crit = +105.0 C)
Core 1:        +58.0 C  (high = +105.0 C, crit = +105.0 C)
"#;

fn value(temp: &str, units: &str) -> Value {
    Value {
        temp: temp.to_owned(),
        units: units.to_owned(),
    }
}

fn check_works() {
    let output = OUTPUT;

    let parsed = parse_sensors_output(output).unwrap();
    assert_eq!(parsed.get("Core 0"), Some(&value("53.0", "C")));
    assert_eq!(parsed.get("Core 1"), Some(&value("58.0", "C")));
    assert_eq!(parsed.get("Ts1S"), Some(&value("-127.0", "C")));
    assert_eq!(parsed.get("Ts2S"), Some(&value("34.0", "F")));

    assert_eq!(parsed.len(), 5);
}

#[test]
fn sensors_linux_works() {
    check_works();
}

#[test]
fn sensors_works() {
    check_works();
}

#[test]
fn sensors_output_without_readings() {
    let parsed = parse_sensors_output("nothing to see here\n").unwrap();
    assert_eq!(parsed.len(), 0);
    assert_eq!(parsed.get("Core 0"), None);
}

#[test]
fn later_reading_replaces_earlier() {
    let parsed = parse_sensors_output("\nCore 0: +1.0 C\nCore 0: +2.5 F\n").unwrap();
    assert_eq!(parsed.len(), 1);
    assert_eq!(parsed.get("Core 0"), Some(&value("2.5", "F")));
}

fn groups(name: Option<&str>, temp: Option<&str>, units: Option<&str>) -> Groups {
    (
        name.map(|s| s.to_owned()),
        temp.map(|s| s.to_owned()),
        units.map(|s| s.to_owned()),
    )
}

#[test]
fn readings_from_captures() {
    let found = vec![
        groups(Some("a"), Some("1.0"), Some("C")),
        groups(Some("b"), Some("2.0"), Some("F")),
        groups(Some("a"), Some("3.0"), Some("C")),
    ];
    let readings = Readings::from_captures(Some(found)).unwrap();
    assert_eq!(readings.len(), 2);
    assert_eq!(readings.get("a"), Some(&value("3.0", "C")));
    assert_eq!(readings.get("b"), Some(&value("2.0", "F")));
    assert_eq!(readings.get("c"), None);
}

#[test]
fn readings_from_captures_errors() {
    assert_eq!(
        Readings::from_captures(None).unwrap_err(),
        SensorsError::Pattern
    );
    let found = vec![
        groups(Some("a"), Some("1.0"), Some("C")),
        groups(Some("b"), None, Some("F")),
    ];
    assert_eq!(
        Readings::from_captures(Some(found)).unwrap_err(),
        SensorsError::Incomplete
    );
    let found = vec![groups(None, Some("1.0"), Some("C"))];
    assert_eq!(
        Readings::from_captures(Some(found)).unwrap_err(),
        SensorsError::Incomplete
    );
}

#[test]
fn readings_insert_and_get() {
    let mut readings = Readings::new();
    assert_eq!(readings.len(), 0);
    readings.insert("x".to_owned(), value("1.0", "C"));
    readings.insert("y".to_owned(), value("2.0", "C"));
    readings.insert("x".to_owned(), value("3.0", "F"));
    assert_eq!(readings.len(), 2);
    assert_eq!(readings.get("x"), Some(&value("3.0", "F")));
    assert_eq!(readings.get("y"), Some(&value("2.0", "C")));
}

#[test]
fn sensors_widget_texts() {
    let widget = Sensors::new(
        attr(),
        vec!["Core 0".to_owned(), "Core 7".to_owned(), "Ts2S".to_owned()],
    );
    assert_eq!(widget.update_interval, 60);
    let texts = widget.tick(OUTPUT).unwrap();
    assert_eq!(texts.len(), 3);
    assert_eq!(texts[0].text, "53.0°C");
    assert_eq!(texts[1].text, "Invalid");
    assert_eq!(texts[2].text, "34.0°F");
    assert!(!texts[0].stretch);
    assert!(!texts[0].markup);
    assert!(texts[0].attr == attr());
}

#[test]
fn bsd_units() {
    let info = sensors_bsd::OpenBsd::default();
    assert_eq!(info.parse_units("degC"), "Â°C");
    assert_eq!(info.parse_units("RPM"), " RPM");
    assert_eq!(info.parse_units("V DC"), "V DC");
}

#[test]
fn bsd_load_values() {
    let info = sensors_bsd::OpenBsd;
    let output = "hw.sensors.cpu0.temp0=45.00 degC\nhw.sensors.acpithinkpad0.fan0=3000 RPM\n";
    let readings = info.load_values(output).unwrap();
    assert_eq!(
        readings,
        vec![
            sensors_bsd::Reading {
                value: "45.00".to_owned(),
                units: "Â°C".to_owned(),
            },
            sensors_bsd::Reading {
                value: "3000".to_owned(),
                units: " RPM".to_owned(),
            },
        ]
    );
    assert_eq!(info.load_values("no readings").unwrap(), vec![]);
}

#[test]
fn bsd_readings_from_errors() {
    let info = sensors_bsd::OpenBsd;
    assert_eq!(
        info.readings_from(None).unwrap_err(),
        sensors_bsd::SensorsError::Pattern
    );
    let found = vec![groups(Some("a"), None, None)];
    assert_eq!(
        info.readings_from(Some(found)).unwrap_err(),
        sensors_bsd::SensorsError::MissingValue
    );
    let found = vec![
        groups(None, Some("1"), Some("degC")),
        groups(Some("a"), Some("1"), None),
    ];
    assert_eq!(
        info.readings_from(Some(found)).unwrap_err(),
        sensors_bsd::SensorsError::MissingUnits
    );
}

#[test]
fn bsd_sensors_widget_texts() {
    let widget = sensors_bsd::Sensors::new(attr(), vec!["hw.sensors.cpu0.temp0".to_owned()]);
    let texts = widget.tick(vec![
        sensors_bsd::Value {
            value: 45,
            units: "Â°C".to_owned(),
        },
        sensors_bsd::Value {
            value: 3000,
            units: " RPM".to_owned(),
        },
    ]);
    assert_eq!(texts.len(), 2);
    assert_eq!(texts[0].text, "45Â°C");
    assert_eq!(texts[1].text, "3000 RPM");
    assert!(!texts[1].markup);
}
