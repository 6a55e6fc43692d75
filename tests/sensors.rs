use libtpfanspeed::sensors::{
    core_id, get_core_temp_from_sensors_output, get_cores_from_sensors_output,
    get_temps_from_sensors_output, read_truncated,
};
use libtpfanspeed::{CoreTemperature, ErrorKind};

fn core_entry(id: u32, temp: &str) -> String {
    let n = id + 2;
    format!("\"Core {id}\": {{\"temp{n}_input\": {temp}, \"temp{n}_max\": 100.000, \"temp{n}_crit\": 100.000, \"temp{n}_crit_alarm\": 0.000}}")
}

fn output(entries: &[String]) -> String {
    format!(
        "{{\"acpitz-acpi-0\": {{\"Adapter\": \"ACPI interface\", \"temp1\": {{\"temp1_input\": 47.000}}}}, \"coretemp-isa-0000\": {{\"Adapter\": \"ISA adapter\", {}}}}}",
        entries.join(", ")
    )
}

fn package(temp: &str) -> String {
    format!("\"Package id 0\": {{\"temp1_input\": {temp}, \"temp1_max\": 100.000, \"temp1_crit\": 100.000}}")
}

#[test]
fn average_is_mean_without_package() {
    let out = output(&[core_entry(0, "40.000"), core_entry(1, "50.000")]);
    let t = get_temps_from_sensors_output(out).unwrap();
    assert_eq!(t.avg, 45);
    assert_eq!(t.cores.len(), 2);
    assert_eq!(t.cores[&0], CoreTemperature::new(40, 100, 100));
    assert_eq!(t.cores[&1], CoreTemperature::new(50, 100, 100));
}

#[test]
fn average_is_truncated() {
    let out = output(&[core_entry(0, "40.000"), core_entry(1, "51.000")]);
    assert_eq!(get_temps_from_sensors_output(out).unwrap().avg, 45);
    let out = output(&[core_entry(0, "40.900"), core_entry(1, "41.900"), core_entry(2, "41.000")]);
    assert_eq!(get_temps_from_sensors_output(out).unwrap().avg, 40);
}

#[test]
fn average_comes_from_package() {
    let out = output(&[package("60.000"), core_entry(0, "40.000"), core_entry(1, "50.000")]);
    let t = get_temps_from_sensors_output(out).unwrap();
    assert_eq!(t.avg, 60);
    assert_eq!(t.cores.len(), 2);
}

#[test]
fn non_core_entries_are_excluded() {
    let volt = "\"in0\": {\"in0_input\": 1.200}".to_string();
    let other = "\"Corel 3\": {\"temp5_input\": 30.000}".to_string();
    let out = output(&[core_entry(0, "40.000"), volt, other, core_entry(1, "50.000")]);
    let t = get_temps_from_sensors_output(out.clone()).unwrap();
    assert_eq!(t.cores.keys().copied().collect::<Vec<u8>>(), vec![0, 1]);
    assert_eq!(get_cores_from_sensors_output(out).unwrap(), vec![0, 1]);
}

#[test]
fn readings_are_truncated() {
    let out = output(&[core_entry(0, "45.875"), core_entry(3, "0.5")]);
    let t = get_temps_from_sensors_output(out).unwrap();
    assert_eq!(t.cores[&0].temp, 45);
    assert_eq!(t.cores[&3].temp, 0);
    assert_eq!(t.avg, 22);
    assert_eq!(read_truncated("45.875"), Some(45));
    assert_eq!(read_truncated("45"), Some(45));
    assert_eq!(read_truncated("-3.5"), Some(0));
    assert_eq!(read_truncated("300.0"), Some(255));
    assert_eq!(read_truncated("1e3"), None);
    assert_eq!(read_truncated("4."), None);
    assert_eq!(read_truncated(""), None);
}

#[test]
fn core_names_are_recognised() {
    assert_eq!(core_id("Core 0"), Some(0));
    assert_eq!(core_id("Core 12"), Some(12));
    assert_eq!(core_id("Core 256"), None);
    assert_eq!(core_id("Core "), None);
    assert_eq!(core_id("Core 1a"), None);
    assert_eq!(core_id("Package id 0"), None);
    assert_eq!(core_id("core 1"), None);
}

#[test]
fn malformed_outputs_are_errors() {
    let kind = |s: String| *get_temps_from_sensors_output(s).unwrap_err().kind();
    assert_eq!(kind("not json".to_string()), ErrorKind::GenericError);
    assert_eq!(kind("{\"other\": {}}".to_string()), ErrorKind::GenericError);
    assert_eq!(kind("{\"coretemp-isa-0000\": 3}".to_string()), ErrorKind::GenericError);
    assert_eq!(kind(output(&["\"x\": 1".to_string()])), ErrorKind::GenericError);
    assert_eq!(kind(output(&["\"Core 0\": {\"temp2_input\": 40.0}".to_string()])), ErrorKind::GenericError);
    assert_eq!(kind(output(&[core_entry(1, "40.0"), core_entry(1, "50.0").replace("Core 1", "Core 01")])), ErrorKind::GenericError);
    assert_eq!(kind(output(&[package("\"hot\""), core_entry(0, "40.0")])), ErrorKind::GenericError);
    assert_eq!(kind(output(&[core_entry(0, "\"warm\"")])), ErrorKind::GenericError);
}

#[test]
fn package_without_cores_still_gives_average() {
    let out = output(&[package("61.000")]);
    let t = get_temps_from_sensors_output(out).unwrap();
    assert_eq!(t.avg, 61);
    assert!(t.cores.is_empty());
}

#[test]
fn single_core_is_read() {
    let out = output(&[core_entry(0, "40.000"), core_entry(1, "50.000")]);
    assert_eq!(get_core_temp_from_sensors_output(out.clone(), 1).unwrap(), CoreTemperature::new(50, 100, 100));
    let e = get_core_temp_from_sensors_output(out, 5).unwrap_err();
    assert_eq!(*e.kind(), ErrorKind::InvalidValue);
    assert_eq!(e.desc(), Some("Core 5 is not valid!"));
    let e = get_core_temp_from_sensors_output("[]".to_string(), 0).unwrap_err();
    assert_eq!(*e.kind(), ErrorKind::GenericError);
}

#[test]
fn cores_are_listed() {
    let out = output(&[core_entry(2, "40.000"), core_entry(0, "50.000")]);
    let mut ids = get_cores_from_sensors_output(out).unwrap();
    ids.sort();
    assert_eq!(ids, vec![0, 2]);
    assert_eq!(*get_cores_from_sensors_output("{}".to_string()).unwrap_err().kind(), ErrorKind::GenericError);
}

#[test]
fn temperature_values() {
    let t = libtpfanspeed::Temperatures::new();
    assert_eq!(t.avg, 0);
    assert!(t.cores.is_empty());
    let c = CoreTemperature::new(1, 2, 3);
    assert_eq!((c.temp, c.max, c.critical), (1, 2, 3));
}

#[test]
fn temperatures_render_by_core_index() {
    let out = output(&[core_entry(1, "50.000"), core_entry(0, "40.000")]);
    let t = get_temps_from_sensors_output(out).unwrap();
    assert_eq!(
        t.render(),
        "Average: 45°C\n0: 40°C (max 100, crit 100)\n1: 50°C (max 100, crit 100)"
    );
    assert_eq!(CoreTemperature::new(7, 80, 95).render(), "7°C (max 80, crit 95)");
    assert_eq!(libtpfanspeed::Temperatures::new().render(), "Average: 0°C\n");
}
