use edlr_core::runtime::bus::{
    bus_json_string, check_bus_permission, parse_bus, BusDirection, BusRuntimeEntry,
};
use edlr_core::runtime::capabilities::{capabilities_json_string, parse_capability_hosts};
use edlr_core::runtime::fs::{filesystem_json_string, parse_filesystem, FsRuntimeEntry};
use edlr_core::runtime::sidecar::{
    implicit_http_hosts, parse_sidecars, sidecars_json_string, SidecarRuntimeEntry,
};

fn bus_entry(granted: bool) -> BusRuntimeEntry {
    BusRuntimeEntry {
        driver: "ed-state".into(),
        granted,
        publish: vec!["ship-status".into()],
        subscribe: vec!["current-system".into()],
    }
}

#[test]
fn ungranted_entries_carry_no_topics() {
    let parsed = parse_bus(&bus_json_string(&vec![bus_entry(false)]));
    let e = parsed.get("ed-state").expect("entry survives serialization");
    assert!(!e.granted);
    assert!(e.publish.is_empty());
    assert!(e.subscribe.is_empty());
}

#[test]
fn bus_granted_entries_round_trip() {
    let parsed = parse_bus(&bus_json_string(&vec![bus_entry(true)]));
    let e = parsed.get("ed-state").unwrap();
    assert!(e.granted);
    assert_eq!(e.publish, vec!["ship-status".to_string()]);
}

#[test]
fn broken_json_parses_as_no_entries() {
    assert!(parse_bus("not json {{{").into_values().is_empty());
}

fn fs_entry(granted: bool) -> FsRuntimeEntry {
    FsRuntimeEntry {
        name: "exports".into(),
        granted,
        mode: "read-write".into(),
        path: "/home/u/exports".into(),
    }
}

#[test]
fn ungranted_entries_carry_no_path() {
    let parsed = parse_filesystem(&filesystem_json_string(&vec![fs_entry(false)]));
    let root = parsed.get("exports").expect("entry survives serialization");
    assert!(!root.granted);
    assert_eq!(root.path, "");
}

#[test]
fn fs_granted_entries_round_trip() {
    let parsed = parse_filesystem(&filesystem_json_string(&vec![fs_entry(true)]));
    let root = parsed.get("exports").unwrap();
    assert!(root.granted);
    assert_eq!(root.path, "/home/u/exports");
    assert_eq!(root.mode, "read-write");
}

#[test]
fn broken_json_parses_as_no_roots() {
    assert!(parse_filesystem("not json {{{").into_values().is_empty());
}

#[test]
fn topics_are_open_in_their_direction_only() {
    let entries = parse_bus(&bus_json_string(&vec![bus_entry(true)]));
    assert!(check_bus_permission(&entries, "ed-state", "ship-status", BusDirection::Publish));
    assert!(!check_bus_permission(&entries, "ed-state", "ship-status", BusDirection::Subscribe));
    assert!(!check_bus_permission(&entries, "other", "ship-status", BusDirection::Publish));
}

#[test]
fn unapproved_sidecars_disclose_neither_command_nor_ports() {
    let entry = |granted: bool| SidecarRuntimeEntry {
        name: "engine".into(),
        granted,
        command: "/bin/sh".into(),
        args: vec!["-c".into()],
        ports: vec![5000],
    };
    let parsed = parse_sidecars(&sidecars_json_string(&vec![entry(false)]));
    let hidden = parsed.get("engine").unwrap();
    assert_eq!(hidden.command, "");
    assert!(hidden.args.is_empty());
    let parsed = parse_sidecars(&sidecars_json_string(&vec![entry(true)]));
    assert_eq!(parsed.get("engine").unwrap().command, "/bin/sh");
    assert_eq!(implicit_http_hosts(&vec![entry(true)]), vec!["http://127.0.0.1:5000".to_string()]);
}

#[test]
fn hosts_are_written_compactly_and_read_back() {
    let hosts = vec!["a.example".to_string(), "b.example".to_string()];
    let raw = capabilities_json_string(&hosts);
    assert_eq!(raw, "{\"hosts\":[\"a.example\",\"b.example\"]}");
    assert_eq!(parse_capability_hosts(&raw), hosts);
    assert!(parse_capability_hosts("nothing").is_empty());
    assert!(parse_capability_hosts("{\"hosts\":[1]}").is_empty());
}

#[test]
fn fields_are_written_in_their_order() {
    assert_eq!(
        filesystem_json_string(&vec![fs_entry(true), fs_entry(false)]),
        [
            r#"[{"name":"exports","granted":true,"mode":"read-write","path":"/home/u/exports"},"#,
            r#"{"name":"exports","granted":false,"mode":"read-write","path":""}]"#,
        ]
        .concat()
    );
    assert_eq!(
        bus_json_string(&vec![bus_entry(true)]),
        [
            r#"[{"driver":"ed-state","granted":true,"#,
            r#""publish":["ship-status"],"subscribe":["current-system"]}]"#,
        ]
        .concat()
    );
    assert_eq!(filesystem_json_string(&vec![]), "[]");
}

#[test]
fn written_texts_are_escaped() {
    let mut entry = fs_entry(true);
    entry.name = "a\"b\\c\n\u{1F600}".into();
    let raw = filesystem_json_string(&vec![entry]);
    assert!(raw.contains(r#""a\"b\\c\n"#), "got {raw}");
    assert!(parse_filesystem(&raw).get("a\"b\\c\n\u{1F600}").is_some());
}

#[test]
fn a_known_field_stands_in_an_entry_once() {
    let twice = r#"[{"name":"a","granted":true,"mode":"m","name":"b"}]"#;
    assert!(parse_filesystem(twice).into_values().is_empty());
    let escaped = r#"[{"name":"a","granted":true,"mode":"m","n\u0061me":"b"}]"#;
    assert!(parse_filesystem(escaped).into_values().is_empty());
    let spoils_the_rest = [
        r#"[{"driver":"a","granted":true},"#,
        r#"{"driver":"b","granted":true,"granted":true}]"#,
    ]
    .concat();
    assert!(parse_bus(&spoils_the_rest).into_values().is_empty());
}

#[test]
fn fields_that_are_not_known_are_passed_over() {
    let deep = format!("{}{}", "[".repeat(500), "]".repeat(500));
    let raw = format!(
        r#" [ {{ "x" : {deep} , "x" : 1e999 , "mode":"m", "granted":false, "name":"a" }} ] "#
    );
    let parsed = parse_filesystem(&raw);
    let root = parsed.get("a").unwrap();
    assert!(!root.granted);
    assert_eq!(root.mode, "m");
    assert_eq!(root.path, "");
}

#[test]
fn an_entry_may_be_a_list_of_its_fields() {
    let parsed = parse_filesystem(r#"[["a", true, "m"], ["b", false, "m", "/p"]]"#);
    assert_eq!(parsed.get("a").unwrap().path, "");
    assert_eq!(parsed.get("b").unwrap().path, "/p");
    assert!(parse_filesystem(r#"[["a", true, "m", "/p", 1]]"#).into_values().is_empty());
    assert!(parse_filesystem(r#"[["a", true]]"#).into_values().is_empty());
}

#[test]
fn entries_of_another_shape_leave_nothing() {
    for raw in [
        "",
        "[",
        "{}",
        "null",
        "[null]",
        "[{}]",
        r#"[{"name":"a","granted":true,"mode":"m",}]"#,
        r#"[{"name":"a","granted":true,"mode":"m"},]"#,
        r#"[{"name":"a","granted":true,"mode":"m"}] x"#,
        r#"[{"name":"a","granted":1,"mode":"m"}]"#,
        r#"[{"name":1,"granted":true,"mode":"m"}]"#,
        r#"[{"name":"a","granted":true,"mode":"m","path":null}]"#,
        r#"[{"name":{"$serde_json::private::RawValue":"\"a\""},"granted":true,"mode":"m"}]"#,
        r#"[{"name":"a","granted":true}]"#,
    ] {
        assert!(parse_filesystem(raw).into_values().is_empty(), "read {raw}");
    }
    assert!(parse_filesystem(" [ ] ").into_values().is_empty());
    assert!(parse_bus(r#"[{"driver":"a","granted":true,"publish":["t",1]}]"#).into_values().is_empty());
}

#[test]
fn ports_out_of_range_are_no_ports() {
    let raw = |port: &str| format!(r#"[{{"name":"s","granted":true,"ports":[{port}]}}]"#);
    assert_eq!(parse_sidecars(&raw("65535")).get("s").unwrap().ports, vec![65535]);
    for port in ["65536", "-1", "1.0", "\"1\""] {
        assert!(parse_sidecars(&raw(port)).into_values().is_empty(), "read {port}");
    }
}
