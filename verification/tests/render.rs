use chrono::{DateTime, Local};
use serde_json::Value;

use edlr_core::capability::GrantState;
use edlr_core::manifest::{
    BusRequest, CapabilityRequest, DashboardWidget, FilesystemMode, FilesystemRequest,
    ScheduleSpec, SidecarRequest, WidgetSize,
};
use edlr_core::registry::InstanceStatus;
use edlr_core::rpc::info::{BusInfo, DashboardInfo, FilesystemInfo, ScheduleInfo, SidecarInfo};
use edlr_core::rpc::params::{param_bool, param_object, param_str};
use edlr_core::rpc::render::{
    bus_result_json, calendar_moment, capabilities_result_json, dashboard_result_json,
    dropped_result_json, filesystem_result_json, schedules_json, schedules_result_json, sidecars_result_json,
};
use edlr_core::runtime::dropped::DroppedCounts;
use edlr_core::settings::{FilesystemConfig, SidecarConfig};

fn json(text: &str) -> Value {
    serde_json::from_str(text).unwrap()
}

#[test]
fn capabilities_json_has_requests_granted_and_stale_grant() {
    let state = GrantState { granted: true, stale: false };
    assert_eq!(
        capabilities_result_json(&vec![], &state),
        json(r#"{ "requests": [], "granted": true, "staleGrant": false }"#)
    );
}

#[test]
fn capabilities_json_includes_populated_http_request() {
    let requests = vec![CapabilityRequest::Http {
        hosts: vec!["https://api.example.com".to_string()],
        reason: "call the api".to_string(),
    }];
    let state = GrantState { granted: false, stale: true };
    assert_eq!(
        capabilities_result_json(&requests, &state),
        json(
            r#"{
                "requests": [
                    { "kind": "http", "hosts": ["https://api.example.com"], "reason": "call the api" }
                ],
                "granted": false,
                "staleGrant": true
            }"#
        )
    );
}

#[test]
fn dashboard_json_is_empty_for_empty_slice() {
    assert_eq!(dashboard_result_json(&vec![]), json(r#"{ "dashboard": [] }"#));
}

#[test]
fn dashboard_json_includes_populated_widget() {
    let dashboard = vec![DashboardInfo {
        request: DashboardWidget {
            id: "widget-1".to_string(),
            title: "Widget One".to_string(),
            entry: "widget.html".to_string(),
            size: WidgetSize::Medium,
        },
        grant: GrantState { granted: true, stale: false },
        resolved: true,
    }];
    assert_eq!(
        dashboard_result_json(&dashboard),
        json(
            r#"{
                "dashboard": [
                    {
                        "id": "widget-1",
                        "title": "Widget One",
                        "entry": "widget.html",
                        "size": "medium",
                        "granted": true,
                        "staleGrant": false,
                        "resolved": true
                    }
                ]
            }"#
        )
    );
}

#[test]
fn bus_json_is_empty_for_empty_slice() {
    assert_eq!(bus_result_json(&vec![]), json(r#"{ "bus": [] }"#));
}

#[test]
fn bus_json_includes_populated_connection() {
    let bus = vec![BusInfo {
        request: BusRequest {
            driver: "mqtt".to_string(),
            publish: vec!["topic/out".to_string()],
            subscribe: vec!["topic/in".to_string()],
            reason: "telemetry".to_string(),
        },
        grant: GrantState { granted: true, stale: false },
        resolved: false,
    }];
    assert_eq!(
        bus_result_json(&bus),
        json(
            r#"{
                "bus": [
                    {
                        "driver": "mqtt",
                        "publish": ["topic/out"],
                        "subscribe": ["topic/in"],
                        "reason": "telemetry",
                        "granted": true,
                        "staleGrant": false,
                        "resolved": false
                    }
                ]
            }"#
        )
    );
}

#[test]
fn dropped_json_reports_event_and_bus_delivery_counts() {
    let dropped = DroppedCounts { events: 3, bus_deliveries: 7 };
    assert_eq!(
        dropped_result_json(&dropped),
        json(r#"{ "events": 3, "busDeliveries": 7 }"#)
    );
}

#[test]
fn schedules_json_is_empty_for_empty_slice() {
    assert_eq!(schedules_result_json(&vec![]), json(r#"{ "schedules": [] }"#));
}

fn noon() -> DateTime<Local> {
    DateTime::parse_from_rfc3339("2026-07-30T12:00:00+09:00")
        .unwrap()
        .with_timezone(&Local)
}

fn scheduled(name: &str, spec: ScheduleSpec) -> Vec<ScheduleInfo> {
    vec![ScheduleInfo {
        name: name.to_string(),
        spec,
        next: noon().timestamp_nanos_opt().unwrap() as i128,
    }]
}

#[test]
fn schedules_json_includes_populated_schedule_with_fixed_timestamp() {
    let schedules = scheduled("daily-report", ScheduleSpec::Cron("0 9 * * *".to_string()));
    let shown = schedules_result_json(&schedules);
    let item = &shown["schedules"][0];
    assert_eq!(shown["schedules"].as_array().unwrap().len(), 1);
    assert_eq!(item["name"], "daily-report");
    assert_eq!(item["spec"], "cron: 0 9 * * *");
    assert_eq!(item["next"], noon().to_rfc3339());
    assert_eq!(item.as_object().unwrap().len(), 3);
}

#[test]
fn schedules_json_includes_populated_interval_schedule_with_fixed_timestamp() {
    let schedules = scheduled("poll-status", ScheduleSpec::IntervalSeconds(30));
    let shown = schedules_result_json(&schedules);
    let item = &shown["schedules"][0];
    assert_eq!(shown["schedules"].as_array().unwrap().len(), 1);
    assert_eq!(item["name"], "poll-status");
    assert_eq!(item["spec"], "every 30s");
    assert_eq!(item["next"], noon().to_rfc3339());
    assert_eq!(item.as_object().unwrap().len(), 3);
}

#[test]
fn sidecars_json_is_empty_for_empty_slice() {
    assert_eq!(sidecars_result_json(&vec![]), json(r#"{ "sidecars": [] }"#));
}

#[test]
fn sidecars_json_includes_populated_sidecar_with_instances() {
    let sidecars = vec![SidecarInfo {
        request: SidecarRequest {
            name: "worker".to_string(),
            reason: "background jobs".to_string(),
            args: vec!["--verbose".to_string()],
            port: 8080,
            scalable: true,
        },
        config: SidecarConfig {
            command: "/usr/bin/worker".to_string(),
            args: vec!["--verbose".to_string()],
            port: 8080,
            replicas: 2,
        },
        grant: GrantState { granted: true, stale: false },
        instances: vec![
            InstanceStatus { index: 0, port: 8080, running: true, exit_code: None },
            InstanceStatus { index: 1, port: 8081, running: false, exit_code: Some(1) },
        ],
    }];
    assert_eq!(
        sidecars_result_json(&sidecars),
        json(
            r#"{
                "sidecars": [
                    {
                        "name": "worker",
                        "reason": "background jobs",
                        "args": ["--verbose"],
                        "port": 8080,
                        "scalable": true,
                        "granted": true,
                        "staleGrant": false,
                        "config": {
                            "command": "/usr/bin/worker",
                            "args": ["--verbose"],
                            "port": 8080,
                            "replicas": 2
                        },
                        "instances": [
                            { "index": 0, "port": 8080, "state": "running", "exitCode": null },
                            { "index": 1, "port": 8081, "state": "exited", "exitCode": 1 }
                        ]
                    }
                ]
            }"#
        )
    );
}

#[test]
fn filesystem_json_is_empty_for_empty_slice() {
    assert_eq!(filesystem_result_json(&vec![]), json(r#"{ "roots": [] }"#));
}

#[test]
fn filesystem_json_includes_populated_root() {
    let roots = vec![FilesystemInfo {
        request: FilesystemRequest {
            name: "data".to_string(),
            reason: "read config files".to_string(),
            mode: FilesystemMode::ReadWrite,
        },
        config: FilesystemConfig { path: "/home/user/data".to_string() },
        grant: GrantState { granted: false, stale: false },
    }];
    assert_eq!(
        filesystem_result_json(&roots),
        json(
            r#"{
                "roots": [
                    {
                        "name": "data",
                        "reason": "read config files",
                        "mode": "read-write",
                        "granted": false,
                        "staleGrant": false,
                        "config": { "path": "/home/user/data" }
                    }
                ]
            }"#
        )
    );
}

#[test]
fn a_negative_exit_code_is_shown_as_it_is() {
    let mut sidecars = vec![SidecarInfo {
        request: SidecarRequest {
            name: "w".into(),
            reason: "r".into(),
            args: vec![],
            port: 1,
            scalable: false,
        },
        config: SidecarConfig { command: String::new(), args: vec![], port: 1, replicas: 1 },
        grant: GrantState { granted: false, stale: false },
        instances: vec![],
    }];
    sidecars[0].instances.push(InstanceStatus {
        index: 0,
        port: 1,
        running: false,
        exit_code: Some(-9),
    });
    let shown = sidecars_result_json(&sidecars);
    assert_eq!(shown["sidecars"][0]["instances"][0]["exitCode"], -9);
}

#[test]
fn a_time_that_no_calendar_reaches_is_shown_as_null() {
    let schedules = vec![ScheduleInfo {
        name: "far".into(),
        spec: ScheduleSpec::IntervalSeconds(60),
        next: i128::MAX,
    }];
    assert_eq!(schedules_result_json(&schedules)["schedules"][0]["next"], Value::Null);
}

#[test]
fn next_times_are_shown_as_they_were_written() {
    let schedules = scheduled("a", ScheduleSpec::IntervalSeconds(5));
    let shown = schedules_json(&schedules, &vec![Some("soon".to_string())]);
    assert_eq!(shown, json(r#"[{ "name": "a", "spec": "every 5s", "next": "soon" }]"#));
}

#[test]
fn times_before_the_epoch_are_shown_too() {
    let schedules = vec![ScheduleInfo {
        name: "old".into(),
        spec: ScheduleSpec::IntervalSeconds(60),
        next: -1_500_000_000,
    }];
    let shown = schedules_result_json(&schedules);
    let text = shown["schedules"][0]["next"].as_str().unwrap().to_string();
    let at = DateTime::parse_from_rfc3339(&text).unwrap();
    assert_eq!(at.timestamp_nanos_opt().unwrap(), -1_500_000_000);
}

#[test]
fn parameters_of_the_wrong_kind_are_named() {
    let params = json(r#"{ "name": 1, "granted": "yes", "values": [] }"#);
    assert_eq!(param_str(&params, "name").unwrap_err(), "params.name must be a string");
    assert_eq!(param_bool(&params, "granted").unwrap_err(), "params.granted must be a bool");
    assert_eq!(
        param_object(&params, "values").unwrap_err(),
        "params.values must be an object"
    );
    let params = json(r#"{ "name": "n", "granted": true, "values": { "a": 1 } }"#);
    assert_eq!(param_str(&params, "name"), Ok("n"));
    assert_eq!(param_bool(&params, "granted"), Ok(true));
    assert_eq!(param_object(&params, "values").unwrap().len(), 1);
}

#[test]
fn moments_beyond_the_calendar_are_not_written() {
    assert_eq!(calendar_moment(1_500_000_000), Some((1, 500_000_000)));
    assert_eq!(calendar_moment(-1), Some((-1, 999_999_999)));
    assert_eq!(calendar_moment(8_210_266_876_799_999_999_999), Some((8_210_266_876_799, 999_999_999)));
    assert_eq!(calendar_moment(8_210_266_876_800_000_000_000), None);
    assert_eq!(calendar_moment(-8_334_601_228_800_000_000_000), Some((-8_334_601_228_800, 0)));
    assert_eq!(calendar_moment(-8_334_601_228_800_000_000_001), None);

    let at = |next: i128| {
        let infos = vec![ScheduleInfo {
            name: "s".into(),
            spec: ScheduleSpec::IntervalSeconds(60),
            next,
        }];
        schedules_result_json(&infos)["schedules"][0]["next"].clone()
    };
    assert!(at(8_210_266_876_799_999_999_999).is_string());
    assert!(at(-8_334_601_228_800_000_000_000).is_string());
    assert!(at(8_210_266_876_800_000_000_000).is_null());
    assert!(at(-8_334_601_228_800_000_000_001).is_null());
}
