use edlr_core::registry::sidecar::{
    grant_sidecar_decision, merged_effective_hosts, sidecar_grant_stop_names,
    sidecar_start_decision, GrantSidecarDecision, SidecarStartDecision,
};
use edlr_core::runtime::sidecar::SidecarRuntimeEntry;

#[test]
fn sidecar_start_decision_disabled_wins_over_other_checks() {
    assert_eq!(
        sidecar_start_decision(true, true, true),
        SidecarStartDecision::Disabled
    );
    assert_eq!(
        sidecar_start_decision(true, false, false),
        SidecarStartDecision::Disabled
    );
}

#[test]
fn sidecar_start_decision_not_granted_when_enabled() {
    assert_eq!(
        sidecar_start_decision(false, false, true),
        SidecarStartDecision::NotGranted
    );
}

#[test]
fn sidecar_start_decision_no_executable_when_granted_but_unconfigured() {
    assert_eq!(
        sidecar_start_decision(false, true, false),
        SidecarStartDecision::NoExecutable
    );
}

#[test]
fn sidecar_start_decision_proceeds_when_all_clear() {
    assert_eq!(
        sidecar_start_decision(false, true, true),
        SidecarStartDecision::Proceed
    );
}

#[test]
fn grant_sidecar_decision_rejects_grant_without_executable() {
    assert_eq!(
        grant_sidecar_decision(true, false),
        GrantSidecarDecision::NoExecutable
    );
}

#[test]
fn grant_sidecar_decision_allows_revoke_without_executable() {
    assert_eq!(
        grant_sidecar_decision(false, false),
        GrantSidecarDecision::Proceed
    );
}

#[test]
fn grant_sidecar_decision_allows_grant_with_executable() {
    assert_eq!(
        grant_sidecar_decision(true, true),
        GrantSidecarDecision::Proceed
    );
}

#[test]
fn sidecar_grant_stop_names_is_empty_when_granting() {
    assert_eq!(sidecar_grant_stop_names("s1", true), Vec::<String>::new());
}

#[test]
fn sidecar_grant_stop_names_contains_name_when_revoking() {
    assert_eq!(
        sidecar_grant_stop_names("s1", false),
        vec!["s1".to_string()]
    );
}

fn one_sidecar() -> Vec<SidecarRuntimeEntry> {
    vec![SidecarRuntimeEntry {
        name: "s1".into(),
        granted: true,
        command: "/bin/s1".into(),
        args: vec![],
        ports: vec![9000],
    }]
}

#[test]
fn merged_effective_hosts_keeps_explicit_and_implicit_when_granted() {
    let hosts = merged_effective_hosts(true, vec!["example.com".into()], &one_sidecar());
    assert_eq!(
        hosts,
        vec![
            "example.com".to_string(),
            "http://127.0.0.1:9000".to_string()
        ]
    );
}

#[test]
fn merged_effective_hosts_drops_explicit_but_keeps_implicit_when_not_granted() {
    let hosts = merged_effective_hosts(false, vec!["example.com".into()], &one_sidecar());
    assert_eq!(hosts, vec!["http://127.0.0.1:9000".to_string()]);
}

#[test]
fn merged_effective_hosts_skips_ungranted_sidecars_and_keeps_every_port() {
    let entries = vec![
        SidecarRuntimeEntry {
            name: "a".into(),
            granted: false,
            command: "/bin/a".into(),
            args: vec![],
            ports: vec![1],
        },
        SidecarRuntimeEntry {
            name: "b".into(),
            granted: true,
            command: "/bin/b".into(),
            args: vec![],
            ports: vec![65535, 10],
        },
    ];
    assert_eq!(
        merged_effective_hosts(true, Vec::new(), &entries),
        vec![
            "http://127.0.0.1:65535".to_string(),
            "http://127.0.0.1:10".to_string()
        ]
    );
}
