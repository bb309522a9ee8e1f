use libcni::api::{CniExecution, ConfigInput};
use libcni::env::{CniEnv, EnvValue};
use libcni::error::CniErrorCode;
use libcni::json::Json;

fn s(x: &str) -> String {
    x.to_string()
}

fn bridge_config() -> Json {
    Json::Object(vec![
        (s("cniVersion"), Json::Str(s("1.1.0"))),
        (s("name"), Json::Str(s("mynet"))),
        (s("type"), Json::Str(s("bridge"))),
    ])
}

fn env_with(vars: &[(&str, &str)]) -> CniEnv {
    let mut env = CniEnv::new();
    for (k, v) in vars {
        env.set_text(k, v);
    }
    env
}

fn load(vars: &[(&str, &str)], input: ConfigInput) -> Result<CniExecution, CniErrorCode> {
    CniExecution::load_args_from_env(&env_with(vars), input)
}

#[test]
fn missing_command_is_code_12() {
    let r = load(&[("CNI_CONTAINERID", "c1")], ConfigInput::Parsed(bridge_config()));
    let e = r.unwrap_err();
    assert_eq!(e.code(), 12);
    assert!(matches!(e, CniErrorCode::MissingEnvironmentVariable { ref var } if var == "CNI_COMMAND"));
}

#[test]
fn unknown_command_is_code_14() {
    let r = load(&[("CNI_COMMAND", "frobnicate")], ConfigInput::Parsed(bridge_config()));
    let e = r.unwrap_err();
    assert_eq!(e.code(), 14);
    assert!(matches!(e, CniErrorCode::UnknownCommand));
}

#[test]
fn lower_case_command_is_unknown() {
    let r = load(&[("CNI_COMMAND", "add")], ConfigInput::Parsed(bridge_config()));
    assert_eq!(r.unwrap_err().code(), 14);
}

#[test]
fn command_not_unicode_is_invalid() {
    let mut env = CniEnv::new();
    env.set(s("CNI_COMMAND"), EnvValue::NotUnicode);
    let r = CniExecution::load_args_from_env(&env, ConfigInput::NotJson);
    let e = r.unwrap_err();
    assert_eq!(e.code(), 4);
}

#[test]
fn del_without_netns_dispatches() {
    let r = load(
        &[("CNI_COMMAND", "DEL"), ("CNI_CONTAINERID", "c1"), ("CNI_IFNAME", "eth0")],
        ConfigInput::Parsed(bridge_config()),
    );
    match r {
        Ok(CniExecution::Del(c)) => {
            assert_eq!(c.container_id, "c1");
            assert_eq!(c.if_name, "eth0");
            assert!(c.netns.is_none());
            assert_eq!(c.config.type_, "bridge");
        }
        other => panic!("unexpected {:?}", other),
    }
}

#[test]
fn del_with_netns_keeps_it() {
    let r = load(
        &[
            ("CNI_COMMAND", "DEL"),
            ("CNI_CONTAINERID", "c1"),
            ("CNI_IFNAME", "eth0"),
            ("CNI_NETNS", "/proc/1/ns/net"),
        ],
        ConfigInput::Parsed(bridge_config()),
    );
    match r {
        Ok(CniExecution::Del(c)) => assert_eq!(c.netns.as_deref(), Some("/proc/1/ns/net")),
        other => panic!("unexpected {:?}", other),
    }
}

#[test]
fn add_without_netns_is_missing() {
    let r = load(
        &[("CNI_COMMAND", "ADD"), ("CNI_CONTAINERID", "c1"), ("CNI_IFNAME", "eth0")],
        ConfigInput::Parsed(bridge_config()),
    );
    let e = r.unwrap_err();
    assert_eq!(e.code(), 12);
    assert!(matches!(e, CniErrorCode::MissingEnvironmentVariable { ref var } if var == "CNI_NETNS"));
}

#[test]
fn check_without_netns_is_missing() {
    let r = load(
        &[("CNI_COMMAND", "CHECK"), ("CNI_CONTAINERID", "c1"), ("CNI_IFNAME", "eth0")],
        ConfigInput::Parsed(bridge_config()),
    );
    assert_eq!(r.unwrap_err().code(), 12);
}

#[test]
fn add_end_to_end() {
    let r = load(
        &[
            ("CNI_COMMAND", "ADD"),
            ("CNI_CONTAINERID", "c1"),
            ("CNI_NETNS", "/proc/123/ns/net"),
            ("CNI_IFNAME", "eth0"),
        ],
        ConfigInput::Parsed(bridge_config()),
    );
    match r {
        Ok(CniExecution::Add(c)) => {
            assert_eq!(c.container_id, "c1");
            assert_eq!(c.netns, "/proc/123/ns/net");
            assert_eq!(c.if_name, "eth0");
            assert_eq!(c.config.type_, "bridge");
            assert_eq!(c.config.name, "mynet");
            assert_eq!(c.config.cni_version.major, 1);
            assert_eq!(c.config.cni_version.minor, 1);
            assert_eq!(c.config.cni_version.patch, 0);
            assert_eq!(c.args.len(), 0);
        }
        other => panic!("unexpected {:?}", other),
    }
}

#[test]
fn check_dispatches_with_args() {
    let r = load(
        &[
            ("CNI_COMMAND", "CHECK"),
            ("CNI_CONTAINERID", "c1"),
            ("CNI_NETNS", "/proc/123/ns/net"),
            ("CNI_IFNAME", "eth0"),
            ("CNI_ARGS", "IP=10.0.0.2;K8S_POD_NAME=web"),
        ],
        ConfigInput::Parsed(bridge_config()),
    );
    match r {
        Ok(CniExecution::Check(c)) => {
            assert_eq!(c.args.get("IP").as_deref(), Some("10.0.0.2"));
            assert_eq!(c.args.get("K8S_POD_NAME").as_deref(), Some("web"));
        }
        other => panic!("unexpected {:?}", other),
    }
}

#[test]
fn gc_and_version_need_nothing_else() {
    assert!(matches!(load(&[("CNI_COMMAND", "GC")], ConfigInput::NotJson), Ok(CniExecution::GC(_))));
    assert!(matches!(load(&[("CNI_COMMAND", "VERSION")], ConfigInput::NotJson), Ok(CniExecution::Version)));
}

#[test]
fn invalid_container_id_fails_dispatch() {
    let r = load(
        &[
            ("CNI_COMMAND", "ADD"),
            ("CNI_CONTAINERID", "Bad"),
            ("CNI_NETNS", "/proc/1/ns/net"),
            ("CNI_IFNAME", "eth0"),
        ],
        ConfigInput::Parsed(bridge_config()),
    );
    let e = r.unwrap_err();
    assert_eq!(e.code(), 4);
    assert!(matches!(e, CniErrorCode::InvalidEnvironmentVariable { ref var, .. } if var == "CNI_CONTAINERID"));
}

#[test]
fn container_id_is_checked_before_interface() {
    let r = load(&[("CNI_COMMAND", "DEL")], ConfigInput::Parsed(bridge_config()));
    let e = r.unwrap_err();
    assert!(matches!(e, CniErrorCode::MissingEnvironmentVariable { ref var } if var == "CNI_CONTAINERID"));
}

#[test]
fn malformed_args_fail_dispatch() {
    let r = load(
        &[
            ("CNI_COMMAND", "DEL"),
            ("CNI_CONTAINERID", "c1"),
            ("CNI_IFNAME", "eth0"),
            ("CNI_ARGS", "a=1;novalue"),
        ],
        ConfigInput::Parsed(bridge_config()),
    );
    let e = r.unwrap_err();
    assert!(matches!(e, CniErrorCode::InvalidEnvironmentVariable { ref var, .. } if var == "CNI_ARGS"));
}

#[test]
fn unreadable_input_is_io_failure() {
    let r = load(
        &[("CNI_COMMAND", "DEL"), ("CNI_CONTAINERID", "c1"), ("CNI_IFNAME", "eth0")],
        ConfigInput::ReadError(s("broken pipe")),
    );
    let e = r.unwrap_err();
    assert_eq!(e.code(), 5);
    assert!(matches!(e, CniErrorCode::IOFailure(ref m) if m == "broken pipe"));
}

#[test]
fn input_that_is_not_json_is_invalid_config() {
    let r = load(
        &[("CNI_COMMAND", "DEL"), ("CNI_CONTAINERID", "c1"), ("CNI_IFNAME", "eth0")],
        ConfigInput::NotJson,
    );
    assert_eq!(r.unwrap_err().code(), 7);
}
