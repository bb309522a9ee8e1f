use libcni::api::{plugin_main_entrypoint_with_error, run_execution, CniAddContext, CniCheckContext,
    CniDelContext, CniExecution, CniGcContext, CniPlugin, ConfigInput};
use libcni::env::CniEnv;
use libcni::error::CniErrorCode;
use libcni::json::Json;
use libcni::reply::{exit_code, invoke, reply, requested_version, version_reply};
use libcni::version::{check_version, current, All, Legacy, PluginInfo, Version};
use std::cell::Cell;

fn v(major: u64, minor: u64, patch: u64) -> Version {
    Version::new(major, minor, patch)
}

fn triple(x: &Version) -> (u64, u64, u64) {
    (x.major, x.minor, x.patch)
}

#[test]
fn negotiation_accepts_listed_version() {
    let r = check_version(&v(1, 1, 0), &vec![v(1, 0, 0), v(1, 1, 0)]).unwrap();
    assert_eq!(triple(&r), (1, 1, 0));
}

#[test]
fn negotiation_rejects_other_major() {
    match check_version(&v(2, 0, 0), &vec![v(1, 0, 0), v(1, 1, 0)]) {
        Err(CniErrorCode::IncompatibleVersion(h)) => assert_eq!(triple(&h), (1, 1, 0)),
        other => panic!("unexpected {:?}", other),
    }
}

#[test]
fn negotiation_accepts_older_minor_of_same_major() {
    let r = check_version(&v(1, 0, 0), &vec![v(1, 1, 0)]).unwrap();
    assert_eq!(triple(&r), (1, 0, 0));
    assert!(check_version(&v(1, 2, 0), &vec![v(1, 1, 0)]).is_err());
}

#[test]
fn highest_version_is_the_last_in_release_order() {
    let list = vec![v(0, 4, 0), v(0, 9, 9), v(1, 0, 0), v(1, 0, 1)];
    match check_version(&v(3, 0, 0), &list) {
        Err(e) => {
            assert_eq!(e.code(), 1);
            assert!(matches!(e, CniErrorCode::IncompatibleVersion(ref h) if triple(h) == (1, 0, 1)));
        }
        Ok(_) => panic!("accepted"),
    }
}

#[test]
fn release_outranks_its_pre_release() {
    let list = vec![Version::parse("1.0.0-alpha").unwrap(), v(1, 0, 0)];
    match check_version(&v(2, 0, 0), &list) {
        Err(CniErrorCode::IncompatibleVersion(h)) => {
            assert_eq!(triple(&h), (1, 0, 0));
            assert_eq!(h.pre, "");
        }
        other => panic!("unexpected {:?}", other),
    }
}

#[test]
fn plugin_version_lists() {
    let all: Vec<_> = All.supported_versions().iter().map(triple).collect();
    assert_eq!(
        all,
        vec![(0, 1, 0), (0, 2, 0), (0, 3, 0), (0, 3, 1), (0, 4, 0), (1, 0, 0), (1, 1, 0)]
    );
    let legacy: Vec<_> = Legacy.supported_versions().iter().map(triple).collect();
    assert_eq!(legacy, vec![(0, 1, 0), (0, 2, 0)]);
    assert_eq!(triple(&current()), (1, 1, 0));
}

#[test]
fn version_text_and_parse() {
    let p = Version::parse("10.20.3-alpha.1+sha.5").unwrap();
    assert_eq!(triple(&p), (10, 20, 3));
    assert_eq!(p.pre, "alpha.1");
    assert_eq!(p.build, "sha.5");
    assert_eq!(p.to_text(), "10.20.3-alpha.1+sha.5");
    assert_eq!(v(0, 0, 0).to_text(), "0.0.0");
    assert_eq!(v(18446744073709551615, 7, 10).to_text(), "18446744073709551615.7.10");
    assert!(Version::parse("1.0").is_none());
    assert!(Version::parse("v1.0.0").is_none());
}

#[test]
fn error_codes_are_stable() {
    let cases: Vec<(CniErrorCode, usize)> = vec![
        (CniErrorCode::IncompatibleVersion(v(1, 1, 0)), 1),
        (CniErrorCode::UnsupportedField, 2),
        (CniErrorCode::UnknownContainer, 3),
        (CniErrorCode::InvalidEnvironmentVariable { var: "X".into(), cause: "bad".into() }, 4),
        (CniErrorCode::IOFailure("eof".into()), 5),
        (CniErrorCode::DecodeContentFailure, 6),
        (CniErrorCode::InvalidNetworkConfig, 7),
        (CniErrorCode::TryAgainLater, 11),
        (CniErrorCode::MissingEnvironmentVariable { var: "X".into() }, 12),
        (CniErrorCode::MissingInput, 13),
        (CniErrorCode::UnknownCommand, 14),
        (CniErrorCode::Other { code: 100, message: "m".into(), details: None }, 100),
    ];
    for (e, code) in cases {
        assert_eq!(e.code(), code);
        let r: Result<(), CniErrorCode> = Err(e);
        assert_eq!(exit_code(&r), code);
    }
    let ok: Result<u8, CniErrorCode> = Ok(3);
    assert_eq!(exit_code(&ok), 0);
}

#[test]
fn error_object_is_canonical() {
    let e = CniErrorCode::InvalidEnvironmentVariable { var: "CNI_ARGS".into(), cause: "bad".into() };
    let err = e.to_cni_error(&current());
    assert_eq!(err.code(), 4);
    assert_eq!(err.message, "Invalid environment variable");
    assert_eq!(err.details.as_deref(), Some("CNI_ARGS: bad"));
    let (code, doc) = reply(Err(e), &current());
    let doc = doc.unwrap();
    assert_eq!(code, 4);
    assert_eq!(
        doc,
        Json::Object(vec![
            ("cniVersion".into(), Json::Str("1.1.0".into())),
            ("code".into(), Json::Number("4".into())),
            ("msg".into(), Json::Str("Invalid environment variable".into())),
            ("details".into(), Json::Str("CNI_ARGS: bad".into())),
        ])
    );
}

#[test]
fn error_object_without_details() {
    let (code, doc) = reply(Err(CniErrorCode::UnknownCommand), &v(1, 0, 0));
    let doc = doc.unwrap();
    assert_eq!(code, 14);
    assert_eq!(
        doc,
        Json::Object(vec![
            ("cniVersion".into(), Json::Str("1.0.0".into())),
            ("code".into(), Json::Number("14".into())),
            ("msg".into(), Json::Str("Unknown command".into())),
        ])
    );
    let e = CniErrorCode::IncompatibleVersion(v(1, 1, 0)).to_cni_error(&current());
    assert_eq!(e.details.as_deref(), Some("1.1.0"));
    let e = CniErrorCode::TryAgainLater.to_cni_error(&current());
    assert_eq!((e.code, e.message.as_str()), (11, "Try again later"));
}

#[test]
fn success_reply_is_passed_through() {
    let (code, doc) = reply(Ok(Some(Json::Bool(true))), &current());
    assert_eq!(code, 0);
    assert_eq!(doc, Some(Json::Bool(true)));
    assert_eq!(reply(Ok(None), &current()), (0, None));
}

#[test]
fn version_reply_echoes_the_requested_version() {
    let input = ConfigInput::Parsed(Json::Object(vec![("cniVersion".into(), Json::Str("0.4.0".into()))]));
    assert_eq!(triple(&requested_version(&input).unwrap()), (0, 4, 0));
    let r = version_reply(&All, &input);
    assert_eq!(triple(&r.cni_version), (0, 4, 0));
    assert_eq!(r.supported_versions.len(), 7);
    let doc = r.to_json();
    match doc {
        Json::Object(es) => {
            assert_eq!(es[0], ("cniVersion".into(), Json::Str("0.4.0".into())));
            assert_eq!(es[1].0, "supportedVersions");
            match &es[1].1 {
                Json::Array(items) => assert_eq!(items[6], Json::Str("1.1.0".into())),
                other => panic!("unexpected {:?}", other),
            }
        }
        other => panic!("unexpected {:?}", other),
    }
    let r = version_reply(&Legacy, &ConfigInput::NotJson);
    assert_eq!(triple(&r.cni_version), (1, 1, 0));
}

struct Recorder {
    calls: Cell<u32>,
}

impl CniPlugin for Recorder {
    fn add(&self, _args: CniAddContext) -> Result<(), CniErrorCode> {
        self.calls.set(self.calls.get() + 1);
        Ok(())
    }
    fn del(&self, _args: CniDelContext) -> Result<(), CniErrorCode> {
        self.calls.set(self.calls.get() + 1);
        Err(CniErrorCode::TryAgainLater)
    }
    fn check(&self, _args: CniCheckContext) -> Result<(), CniErrorCode> {
        Ok(())
    }
    fn gc(&self, _args: CniGcContext) -> Result<(), CniErrorCode> {
        Ok(())
    }
    fn status(&self) -> Result<(), CniErrorCode> {
        Ok(())
    }
    fn version(&self) -> Result<(), CniErrorCode> {
        Ok(())
    }
}

fn add_env() -> CniEnv {
    let mut env = CniEnv::new();
    env.set_text("CNI_COMMAND", "ADD");
    env.set_text("CNI_CONTAINERID", "c1");
    env.set_text("CNI_NETNS", "/proc/1/ns/net");
    env.set_text("CNI_IFNAME", "eth0");
    env
}

fn config(version: &str) -> ConfigInput {
    ConfigInput::Parsed(Json::Object(vec![
        ("cniVersion".into(), Json::Str(version.into())),
        ("type".into(), Json::Str("bridge".into())),
    ]))
}

#[test]
fn plugin_runs_after_negotiation() {
    let p = Recorder { calls: Cell::new(0) };
    assert!(plugin_main_entrypoint_with_error(&p, &All, &add_env(), config("1.0.0")).is_ok());
    assert_eq!(p.calls.get(), 1);
}

#[test]
fn plugin_does_not_run_on_incompatible_version() {
    let p = Recorder { calls: Cell::new(0) };
    let r = plugin_main_entrypoint_with_error(&p, &Legacy, &add_env(), config("1.0.0"));
    assert_eq!(r.unwrap_err().code(), 1);
    assert_eq!(p.calls.get(), 0);
}

#[test]
fn plugin_errors_pass_through_unchanged() {
    let p = Recorder { calls: Cell::new(0) };
    let mut env = add_env();
    env.set_text("CNI_COMMAND", "DEL");
    let r = plugin_main_entrypoint_with_error(&p, &All, &env, config("1.1.0"));
    assert_eq!(r.unwrap_err().code(), 11);
    let r = run_execution(&p, &All, CniExecution::Version);
    assert!(r.is_ok());
}

#[test]
fn dispatch_errors_stop_before_the_plugin() {
    let p = Recorder { calls: Cell::new(0) };
    let r = plugin_main_entrypoint_with_error(&p, &All, &CniEnv::new(), config("1.1.0"));
    assert_eq!(r.unwrap_err().code(), 12);
    assert_eq!(p.calls.get(), 0);
}

struct Refuser;

impl CniPlugin for Refuser {
    fn add(&self, _args: CniAddContext) -> Result<(), CniErrorCode> {
        Err(CniErrorCode::Other { code: 101, message: "no".into(), details: Some("d".into()) })
    }
    fn del(&self, _args: CniDelContext) -> Result<(), CniErrorCode> {
        Ok(())
    }
    fn check(&self, _args: CniCheckContext) -> Result<(), CniErrorCode> {
        Ok(())
    }
    fn gc(&self, _args: CniGcContext) -> Result<(), CniErrorCode> {
        Ok(())
    }
    fn status(&self) -> Result<(), CniErrorCode> {
        Ok(())
    }
    fn version(&self) -> Result<(), CniErrorCode> {
        Err(CniErrorCode::TryAgainLater)
    }
}

#[test]
fn invoke_version_always_succeeds() {
    let mut env = CniEnv::new();
    env.set_text("CNI_COMMAND", "VERSION");
    let input = ConfigInput::Parsed(Json::Object(vec![("cniVersion".into(), Json::Str("1.0.0".into()))]));
    let (code, doc) = invoke(&Refuser, &Legacy, &env, input);
    assert_eq!(code, 0);
    assert_eq!(
        doc,
        Some(Json::Object(vec![
            ("cniVersion".into(), Json::Str("1.0.0".into())),
            (
                "supportedVersions".into(),
                Json::Array(vec![Json::Str("0.1.0".into()), Json::Str("0.2.0".into())])
            ),
        ]))
    );
}

#[test]
fn invoke_success_writes_nothing() {
    let mut env = add_env();
    env.set_text("CNI_COMMAND", "DEL");
    assert_eq!(invoke(&Refuser, &All, &env, config("1.1.0")), (0, None));
}

#[test]
fn invoke_reports_plugin_errors_under_the_requested_version() {
    let (code, doc) = invoke(&Refuser, &All, &add_env(), config("1.0.0"));
    assert_eq!(code, 101);
    assert_eq!(
        doc,
        Some(Json::Object(vec![
            ("cniVersion".into(), Json::Str("1.0.0".into())),
            ("code".into(), Json::Number("101".into())),
            ("msg".into(), Json::Str("no".into())),
            ("details".into(), Json::Str("d".into())),
        ]))
    );
}

#[test]
fn invoke_reports_incompatible_version() {
    let (code, doc) = invoke(&Refuser, &Legacy, &add_env(), config("1.0.0"));
    assert_eq!(code, 1);
    match doc {
        Some(Json::Object(es)) => {
            assert_eq!(es[0], ("cniVersion".into(), Json::Str("1.0.0".into())));
            assert_eq!(es[3], ("details".into(), Json::Str("0.2.0".into())));
        }
        other => panic!("unexpected {:?}", other),
    }
}

#[test]
fn invoke_reports_dispatch_errors_under_the_current_version() {
    let (code, doc) = invoke(&Refuser, &All, &CniEnv::new(), ConfigInput::NotJson);
    assert_eq!(code, 12);
    match doc {
        Some(Json::Object(es)) => assert_eq!(es[0], ("cniVersion".into(), Json::Str("1.1.0".into()))),
        other => panic!("unexpected {:?}", other),
    }
}
