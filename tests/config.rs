use libcni::api::{decode_input, ConfigInput};
use libcni::config::{decode_network_config, encode_network_config};
use libcni::json::Json;

fn s(x: &str) -> String {
    x.to_string()
}

fn member<'a>(doc: &'a Json, key: &str) -> Option<&'a Json> {
    match doc {
        Json::Object(es) => es.iter().rev().find(|(k, _)| k == key).map(|(_, v)| v),
        _ => None,
    }
}

fn base(extra: Vec<(String, Json)>) -> Json {
    let mut es = vec![
        (s("cniVersion"), Json::Str(s("1.1.0"))),
        (s("type"), Json::Str(s("bridge"))),
    ];
    es.extend(extra);
    Json::Object(es)
}

#[test]
fn unknown_member_survives_round_trip() {
    let doc = base(vec![(s("x-custom"), Json::Number(s("42")))]);
    let c = decode_network_config(doc).unwrap();
    assert_eq!(c.extra_values, vec![(s("x-custom"), Json::Number(s("42")))]);
    let out = encode_network_config(c);
    assert_eq!(member(&out, "x-custom"), Some(&Json::Number(s("42"))));
    assert_eq!(member(&out, "type"), Some(&Json::Str(s("bridge"))));
    assert_eq!(member(&out, "cniVersion"), Some(&Json::Str(s("1.1.0"))));
}

#[test]
fn nested_unknown_member_survives_round_trip() {
    let nested = Json::Array(vec![
        Json::Null,
        Json::Bool(true),
        Json::Object(vec![(s("k"), Json::Str(s("v")))]),
    ]);
    let doc = base(vec![(s("x-nested"), nested)]);
    let out = encode_network_config(decode_network_config(doc).unwrap());
    let expected = Json::Array(vec![
        Json::Null,
        Json::Bool(true),
        Json::Object(vec![(s("k"), Json::Str(s("v")))]),
    ]);
    assert_eq!(member(&out, "x-nested"), Some(&expected));
}

#[test]
fn defaults_for_absent_members() {
    let c = decode_network_config(base(vec![])).unwrap();
    assert_eq!(c.name, "");
    assert!(c.cni_versions.is_empty());
    assert!(!c.disable_check && !c.disable_gc && !c.load_only_inlined_plugins && !c.ip_masq);
    assert!(c.capabilities.is_none());
    assert!(c.runtime_config.is_none());
    assert!(c.ipam.is_none());
    assert!(c.dns.is_none());
    assert!(c.extra_values.is_empty());
}

#[test]
fn full_config_decodes() {
    let doc = base(vec![
        (s("name"), Json::Str(s("net1"))),
        (
            s("cniVersions"),
            Json::Array(vec![Json::Str(s("1.0.0")), Json::Str(s("1.1.0-rc.1+build.5"))]),
        ),
        (s("disableCheck"), Json::Bool(true)),
        (s("disableGC"), Json::Bool(false)),
        (s("loadOnlyInlinedPlugins"), Json::Null),
        (s("ipMasq"), Json::Bool(true)),
        (s("capabilities"), Json::Object(vec![(s("portMappings"), Json::Bool(true))])),
        (s("runtimeConfig"), Json::Object(vec![(s("mac"), Json::Str(s("aa:bb")))])),
        (
            s("ipam"),
            Json::Object(vec![
                (s("type"), Json::Str(s("host-local"))),
                (s("subnet"), Json::Str(s("10.1.0.0/16"))),
            ]),
        ),
        (
            s("dns"),
            Json::Object(vec![
                (s("nameservers"), Json::Array(vec![Json::Str(s("10.1.0.1"))])),
                (s("domain"), Json::Str(s("example.com"))),
            ]),
        ),
    ]);
    let c = decode_network_config(doc).unwrap();
    assert_eq!(c.name, "net1");
    assert_eq!(c.cni_versions.len(), 2);
    let v = &c.cni_versions[1];
    assert_eq!((v.major, v.minor, v.patch), (1, 1, 0));
    assert_eq!(v.pre, "rc.1");
    assert_eq!(v.build, "build.5");
    assert!(c.disable_check && !c.disable_gc && !c.load_only_inlined_plugins && c.ip_masq);
    assert_eq!(c.capabilities, Some(vec![(s("portMappings"), true)]));
    assert_eq!(
        c.runtime_config.as_ref().unwrap().values,
        vec![(s("mac"), Json::Str(s("aa:bb")))]
    );
    let ipam = c.ipam.as_ref().unwrap();
    assert_eq!(ipam.type_, "host-local");
    assert_eq!(ipam.extra_values, vec![(s("subnet"), Json::Str(s("10.1.0.0/16")))]);
    let dns = c.dns.as_ref().unwrap();
    assert_eq!(dns.nameservers, vec![s("10.1.0.1")]);
    assert_eq!(dns.domain, "example.com");
    assert!(dns.search.is_empty() && dns.options.is_empty());

    let out = encode_network_config(c);
    assert_eq!(
        member(&out, "cniVersions"),
        Some(&Json::Array(vec![Json::Str(s("1.0.0")), Json::Str(s("1.1.0-rc.1+build.5"))]))
    );
    assert_eq!(member(&out, "loadOnlyInlinedPlugins"), Some(&Json::Bool(false)));
    let ipam_out = member(&out, "ipam").unwrap();
    assert_eq!(member(ipam_out, "subnet"), Some(&Json::Str(s("10.1.0.0/16"))));
    assert_eq!(member(ipam_out, "type"), Some(&Json::Str(s("host-local"))));
    let dns_out = member(&out, "dns").unwrap();
    assert_eq!(member(dns_out, "search"), Some(&Json::Array(vec![])));
}

#[test]
fn last_member_of_a_name_wins() {
    let doc = base(vec![(s("type"), Json::Str(s("macvlan")))]);
    let c = decode_network_config(doc).unwrap();
    assert_eq!(c.type_, "macvlan");
}

#[test]
fn config_must_be_an_object() {
    let e = decode_network_config(Json::Array(vec![])).unwrap_err();
    assert_eq!(e.code(), 7);
}

#[test]
fn config_requires_type() {
    let doc = Json::Object(vec![(s("cniVersion"), Json::Str(s("1.1.0")))]);
    assert_eq!(decode_network_config(doc).unwrap_err().code(), 7);
    let doc = Json::Object(vec![
        (s("cniVersion"), Json::Str(s("1.1.0"))),
        (s("type"), Json::Str(s(""))),
    ]);
    assert_eq!(decode_network_config(doc).unwrap_err().code(), 7);
}

#[test]
fn config_requires_a_semantic_version() {
    let doc = Json::Object(vec![(s("type"), Json::Str(s("bridge")))]);
    assert_eq!(decode_network_config(doc).unwrap_err().code(), 7);
    let doc = Json::Object(vec![
        (s("cniVersion"), Json::Str(s("1.1"))),
        (s("type"), Json::Str(s("bridge"))),
    ]);
    assert_eq!(decode_network_config(doc).unwrap_err().code(), 7);
}

#[test]
fn wrongly_typed_known_member_fails() {
    let doc = base(vec![(s("ipMasq"), Json::Str(s("yes")))]);
    assert_eq!(decode_network_config(doc).unwrap_err().code(), 7);
    let doc = base(vec![(s("cniVersions"), Json::Array(vec![Json::Number(s("1"))]))]);
    assert_eq!(decode_network_config(doc).unwrap_err().code(), 7);
    let doc = base(vec![(s("capabilities"), Json::Object(vec![(s("a"), Json::Null)]))]);
    assert_eq!(decode_network_config(doc).unwrap_err().code(), 7);
    let doc = base(vec![(s("ipam"), Json::Object(vec![]))]);
    assert_eq!(decode_network_config(doc).unwrap_err().code(), 7);
    let doc = base(vec![(s("dns"), Json::Object(vec![(s("domain"), Json::Bool(true))]))]);
    assert_eq!(decode_network_config(doc).unwrap_err().code(), 7);
}

#[test]
fn decode_input_maps_read_errors() {
    assert_eq!(decode_input(ConfigInput::ReadError(s("eof"))).unwrap_err().code(), 5);
    assert_eq!(decode_input(ConfigInput::NotJson).unwrap_err().code(), 7);
    assert!(decode_input(ConfigInput::Parsed(base(vec![]))).is_ok());
}

#[test]
fn plugins_args_and_attributes_decode_and_encode() {
    let plugin = Json::Object(vec![
        (s("type"), Json::Str(s("portmap"))),
        (s("capabilities"), Json::Object(vec![(s("portMappings"), Json::Bool(true))])),
        (s("args"), Json::Array(vec![Json::Str(s("x"))])),
        (s("snat"), Json::Bool(true)),
    ]);
    let doc = base(vec![
        (s("plugins"), Json::Array(vec![plugin])),
        (s("args"), Json::Array(vec![Json::Str(s("a1")), Json::Str(s("a2"))])),
        (s("attributes"), Json::Object(vec![(s("cni.dev/debug"), Json::Str(s("1")))])),
    ]);
    let c = decode_network_config(doc).unwrap();
    let ps = c.plugins.as_ref().unwrap();
    assert_eq!(ps.len(), 1);
    assert_eq!(ps[0].type_, "portmap");
    assert_eq!(ps[0].capabilities, Some(vec![(s("portMappings"), true)]));
    assert_eq!(ps[0].args, vec![s("x")]);
    assert_eq!(ps[0].extra_values, vec![(s("snat"), Json::Bool(true))]);
    assert_eq!(c.args, vec![s("a1"), s("a2")]);
    assert_eq!(c.attributes, Some(vec![(s("cni.dev/debug"), s("1"))]));
    assert!(c.extra_values.is_empty());
    let out = encode_network_config(c);
    let plugins = member(&out, "plugins").unwrap();
    match plugins {
        Json::Array(items) => {
            assert_eq!(member(&items[0], "snat"), Some(&Json::Bool(true)));
            assert_eq!(member(&items[0], "type"), Some(&Json::Str(s("portmap"))));
            assert_eq!(member(&items[0], "runtimeConfig"), None);
        }
        other => panic!("unexpected {:?}", other),
    }
    assert_eq!(
        member(&out, "attributes"),
        Some(&Json::Object(vec![(s("cni.dev/debug"), Json::Str(s("1")))]))
    );
}

#[test]
fn malformed_plugin_fails() {
    let doc = base(vec![(s("plugins"), Json::Array(vec![Json::Object(vec![])]))]);
    assert_eq!(decode_network_config(doc).unwrap_err().code(), 7);
    let doc = base(vec![(s("attributes"), Json::Object(vec![(s("k"), Json::Bool(true))]))]);
    assert_eq!(decode_network_config(doc).unwrap_err().code(), 7);
    let doc = base(vec![(s("args"), Json::Str(s("k=v")))]);
    assert_eq!(decode_network_config(doc).unwrap_err().code(), 7);
}
