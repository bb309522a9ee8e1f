//! The network configuration: its decoding from a JSON document and its
//! encoding back, with unrecognised top-level members carried through.

use vstd::prelude::*;

use crate::error::CniErrorCode;
use crate::json::{
    collect_fields, lemma_unknown_entries, name_index, names_distinct, names_view, obj_get,
    push_member, unknown_entries, Json,
};
use crate::version::{
    opt_version_view, parse_semver, semver_parse, version_text, versions_view, Version, VersionSpec,
};

verus! {

/// A member that is missing or `null`.
pub open spec fn absent(v: Option<Json>) -> bool {
    v is None || v == Some(Json::Null)
}

/// The text of a JSON string.
pub open spec fn json_text(j: Json) -> Option<Seq<char>> {
    match j {
        Json::Str(s) => Some(s@),
        _ => None,
    }
}

/// The value of a JSON boolean.
pub open spec fn json_bool(j: Json) -> Option<bool> {
    match j {
        Json::Bool(b) => Some(b),
        _ => None,
    }
}

/// The version a JSON string denotes.
pub open spec fn json_version(j: Json) -> Option<VersionSpec> {
    match j {
        Json::Str(s) => semver_parse(s@),
        _ => None,
    }
}

/// An optional text member: empty where absent, `None` where not a string.
pub open spec fn text_field(v: Option<Json>) -> Option<Seq<char>> {
    if absent(v) {
        Some(Seq::empty())
    } else {
        json_text(v->0)
    }
}

/// A required text member: `None` where absent, not a string, or empty.
pub open spec fn required_text(v: Option<Json>) -> Option<Seq<char>> {
    match v {
        Some(Json::Str(s)) => if s@.len() > 0 {
            Some(s@)
        } else {
            None
        },
        _ => None,
    }
}

/// An optional flag: false where absent, `None` where not a boolean.
pub open spec fn bool_field(v: Option<Json>) -> Option<bool> {
    if absent(v) {
        Some(false)
    } else {
        json_bool(v->0)
    }
}

/// An optional list of versions decodes: absent, or an array of version
/// strings.
pub open spec fn versions_field_ok(v: Option<Json>) -> bool {
    absent(v) || (v matches Some(Json::Array(items)) && forall|i: int|
        0 <= i < items@.len() ==> json_version(#[trigger] items@[i]) is Some)
}

/// `out` is what an optional list of versions decodes to.
pub open spec fn versions_field_is(v: Option<Json>, out: Seq<VersionSpec>) -> bool {
    if absent(v) {
        out.len() == 0
    } else {
        v matches Some(Json::Array(items)) && items@.len() == out.len() && forall|i: int|
            0 <= i < out.len() ==> json_version(#[trigger] items@[i]) == Some(out[i])
    }
}

/// An optional list of texts decodes: absent, or an array of strings.
pub open spec fn texts_field_ok(v: Option<Json>) -> bool {
    absent(v) || (v matches Some(Json::Array(items)) && forall|i: int|
        0 <= i < items@.len() ==> json_text(#[trigger] items@[i]) is Some)
}

/// `out` is what an optional list of texts decodes to.
pub open spec fn texts_field_is(v: Option<Json>, out: Seq<String>) -> bool {
    if absent(v) {
        out.len() == 0
    } else {
        v matches Some(Json::Array(items)) && items@.len() == out.len() && forall|i: int|
            0 <= i < out.len() ==> json_text(#[trigger] items@[i]) == Some(out[i]@)
    }
}

/// An optional map of flags decodes: absent, or an object of booleans.
pub open spec fn flags_field_ok(v: Option<Json>) -> bool {
    absent(v) || (v matches Some(Json::Object(es)) && forall|i: int|
        0 <= i < es@.len() ==> json_bool((#[trigger] es@[i]).1) is Some)
}

/// `out` is what an optional map of flags decodes to.
pub open spec fn flags_field_is(v: Option<Json>, out: Option<Vec<(String, bool)>>) -> bool {
    if absent(v) {
        out is None
    } else {
        v matches Some(Json::Object(es)) && out matches Some(o) && o@.len() == es@.len()
            && forall|i: int|
            0 <= i < o@.len() ==> (#[trigger] o@[i]).0@ == es@[i].0@ && json_bool(es@[i].1)
                == Some(o@[i].1)
    }
}

/// An optional object member decodes: absent, or an object.
pub open spec fn object_field_ok(v: Option<Json>) -> bool {
    absent(v) || v matches Some(Json::Object(_))
}

/// `out` is what an optional object member decodes to: its members as they
/// stand.
pub open spec fn object_field_is(v: Option<Json>, out: Option<Vec<(String, Json)>>) -> bool {
    if absent(v) {
        out is None
    } else {
        v matches Some(Json::Object(es)) && out == Some(es)
    }
}

/// Takes the last element of a non-empty list.
fn take_last<T>(v: &mut Vec<T>) -> (r: T)
    requires
        old(v)@.len() > 0,
    ensures
        r == old(v)@.last(),
        final(v)@ == old(v)@.drop_last(),
{
    v.pop().unwrap()
}

/// Decodes a version string.
fn decode_version(v: Option<Json>) -> (r: Option<Version>)
    ensures
        match v {
            Some(j) => opt_version_view(r) == json_version(j),
            None => r is None,
        },
{
    match v {
        Some(Json::Str(s)) => parse_semver(s.as_str()),
        _ => None,
    }
}

/// Decodes an optional text member.
fn decode_text(v: Option<Json>) -> (r: Option<String>)
    ensures
        match r {
            Some(s) => text_field(v) == Some(s@),
            None => text_field(v) is None,
        },
{
    match v {
        None | Some(Json::Null) => Some(String::new()),
        Some(Json::Str(s)) => Some(s),
        _ => None,
    }
}

/// Decodes a required, non-empty text member.
fn decode_required_text(v: Option<Json>) -> (r: Option<String>)
    ensures
        match r {
            Some(s) => required_text(v) == Some(s@),
            None => required_text(v) is None,
        },
{
    match v {
        Some(Json::Str(s)) => if s.unicode_len() > 0 {
            Some(s)
        } else {
            None
        },
        _ => None,
    }
}

/// Decodes an optional flag.
fn decode_bool(v: Option<Json>) -> (r: Option<bool>)
    ensures
        r == bool_field(v),
{
    match v {
        None | Some(Json::Null) => Some(false),
        Some(Json::Bool(b)) => Some(b),
        _ => None,
    }
}

/// Decodes an optional list of versions.
fn decode_versions(v: Option<Json>) -> (r: Option<Vec<Version>>)
    ensures
        r is Some <==> versions_field_ok(v),
        r matches Some(o) ==> versions_field_is(v, versions_view(o@)),
{
    match v {
        None | Some(Json::Null) => {
            let o: Vec<Version> = Vec::new();
            assert(versions_view(o@) =~= Seq::<VersionSpec>::empty());
            Some(o)
        },
        Some(Json::Array(items0)) => {
            let ghost orig = items0@;
            assert(v == Some(Json::Array(items0)));
            let mut items = items0;
            let mut out: Vec<Version> = Vec::new();
            let n = items.len();
            let mut i: usize = 0;
            while i < n
                invariant
                    v matches Some(Json::Array(x)) && x@ == orig,
                    n == orig.len(),
                    i <= n,
                    items@ == orig.subrange(i as int, n as int),
                    out@.len() == i,
                    forall|j: int| 0 <= j < i ==> json_version(orig[j]) == Some(#[trigger] out@[j]@),
                decreases n - i,
            {
                let item = items.remove(0);
                assert(item == orig[i as int]);
                assert(items@ =~= orig.subrange(i + 1, n as int));
                match decode_version(Some(item)) {
                    Some(ver) => out.push(ver),
                    None => {
                        assert(json_version(orig[i as int]) is None);
                        return None;
                    },
                }
                i += 1;
            }
            proof {
                assert forall|j: int| 0 <= j < out@.len() implies json_version(
                    #[trigger] orig[j],
                ) == Some(versions_view(out@)[j]) by {
                    assert(json_version(orig[j]) == Some(out@[j]@));
                }
                assert forall|j: int| 0 <= j < n implies json_version(#[trigger] orig[j]) is Some by {
                    assert(json_version(orig[j]) == Some(out@[j]@));
                }
            }
            Some(out)
        },
        _ => None,
    }
}

/// Decodes an optional list of texts.
fn decode_texts(v: Option<Json>) -> (r: Option<Vec<String>>)
    ensures
        r is Some <==> texts_field_ok(v),
        r matches Some(o) ==> texts_field_is(v, o@),
{
    match v {
        None | Some(Json::Null) => Some(Vec::new()),
        Some(Json::Array(items0)) => {
            let ghost orig = items0@;
            assert(v == Some(Json::Array(items0)));
            let mut items = items0;
            let mut out: Vec<String> = Vec::new();
            let n = items.len();
            let mut i: usize = 0;
            while i < n
                invariant
                    v matches Some(Json::Array(x)) && x@ == orig,
                    n == orig.len(),
                    i <= n,
                    items@ == orig.subrange(i as int, n as int),
                    out@.len() == i,
                    forall|j: int| 0 <= j < i ==> json_text(orig[j]) == Some(#[trigger] out@[j]@),
                decreases n - i,
            {
                let item = items.remove(0);
                assert(item == orig[i as int]);
                assert(items@ =~= orig.subrange(i + 1, n as int));
                match item {
                    Json::Str(s) => out.push(s),
                    _ => {
                        assert(json_text(orig[i as int]) is None);
                        return None;
                    },
                }
                i += 1;
            }
            assert forall|j: int| 0 <= j < n implies json_text(#[trigger] orig[j]) is Some by {
                assert(json_text(orig[j]) == Some(out@[j]@));
            }
            Some(out)
        },
        _ => None,
    }
}

/// Decodes an optional map of flags.
fn decode_flags(v: Option<Json>) -> (r: Option<Option<Vec<(String, bool)>>>)
    ensures
        r is Some <==> flags_field_ok(v),
        r matches Some(o) ==> flags_field_is(v, o),
{
    match v {
        None | Some(Json::Null) => Some(None),
        Some(Json::Object(es0)) => {
            let ghost orig = es0@;
            assert(v == Some(Json::Object(es0)));
            let mut es = es0;
            let mut out: Vec<(String, bool)> = Vec::new();
            let n = es.len();
            let mut i: usize = 0;
            while i < n
                invariant
                    v matches Some(Json::Object(x)) && x@ == orig,
                    n == orig.len(),
                    i <= n,
                    es@ == orig.subrange(i as int, n as int),
                    out@.len() == i,
                    forall|j: int|
                        0 <= j < i ==> (#[trigger] out@[j]).0@ == orig[j].0@ && json_bool(orig[j].1)
                            == Some(out@[j].1),
                decreases n - i,
            {
                let (k, item) = es.remove(0);
                assert(orig[i as int] == (k, item));
                assert(es@ =~= orig.subrange(i + 1, n as int));
                match item {
                    Json::Bool(b) => out.push((k, b)),
                    _ => {
                        assert(json_bool(orig[i as int].1) is None);
                        return None;
                    },
                }
                i += 1;
            }
            assert forall|j: int| 0 <= j < n implies json_bool((#[trigger] orig[j]).1) is Some by {
                assert(json_bool(orig[j].1) == Some(out@[j].1));
            }
            Some(Some(out))
        },
        _ => None,
    }
}

/// Decodes an optional object member, keeping its members as they stand.
fn decode_object(v: Option<Json>) -> (r: Option<Option<Vec<(String, Json)>>>)
    ensures
        r is Some <==> object_field_ok(v),
        r matches Some(o) ==> object_field_is(v, o),
{
    match v {
        None | Some(Json::Null) => Some(None),
        Some(Json::Object(es)) => Some(Some(es)),
        _ => None,
    }
}

} // verus!

verus! {

/// The member names of an IPAM object that are decoded.
pub open spec fn ipam_names() -> Seq<Seq<char>> {
    seq!["type"@]
}

/// The member names of a DNS object that are decoded.
pub open spec fn dns_names() -> Seq<Seq<char>> {
    seq!["nameservers"@, "domain"@, "search"@, "options"@]
}

/// The member names of a network configuration that are decoded; any other
/// member is carried through unchanged.
pub open spec fn config_names() -> Seq<Seq<char>> {
    seq![
        "cniVersion"@,
        "cniVersions"@,
        "name"@,
        "type"@,
        "disableCheck"@,
        "disableGC"@,
        "loadOnlyInlinedPlugins"@,
        "ipMasq"@,
        "capabilities"@,
        "runtimeConfig"@,
        "ipam"@,
        "dns"@,
        "plugins"@,
        "args"@,
        "attributes"@,
    ]
}

/// IP address management settings: the IPAM plugin to run, and its other
/// settings as they stand.
#[derive(Debug)]
pub struct IPAMConfig {
    pub type_: String,
    pub extra_values: Vec<(String, Json)>,
}

/// DNS settings.
#[derive(Debug)]
pub struct DNSConfig {
    /// Name servers, in priority order.
    pub nameservers: Vec<String>,
    /// The local domain used for short host names.
    pub domain: String,
    /// Search domains, in priority order.
    pub search: Vec<String>,
    /// Resolver options.
    pub options: Vec<String>,
}

/// Settings the runtime passes for the plugin's capabilities, as they stand.
#[derive(Debug)]
pub struct RuntimeConfig {
    pub values: Vec<(String, Json)>,
}

/// A decoded network configuration.
#[derive(Debug)]
pub struct CniNetworkConfig {
    /// The protocol version the configuration conforms to.
    pub cni_version: Version,
    /// All protocol versions the configuration supports.
    pub cni_versions: Vec<Version>,
    /// The network name.
    pub name: String,
    /// The name of the plugin binary; never empty.
    pub type_: String,
    pub disable_check: bool,
    pub disable_gc: bool,
    pub load_only_inlined_plugins: bool,
    /// Whether to set up IP masquerading on the host.
    pub ip_masq: bool,
    /// Capability names and whether each is enabled.
    pub capabilities: Option<Vec<(String, bool)>>,
    pub runtime_config: Option<RuntimeConfig>,
    pub ipam: Option<IPAMConfig>,
    pub dns: Option<DNSConfig>,
    /// The plugins of a configuration list, in order.
    pub plugins: Option<Vec<PluginConfig>>,
    pub args: Vec<String>,
    /// Attributes (keys starting with `cni.dev/`) and their values.
    pub attributes: Option<Vec<(String, String)>>,
    /// The members of other names, in order.
    pub extra_values: Vec<(String, Json)>,
}

/// An optional IPAM member decodes: absent, or an object with a non-empty
/// `type`.
pub open spec fn ipam_field_ok(v: Option<Json>) -> bool {
    absent(v) || (v matches Some(Json::Object(es)) && required_text(obj_get(es@, "type"@)) is Some)
}

/// `out` is what an optional IPAM member decodes to.
pub open spec fn ipam_field_is(v: Option<Json>, out: Option<IPAMConfig>) -> bool {
    if absent(v) {
        out is None
    } else {
        v matches Some(Json::Object(es)) && out matches Some(c) && required_text(
            obj_get(es@, "type"@),
        ) == Some(c.type_@) && c.extra_values@ == unknown_entries(es@, ipam_names())
    }
}

/// An optional DNS member decodes: absent, or an object whose members of
/// the known names have the right types.
pub open spec fn dns_field_ok(v: Option<Json>) -> bool {
    absent(v) || (v matches Some(Json::Object(es)) && texts_field_ok(obj_get(es@, "nameservers"@))
        && text_field(obj_get(es@, "domain"@)) is Some && texts_field_ok(obj_get(es@, "search"@))
        && texts_field_ok(obj_get(es@, "options"@)))
}

/// `out` is what an optional DNS member decodes to.
pub open spec fn dns_field_is(v: Option<Json>, out: Option<DNSConfig>) -> bool {
    if absent(v) {
        out is None
    } else {
        v matches Some(Json::Object(es)) && out matches Some(d) && texts_field_is(
            obj_get(es@, "nameservers"@),
            d.nameservers@,
        ) && text_field(obj_get(es@, "domain"@)) == Some(d.domain@) && texts_field_is(
            obj_get(es@, "search"@),
            d.search@,
        ) && texts_field_is(obj_get(es@, "options"@), d.options@)
    }
}

/// The members of an optional runtime configuration.
pub open spec fn runtime_values(r: Option<RuntimeConfig>) -> Option<Vec<(String, Json)>> {
    match r {
        Some(c) => Some(c.values),
        None => None,
    }
}

/// The members of a configuration object decode.
pub open spec fn config_decodable(es: Seq<(String, Json)>) -> bool {
    &&& obj_get(es, "cniVersion"@) matches Some(j) && json_version(j) is Some
    &&& versions_field_ok(obj_get(es, "cniVersions"@))
    &&& text_field(obj_get(es, "name"@)) is Some
    &&& required_text(obj_get(es, "type"@)) is Some
    &&& bool_field(obj_get(es, "disableCheck"@)) is Some
    &&& bool_field(obj_get(es, "disableGC"@)) is Some
    &&& bool_field(obj_get(es, "loadOnlyInlinedPlugins"@)) is Some
    &&& bool_field(obj_get(es, "ipMasq"@)) is Some
    &&& flags_field_ok(obj_get(es, "capabilities"@))
    &&& object_field_ok(obj_get(es, "runtimeConfig"@))
    &&& ipam_field_ok(obj_get(es, "ipam"@))
    &&& dns_field_ok(obj_get(es, "dns"@))
    &&& plugins_field_ok(obj_get(es, "plugins"@))
    &&& texts_field_ok(obj_get(es, "args"@))
    &&& text_map_field_ok(obj_get(es, "attributes"@))
}

/// `c` is what the members of a configuration object decode to.
pub open spec fn config_decoded(es: Seq<(String, Json)>, c: CniNetworkConfig) -> bool {
    &&& obj_get(es, "cniVersion"@) matches Some(j) && json_version(j) == Some(c.cni_version@)
    &&& versions_field_is(obj_get(es, "cniVersions"@), versions_view(c.cni_versions@))
    &&& text_field(obj_get(es, "name"@)) == Some(c.name@)
    &&& required_text(obj_get(es, "type"@)) == Some(c.type_@)
    &&& bool_field(obj_get(es, "disableCheck"@)) == Some(c.disable_check)
    &&& bool_field(obj_get(es, "disableGC"@)) == Some(c.disable_gc)
    &&& bool_field(obj_get(es, "loadOnlyInlinedPlugins"@)) == Some(c.load_only_inlined_plugins)
    &&& bool_field(obj_get(es, "ipMasq"@)) == Some(c.ip_masq)
    &&& flags_field_is(obj_get(es, "capabilities"@), c.capabilities)
    &&& object_field_is(obj_get(es, "runtimeConfig"@), runtime_values(c.runtime_config))
    &&& ipam_field_is(obj_get(es, "ipam"@), c.ipam)
    &&& dns_field_is(obj_get(es, "dns"@), c.dns)
    &&& plugins_field_is(obj_get(es, "plugins"@), c.plugins)
    &&& texts_field_is(obj_get(es, "args"@), c.args@)
    &&& text_map_field_is(obj_get(es, "attributes"@), c.attributes)
    &&& c.extra_values@ == unknown_entries(es, config_names())
}

/// Decodes an optional IPAM member.
fn decode_ipam(v: Option<Json>) -> (r: Option<Option<IPAMConfig>>)
    ensures
        r is Some <==> ipam_field_ok(v),
        r matches Some(o) ==> ipam_field_is(v, o),
{
    match v {
        None | Some(Json::Null) => Some(None),
        Some(Json::Object(es)) => {
            let keys: [&str; 1] = ["type"];
            assert(names_view(keys@) =~= ipam_names());
            let (mut slots, rest) = collect_fields(es, &keys);
            let t = take_last(&mut slots);
            match decode_required_text(t) {
                Some(type_) => Some(Some(IPAMConfig { type_, extra_values: rest })),
                None => None,
            }
        },
        _ => None,
    }
}

/// Decodes an optional DNS member.
fn decode_dns(v: Option<Json>) -> (r: Option<Option<DNSConfig>>)
    ensures
        r is Some <==> dns_field_ok(v),
        r matches Some(o) ==> dns_field_is(v, o),
{
    match v {
        None | Some(Json::Null) => Some(None),
        Some(Json::Object(es)) => {
            let keys: [&str; 4] = ["nameservers", "domain", "search", "options"];
            proof {
                reveal_strlit("nameservers");
                reveal_strlit("domain");
                reveal_strlit("search");
                reveal_strlit("options");
                assert(names_view(keys@) =~= dns_names());
                assert(keys@[0]@.len() == 11 && keys@[1]@.len() == 6);
                assert(keys@[2]@.len() == 6 && keys@[3]@.len() == 7);
                assert(keys@[1]@[0] == 'd' && keys@[2]@[0] == 's');
            }
            let (mut slots, _rest) = collect_fields(es, &keys);
            let o = take_last(&mut slots);
            let s = take_last(&mut slots);
            let d = take_last(&mut slots);
            let n = take_last(&mut slots);
            let nameservers = decode_texts(n);
            let domain = decode_text(d);
            let search = decode_texts(s);
            let options = decode_texts(o);
            match (nameservers, domain, search, options) {
                (Some(nameservers), Some(domain), Some(search), Some(options)) => Some(
                    Some(DNSConfig { nameservers, domain, search, options }),
                ),
                _ => None,
            }
        },
        _ => None,
    }
}

/// Decodes a network configuration document. It fails with
/// `InvalidNetworkConfig` exactly where the document is not an object, a
/// required member (`cniVersion`, `type`) is missing or malformed, or a
/// member of a known name has the wrong type; members of other names never
/// make it fail and are kept in `extra_values`.
pub fn decode_network_config(doc: Json) -> (r: Result<CniNetworkConfig, CniErrorCode>)
    ensures
        match doc {
            Json::Object(es) => (r is Ok <==> config_decodable(es@)) && (r matches Ok(c)
                ==> config_decoded(es@, c)),
            _ => r is Err,
        },
        r matches Err(e) ==> e matches CniErrorCode::InvalidNetworkConfig,
{
    let es = match doc {
        Json::Object(es) => es,
        _ => return Err(CniErrorCode::InvalidNetworkConfig),
    };
    let keys: [&str; 15] = [
        "cniVersion",
        "cniVersions",
        "name",
        "type",
        "disableCheck",
        "disableGC",
        "loadOnlyInlinedPlugins",
        "ipMasq",
        "capabilities",
        "runtimeConfig",
        "ipam",
        "dns",
        "plugins",
        "args",
        "attributes",
    ];
    proof {
        lemma_config_names_distinct();
        assert(names_view(keys@) =~= config_names());
    }
    let (mut slots, rest) = collect_fields(es, &keys);
    let attributes = take_last(&mut slots);
    let args = take_last(&mut slots);
    let plugins = take_last(&mut slots);
    let dns = take_last(&mut slots);
    let ipam = take_last(&mut slots);
    let runtime = take_last(&mut slots);
    let capabilities = take_last(&mut slots);
    let ip_masq = take_last(&mut slots);
    let load_only = take_last(&mut slots);
    let disable_gc = take_last(&mut slots);
    let disable_check = take_last(&mut slots);
    let type_ = take_last(&mut slots);
    let name = take_last(&mut slots);
    let cni_versions = take_last(&mut slots);
    let cni_version = take_last(&mut slots);
    let cni_version = decode_version(cni_version);
    let cni_versions = decode_versions(cni_versions);
    let name = decode_text(name);
    let type_ = decode_required_text(type_);
    let disable_check = decode_bool(disable_check);
    let disable_gc = decode_bool(disable_gc);
    let load_only = decode_bool(load_only);
    let ip_masq = decode_bool(ip_masq);
    let capabilities = decode_flags(capabilities);
    let runtime = decode_object(runtime);
    let ipam = decode_ipam(ipam);
    let dns = decode_dns(dns);
    let plugins = decode_plugins(plugins);
    let args = decode_texts(args);
    let attributes = decode_text_map(attributes);
    let (plugins, args, attributes) = match (plugins, args, attributes) {
        (Some(plugins), Some(args), Some(attributes)) => (plugins, args, attributes),
        _ => return Err(CniErrorCode::InvalidNetworkConfig),
    };
    match (cni_version, cni_versions, name, type_) {
        (Some(cni_version), Some(cni_versions), Some(name), Some(type_)) => {
            match (disable_check, disable_gc, load_only, ip_masq) {
                (Some(disable_check), Some(disable_gc), Some(load_only), Some(ip_masq)) => {
                    match (capabilities, runtime, ipam, dns) {
                        (Some(capabilities), Some(runtime), Some(ipam), Some(dns)) => {
                            let runtime_config = match runtime {
                                Some(values) => Some(RuntimeConfig { values }),
                                None => None,
                            };
                            Ok(
                                CniNetworkConfig {
                                    cni_version,
                                    cni_versions,
                                    name,
                                    type_,
                                    disable_check,
                                    disable_gc,
                                    load_only_inlined_plugins: load_only,
                                    ip_masq,
                                    capabilities,
                                    runtime_config,
                                    ipam,
                                    dns,
                                    plugins,
                                    args,
                                    attributes,
                                    extra_values: rest,
                                },
                            )
                        },
                        _ => Err(CniErrorCode::InvalidNetworkConfig),
                    }
                },
                _ => Err(CniErrorCode::InvalidNetworkConfig),
            }
        },
        _ => Err(CniErrorCode::InvalidNetworkConfig),
    }
}

/// The decoded member names are pairwise different.
pub proof fn lemma_config_names_distinct()
    ensures
        forall|a: int, b: int|
            0 <= a < b < config_names().len() ==> config_names()[a] != config_names()[b],
{
    reveal_strlit("cniVersion");
    reveal_strlit("cniVersions");
    reveal_strlit("name");
    reveal_strlit("type");
    reveal_strlit("disableCheck");
    reveal_strlit("disableGC");
    reveal_strlit("loadOnlyInlinedPlugins");
    reveal_strlit("ipMasq");
    reveal_strlit("capabilities");
    reveal_strlit("runtimeConfig");
    reveal_strlit("ipam");
    reveal_strlit("dns");
    reveal_strlit("plugins");
    reveal_strlit("args");
    reveal_strlit("attributes");
    let c = config_names();
    assert(c[12].len() == 7 && c[13].len() == 4 && c[14].len() == 10);
    assert(c[13][0] == 'a' && c[14][0] == 'a' && c[0][0] == 'c');
    assert(c[0].len() == 10 && c[1].len() == 11 && c[2].len() == 4 && c[3].len() == 4);
    assert(c[4].len() == 12 && c[5].len() == 9 && c[6].len() == 22 && c[7].len() == 6);
    assert(c[8].len() == 12 && c[9].len() == 13 && c[10].len() == 4 && c[11].len() == 3);
    assert(c[2][0] == 'n' && c[3][0] == 't' && c[10][0] == 'i');
    assert(c[4][0] == 'd' && c[8][0] == 'c');
}

} // verus!

verus! {

/// `k` is one of the decoded member names.
pub open spec fn is_config_name(k: Seq<char>) -> bool {
    k == "cniVersion"@ || k == "cniVersions"@ || k == "name"@ || k == "type"@ || k
        == "disableCheck"@ || k == "disableGC"@ || k == "loadOnlyInlinedPlugins"@ || k
        == "ipMasq"@ || k == "capabilities"@ || k == "runtimeConfig"@ || k == "ipam"@ || k
        == "dns"@ || k == "plugins"@ || k == "args"@ || k == "attributes"@
}

/// Membership in the list of decoded names, spelled out.
pub proof fn lemma_config_names_contains(k: Seq<char>)
    ensures
        config_names().contains(k) <==> is_config_name(k),
{
    let c = config_names();
    if is_config_name(k) {
        if k == "cniVersion"@ { assert(c[0] == k); }
        else if k == "cniVersions"@ { assert(c[1] == k); }
        else if k == "name"@ { assert(c[2] == k); }
        else if k == "type"@ { assert(c[3] == k); }
        else if k == "disableCheck"@ { assert(c[4] == k); }
        else if k == "disableGC"@ { assert(c[5] == k); }
        else if k == "loadOnlyInlinedPlugins"@ { assert(c[6] == k); }
        else if k == "ipMasq"@ { assert(c[7] == k); }
        else if k == "capabilities"@ { assert(c[8] == k); }
        else if k == "runtimeConfig"@ { assert(c[9] == k); }
        else if k == "ipam"@ { assert(c[10] == k); }
        else if k == "dns"@ { assert(c[11] == k); }
        else if k == "plugins"@ { assert(c[12] == k); }
        else if k == "args"@ { assert(c[13] == k); }
        else { assert(c[14] == k); }
    }
}

/// A JSON array of version strings.
fn versions_json(vs: Vec<Version>) -> (r: Json)
    ensures
        r matches Json::Array(items) && items@.len() == vs@.len() && forall|i: int|
            0 <= i < vs@.len() ==> json_text(#[trigger] items@[i]) == Some(version_text(vs@[i]@)),
{
    let mut items: Vec<Json> = Vec::new();
    let mut i: usize = 0;
    while i < vs.len()
        invariant
            i <= vs@.len(),
            items@.len() == i,
            forall|j: int|
                0 <= j < i ==> json_text(#[trigger] items@[j]) == Some(version_text(vs@[j]@)),
        decreases vs@.len() - i,
    {
        items.push(Json::Str(vs[i].to_text()));
        i += 1;
    }
    Json::Array(items)
}

/// A JSON array of strings.
fn texts_json(vs: Vec<String>) -> (r: Json)
    ensures
        r matches Json::Array(items) && items@.len() == vs@.len() && forall|i: int|
            0 <= i < vs@.len() ==> json_text(#[trigger] items@[i]) == Some(vs@[i]@),
{
    let ghost orig = vs@;
    let mut vs = vs;
    let mut items: Vec<Json> = Vec::new();
    let n = vs.len();
    let mut i: usize = 0;
    while i < n
        invariant
            n == orig.len(),
            i <= n,
            vs@ == orig.subrange(i as int, n as int),
            items@.len() == i,
            forall|j: int| 0 <= j < i ==> json_text(#[trigger] items@[j]) == Some(orig[j]@),
        decreases n - i,
    {
        let s = vs.remove(0);
        assert(s == orig[i as int]);
        assert(vs@ =~= orig.subrange(i + 1, n as int));
        items.push(Json::Str(s));
        i += 1;
    }
    Json::Array(items)
}

/// A JSON object of flags.
fn flags_json(fs: Vec<(String, bool)>) -> (r: Json)
    ensures
        r matches Json::Object(es) && es@.len() == fs@.len() && forall|i: int|
            0 <= i < fs@.len() ==> (#[trigger] es@[i]).0@ == fs@[i].0@ && es@[i].1 == Json::Bool(
                fs@[i].1,
            ),
{
    let ghost orig = fs@;
    let mut fs = fs;
    let mut es: Vec<(String, Json)> = Vec::new();
    let n = fs.len();
    let mut i: usize = 0;
    while i < n
        invariant
            n == orig.len(),
            i <= n,
            fs@ == orig.subrange(i as int, n as int),
            es@.len() == i,
            forall|j: int|
                0 <= j < i ==> (#[trigger] es@[j]).0@ == orig[j].0@ && es@[j].1 == Json::Bool(
                    orig[j].1,
                ),
        decreases n - i,
    {
        let (k, b) = fs.remove(0);
        assert((k, b) == orig[i as int]);
        assert(fs@ =~= orig.subrange(i + 1, n as int));
        es.push((k, Json::Bool(b)));
        i += 1;
    }
    Json::Object(es)
}

/// Appends the members of `extra` whose names are not among `keys`, in
/// order.
fn push_unknown(out: &mut Vec<(String, Json)>, extra: Vec<(String, Json)>, keys: &[&str])
    ensures
        forall|k: Seq<char>|
            #![trigger obj_get(final(out)@, k)]
            !names_view(keys@).contains(k) ==> obj_get(final(out)@, k) == if obj_get(
                extra@,
                k,
            ) is Some {
                obj_get(extra@, k)
            } else {
                obj_get(old(out)@, k)
            },
        forall|k: Seq<char>|
            #![trigger obj_get(final(out)@, k)]
            names_view(keys@).contains(k) ==> obj_get(final(out)@, k) == obj_get(old(out)@, k),
{
    let ghost orig = extra@;
    let ghost start = out@;
    let mut extra = extra;
    let n = extra.len();
    let mut i: usize = 0;
    assert(orig.subrange(0, n as int) =~= orig);
    while i < n
        invariant
            n == orig.len(),
            i <= n,
            extra@ == orig.subrange(i as int, n as int),
            forall|k: Seq<char>|
                #![trigger obj_get(out@, k)]
                !names_view(keys@).contains(k) ==> obj_get(out@, k) == if obj_get(
                    orig.subrange(0, i as int),
                    k,
                ) is Some {
                    obj_get(orig.subrange(0, i as int), k)
                } else {
                    obj_get(start, k)
                },
            forall|k: Seq<char>|
                #![trigger obj_get(out@, k)]
                names_view(keys@).contains(k) ==> obj_get(out@, k) == obj_get(start, k),
        decreases n - i,
    {
        let (k, v) = extra.remove(0);
        let ghost next = orig.subrange(0, i + 1);
        proof {
            assert(orig[i as int] == (k, v));
            assert(next.drop_last() =~= orig.subrange(0, i as int));
            assert(extra@ =~= orig.subrange(i + 1, n as int));
        }
        match name_index(keys, k.as_str()) {
            None => {
                let ghost before = out@;
                let ghost kv = k@;
                out.push((k, v));
                proof {
                    assert(out@.drop_last() =~= before);
                    assert forall|q: Seq<char>| !names_view(keys@).contains(q) implies #[trigger] obj_get(
                        out@,
                        q,
                    ) == if obj_get(next, q) is Some {
                        obj_get(next, q)
                    } else {
                        obj_get(start, q)
                    } by {
                        assert(obj_get(out@, q) == if q == kv { Some(v) } else { obj_get(before, q) });
                    }
                    assert forall|q: Seq<char>| names_view(keys@).contains(q) implies #[trigger] obj_get(
                        out@,
                        q,
                    ) == obj_get(start, q) by {
                        assert(q != kv);
                        assert(obj_get(out@, q) == obj_get(before, q));
                    }
                }
            },
            Some(a) => {
                proof {
                    assert(names_view(keys@)[a as int] == k@);
                    assert forall|q: Seq<char>| !names_view(keys@).contains(q) implies #[trigger] obj_get(
                        out@,
                        q,
                    ) == if obj_get(next, q) is Some {
                        obj_get(next, q)
                    } else {
                        obj_get(start, q)
                    } by {
                        assert(q != k@);
                    }
                }
            },
        }
        i += 1;
    }
}

/// The members of an encoded IPAM object: its `type`, and its other settings
/// except any named `type`.
pub open spec fn ipam_encoded(ip: IPAMConfig, es: Seq<(String, Json)>) -> bool {
    &&& obj_get(es, "type"@) matches Some(j) && json_text(j) == Some(ip.type_@)
    &&& forall|k: Seq<char>|
        #![trigger obj_get(es, k)]
        k != "type"@ ==> obj_get(es, k) == obj_get(ip.extra_values@, k)
}

/// The members of an encoded DNS object.
pub open spec fn dns_encoded(d: DNSConfig, es: Seq<(String, Json)>) -> bool {
    &&& obj_get(es, "nameservers"@) is Some && texts_field_is(
        obj_get(es, "nameservers"@),
        d.nameservers@,
    )
    &&& obj_get(es, "domain"@) matches Some(j) && json_text(j) == Some(d.domain@)
    &&& obj_get(es, "search"@) is Some && texts_field_is(obj_get(es, "search"@), d.search@)
    &&& obj_get(es, "options"@) is Some && texts_field_is(obj_get(es, "options"@), d.options@)
}

/// The members of an encoded network configuration: every field under its
/// name, optional fields only where set, and the extra members under theirs,
/// where the fields win over an extra member of the same name.
pub open spec fn config_encoded(c: CniNetworkConfig, out: Seq<(String, Json)>) -> bool {
    &&& obj_get(out, "cniVersion"@) matches Some(j) && json_text(j) == Some(
        version_text(c.cni_version@),
    )
    &&& obj_get(out, "cniVersions"@) matches Some(Json::Array(items)) && items@.len()
        == c.cni_versions@.len() && forall|i: int|
        0 <= i < items@.len() ==> json_text(#[trigger] items@[i]) == Some(
            version_text(c.cni_versions@[i]@),
        )
    &&& obj_get(out, "name"@) matches Some(j) && json_text(j) == Some(c.name@)
    &&& obj_get(out, "type"@) matches Some(j) && json_text(j) == Some(c.type_@)
    &&& obj_get(out, "disableCheck"@) == Some(Json::Bool(c.disable_check))
    &&& obj_get(out, "disableGC"@) == Some(Json::Bool(c.disable_gc))
    &&& obj_get(out, "loadOnlyInlinedPlugins"@) == Some(Json::Bool(c.load_only_inlined_plugins))
    &&& obj_get(out, "ipMasq"@) == Some(Json::Bool(c.ip_masq))
    &&& match c.capabilities {
        Some(fs) => obj_get(out, "capabilities"@) matches Some(Json::Object(es)) && es@.len()
            == fs@.len() && forall|i: int|
            0 <= i < fs@.len() ==> (#[trigger] es@[i]).0@ == fs@[i].0@ && es@[i].1 == Json::Bool(
                fs@[i].1,
            ),
        None => obj_get(out, "capabilities"@) is None,
    }
    &&& obj_get(out, "runtimeConfig"@) == match c.runtime_config {
        Some(rc) => Some(Json::Object(rc.values)),
        None => None,
    }
    &&& match c.ipam {
        Some(ip) => obj_get(out, "ipam"@) matches Some(Json::Object(es)) && ipam_encoded(ip, es@),
        None => obj_get(out, "ipam"@) is None,
    }
    &&& match c.dns {
        Some(d) => obj_get(out, "dns"@) matches Some(Json::Object(es)) && dns_encoded(d, es@),
        None => obj_get(out, "dns"@) is None,
    }
    &&& match c.plugins {
        Some(ps) => obj_get(out, "plugins"@) matches Some(Json::Array(items)) && items@.len()
            == ps@.len() && forall|i: int|
            0 <= i < ps@.len() ==> (#[trigger] items@[i] matches Json::Object(es) && plugin_encoded(
                ps@[i],
                es@,
            )),
        None => obj_get(out, "plugins"@) is None,
    }
    &&& obj_get(out, "args"@) is Some && texts_field_is(obj_get(out, "args"@), c.args@)
    &&& text_map_encoded(c.attributes, obj_get(out, "attributes"@))
    &&& forall|k: Seq<char>|
        #![trigger obj_get(out, k)]
        !config_names().contains(k) ==> obj_get(out, k) == obj_get(c.extra_values@, k)
}

/// Encodes IPAM settings as an object.
fn ipam_json(ip: IPAMConfig) -> (r: Json)
    ensures
        r matches Json::Object(es) && ipam_encoded(ip, es@),
{
    let ghost g = ip;
    let IPAMConfig { type_, extra_values } = ip;
    let mut out: Vec<(String, Json)> = Vec::new();
    push_member(&mut out, "type", Json::Str(type_));
    let keys: [&str; 1] = ["type"];
    let ghost fixed = out@;
    push_unknown(&mut out, extra_values, &keys);
    proof {
        assert(names_view(keys@) =~= ipam_names());
        assert(names_view(keys@)[0] == "type"@);
        assert forall|k: Seq<char>| k != "type"@ implies #[trigger] obj_get(out@, k) == obj_get(
            g.extra_values@,
            k,
        ) by {
            assert(!names_view(keys@).contains(k));
            assert(obj_get(fixed, k) == obj_get(Seq::<(String, Json)>::empty(), k));
        }
    }
    Json::Object(out)
}

/// Encodes DNS settings as an object.
fn dns_json(d: DNSConfig) -> (r: Json)
    ensures
        r matches Json::Object(es) && dns_encoded(d, es@),
{
    proof {
        reveal_strlit("nameservers");
        reveal_strlit("domain");
        reveal_strlit("search");
        reveal_strlit("options");
        assert("nameservers"@.len() == 11 && "domain"@.len() == 6);
        assert("search"@.len() == 6 && "options"@.len() == 7);
        assert("domain"@[0] == 'd' && "search"@[0] == 's');
    }
    let DNSConfig { nameservers, domain, search, options } = d;
    let mut out: Vec<(String, Json)> = Vec::new();
    push_member(&mut out, "nameservers", texts_json(nameservers));
    push_member(&mut out, "domain", Json::Str(domain));
    push_member(&mut out, "search", texts_json(search));
    push_member(&mut out, "options", texts_json(options));
    Json::Object(out)
}

/// Encodes a network configuration as a JSON object: the fields under their
/// member names, optional fields only where set, then the extra members
/// whose names are not those of a field.
#[verifier::rlimit(100)]
pub fn encode_network_config(c: CniNetworkConfig) -> (r: Json)
    ensures
        r matches Json::Object(out) && config_encoded(c, out@),
{
    proof {
        lemma_config_names_distinct();
        reveal_strlit("cniVersion");
        reveal_strlit("cniVersions");
        reveal_strlit("name");
        reveal_strlit("type");
        reveal_strlit("disableCheck");
        reveal_strlit("disableGC");
        reveal_strlit("loadOnlyInlinedPlugins");
        reveal_strlit("ipMasq");
        reveal_strlit("capabilities");
        reveal_strlit("runtimeConfig");
        reveal_strlit("ipam");
        reveal_strlit("dns");
        reveal_strlit("plugins");
        reveal_strlit("args");
        reveal_strlit("attributes");
        assert("plugins"@.len() == 7 && "args"@.len() == 4 && "attributes"@.len() == 10);
        assert("args"@[0] == 'a' && "attributes"@[0] == 'a' && "cniVersion"@[0] == 'c');
        assert("name"@[0] == 'n' && "type"@[0] == 't' && "ipam"@[0] == 'i');
        assert("disableCheck"@[0] == 'd' && "capabilities"@[0] == 'c');
    }
    let ghost g = c;
    let CniNetworkConfig {
        cni_version,
        cni_versions,
        name,
        type_,
        disable_check,
        disable_gc,
        load_only_inlined_plugins,
        ip_masq,
        capabilities,
        runtime_config,
        ipam,
        dns,
        plugins,
        args,
        attributes,
        extra_values,
    } = c;
    let mut out: Vec<(String, Json)> = Vec::new();
    push_member(&mut out, "cniVersion", Json::Str(cni_version.to_text()));
    push_member(&mut out, "cniVersions", versions_json(cni_versions));
    push_member(&mut out, "name", Json::Str(name));
    push_member(&mut out, "type", Json::Str(type_));
    push_member(&mut out, "disableCheck", Json::Bool(disable_check));
    push_member(&mut out, "disableGC", Json::Bool(disable_gc));
    push_member(&mut out, "loadOnlyInlinedPlugins", Json::Bool(load_only_inlined_plugins));
    push_member(&mut out, "ipMasq", Json::Bool(ip_masq));
    if let Some(fs) = capabilities {
        push_member(&mut out, "capabilities", flags_json(fs));
    }
    if let Some(rc) = runtime_config {
        push_member(&mut out, "runtimeConfig", Json::Object(rc.values));
    }
    if let Some(ip) = ipam {
        push_member(&mut out, "ipam", ipam_json(ip));
    }
    if let Some(d) = dns {
        push_member(&mut out, "dns", dns_json(d));
    }
    if let Some(ps) = plugins {
        push_member(&mut out, "plugins", plugins_json(ps));
    }
    push_member(&mut out, "args", texts_json(args));
    if let Some(m) = attributes {
        push_member(&mut out, "attributes", text_map_json(m));
    }
    let keys: [&str; 15] = [
        "cniVersion",
        "cniVersions",
        "name",
        "type",
        "disableCheck",
        "disableGC",
        "loadOnlyInlinedPlugins",
        "ipMasq",
        "capabilities",
        "runtimeConfig",
        "ipam",
        "dns",
        "plugins",
        "args",
        "attributes",
    ];
    let ghost fixed = out@;
    proof {
        assert(names_view(keys@) =~= config_names());
        assert forall|k: Seq<char>| !config_names().contains(k) implies #[trigger] obj_get(fixed, k)
            is None by {
            lemma_config_names_contains(k);
            assert(obj_get(Seq::<(String, Json)>::empty(), k) is None);
        }
    }
    push_unknown(&mut out, extra_values, &keys);
    proof {
        let nv = names_view(keys@);
        assert(nv[0] == "cniVersion"@ && nv[1] == "cniVersions"@ && nv[2] == "name"@);
        assert(nv[3] == "type"@ && nv[4] == "disableCheck"@ && nv[5] == "disableGC"@);
        assert(nv[6] == "loadOnlyInlinedPlugins"@ && nv[7] == "ipMasq"@);
        assert(nv[8] == "capabilities"@ && nv[9] == "runtimeConfig"@);
        assert(nv[10] == "ipam"@ && nv[11] == "dns"@);
        assert(nv[12] == "plugins"@ && nv[13] == "args"@ && nv[14] == "attributes"@);
        assert(obj_get(out@, "plugins"@) == obj_get(fixed, "plugins"@));
        assert(obj_get(out@, "args"@) == obj_get(fixed, "args"@));
        assert(obj_get(out@, "attributes"@) == obj_get(fixed, "attributes"@));
        assert(obj_get(out@, "cniVersion"@) == obj_get(fixed, "cniVersion"@));
        assert(obj_get(out@, "cniVersions"@) == obj_get(fixed, "cniVersions"@));
        assert(obj_get(out@, "name"@) == obj_get(fixed, "name"@));
        assert(obj_get(out@, "type"@) == obj_get(fixed, "type"@));
        assert(obj_get(out@, "disableCheck"@) == obj_get(fixed, "disableCheck"@));
        assert(obj_get(out@, "disableGC"@) == obj_get(fixed, "disableGC"@));
        assert(obj_get(out@, "loadOnlyInlinedPlugins"@) == obj_get(fixed, "loadOnlyInlinedPlugins"@));
        assert(obj_get(out@, "ipMasq"@) == obj_get(fixed, "ipMasq"@));
        assert(obj_get(out@, "capabilities"@) == obj_get(fixed, "capabilities"@));
        assert(obj_get(out@, "runtimeConfig"@) == obj_get(fixed, "runtimeConfig"@));
        assert(obj_get(out@, "ipam"@) == obj_get(fixed, "ipam"@));
        assert(obj_get(out@, "dns"@) == obj_get(fixed, "dns"@));
        assert forall|k: Seq<char>| !config_names().contains(k) implies #[trigger] obj_get(out@, k)
            == obj_get(g.extra_values@, k) by {
            assert(obj_get(fixed, k) is None);
        }
    }
    Json::Object(out)
}

/// Decoding a configuration object and encoding the result gives back every
/// member whose name is not that of a field, under that name and with the
/// same value.
pub proof fn lemma_round_trip_keeps_unknown_members(
    es: Seq<(String, Json)>,
    c: CniNetworkConfig,
    out: Seq<(String, Json)>,
    k: Seq<char>,
)
    requires
        config_decoded(es, c),
        config_encoded(c, out),
        !config_names().contains(k),
    ensures
        obj_get(out, k) == obj_get(es, k),
{
    lemma_unknown_entries(es, config_names(), k);
}

} // verus!

verus! {

/// The member names of a plugin object that are decoded.
pub open spec fn plugin_names() -> Seq<Seq<char>> {
    seq!["type"@, "capabilities"@, "runtimeConfig"@, "args"@]
}

/// One plugin of a configuration's plugin list.
#[derive(Debug)]
pub struct PluginConfig {
    /// The name of the plugin binary; never empty.
    pub type_: String,
    /// Capability names and whether each is enabled.
    pub capabilities: Option<Vec<(String, bool)>>,
    pub runtime_config: Option<RuntimeConfig>,
    pub args: Vec<String>,
    /// The members of other names, in order.
    pub extra_values: Vec<(String, Json)>,
}

/// The members of a plugin object decode.
pub open spec fn plugin_decodable(es: Seq<(String, Json)>) -> bool {
    &&& required_text(obj_get(es, "type"@)) is Some
    &&& flags_field_ok(obj_get(es, "capabilities"@))
    &&& object_field_ok(obj_get(es, "runtimeConfig"@))
    &&& texts_field_ok(obj_get(es, "args"@))
}

/// `p` is what the members of a plugin object decode to.
pub open spec fn plugin_decoded(es: Seq<(String, Json)>, p: PluginConfig) -> bool {
    &&& required_text(obj_get(es, "type"@)) == Some(p.type_@)
    &&& flags_field_is(obj_get(es, "capabilities"@), p.capabilities)
    &&& object_field_is(obj_get(es, "runtimeConfig"@), runtime_values(p.runtime_config))
    &&& texts_field_is(obj_get(es, "args"@), p.args@)
    &&& p.extra_values@ == unknown_entries(es, plugin_names())
}

/// A JSON value is a plugin object that decodes.
pub open spec fn json_plugin_ok(j: Json) -> bool {
    j matches Json::Object(es) && plugin_decodable(es@)
}

/// An optional plugin list decodes: absent, or an array of plugin objects
/// that decode.
pub open spec fn plugins_field_ok(v: Option<Json>) -> bool {
    absent(v) || (v matches Some(Json::Array(items)) && forall|i: int|
        0 <= i < items@.len() ==> json_plugin_ok(#[trigger] items@[i]))
}

/// `out` is what an optional plugin list decodes to.
pub open spec fn plugins_field_is(v: Option<Json>, out: Option<Vec<PluginConfig>>) -> bool {
    if absent(v) {
        out is None
    } else {
        v matches Some(Json::Array(items)) && out matches Some(ps) && ps@.len() == items@.len()
            && forall|i: int|
            0 <= i < ps@.len() ==> (#[trigger] items@[i] matches Json::Object(es) && plugin_decoded(
                es@,
                ps@[i],
            ))
    }
}

/// An optional map of texts decodes: absent, or an object of strings.
pub open spec fn text_map_field_ok(v: Option<Json>) -> bool {
    absent(v) || (v matches Some(Json::Object(es)) && forall|i: int|
        0 <= i < es@.len() ==> json_text((#[trigger] es@[i]).1) is Some)
}

/// `out` is what an optional map of texts decodes to.
pub open spec fn text_map_field_is(v: Option<Json>, out: Option<Vec<(String, String)>>) -> bool {
    if absent(v) {
        out is None
    } else {
        v matches Some(Json::Object(es)) && out matches Some(o) && o@.len() == es@.len()
            && forall|i: int|
            0 <= i < o@.len() ==> (#[trigger] o@[i]).0@ == es@[i].0@ && json_text(es@[i].1)
                == Some(o@[i].1@)
    }
}

/// Decodes a plugin object.
fn decode_plugin(j: Json) -> (r: Option<PluginConfig>)
    ensures
        r is Some <==> json_plugin_ok(j),
        r matches Some(p) ==> (j matches Json::Object(es) && plugin_decoded(es@, p)),
{
    match j {
        Json::Object(es) => {
            let keys: [&str; 4] = ["type", "capabilities", "runtimeConfig", "args"];
            proof {
                reveal_strlit("type");
                reveal_strlit("capabilities");
                reveal_strlit("runtimeConfig");
                reveal_strlit("args");
                assert(names_view(keys@) =~= plugin_names());
                assert(keys@[0]@.len() == 4 && keys@[1]@.len() == 12);
                assert(keys@[2]@.len() == 13 && keys@[3]@.len() == 4);
                assert(keys@[0]@[0] == 't' && keys@[3]@[0] == 'a');
            }
            let (mut slots, rest) = collect_fields(es, &keys);
            let a = take_last(&mut slots);
            let rc = take_last(&mut slots);
            let c = take_last(&mut slots);
            let t = take_last(&mut slots);
            let type_ = decode_required_text(t);
            let capabilities = decode_flags(c);
            let runtime = decode_object(rc);
            let args = decode_texts(a);
            match (type_, capabilities, runtime, args) {
                (Some(type_), Some(capabilities), Some(runtime), Some(args)) => {
                    let runtime_config = match runtime {
                        Some(values) => Some(RuntimeConfig { values }),
                        None => None,
                    };
                    Some(PluginConfig { type_, capabilities, runtime_config, args, extra_values: rest })
                },
                _ => None,
            }
        },
        _ => None,
    }
}

/// Decodes an optional plugin list.
fn decode_plugins(v: Option<Json>) -> (r: Option<Option<Vec<PluginConfig>>>)
    ensures
        r is Some <==> plugins_field_ok(v),
        r matches Some(o) ==> plugins_field_is(v, o),
{
    match v {
        None | Some(Json::Null) => Some(None),
        Some(Json::Array(items0)) => {
            let ghost orig = items0@;
            let mut items = items0;
            let mut out: Vec<PluginConfig> = Vec::new();
            let n = items.len();
            let mut i: usize = 0;
            while i < n
                invariant
                    v matches Some(Json::Array(x)) && x@ == orig,
                    n == orig.len(),
                    i <= n,
                    items@ == orig.subrange(i as int, n as int),
                    out@.len() == i,
                    forall|j: int|
                        0 <= j < i ==> (#[trigger] orig[j] matches Json::Object(es) && plugin_decoded(
                            es@,
                            out@[j],
                        ) && plugin_decodable(es@)),
                decreases n - i,
            {
                let item = items.remove(0);
                assert(item == orig[i as int]);
                assert(items@ =~= orig.subrange(i + 1, n as int));
                match decode_plugin(item) {
                    Some(p) => out.push(p),
                    None => {
                        assert(!json_plugin_ok(orig[i as int]));
                        return None;
                    },
                }
                i += 1;
            }
            assert forall|j: int| 0 <= j < n implies json_plugin_ok(#[trigger] orig[j]) by {}
            Some(Some(out))
        },
        _ => None,
    }
}

/// Decodes an optional map of texts.
fn decode_text_map(v: Option<Json>) -> (r: Option<Option<Vec<(String, String)>>>)
    ensures
        r is Some <==> text_map_field_ok(v),
        r matches Some(o) ==> text_map_field_is(v, o),
{
    match v {
        None | Some(Json::Null) => Some(None),
        Some(Json::Object(es0)) => {
            let ghost orig = es0@;
            let mut es = es0;
            let mut out: Vec<(String, String)> = Vec::new();
            let n = es.len();
            let mut i: usize = 0;
            while i < n
                invariant
                    v matches Some(Json::Object(x)) && x@ == orig,
                    n == orig.len(),
                    i <= n,
                    es@ == orig.subrange(i as int, n as int),
                    out@.len() == i,
                    forall|j: int|
                        0 <= j < i ==> (#[trigger] out@[j]).0@ == orig[j].0@ && json_text(orig[j].1)
                            == Some(out@[j].1@),
                decreases n - i,
            {
                let (k, item) = es.remove(0);
                assert(orig[i as int] == (k, item));
                assert(es@ =~= orig.subrange(i + 1, n as int));
                match item {
                    Json::Str(t) => out.push((k, t)),
                    _ => {
                        assert(json_text(orig[i as int].1) is None);
                        return None;
                    },
                }
                i += 1;
            }
            assert forall|j: int| 0 <= j < n implies json_text((#[trigger] orig[j]).1) is Some by {
                assert(json_text(orig[j].1) == Some(out@[j].1@));
            }
            Some(Some(out))
        },
        _ => None,
    }
}

/// `k` is one of the decoded member names of a plugin object.
pub open spec fn is_plugin_name(k: Seq<char>) -> bool {
    k == "type"@ || k == "capabilities"@ || k == "runtimeConfig"@ || k == "args"@
}

/// Membership in the list of decoded plugin member names, spelled out.
proof fn lemma_plugin_names_contains(k: Seq<char>)
    ensures
        plugin_names().contains(k) <==> is_plugin_name(k),
{
    let c = plugin_names();
    if is_plugin_name(k) {
        if k == "type"@ { assert(c[0] == k); }
        else if k == "capabilities"@ { assert(c[1] == k); }
        else if k == "runtimeConfig"@ { assert(c[2] == k); }
        else { assert(c[3] == k); }
    }
}

/// `v` is the member an optional map of flags encodes to: an object of
/// booleans in order, or nothing.
pub open spec fn flags_encoded(fs: Option<Vec<(String, bool)>>, v: Option<Json>) -> bool {
    match fs {
        Some(fs) => v matches Some(Json::Object(es)) && es@.len() == fs@.len() && forall|i: int|
            0 <= i < fs@.len() ==> (#[trigger] es@[i]).0@ == fs@[i].0@ && es@[i].1 == Json::Bool(
                fs@[i].1,
            ),
        None => v is None,
    }
}

/// `v` is the member an optional map of texts encodes to: an object of
/// strings in order, or nothing.
pub open spec fn text_map_encoded(m: Option<Vec<(String, String)>>, v: Option<Json>) -> bool {
    match m {
        Some(m) => v matches Some(Json::Object(es)) && es@.len() == m@.len() && forall|i: int|
            0 <= i < m@.len() ==> (#[trigger] es@[i]).0@ == m@[i].0@ && json_text(es@[i].1)
                == Some(m@[i].1@),
        None => v is None,
    }
}

/// The members of an encoded plugin object: every field under its name,
/// optional fields only where set, and the extra members under theirs,
/// where the fields win over an extra member of the same name.
pub open spec fn plugin_encoded(p: PluginConfig, es: Seq<(String, Json)>) -> bool {
    &&& obj_get(es, "type"@) matches Some(j) && json_text(j) == Some(p.type_@)
    &&& flags_encoded(p.capabilities, obj_get(es, "capabilities"@))
    &&& obj_get(es, "runtimeConfig"@) == match p.runtime_config {
        Some(rc) => Some(Json::Object(rc.values)),
        None => None,
    }
    &&& obj_get(es, "args"@) is Some && texts_field_is(obj_get(es, "args"@), p.args@)
    &&& forall|k: Seq<char>|
        #![trigger obj_get(es, k)]
        !plugin_names().contains(k) ==> obj_get(es, k) == obj_get(p.extra_values@, k)
}

/// A JSON object of texts.
fn text_map_json(m: Vec<(String, String)>) -> (r: Json)
    ensures
        text_map_encoded(Some(m), Some(r)),
{
    let ghost orig = m@;
    let mut m = m;
    let mut es: Vec<(String, Json)> = Vec::new();
    let n = m.len();
    let mut i: usize = 0;
    while i < n
        invariant
            n == orig.len(),
            i <= n,
            m@ == orig.subrange(i as int, n as int),
            es@.len() == i,
            forall|j: int|
                0 <= j < i ==> (#[trigger] es@[j]).0@ == orig[j].0@ && json_text(es@[j].1) == Some(
                    orig[j].1@,
                ),
        decreases n - i,
    {
        let (k, t) = m.remove(0);
        assert((k, t) == orig[i as int]);
        assert(m@ =~= orig.subrange(i + 1, n as int));
        es.push((k, Json::Str(t)));
        i += 1;
    }
    Json::Object(es)
}

/// Encodes a plugin as an object.
fn plugin_json(p: PluginConfig) -> (r: Json)
    ensures
        r matches Json::Object(es) && plugin_encoded(p, es@),
{
    proof {
        reveal_strlit("type");
        reveal_strlit("capabilities");
        reveal_strlit("runtimeConfig");
        reveal_strlit("args");
        assert("type"@.len() == 4 && "capabilities"@.len() == 12);
        assert("runtimeConfig"@.len() == 13 && "args"@.len() == 4);
        assert("type"@[0] == 't' && "args"@[0] == 'a');
    }
    let ghost g = p;
    let PluginConfig { type_, capabilities, runtime_config, args, extra_values } = p;
    let mut out: Vec<(String, Json)> = Vec::new();
    push_member(&mut out, "type", Json::Str(type_));
    if let Some(fs) = capabilities {
        push_member(&mut out, "capabilities", flags_json(fs));
    }
    if let Some(rc) = runtime_config {
        push_member(&mut out, "runtimeConfig", Json::Object(rc.values));
    }
    push_member(&mut out, "args", texts_json(args));
    let keys: [&str; 4] = ["type", "capabilities", "runtimeConfig", "args"];
    let ghost fixed = out@;
    proof {
        assert(names_view(keys@) =~= plugin_names());
        assert forall|k: Seq<char>| !plugin_names().contains(k) implies #[trigger] obj_get(fixed, k)
            is None by {
            lemma_plugin_names_contains(k);
            assert(obj_get(Seq::<(String, Json)>::empty(), k) is None);
        }
    }
    push_unknown(&mut out, extra_values, &keys);
    proof {
        let nv = names_view(keys@);
        assert(nv[0] == "type"@ && nv[1] == "capabilities"@ && nv[2] == "runtimeConfig"@);
        assert(nv[3] == "args"@);
        assert(obj_get(out@, "type"@) == obj_get(fixed, "type"@));
        assert(obj_get(out@, "capabilities"@) == obj_get(fixed, "capabilities"@));
        assert(obj_get(out@, "runtimeConfig"@) == obj_get(fixed, "runtimeConfig"@));
        assert(obj_get(out@, "args"@) == obj_get(fixed, "args"@));
        assert forall|k: Seq<char>| !plugin_names().contains(k) implies #[trigger] obj_get(out@, k)
            == obj_get(g.extra_values@, k) by {
            assert(obj_get(fixed, k) is None);
        }
    }
    Json::Object(out)
}

/// A JSON array of plugin objects.
fn plugins_json(ps: Vec<PluginConfig>) -> (r: Json)
    ensures
        r matches Json::Array(items) && items@.len() == ps@.len() && forall|i: int|
            0 <= i < ps@.len() ==> (#[trigger] items@[i] matches Json::Object(es) && plugin_encoded(
                ps@[i],
                es@,
            )),
{
    let ghost orig = ps@;
    let mut ps = ps;
    let mut items: Vec<Json> = Vec::new();
    let n = ps.len();
    let mut i: usize = 0;
    while i < n
        invariant
            n == orig.len(),
            i <= n,
            ps@ == orig.subrange(i as int, n as int),
            items@.len() == i,
            forall|j: int|
                0 <= j < i ==> (#[trigger] items@[j] matches Json::Object(es) && plugin_encoded(
                    orig[j],
                    es@,
                )),
        decreases n - i,
    {
        let p = ps.remove(0);
        assert(p == orig[i as int]);
        assert(ps@ =~= orig.subrange(i + 1, n as int));
        items.push(plugin_json(p));
        i += 1;
    }
    Json::Array(items)
}

} // verus!
