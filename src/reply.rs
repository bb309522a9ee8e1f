//! The reply of an invocation: the success payload or the canonical error
//! object, and the exit code that goes with it.

use vstd::prelude::*;

use crate::api::{
    command_in, input_version, request_error, request_ok, run_execution, text_of, CniExecution,
    CniPlugin, ConfigInput,
};
use crate::args::CniCommand;
use crate::env::{CniEnv, CNI_COMMAND};
use crate::config::json_version;
use crate::error::{error_encoded, CniError, CniErrorCode};
use crate::json::{obj_get, push_member, Json};
use crate::text::str_eq;
use crate::version::{
    accepts, current, current_spec, opt_version_view, parse_semver, version_text, versions_view, PluginInfo, Version,
    VersionSpec,
};

verus! {

/// The reply to a `VERSION` command.
#[derive(Debug)]
pub struct VersionReply {
    /// The version the caller gave, echoed back.
    pub cni_version: Version,
    /// Every version the plugin implements.
    pub supported_versions: Vec<Version>,
}

/// The value of member `key` of an object, by reference.
pub fn member<'a>(es: &'a Vec<(String, Json)>, key: &str) -> (r: Option<&'a Json>)
    ensures
        match r {
            Some(j) => obj_get(es@, key@) == Some(*j),
            None => obj_get(es@, key@) is None,
        },
{
    let mut i: usize = es.len();
    assert(es@.subrange(0, i as int) =~= es@);
    while i > 0
        invariant
            i <= es@.len(),
            obj_get(es@.subrange(0, i as int), key@) == obj_get(es@, key@),
        decreases i,
    {
        let ghost q = es@.subrange(0, i as int);
        assert(q.drop_last() =~= es@.subrange(0, i - 1));
        if str_eq(es[i - 1].0.as_str(), key) {
            return Some(&es[i - 1].1);
        }
        i -= 1;
    }
    None
}

/// The protocol version the configuration read asks for, if it names one.
pub fn requested_version(input: &ConfigInput) -> (r: Option<Version>)
    ensures
        opt_version_view(r) == input_version(*input),
{
    match input {
        ConfigInput::Parsed(Json::Object(es)) => match member(es, "cniVersion") {
            Some(Json::Str(s)) => parse_semver(s.as_str()),
            _ => None,
        },
        _ => None,
    }
}

/// The reply to a `VERSION` command, which never fails: the version the
/// caller gave (the current one where it gave none that parses) and every
/// version the plugin implements.
pub fn version_reply<I: PluginInfo>(plugin_info: &I, input: &ConfigInput) -> (r: VersionReply)
    ensures
        versions_view(r.supported_versions@) == plugin_info.spec_supported(),
        r.cni_version@ == match input_version(*input) {
            Some(v) => v,
            None => current_spec(),
        },
{
    let cni_version = match requested_version(input) {
        Some(v) => v,
        None => current(),
    };
    VersionReply { cni_version, supported_versions: plugin_info.supported_versions() }
}

impl VersionReply {
    /// Encodes this reply as a JSON object.
    pub fn to_json(self) -> (r: Json)
        ensures
            r matches Json::Object(es) && (obj_get(es@, "cniVersion"@) matches Some(Json::Str(s))
                && s@ == version_text(self.cni_version@)) && (obj_get(es@, "supportedVersions"@) matches Some(
                Json::Array(items),
            ) && items@.len() == self.supported_versions@.len() && forall|i: int|
                0 <= i < items@.len() ==> (#[trigger] items@[i] matches Json::Str(s) && s@
                    == version_text(self.supported_versions@[i]@))),
    {
        proof {
            reveal_strlit("cniVersion");
            reveal_strlit("supportedVersions");
            assert("cniVersion"@.len() == 10 && "supportedVersions"@.len() == 17);
        }
        let mut items: Vec<Json> = Vec::new();
        let mut i: usize = 0;
        while i < self.supported_versions.len()
            invariant
                i <= self.supported_versions@.len(),
                items@.len() == i,
                forall|j: int|
                    0 <= j < i ==> (#[trigger] items@[j] matches Json::Str(s) && s@ == version_text(
                        self.supported_versions@[j]@,
                    )),
            decreases self.supported_versions@.len() - i,
        {
            items.push(Json::Str(self.supported_versions[i].to_text()));
            i += 1;
        }
        let mut es: Vec<(String, Json)> = Vec::new();
        push_member(&mut es, "cniVersion", Json::Str(self.cni_version.to_text()));
        push_member(&mut es, "supportedVersions", Json::Array(items));
        Json::Object(es)
    }
}

/// The exit code of an outcome: zero on success, the error's code otherwise.
pub fn exit_code<T>(result: &Result<T, CniErrorCode>) -> (r: usize)
    ensures
        match result {
            Ok(_) => r == 0,
            Err(e) => r == e.spec_code(),
        },
{
    match result {
        Ok(_) => 0,
        Err(e) => e.code(),
    }
}

/// The protocol version a reply is stated under: the one the configuration
/// read asks for, or the current one where it names none that parses.
pub open spec fn reply_version(input: ConfigInput) -> VersionSpec {
    match input_version(input) {
        Some(v) => v,
        None => current_spec(),
    }
}

/// `doc` is an encoded error object with code `code` under version `v`.
pub open spec fn is_error_reply(code: usize, doc: Option<Json>, v: VersionSpec) -> bool {
    doc matches Some(Json::Object(es)) && exists|c: CniError|
        c.code == code && c.cni_version@ == v && #[trigger] error_encoded(c, es@)
}

/// `doc` is an encoded `VERSION` reply under version `v` listing `supported`.
pub open spec fn is_version_reply(doc: Option<Json>, v: VersionSpec, supported: Seq<VersionSpec>) -> bool {
    doc matches Some(Json::Object(es)) && (obj_get(es@, "cniVersion"@) matches Some(Json::Str(s))
        && s@ == version_text(v)) && (obj_get(es@, "supportedVersions"@) matches Some(
        Json::Array(items),
    ) && items@.len() == supported.len() && forall|i: int|
        0 <= i < items@.len() ==> (#[trigger] items@[i] matches Json::Str(s) && s@ == version_text(
            supported[i],
        )))
}

/// What an outcome reports: the exit code and the document written to
/// standard output, if any. A success goes out with code zero and its
/// payload, if it has one; a failure as the canonical error object, under
/// the protocol version in use, with the error's code.
pub fn reply(result: Result<Option<Json>, CniErrorCode>, cni_version: &Version) -> (r: (
    usize,
    Option<Json>,
))
    ensures
        match result {
            Ok(doc) => r.0 == 0 && r.1 == doc,
            Err(e) => r.0 == e.spec_code() && is_error_reply(r.0, r.1, cni_version@),
        },
{
    match result {
        Ok(doc) => (0, doc),
        Err(e) => {
            let code = e.code();
            let err = e.to_cni_error(cni_version);
            let doc = err.to_json();
            (code, Some(doc))
        },
    }
}

/// Runs one invocation through to what it reports: the exit code, and the
/// document to write to standard output, if any. `VERSION` always succeeds
/// and reports the requested version and the versions the plugin
/// implements. A failure, whether of classification, negotiation or the
/// plugin, reports the canonical error object under the requested protocol
/// version (the current one where none parses); any other success exits
/// with code zero and writes nothing.
pub fn invoke<P: CniPlugin, I: PluginInfo>(
    plugin: &P,
    plugin_info: &I,
    env: &CniEnv,
    input: ConfigInput,
) -> (r: (usize, Option<Json>))
    ensures
        r.0 != 0 ==> is_error_reply(r.0, r.1, reply_version(input)),
        !env@.contains_key(CNI_COMMAND@) ==> r.0 == 12,
        env@.contains_key(CNI_COMMAND@) && text_of(env@, CNI_COMMAND@) is None ==> r.0 == 4,
        text_of(env@, CNI_COMMAND@) is Some && command_in(env@) is None ==> r.0 == 14,
        command_in(env@) == Some(CniCommand::Add) && !request_ok(env@, input, true) ==> exists|
            e: CniErrorCode,
        | request_error(env@, input, true, e) && r.0 == #[trigger] e.spec_code(),
        command_in(env@) == Some(CniCommand::Check) && !request_ok(env@, input, true) ==> exists|
            e: CniErrorCode,
        | request_error(env@, input, true, e) && r.0 == #[trigger] e.spec_code(),
        command_in(env@) == Some(CniCommand::Del) && !request_ok(env@, input, false) ==> exists|
            e: CniErrorCode,
        | request_error(env@, input, false, e) && r.0 == #[trigger] e.spec_code(),
        (command_in(env@) == Some(CniCommand::Add) && request_ok(env@, input, true)) || (command_in(
            env@,
        ) == Some(CniCommand::Del) && request_ok(env@, input, false)) ==> (input_version(input) matches Some(v)
            && (!accepts(v, plugin_info.spec_supported()) ==> r.0 == 1 && is_error_reply(
            1,
            r.1,
            v,
        ))),
        command_in(env@) == Some(CniCommand::Version) ==> r.0 == 0 && is_version_reply(
            r.1,
            reply_version(input),
            plugin_info.spec_supported(),
        ),
        command_in(env@) != Some(CniCommand::Version) && r.1 is None ==> r.0 == 0,
        command_in(env@) != Some(CniCommand::Version) && r.1 is Some ==> is_error_reply(
            r.0,
            r.1,
            reply_version(input),
        ),
{
    let cni_version = match requested_version(&input) {
        Some(v) => v,
        None => current(),
    };
    let version_doc = version_reply(plugin_info, &input).to_json();
    let outcome = match CniExecution::load_args_from_env(env, input) {
        Err(e) => Err(e),
        Ok(CniExecution::Version) => Ok(Some(version_doc)),
        Ok(execution) => match run_execution(plugin, plugin_info, execution) {
            Ok(()) => Ok(None),
            Err(e) => Err(e),
        },
    };
    reply(outcome, &cni_version)
}

} // verus!
