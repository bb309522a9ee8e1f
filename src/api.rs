//! Classifying an invocation into a typed execution request, and running a
//! plugin on it.

use vstd::prelude::*;

use crate::args::{args_well_formed, command_of, parse_args, CniArgs, CniCommand};
use crate::config::{
    config_decodable, config_decoded, decode_network_config, json_version, CniNetworkConfig,
};
use crate::env::{
    is_invalid, is_missing, load_env, obtain_args, obtain_command, obtain_container_id, require_env,
    valid_container_id, CniEnv, CNI_ARGS, CNI_COMMAND, CNI_CONTAINERID, CNI_IFNAME, CNI_NETNS,
};
use crate::error::CniErrorCode;
use crate::json::{obj_get, Json};
use crate::version::{accepts, check_version, is_highest, PluginInfo, VersionSpec};

verus! {

/// What was read as the network configuration.
#[derive(Debug)]
pub enum ConfigInput {
    /// The input was read and holds a JSON document.
    Parsed(Json),
    /// The input was read but is not a JSON document.
    NotJson,
    /// Reading the input failed, for the reason given.
    ReadError(String),
}

/// The request of an `ADD` command.
#[derive(Debug)]
pub struct CniAddContext {
    pub container_id: String,
    pub netns: String,
    pub if_name: String,
    pub args: CniArgs,
    pub config: CniNetworkConfig,
}

/// The request of a `DEL` command; the isolation domain may be gone already.
#[derive(Debug)]
pub struct CniDelContext {
    pub container_id: String,
    pub if_name: String,
    pub netns: Option<String>,
    pub args: CniArgs,
    pub config: CniNetworkConfig,
}

/// The request of a `CHECK` command.
#[derive(Debug)]
pub struct CniCheckContext {
    pub container_id: String,
    pub netns: String,
    pub if_name: String,
    pub args: CniArgs,
    pub config: CniNetworkConfig,
}

/// The request of a `GC` command.
#[derive(Debug)]
pub struct CniGcContext {}

/// One invocation, classified: each command with the fields it requires.
#[derive(Debug)]
pub enum CniExecution {
    Add(CniAddContext),
    Del(CniDelContext),
    Check(CniCheckContext),
    GC(CniGcContext),
    Version,
}

/// The text of a variable that is set to valid Unicode.
pub open spec fn text_of(env: Map<Seq<char>, Option<Seq<char>>>, var: Seq<char>) -> Option<
    Seq<char>,
> {
    if env.contains_key(var) {
        env[var]
    } else {
        None
    }
}

/// A variable is acceptable: set to valid Unicode, or absent where it is
/// optional.
pub open spec fn var_ok(env: Map<Seq<char>, Option<Seq<char>>>, var: Seq<char>, required: bool) -> bool {
    if env.contains_key(var) {
        env[var] is Some
    } else {
        !required
    }
}

/// `e` is the error for an unacceptable variable: invalid where it is set,
/// missing where it is not.
pub open spec fn var_error(env: Map<Seq<char>, Option<Seq<char>>>, var: Seq<char>, e: CniErrorCode) -> bool {
    if env.contains_key(var) {
        is_invalid(e, var)
    } else {
        is_missing(e, var)
    }
}

/// The container identifier is set and valid.
pub open spec fn id_ok(env: Map<Seq<char>, Option<Seq<char>>>) -> bool {
    text_of(env, CNI_CONTAINERID@) matches Some(t) && valid_container_id(t)
}

/// The extra arguments are absent, or set and well formed.
pub open spec fn args_ok(env: Map<Seq<char>, Option<Seq<char>>>) -> bool {
    !env.contains_key(CNI_ARGS@) || (env[CNI_ARGS@] matches Some(t) && args_well_formed(t))
}

/// The extra arguments an environment gives: empty where absent.
pub open spec fn args_of(env: Map<Seq<char>, Option<Seq<char>>>) -> Map<Seq<char>, Seq<char>> {
    match text_of(env, CNI_ARGS@) {
        Some(t) => parse_args(t),
        None => Map::empty(),
    }
}

/// The input holds a network configuration that decodes.
pub open spec fn input_ok(input: ConfigInput) -> bool {
    input matches ConfigInput::Parsed(Json::Object(es)) && config_decodable(es@)
}

/// `e` is the error for an input that does not decode: an I/O failure with
/// the reason where reading failed, an invalid configuration otherwise.
pub open spec fn input_error(input: ConfigInput, e: CniErrorCode) -> bool {
    match input {
        ConfigInput::ReadError(m) => e matches CniErrorCode::IOFailure(x) && x@ == m@,
        _ => e matches CniErrorCode::InvalidNetworkConfig,
    }
}

/// The protocol version that the configuration read asks for.
pub open spec fn input_version(input: ConfigInput) -> Option<VersionSpec> {
    match input {
        ConfigInput::Parsed(Json::Object(es)) => match obj_get(es@, "cniVersion"@) {
            Some(j) => json_version(j),
            None => None,
        },
        _ => None,
    }
}

/// Everything a container command needs is present and valid.
pub open spec fn request_ok(env: Map<Seq<char>, Option<Seq<char>>>, input: ConfigInput, netns_required: bool) -> bool {
    &&& id_ok(env)
    &&& var_ok(env, CNI_NETNS@, netns_required)
    &&& var_ok(env, CNI_IFNAME@, true)
    &&& args_ok(env)
    &&& input_ok(input)
}

/// `e` is the error of the first check of a container command that fails:
/// container identifier, isolation domain, interface name, extra arguments,
/// then the configuration.
pub open spec fn request_error(
    env: Map<Seq<char>, Option<Seq<char>>>,
    input: ConfigInput,
    netns_required: bool,
    e: CniErrorCode,
) -> bool {
    if !id_ok(env) {
        var_error(env, CNI_CONTAINERID@, e)
    } else if !var_ok(env, CNI_NETNS@, netns_required) {
        var_error(env, CNI_NETNS@, e)
    } else if !var_ok(env, CNI_IFNAME@, true) {
        var_error(env, CNI_IFNAME@, e)
    } else if !args_ok(env) {
        is_invalid(e, CNI_ARGS@)
    } else {
        input_error(input, e)
    }
}

/// The isolation domain may be missing for `DEL` only: with every other
/// variable a container command needs in place and a configuration that
/// decodes, a `DEL` without `CNI_NETNS` succeeds while `ADD` and `CHECK`
/// fail on it.
pub proof fn lemma_netns_optional_for_del_only(
    env: Map<Seq<char>, Option<Seq<char>>>,
    input: ConfigInput,
)
    requires
        !env.contains_key(CNI_NETNS@),
        id_ok(env),
        var_ok(env, CNI_IFNAME@, true),
        args_ok(env),
        input_ok(input),
    ensures
        request_ok(env, input, false),
        !request_ok(env, input, true),
        forall|e: CniErrorCode| request_error(env, input, true, e) <==> is_missing(e, CNI_NETNS@),
{
}

/// The view of an optional string.
pub open spec fn opt_text(s: Option<String>) -> Option<Seq<char>> {
    match s {
        Some(x) => Some(x@),
        None => None,
    }
}

/// The fields of a container request are those the environment and input
/// give.
pub open spec fn request_fields(
    env: Map<Seq<char>, Option<Seq<char>>>,
    input: ConfigInput,
    container_id: String,
    netns: Option<String>,
    if_name: String,
    args: CniArgs,
    config: CniNetworkConfig,
) -> bool {
    &&& text_of(env, CNI_CONTAINERID@) == Some(container_id@)
    &&& opt_text(netns) == text_of(env, CNI_NETNS@)
    &&& text_of(env, CNI_IFNAME@) == Some(if_name@)
    &&& args.wf() && args@ == args_of(env)
    &&& input matches ConfigInput::Parsed(Json::Object(es)) && config_decoded(es@, config)
}

/// The command an environment names, if any.
pub open spec fn command_in(env: Map<Seq<char>, Option<Seq<char>>>) -> Option<CniCommand> {
    match text_of(env, CNI_COMMAND@) {
        Some(t) => command_of(t),
        None => None,
    }
}

/// The fields of a container command.
struct Request {
    container_id: String,
    netns: Option<String>,
    if_name: String,
    args: CniArgs,
    config: CniNetworkConfig,
}

/// Decodes the network configuration from what was read.
pub fn decode_input(input: ConfigInput) -> (r: Result<CniNetworkConfig, CniErrorCode>)
    ensures
        r is Ok <==> input_ok(input),
        r matches Err(e) ==> input_error(input, e),
        r matches Ok(c) ==> (input matches ConfigInput::Parsed(Json::Object(es)) && config_decoded(
            es@,
            c,
        )),
{
    match input {
        ConfigInput::Parsed(doc) => decode_network_config(doc),
        ConfigInput::NotJson => Err(CniErrorCode::InvalidNetworkConfig),
        ConfigInput::ReadError(m) => Err(CniErrorCode::IOFailure(m)),
    }
}

/// Loads the fields of a container command, checking them in order.
fn load_request(env: &CniEnv, input: ConfigInput, netns_required: bool) -> (r: Result<
    Request,
    CniErrorCode,
>)
    ensures
        r is Ok <==> request_ok(env@, input, netns_required),
        r matches Err(e) ==> request_error(env@, input, netns_required, e),
        r matches Ok(q) ==> request_fields(
            env@,
            input,
            q.container_id,
            q.netns,
            q.if_name,
            q.args,
            q.config,
        ),
{
    let container_id = obtain_container_id(env)?;
    let netns = if netns_required {
        Some(require_env(env, CNI_NETNS)?)
    } else {
        load_env(env, CNI_NETNS)?
    };
    let if_name = require_env(env, CNI_IFNAME)?;
    let args = obtain_args(env)?;
    let config = decode_input(input)?;
    Ok(Request { container_id, netns, if_name, args, config })
}

impl CniExecution {
    /// Classifies an invocation from its environment and the configuration
    /// it was given. The command comes first: absent, malformed or unknown,
    /// nothing else is read. `GC` and `VERSION` need nothing more. `ADD`,
    /// `DEL` and `CHECK` need a valid container identifier, the interface
    /// name, the isolation domain (optional for `DEL` only), well-formed
    /// extra arguments and a configuration that decodes, checked in that
    /// order.
    pub fn load_args_from_env(env: &CniEnv, input: ConfigInput) -> (r: Result<
        CniExecution,
        CniErrorCode,
    >)
        ensures
            text_of(env@, CNI_COMMAND@) is None ==> (r matches Err(e) && var_error(
                env@,
                CNI_COMMAND@,
                e,
            )),
            text_of(env@, CNI_COMMAND@) is Some && command_in(env@) is None ==> r matches Err(
                CniErrorCode::UnknownCommand,
            ),
            command_in(env@) == Some(CniCommand::GC) ==> r matches Ok(CniExecution::GC(_)),
            command_in(env@) == Some(CniCommand::Version) ==> r matches Ok(CniExecution::Version),
            command_in(env@) == Some(CniCommand::Add) ==> {
                &&& r is Ok <==> request_ok(env@, input, true)
                &&& r matches Err(e) ==> request_error(env@, input, true, e)
                &&& r matches Ok(x) ==> (x matches CniExecution::Add(c) && request_fields(
                    env@,
                    input,
                    c.container_id,
                    Some(c.netns),
                    c.if_name,
                    c.args,
                    c.config,
                ))
            },
            command_in(env@) == Some(CniCommand::Del) ==> {
                &&& r is Ok <==> request_ok(env@, input, false)
                &&& r matches Err(e) ==> request_error(env@, input, false, e)
                &&& r matches Ok(x) ==> (x matches CniExecution::Del(c) && request_fields(
                    env@,
                    input,
                    c.container_id,
                    c.netns,
                    c.if_name,
                    c.args,
                    c.config,
                ))
            },
            command_in(env@) == Some(CniCommand::Check) ==> {
                &&& r is Ok <==> request_ok(env@, input, true)
                &&& r matches Err(e) ==> request_error(env@, input, true, e)
                &&& r matches Ok(x) ==> (x matches CniExecution::Check(c) && request_fields(
                    env@,
                    input,
                    c.container_id,
                    Some(c.netns),
                    c.if_name,
                    c.args,
                    c.config,
                ))
            },
    {
        match obtain_command(env)? {
            CniCommand::Add => {
                let q = load_request(env, input, true)?;
                let netns = q.netns.unwrap();
                Ok(
                    CniExecution::Add(
                        CniAddContext {
                            container_id: q.container_id,
                            netns,
                            if_name: q.if_name,
                            args: q.args,
                            config: q.config,
                        },
                    ),
                )
            },
            CniCommand::Del => {
                let q = load_request(env, input, false)?;
                Ok(
                    CniExecution::Del(
                        CniDelContext {
                            container_id: q.container_id,
                            if_name: q.if_name,
                            netns: q.netns,
                            args: q.args,
                            config: q.config,
                        },
                    ),
                )
            },
            CniCommand::Check => {
                let q = load_request(env, input, true)?;
                let netns = q.netns.unwrap();
                Ok(
                    CniExecution::Check(
                        CniCheckContext {
                            container_id: q.container_id,
                            netns,
                            if_name: q.if_name,
                            args: q.args,
                            config: q.config,
                        },
                    ),
                )
            },
            CniCommand::GC => Ok(CniExecution::GC(CniGcContext {})),
            CniCommand::Version => Ok(CniExecution::Version),
        }
    }
}

/// A concrete plugin: what it does for each command. The dispatcher depends
/// on this interface only.
pub trait CniPlugin {
    fn add(&self, args: CniAddContext) -> Result<(), CniErrorCode>;

    fn del(&self, args: CniDelContext) -> Result<(), CniErrorCode>;

    fn check(&self, args: CniCheckContext) -> Result<(), CniErrorCode>;

    fn gc(&self, args: CniGcContext) -> Result<(), CniErrorCode>;

    fn status(&self) -> Result<(), CniErrorCode>;

    /// Not called for a `VERSION` invocation, which the library answers
    /// itself and which never fails.
    fn version(&self) -> Result<(), CniErrorCode>;
}

/// Runs a plugin on a classified invocation. `ADD` and `DEL` first negotiate
/// the configuration's protocol version against the versions the plugin
/// implements, and the plugin does not run where that fails; the plugin's own
/// result is passed on unchanged. `VERSION` always succeeds without the
/// plugin.
pub fn run_execution<P: CniPlugin, I: PluginInfo>(
    plugin: &P,
    plugin_info: &I,
    execution: CniExecution,
) -> (r: Result<(), CniErrorCode>)
    ensures
        execution is Version ==> r is Ok,
        execution matches CniExecution::Add(c) && !accepts(
            c.config.cni_version@,
            plugin_info.spec_supported(),
        ) ==> (r matches Err(CniErrorCode::IncompatibleVersion(h)) && h@
            == plugin_info.spec_supported().last() && is_highest(h@, plugin_info.spec_supported())),
        execution matches CniExecution::Del(c) && !accepts(
            c.config.cni_version@,
            plugin_info.spec_supported(),
        ) ==> (r matches Err(CniErrorCode::IncompatibleVersion(h)) && h@
            == plugin_info.spec_supported().last() && is_highest(h@, plugin_info.spec_supported())),
{
    match execution {
        CniExecution::Add(args) => {
            let supported = plugin_info.supported_versions();
            check_version(&args.config.cni_version, &supported)?;
            plugin.add(args)
        },
        CniExecution::Del(args) => {
            let supported = plugin_info.supported_versions();
            check_version(&args.config.cni_version, &supported)?;
            plugin.del(args)
        },
        CniExecution::Check(args) => plugin.check(args),
        CniExecution::GC(args) => plugin.gc(args),
        CniExecution::Version => Ok(()),
    }
}

/// Classifies an invocation and runs the plugin on it: every failure to
/// classify is returned as it is, before the plugin runs.
pub fn plugin_main_entrypoint_with_error<P: CniPlugin, I: PluginInfo>(
    plugin: &P,
    plugin_info: &I,
    env: &CniEnv,
    input: ConfigInput,
) -> (r: Result<(), CniErrorCode>)
    ensures
        text_of(env@, CNI_COMMAND@) is None ==> (r matches Err(e) && var_error(
            env@,
            CNI_COMMAND@,
            e,
        )),
        text_of(env@, CNI_COMMAND@) is Some && command_in(env@) is None ==> r matches Err(
            CniErrorCode::UnknownCommand,
        ),
        command_in(env@) == Some(CniCommand::Add) && !request_ok(env@, input, true) ==> (r matches Err(
            e,
        ) && request_error(env@, input, true, e)),
        command_in(env@) == Some(CniCommand::Check) && !request_ok(env@, input, true) ==> (r matches Err(
            e,
        ) && request_error(env@, input, true, e)),
        command_in(env@) == Some(CniCommand::Del) && !request_ok(env@, input, false) ==> (r matches Err(
            e,
        ) && request_error(env@, input, false, e)),
        (command_in(env@) == Some(CniCommand::Add) && request_ok(env@, input, true)) || (command_in(
            env@,
        ) == Some(CniCommand::Del) && request_ok(env@, input, false)) ==> (input_version(input) matches Some(v)
            && (!accepts(v, plugin_info.spec_supported()) ==> (r matches Err(
            CniErrorCode::IncompatibleVersion(h),
        ) && h@ == plugin_info.spec_supported().last() && is_highest(
            h@,
            plugin_info.spec_supported(),
        )))),
{
    let execution = CniExecution::load_args_from_env(env, input)?;
    run_execution(plugin, plugin_info, execution)
}

} // verus!
