//! Typed, validated access to the environment of one invocation.

use vstd::prelude::*;
use vstd::string::*;

use crate::args::{
    args_well_formed, command_of, parse_args, CniArgs, CniCommand, CniPath, PATH_SEPARATOR,
};
use crate::text::split;
use crate::error::CniErrorCode;
use crate::text::str_eq;

verus! {

/// Indicates the desired operation.
pub const CNI_COMMAND: &'static str = "CNI_COMMAND";

/// The container identifier, allocated by the runtime.
pub const CNI_CONTAINERID: &'static str = "CNI_CONTAINERID";

/// A reference to the container's isolation domain.
pub const CNI_NETNS: &'static str = "CNI_NETNS";

/// Name of the interface inside the container.
pub const CNI_IFNAME: &'static str = "CNI_IFNAME";

/// Extra arguments passed in at invocation time.
pub const CNI_ARGS: &'static str = "CNI_ARGS";

/// Directories to search for plugin executables.
pub const CNI_PATH: &'static str = "CNI_PATH";

/// The pattern every container identifier matches.
pub const CONTAINER_ID_PATTERN: &'static str = "^[a-z0-9][a-z0-9_.\\-]*$";

/// The value of a set environment variable.
#[derive(Debug)]
pub enum EnvValue {
    /// The value, as text.
    Text(String),
    /// A value that is not valid Unicode.
    NotUnicode,
}

impl View for EnvValue {
    type V = Option<Seq<char>>;

    open spec fn view(&self) -> Option<Seq<char>> {
        match self {
            EnvValue::Text(s) => Some(s@),
            EnvValue::NotUnicode => None,
        }
    }
}

/// The mapping a list of settings denotes, a later setting winning.
pub open spec fn settings_map(v: Seq<(String, EnvValue)>) -> Map<Seq<char>, Option<Seq<char>>>
    decreases v.len(),
{
    if v.len() == 0 {
        Map::empty()
    } else {
        settings_map(v.drop_last()).insert(v.last().0@, v.last().1@)
    }
}

/// The environment variables of one invocation: a mapping from names to
/// values, `None` for a value that is not valid Unicode.
#[derive(Debug)]
pub struct CniEnv {
    vars: Vec<(String, EnvValue)>,
}

impl View for CniEnv {
    type V = Map<Seq<char>, Option<Seq<char>>>;

    closed spec fn view(&self) -> Map<Seq<char>, Option<Seq<char>>> {
        settings_map(self.vars@)
    }
}

/// `e` reports the variable `var` as absent.
pub open spec fn is_missing(e: CniErrorCode, var: Seq<char>) -> bool {
    e matches CniErrorCode::MissingEnvironmentVariable { var: v } && v@ == var
}

/// `e` reports the variable `var` as present but malformed.
pub open spec fn is_invalid(e: CniErrorCode, var: Seq<char>) -> bool {
    e matches CniErrorCode::InvalidEnvironmentVariable { var: v, .. } && v@ == var
}

/// Builds the error for a malformed variable.
fn invalid(var: &str, cause: &str) -> (e: CniErrorCode)
    ensures
        is_invalid(e, var@),
{
    CniErrorCode::InvalidEnvironmentVariable { var: var.to_owned(), cause: cause.to_owned() }
}

impl CniEnv {
    /// An environment with no variables set.
    pub fn new() -> (r: CniEnv)
        ensures
            r@ == Map::<Seq<char>, Option<Seq<char>>>::empty(),
    {
        CniEnv { vars: Vec::new() }
    }

    /// Sets the variable `name`.
    pub fn set(&mut self, name: String, value: EnvValue)
        ensures
            final(self)@ == old(self)@.insert(name@, value@),
    {
        let ghost p = self.vars@;
        self.vars.push((name, value));
        assert(self.vars@.drop_last() =~= p);
    }

    /// Sets the variable `name` to the text `value`.
    pub fn set_text(&mut self, name: &str, value: &str)
        ensures
            final(self)@ == old(self)@.insert(name@, Some(value@)),
    {
        self.set(name.to_owned(), EnvValue::Text(value.to_owned()));
    }

    /// The value of `name`, if it is set.
    pub fn get(&self, name: &str) -> (r: Option<&EnvValue>)
        ensures
            match r {
                Some(v) => self@.contains_key(name@) && self@[name@] == v@,
                None => !self@.contains_key(name@),
            },
    {
        let mut i: usize = self.vars.len();
        assert(self.vars@.subrange(0, i as int) =~= self.vars@);
        while i > 0
            invariant
                i <= self.vars@.len(),
                settings_map(self.vars@.subrange(0, i as int)).contains_key(name@)
                    == self@.contains_key(name@),
                settings_map(self.vars@.subrange(0, i as int))[name@] == self@[name@],
            decreases i,
        {
            let ghost q = self.vars@.subrange(0, i as int);
            assert(q.drop_last() =~= self.vars@.subrange(0, i - 1));
            if str_eq(self.vars[i - 1].0.as_str(), name) {
                return Some(&self.vars[i - 1].1);
            }
            i -= 1;
        }
        None
    }
}

/// Reads a required variable: an error where it is absent or not valid
/// Unicode.
pub fn require_env(env: &CniEnv, var: &str) -> (r: Result<String, CniErrorCode>)
    ensures
        !env@.contains_key(var@) ==> (r matches Err(e) && is_missing(e, var@)),
        env@.contains_key(var@) && env@[var@] is None ==> (r matches Err(e) && is_invalid(
            e,
            var@,
        )),
        env@.contains_key(var@) && env@[var@] is Some ==> (r matches Ok(s) && Some(s@)
            == env@[var@]),
{
    match env.get(var) {
        Some(EnvValue::Text(s)) => Ok(s.clone()),
        Some(EnvValue::NotUnicode) => Err(invalid(var, "not valid Unicode")),
        None => Err(CniErrorCode::MissingEnvironmentVariable { var: var.to_owned() }),
    }
}

/// Reads an optional variable: `None` exactly where it is absent, and an
/// error where it is present but not valid Unicode.
pub fn load_env(env: &CniEnv, var: &str) -> (r: Result<Option<String>, CniErrorCode>)
    ensures
        !env@.contains_key(var@) ==> r matches Ok(None),
        env@.contains_key(var@) && env@[var@] is None ==> (r matches Err(e) && is_invalid(
            e,
            var@,
        )),
        env@.contains_key(var@) && env@[var@] is Some ==> (r matches Ok(Some(s)) && Some(s@)
            == env@[var@]),
{
    match env.get(var) {
        Some(EnvValue::Text(s)) => Ok(Some(s.clone())),
        Some(EnvValue::NotUnicode) => Err(invalid(var, "not valid Unicode")),
        None => Ok(None),
    }
}

/// A lower-case ASCII letter or a decimal digit.
pub open spec fn id_head_char(c: char) -> bool {
    ('a' <= c && c <= 'z') || ('0' <= c && c <= '9')
}

/// A character allowed after the first one of a container identifier.
pub open spec fn id_tail_char(c: char) -> bool {
    id_head_char(c) || c == '_' || c == '.' || c == '-'
}

/// `s` is a valid container identifier: non-empty, a lower-case letter or
/// digit first, then letters, digits, `_`, `.` and `-`.
pub open spec fn valid_container_id(s: Seq<char>) -> bool {
    &&& s.len() > 0
    &&& id_head_char(s[0])
    &&& forall|i: int| 1 <= i < s.len() ==> id_tail_char(#[trigger] s[i])
}

/// Relies on `regex::Regex::new` and `Regex::is_match`: the pattern
/// `^[a-z0-9][a-z0-9_.\-]*$` compiles, its anchors bind the whole text, and
/// its classes are the ASCII ranges and characters written in it.
#[verifier::external_body]
fn regex_is_match(pattern: &str, text: &str) -> (r: bool)
    requires
        pattern@ == CONTAINER_ID_PATTERN@,
    ensures
        r == valid_container_id(text@),
{
    match regex::Regex::new(pattern) {
        Ok(re) => re.is_match(text),
        Err(_) => false,
    }
}

/// Validates a container identifier; the error names `CNI_CONTAINERID`.
pub fn check_container_id(container_id: &str) -> (r: Result<(), CniErrorCode>)
    ensures
        r is Ok <==> valid_container_id(container_id@),
        r matches Err(e) ==> is_invalid(e, CNI_CONTAINERID@),
{
    if container_id.unicode_len() == 0 {
        return Err(invalid(CNI_CONTAINERID, "empty container identifier"));
    }
    if !regex_is_match(CONTAINER_ID_PATTERN, container_id) {
        return Err(invalid(CNI_CONTAINERID, "malformed container identifier"));
    }
    Ok(())
}

/// Reads and validates `CNI_CONTAINERID`.
pub fn obtain_container_id(env: &CniEnv) -> (r: Result<String, CniErrorCode>)
    ensures
        !env@.contains_key(CNI_CONTAINERID@) ==> (r matches Err(e) && is_missing(
            e,
            CNI_CONTAINERID@,
        )),
        env@.contains_key(CNI_CONTAINERID@) ==> match env@[CNI_CONTAINERID@] {
            Some(t) => if valid_container_id(t) {
                r matches Ok(s) && s@ == t
            } else {
                r matches Err(e) && is_invalid(e, CNI_CONTAINERID@)
            },
            None => r matches Err(e) && is_invalid(e, CNI_CONTAINERID@),
        },
{
    let id = require_env(env, CNI_CONTAINERID)?;
    check_container_id(id.as_str())?;
    Ok(id)
}

/// Reads `CNI_ARGS`: empty where absent, an error naming it where it is not
/// valid Unicode or an entry holds no `=`.
pub fn obtain_args(env: &CniEnv) -> (r: Result<CniArgs, CniErrorCode>)
    ensures
        !env@.contains_key(CNI_ARGS@) ==> (r matches Ok(a) && a.wf() && a@ == Map::<
            Seq<char>,
            Seq<char>,
        >::empty()),
        env@.contains_key(CNI_ARGS@) ==> match env@[CNI_ARGS@] {
            Some(t) => if args_well_formed(t) {
                r matches Ok(a) && a.wf() && a@ == parse_args(t)
            } else {
                r matches Err(e) && is_invalid(e, CNI_ARGS@)
            },
            None => r matches Err(e) && is_invalid(e, CNI_ARGS@),
        },
{
    match load_env(env, CNI_ARGS)? {
        Some(s) => match CniArgs::from_str(s.as_str()) {
            Some(a) => Ok(a),
            None => Err(invalid(CNI_ARGS, "an entry holds no '='")),
        },
        None => Ok(CniArgs::new()),
    }
}

/// Reads `CNI_COMMAND`: an error where it is absent or names no command.
pub fn obtain_command(env: &CniEnv) -> (r: Result<CniCommand, CniErrorCode>)
    ensures
        !env@.contains_key(CNI_COMMAND@) ==> (r matches Err(e) && is_missing(e, CNI_COMMAND@)),
        env@.contains_key(CNI_COMMAND@) ==> match env@[CNI_COMMAND@] {
            Some(t) => match command_of(t) {
                Some(c) => r == Ok::<CniCommand, CniErrorCode>(c),
                None => r matches Err(CniErrorCode::UnknownCommand),
            },
            None => r matches Err(e) && is_invalid(e, CNI_COMMAND@),
        },
{
    let s = require_env(env, CNI_COMMAND)?;
    match CniCommand::from_str(s.as_str()) {
        Ok(c) => Ok(c),
        Err(_) => Err(CniErrorCode::UnknownCommand),
    }
}

/// Reads `CNI_PATH`: empty where absent, an error naming it where it is not
/// valid Unicode, otherwise its directories in order.
pub fn obtain_path(env: &CniEnv) -> (r: Result<CniPath, CniErrorCode>)
    ensures
        !env@.contains_key(CNI_PATH@) ==> (r matches Ok(p) && p@ == Seq::<Seq<char>>::empty()),
        env@.contains_key(CNI_PATH@) ==> match env@[CNI_PATH@] {
            Some(t) => r matches Ok(p) && p@ == split(t, PATH_SEPARATOR),
            None => r matches Err(e) && is_invalid(e, CNI_PATH@),
        },
{
    match load_env(env, CNI_PATH)? {
        Some(s) => Ok(CniPath::from_str(s.as_str())),
        None => Ok(CniPath::new()),
    }
}

/// An ASCII punctuation character.
pub open spec fn ascii_punctuation(c: char) -> bool {
    ('!' <= c && c <= '/') || (':' <= c && c <= '@') || ('[' <= c && c <= '`') || ('{' <= c && c
        <= '~')
}

/// Container identifiers: the empty text is rejected, and so is every text
/// that starts with an upper-case letter or with punctuation.
pub proof fn lemma_container_id_rejects(s: Seq<char>)
    ensures
        s.len() == 0 ==> !valid_container_id(s),
        s.len() > 0 && 'A' <= s[0] && s[0] <= 'Z' ==> !valid_container_id(s),
        s.len() > 0 && ascii_punctuation(s[0]) ==> !valid_container_id(s),
{
}

} // verus!
