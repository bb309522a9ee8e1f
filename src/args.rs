//! The typed values parsed from environment variables: the extra arguments,
//! the plugin search path and the command.

use vstd::prelude::*;
use vstd::string::*;

use crate::text::{split, split_str, str_eq, substring};

verus! {

/// Separator of the extra-arguments list.
pub const ARGS_SEPARATOR: char = ';';

/// Separator of a key and its value in the extra-arguments list.
pub const ARGS_ASSIGN: char = '=';

/// Separator of the plugin search path on Unix-like systems.
pub const PATH_SEPARATOR: char = ':';

/// The position of the first `c` in `s`, or its length where there is none.
pub open spec fn first_index(s: Seq<char>, c: char) -> int
    decreases s.len(),
{
    if s.len() == 0 {
        0
    } else if s[0] == c {
        0
    } else {
        1 + first_index(s.drop_first(), c)
    }
}

/// `k` is where `first_index` lands: no `c` before it, and a `c` at it unless
/// it is the end.
pub proof fn lemma_first_index(s: Seq<char>, c: char, k: int)
    requires
        0 <= k <= s.len(),
        forall|j: int| 0 <= j < k ==> s[j] != c,
        k == s.len() || s[k] == c,
    ensures
        first_index(s, c) == k,
    decreases s.len(),
{
    if s.len() > 0 && s[0] != c {
        assert(k > 0);
        let t = s.drop_first();
        assert forall|j: int| 0 <= j < k - 1 implies t[j] != c by {
            assert(t[j] == s[j + 1]);
        }
        if k < s.len() {
            assert(t[k - 1] == s[k]);
        }
        lemma_first_index(t, c, k - 1);
    }
}

/// The key of an argument entry: the text before its first `=`.
pub open spec fn entry_key(seg: Seq<char>) -> Seq<char> {
    seg.subrange(0, first_index(seg, ARGS_ASSIGN))
}

/// The value of an argument entry: the text after its first `=`.
pub open spec fn entry_value(seg: Seq<char>) -> Seq<char> {
    seg.subrange(first_index(seg, ARGS_ASSIGN) + 1, seg.len() as int)
}

/// Every non-empty entry holds a `=`.
pub open spec fn args_well_formed(s: Seq<char>) -> bool {
    forall|i: int|
        0 <= i < split(s, ARGS_SEPARATOR).len() && (#[trigger] split(s, ARGS_SEPARATOR)[i]).len()
            > 0 ==> first_index(split(s, ARGS_SEPARATOR)[i], ARGS_ASSIGN) < split(
            s,
            ARGS_SEPARATOR,
        )[i].len()
}

/// The mapping `m` extended by the entries `segs` in order: empty entries are
/// skipped, and a later entry replaces the value of an earlier one.
pub open spec fn entries_into(m: Map<Seq<char>, Seq<char>>, segs: Seq<Seq<char>>) -> Map<
    Seq<char>,
    Seq<char>,
>
    decreases segs.len(),
{
    if segs.len() == 0 {
        m
    } else {
        let seg = segs[0];
        let next = if seg.len() == 0 {
            m
        } else {
            m.insert(entry_key(seg), entry_value(seg))
        };
        entries_into(next, segs.drop_first())
    }
}

/// The mapping an extra-arguments text denotes.
pub open spec fn parse_args(s: Seq<char>) -> Map<Seq<char>, Seq<char>> {
    entries_into(Map::empty(), split(s, ARGS_SEPARATOR))
}

/// The mapping that a list of pairs denotes, a later pair winning over an
/// earlier one with the same key.
pub open spec fn pairs_map(p: Seq<(String, String)>) -> Map<Seq<char>, Seq<char>>
    decreases p.len(),
{
    if p.len() == 0 {
        Map::empty()
    } else {
        pairs_map(p.drop_last()).insert(p.last().0@, p.last().1@)
    }
}

/// No two pairs share a key.
pub open spec fn keys_unique(p: Seq<(String, String)>) -> bool {
    forall|i: int, j: int| 0 <= i < j < p.len() ==> (#[trigger] p[i]).0@ != (#[trigger] p[j]).0@
}

/// Replacing the value of the pair that holds a key updates the mapping at
/// that key.
proof fn lemma_pairs_map_update(p: Seq<(String, String)>, j: int, v: String)
    requires
        keys_unique(p),
        0 <= j < p.len(),
    ensures
        pairs_map(p.update(j, (p[j].0, v))) == pairs_map(p).insert(p[j].0@, v@),
    decreases p.len(),
{
    let q = p.update(j, (p[j].0, v));
    if j == p.len() - 1 {
        assert(q.drop_last() =~= p.drop_last());
        assert(pairs_map(q) =~= pairs_map(p).insert(p[j].0@, v@));
    } else {
        assert(q.drop_last() =~= p.drop_last().update(j, (p[j].0, v)));
        lemma_pairs_map_update(p.drop_last(), j, v);
        assert(p[j].0@ != p.last().0@);
        assert(pairs_map(q) =~= pairs_map(p).insert(p[j].0@, v@));
    }
}

/// A key absent from every pair is absent from the mapping.
proof fn lemma_pairs_map_keys(p: Seq<(String, String)>, k: Seq<char>)
    ensures
        pairs_map(p).contains_key(k) <==> exists|i: int| 0 <= i < p.len() && (#[trigger] p[i]).0@
            == k,
    decreases p.len(),
{
    if p.len() > 0 {
        lemma_pairs_map_keys(p.drop_last(), k);
        if pairs_map(p.drop_last()).contains_key(k) {
            let i = choose|i: int| 0 <= i < p.drop_last().len() && (#[trigger] p.drop_last()[i]).0@ == k;
            assert(p[i].0@ == k);
        }
        if exists|i: int| 0 <= i < p.len() && (#[trigger] p[i]).0@ == k {
            let i = choose|i: int| 0 <= i < p.len() && (#[trigger] p[i]).0@ == k;
            if i < p.len() - 1 {
                assert(p.drop_last()[i].0@ == k);
            }
        }
    }
}

/// The extra arguments of an invocation: a mapping from keys to values, in
/// the order in which the keys first appeared.
#[derive(Debug)]
pub struct CniArgs {
    args: Vec<(String, String)>,
}

impl View for CniArgs {
    type V = Map<Seq<char>, Seq<char>>;

    closed spec fn view(&self) -> Map<Seq<char>, Seq<char>> {
        pairs_map(self.args@)
    }
}

impl CniArgs {
    /// Each key is held once.
    pub closed spec fn wf(&self) -> bool {
        keys_unique(self.args@)
    }

    /// The pairs, in order of first appearance.
    pub closed spec fn spec_pairs(&self) -> Seq<(String, String)> {
        self.args@
    }

    /// No arguments.
    pub fn new() -> (r: CniArgs)
        ensures
            r.wf(),
            r@ == Map::<Seq<char>, Seq<char>>::empty(),
    {
        CniArgs { args: Vec::new() }
    }

    /// Sets the value of `key`, replacing any earlier value.
    pub fn insert(&mut self, key: String, value: String)
        requires
            old(self).wf(),
        ensures
            final(self).wf(),
            final(self)@ == old(self)@.insert(key@, value@),
    {
        let n = self.args.len();
        let mut i: usize = 0;
        while i < n
            invariant
                n == self.args@.len(),
                i <= n,
                self.args@ == old(self).args@,
                keys_unique(self.args@),
                forall|j: int| 0 <= j < i ==> (#[trigger] self.args@[j]).0@ != key@,
            decreases n - i,
        {
            if str_eq(self.args[i].0.as_str(), key.as_str()) {
                let ghost p = self.args@;
                let k = self.args[i].0.clone();
                self.args.set(i, (k, value));
                proof {
                    lemma_pairs_map_update(p, i as int, value);
                    assert(self.args@ =~= p.update(i as int, (p[i as int].0, value)));
                    assert forall|a: int, b: int|
                        0 <= a < b < self.args@.len() implies (#[trigger] self.args@[a]).0@
                        != (#[trigger] self.args@[b]).0@ by {
                        assert(self.args@[a].0@ == p[a].0@);
                        assert(self.args@[b].0@ == p[b].0@);
                    }
                }
                return;
            }
            i += 1;
        }
        let ghost p = self.args@;
        self.args.push((key, value));
        proof {
            assert(self.args@.drop_last() =~= p);
            assert forall|a: int, b: int|
                0 <= a < b < self.args@.len() implies (#[trigger] self.args@[a]).0@
                != (#[trigger] self.args@[b]).0@ by {
                if b < p.len() {
                    assert(self.args@[a] == p[a]);
                    assert(self.args@[b] == p[b]);
                }
            }
        }
    }

    /// The value of `key`, if any.
    pub fn get(&self, key: &str) -> (r: Option<String>)
        requires
            self.wf(),
        ensures
            match r {
                Some(v) => self@.contains_key(key@) && self@[key@] == v@,
                None => !self@.contains_key(key@),
            },
    {
        let n = self.args.len();
        let mut i: usize = 0;
        while i < n
            invariant
                n == self.args@.len(),
                i <= n,
                keys_unique(self.args@),
                forall|j: int| 0 <= j < i ==> (#[trigger] self.args@[j]).0@ != key@,
            decreases n - i,
        {
            if str_eq(self.args[i].0.as_str(), key) {
                let v = self.args[i].1.clone();
                proof {
                    let p = self.args@;
                    lemma_pairs_map_update(p, i as int, p[i as int].1);
                    assert(p.update(i as int, (p[i as int].0, p[i as int].1)) =~= p);
                }
                return Some(v);
            }
            i += 1;
        }
        proof {
            lemma_pairs_map_keys(self.args@, key@);
        }
        None
    }

    /// The number of distinct keys.
    pub fn len(&self) -> (r: usize)
        requires
            self.wf(),
        ensures
            r == self@.dom().len(),
    {
        proof {
            lemma_pairs_map_len(self.args@);
        }
        self.args.len()
    }

    /// The pairs, in order of first appearance of their keys.
    pub fn into_pairs(self) -> (r: Vec<(String, String)>)
        ensures
            r@ == self.spec_pairs(),
    {
        self.args
    }

    /// Parses an extra-arguments text: `;`-separated `key=value` entries,
    /// where empty entries are skipped and a later entry wins over an earlier
    /// one with the same key. `None` where a non-empty entry holds no `=`.
    pub fn from_str(s: &str) -> (r: Option<CniArgs>)
        ensures
            match r {
                Some(a) => args_well_formed(s@) && a.wf() && a@ == parse_args(s@),
                None => !args_well_formed(s@),
            },
    {
        let segs = split_str(s, ARGS_SEPARATOR);
        let ghost sv = segs@.map_values(|x: String| x@);
        let mut args = CniArgs::new();
        let n = segs.len();
        let mut i: usize = 0;
        assert(sv.subrange(0, n as int) =~= sv);
        while i < n
            invariant
                n == segs@.len(),
                sv == segs@.map_values(|x: String| x@),
                sv == split(s@, ARGS_SEPARATOR),
                i <= n,
                args.wf(),
                entries_into(args@, sv.subrange(i as int, n as int)) == parse_args(s@),
                forall|j: int|
                    0 <= j < i && sv[j].len() > 0 ==> first_index(sv[j], ARGS_ASSIGN) < sv[j].len(),
            decreases n - i,
        {
            let seg = segs[i].as_str();
            let len = seg.unicode_len();
            proof {
                assert(sv.subrange(i as int, n as int).drop_first() =~= sv.subrange(
                    i + 1,
                    n as int,
                ));
                assert(sv.subrange(i as int, n as int)[0] == seg@);
            }
            if len > 0 {
                let mut k: usize = 0;
                while k < len && seg.get_char(k) != ARGS_ASSIGN
                    invariant
                        len == seg@.len(),
                        k <= len,
                        forall|j: int| 0 <= j < k ==> seg@[j] != ARGS_ASSIGN,
                    decreases len - k,
                {
                    k += 1;
                }
                proof {
                    lemma_first_index(seg@, ARGS_ASSIGN, k as int);
                }
                if k == len {
                    proof {
                        assert(sv[i as int] == seg@);
                    }
                    return None;
                }
                let key = substring(seg, 0, k);
                let value = substring(seg, k + 1, len);
                args.insert(key, value);
            }
            i += 1;
        }
        proof {
            assert forall|j: int|
                0 <= j < split(s@, ARGS_SEPARATOR).len() && (#[trigger] split(
                    s@,
                    ARGS_SEPARATOR,
                )[j]).len() > 0 implies first_index(split(s@, ARGS_SEPARATOR)[j], ARGS_ASSIGN)
                < split(s@, ARGS_SEPARATOR)[j].len() by {
                assert(sv[j] == split(s@, ARGS_SEPARATOR)[j]);
            }
        }
        Some(args)
    }
}

/// The number of keys of the mapping of a list of pairs with distinct keys.
proof fn lemma_pairs_map_len(p: Seq<(String, String)>)
    requires
        keys_unique(p),
    ensures
        pairs_map(p).dom().len() == p.len(),
        pairs_map(p).dom().finite(),
    decreases p.len(),
{
    if p.len() > 0 {
        let q = p.drop_last();
        assert(keys_unique(q)) by {
            assert forall|a: int, b: int| 0 <= a < b < q.len() implies (#[trigger] q[a]).0@
                != (#[trigger] q[b]).0@ by {
                assert(q[a] == p[a] && q[b] == p[b]);
            }
        }
        lemma_pairs_map_len(q);
        lemma_pairs_map_keys(q, p.last().0@);
        if pairs_map(q).contains_key(p.last().0@) {
            let i = choose|i: int| 0 <= i < q.len() && (#[trigger] q[i]).0@ == p.last().0@;
            assert(p[i].0@ == p[p.len() - 1].0@);
        }
    }
}

/// The search path for plugin executables, in priority order; duplicates are
/// kept.
#[derive(Debug)]
pub struct CniPath {
    paths: Vec<String>,
}

impl View for CniPath {
    type V = Seq<Seq<char>>;

    closed spec fn view(&self) -> Seq<Seq<char>> {
        self.paths@.map_values(|x: String| x@)
    }
}

impl CniPath {
    /// An empty search path.
    pub fn new() -> (r: CniPath)
        ensures
            r@ == Seq::<Seq<char>>::empty(),
    {
        let r = CniPath { paths: Vec::new() };
        assert(r@ =~= Seq::<Seq<char>>::empty());
        r
    }

    /// Splits a path list at every `separator`.
    pub fn from_str_with_separator(s: &str, separator: char) -> (r: CniPath)
        ensures
            r@ == split(s@, separator),
    {
        CniPath { paths: split_str(s, separator) }
    }

    /// Splits a path list at every `:`.
    pub fn from_str(s: &str) -> (r: CniPath)
        ensures
            r@ == split(s@, PATH_SEPARATOR),
    {
        CniPath::from_str_with_separator(s, PATH_SEPARATOR)
    }

    /// The directories, in priority order.
    pub fn into_paths(self) -> (r: Vec<String>)
        ensures
            r@.map_values(|x: String| x@) == self@,
    {
        self.paths
    }
}

/// The operation a plugin is asked to perform.
#[derive(PartialEq, Eq, Structural, Clone, Copy, Debug)]
pub enum CniCommand {
    Add,
    Del,
    Check,
    GC,
    Version,
}

/// The command text matched no known command.
#[derive(PartialEq, Eq, Structural, Clone, Copy, Debug)]
pub struct UnknownCommandError;

impl UnknownCommandError {
    /// The text of this error.
    pub fn to_text(&self) -> (r: String)
        ensures
            r@ == "Unknown command error"@,
    {
        "Unknown command error".to_owned()
    }
}

/// The command that a `CNI_COMMAND` text names.
pub open spec fn command_of(s: Seq<char>) -> Option<CniCommand> {
    if s == "ADD"@ {
        Some(CniCommand::Add)
    } else if s == "DEL"@ {
        Some(CniCommand::Del)
    } else if s == "CHECK"@ {
        Some(CniCommand::Check)
    } else if s == "GC"@ {
        Some(CniCommand::GC)
    } else if s == "VERSION"@ {
        Some(CniCommand::Version)
    } else {
        None
    }
}

impl CniCommand {
    /// Parses one of `ADD`, `DEL`, `CHECK`, `GC` and `VERSION`.
    pub fn from_str(s: &str) -> (r: Result<CniCommand, UnknownCommandError>)
        ensures
            match command_of(s@) {
                Some(c) => r == Ok::<CniCommand, UnknownCommandError>(c),
                None => r is Err,
            },
    {
        if str_eq(s, "ADD") {
            Ok(CniCommand::Add)
        } else if str_eq(s, "DEL") {
            Ok(CniCommand::Del)
        } else if str_eq(s, "CHECK") {
            Ok(CniCommand::Check)
        } else if str_eq(s, "GC") {
            Ok(CniCommand::GC)
        } else if str_eq(s, "VERSION") {
            Ok(CniCommand::Version)
        } else {
            Err(UnknownCommandError)
        }
    }

    /// Whether the command works on a container and so reads a network
    /// configuration.
    pub fn needs_config(&self) -> (r: bool)
        ensures
            r == (*self == CniCommand::Add || *self == CniCommand::Del || *self
                == CniCommand::Check),
    {
        match self {
            CniCommand::Add | CniCommand::Del | CniCommand::Check => true,
            _ => false,
        }
    }
}

} // verus!
