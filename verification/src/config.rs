use vstd::prelude::*;

use crate::envmap::EnvMap;
use crate::errors::ExecError;
use crate::text::str_eq;

verus! {

/// A named group of target hosts: static `user@host` literals, an optional
/// inventory command whose output supplements them, and network-scoped
/// environment variables.
#[derive(Debug, Clone)]
pub struct Network {
    pub hosts: Vec<String>,
    pub inventory: Option<String>,
    pub env: EnvMap,
}

/// One command recipe. Any subset of `{local, script, run, upload}` may be
/// present; all present stages execute in that fixed order.
#[derive(Debug, Clone)]
pub struct Command {
    pub desc: Option<String>,
    pub local: Option<String>,
    pub run: Option<String>,
    pub script: Option<String>,
    pub upload: Option<Vec<Upload>>,
    pub stdin: bool,
    pub once: bool,
    pub serial: Option<usize>,
}

/// One upload spec: a local source path and a remote destination directory.
#[derive(Debug, Clone)]
pub struct Upload {
    pub src: String,
    pub dst: String,
}

/// The validated configuration document: named networks, named commands,
/// global environment variables, and named targets (ordered command lists).
#[derive(Debug, Clone)]
pub struct Supfile {
    pub version: String,
    pub env: EnvMap,
    pub networks: Vec<(String, Network)>,
    pub commands: Vec<(String, Command)>,
    pub targets: Vec<(String, Vec<String>)>,
}

/// First entry of an association list with the given name, if any.
pub open spec fn assoc_find<V>(s: Seq<(String, V)>, name: Seq<char>) -> Option<V>
    decreases s.len(),
{
    if s.len() == 0 {
        None
    } else if s[0].0@ == name {
        Some(s[0].1)
    } else {
        assoc_find(s.drop_first(), name)
    }
}

/// Look a name up in an association list, first entry wins.
pub fn assoc_get<'a, V>(entries: &'a Vec<(String, V)>, name: &str) -> (r: Option<&'a V>)
    ensures
        match r {
            Some(v) => assoc_find(entries@, name@) == Some(*v),
            None => assoc_find(entries@, name@) is None,
        },
{
    let n = entries.len();
    let mut i: usize = 0;
    proof {
        assert(entries@.subrange(0, n as int) =~= entries@);
    }
    while i < n
        invariant
            n == entries@.len(),
            0 <= i <= n,
            assoc_find(entries@, name@) == assoc_find(
                entries@.subrange(i as int, n as int),
                name@,
            ),
        decreases n - i,
    {
        let p = &entries[i];
        proof {
            assert(entries@.subrange(i as int, n as int)[0] == entries@[i as int]);
            assert(entries@.subrange(i as int, n as int).drop_first() =~= entries@.subrange(
                i as int + 1,
                n as int,
            ));
        }
        if str_eq(p.0.as_str(), name) {
            return Some(&p.1);
        }
        i = i + 1;
    }
    None
}

/// Index of the first name in `list` that is missing from `cmds`, if any.
pub open spec fn first_missing(cmds: Seq<(String, Command)>, list: Seq<String>) -> Option<int>
    decreases list.len(),
{
    if list.len() == 0 {
        None
    } else if assoc_find(cmds, list[0]@) is None {
        Some(0int)
    } else {
        match first_missing(cmds, list.drop_first()) {
            None => None,
            Some(i) => Some(i + 1),
        }
    }
}

proof fn lemma_first_missing_none(cmds: Seq<(String, Command)>, list: Seq<String>)
    requires
        forall|j: int| 0 <= j < list.len() ==> assoc_find(cmds, #[trigger] list[j]@) is Some,
    ensures
        first_missing(cmds, list) is None,
    decreases list.len(),
{
    if list.len() > 0 {
        assert(forall|j: int|
            0 <= j < list.drop_first().len() ==> #[trigger] list.drop_first()[j] == list[j + 1]);
        lemma_first_missing_none(cmds, list.drop_first());
    }
}

proof fn lemma_first_missing_at(cmds: Seq<(String, Command)>, list: Seq<String>, k: int)
    requires
        0 <= k < list.len(),
        assoc_find(cmds, list[k]@) is None,
        forall|j: int| 0 <= j < k ==> assoc_find(cmds, #[trigger] list[j]@) is Some,
    ensures
        first_missing(cmds, list) == Some(k),
    decreases k,
{
    if k > 0 {
        assert(forall|j: int|
            0 <= j < list.drop_first().len() ==> #[trigger] list.drop_first()[j] == list[j + 1]);
        lemma_first_missing_at(cmds, list.drop_first(), k - 1);
    }
}

impl Supfile {
    /// The named network, if configured.
    pub fn network<'a>(&'a self, name: &str) -> (r: Option<&'a Network>)
        ensures
            match r {
                Some(n) => assoc_find(self.networks@, name@) == Some(*n),
                None => assoc_find(self.networks@, name@) is None,
            },
    {
        assoc_get(&self.networks, name)
    }

    /// The named network, required: a missing name is a fatal
    /// configuration error raised before any execution.
    pub fn require_network<'a>(&'a self, name: &str) -> (r: Result<&'a Network, ExecError>)
        ensures
            match assoc_find(self.networks@, name@) {
                Some(n) => r matches Ok(net) && *net == n,
                None => r matches Err(e) && (e matches ExecError::UnknownNetwork { name: m }
                    && m@ == name@),
            },
    {
        match assoc_get(&self.networks, name) {
            Some(n) => Ok(n),
            None => Err(ExecError::UnknownNetwork { name: String::from_str(name) }),
        }
    }

    /// The commands one invocation of `name` runs, in order: the target's
    /// referenced commands when `name` is a target, else the single command
    /// of that name. A missing name is a fatal configuration error raised
    /// before any execution begins.
    pub fn expand_invocation<'a>(&'a self, name: &str) -> (r: Result<Vec<&'a Command>, ExecError>)
        ensures
            match assoc_find(self.targets@, name@) {
                Some(list) => match first_missing(self.commands@, list@) {
                    None => r matches Ok(cmds) && cmds@.len() == list@.len() && (forall|j: int|
                        0 <= j < list@.len() ==> Some(*#[trigger] cmds@[j]) == assoc_find(
                            self.commands@,
                            list@[j]@,
                        )),
                    Some(k) => r matches Err(e) && e matches ExecError::UnknownCommand { name: n }
                        && n@ == list@[k]@,
                },
                None => match assoc_find(self.commands@, name@) {
                    Some(c) => r matches Ok(cmds) && cmds@.len() == 1 && *cmds@[0] == c,
                    None => r matches Err(e) && e matches ExecError::UnknownCommand { name: n }
                        && n@ == name@,
                },
            },
    {
        match assoc_get(&self.targets, name) {
            Some(list) => {
                let mut out: Vec<&Command> = Vec::new();
                let n = list.len();
                let mut i: usize = 0;
                while i < n
                    invariant
                        n == list@.len(),
                        0 <= i <= n,
                        out@.len() == i,
                        assoc_find(self.targets@, name@) == Some(*list),
                        forall|j: int|
                            0 <= j < i ==> assoc_find(self.commands@, #[trigger] list@[j]@)
                                is Some,
                        forall|j: int|
                            0 <= j < i ==> Some(*#[trigger] out@[j]) == assoc_find(
                                self.commands@,
                                list@[j]@,
                            ),
                    decreases n - i,
                {
                    match assoc_get(&self.commands, list[i].as_str()) {
                        Some(c) => {
                            out.push(c);
                        },
                        None => {
                            proof {
                                lemma_first_missing_at(self.commands@, list@, i as int);
                            }
                            return Err(ExecError::UnknownCommand { name: list[i].clone() });
                        },
                    }
                    i = i + 1;
                }
                proof {
                    lemma_first_missing_none(self.commands@, list@);
                }
                Ok(out)
            },
            None => {
                match assoc_get(&self.commands, name) {
                    Some(c) => {
                        let mut out: Vec<&Command> = Vec::new();
                        out.push(c);
                        Ok(out)
                    },
                    None => Err(ExecError::UnknownCommand { name: String::from_str(name) }),
                }
            },
        }
    }
}

} // verus!
