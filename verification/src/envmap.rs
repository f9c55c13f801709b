use vstd::prelude::*;

use crate::text::{find_char, find_idx, str_eq};

verus! {

/// The mapping a layered list of `(key, value)` pairs denotes: a later pair
/// overwrites an earlier one with the same key.
pub open spec fn pairs_map(s: Seq<(String, String)>) -> Map<Seq<char>, Seq<char>>
    decreases s.len(),
{
    if s.len() == 0 {
        Map::empty()
    } else {
        pairs_map(s.drop_last()).insert(s.last().0@, s.last().1@)
    }
}

proof fn lemma_pairs_map_last_wins(s: Seq<(String, String)>, k: Seq<char>, i: int)
    requires
        0 <= i < s.len(),
        s[i].0@ == k,
        forall|j: int| i < j < s.len() ==> s[j].0@ != k,
    ensures
        pairs_map(s).contains_key(k),
        pairs_map(s)[k] == s[i].1@,
    decreases s.len(),
{
    if i == s.len() - 1 {
    } else {
        let d = s.drop_last();
        assert(s.last().0@ != k);
        lemma_pairs_map_last_wins(d, k, i);
    }
}

proof fn lemma_pairs_map_absent(s: Seq<(String, String)>, k: Seq<char>)
    requires
        forall|j: int| 0 <= j < s.len() ==> s[j].0@ != k,
    ensures
        !pairs_map(s).contains_key(k),
    decreases s.len(),
{
    if s.len() > 0 {
        assert(s.last().0@ != k);
        lemma_pairs_map_absent(s.drop_last(), k);
    }
}

proof fn lemma_pairs_map_concat(a: Seq<(String, String)>, b: Seq<(String, String)>)
    ensures
        pairs_map(a + b) == pairs_map(a).union_prefer_right(pairs_map(b)),
    decreases b.len(),
{
    if b.len() == 0 {
        assert(a + b =~= a);
        assert(pairs_map(a).union_prefer_right(Map::empty()) =~= pairs_map(a));
    } else {
        let bd = b.drop_last();
        assert((a + b).drop_last() =~= a + bd);
        assert((a + b).last() == b.last());
        lemma_pairs_map_concat(a, bd);
        assert(pairs_map(a).union_prefer_right(pairs_map(bd)).insert(b.last().0@, b.last().1@)
            =~= pairs_map(a).union_prefer_right(pairs_map(bd).insert(b.last().0@, b.last().1@)));
    }
}

/// An environment: variable names mapped to values, assembled by layering.
/// Stored as the layered pair list itself; a later pair takes precedence.
#[derive(Debug, Clone)]
pub struct EnvMap {
    pairs: Vec<(String, String)>,
}

impl View for EnvMap {
    type V = Map<Seq<char>, Seq<char>>;

    closed spec fn view(&self) -> Map<Seq<char>, Seq<char>> {
        pairs_map(self.pairs@)
    }
}

impl EnvMap {
    /// The empty environment.
    pub fn new() -> (r: EnvMap)
        ensures
            r@ == Map::<Seq<char>, Seq<char>>::empty(),
    {
        EnvMap { pairs: Vec::new() }
    }

    /// Set one variable, overriding any earlier layer's value for it.
    pub fn insert(&mut self, key: String, value: String)
        ensures
            final(self)@ == old(self)@.insert(key@, value@),
    {
        let ghost prev = self.pairs@;
        self.pairs.push((key, value));
        proof {
            assert(self.pairs@.drop_last() =~= prev);
        }
    }

    /// Look a variable up; the highest layer that set it wins.
    pub fn get<'a>(&'a self, key: &str) -> (r: Option<&'a String>)
        ensures
            match r {
                Some(v) => self@.contains_key(key@) && v@ == self@[key@],
                None => !self@.contains_key(key@),
            },
    {
        let mut i: usize = self.pairs.len();
        while i > 0
            invariant
                i <= self.pairs@.len(),
                forall|j: int| i <= j < self.pairs@.len() ==> #[trigger] self.pairs@[j].0@ != key@,
            decreases i,
        {
            let p = &self.pairs[i - 1];
            if str_eq(p.0.as_str(), key) {
                proof {
                    lemma_pairs_map_last_wins(self.pairs@, key@, i - 1);
                }
                return Some(&p.1);
            }
            i = i - 1;
        }
        proof {
            lemma_pairs_map_absent(self.pairs@, key@);
        }
        None
    }

    /// Layer every pair of `other` on top of this environment: keys set in
    /// `other` win, all other keys keep their value.
    pub fn extend_from(&mut self, other: &EnvMap)
        ensures
            final(self)@ == old(self)@.union_prefer_right(other@),
    {
        let ghost prev = self.pairs@;
        let mut k: usize = 0;
        while k < other.pairs.len()
            invariant
                k <= other.pairs@.len(),
                self.pairs@ == prev + other.pairs@.subrange(0, k as int),
            decreases other.pairs@.len() - k,
        {
            let p = &other.pairs[k];
            self.pairs.push((p.0.clone(), p.1.clone()));
            proof {
                assert(prev + other.pairs@.subrange(0, k as int + 1) =~= (prev
                    + other.pairs@.subrange(0, k as int)).push(other.pairs@[k as int]));
            }
            k = k + 1;
        }
        proof {
            assert(other.pairs@.subrange(0, other.pairs@.len() as int) =~= other.pairs@);
            lemma_pairs_map_concat(prev, other.pairs@);
        }
    }

    /// The layered pairs, for handing to a subprocess's environment.
    pub fn entries(&self) -> (r: &Vec<(String, String)>)
        ensures
            pairs_map(r@) == self@,
    {
        &self.pairs
    }

    /// An environment made of the given pairs, layered in order.
    pub fn from_entries(pairs: Vec<(String, String)>) -> (r: EnvMap)
        ensures
            r@ == pairs_map(pairs@),
    {
        EnvMap { pairs }
    }

    /// An exact copy.
    pub fn duplicate(&self) -> (r: EnvMap)
        ensures
            r@ == self@,
    {
        let mut pairs: Vec<(String, String)> = Vec::new();
        let mut k: usize = 0;
        while k < self.pairs.len()
            invariant
                k <= self.pairs@.len(),
                pairs@ == self.pairs@.subrange(0, k as int),
            decreases self.pairs@.len() - k,
        {
            let p = &self.pairs[k];
            pairs.push((p.0.clone(), p.1.clone()));
            proof {
                assert(self.pairs@.subrange(0, k as int + 1) =~= self.pairs@.subrange(
                    0,
                    k as int,
                ).push(self.pairs@[k as int]));
            }
            k = k + 1;
        }
        proof {
            assert(self.pairs@.subrange(0, self.pairs@.len() as int) =~= self.pairs@);
        }
        EnvMap { pairs }
    }
}

/// The merged environment of one invocation, layered lowest to highest
/// precedence: inherited process environment, injected identity variables
/// (timestamp, invoking user, network name), configuration-global variables,
/// network variables, command-line overrides.
pub open spec fn env_layers(
    process: Map<Seq<char>, Seq<char>>,
    time: Seq<char>,
    user: Seq<char>,
    network_name: Seq<char>,
    global: Map<Seq<char>, Seq<char>>,
    network: Map<Seq<char>, Seq<char>>,
    overrides: Map<Seq<char>, Seq<char>>,
) -> Map<Seq<char>, Seq<char>> {
    process.insert("SUP_TIME"@, time).insert("SUP_USER"@, user).insert(
        "SUP_NETWORK"@,
        network_name,
    ).union_prefer_right(global).union_prefer_right(network).union_prefer_right(overrides)
}

/// Assemble the invocation's merged environment.
pub fn build_environment(
    process: EnvMap,
    time: String,
    user: String,
    network_name: String,
    global: &EnvMap,
    network: &EnvMap,
    overrides: &EnvMap,
) -> (r: EnvMap)
    ensures
        r@ == env_layers(process@, time@, user@, network_name@, global@, network@, overrides@),
{
    let mut env = process;
    env.insert(String::from_str("SUP_TIME"), time);
    env.insert(String::from_str("SUP_USER"), user);
    env.insert(String::from_str("SUP_NETWORK"), network_name);
    env.extend_from(global);
    env.extend_from(network);
    env.extend_from(overrides);
    env
}

/// Environment precedence, per key: a command-line override wins over the
/// network layer, which wins over the global layer, which wins over the
/// injected identity variables, which win over the inherited process
/// environment; a key set nowhere is absent from the merged environment.
pub proof fn lemma_env_precedence(
    process: Map<Seq<char>, Seq<char>>,
    time: Seq<char>,
    user: Seq<char>,
    network_name: Seq<char>,
    global: Map<Seq<char>, Seq<char>>,
    network: Map<Seq<char>, Seq<char>>,
    overrides: Map<Seq<char>, Seq<char>>,
    k: Seq<char>,
)
    ensures
        ({
            let m = env_layers(process, time, user, network_name, global, network, overrides);
            let injected = process.insert("SUP_TIME"@, time).insert("SUP_USER"@, user).insert(
                "SUP_NETWORK"@,
                network_name,
            );
            &&& overrides.contains_key(k) ==> m.contains_key(k) && m[k] == overrides[k]
            &&& !overrides.contains_key(k) && network.contains_key(k) ==> m.contains_key(k) && m[k]
                == network[k]
            &&& !overrides.contains_key(k) && !network.contains_key(k) && global.contains_key(k)
                ==> m.contains_key(k) && m[k] == global[k]
            &&& !overrides.contains_key(k) && !network.contains_key(k) && !global.contains_key(k)
                ==> m.contains_key(k) == injected.contains_key(k) && (injected.contains_key(k)
                ==> m[k] == injected[k])
        }),
{
}

/// Split one `KEY=VALUE` command-line override at its first `=`.
pub fn parse_env_override(arg: &str) -> (r: Option<(String, String)>)
    ensures
        match r {
            Some(kv) => {
                let i = find_idx(arg@, '=')->0;
                &&& find_idx(arg@, '=') is Some
                &&& kv.0@ == arg@.subrange(0, i)
                &&& kv.1@ == arg@.subrange(i + 1, arg@.len() as int)
            },
            None => find_idx(arg@, '=') is None,
        },
{
    let n = arg.unicode_len();
    match find_char(arg, '=') {
        Some(i) => {
            proof {
                crate::text::lemma_find_idx_props(arg@, '=');
            }
            let key = String::from_str(arg.substring_char(0, i));
            let value = String::from_str(arg.substring_char(i + 1, n));
            Some((key, value))
        },
        None => None,
    }
}

} // verus!
