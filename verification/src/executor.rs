use vstd::prelude::*;

use crate::config::{Command, Network};
use crate::envmap::EnvMap;
use crate::errors::ExecError;
use crate::pattern::{regex_match, regex_valid, HostPattern};
use crate::prepare;
use crate::resolve::{inv_lines, merge_hosts, parse_inventory_output};
use crate::text::views_of;

verus! {

/// Whether a host literal passes the include and exclude filters: it must
/// match the include pattern when one is configured, and must not match the
/// exclude pattern when one is configured.
pub open spec fn keep_host(
    h: Seq<char>,
    only: Option<Seq<char>>,
    except: Option<Seq<char>>,
) -> bool {
    (match only {
        Some(p) => regex_match(p, h),
        None => true,
    }) && (match except {
        Some(p) => !regex_match(p, h),
        None => true,
    })
}

/// The hosts that survive filtering, in candidate order, duplicates kept.
pub open spec fn filter_views(
    s: Seq<Seq<char>>,
    only: Option<Seq<char>>,
    except: Option<Seq<char>>,
) -> Seq<Seq<char>> {
    s.filter(|h: Seq<char>| keep_host(h, only, except))
}

proof fn lemma_filter_push<A>(s: Seq<A>, pred: spec_fn(A) -> bool, x: A)
    ensures
        s.push(x).filter(pred) == (if pred(x) {
            s.filter(pred).push(x)
        } else {
            s.filter(pred)
        }),
{
    reveal(Seq::filter);
    assert(s.push(x).drop_last() =~= s);
    assert(s.push(x).last() == x);
}

/// One stage of a command's execution, in the fixed order local shell,
/// local script, remote run, uploads.
pub enum Stage {
    Local(String),
    Script(String),
    Run(String),
    Uploads,
}

/// The local-shell stage of a command, when configured.
pub open spec fn stage_local(c: Command) -> Seq<Stage> {
    match c.local {
        Some(l) => seq![Stage::Local(l)],
        None => Seq::<Stage>::empty(),
    }
}

/// The script stage of a command, when configured.
pub open spec fn stage_script(c: Command) -> Seq<Stage> {
    match c.script {
        Some(s) => seq![Stage::Script(s)],
        None => Seq::<Stage>::empty(),
    }
}

/// The remote-run stage of a command, when configured.
pub open spec fn stage_run(c: Command) -> Seq<Stage> {
    match c.run {
        Some(x) => seq![Stage::Run(x)],
        None => Seq::<Stage>::empty(),
    }
}

/// The upload stage of a command, when configured. The upload specs
/// themselves stay on the command; this stage marks their place in the
/// order.
pub open spec fn stage_uploads(c: Command) -> Seq<Stage> {
    match c.upload {
        Some(_) => seq![Stage::Uploads],
        None => Seq::<Stage>::empty(),
    }
}

/// The stages one command runs: each configured part of the command, in the
/// fixed order local, script, run, upload.
pub open spec fn stages_spec(c: Command) -> Seq<Stage> {
    stage_local(c) + stage_script(c) + stage_run(c) + stage_uploads(c)
}

/// The present stages of a command, in their fixed execution order. Each
/// stage runs to completion before the next starts.
pub fn command_stages(cmd: &Command) -> (r: Vec<Stage>)
    ensures
        r@ == stages_spec(*cmd),
{
    let ghost s1 = stage_local(*cmd);
    let ghost s2 = stage_script(*cmd);
    let ghost s3 = stage_run(*cmd);
    let ghost s4 = stage_uploads(*cmd);
    let mut r: Vec<Stage> = Vec::new();
    if let Some(l) = &cmd.local {
        r.push(Stage::Local(l.clone()));
    }
    proof {
        assert(r@ =~= s1);
    }
    if let Some(s) = &cmd.script {
        r.push(Stage::Script(s.clone()));
    }
    proof {
        assert(r@ =~= s1 + s2);
    }
    if let Some(x) = &cmd.run {
        r.push(Stage::Run(x.clone()));
    }
    proof {
        assert(r@ =~= s1 + s2 + s3);
    }
    if cmd.upload.is_some() {
        r.push(Stage::Uploads);
    }
    proof {
        assert(r@ =~= s1 + s2 + s3 + s4);
    }
    r
}

/// The argument list the local shell gets for a `local` stage.
pub fn local_shell_args(cmd: &str) -> (r: Vec<String>)
    ensures
        r@.len() == 2,
        r@[0]@ == "-c"@,
        r@[1]@ == cmd@,
{
    let mut v: Vec<String> = Vec::new();
    v.push(String::from_str("-c"));
    v.push(String::from_str(cmd));
    v
}

/// The execution engine for one invocation: the selected network, the
/// merged environment, the compiled host filters, and the output-prefix
/// flag.
#[derive(Debug)]
pub struct Executor {
    pub network: Network,
    pub env: EnvMap,
    pub only: Option<HostPattern>,
    pub except: Option<HostPattern>,
    pub disable_prefix: bool,
}

impl Executor {
    /// The include pattern's text, when one is configured.
    pub open spec fn only_pat(&self) -> Option<Seq<char>> {
        match self.only {
            Some(p) => Some(p.pat()),
            None => None,
        }
    }

    /// The exclude pattern's text, when one is configured.
    pub open spec fn except_pat(&self) -> Option<Seq<char>> {
        match self.except {
            Some(p) => Some(p.pat()),
            None => None,
        }
    }

    /// Build the engine, compiling the optional include and exclude
    /// patterns; an invalid pattern is a fatal configuration error raised
    /// here, before any execution.
    pub fn new(
        network: Network,
        env: EnvMap,
        only: Option<String>,
        except: Option<String>,
        disable_prefix: bool,
    ) -> (r: Result<Executor, ExecError>)
        ensures
            r is Ok <==> ((match only {
                Some(p) => regex_valid(p@),
                None => true,
            }) && (match except {
                Some(p) => regex_valid(p@),
                None => true,
            })),
            r matches Ok(ex) ==> (ex.network == network && ex.env == env && ex.disable_prefix
                == disable_prefix && ex.only_pat() == (match only {
                Some(p) => Some(p@),
                None => None::<Seq<char>>,
            }) && ex.except_pat() == (match except {
                Some(p) => Some(p@),
                None => None::<Seq<char>>,
            })),
            r matches Err(e) ==> (e matches ExecError::InvalidPattern { pattern } && (match only {
                Some(p) => if !regex_valid(p@) {
                    pattern == p
                } else {
                    except matches Some(q) && pattern == q
                },
                None => except matches Some(q) && pattern == q,
            })),
    {
        let only_compiled = match only {
            Some(p) => match HostPattern::compile(p.as_str()) {
                Ok(hp) => Some(hp),
                Err(_) => {
                    return Err(ExecError::InvalidPattern { pattern: p });
                },
            },
            None => None,
        };
        let except_compiled = match except {
            Some(p) => match HostPattern::compile(p.as_str()) {
                Ok(hp) => Some(hp),
                Err(_) => {
                    return Err(ExecError::InvalidPattern { pattern: p });
                },
            },
            None => None,
        };
        Ok(
            Executor {
                network,
                env,
                only: only_compiled,
                except: except_compiled,
                disable_prefix,
            },
        )
    }

    /// Keep only the candidate hosts that pass the filters, preserving
    /// order and duplicates.
    pub fn filter_hosts(&self, hosts: &Vec<String>) -> (r: Vec<String>)
        ensures
            views_of(r@) == filter_views(views_of(hosts@), self.only_pat(), self.except_pat()),
    {
        let ghost pred = |h: Seq<char>| keep_host(h, self.only_pat(), self.except_pat());
        let mut r: Vec<String> = Vec::new();
        let n = hosts.len();
        let mut i: usize = 0;
        proof {
            reveal(Seq::filter);
            assert(views_of(hosts@.subrange(0, 0)) =~= Seq::<Seq<char>>::empty());
            assert(views_of(r@) =~= filter_views(views_of(hosts@.subrange(0, 0)), self.only_pat(),
                self.except_pat()));
        }
        while i < n
            invariant
                n == hosts@.len(),
                0 <= i <= n,
                pred == (|h: Seq<char>| keep_host(h, self.only_pat(), self.except_pat())),
                views_of(r@) == filter_views(
                    views_of(hosts@.subrange(0, i as int)),
                    self.only_pat(),
                    self.except_pat(),
                ),
            decreases n - i,
        {
            let h = &hosts[i];
            let keep_inc = match &self.only {
                Some(p) => p.is_match(h.as_str()),
                None => true,
            };
            let keep_exc = match &self.except {
                Some(p) => !p.is_match(h.as_str()),
                None => true,
            };
            let ghost prev = r@;
            if keep_inc && keep_exc {
                r.push(h.clone());
            }
            proof {
                let vs_prev = views_of(hosts@.subrange(0, i as int));
                let vs_new = views_of(hosts@.subrange(0, i as int + 1));
                assert(vs_new =~= vs_prev.push(hosts@[i as int]@));
                lemma_filter_push::<Seq<char>>(vs_prev, pred, hosts@[i as int]@);
                assert((keep_inc && keep_exc) == pred(hosts@[i as int]@));
                if keep_inc && keep_exc {
                    assert(views_of(r@) =~= views_of(prev).push(hosts@[i as int]@));
                }
            }
            i = i + 1;
        }
        proof {
            assert(hosts@.subrange(0, n as int) =~= hosts@);
        }
        r
    }

    /// The ordered, filtered host list for this invocation: the network's
    /// static hosts, then the trimmed non-empty lines of a successful
    /// inventory run's standard output, filtered, duplicates kept. The
    /// inventory command itself runs outside this library with the merged
    /// environment; when it fails, the whole command fails before this
    /// point and no host list exists.
    pub fn resolve_hosts(&self, inventory_stdout: Option<&str>) -> (r: Vec<String>)
        ensures
            views_of(r@) == filter_views(
                views_of(self.network.hosts@) + (match inventory_stdout {
                    Some(s) => inv_lines(s@),
                    None => Seq::<Seq<char>>::empty(),
                }),
                self.only_pat(),
                self.except_pat(),
            ),
    {
        let inv: Vec<String> = match inventory_stdout {
            Some(s) => parse_inventory_output(s),
            None => Vec::new(),
        };
        let candidates = merge_hosts(&self.network.hosts, &inv);
        let r = self.filter_hosts(&candidates);
        proof {
            if inventory_stdout is None {
                assert(views_of(inv@) =~= Seq::<Seq<char>>::empty());
            }
        }
        r
    }

    /// Rewrite a raw remote command for safe privilege elevation; a pure
    /// string transform.
    pub fn prepare_remote_command(&self, cmd: &str) -> (r: String)
        ensures
            r@ == prepare::prepared_spec(cmd@),
            !prepare::is_sudo_command(cmd@) ==> r@ == cmd@,
    {
        prepare::prepare_remote_command(cmd)
    }
}

} // verus!
