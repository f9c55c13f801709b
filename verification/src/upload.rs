use vstd::prelude::*;

use crate::config::Upload;
use crate::errors::ExecError;
use crate::host::HostIdentity;
use crate::text::find_idx;

verus! {

/// `s` with any trailing `/` characters removed.
pub open spec fn strip_slashes(s: Seq<char>) -> Seq<char>
    decreases s.len(),
{
    if s.len() > 0 && s.last() == '/' {
        strip_slashes(s.drop_last())
    } else {
        s
    }
}

/// Index of the last `/` in `s`, if any.
pub open spec fn last_slash(s: Seq<char>) -> Option<int>
    decreases s.len(),
{
    if s.len() == 0 {
        None
    } else if s.last() == '/' {
        Some(s.len() - 1)
    } else {
        last_slash(s.drop_last())
    }
}

/// The base name of an upload source path: its final component, trailing
/// slashes ignored.
pub open spec fn base_spec(src: Seq<char>) -> Seq<char> {
    let t = strip_slashes(src);
    match last_slash(t) {
        None => t,
        Some(i) => t.subrange(i + 1, t.len() as int),
    }
}

/// The directory an upload source is addressed relative to: the part before
/// the final component, the current directory for a bare name, the root for
/// a top-level path.
pub open spec fn parent_spec(src: Seq<char>) -> Seq<char> {
    let t = strip_slashes(src);
    match last_slash(t) {
        None => seq!['.'],
        Some(i) => if i == 0 {
            seq!['/']
        } else {
            t.subrange(0, i)
        },
    }
}

/// Whether a base name can be taken from the source path at all: something
/// must remain after trailing slashes, and the final component must name a
/// real entry, not `.` or `..`.
pub open spec fn src_ok(src: Seq<char>) -> bool {
    let t = strip_slashes(src);
    t.len() > 0 && base_spec(src) != seq!['.'] && base_spec(src) != seq!['.', '.']
}

proof fn lemma_strip_slashes_subrange(s: Seq<char>, e: int)
    requires
        0 <= e <= s.len(),
        forall|j: int| e <= j < s.len() ==> s[j] == '/',
        e > 0 ==> s[e - 1] != '/',
    ensures
        strip_slashes(s) == s.subrange(0, e),
    decreases s.len() - e,
{
    if e == s.len() {
        if s.len() > 0 {
            assert(s.last() != '/');
        }
        assert(s.subrange(0, s.len() as int) =~= s);
    } else {
        assert(s.last() == '/');
        let d = s.drop_last();
        lemma_strip_slashes_subrange(d, e);
        assert(d.subrange(0, e) =~= s.subrange(0, e));
    }
}

proof fn lemma_last_slash_at(s: Seq<char>, i: int)
    requires
        0 <= i < s.len(),
        s[i] == '/',
        forall|j: int| i < j < s.len() ==> s[j] != '/',
    ensures
        last_slash(s) == Some(i),
    decreases s.len(),
{
    if i == s.len() - 1 {
    } else {
        assert(s.last() != '/');
        lemma_last_slash_at(s.drop_last(), i);
    }
}

proof fn lemma_last_slash_none(s: Seq<char>)
    requires
        forall|j: int| 0 <= j < s.len() ==> s[j] != '/',
    ensures
        last_slash(s) is None,
    decreases s.len(),
{
    if s.len() > 0 {
        assert(s.last() != '/');
        lemma_last_slash_none(s.drop_last());
    }
}

/// Split an upload source path into the directory the archive is produced
/// from and the base name it addresses, so that plain files and directories
/// upload uniformly. A path with no usable base name is a fatal upload
/// error.
pub fn split_src_path(src: &str) -> (r: Result<(String, String), ExecError>)
    ensures
        r is Ok <==> src_ok(src@),
        r matches Ok(pb) ==> (pb.0@ == parent_spec(src@) && pb.1@ == base_spec(src@)),
        r matches Err(e) ==> (e matches ExecError::InvalidUploadSource { src: s } && s@
            == src@),
{
    let n = src.unicode_len();
    let mut e: usize = n;
    while e > 0 && src.get_char(e - 1) == '/'
        invariant
            n == src@.len(),
            0 <= e <= n,
            forall|j: int| e <= j < n ==> src@[j] == '/',
        decreases e,
    {
        e = e - 1;
    }
    proof {
        lemma_strip_slashes_subrange(src@, e as int);
    }
    let ghost t = src@.subrange(0, e as int);
    if e == 0 {
        proof {
            assert(t.len() == 0);
        }
        return Err(ExecError::InvalidUploadSource { src: String::from_str(src) });
    }
    let mut k: usize = e;
    while k > 0 && !(src.get_char(k - 1) == '/')
        invariant
            n == src@.len(),
            0 <= k <= e,
            e <= n,
            forall|j: int| k <= j < e ==> src@[j] != '/',
        decreases k,
    {
        k = k - 1;
    }
    proof {
        assert(k < e);
        assert(forall|j: int| 0 <= j < t.len() ==> t[j] == src@[j]);
        if k == 0 {
            lemma_last_slash_none(t);
            assert(base_spec(src@) == t);
        } else {
            assert(t[k - 1] == '/');
            lemma_last_slash_at(t, k as int - 1);
            assert(base_spec(src@) =~= src@.subrange(k as int, e as int));
        }
    }
    let base_is_dot = e - k == 1 && src.get_char(k) == '.';
    let base_is_dotdot = e - k == 2 && src.get_char(k) == '.' && src.get_char(k + 1) == '.';
    proof {
        let b = base_spec(src@);
        assert(b =~= src@.subrange(k as int, e as int));
        assert(b.len() == e - k);
        assert(seq!['.'].len() == 1 && seq!['.'][0] == '.');
        assert(seq!['.', '.'].len() == 2 && seq!['.', '.'][0] == '.' && seq!['.', '.'][1] == '.');
        if base_is_dot {
            assert(b =~= seq!['.']);
        } else if b == seq!['.'] {
            assert(b[0] == src@[k as int]);
            assert(e - k == 1 && src@[k as int] == '.');
            assert(false);
        }
        if base_is_dotdot {
            assert(b =~= seq!['.', '.']);
        } else if b == seq!['.', '.'] {
            assert(b[0] == src@[k as int] && b[1] == src@[k as int + 1]);
            assert(e - k == 2 && src@[k as int] == '.' && src@[k as int + 1] == '.');
            assert(false);
        }
    }
    if base_is_dot || base_is_dotdot {
        return Err(ExecError::InvalidUploadSource { src: String::from_str(src) });
    }
    let base = String::from_str(src.substring_char(k, e));
    if k == 0 {
        let parent = String::from_str(".");
        proof {
            reveal_strlit(".");
            assert("."@ =~= seq!['.']);
        }
        Ok((parent, base))
    } else if k == 1 {
        let parent = String::from_str("/");
        proof {
            reveal_strlit("/");
            assert("/"@ =~= seq!['/']);
        }
        Ok((parent, base))
    } else {
        let parent = String::from_str(src.substring_char(0, k - 1));
        proof {
            assert(parent_spec(src@) =~= src@.subrange(0, k as int - 1));
        }
        Ok((parent, base))
    }
}

/// The remote command that makes sure the destination directory exists.
pub fn mkdir_command(dst: &str) -> (r: String)
    ensures
        r@ == "mkdir -p '"@ + dst@ + "'"@,
{
    let mut out = String::from_str("mkdir -p '");
    out.append(dst);
    out.append("'");
    out
}

/// The remote command that receives the archive stream: change into the
/// destination directory and extract a tar stream from standard input.
pub fn extract_command(dst: &str) -> (r: String)
    ensures
        r@ == "cd '"@ + dst@ + "' && tar xzf -"@,
{
    let mut out = String::from_str("cd '");
    out.append(dst);
    out.append("' && tar xzf -");
    out
}

/// The local archiver's argument list: write a compressed tar stream of the
/// base name to standard output, addressed from the parent directory.
pub fn tar_args(parent: &str, base: &str) -> (r: Vec<String>)
    ensures
        r@.len() == 5,
        r@[0]@ == "-czf"@,
        r@[1]@ == "-"@,
        r@[2]@ == "-C"@,
        r@[3]@ == parent@,
        r@[4]@ == base@,
{
    let mut v: Vec<String> = Vec::new();
    v.push(String::from_str("-czf"));
    v.push(String::from_str("-"));
    v.push(String::from_str("-C"));
    v.push(String::from_str(parent));
    v.push(String::from_str(base));
    v
}

/// One planned transfer: which host, which spec, and the two command lines'
/// variable parts, precomputed and checked.
#[derive(Debug)]
pub struct UploadStep {
    pub target: HostIdentity,
    pub src: String,
    pub dst: String,
    pub tar_parent: String,
    pub tar_base: String,
}

/// Whether a step is exactly the planned transfer of `u` to the host
/// literal `host`.
pub open spec fn step_matches(st: UploadStep, host: Seq<char>, u: Upload) -> bool {
    &&& find_idx(host, '@') matches Some(k) && st.target.username@ == host.subrange(0, k)
        && st.target.hostname@ == host.subrange(k + 1, host.len() as int)
    &&& st.src == u.src
    &&& st.dst == u.dst
    &&& st.tar_parent@ == parent_spec(u.src@)
    &&& st.tar_base@ == base_spec(u.src@)
}

/// Whether a host literal parses into an identity.
pub open spec fn host_ok(h: String) -> bool {
    find_idx(h@, '@') is Some
}

/// Index of the first host literal that does not parse, if any.
pub open spec fn first_bad_host(hosts: Seq<String>) -> Option<int>
    decreases hosts.len(),
{
    if hosts.len() == 0 {
        None
    } else if !host_ok(hosts[0]) {
        Some(0int)
    } else {
        match first_bad_host(hosts.drop_first()) {
            None => None,
            Some(i) => Some(i + 1),
        }
    }
}

/// Index of the first upload spec whose source has no base name, if any.
pub open spec fn first_bad_src(uploads: Seq<Upload>) -> Option<int>
    decreases uploads.len(),
{
    if uploads.len() == 0 {
        None
    } else if !src_ok(uploads[0].src@) {
        Some(0int)
    } else {
        match first_bad_src(uploads.drop_first()) {
            None => None,
            Some(i) => Some(i + 1),
        }
    }
}

proof fn lemma_first_bad_host_at(hosts: Seq<String>, k: int)
    requires
        0 <= k < hosts.len(),
        !host_ok(hosts[k]),
        forall|j: int| 0 <= j < k ==> host_ok(#[trigger] hosts[j]),
    ensures
        first_bad_host(hosts) == Some(k),
    decreases k,
{
    if k > 0 {
        assert(forall|j: int|
            0 <= j < hosts.drop_first().len() ==> #[trigger] hosts.drop_first()[j] == hosts[j
                + 1]);
        lemma_first_bad_host_at(hosts.drop_first(), k - 1);
    }
}

proof fn lemma_first_bad_host_none(hosts: Seq<String>)
    requires
        forall|j: int| 0 <= j < hosts.len() ==> host_ok(#[trigger] hosts[j]),
    ensures
        first_bad_host(hosts) is None,
    decreases hosts.len(),
{
    if hosts.len() > 0 {
        assert(forall|j: int|
            0 <= j < hosts.drop_first().len() ==> #[trigger] hosts.drop_first()[j] == hosts[j
                + 1]);
        lemma_first_bad_host_none(hosts.drop_first());
    }
}

proof fn lemma_first_bad_host_props(hosts: Seq<String>)
    ensures
        match first_bad_host(hosts) {
            Some(k) => 0 <= k < hosts.len() && !host_ok(hosts[k]) && (forall|j: int|
                0 <= j < k ==> host_ok(#[trigger] hosts[j])),
            None => forall|j: int| 0 <= j < hosts.len() ==> host_ok(#[trigger] hosts[j]),
        },
    decreases hosts.len(),
{
    if hosts.len() > 0 && host_ok(hosts[0]) {
        let d = hosts.drop_first();
        lemma_first_bad_host_props(d);
        assert(forall|j: int| 1 <= j < hosts.len() ==> #[trigger] hosts[j] == d[j - 1]);
    }
}

proof fn lemma_first_bad_src_at(uploads: Seq<Upload>, k: int)
    requires
        0 <= k < uploads.len(),
        !src_ok(uploads[k].src@),
        forall|j: int| 0 <= j < k ==> src_ok(#[trigger] uploads[j].src@),
    ensures
        first_bad_src(uploads) == Some(k),
    decreases k,
{
    if k > 0 {
        assert(forall|j: int|
            0 <= j < uploads.drop_first().len() ==> #[trigger] uploads.drop_first()[j]
                == uploads[j + 1]);
        lemma_first_bad_src_at(uploads.drop_first(), k - 1);
    }
}

proof fn lemma_first_bad_src_none(uploads: Seq<Upload>)
    requires
        forall|j: int| 0 <= j < uploads.len() ==> src_ok(#[trigger] uploads[j].src@),
    ensures
        first_bad_src(uploads) is None,
    decreases uploads.len(),
{
    if uploads.len() > 0 {
        assert(forall|j: int|
            0 <= j < uploads.drop_first().len() ==> #[trigger] uploads.drop_first()[j]
                == uploads[j + 1]);
        lemma_first_bad_src_none(uploads.drop_first());
    }
}

/// Plan a command's uploads: for every resolved host, for every upload
/// spec, in that order, one transfer step. A host literal without `@` or a
/// source path without a base name is fatal here and aborts the remaining
/// pairs, matching the strictly sequential upload contract.
pub fn plan_uploads(hosts: &Vec<String>, uploads: &Vec<Upload>) -> (r: Result<
    Vec<UploadStep>,
    ExecError,
>)
    ensures
        r is Ok <==> (first_bad_host(hosts@) is None && (hosts@.len() > 0 ==> first_bad_src(
            uploads@,
        ) is None)),
        r matches Ok(steps) ==> (steps@.len() == hosts@.len() * uploads@.len() && (forall|
            p: int,
        |
            0 <= p < steps@.len() ==> step_matches(
                #[trigger] steps@[p],
                hosts@[p / (uploads@.len() as int)]@,
                uploads@[p % (uploads@.len() as int)],
            ))),
        r matches Err(e) ==> (match first_bad_host(hosts@) {
            Some(k) => {
                if k == 0 {
                    e matches ExecError::HostMissingAt { host } && host@ == hosts@[0]@
                } else {
                    match first_bad_src(uploads@) {
                        Some(t) => e matches ExecError::InvalidUploadSource { src } && src@
                            == uploads@[t].src@,
                        None => e matches ExecError::HostMissingAt { host } && host@
                            == hosts@[k]@,
                    }
                }
            },
            None => e matches ExecError::InvalidUploadSource { src } && (first_bad_src(uploads@)
                matches Some(t) && src@ == uploads@[t].src@),
        }),
{
    let h_n = hosts.len();
    let u_n = uploads.len();
    let ghost gu = u_n as int;
    let mut steps: Vec<UploadStep> = Vec::new();
    let mut i: usize = 0;
    proof {
        assert(0 * gu == 0) by (nonlinear_arith);
    }
    while i < h_n
        invariant
            h_n == hosts@.len(),
            u_n == uploads@.len(),
            gu == u_n as int,
            0 <= i <= h_n,
            steps@.len() == i * gu,
            forall|q: int| 0 <= q < i ==> host_ok(#[trigger] hosts@[q]),
            i > 0 ==> (forall|j: int| 0 <= j < u_n ==> src_ok(#[trigger] uploads@[j].src@)),
            forall|p: int|
                0 <= p < steps@.len() ==> step_matches(
                    #[trigger] steps@[p],
                    hosts@[p / gu]@,
                    uploads@[p % gu],
                ),
        decreases h_n - i,
    {
        let target = match HostIdentity::parse(hosts[i].as_str()) {
            Ok(t) => t,
            Err(err) => {
                proof {
                    lemma_first_bad_host_at(hosts@, i as int);
                    if i > 0 {
                        lemma_first_bad_src_none(uploads@);
                    }
                }
                return Err(err);
            },
        };
        let ghost istart = steps@.len() as int;
        let mut j: usize = 0;
        while j < u_n
            invariant
                h_n == hosts@.len(),
                u_n == uploads@.len(),
                gu == u_n as int,
                0 <= i < h_n,
                0 <= j <= u_n,
                istart == i as int * gu,
                steps@.len() == istart + j,
                host_ok(hosts@[i as int]),
                find_idx(hosts@[i as int]@, '@') matches Some(k) && target.username@
                    == hosts@[i as int]@.subrange(0, k) && target.hostname@
                    == hosts@[i as int]@.subrange(k + 1, hosts@[i as int]@.len() as int),
                forall|q: int| 0 <= q < i ==> host_ok(#[trigger] hosts@[q]),
                i > 0 ==> (forall|q: int| 0 <= q < u_n ==> src_ok(#[trigger] uploads@[q].src@)),
                forall|q: int| 0 <= q < j ==> src_ok(#[trigger] uploads@[q].src@),
                forall|p: int|
                    0 <= p < steps@.len() ==> step_matches(
                        #[trigger] steps@[p],
                        hosts@[p / gu]@,
                        uploads@[p % gu],
                    ),
            decreases u_n - j,
        {
            let u = &uploads[j];
            match split_src_path(u.src.as_str()) {
                Ok(pb) => {
                    let step = UploadStep {
                        target: target.duplicate(),
                        src: u.src.clone(),
                        dst: u.dst.clone(),
                        tar_parent: pb.0,
                        tar_base: pb.1,
                    };
                    proof {
                        let p = steps@.len() as int;
                        assert(p / gu == i as int && p % gu == j as int) by (nonlinear_arith)
                            requires
                                gu >= 1,
                                p == i as int * gu + j as int,
                                0 <= j < gu,
                                0 <= i,
                        ;
                        assert(step_matches(step, hosts@[i as int]@, uploads@[j as int]));
                    }
                    steps.push(step);
                },
                Err(err) => {
                    proof {
                        if i > 0 {
                            assert(src_ok(uploads@[j as int].src@));
                            assert(false);
                        }
                        lemma_first_bad_src_at(uploads@, j as int);
                        lemma_first_bad_host_props(hosts@);
                        match first_bad_host(hosts@) {
                            Some(k) => {
                                assert(host_ok(hosts@[0]));
                                assert(k != 0);
                            },
                            None => {},
                        }
                    }
                    return Err(err);
                },
            }
            j = j + 1;
        }
        proof {
            assert((i as int + 1) * gu == i as int * gu + gu) by (nonlinear_arith);
        }
        i = i + 1;
    }
    proof {
        lemma_first_bad_host_none(hosts@);
        if h_n > 0 {
            lemma_first_bad_src_none(uploads@);
        }
    }
    Ok(steps)
}

} // verus!
