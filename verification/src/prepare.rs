use vstd::prelude::*;

use crate::text::{
    first_token_len, is_space, is_space_char, lemma_first_token_len_of, trim_spec, trim_str,
};

verus! {

/// What shell-quote's `Bash::quote` returns for a given string: a single
/// shell word, determined by the input characters alone.
pub uninterp spec fn bash_quoted(s: Seq<char>) -> Seq<char>;

/// Relies on shell_quote's `Bash::quote`: it escapes a string so that a
/// Bash-compatible shell reads it back as one word, and its result depends
/// on the input characters alone.
#[verifier::external_body]
fn bash_quote(s: &str) -> (r: String)
    ensures
        r@ == bash_quoted(s@),
{
    <shell_quote::Bash as shell_quote::Quote<String>>::quote(s)
}

/// The trimmed command's first whitespace-delimited token.
pub open spec fn leading_token(cmd: Seq<char>) -> Seq<char> {
    let t = trim_spec(cmd);
    t.subrange(0, first_token_len(t))
}

/// Whether the remote command asks for privilege elevation.
pub open spec fn is_sudo_command(cmd: Seq<char>) -> bool {
    leading_token(cmd) == "sudo"@
}

/// What remains of the trimmed command after its leading `sudo` token.
pub open spec fn sudo_remainder(cmd: Seq<char>) -> Seq<char> {
    let t = trim_spec(cmd);
    trim_spec(t.subrange(first_token_len(t), t.len() as int))
}

/// The form a remote command takes before it is handed to the remote shell:
/// a command whose leading token is `sudo` loses that token and runs its
/// quoted remainder through an environment-preserving elevated shell; any
/// other command passes through unchanged.
pub open spec fn prepared_spec(cmd: Seq<char>) -> Seq<char> {
    if is_sudo_command(cmd) {
        "sudo -E bash -c '"@ + bash_quoted(sudo_remainder(cmd)) + "'"@
    } else {
        cmd
    }
}

/// A command whose leading token is `sudo` is always rewritten to start
/// with the elevation wrapper, whatever the quoter returns for the
/// remainder; every other command passes through unchanged.
pub proof fn lemma_sudo_wrapper_prefix(cmd: Seq<char>)
    ensures
        is_sudo_command(cmd) ==> prepared_spec(cmd).subrange(0, "sudo -E bash -c '"@.len() as int)
            == "sudo -E bash -c '"@,
        !is_sudo_command(cmd) ==> prepared_spec(cmd) == cmd,
{
    if is_sudo_command(cmd) {
        let p = "sudo -E bash -c '"@;
        let rest = bash_quoted(sudo_remainder(cmd)) + "'"@;
        assert((p + rest).subrange(0, p.len() as int) =~= p);
        assert(prepared_spec(cmd) == p + rest) by {
            assert(p + bash_quoted(sudo_remainder(cmd)) + "'"@ =~= p + rest);
        }
    }
}

/// Rewrite a raw remote command for safe privilege elevation. This is a pure
/// string transform: no process is spawned here.
pub fn prepare_remote_command(cmd: &str) -> (r: String)
    ensures
        r@ == prepared_spec(cmd@),
        !is_sudo_command(cmd@) ==> r@ == cmd@,
{
    let trimmed = trim_str(cmd);
    let n = trimmed.as_str().unicode_len();
    let mut e: usize = 0;
    while e < n && !is_space_char(trimmed.as_str().get_char(e))
        invariant
            n == trimmed@.len(),
            0 <= e <= n,
            forall|j: int| 0 <= j < e ==> !is_space(trimmed@[j]),
        decreases n - e,
    {
        e = e + 1;
    }
    proof {
        lemma_first_token_len_of(trimmed@, e as int);
    }
    let mut sudo = false;
    if e == 4 {
        sudo = trimmed.as_str().get_char(0) == 's' && trimmed.as_str().get_char(1) == 'u'
            && trimmed.as_str().get_char(2) == 'd' && trimmed.as_str().get_char(3) == 'o';
    }
    proof {
        reveal_strlit("sudo");
        assert("sudo"@ =~= seq!['s', 'u', 'd', 'o']);
        if sudo {
            assert(leading_token(cmd@) =~= "sudo"@);
        } else {
            assert(leading_token(cmd@).len() == e);
            assert(leading_token(cmd@) != "sudo"@) by {
                if leading_token(cmd@) == "sudo"@ {
                    assert(leading_token(cmd@)[0] == 's' && leading_token(cmd@)[1] == 'u'
                        && leading_token(cmd@)[2] == 'd' && leading_token(cmd@)[3] == 'o');
                    assert(forall|j: int|
                        0 <= j < 4 ==> #[trigger] leading_token(cmd@)[j] == trimmed@[j]);
                }
            }
        }
    }
    if sudo {
        let rest = trimmed.as_str().substring_char(e, n);
        let remainder = trim_str(rest);
        let quoted = bash_quote(remainder.as_str());
        let mut out = String::from_str("sudo -E bash -c '");
        out.append(quoted.as_str());
        out.append("'");
        out
    } else {
        String::from_str(cmd)
    }
}

} // verus!
