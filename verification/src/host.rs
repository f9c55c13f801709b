use vstd::prelude::*;

use crate::errors::ExecError;
use crate::text::{find_char, find_idx};

verus! {

/// One resolved remote target: the two halves of a `user@host` literal.
#[derive(Debug, Clone)]
pub struct HostIdentity {
    pub username: String,
    pub hostname: String,
}

impl HostIdentity {
    /// The rendered `user@host` form of this identity.
    pub open spec fn render(self) -> Seq<char> {
        self.username@ + seq!['@'] + self.hostname@
    }

    /// Split a host literal at its first `@`. A literal without `@` is
    /// invalid; which caller treats that as fatal depends on the mode.
    pub fn parse(host_str: &str) -> (r: Result<HostIdentity, ExecError>)
        ensures
            r is Ok <==> find_idx(host_str@, '@') is Some,
            r matches Ok(h) ==> {
                let i = find_idx(host_str@, '@')->0;
                &&& h.username@ == host_str@.subrange(0, i)
                &&& h.hostname@ == host_str@.subrange(i + 1, host_str@.len() as int)
            },
            r matches Err(e) ==> (e matches ExecError::HostMissingAt { host } && host@
                == host_str@),
    {
        let n = host_str.unicode_len();
        match find_char(host_str, '@') {
            Some(i) => {
                proof {
                    crate::text::lemma_find_idx_props(host_str@, '@');
                }
                let username = String::from_str(host_str.substring_char(0, i));
                let hostname = String::from_str(host_str.substring_char(i + 1, n));
                Ok(HostIdentity { username, hostname })
            },
            None => Err(ExecError::HostMissingAt { host: String::from_str(host_str) }),
        }
    }

    /// An exact copy of this identity.
    pub fn duplicate(&self) -> (r: HostIdentity)
        ensures
            r == *self,
    {
        HostIdentity { username: self.username.clone(), hostname: self.hostname.clone() }
    }

    /// Rebuild the `user@host` literal handed to the remote-shell client.
    pub fn to_string(&self) -> (r: String)
        ensures
            r@ == self.render(),
    {
        let mut out = self.username.clone();
        out.append("@");
        out.append(self.hostname.as_str());
        proof {
            reveal_strlit("@");
            assert("@"@ =~= seq!['@']);
        }
        out
    }
}

} // verus!
