use vstd::prelude::*;

use crate::text::{trim_spec, trim_str, views_of};

verus! {

/// Length of the prefix of `s` before its first newline (or all of `s`).
pub open spec fn line_end(s: Seq<char>) -> int
    decreases s.len(),
{
    if s.len() == 0 || s[0] == '\n' {
        0
    } else {
        1 + line_end(s.drop_first())
    }
}

proof fn lemma_line_end_of(s: Seq<char>, e: int)
    requires
        0 <= e <= s.len(),
        forall|j: int| 0 <= j < e ==> s[j] != '\n',
        e < s.len() ==> s[e] == '\n',
    ensures
        line_end(s) == e,
    decreases e,
{
    if e > 0 {
        assert(s[0] != '\n');
        let d = s.drop_first();
        assert(forall|j: int| 0 <= j < d.len() ==> d[j] == s[j + 1]);
        lemma_line_end_of(d, e - 1);
    }
}

/// A trimmed line kept only when it is non-empty.
pub open spec fn maybe_line(t: Seq<char>) -> Seq<Seq<char>> {
    if t.len() > 0 {
        seq![t]
    } else {
        Seq::empty()
    }
}

/// The host literals an inventory command's standard output contributes:
/// its lines, each trimmed, empty ones dropped, in produced order.
pub open spec fn inv_lines(s: Seq<char>) -> Seq<Seq<char>>
    decreases s.len(),
{
    if s.len() == 0 {
        Seq::empty()
    } else {
        let e = line_end(s);
        if 0 <= e < s.len() {
            maybe_line(trim_spec(s.subrange(0, e))) + inv_lines(
                s.subrange(e + 1, s.len() as int),
            )
        } else {
            maybe_line(trim_spec(s))
        }
    }
}

/// Parse an inventory command's standard output into trimmed, non-empty
/// host lines, in produced order.
pub fn parse_inventory_output(out: &str) -> (r: Vec<String>)
    ensures
        views_of(r@) == inv_lines(out@),
{
    let mut r: Vec<String> = Vec::new();
    let mut rest: &str = out;
    let mut n: usize = rest.unicode_len();
    proof {
        assert(views_of(r@) + inv_lines(rest@) =~= inv_lines(out@));
    }
    while n > 0
        invariant
            n == rest@.len(),
            views_of(r@) + inv_lines(rest@) == inv_lines(out@),
        decreases n,
    {
        let ghost prev_rest = rest@;
        let ghost prev_r = r@;
        let mut e: usize = 0;
        while e < n && !(rest.get_char(e) == '\n')
            invariant
                n == rest@.len(),
                0 <= e <= n,
                forall|j: int| 0 <= j < e ==> rest@[j] != '\n',
            decreases n - e,
        {
            e = e + 1;
        }
        proof {
            lemma_line_end_of(rest@, e as int);
        }
        let raw = rest.substring_char(0, e);
        let line = trim_str(raw);
        let nonempty = line.as_str().unicode_len() > 0;
        if nonempty {
            r.push(line);
        }
        if e < n {
            rest = rest.substring_char(e + 1, n);
            n = n - e - 1;
        } else {
            rest = rest.substring_char(n, n);
            n = 0;
        }
        proof {
            if e < prev_rest.len() {
                assert(inv_lines(prev_rest) == maybe_line(trim_spec(prev_rest.subrange(0, e as int)))
                    + inv_lines(rest@));
            } else {
                assert(prev_rest.subrange(0, e as int) =~= prev_rest);
                assert(inv_lines(prev_rest) == maybe_line(trim_spec(prev_rest)));
                assert(inv_lines(rest@) =~= Seq::<Seq<char>>::empty());
            }
            if nonempty {
                assert(views_of(r@) =~= views_of(prev_r).push(trim_spec(prev_rest.subrange(
                    0,
                    e as int,
                ))));
                assert(views_of(r@) + inv_lines(rest@) =~= inv_lines(out@));
            } else {
                assert(maybe_line(trim_spec(prev_rest.subrange(0, e as int)))
                    =~= Seq::<Seq<char>>::empty());
                assert(views_of(r@) + inv_lines(rest@) =~= inv_lines(out@));
            }
        }
    }
    proof {
        assert(inv_lines(rest@) =~= Seq::<Seq<char>>::empty());
        assert(views_of(r@) =~= views_of(r@) + inv_lines(rest@));
    }
    r
}

/// Append the inventory-derived hosts after the static hosts, in order,
/// without deduplication.
pub fn merge_hosts(static_hosts: &Vec<String>, inventory_hosts: &Vec<String>) -> (r: Vec<String>)
    ensures
        r@.len() == static_hosts@.len() + inventory_hosts@.len(),
        forall|i: int| 0 <= i < static_hosts@.len() ==> r@[i] == static_hosts@[i],
        forall|i: int|
            0 <= i < inventory_hosts@.len() ==> r@[static_hosts@.len() + i]
                == inventory_hosts@[i],
        views_of(r@) == views_of(static_hosts@) + views_of(inventory_hosts@),
{
    let mut r: Vec<String> = Vec::new();
    let mut i: usize = 0;
    while i < static_hosts.len()
        invariant
            i <= static_hosts@.len(),
            r@.len() == i,
            forall|j: int| 0 <= j < i ==> r@[j] == static_hosts@[j],
        decreases static_hosts@.len() - i,
    {
        r.push(static_hosts[i].clone());
        i = i + 1;
    }
    let mut k: usize = 0;
    while k < inventory_hosts.len()
        invariant
            k <= inventory_hosts@.len(),
            r@.len() == static_hosts@.len() + k,
            forall|j: int| 0 <= j < static_hosts@.len() ==> r@[j] == static_hosts@[j],
            forall|j: int|
                0 <= j < k ==> r@[static_hosts@.len() + j] == inventory_hosts@[j],
        decreases inventory_hosts@.len() - k,
    {
        r.push(inventory_hosts[k].clone());
        k = k + 1;
    }
    proof {
        assert(views_of(r@) =~= views_of(static_hosts@) + views_of(inventory_hosts@));
    }
    r
}

} // verus!
