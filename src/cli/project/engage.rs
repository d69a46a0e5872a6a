use vstd::prelude::*;
use vstd::string::{StrSliceExecFns, StringExecFns};

use crate::project::grammar::chars_of;

verus! {

/// `s` with every `.` turned into `-`.
pub open spec fn dashed(s: Seq<char>) -> Seq<char> {
    s.map_values(|c: char| if c == '.' { '-' } else { c })
}

pub open spec fn starts_with(s: Seq<char>, p: Seq<char>) -> bool {
    p.len() <= s.len() && s.subrange(0, p.len() as int) == p
}

/// `s` with every leading repetition of `p` taken off.
pub open spec fn strip_all(s: Seq<char>, p: Seq<char>) -> Seq<char>
    decreases s.len(),
{
    if p.len() > 0 && starts_with(s, p) {
        strip_all(s.subrange(p.len() as int, s.len() as int), p)
    } else {
        s
    }
}

/// The tmux session of a repository: its name with `.` turned into `-`, without its leading
/// `ansible-role-` prefixes or, failing those, its leading `docker-` prefixes.
pub open spec fn session_name(repo: Seq<char>) -> Seq<char> {
    let s = dashed(repo);
    if starts_with(s, "ansible-role-"@) {
        strip_all(s, "ansible-role-"@)
    } else if starts_with(s, "docker-"@) {
        strip_all(s, "docker-"@)
    } else {
        s
    }
}

/// Whether `p` stands in `d` at `k`.
fn prefix_at(d: &Vec<char>, k: usize, p: &Vec<char>) -> (r: bool)
    requires
        k <= d@.len(),
    ensures
        r == starts_with(d@.subrange(k as int, d@.len() as int), p@),
{
    let ghost s = d@.subrange(k as int, d@.len() as int);
    if p.len() > d.len() - k {
        return false;
    }
    let mut i: usize = 0;
    while i < p.len()
        invariant
            i <= p@.len(),
            k <= d@.len() <= usize::MAX,
            p@.len() <= d@.len() - k,
            s == d@.subrange(k as int, d@.len() as int),
            forall|j: int| 0 <= j < i ==> s[j] == p@[j],
        decreases p@.len() - i,
    {
        if d[k + i] != p[i] {
            assert(s.subrange(0, p@.len() as int)[i as int] == d@[k + i]);
            return false;
        }
        i = i + 1;
    }
    assert(s.subrange(0, p@.len() as int) =~= p@);
    true
}

/// Where the leading repetitions of `p` in `d` end.
fn strip_start(d: &Vec<char>, p: &Vec<char>) -> (k: usize)
    requires
        p@.len() > 0,
    ensures
        k <= d@.len(),
        d@.subrange(k as int, d@.len() as int) == strip_all(d@, p@),
{
    let mut k: usize = 0;
    let ghost len = d.len();
    assert(d@.subrange(0, d@.len() as int) =~= d@);
    while prefix_at(d, k, p)
        invariant
            k <= d@.len() <= usize::MAX,
            p@.len() > 0,
            strip_all(d@.subrange(k as int, d@.len() as int), p@) == strip_all(d@, p@),
        decreases d@.len() - k,
    {
        let ghost s = d@.subrange(k as int, d@.len() as int);
        assert(p@.len() <= d@.len() - k);
        assert(s.subrange(p@.len() as int, s.len() as int) =~= d@.subrange(
            k + p@.len(),
            d@.len() as int,
        ));
        k = k + p.len();
    }
    k
}

/// Cleans a repository name into the name of its tmux session: periods become dashes, and
/// leading `ansible-role-` or `docker-` prefixes go.
pub fn tmux_session_name(repo_name: &str) -> (r: String)
    ensures
        r@ == session_name(repo_name@),
{
    let v = chars_of(repo_name);
    let n = v.len();
    let mut d: Vec<char> = Vec::new();
    let mut i: usize = 0;
    while i < n
        invariant
            i <= n,
            n == v@.len(),
            d@ == dashed(v@).subrange(0, i as int),
        decreases n - i,
    {
        d.push(if v[i] == '.' { '-' } else { v[i] });
        i = i + 1;
        assert(d@ =~= dashed(v@).subrange(0, i as int));
    }
    assert(d@ =~= dashed(repo_name@));
    let role = chars_of("ansible-role-");
    let docker = chars_of("docker-");
    proof {
        reveal_strlit("ansible-role-");
        reveal_strlit("docker-");
    }
    let start = if prefix_at(&d, 0, &role) {
        strip_start(&d, &role)
    } else if prefix_at(&d, 0, &docker) {
        strip_start(&d, &docker)
    } else {
        0
    };
    assert(d@.subrange(0, n as int) =~= d@);
    let mut r = String::new();
    let mut j: usize = start;
    while j < n
        invariant
            start <= j <= n,
            v@ == repo_name@,
            n == v@.len(),
            n == d@.len(),
            d@ == dashed(v@),
            r@ == d@.subrange(start as int, j as int),
        decreases n - j,
    {
        proof {
            reveal_strlit("-");
        }
        if v[j] == '.' {
            r.append("-");
        } else {
            r.append(repo_name.substring_char(j, j + 1));
        }
        j = j + 1;
        assert(r@ =~= d@.subrange(start as int, j as int));
    }
    r
}

/// A line of `out` (as `str::lines` splits it) starts at `i` with `name` as its first
/// `:`-separated field.
pub open spec fn listed_at(out: Seq<char>, name: Seq<char>, i: int) -> bool {
    let j = i + name.len();
    &&& 0 <= i < out.len()
    &&& i == 0 || out[i - 1] == '\n'
    &&& j <= out.len()
    &&& out.subrange(i, j) == name
    &&& j == out.len() || out[j] == ':' || out[j] == '\n' || (out[j] == '\r' && j + 1 < out.len()
        && out[j + 1] == '\n')
}

/// Whether the listing `out` of `tmux ls` holds a session named `name`: some line's text
/// before its first `:` is `name`.
pub open spec fn session_listed(out: Seq<char>, name: Seq<char>) -> bool {
    &&& forall|k: int| 0 <= k < name.len() ==> name[k] != ':' && name[k] != '\n'
    &&& exists|i: int| listed_at(out, name, i)
}

fn listed_at_exec(out: &Vec<char>, name: &Vec<char>, i: usize) -> (r: bool)
    requires
        i < out@.len(),
        i == 0 || out@[i - 1] == '\n',
    ensures
        r == listed_at(out@, name@, i as int),
{
    let n = out.len();
    if name.len() > n - i {
        return false;
    }
    let j = i + name.len();
    let mut k: usize = 0;
    while k < name.len()
        invariant
            k <= name@.len(),
            j == i + name@.len(),
            j <= n,
            n == out@.len(),
            forall|m: int| 0 <= m < k ==> out@[i + m] == name@[m],
        decreases name@.len() - k,
    {
        if out[i + k] != name[k] {
            assert(out@.subrange(i as int, j as int)[k as int] == out@[i + k]);
            return false;
        }
        k = k + 1;
    }
    assert(out@.subrange(i as int, j as int) =~= name@);
    j == n || out[j] == ':' || out[j] == '\n' || (out[j] == '\r' && j + 1 < n && out[j + 1]
        == '\n')
}

/// Whether the listing `output` of `tmux ls` holds a session named `session_name`.
pub fn has_session(output: &str, session_name: &str) -> (r: bool)
    ensures
        r == session_listed(output@, session_name@),
{
    let out = chars_of(output);
    let name = chars_of(session_name);
    let mut k: usize = 0;
    while k < name.len()
        invariant
            k <= name@.len(),
            name@ == session_name@,
            forall|m: int| 0 <= m < k ==> name@[m] != ':' && name@[m] != '\n',
        decreases name@.len() - k,
    {
        if name[k] == ':' || name[k] == '\n' {
            assert(!(name@[k as int] != ':' && name@[k as int] != '\n'));
            return false;
        }
        k = k + 1;
    }
    let n = out.len();
    let mut i: usize = 0;
    while i < n
        invariant
            i <= n,
            n == out@.len(),
            out@ == output@,
            name@ == session_name@,
            forall|m: int| 0 <= m < name@.len() ==> name@[m] != ':' && name@[m] != '\n',
            forall|m: int| 0 <= m < i ==> !listed_at(out@, name@, m),
        decreases n - i,
    {
        if (i == 0 || out[i - 1] == '\n') && listed_at_exec(&out, &name, i) {
            assert(listed_at(out@, name@, i as int));
            return true;
        }
        i = i + 1;
    }
    false
}

} // verus!
