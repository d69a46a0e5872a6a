pub mod grammar;
pub mod hooks;
pub mod parse;
pub mod templates;

use vstd::prelude::*;
use vstd::string::StrSliceExecFns;
use vstd::string::StringExecFns;

use crate::project::hooks::{install_plan, install_steps, HookStep};
use crate::project::grammar::{
    chars_of, ends_with_git, free_of, git_suffix, host_form, https_form, https_scheme, is_host,
    is_part, is_space, is_space_char, is_user, lemma_host_unique, lemma_https_unique,
    lemma_no_git_suffix, lemma_no_host, lemma_no_user_before, lemma_not_https, lemma_owner_repo_unique,
    lemma_split_last_unique, lemma_strip_suffix, lemma_user_host_unique, match_host, match_https,
    match_owner_repo, match_user_host, owner_repo, strip_git, trim_bounds, trimmed, user_host_form,
};

verus! {

/// The user by which SSH remotes are reached when the identifier names none.
pub const DEFAULT_USER: &'static str = "git";

/// The host assumed when the identifier names none.
pub const DEFAULT_HOST: &'static str = "github.com";

/// Transport by which a remote repository is reached.
#[derive(Debug, PartialEq, Eq, Structural)]
pub enum Protocol {
    Https,
    Ssh,
}

/// Why an identifier could not be resolved.
#[derive(Debug, Clone, PartialEq, Eq)]
pub enum ParseError {
    /// The identifier fits neither recognised shape; it carries the identifier as given.
    InvalidFormat(String),
}

/// A resolved remote repository: where it lives and how it is reached.
pub struct Project {
    host: String,
    owner: String,
    protocol: Protocol,
    repository: String,
    user: Option<String>,
}

/// What a `Project` stands for.
pub struct ProjectView {
    pub host: Seq<char>,
    pub owner: Seq<char>,
    pub repository: Seq<char>,
    pub protocol: Protocol,
    pub user: Option<Seq<char>>,
}

impl View for Project {
    type V = ProjectView;

    closed spec fn view(&self) -> ProjectView {
        ProjectView {
            host: self.host@,
            owner: self.owner@,
            repository: self.repository@,
            protocol: self.protocol,
            user: match self.user {
                Some(u) => Some(u@),
                None => None,
            },
        }
    }
}

impl ProjectView {
    /// The user by which the remote is reached.
    pub open spec fn connect_user(self) -> Seq<char> {
        match self.user {
            Some(u) => u,
            None => DEFAULT_USER@,
        }
    }

    /// Host, owner and repository are non-empty and hold no `/`.
    pub open spec fn wf(self) -> bool {
        &&& self.host.len() > 0 && free_of(self.host, '/')
        &&& self.owner.len() > 0 && free_of(self.owner, '/')
        &&& self.repository.len() > 0 && free_of(self.repository, '/')
    }
}

/// The location from which a project is cloned: `https://<host>/<owner>/<repository>`, or
/// `<user>@<host>:<owner>/<repository>` over SSH.
pub open spec fn remote_url(p: ProjectView) -> Seq<char> {
    match p.protocol {
        Protocol::Https => "https://"@ + p.host + "/"@ + p.owner + "/"@ + p.repository,
        Protocol::Ssh => p.connect_user() + "@"@ + p.host + ":"@ + p.owner + "/"@ + p.repository,
    }
}

/// `part` appended to the path `base` as one more component.
pub open spec fn join_path(base: Seq<char>, part: Seq<char>) -> Seq<char> {
    if base.len() == 0 || base.last() == '/' {
        base + part
    } else {
        base + seq!['/'] + part
    }
}

/// Where a project is checked out: `<root>/<host>/<owner>/<repository>`.
pub open spec fn local_path(root: Seq<char>, p: ProjectView) -> Seq<char> {
    join_path(join_path(join_path(root, p.host), p.owner), p.repository)
}

/// The identity that `raw` names: the explicit `https://<host>/<owner>/<repository>` shape
/// first, then the SSH shape `[<user>@][<host>(:|/)]<owner>/<repository>`, each matched
/// against the whole input once one trailing `.git` is taken off.
pub open spec fn resolve(raw: Seq<char>) -> Option<ProjectView> {
    let s = strip_git(raw);
    if exists|h: Seq<char>, o: Seq<char>, r: Seq<char>| https_form(s, h, o, r) {
        let (h, o, r) = choose|h: Seq<char>, o: Seq<char>, r: Seq<char>| https_form(s, h, o, r);
        Some(
            ProjectView { host: h, owner: o, repository: r, protocol: Protocol::Https, user: None },
        )
    } else if exists|u: Seq<char>, h: Seq<char>, sep: char, o: Seq<char>, r: Seq<char>|
        user_host_form(s, u, h, sep, o, r) {
        let (u, h, sep, o, r) = choose|
            u: Seq<char>,
            h: Seq<char>,
            sep: char,
            o: Seq<char>,
            r: Seq<char>,
        | user_host_form(s, u, h, sep, o, r);
        Some(
            ProjectView {
                host: h,
                owner: o,
                repository: r,
                protocol: Protocol::Ssh,
                user: Some(u),
            },
        )
    } else if exists|h: Seq<char>, sep: char, o: Seq<char>, r: Seq<char>|
        host_form(s, h, sep, o, r) {
        let (h, sep, o, r) = choose|h: Seq<char>, sep: char, o: Seq<char>, r: Seq<char>|
            host_form(s, h, sep, o, r);
        Some(
            ProjectView {
                host: h,
                owner: o,
                repository: r,
                protocol: Protocol::Ssh,
                user: Some(DEFAULT_USER@),
            },
        )
    } else if exists|o: Seq<char>, r: Seq<char>| owner_repo(s, o, r) {
        let (o, r) = choose|o: Seq<char>, r: Seq<char>| owner_repo(s, o, r);
        Some(
            ProjectView {
                host: DEFAULT_HOST@,
                owner: o,
                repository: r,
                protocol: Protocol::Ssh,
                user: Some(DEFAULT_USER@),
            },
        )
    } else {
        None
    }
}

/// An explicit HTTPS identifier resolves to its host, owner and repository over HTTPS, with
/// or without a trailing `.git`, where the repository does not itself end in `.git`.
pub proof fn lemma_resolve_https(h: Seq<char>, o: Seq<char>, r: Seq<char>)
    requires
        is_part(h),
        is_part(o),
        is_part(r),
        !ends_with_git(r),
    ensures
        resolve(https_scheme() + h + seq!['/'] + o + seq!['/'] + r) == Some(
            ProjectView { host: h, owner: o, repository: r, protocol: Protocol::Https, user: None },
        ),
        resolve(https_scheme() + h + seq!['/'] + o + seq!['/'] + r + git_suffix()) == Some(
            ProjectView { host: h, owner: o, repository: r, protocol: Protocol::Https, user: None },
        ),
{
    let s = https_scheme() + h + seq!['/'] + o + seq!['/'] + r;
    lemma_no_git_suffix(https_scheme() + h + seq!['/'] + o, r);
    lemma_strip_suffix(s);
    assert(s.subrange(0, 8) =~= https_scheme());
    assert(s.subrange(8, s.len() as int) =~= h + seq!['/'] + o + seq!['/'] + r);
    assert(https_form(s, h, o, r));
    let (h2, o2, r2) = choose|h2: Seq<char>, o2: Seq<char>, r2: Seq<char>|
        https_form(s, h2, o2, r2);
    lemma_https_unique(s, h, o, r, h2, o2, r2);
}

proof fn lemma_resolve_bare(o: Seq<char>, r: Seq<char>)
    requires
        is_part(o),
        is_part(r),
        free_of(o, ':'),
        !ends_with_git(r),
    ensures
        resolve(o + seq!['/'] + r) == Some(
            ProjectView {
                host: DEFAULT_HOST@,
                owner: o,
                repository: r,
                protocol: Protocol::Ssh,
                user: Some(DEFAULT_USER@),
            },
        ),
        resolve(o + seq!['/'] + r + git_suffix()) == resolve(o + seq!['/'] + r),
{
    let s1 = o + seq!['/'] + r;
    lemma_no_git_suffix(o, r);
    lemma_strip_suffix(s1);
    assert(s1[o.len() as int] == '/');
    assert(s1[o.len() as int + 1] == r[0]);
    lemma_not_https(s1, o.len() as int);
    assert(s1 =~= seq![] + o + seq!['/'] + r);
    lemma_no_user_before(seq![], o, r);
    assert(owner_repo(s1, o, r));
    lemma_no_host(o, r);
    let (o1, r1) = choose|o1: Seq<char>, r1: Seq<char>| owner_repo(s1, o1, r1);
    lemma_owner_repo_unique(s1, o, r, o1, r1);

}

proof fn lemma_resolve_host(h: Seq<char>, o: Seq<char>, r: Seq<char>)
    requires
        is_host(h),
        is_part(o),
        is_part(r),
        free_of(h, '@'),
        free_of(o, ':'),
        !ends_with_git(r),
    ensures
        resolve(h + seq![':'] + o + seq!['/'] + r) == Some(
            ProjectView {
                host: h,
                owner: o,
                repository: r,
                protocol: Protocol::Ssh,
                user: Some(DEFAULT_USER@),
            },
        ),
        resolve(h + seq![':'] + o + seq!['/'] + r + git_suffix()) == resolve(
            h + seq![':'] + o + seq!['/'] + r,
        ),
{
    let s2 = h + seq![':'] + o + seq!['/'] + r;
    lemma_no_git_suffix(h + seq![':'] + o, r);
    lemma_strip_suffix(s2);
    assert(s2[(h.len() + 1 + o.len()) as int] == '/');
    assert(s2[h.len() as int] == ':');
    assert(s2[h.len() as int + o.len() + 2] == r[0]);
    assert forall|j: int| 0 <= j < h.len() + 1 + o.len() implies s2[j] != '/' by {
        if j < h.len() {
            assert(s2[j] == h[j]);
        } else if h.len() < j {
            assert(s2[j] == o[j - h.len() - 1]);
        }
    }
    lemma_not_https(s2, (h.len() + 1 + o.len()) as int);
    assert(s2 =~= h + seq![':'] + o + seq!['/'] + r);
    assert(free_of(h + seq![':'], '@') && free_of(h + seq![':'], '/'));
    lemma_no_user_before(h + seq![':'], o, r);
    assert(s2.subrange(0, h.len() as int + 1) =~= h + seq![':']);
    assert(s2.subrange(h.len() as int + 1, s2.len() as int) =~= o + seq!['/'] + r);
    assert(host_form(s2, h, ':', o, r));
    let (h2, p2, o2, r2) = choose|h2: Seq<char>, p2: char, o2: Seq<char>, r2: Seq<char>|
        host_form(s2, h2, p2, o2, r2);
    lemma_host_unique(s2, h, ':', o, r, h2, p2, o2, r2);

}

proof fn lemma_resolve_user_host(u: Seq<char>, h: Seq<char>, o: Seq<char>, r: Seq<char>)
    requires
        is_user(u),
        is_host(h),
        is_part(o),
        is_part(r),
        !ends_with_git(r),
    ensures
        resolve(u + seq!['@'] + h + seq![':'] + o + seq!['/'] + r) == Some(
            ProjectView { host: h, owner: o, repository: r, protocol: Protocol::Ssh, user: Some(u) },
        ),
        resolve(u + seq!['@'] + h + seq![':'] + o + seq!['/'] + r + git_suffix()) == resolve(
            u + seq!['@'] + h + seq![':'] + o + seq!['/'] + r,
        ),
{
    let s3 = u + seq!['@'] + h + seq![':'] + o + seq!['/'] + r;
    lemma_no_git_suffix(u + seq!['@'] + h + seq![':'] + o, r);
    lemma_strip_suffix(s3);
    assert(s3[u.len() as int] == '@');
    assert(s3[(u.len() + 1 + h.len() + 1 + o.len()) as int] == '/');
    assert forall|j: int| 0 <= j < u.len() + 1 + h.len() + 1 + o.len() implies s3[j] != '/' by {
        if j < u.len() {
            assert(s3[j] == u[j]);
        } else if u.len() < j < u.len() + 1 + h.len() {
            assert(s3[j] == h[j - u.len() - 1]);
        } else if u.len() + 1 + h.len() < j {
            assert(s3[j] == o[j - u.len() - 2 - h.len()]);
        }
    }
    assert forall|h9: Seq<char>, o9: Seq<char>, r9: Seq<char>| !https_form(s3, h9, o9, r9) by {
        if https_form(s3, h9, o9, r9) {
            let p = s3.subrange(0, 8);
            assert(p[6] == s3[6]);
            if u.len() < 8 {
                assert(p[u.len() as int] == s3[u.len() as int]);
            } else {
                assert(s3[6] == u[6]);
            }
        }
    }
    assert(s3.subrange(0, u.len() as int + 1) =~= u + seq!['@']);
    let s2 = h + seq![':'] + o + seq!['/'] + r;
    assert(s3.subrange(u.len() as int + 1, s3.len() as int) =~= s2);
    assert(s2.subrange(0, h.len() as int + 1) =~= h + seq![':']);
    assert(s2.subrange(h.len() as int + 1, s2.len() as int) =~= o + seq!['/'] + r);
    assert(user_host_form(s3, u, h, ':', o, r));
    let (u3, h3, p3, o3, r3) = choose|
        u3: Seq<char>,
        h3: Seq<char>,
        p3: char,
        o3: Seq<char>,
        r3: Seq<char>,
    | user_host_form(s3, u3, h3, p3, o3, r3);
    lemma_user_host_unique(s3, u, h, ':', o, r, u3, h3, p3, o3, r3);
}

/// Each of the SSH shapes of `owner/repo` (bare, with a host, with a user and a host, each
/// with or without a trailing `.git`) resolves over SSH to that owner and repository, with
/// the host `github.com` and the user `git` wherever the identifier leaves them out. This
/// holds where the host has no `@` (else its head reads as a user), the owner no `:` (else
/// its head reads as a host) and the repository does not itself end in `.git`.
pub proof fn lemma_resolve_ssh(u: Seq<char>, h: Seq<char>, o: Seq<char>, r: Seq<char>)
    requires
        is_user(u),
        is_host(h),
        is_part(o),
        is_part(r),
        free_of(h, '@'),
        free_of(o, ':'),
        !ends_with_git(r),
    ensures
        resolve(o + seq!['/'] + r) == Some(
            ProjectView {
                host: DEFAULT_HOST@,
                owner: o,
                repository: r,
                protocol: Protocol::Ssh,
                user: Some(DEFAULT_USER@),
            },
        ),
        resolve(o + seq!['/'] + r + git_suffix()) == resolve(o + seq!['/'] + r),
        resolve(h + seq![':'] + o + seq!['/'] + r) == Some(
            ProjectView {
                host: h,
                owner: o,
                repository: r,
                protocol: Protocol::Ssh,
                user: Some(DEFAULT_USER@),
            },
        ),
        resolve(h + seq![':'] + o + seq!['/'] + r + git_suffix()) == resolve(
            h + seq![':'] + o + seq!['/'] + r,
        ),
        resolve(u + seq!['@'] + h + seq![':'] + o + seq!['/'] + r) == Some(
            ProjectView { host: h, owner: o, repository: r, protocol: Protocol::Ssh, user: Some(u) },
        ),
        resolve(u + seq!['@'] + h + seq![':'] + o + seq!['/'] + r + git_suffix()) == resolve(
            u + seq!['@'] + h + seq![':'] + o + seq!['/'] + r,
        ),
{
    lemma_resolve_bare(o, r);
    lemma_resolve_host(h, o, r);
    lemma_resolve_user_host(u, h, o, r);
}

/// An identifier without `/` names no project.
pub proof fn lemma_resolve_needs_slash(raw: Seq<char>)
    requires
        free_of(raw, '/'),
    ensures
        resolve(raw) is None,
{
    let s = strip_git(raw);
    assert(free_of(s, '/')) by {
        if ends_with_git(raw) {
            assert forall|i: int| 0 <= i < s.len() implies s[i] != '/' by {
                assert(s[i] == raw[i]);
            }
        }
    }
    assert forall|o: Seq<char>, r: Seq<char>, t: Seq<char>|
        t.len() <= s.len() && t == s.subrange(s.len() - t.len(), s.len() as int) implies !owner_repo(
        t,
        o,
        r,
    ) by {
        if owner_repo(t, o, r) {
            assert(t[o.len() as int] == '/');
            assert(t[o.len() as int] == s[s.len() - t.len() + o.len()]);
        }
    }
    assert forall|h: Seq<char>, o: Seq<char>, r: Seq<char>| !https_form(s, h, o, r) by {
        if https_form(s, h, o, r) {
            assert(s.subrange(0, 8)[6] == s[6]);
        }
    }
    assert forall|h: Seq<char>, p: char, o: Seq<char>, r: Seq<char>| !host_form(s, h, p, o, r) by {
        if host_form(s, h, p, o, r) {
            let t = s.subrange(h.len() as int + 1, s.len() as int);
            assert(t =~= s.subrange(s.len() - t.len(), s.len() as int));
            assert(!owner_repo(t, o, r));
        }
    }
    assert(s.subrange(0, s.len() as int) =~= s);
    assert forall|o: Seq<char>, r: Seq<char>| !owner_repo(s, o, r) by {
        assert(s == s.subrange(s.len() - s.len(), s.len() as int));
    }
    assert forall|u: Seq<char>, h: Seq<char>, p: char, o: Seq<char>, r: Seq<char>|
        !user_host_form(s, u, h, p, o, r) by {
        if user_host_form(s, u, h, p, o, r) {
            let a = s.subrange(u.len() as int + 1, s.len() as int);
            let t = a.subrange(h.len() as int + 1, a.len() as int);
            assert(t =~= s.subrange(s.len() - t.len(), s.len() as int));
            assert(!owner_repo(t, o, r));
        }
    }
}

/// Within `root`, the local path is a function of host, owner and repository, and a change
/// to any one of them changes it.
pub proof fn lemma_local_path_injective(root: Seq<char>, a: ProjectView, b: ProjectView)
    requires
        a.wf(),
        b.wf(),
    ensures
        local_path(root, a) == local_path(root, b) <==> a.host == b.host && a.owner == b.owner
            && a.repository == b.repository,
{
    let ha = join_path(root, a.host);
    let hb = join_path(root, b.host);
    let oa = join_path(ha, a.owner);
    let ob = join_path(hb, b.owner);
    assert(ha.len() > 0 && ha.last() == a.host.last());
    assert(hb.len() > 0 && hb.last() == b.host.last());
    assert(a.host[a.host.len() - 1] != '/' && b.host[b.host.len() - 1] != '/');
    assert(oa == ha + seq!['/'] + a.owner);
    assert(ob == hb + seq!['/'] + b.owner);
    assert(oa.last() == a.owner.last() && ob.last() == b.owner.last());
    assert(a.owner[a.owner.len() - 1] != '/' && b.owner[b.owner.len() - 1] != '/');
    if local_path(root, a) == local_path(root, b) {
        lemma_split_last_unique(local_path(root, a), oa, a.repository, ob, b.repository, '/');
        lemma_split_last_unique(oa, ha, a.owner, hb, b.owner, '/');
        let k: int = if root.len() == 0 || root.last() == '/' {
            root.len() as int
        } else {
            root.len() as int + 1
        };
        assert(a.host =~= ha.subrange(k, ha.len() as int));
        assert(b.host =~= hb.subrange(k, hb.len() as int));
    }
}

/// A resolved identity has a non-empty host, owner and repository, none holding `/`.
pub proof fn lemma_resolve_wf(raw: Seq<char>)
    requires
        resolve(raw) is Some,
    ensures
        resolve(raw)->0.wf(),
{
    reveal_strlit("github.com");
    let s = strip_git(raw);
    if exists|h: Seq<char>, o: Seq<char>, r: Seq<char>| https_form(s, h, o, r) {
    } else if exists|u: Seq<char>, h: Seq<char>, p: char, o: Seq<char>, r: Seq<char>|
        user_host_form(s, u, h, p, o, r) {
    } else if exists|h: Seq<char>, p: char, o: Seq<char>, r: Seq<char>|
        host_form(s, h, p, o, r) {
    } else {
        assert(DEFAULT_HOST@ == "github.com"@);
    }
}

/// The repositories standing under the project root after one sync whose clone, if it makes
/// one, succeeds, and whether it cloned: it clones exactly where no repository stands at the
/// project's path yet, as `Project::clone_plan` decides.
pub open spec fn sync_once(present: Set<Seq<char>>, path: Seq<char>) -> (Set<Seq<char>>, bool) {
    if present.contains(path) {
        (present, false)
    } else {
        (present.insert(path), true)
    }
}

/// Syncing a project twice clones it at most once: the second sync finds the repository the
/// first one left and opens it, with no transfer and so no progress reports.
pub proof fn lemma_sync_idempotent(root: Seq<char>, p: ProjectView, present: Set<Seq<char>>)
    ensures
        ({
            let path = local_path(root, p);
            let (after, first) = sync_once(present, path);
            let (again, second) = sync_once(after, path);
            &&& first <==> !present.contains(path)
            &&& !second
            &&& again == after
            &&& after.contains(path)
        }),
{
}

/// The characters of `value` from `lo` to `hi`, as an owned string.
pub fn slice_of(value: &str, lo: usize, hi: usize) -> (r: String)
    requires
        lo <= hi <= value@.len(),
    ensures
        r@ == value@.subrange(lo as int, hi as int),
{
    value.substring_char(lo, hi).to_owned()
}

/// The characters of `value` once one trailing `.git` is taken off.
fn stripped_chars(value: &str) -> (v: Vec<char>)
    ensures
        v@ == strip_git(value@),
{
    let all = chars_of(value);
    let n = all.len();
    let end = if n >= 4 && all[n - 4] == '.' && all[n - 3] == 'g' && all[n - 2] == 'i' && all[n
        - 1] == 't' {
        assert(all@.subrange(n - 4, n as int) =~= git_suffix());
        n - 4
    } else {
        proof {
            if ends_with_git(value@) {
                let t = all@.subrange(n - 4, n as int);
                assert(t[0] == all@[n - 4] && t[1] == all@[n - 3]);
                assert(t[2] == all@[n - 2] && t[3] == all@[n - 1]);
            }
        }
        n
    };
    let mut v: Vec<char> = Vec::new();
    let mut i: usize = 0;
    while i < end
        invariant
            i <= end <= n,
            n == all@.len(),
            v@ == all@.subrange(0, i as int),
        decreases end - i,
    {
        v.push(all[i]);
        i = i + 1;
    }
    assert(v@ =~= all@.subrange(0, end as int));
    assert(all@.subrange(0, n as int) =~= all@);
    v
}

impl Project {
    /// Resolves a project identifier.
    ///
    /// Accepted over SSH: `owner/repo`, `host:owner/repo`, `user@host:owner/repo`, with `/`
    /// allowed in place of `:`, each with or without a trailing `.git`. Accepted over HTTPS:
    /// `https://host/owner/repo`, with or without a trailing `.git`.
    pub fn from(value: &str) -> (res: Result<Project, ParseError>)
        ensures
            match res {
                Ok(p) => resolve(value@) == Some(p@),
                Err(e) => resolve(value@) is None && match e {
                    ParseError::InvalidFormat(s) => s@ == value@,
                },
            },
    {
        let v = stripped_chars(value);
        let ghost s = v@;
        let n = v.len();
        assert(s.len() <= value@.len());
        assert(s =~= value@.subrange(0, n as int));
        if let Some((he, oe)) = match_https(&v) {
            let p = Project {
                host: slice_of(value, 8, he),
                owner: slice_of(value, he + 1, oe),
                protocol: Protocol::Https,
                repository: slice_of(value, oe + 1, n),
                user: None,
            };
            assert(p.host@ =~= s.subrange(8, he as int));
            assert(p.owner@ =~= s.subrange(he + 1, oe as int));
            assert(p.repository@ =~= s.subrange(oe + 1, n as int));
            return Ok(p);
        }
        if let Some((ue, he, k)) = match_user_host(&v) {
            let p = Project {
                host: slice_of(value, ue + 1, he),
                owner: slice_of(value, he + 1, k),
                protocol: Protocol::Ssh,
                repository: slice_of(value, k + 1, n),
                user: Some(slice_of(value, 0, ue)),
            };
            assert(p.host@ =~= s.subrange(ue + 1, he as int));
            assert(p.owner@ =~= s.subrange(he + 1, k as int));
            assert(p.repository@ =~= s.subrange(k + 1, n as int));
            assert(p.user.unwrap()@ =~= s.subrange(0, ue as int));
            return Ok(p);
        }
        if let Some((he, k)) = match_host(&v, 0) {
            assert(s.subrange(0, n as int) =~= s);
            let p = Project {
                host: slice_of(value, 0, he),
                owner: slice_of(value, he + 1, k),
                protocol: Protocol::Ssh,
                repository: slice_of(value, k + 1, n),
                user: Some(DEFAULT_USER.to_owned()),
            };
            assert(p.host@ =~= s.subrange(0, he as int));
            assert(p.owner@ =~= s.subrange(he + 1, k as int));
            assert(p.repository@ =~= s.subrange(k + 1, n as int));
            return Ok(p);
        }
        assert(s.subrange(0, n as int) =~= s);
        if let Some(k) = match_owner_repo(&v, 0, n) {
            let p = Project {
                host: DEFAULT_HOST.to_owned(),
                owner: slice_of(value, 0, k),
                protocol: Protocol::Ssh,
                repository: slice_of(value, k + 1, n),
                user: Some(DEFAULT_USER.to_owned()),
            };
            assert(p.owner@ =~= s.subrange(0, k as int));
            assert(p.repository@ =~= s.subrange(k + 1, n as int));
            return Ok(p);
        }
        Err(ParseError::InvalidFormat(value.to_owned()))
    }
}

impl Project {
    /// The transport by which the repository is reached.
    pub fn protocol(&self) -> (r: &Protocol)
        ensures
            *r == self@.protocol,
    {
        &self.protocol
    }

    /// The host name of the repository.
    pub fn host(&self) -> (r: &str)
        ensures
            r@ == self@.host,
    {
        self.host.as_str()
    }

    /// The user by which to connect to the remote repository; irrelevant over HTTPS.
    pub fn user(&self) -> (r: &str)
        ensures
            r@ == self@.connect_user(),
    {
        match &self.user {
            Some(u) => u.as_str(),
            None => DEFAULT_USER,
        }
    }

    /// The owner of the repository.
    pub fn owner(&self) -> (r: &str)
        ensures
            r@ == self@.owner,
    {
        self.owner.as_str()
    }

    /// The name of the repository.
    pub fn repository(&self) -> (r: &str)
        ensures
            r@ == self@.repository,
    {
        self.repository.as_str()
    }

    /// The URL by which to clone the project.
    pub fn url(&self) -> (r: String)
        ensures
            r@ == remote_url(self@),
    {
        match self.protocol {
            Protocol::Https => {
                let r = String::from_str("https://").concat(self.host.as_str()).concat("/").concat(
                    self.owner.as_str(),
                ).concat("/").concat(self.repository.as_str());
                r
            },
            Protocol::Ssh => {
                let r = String::from_str(self.user()).concat("@").concat(self.host.as_str()).concat(
                    ":",
                ).concat(self.owner.as_str()).concat("/").concat(self.repository.as_str());
                r
            },
        }
    }

    /// The directory of the project under the project root `root`.
    pub fn dir(&self, root: &str) -> (r: String)
        ensures
            r@ == local_path(root@, self@),
    {
        let base = join(String::from_str(root), self.host.as_str());
        let base = join(base, self.owner.as_str());
        join(base, self.repository.as_str())
    }

    /// The first step of synchronising the project under `root`: open the repository where
    /// one already stands at its directory, otherwise clone it there from its URL, over SSH
    /// with the agent's keys for the connecting user.
    pub fn clone_plan(&self, root: &str, repository_exists: bool) -> (r: SyncStep)
        ensures
            match r {
                SyncStep::Open { path } => repository_exists && path@ == local_path(root@, self@),
                SyncStep::Clone { url, path, ssh_user } => {
                    &&& !repository_exists
                    &&& url@ == remote_url(self@)
                    &&& path@ == local_path(root@, self@)
                    &&& match ssh_user {
                        Some(u) => self@.protocol == Protocol::Ssh && u@ == self@.connect_user(),
                        None => self@.protocol == Protocol::Https,
                    }
                },
            },
    {
        let path = self.dir(root);
        if repository_exists {
            SyncStep::Open { path }
        } else {
            let ssh_user = match self.protocol {
                Protocol::Https => None,
                Protocol::Ssh => Some(String::from_str(self.user())),
            };
            SyncStep::Clone { url: self.url(), path, ssh_user }
        }
    }
}

impl Project {
    /// The steps that install the layered hooks into the project's checkout under `root`.
    pub fn configure(&self, root: &str) -> (r: Vec<HookStep>)
        ensures
            r@.map_values(|s: HookStep| s@) == install_steps(local_path(root@, self@)),
    {
        let dir = self.dir(root);
        install_plan(dir.as_str())
    }
}

/// `part` appended to the path `base` as one more component.
pub fn join(base: String, part: &str) -> (r: String)
    ensures
        r@ == join_path(base@, part@),
{
    let n = base.as_str().unicode_len();
    if n == 0 || base.as_str().get_char(n - 1) == '/' {
        base.concat(part)
    } else {
        proof {
            reveal_strlit("/");
        }
        let r = base.concat("/").concat(part);
        assert(r@ =~= base@ + seq!['/'] + part@);
        r
    }
}

/// What synchronising a project starts with.
#[derive(Debug, Clone, PartialEq, Eq)]
pub enum SyncStep {
    /// A repository stands at `path` already: open it; nothing is transferred.
    Open { path: String },
    /// Clone `url` into `path`, authenticating as `ssh_user` through the SSH agent where
    /// one is given.
    Clone { url: String, path: String, ssh_user: Option<String> },
}

/// Why synchronising a project failed.
#[derive(Debug, Clone, PartialEq, Eq)]
pub enum SyncError {
    /// The clone did not complete; the transfer layer's message, trimmed.
    TransferFailed(String),
    /// The local repository could not be read or written.
    Io(String),
}

/// The error of a failed clone, from the message the transfer layer gave.
pub fn transfer_failed(message: &str) -> (r: SyncError)
    ensures
        match r {
            SyncError::TransferFailed(m) => exists|lo: int, hi: int|
                trimmed(message@, lo, hi) && m@ == message@.subrange(lo, hi),
            SyncError::Io(_) => false,
        },
{
    let v = chars_of(message);
    let (lo, hi) = trim_bounds(&v);
    let m = slice_of(message, lo, hi);
    SyncError::TransferFailed(m)
}

} // verus!
