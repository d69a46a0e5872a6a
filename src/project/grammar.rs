//! The textual shapes of a project identifier, as sequences of characters.
use vstd::prelude::*;
use vstd::string::StrSliceExecFns;

verus! {

/// Unicode `White_Space` characters: none of them may stand inside an identifier segment.
pub open spec fn is_space(c: char) -> bool {
    c == ' ' || c == '\t' || c == '\n' || c == '\u{0B}' || c == '\u{0C}' || c == '\r'
        || c == '\u{85}' || c == '\u{A0}' || c == '\u{1680}' || ('\u{2000}' <= c
        && c <= '\u{200A}') || c == '\u{2028}' || c == '\u{2029}' || c == '\u{202F}'
        || c == '\u{205F}' || c == '\u{3000}'
}

/// `s` holds no occurrence of `c`.
pub open spec fn free_of(s: Seq<char>, c: char) -> bool {
    forall|i: int| 0 <= i < s.len() ==> s[i] != c
}

/// A non-empty run of characters without `/`, whitespace or `banned`.
pub open spec fn is_segment(s: Seq<char>, banned: char) -> bool {
    &&& s.len() > 0
    &&& free_of(s, banned)
    &&& free_of(s, '/')
    &&& forall|i: int| 0 <= i < s.len() ==> !is_space(#[trigger] s[i])
}

/// An owner, a repository, or the host of an explicit URL.
pub open spec fn is_part(s: Seq<char>) -> bool {
    is_segment(s, '/')
}

/// The connecting user of the SSH shape: no `@` in it.
pub open spec fn is_user(s: Seq<char>) -> bool {
    is_segment(s, '@')
}

/// The host of the SSH shape: no `:` in it.
pub open spec fn is_host(s: Seq<char>) -> bool {
    is_segment(s, ':')
}

/// What may separate the host from the owner in the SSH shape.
pub open spec fn is_separator(c: char) -> bool {
    c == ':' || c == '/'
}

pub open spec fn git_suffix() -> Seq<char> {
    seq!['.', 'g', 'i', 't']
}

pub open spec fn https_scheme() -> Seq<char> {
    seq!['h', 't', 't', 'p', 's', ':', '/', '/']
}

pub open spec fn ends_with_git(s: Seq<char>) -> bool {
    s.len() >= 4 && s.subrange(s.len() - 4, s.len() as int) == git_suffix()
}

/// The input with one trailing `.git` taken off, if it has one.
pub open spec fn strip_git(s: Seq<char>) -> Seq<char> {
    if ends_with_git(s) {
        s.subrange(0, s.len() - 4)
    } else {
        s
    }
}

/// `s` reads `<o>/<r>`.
pub open spec fn owner_repo(s: Seq<char>, o: Seq<char>, r: Seq<char>) -> bool {
    is_part(o) && is_part(r) && s == o + seq!['/'] + r
}

/// `s` reads `https://<h>/<o>/<r>`.
pub open spec fn https_form(s: Seq<char>, h: Seq<char>, o: Seq<char>, r: Seq<char>) -> bool {
    is_part(h) && s.len() >= 8 && s.subrange(0, 8) == https_scheme()
        && s.subrange(8, s.len() as int) == h + seq!['/'] + o + seq!['/'] + r && is_part(o)
        && is_part(r)
}

/// `s` reads `<h><sep><o>/<r>`.
pub open spec fn host_form(s: Seq<char>, h: Seq<char>, sep: char, o: Seq<char>, r: Seq<char>) -> bool {
    &&& is_host(h)
    &&& is_separator(sep)
    &&& s.len() >= h.len() + 1
    &&& s.subrange(0, h.len() as int + 1) == h + seq![sep]
    &&& owner_repo(s.subrange(h.len() as int + 1, s.len() as int), o, r)
}

/// `s` reads `<u>@<h><sep><o>/<r>`.
pub open spec fn user_host_form(
    s: Seq<char>,
    u: Seq<char>,
    h: Seq<char>,
    sep: char,
    o: Seq<char>,
    r: Seq<char>,
) -> bool {
    &&& is_user(u)
    &&& s.len() >= u.len() + 1
    &&& s.subrange(0, u.len() as int + 1) == u + seq!['@']
    &&& host_form(s.subrange(u.len() as int + 1, s.len() as int), h, sep, o, r)
}

/// A run `s[lo..i]` free of `c`, ended by `c` at `i` or by the end `hi`.
pub open spec fn first_of(s: Seq<char>, lo: int, hi: int, c: char, i: int) -> bool {
    &&& lo <= i <= hi
    &&& forall|j: int| lo <= j < i ==> s[j] != c
    &&& i < hi ==> s[i] == c
}

pub proof fn lemma_split_unique(s: Seq<char>, a1: Seq<char>, b1: Seq<char>, a2: Seq<char>, b2: Seq<char>, c: char)
    requires
        s == a1 + seq![c] + b1,
        s == a2 + seq![c] + b2,
        free_of(a1, c),
        free_of(a2, c),
    ensures
        a1 == a2,
        b1 == b2,
{
    if a1.len() < a2.len() {
        assert(s[a1.len() as int] == c);
        assert(s[a1.len() as int] == a2[a1.len() as int]);
    } else if a2.len() < a1.len() {
        assert(s[a2.len() as int] == c);
        assert(s[a2.len() as int] == a1[a2.len() as int]);
    }
    assert(a1 =~= s.subrange(0, a1.len() as int));
    assert(a2 =~= s.subrange(0, a2.len() as int));
    assert(b1 =~= s.subrange(a1.len() as int + 1, s.len() as int));
    assert(b2 =~= s.subrange(a2.len() as int + 1, s.len() as int));
}

/// Splitting at the last occurrence of `c` is unique.
pub proof fn lemma_split_last_unique(
    s: Seq<char>,
    a1: Seq<char>,
    b1: Seq<char>,
    a2: Seq<char>,
    b2: Seq<char>,
    c: char,
)
    requires
        s == a1 + seq![c] + b1,
        s == a2 + seq![c] + b2,
        free_of(b1, c),
        free_of(b2, c),
    ensures
        a1 == a2,
        b1 == b2,
{
    assert(s.len() == a1.len() + 1 + b1.len());
    assert(s.len() == a2.len() + 1 + b2.len());
    if a1.len() < a2.len() {
        assert(s[a2.len() as int] == c);
        assert(s[a2.len() as int] == b1[a2.len() - a1.len() - 1]);
    } else if a2.len() < a1.len() {
        assert(s[a1.len() as int] == c);
        assert(s[a1.len() as int] == b2[a1.len() - a2.len() - 1]);
    }
    assert(a1 =~= s.subrange(0, a1.len() as int));
    assert(a2 =~= s.subrange(0, a2.len() as int));
    assert(b1 =~= s.subrange(a1.len() as int + 1, s.len() as int));
    assert(b2 =~= s.subrange(a2.len() as int + 1, s.len() as int));
}

pub proof fn lemma_owner_repo_unique(s: Seq<char>, o1: Seq<char>, r1: Seq<char>, o2: Seq<char>, r2: Seq<char>)
    requires
        owner_repo(s, o1, r1),
        owner_repo(s, o2, r2),
    ensures
        o1 == o2,
        r1 == r2,
{
    lemma_split_unique(s, o1, r1, o2, r2, '/');
}


pub fn is_space_char(c: char) -> (b: bool)
    ensures
        b == is_space(c),
{
    c == ' ' || c == '\t' || c == '\n' || c == '\u{0B}' || c == '\u{0C}' || c == '\r'
        || c == '\u{85}' || c == '\u{A0}' || c == '\u{1680}' || ('\u{2000}' <= c
        && c <= '\u{200A}') || c == '\u{2028}' || c == '\u{2029}' || c == '\u{202F}'
        || c == '\u{205F}' || c == '\u{3000}'
}

/// The characters of `s`, one by one.
pub fn chars_of(s: &str) -> (v: Vec<char>)
    ensures
        v@ == s@,
{
    let n = s.unicode_len();
    let mut v: Vec<char> = Vec::new();
    let mut i: usize = 0;
    while i < n
        invariant
            i <= n,
            n == s@.len(),
            v@ == s@.subrange(0, i as int),
        decreases n - i,
    {
        v.push(s.get_char(i));
        i = i + 1;
    }
    assert(v@ =~= s@);
    v
}

/// The first occurrence of `c` in `v[lo..hi]`, or `hi` where there is none.
pub fn first_index(v: &Vec<char>, lo: usize, hi: usize, c: char) -> (i: usize)
    requires
        lo <= hi <= v@.len(),
    ensures
        first_of(v@, lo as int, hi as int, c, i as int),
{
    let mut i = lo;
    while i < hi
        invariant
            lo <= i <= hi,
            hi <= v@.len(),
            forall|j: int| lo <= j < i ==> v@[j] != c,
        decreases hi - i,
    {
        if v[i] == c {
            return i;
        }
        i = i + 1;
    }
    i
}

/// The first `:` or `/` in `v[lo..hi]`, or `hi` where there is none.
pub fn first_separator(v: &Vec<char>, lo: usize, hi: usize) -> (i: usize)
    requires
        lo <= hi <= v@.len(),
    ensures
        lo <= i <= hi,
        forall|j: int| lo <= j < i ==> !is_separator(#[trigger] v@[j]),
        i < hi ==> is_separator(v@[i as int]),
{
    let mut i = lo;
    while i < hi
        invariant
            lo <= i <= hi,
            hi <= v@.len(),
            forall|j: int| lo <= j < i ==> !is_separator(#[trigger] v@[j]),
        decreases hi - i,
    {
        if v[i] == ':' || v[i] == '/' {
            return i;
        }
        i = i + 1;
    }
    i
}

/// Whether `v[lo..hi]` is a segment that does not hold `banned`.
pub fn segment_ok(v: &Vec<char>, lo: usize, hi: usize, banned: char) -> (b: bool)
    requires
        lo <= hi <= v@.len(),
    ensures
        b == is_segment(v@.subrange(lo as int, hi as int), banned),
{
    let ghost sub = v@.subrange(lo as int, hi as int);
    if lo == hi {
        return false;
    }
    let mut i = lo;
    while i < hi
        invariant
            lo <= i <= hi,
            hi <= v@.len(),
            sub == v@.subrange(lo as int, hi as int),
            forall|j: int|
                0 <= j < i - lo ==> #[trigger] sub[j] != banned && sub[j] != '/' && !is_space(
                    sub[j],
                ),
        decreases hi - i,
    {
        let c = v[i];
        if c == banned || c == '/' || is_space_char(c) {
            assert(sub[i - lo] == c);
            return false;
        }
        i = i + 1;
    }
    true
}

pub proof fn lemma_https_unique(
    s: Seq<char>,
    h1: Seq<char>,
    o1: Seq<char>,
    r1: Seq<char>,
    h2: Seq<char>,
    o2: Seq<char>,
    r2: Seq<char>,
)
    requires
        https_form(s, h1, o1, r1),
        https_form(s, h2, o2, r2),
    ensures
        h1 == h2 && o1 == o2 && r1 == r2,
{
    let rest = s.subrange(8, s.len() as int);
    assert(rest =~= h1 + seq!['/'] + (o1 + seq!['/'] + r1));
    assert(rest =~= h2 + seq!['/'] + (o2 + seq!['/'] + r2));
    lemma_split_unique(rest, h1, o1 + seq!['/'] + r1, h2, o2 + seq!['/'] + r2, '/');
    lemma_owner_repo_unique(o1 + seq!['/'] + r1, o1, r1, o2, r2);
}

pub proof fn lemma_host_unique(
    s: Seq<char>,
    h1: Seq<char>,
    p1: char,
    o1: Seq<char>,
    r1: Seq<char>,
    h2: Seq<char>,
    p2: char,
    o2: Seq<char>,
    r2: Seq<char>,
)
    requires
        host_form(s, h1, p1, o1, r1),
        host_form(s, h2, p2, o2, r2),
    ensures
        h1 == h2 && p1 == p2 && o1 == o2 && r1 == r2,
{
    let a = s.subrange(0, h1.len() as int + 1);
    let b = s.subrange(0, h2.len() as int + 1);
    if h1.len() < h2.len() {
        assert(a[h1.len() as int] == s[h1.len() as int]);
        assert(b[h1.len() as int] == s[h1.len() as int]);
        assert(b[h1.len() as int] == h2[h1.len() as int]);
    } else if h2.len() < h1.len() {
        assert(b[h2.len() as int] == s[h2.len() as int]);
        assert(a[h2.len() as int] == s[h2.len() as int]);
        assert(a[h2.len() as int] == h1[h2.len() as int]);
    }
    assert(h1 =~= a.subrange(0, h1.len() as int));
    assert(h2 =~= b.subrange(0, h2.len() as int));
    assert(a[h1.len() as int] == p1);
    assert(b[h2.len() as int] == p2);
    lemma_owner_repo_unique(s.subrange(h1.len() as int + 1, s.len() as int), o1, r1, o2, r2);
}

pub proof fn lemma_user_host_unique(
    s: Seq<char>,
    u1: Seq<char>,
    h1: Seq<char>,
    p1: char,
    o1: Seq<char>,
    r1: Seq<char>,
    u2: Seq<char>,
    h2: Seq<char>,
    p2: char,
    o2: Seq<char>,
    r2: Seq<char>,
)
    requires
        user_host_form(s, u1, h1, p1, o1, r1),
        user_host_form(s, u2, h2, p2, o2, r2),
    ensures
        u1 == u2 && h1 == h2 && p1 == p2 && o1 == o2 && r1 == r2,
{
    let a = s.subrange(0, u1.len() as int + 1);
    let b = s.subrange(0, u2.len() as int + 1);
    if u1.len() < u2.len() {
        assert(a[u1.len() as int] == s[u1.len() as int]);
        assert(b[u1.len() as int] == s[u1.len() as int]);
        assert(b[u1.len() as int] == u2[u1.len() as int]);
    } else if u2.len() < u1.len() {
        assert(b[u2.len() as int] == s[u2.len() as int]);
        assert(a[u2.len() as int] == s[u2.len() as int]);
        assert(a[u2.len() as int] == u1[u2.len() as int]);
    }
    assert(u1 =~= a.subrange(0, u1.len() as int));
    assert(u2 =~= b.subrange(0, u2.len() as int));
    lemma_host_unique(
        s.subrange(u1.len() as int + 1, s.len() as int),
        h1,
        p1,
        o1,
        r1,
        h2,
        p2,
        o2,
        r2,
    );
}

/// `<x><o>/<r>` has no user part where `x` holds no `@` and no `/`, `o` no `:` and no `/`, and
/// `r` no `/`: the first `@` would fall in `o`, leaving one `/` for two, or after the `/`.
pub proof fn lemma_no_user_before(x: Seq<char>, o: Seq<char>, r: Seq<char>)
    requires
        free_of(x, '@'),
        free_of(x, '/'),
        free_of(o, ':'),
        free_of(o, '/'),
        free_of(r, '/'),
    ensures
        forall|u: Seq<char>, h: Seq<char>, p: char, o2: Seq<char>, r2: Seq<char>|
            !user_host_form(x + o + seq!['/'] + r, u, h, p, o2, r2),
{
    let s = x + o + seq!['/'] + r;
    let b: int = x.len() as int + o.len();
    assert(s[b] == '/');
    assert forall|u: Seq<char>, h: Seq<char>, p: char, o2: Seq<char>, r2: Seq<char>|
        !user_host_form(s, u, h, p, o2, r2) by {
        if user_host_form(s, u, h, p, o2, r2) {
            let a: int = u.len() as int;
            let pre = s.subrange(0, a + 1);
            assert(pre[a] == '@');
            assert(s[a] == pre[a]);
            if a < x.len() {
                assert(s[a] == x[a]);
            }
            if a > b {
                assert(pre[b] == s[b]);
                assert(pre[b] == u[b]);
            }
            assert(a < b);
            let rest = s.subrange(a + 1, s.len() as int);
            let hp = rest.subrange(0, h.len() as int + 1);
            assert(hp[h.len() as int] == p);
            assert(rest[h.len() as int] == hp[h.len() as int]);
            let c: int = a + 1 + h.len() as int;
            assert(s[c] == rest[h.len() as int]);
            if c < b {
                assert(s[c] == o[c - x.len()]);
            }
            if c > b {
                assert(rest[b - a - 1] == s[b]);
                assert(hp[b - a - 1] == rest[b - a - 1]);
                assert(hp[b - a - 1] == h[b - a - 1]);
            }
            assert(c == b);
            let tail = rest.subrange(h.len() as int + 1, rest.len() as int);
            assert(s.len() == b + 1 + r.len());
            assert(tail.len() == o2.len() + 1 + r2.len());
            assert(tail.len() == r.len());
            assert(tail[o2.len() as int] == '/');
            assert(tail[o2.len() as int] == s[b + 1 + o2.len()]);
            assert(s[b + 1 + o2.len()] == r[o2.len() as int]);
        }
    }
}

/// `<o>/<r>` with no `:` in `o` has no host part.
pub proof fn lemma_no_host(o: Seq<char>, r: Seq<char>)
    requires
        owner_repo(o + seq!['/'] + r, o, r),
        free_of(o, ':'),
    ensures
        forall|h: Seq<char>, p: char, o2: Seq<char>, r2: Seq<char>|
            !host_form(o + seq!['/'] + r, h, p, o2, r2),
{
    let s = o + seq!['/'] + r;
    assert forall|h: Seq<char>, p: char, o2: Seq<char>, r2: Seq<char>|
        !host_form(s, h, p, o2, r2) by {
        if host_form(s, h, p, o2, r2) {
            let a = s.subrange(0, h.len() as int + 1);
            if h.len() < o.len() {
                assert(a[h.len() as int] == s[h.len() as int]);
                assert(s[h.len() as int] == o[h.len() as int]);
            } else if h.len() > o.len() {
                assert(a[o.len() as int] == s[o.len() as int]);
                assert(a[o.len() as int] == h[o.len() as int]);
            }
            assert(h.len() == o.len());
            let rest = s.subrange(h.len() as int + 1, s.len() as int);
            assert(rest =~= r);
            assert(rest[o2.len() as int] == '/');
        }
    }
}

/// A string whose first `/` is not doubled is not of the HTTPS shape.
pub proof fn lemma_not_https(s: Seq<char>, k: int)
    requires
        0 <= k < s.len(),
        s[k] == '/',
        k + 1 < s.len() ==> s[k + 1] != '/',
        forall|j: int| 0 <= j < k ==> s[j] != '/',
    ensures
        forall|h: Seq<char>, o: Seq<char>, r: Seq<char>| !https_form(s, h, o, r),
{
    assert forall|h: Seq<char>, o: Seq<char>, r: Seq<char>| !https_form(s, h, o, r) by {
        if https_form(s, h, o, r) {
            let p = s.subrange(0, 8);
            assert(p[6] == s[6]);
            assert(p[7] == s[7]);
            if k < 6 {
                assert(p[k] == s[k]);
            }
        }
    }
}

/// `x/r` ends in `.git` only where `r` does.
pub proof fn lemma_no_git_suffix(x: Seq<char>, r: Seq<char>)
    requires
        !ends_with_git(r),
    ensures
        !ends_with_git(x + seq!['/'] + r),
{
    let s = x + seq!['/'] + r;
    if ends_with_git(s) {
        let t = s.subrange(s.len() - 4, s.len() as int);
        if r.len() >= 4 {
            assert(r.subrange(r.len() - 4, r.len() as int) =~= t);
        } else {
            let j = 3 - r.len();
            assert(t[j] == s[s.len() - 4 + j]);
            assert(s[x.len() as int] == '/');
        }
    }
}

/// One `.git` put on and taken off again.
pub proof fn lemma_strip_suffix(s: Seq<char>)
    ensures
        strip_git(s + git_suffix()) == s,
{
    let t = s + git_suffix();
    assert(t.subrange(t.len() - 4, t.len() as int) =~= git_suffix());
    assert(t.subrange(0, t.len() - 4) =~= s);
}

/// Where `v[lo..hi]` reads `<owner>/<repository>`, the position of its slash.
pub fn match_owner_repo(v: &Vec<char>, lo: usize, hi: usize) -> (res: Option<usize>)
    requires
        lo <= hi <= v@.len(),
    ensures
        match res {
            Some(k) => {
                &&& lo <= k < hi
                &&& owner_repo(
                    v@.subrange(lo as int, hi as int),
                    v@.subrange(lo as int, k as int),
                    v@.subrange(k + 1, hi as int),
                )
                &&& forall|o: Seq<char>, r: Seq<char>|
                    owner_repo(v@.subrange(lo as int, hi as int), o, r) ==> o == v@.subrange(
                        lo as int,
                        k as int,
                    ) && r == v@.subrange(k + 1, hi as int)
            },
            None => forall|o: Seq<char>, r: Seq<char>|
                !owner_repo(v@.subrange(lo as int, hi as int), o, r),
        },
{
    let ghost s = v@.subrange(lo as int, hi as int);
    let k = first_index(v, lo, hi, '/');
    if k < hi && segment_ok(v, lo, k, '/') && segment_ok(v, k + 1, hi, '/') {
        let ghost o = v@.subrange(lo as int, k as int);
        let ghost r = v@.subrange(k + 1, hi as int);
        assert(s =~= o + seq!['/'] + r);
        assert forall|o2: Seq<char>, r2: Seq<char>| owner_repo(s, o2, r2) implies o2 == o && r2
            == r by {
            lemma_owner_repo_unique(s, o2, r2, o, r);
        }
        Some(k)
    } else {
        assert forall|o: Seq<char>, r: Seq<char>| !owner_repo(s, o, r) by {
            if owner_repo(s, o, r) {
                let m: int = lo + o.len();
                assert(s.len() == hi - lo);
                assert(s.len() == o.len() + 1 + r.len());
                assert(s[o.len() as int] == '/');
                assert(v@[m] == s[o.len() as int]);
                if k < m {
                    assert(v@[k as int] == s[k - lo]);
                    assert(s[k - lo] == o[k - lo]);
                }
                assert(k == m);
                assert(v@.subrange(lo as int, k as int) =~= o);
                assert forall|j: int| 0 <= j < r.len() implies v@.subrange(k + 1, hi as int)[j] == r[j] by {
                    assert(s[o.len() + 1 + j] == r[j]);
                }
                assert(v@.subrange(k + 1, hi as int) =~= r);
            }
        }
        None
    }
}


/// Where `v` reads `https://<h>/<o>/<r>`, the ends of its host and of its owner.
pub fn match_https(v: &Vec<char>) -> (res: Option<(usize, usize)>)
    ensures
        match res {
            Some((he, oe)) => {
                &&& 8 <= he < oe < v@.len()
                &&& https_form(
                    v@,
                    v@.subrange(8, he as int),
                    v@.subrange(he + 1, oe as int),
                    v@.subrange(oe + 1, v@.len() as int),
                )
                &&& forall|h: Seq<char>, o: Seq<char>, r: Seq<char>|
                    https_form(v@, h, o, r) ==> h == v@.subrange(8, he as int) && o == v@.subrange(
                        he + 1,
                        oe as int,
                    ) && r == v@.subrange(oe + 1, v@.len() as int)
            },
            None => forall|h: Seq<char>, o: Seq<char>, r: Seq<char>| !https_form(v@, h, o, r),
        },
{
    let n = v.len();
    if n < 8 || !(v[0] == 'h' && v[1] == 't' && v[2] == 't' && v[3] == 'p' && v[4] == 's' && v[5]
        == ':' && v[6] == '/' && v[7] == '/') {
        assert forall|h: Seq<char>, o: Seq<char>, r: Seq<char>| !https_form(v@, h, o, r) by {
            if https_form(v@, h, o, r) {
                let p = v@.subrange(0, 8);
                assert(p[0] == v@[0] && p[1] == v@[1] && p[2] == v@[2] && p[3] == v@[3]);
                assert(p[4] == v@[4] && p[5] == v@[5] && p[6] == v@[6] && p[7] == v@[7]);
            }
        }
        return None;
    }
    assert(v@.subrange(0, 8) =~= https_scheme());
    let ghost rest = v@.subrange(8, n as int);
    let he = first_index(v, 8, n, '/');
    if he < n && segment_ok(v, 8, he, '/') {
        let ghost h = v@.subrange(8, he as int);
        assert(rest =~= h + seq!['/'] + v@.subrange(he + 1, n as int));
        match match_owner_repo(v, he + 1, n) {
            Some(oe) => {
                assert(rest =~= h + seq!['/'] + v@.subrange(he + 1, oe as int) + seq!['/']
                    + v@.subrange(oe + 1, n as int));
                assert forall|h2: Seq<char>, o2: Seq<char>, r2: Seq<char>|
                    https_form(v@, h2, o2, r2) implies h2 == h && o2 == v@.subrange(
                    he + 1,
                    oe as int,
                ) && r2 == v@.subrange(oe + 1, n as int) by {
                    assert(rest =~= h2 + seq!['/'] + (o2 + seq!['/'] + r2));
                    lemma_split_unique(
                        rest,
                        h2,
                        o2 + seq!['/'] + r2,
                        h,
                        v@.subrange(he + 1, n as int),
                        '/',
                    );
                    assert(owner_repo(v@.subrange(he + 1, n as int), o2, r2));
                }
                return Some((he, oe));
            },
            None => {
                assert forall|h2: Seq<char>, o2: Seq<char>, r2: Seq<char>|
                    !https_form(v@, h2, o2, r2) by {
                    if https_form(v@, h2, o2, r2) {
                        assert(rest =~= h2 + seq!['/'] + (o2 + seq!['/'] + r2));
                        lemma_split_unique(
                            rest,
                            h2,
                            o2 + seq!['/'] + r2,
                            h,
                            v@.subrange(he + 1, n as int),
                            '/',
                        );
                        assert(owner_repo(v@.subrange(he + 1, n as int), o2, r2));
                    }
                }
                return None;
            },
        }
    }
    assert forall|h: Seq<char>, o: Seq<char>, r: Seq<char>| !https_form(v@, h, o, r) by {
        if https_form(v@, h, o, r) {
            let m: int = 8 + h.len() as int;
            assert(rest =~= h + seq!['/'] + (o + seq!['/'] + r));
            assert(rest[h.len() as int] == '/');
            assert(v@[m] == rest[h.len() as int]);
            if he < m {
                assert(v@[he as int] == rest[he - 8]);
                assert(rest[he - 8] == h[he - 8]);
            }
            assert(he == m);
            assert(v@.subrange(8, he as int) =~= h);
        }
    }
    None
}


/// Where `v[lo..]` reads `<h><sep><o>/<r>`, the end of its host and the position of the slash.
pub fn match_host(v: &Vec<char>, lo: usize) -> (res: Option<(usize, usize)>)
    requires
        lo <= v@.len(),
    ensures
        match res {
            Some((he, k)) => {
                &&& lo <= he < k < v@.len()
                &&& host_form(
                    v@.subrange(lo as int, v@.len() as int),
                    v@.subrange(lo as int, he as int),
                    v@[he as int],
                    v@.subrange(he + 1, k as int),
                    v@.subrange(k + 1, v@.len() as int),
                )
                &&& forall|h: Seq<char>, sep: char, o: Seq<char>, r: Seq<char>|
                    host_form(v@.subrange(lo as int, v@.len() as int), h, sep, o, r) ==> h
                        == v@.subrange(lo as int, he as int) && sep == v@[he as int] && o
                        == v@.subrange(he + 1, k as int) && r == v@.subrange(k + 1, v@.len() as int)
            },
            None => forall|h: Seq<char>, sep: char, o: Seq<char>, r: Seq<char>|
                !host_form(v@.subrange(lo as int, v@.len() as int), h, sep, o, r),
        },
{
    let n = v.len();
    let ghost s = v@.subrange(lo as int, n as int);
    let he = first_separator(v, lo, n);
    let ghost located = forall|h: Seq<char>, sep: char, o: Seq<char>, r: Seq<char>|
        host_form(s, h, sep, o, r) ==> he == lo + h.len() && h == v@.subrange(lo as int, he as int)
            && sep == v@[he as int];
    assert(located) by {
        assert forall|h: Seq<char>, sep: char, o: Seq<char>, r: Seq<char>|
            host_form(s, h, sep, o, r) implies he == lo + h.len() && h == v@.subrange(
            lo as int,
            he as int,
        ) && sep == v@[he as int] by {
            let m: int = lo + h.len() as int;
            let p = s.subrange(0, h.len() as int + 1);
            assert(p[h.len() as int] == sep);
            assert(v@[m] == p[h.len() as int]);
            if he < m {
                assert(v@[he as int] == p[he - lo]);
                assert(p[he - lo] == h[he - lo]);
            }
            assert(he == m);
            assert forall|j: int| 0 <= j < h.len() implies v@.subrange(lo as int, he as int)[j]
                == h[j] by {
                assert(p[j] == h[j]);
            }
            assert(v@.subrange(lo as int, he as int) =~= h);
        }
    }
    if he < n && segment_ok(v, lo, he, ':') {
        let ghost h = v@.subrange(lo as int, he as int);
        assert(s.subrange(0, h.len() as int + 1) =~= h + seq![v@[he as int]]);
        assert(s.subrange(h.len() as int + 1, s.len() as int) =~= v@.subrange(he + 1, n as int));
        match match_owner_repo(v, he + 1, n) {
            Some(k) => {
                assert forall|h2: Seq<char>, sep2: char, o2: Seq<char>, r2: Seq<char>|
                    host_form(s, h2, sep2, o2, r2) implies h2 == h && sep2 == v@[he as int] && o2
                    == v@.subrange(he + 1, k as int) && r2 == v@.subrange(k + 1, n as int) by {
                    assert(owner_repo(v@.subrange(he + 1, n as int), o2, r2));
                }
                return Some((he, k));
            },
            None => {
                assert forall|h2: Seq<char>, sep2: char, o2: Seq<char>, r2: Seq<char>|
                    !host_form(s, h2, sep2, o2, r2) by {
                    if host_form(s, h2, sep2, o2, r2) {
                        assert(owner_repo(v@.subrange(he + 1, n as int), o2, r2));
                    }
                }
                return None;
            },
        }
    }
    None
}

/// Where `v` reads `<u>@<h><sep><o>/<r>`, the end of its user, the end of its host and the
/// position of the slash.
pub fn match_user_host(v: &Vec<char>) -> (res: Option<(usize, usize, usize)>)
    ensures
        match res {
            Some((ue, he, k)) => {
                &&& ue < he < k < v@.len()
                &&& user_host_form(
                    v@,
                    v@.subrange(0, ue as int),
                    v@.subrange(ue + 1, he as int),
                    v@[he as int],
                    v@.subrange(he + 1, k as int),
                    v@.subrange(k + 1, v@.len() as int),
                )
                &&& forall|u: Seq<char>, h: Seq<char>, sep: char, o: Seq<char>, r: Seq<char>|
                    user_host_form(v@, u, h, sep, o, r) ==> u == v@.subrange(0, ue as int) && h
                        == v@.subrange(ue + 1, he as int) && sep == v@[he as int] && o
                        == v@.subrange(he + 1, k as int) && r == v@.subrange(k + 1, v@.len() as int)
            },
            None => forall|u: Seq<char>, h: Seq<char>, sep: char, o: Seq<char>, r: Seq<char>|
                !user_host_form(v@, u, h, sep, o, r),
        },
{
    let n = v.len();
    let ue = first_index(v, 0, n, '@');
    let ghost located = forall|u: Seq<char>, h: Seq<char>, sep: char, o: Seq<char>, r: Seq<char>|
        user_host_form(v@, u, h, sep, o, r) ==> ue == u.len() && u == v@.subrange(0, ue as int);
    assert(located) by {
        assert forall|u: Seq<char>, h: Seq<char>, sep: char, o: Seq<char>, r: Seq<char>|
            user_host_form(v@, u, h, sep, o, r) implies ue == u.len() && u == v@.subrange(
            0,
            ue as int,
        ) by {
            let p = v@.subrange(0, u.len() as int + 1);
            assert(p[u.len() as int] == '@');
            if ue < u.len() {
                assert(v@[ue as int] == p[ue as int]);
                assert(p[ue as int] == u[ue as int]);
            }
            assert(ue == u.len());
            assert forall|j: int| 0 <= j < u.len() implies v@.subrange(0, ue as int)[j]
                == u[j] by {
                assert(p[j] == u[j]);
            }
            assert(v@.subrange(0, ue as int) =~= u);
        }
    }
    if ue < n && segment_ok(v, 0, ue, '@') {
        let ghost u = v@.subrange(0, ue as int);
        assert(v@.subrange(0, u.len() as int + 1) =~= u + seq!['@']);
        match match_host(v, ue + 1) {
            Some((he, k)) => {
                return Some((ue, he, k));
            },
            None => {
                return None;
            },
        }
    }
    None
}

/// `s[lo..hi]` is `s` without its leading and trailing whitespace.
pub open spec fn trimmed(s: Seq<char>, lo: int, hi: int) -> bool {
    &&& 0 <= lo <= hi <= s.len()
    &&& forall|i: int| 0 <= i < lo ==> is_space(#[trigger] s[i])
    &&& forall|i: int| hi <= i < s.len() ==> is_space(#[trigger] s[i])
    &&& lo < hi ==> !is_space(s[lo]) && !is_space(s[hi - 1])
}

/// The bounds of `v` without its leading and trailing whitespace.
pub fn trim_bounds(v: &Vec<char>) -> (r: (usize, usize))
    ensures
        trimmed(v@, r.0 as int, r.1 as int),
{
    let n = v.len();
    let mut lo: usize = 0;
    while lo < n && is_space_char(v[lo])
        invariant
            lo <= n,
            n == v@.len(),
            forall|i: int| 0 <= i < lo ==> is_space(#[trigger] v@[i]),
        decreases n - lo,
    {
        lo = lo + 1;
    }
    let mut hi: usize = n;
    while hi > lo && is_space_char(v[hi - 1])
        invariant
            lo <= hi <= n,
            n == v@.len(),
            forall|i: int| hi <= i < n ==> is_space(#[trigger] v@[i]),
        decreases hi,
    {
        hi = hi - 1;
    }
    (lo, hi)
}

} // verus!
