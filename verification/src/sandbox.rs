//! Which directories a sandbox may read besides the project.
//!
//! Tool directories are read-only roots. One is refused where exposing it
//! would show the home directory or a directory of secrets.

use vstd::prelude::*;
use crate::text::{copy_texts, text_eq, texts};

verus! {

/// A path as the list of its components; an absolute path begins with the
/// component of the file system's root.
#[derive(Debug, PartialEq, Eq)]
pub struct PathParts {
    pub parts: Vec<Vec<u8>>,
}

impl View for PathParts {
    type V = Seq<Seq<u8>>;

    open spec fn view(&self) -> Seq<Seq<u8>> {
        self.parts@.map_values(|p: Vec<u8>| p@)
    }
}

/// The models of paths.
pub open spec fn path_views(s: Seq<PathParts>) -> Seq<Seq<Seq<u8>>> {
    s.map_values(|p: PathParts| p@)
}

/// Whether `a` is `b` or an ancestor of it.
pub open spec fn leads_to(a: Seq<Seq<u8>>, b: Seq<Seq<u8>>) -> bool {
    a.len() <= b.len() && b.take(a.len() as int) == a
}

/// Whether a root can be exposed: it is not the home directory or an ancestor
/// of it, it is no secret and lies in none, and no secret lies in it.
pub open spec fn is_safe(root: Seq<Seq<u8>>, home: Seq<Seq<u8>>, secrets: Seq<Seq<Seq<u8>>>) -> bool {
    &&& !leads_to(root, home)
    &&& forall|i: int|
        0 <= i < secrets.len() ==> !leads_to(#[trigger] secrets[i], root) && !leads_to(
            root,
            secrets[i],
        )
}

/// The paths, each where it occurs first.
pub open spec fn distinct(s: Seq<Seq<Seq<u8>>>) -> Seq<Seq<Seq<u8>>>
    decreases s.len(),
{
    if s.len() == 0 {
        Seq::empty()
    } else {
        let front = distinct(s.drop_last());
        if front.contains(s.last()) {
            front
        } else {
            front.push(s.last())
        }
    }
}

/// The safe ones of paths, in order.
pub open spec fn safe_only(
    s: Seq<Seq<Seq<u8>>>,
    home: Seq<Seq<u8>>,
    secrets: Seq<Seq<Seq<u8>>>,
) -> Seq<Seq<Seq<u8>>>
    decreases s.len(),
{
    if s.len() == 0 {
        Seq::empty()
    } else {
        let front = safe_only(s.drop_last(), home, secrets);
        if is_safe(s.last(), home, secrets) {
            front.push(s.last())
        } else {
            front
        }
    }
}

fn same_bytes(a: &Vec<u8>, b: &Vec<u8>) -> (r: bool)
    ensures
        r == (a@ == b@),
{
    if a.len() != b.len() {
        return false;
    }
    let mut i: usize = 0;
    while i < a.len()
        invariant
            i <= a@.len(),
            a@.len() == b@.len(),
            forall|k: int| 0 <= k < i ==> a@[k] == b@[k],
        decreases a@.len() - i,
    {
        if a[i] != b[i] {
            return false;
        }
        i = i + 1;
    }
    assert(a@ =~= b@);
    true
}

impl PathParts {
    /// Whether `self` is `other` or an ancestor of it.
    pub fn leads_to(&self, other: &PathParts) -> (r: bool)
        ensures
            r == leads_to(self@, other@),
    {
        if self.parts.len() > other.parts.len() {
            return false;
        }
        let mut i: usize = 0;
        while i < self.parts.len()
            invariant
                i <= self.parts@.len(),
                self.parts@.len() <= other.parts@.len(),
                forall|k: int| 0 <= k < i ==> self@[k] == other@[k],
            decreases self.parts@.len() - i,
        {
            assert(self@[i as int] == self.parts@[i as int]@);
            assert(other@[i as int] == other.parts@[i as int]@);
            if !same_bytes(&self.parts[i], &other.parts[i]) {
                assert(other@.take(self@.len() as int)[i as int] != self@[i as int]);
                return false;
            }
            i = i + 1;
        }
        assert(other@.take(self@.len() as int) =~= self@);
        true
    }

    /// Whether two paths are the same.
    pub fn same(&self, other: &PathParts) -> (r: bool)
        ensures
            r == (self@ == other@),
    {
        let r = self.parts.len() == other.parts.len() && self.leads_to(other);
        assert(self@.len() == self.parts@.len() && other@.len() == other.parts@.len());
        assert(other@.take(other@.len() as int) =~= other@);
        r
    }
}

/// The component that stands for the root of the file system.
pub open spec fn root_component() -> Seq<u8> {
    seq![47u8]
}

/// The directory that a path lies in: the path without its last component. The
/// root, and the path without components, lie in none.
pub open spec fn parent_of(p: Seq<Seq<u8>>) -> Option<Seq<Seq<u8>>> {
    if p.len() == 0 || p.last() == root_component() {
        None
    } else {
        Some(p.drop_last())
    }
}

impl PathParts {
    /// The directory that the path lies in.
    pub fn parent(self) -> (r: Option<PathParts>)
        ensures
            match r {
                Some(p) => parent_of(self@) == Some(p@),
                None => parent_of(self@) is None,
            },
    {
        let n: usize = self.parts.len();
        if n == 0 {
            return None;
        }
        let root: Vec<u8> = vec![47u8];
        assert(root@ =~= root_component());
        assert(self@.last() == self.parts@[n - 1]@);
        if same_bytes(&self.parts[n - 1], &root) {
            return None;
        }
        let mut parts = self.parts;
        parts.pop();
        let out = PathParts { parts };
        assert(out@ =~= self@.drop_last());
        Some(out)
    }
}

/// A path, and where it leads once links are followed, if that is known.
#[derive(Debug)]
pub struct Located {
    pub path: PathParts,
    pub canonical: Option<PathParts>,
}

/// Where a path leads, or else the path itself.
pub open spec fn place(l: Located) -> Seq<Seq<u8>> {
    match l.canonical {
        Some(c) => c@,
        None => l.path@,
    }
}

/// Where paths lead.
pub open spec fn places(s: Seq<Located>) -> Seq<Seq<Seq<u8>>> {
    s.map_values(|l: Located| place(l))
}

/// The paths that are there.
pub open spec fn present(s: Seq<Option<PathParts>>) -> Seq<Seq<Seq<u8>>>
    decreases s.len(),
{
    if s.len() == 0 {
        Seq::empty()
    } else {
        match s.last() {
            Some(p) => present(s.drop_last()).push(p@),
            None => present(s.drop_last()),
        }
    }
}

fn places_of(list: Vec<Located>) -> (r: Vec<PathParts>)
    ensures
        path_views(r@) == places(list@),
{
    let n: usize = list.len();
    let mut rest = list;
    let mut out: Vec<PathParts> = Vec::new();
    let mut i: usize = 0;
    while i < n
        invariant
            i <= n,
            n == list@.len(),
            rest@ == list@.skip(i as int),
            path_views(out@) == places(list@).take(i as int),
        decreases n - i,
    {
        let ghost before = path_views(out@);
        let l = rest.remove(0);
        assert(places(list@)[i as int] == place(l));
        let p = match l.canonical {
            Some(c) => c,
            None => l.path,
        };
        out.push(p);
        assert(path_views(out@) =~= before.push(p@));
        i = i + 1;
        assert(rest@ =~= list@.skip(i as int));
        assert(path_views(out@) =~= places(list@).take(i as int));
    }
    assert(places(list@).take(i as int) =~= places(list@));
    out
}

/// The paths that are there, in order.
pub fn present_paths(list: Vec<Option<PathParts>>) -> (r: Vec<PathParts>)
    ensures
        path_views(r@) == present(list@),
{
    let n: usize = list.len();
    let mut rest = list;
    let mut out: Vec<PathParts> = Vec::new();
    let mut i: usize = 0;
    assert(path_views(out@) =~= present(list@.take(0)));
    while i < n
        invariant
            i <= n,
            n == list@.len(),
            rest@ == list@.skip(i as int),
            path_views(out@) == present(list@.take(i as int)),
        decreases n - i,
    {
        let ghost before = path_views(out@);
        let ghost next = list@.take(i + 1);
        assert(next.drop_last() =~= list@.take(i as int));
        let entry = rest.remove(0);
        assert(next.last() == entry);
        match entry {
            Some(p) => {
                out.push(p);
                assert(path_views(out@) =~= before.push(p@));
            },
            None => {},
        }
        i = i + 1;
        assert(rest@ =~= list@.skip(i as int));
    }
    assert(list@.take(i as int) =~= list@);
    out
}

fn holds_path(list: &Vec<PathParts>, path: &PathParts) -> (r: bool)
    ensures
        r == path_views(list@).contains(path@),
{
    let ghost views = path_views(list@);
    let mut i: usize = 0;
    while i < list.len()
        invariant
            i <= list@.len(),
            views == path_views(list@),
            forall|k: int| 0 <= k < i ==> views[k] != path@,
        decreases list@.len() - i,
    {
        assert(views[i as int] == list@[i as int]@);
        if list[i].same(path) {
            return true;
        }
        i = i + 1;
    }
    false
}

fn safe_root(root: &PathParts, home: &PathParts, secrets: &Vec<PathParts>) -> (r: bool)
    ensures
        r == is_safe(root@, home@, path_views(secrets@)),
{
    if root.leads_to(home) {
        return false;
    }
    let ghost views = path_views(secrets@);
    let mut i: usize = 0;
    while i < secrets.len()
        invariant
            i <= secrets@.len(),
            views == path_views(secrets@),
            forall|k: int|
                0 <= k < i ==> !leads_to(#[trigger] views[k], root@) && !leads_to(root@, views[k]),
        decreases secrets@.len() - i,
    {
        assert(views[i as int] == secrets@[i as int]@);
        if secrets[i].leads_to(root) || root.leads_to(&secrets[i]) {
            return false;
        }
        i = i + 1;
    }
    true
}

/// The roots that a sandbox may read: of the candidates, each once and where
/// it occurs first, those that are safe.
pub fn select_tool_roots(candidates: Vec<PathParts>, home: &PathParts, secrets: &Vec<PathParts>) -> (r:
    Vec<PathParts>)
    ensures
        path_views(r@) == safe_only(
            distinct(path_views(candidates@)),
            home@,
            path_views(secrets@),
        ),
{
    let ghost cs = path_views(candidates@);
    let ghost ss = path_views(secrets@);
    let n: usize = candidates.len();
    let mut rest = candidates;
    let mut unique: Vec<PathParts> = Vec::new();
    let mut i: usize = 0;
    assert(path_views(unique@) =~= distinct(cs.take(0)));
    while i < n
        invariant
            i <= n,
            n == cs.len(),
            cs == path_views(candidates@),
            rest@ == candidates@.skip(i as int),
            path_views(unique@) == distinct(cs.take(i as int)),
        decreases n - i,
    {
        let ghost next = cs.take(i + 1);
        let ghost before = path_views(unique@);
        assert(next.drop_last() =~= cs.take(i as int));
        let c = rest.remove(0);
        assert(c == candidates@[i as int]);
        assert(next.last() == c@);
        if !holds_path(&unique, &c) {
            unique.push(c);
            assert(path_views(unique@) =~= before.push(c@));
        }
        i = i + 1;
        assert(rest@ =~= candidates@.skip(i as int));
    }
    assert(cs.take(i as int) =~= cs);
    let ghost us = path_views(unique@);
    let ghost list = unique@;
    let m: usize = unique.len();
    let mut out: Vec<PathParts> = Vec::new();
    let mut k: usize = 0;
    assert(path_views(out@) =~= safe_only(us.take(0), home@, ss));
    while k < m
        invariant
            k <= m,
            m == list.len(),
            us == path_views(list),
            ss == path_views(secrets@),
            unique@ == list.skip(k as int),
            path_views(out@) == safe_only(us.take(k as int), home@, ss),
        decreases m - k,
    {
        let ghost next = us.take(k + 1);
        let ghost before = path_views(out@);
        assert(next.drop_last() =~= us.take(k as int));
        let c = unique.remove(0);
        assert(c == list[k as int]);
        assert(next.last() == c@);
        if safe_root(&c, home, secrets) {
            out.push(c);
            assert(path_views(out@) =~= before.push(c@));
        }
        k = k + 1;
        assert(unique@ =~= list.skip(k as int));
    }
    assert(us.take(k as int) =~= us);
    out
}

/// The roots that a sandbox may read, of the directories around those on the
/// search path and of the tool directories that are there. Without a home
/// directory there are none.
pub fn resolve_tool_roots(
    home: Option<PathParts>,
    path_parents: Vec<Located>,
    known: Vec<Option<PathParts>>,
    secrets: Vec<Located>,
) -> (r: Vec<PathParts>)
    ensures
        match home {
            None => r@.len() == 0,
            Some(h) => path_views(r@) == safe_only(
                distinct(places(path_parents@) + present(known@)),
                h@,
                places(secrets@),
            ),
        },
{
    match home {
        None => Vec::new(),
        Some(h) => {
            let mut candidates = places_of(path_parents);
            let ghost first = candidates@;
            let mut tools = present_paths(known);
            let ghost second = tools@;
            candidates.append(&mut tools);
            assert(path_views(candidates@) =~= path_views(first) + path_views(second));
            let hidden = places_of(secrets);
            select_tool_roots(candidates, &h, &hidden)
        },
    }
}

/// No root shows the home directory, an ancestor of it, or a secret; and every
/// safe candidate is a root.
pub proof fn law_roots_are_the_safe_candidates(
    s: Seq<Seq<Seq<u8>>>,
    home: Seq<Seq<u8>>,
    secrets: Seq<Seq<Seq<u8>>>,
    p: Seq<Seq<u8>>,
)
    ensures
        safe_only(distinct(s), home, secrets).contains(p) <==> s.contains(p) && is_safe(
            p,
            home,
            secrets,
        ),
{
    lemma_distinct_holds(s, p);
    lemma_safe_only_holds(distinct(s), home, secrets, p);
}

/// No root is given twice.
pub proof fn law_roots_are_distinct(
    s: Seq<Seq<Seq<u8>>>,
    home: Seq<Seq<u8>>,
    secrets: Seq<Seq<Seq<u8>>>,
)
    ensures
        safe_only(distinct(s), home, secrets).no_duplicates(),
{
    lemma_distinct_no_duplicates(s);
    lemma_safe_only_no_duplicates(distinct(s), home, secrets);
}

proof fn lemma_push_contains(s: Seq<Seq<Seq<u8>>>, x: Seq<Seq<u8>>, p: Seq<Seq<u8>>)
    ensures
        s.push(x).contains(p) <==> s.contains(p) || p == x,
{
    if s.push(x).contains(p) {
        let i = choose|i: int| 0 <= i < s.push(x).len() && s.push(x)[i] == p;
        if i < s.len() {
            assert(s[i] == p);
        }
    }
    if s.contains(p) {
        let i = choose|i: int| 0 <= i < s.len() && s[i] == p;
        assert(s.push(x)[i] == p);
    }
    assert(s.push(x)[s.len() as int] == x);
}

proof fn lemma_distinct_holds(s: Seq<Seq<Seq<u8>>>, p: Seq<Seq<u8>>)
    ensures
        distinct(s).contains(p) <==> s.contains(p),
    decreases s.len(),
{
    if s.len() > 0 {
        lemma_distinct_holds(s.drop_last(), p);
        lemma_distinct_holds(s.drop_last(), s.last());
        lemma_push_contains(s.drop_last(), s.last(), p);
        assert(s.drop_last().push(s.last()) =~= s);
        lemma_push_contains(distinct(s.drop_last()), s.last(), p);
    }
}

proof fn lemma_safe_only_holds(
    s: Seq<Seq<Seq<u8>>>,
    home: Seq<Seq<u8>>,
    secrets: Seq<Seq<Seq<u8>>>,
    p: Seq<Seq<u8>>,
)
    ensures
        safe_only(s, home, secrets).contains(p) <==> s.contains(p) && is_safe(p, home, secrets),
    decreases s.len(),
{
    if s.len() > 0 {
        lemma_safe_only_holds(s.drop_last(), home, secrets, p);
        lemma_push_contains(s.drop_last(), s.last(), p);
        assert(s.drop_last().push(s.last()) =~= s);
        lemma_push_contains(safe_only(s.drop_last(), home, secrets), s.last(), p);
    }
}

proof fn lemma_distinct_no_duplicates(s: Seq<Seq<Seq<u8>>>)
    ensures
        distinct(s).no_duplicates(),
    decreases s.len(),
{
    if s.len() > 0 {
        lemma_distinct_no_duplicates(s.drop_last());
    }
}

proof fn lemma_safe_only_no_duplicates(
    s: Seq<Seq<Seq<u8>>>,
    home: Seq<Seq<u8>>,
    secrets: Seq<Seq<Seq<u8>>>,
)
    requires
        s.no_duplicates(),
    ensures
        safe_only(s, home, secrets).no_duplicates(),
    decreases s.len(),
{
    if s.len() > 0 {
        let front = s.drop_last();
        assert(front.no_duplicates());
        lemma_safe_only_no_duplicates(front, home, secrets);
        lemma_safe_only_holds(front, home, secrets, s.last());
        if front.contains(s.last()) {
            let i = choose|i: int| 0 <= i < front.len() && front[i] == s.last();
            assert(s[i] == s[s.len() - 1]);
        }
    }
}

/// The directories under the home directory that hold development tools.
pub fn known_tool_dirs() -> (r: Vec<&'static str>)
    ensures
        r@ == seq![
            ".cargo",
            ".rustup",
            ".local",
            ".nvm",
            ".nix-defexpr",
            ".pyenv",
            ".rbenv",
            ".goenv",
            ".deno",
            ".bun",
            ".config/git",
            ".cache/pip",
            ".cache/go-build",
            ".npm",
            "go/pkg/mod",
            ".gradle/caches",
        ],
{
    vec![
        ".cargo",
        ".rustup",
        ".local",
        ".nvm",
        ".nix-defexpr",
        ".pyenv",
        ".rbenv",
        ".goenv",
        ".deno",
        ".bun",
        ".config/git",
        ".cache/pip",
        ".cache/go-build",
        ".npm",
        "go/pkg/mod",
        ".gradle/caches",
    ]
}

/// The directories and files under the home directory that hold secrets.
pub fn secret_dirs() -> (r: Vec<&'static str>)
    ensures
        r@ == seq![
            ".ssh",
            ".gnupg",
            ".aws",
            ".config/gh",
            ".config/gcloud",
            ".kube",
            ".npmrc",
            ".pypirc",
            ".netrc",
        ],
{
    vec![
        ".ssh",
        ".gnupg",
        ".aws",
        ".config/gh",
        ".config/gcloud",
        ".kube",
        ".npmrc",
        ".pypirc",
        ".netrc",
    ]
}

/// The files under the home directory that hold no secrets and that common
/// tools need.
pub fn safe_home_config_files() -> (r: Vec<&'static str>)
    ensures
        r@ == seq![".gitconfig", ".gitignore_global"],
{
    vec![".gitconfig", ".gitignore_global"]
}

/// All secret names: the built-in ones, then those of the application.
pub fn all_secret_dirs(extra: &Vec<String>) -> (r: Vec<String>)
    ensures
        texts(r@) == seq![
            ".ssh"@,
            ".gnupg"@,
            ".aws"@,
            ".config/gh"@,
            ".config/gcloud"@,
            ".kube"@,
            ".npmrc"@,
            ".pypirc"@,
            ".netrc"@,
        ] + texts(extra@),
{
    let known = secret_dirs();
    let ghost built_in = known@.map_values(|s: &'static str| s@);
    let mut out: Vec<String> = Vec::new();
    let mut i: usize = 0;
    while i < known.len()
        invariant
            i <= known@.len(),
            built_in == known@.map_values(|s: &'static str| s@),
            texts(out@) == built_in.take(i as int),
        decreases known@.len() - i,
    {
        let ghost before = texts(out@);
        out.push(known[i].to_owned());
        i = i + 1;
        assert(texts(out@) =~= before.push(built_in[i - 1]));
        assert(texts(out@) =~= built_in.take(i as int));
    }
    assert(built_in.take(i as int) =~= built_in);
    assert(built_in =~= seq![
        ".ssh"@,
        ".gnupg"@,
        ".aws"@,
        ".config/gh"@,
        ".config/gcloud"@,
        ".kube"@,
        ".npmrc"@,
        ".pypirc"@,
        ".netrc"@,
    ]);
    let mut more = copy_texts(extra);
    let ghost added = more@;
    let ghost first = out@;
    out.append(&mut more);
    assert(texts(out@) =~= texts(first) + texts(added));
    out
}

/// The means by which an operating system isolates commands.
#[derive(Clone, Copy, Debug, PartialEq, Eq, Structural)]
pub enum Backend {
    Seatbelt,
    Bubblewrap,
}

/// The backend of an operating system, or the message that there is none.
pub fn backend_for(os: &str) -> (r: Result<Backend, String>)
    ensures
        match r {
            Ok(Backend::Seatbelt) => os@ == "macos"@,
            Ok(Backend::Bubblewrap) => os@ == "linux"@ && os@ != "macos"@,
            Err(m) => os@ != "macos"@ && os@ != "linux"@ && m@
                == "OS sandbox is not supported on this platform."@,
        },
{
    if text_eq(os, "macos") {
        Ok(Backend::Seatbelt)
    } else if text_eq(os, "linux") {
        Ok(Backend::Bubblewrap)
    } else {
        Err("OS sandbox is not supported on this platform.".to_owned())
    }
}

/// A path leads to another exactly where its components begin the other's.
pub proof fn law_leading_is_a_prefix(a: Seq<Seq<u8>>, b: Seq<Seq<u8>>)
    ensures
        leads_to(a, b) <==> a.is_prefix_of(b),
{
    if leads_to(a, b) {
        assert(b.subrange(0, a.len() as int) =~= b.take(a.len() as int));
    }
    if a.is_prefix_of(b) {
        assert(b.take(a.len() as int) =~= a);
    }
}

/// No root opens the home directory or anything above it, and none lies in a
/// secret place, is one or holds one.
pub proof fn law_roots_open_nothing_secret(
    s: Seq<Seq<Seq<u8>>>,
    home: Seq<Seq<u8>>,
    secrets: Seq<Seq<Seq<u8>>>,
    p: Seq<Seq<u8>>,
    secret: Seq<Seq<u8>>,
)
    requires
        safe_only(distinct(s), home, secrets).contains(p),
        secrets.contains(secret),
    ensures
        s.contains(p),
        !p.is_prefix_of(home),
        !secret.is_prefix_of(p),
        !p.is_prefix_of(secret),
{
    law_roots_are_the_safe_candidates(s, home, secrets, p);
    law_leading_is_a_prefix(p, home);
    law_leading_is_a_prefix(secret, p);
    law_leading_is_a_prefix(p, secret);
    let i = choose|i: int| 0 <= i < secrets.len() && secrets[i] == secret;
    assert(!leads_to(secrets[i], p) && !leads_to(p, secrets[i]));
}

/// The roots come in the order of the candidates: further candidates only add
/// roots behind those that were there.
pub proof fn law_roots_keep_the_order(
    a: Seq<Seq<Seq<u8>>>,
    b: Seq<Seq<Seq<u8>>>,
    home: Seq<Seq<u8>>,
    secrets: Seq<Seq<Seq<u8>>>,
)
    ensures
        safe_only(distinct(a), home, secrets).is_prefix_of(
            safe_only(distinct(a + b), home, secrets),
        ),
    decreases b.len(),
{
    if b.len() == 0 {
        assert(a + b =~= a);
    } else {
        law_roots_keep_the_order(a, b.drop_last(), home, secrets);
        assert((a + b).drop_last() =~= a + b.drop_last());
        let before = distinct(a + b.drop_last());
        if !before.contains(b.last()) {
            assert(before.push(b.last()).drop_last() =~= before);
        }
    }
}

/// The directory of a path is the path without its last component; the root
/// and the empty path have none.
pub proof fn law_parent_holds_the_path(p: Seq<Seq<u8>>)
    ensures
        parent_of(p) is None <==> p.len() == 0 || p.last() == seq![47u8],
        parent_of(p) is Some ==> parent_of(p)->0.push(p.last()) == p,
{
    if parent_of(p) is Some {
        assert(p.drop_last().push(p.last()) =~= p);
    }
}

/// The paths that are present are all of them, in order, and a path that was
/// resolved stands where it leads.
pub proof fn law_present_paths_are_kept(s: Seq<Option<PathParts>>, l: Located)
    ensures
        present(s) == s.filter(|p: Option<PathParts>| p is Some).map_values(
            |p: Option<PathParts>| p->0@,
        ),
        l.canonical is Some ==> place(l) == l.canonical->0@,
        l.canonical is None ==> place(l) == l.path@,
    decreases s.len(),
{
    reveal(Seq::filter);
    if s.len() > 0 {
        law_present_paths_are_kept(s.drop_last(), l);
    }
    assert(present(s) =~= s.filter(|p: Option<PathParts>| p is Some).map_values(
        |p: Option<PathParts>| p->0@,
    ));
}

} // verus!
