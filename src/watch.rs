//! Which file-system changes the incremental indexer hears about.
//!
//! The watcher itself (the OS notification and its debouncing) runs around
//! the library; here are the decisions on each reported change: whether
//! its path is ignored, and which event it becomes.
use vstd::prelude::*;
use crate::database::last_component;
use crate::text::str_equal;

verus! {

/// A change the indexer acts on.
pub enum FileEvent {
    /// The file was created or modified.
    Modified(String),
    /// The file was deleted.
    Deleted(String),
    /// The file was renamed (from, to).
    Renamed(String, String),
}

/// What the operating system reported for a path.
#[derive(Debug, Clone, Copy, PartialEq, Eq, Structural)]
pub enum ChangeKind {
    Created,
    Modified,
    Removed,
    Other,
}

/// One reported change: its kind, its path, and whether the path exists now.
pub struct RawChange {
    pub kind: ChangeKind,
    pub path: String,
    pub exists: bool,
}

/// `p` ends with `suffix`.
pub open spec fn ends_with(p: Seq<char>, suffix: Seq<char>) -> bool {
    suffix.len() <= p.len() && p.subrange(p.len() - suffix.len(), p.len() as int) == suffix
}

/// `pat` occurs in `p`.
pub open spec fn occurs_in(p: Seq<char>, pat: Seq<char>) -> bool {
    exists|i: int| 0 <= i && i + pat.len() <= p.len() && #[trigger] p.subrange(i, i + pat.len()) == pat
}

/// A pattern `*ext` matches paths ending in `ext`; any other pattern
/// matches paths that contain it.
pub open spec fn pattern_matches(p: Seq<char>, pat: Seq<char>) -> bool {
    if pat.len() > 0 && pat[0] == '*' {
        ends_with(p, pat.drop_first())
    } else {
        occurs_in(p, pat)
    }
}

/// A path is ignored unless its file name is `.gitignore`, when a pattern
/// matches it or its file name is hidden.
pub open spec fn ignored(p: Seq<char>, pats: Seq<String>) -> bool {
    let name = last_component(p);
    name != ".gitignore"@ && ((exists|i: int| 0 <= i < pats.len() && pattern_matches(p, #[trigger] pats[i]@))
        || (name.len() > 0 && name[0] == '.'))
}

/// Whether `s[from..from + pat.len()]` is `pat`.
fn matches_at(s: &str, n: usize, pat: &str, m: usize, from: usize) -> (r: bool)
    requires
        n == s@.len(),
        m == pat@.len(),
        from + m <= n,
    ensures
        r == (s@.subrange(from as int, from + m) == pat@),
{
    let mut k: usize = 0;
    while k < m
        invariant
            n == s@.len(),
            m == pat@.len(),
            from + m <= n,
            k <= m,
            forall|j: int| 0 <= j < k ==> s@[from + j] == pat@[j],
        decreases m - k,
    {
        if s.get_char(from + k) != pat.get_char(k) {
            proof {
                assert(s@.subrange(from as int, from + m)[k as int] != pat@[k as int]);
            }
            return false;
        }
        k = k + 1;
    }
    proof {
        assert(s@.subrange(from as int, from + m) =~= pat@);
    }
    true
}

/// Whether `pat` occurs in `s`.
pub fn contains_str(s: &str, pat: &str) -> (r: bool)
    ensures
        r == occurs_in(s@, pat@),
{
    let n = s.unicode_len();
    let m = pat.unicode_len();
    if m > n {
        return false;
    }
    let mut i: usize = 0;
    loop
        invariant
            n == s@.len(),
            m == pat@.len(),
            m <= n,
            i <= n - m,
            forall|j: int| 0 <= j < i ==> #[trigger] s@.subrange(j, j + m) != pat@,
        decreases n - m - i,
    {
        if matches_at(s, n, pat, m, i) {
            return true;
        }
        if i == n - m {
            return false;
        }
        i = i + 1;
    }
}

/// Whether `s` ends with `suffix`.
fn ends_with_str(s: &str, suffix: &str) -> (r: bool)
    ensures
        r == ends_with(s@, suffix@),
{
    let n = s.unicode_len();
    let m = suffix.unicode_len();
    if m > n {
        return false;
    }
    matches_at(s, n, suffix, m, n - m)
}

/// The file name of a path: the text after its last `/`.
fn file_name(path: &str) -> (r: &str)
    ensures
        r@ == last_component(path@),
{
    let n = path.unicode_len();
    let mut start: usize = n;
    proof {
        assert(path@.subrange(0, n as int) =~= path@);
        assert(last_component(path@) =~= last_component(path@.subrange(0, n as int)) + path@.subrange(n as int, n as int));
    }
    while start > 0 && path.get_char(start - 1) != '/'
        invariant
            n == path@.len(),
            start <= n,
            last_component(path@) == last_component(path@.subrange(0, start as int)) + path@.subrange(start as int, n as int),
        decreases start,
    {
        proof {
            let q = path@.subrange(0, start as int);
            assert(q.drop_last() =~= path@.subrange(0, start - 1));
            assert(path@.subrange(start - 1, n as int) =~= seq![q.last()] + path@.subrange(start as int, n as int));
        }
        start = start - 1;
    }
    proof {
        let q = path@.subrange(0, start as int);
        assert(last_component(q) =~= Seq::<char>::empty());
        assert(last_component(path@) =~= path@.subrange(start as int, n as int));
    }
    path.substring_char(start, n)
}

/// The watch rules of a project tree.
pub struct FileWatcher {
    pub root: String,
    pub ignore_patterns: Vec<String>,
}

impl FileWatcher {
    /// Rules for `root` with the default ignore patterns.
    pub fn new(root: String) -> (r: FileWatcher)
        ensures
            r.root@ == root@,
            crate::text::string_views(r.ignore_patterns@) == seq![
                ".git"@,
                ".demongrep.db"@,
                "node_modules"@,
                "target"@,
                ".venv"@,
                "__pycache__"@,
                "*.lock"@,
                "*.pyc"@,
            ],
    {
        let r = FileWatcher {
            root,
            ignore_patterns: vec![
                String::from_str(".git"),
                String::from_str(".demongrep.db"),
                String::from_str("node_modules"),
                String::from_str("target"),
                String::from_str(".venv"),
                String::from_str("__pycache__"),
                String::from_str("*.lock"),
                String::from_str("*.pyc"),
            ],
        };
        proof {
            assert(crate::text::string_views(r.ignore_patterns@) =~= seq![
                ".git"@,
                ".demongrep.db"@,
                "node_modules"@,
                "target"@,
                ".venv"@,
                "__pycache__"@,
                "*.lock"@,
                "*.pyc"@,
            ]);
        }
        r
    }

    /// Adds ignore patterns after the present ones.
    pub fn with_ignore_patterns(self, patterns: Vec<String>) -> (r: FileWatcher)
        ensures
            r.root@ == self.root@,
            r.ignore_patterns@ == self.ignore_patterns@ + patterns@,
    {
        let mut w = self;
        let mut extra = patterns;
        w.ignore_patterns.append(&mut extra);
        w
    }

    /// Whether changes to `path` are ignored.
    pub fn should_ignore(&self, path: &str) -> (r: bool)
        ensures
            r == ignored(path@, self.ignore_patterns@),
    {
        let name = file_name(path);
        if str_equal(name, ".gitignore") {
            return false;
        }
        let pats = &self.ignore_patterns;
        let mut i: usize = 0;
        while i < pats.len()
            invariant
                i <= pats@.len(),
                pats@ == self.ignore_patterns@,
                name@ == last_component(path@),
                name@ != ".gitignore"@,
                forall|j: int| 0 <= j < i ==> !pattern_matches(path@, #[trigger] pats@[j]@),
            decreases pats@.len() - i,
        {
            let pat = pats[i].as_str();
            let m = pat.unicode_len();
            let hit = if m > 0 && pat.get_char(0) == '*' {
                let ext = pat.substring_char(1, m);
                proof {
                    assert(ext@ =~= pat@.drop_first());
                }
                ends_with_str(path, ext)
            } else {
                contains_str(path, pat)
            };
            if hit {
                proof {
                    assert(pattern_matches(path@, pats@[i as int]@));
                }
                return true;
            }
            i = i + 1;
        }
        let nl = name.unicode_len();
        nl > 0 && name.get_char(0) == '.'
    }
}

/// The event a change becomes, given the paths already seen in its batch:
/// none for an ignored or already-seen path; a modification for a creation
/// or a modification of a path that still exists; a deletion for a removal.
pub open spec fn event_of(w: FileWatcher, c: RawChange, seen: Seq<Seq<char>>) -> Option<(ChangeKind, Seq<char>)> {
    if ignored(c.path@, w.ignore_patterns@) || seen.contains(c.path@) {
        None
    } else {
        match c.kind {
            ChangeKind::Created | ChangeKind::Modified => if c.exists { Some((ChangeKind::Modified, c.path@)) } else { None },
            ChangeKind::Removed => Some((ChangeKind::Removed, c.path@)),
            ChangeKind::Other => None,
        }
    }
}

/// The paths a batch marks as seen: every path that is not ignored, once.
pub open spec fn seen_after(w: FileWatcher, cs: Seq<RawChange>) -> Seq<Seq<char>>
    decreases cs.len(),
{
    if cs.len() == 0 {
        Seq::empty()
    } else {
        let s = seen_after(w, cs.drop_last());
        let c = cs.last();
        if ignored(c.path@, w.ignore_patterns@) || s.contains(c.path@) { s } else { s.push(c.path@) }
    }
}

/// The events of a batch of changes, in order.
pub open spec fn events_of(w: FileWatcher, cs: Seq<RawChange>) -> Seq<(ChangeKind, Seq<char>)>
    decreases cs.len(),
{
    if cs.len() == 0 {
        Seq::empty()
    } else {
        let e = events_of(w, cs.drop_last());
        match event_of(w, cs.last(), seen_after(w, cs.drop_last())) {
            Some(x) => e.push(x),
            None => e,
        }
    }
}

/// The view of an event: its kind and path.
pub open spec fn event_view(e: FileEvent) -> (ChangeKind, Seq<char>) {
    match e {
        FileEvent::Modified(p) => (ChangeKind::Modified, p@),
        FileEvent::Deleted(p) => (ChangeKind::Removed, p@),
        FileEvent::Renamed(_, p) => (ChangeKind::Other, p@),
    }
}

/// Whether `p` is among `seen`.
fn seen_contains(seen: &Vec<String>, p: &str) -> (r: bool)
    ensures
        r == crate::text::string_views(seen@).contains(p@),
{
    let mut i: usize = 0;
    while i < seen.len()
        invariant
            i <= seen@.len(),
            forall|j: int| 0 <= j < i ==> seen@[j]@ != p@,
        decreases seen@.len() - i,
    {
        if str_equal(seen[i].as_str(), p) {
            proof {
                assert(crate::text::string_views(seen@)[i as int] == p@);
            }
            return true;
        }
        i = i + 1;
    }
    proof {
        if crate::text::string_views(seen@).contains(p@) {
            let j = choose|j: int| 0 <= j < seen@.len() && crate::text::string_views(seen@)[j] == p@;
            assert(seen@[j]@ == p@);
        }
    }
    false
}

impl FileWatcher {
    /// Turns a debounced batch of changes into events: each path at most
    /// once, ignored paths dropped.
    pub fn collect_events(&self, changes: &Vec<RawChange>) -> (r: Vec<FileEvent>)
        ensures
            r@.map_values(|e: FileEvent| event_view(e)) == events_of(*self, changes@),
    {
        let mut events: Vec<FileEvent> = Vec::new();
        let mut seen: Vec<String> = Vec::new();
        let mut i: usize = 0;
        while i < changes.len()
            invariant
                i <= changes@.len(),
                events@.map_values(|e: FileEvent| event_view(e)) == events_of(*self, changes@.subrange(0, i as int)),
                crate::text::string_views(seen@) == seen_after(*self, changes@.subrange(0, i as int)),
            decreases changes@.len() - i,
        {
            let c = &changes[i];
            let ghost pre = changes@.subrange(0, i as int);
            proof {
                let t = changes@.subrange(0, i + 1);
                assert(t.drop_last() =~= pre);
                assert(t.last() == *c);
            }
            let p = c.path.as_str();
            let ghost ev0 = events@;
            let ghost sv0 = seen@;
            if !self.should_ignore(p) && !seen_contains(&seen, p) {
                seen.push(c.path.clone());
                proof {
                    assert(crate::text::string_views(seen@) =~= crate::text::string_views(sv0).push(c.path@));
                }
                match c.kind {
                    ChangeKind::Created | ChangeKind::Modified => {
                        if c.exists {
                            events.push(FileEvent::Modified(c.path.clone()));
                        }
                    },
                    ChangeKind::Removed => {
                        events.push(FileEvent::Deleted(c.path.clone()));
                    },
                    ChangeKind::Other => {},
                }
            }
            proof {
                let f = |e: FileEvent| event_view(e);
                if events@.len() > ev0.len() {
                    assert(events@.map_values(f) =~= ev0.map_values(f).push(event_view(events@.last())));
                } else {
                    assert(events@ == ev0);
                }
            }
            i = i + 1;
        }
        proof {
            assert(changes@.subrange(0, changes@.len() as int) =~= changes@);
        }
        events
    }
}

} // verus!
