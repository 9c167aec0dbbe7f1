use vstd::prelude::*;

use crate::config::ConfigFile;
use crate::nix::same_config;
use crate::text::str_eq;

verus! {

/// The character sequences of a list of paths.
pub open spec fn path_chars(v: Seq<String>) -> Seq<Seq<char>> {
    v.map_values(|s: String| s@)
}

/// The character sequences of path/content pairs.
pub open spec fn pairs_chars(v: Seq<(String, String)>) -> Seq<(Seq<char>, Seq<char>)> {
    v.map_values(|p: (String, String)| (p.0@, p.1@))
}

/// The contents last written to each configuration file by this process, so that the
/// file watcher can tell its own writes from changes made by someone else.
#[derive(Debug)]
pub struct ProcessWrites {
    pub writes: Vec<(String, String)>,
}

/// The position of a path among recorded writes, or -1.
pub open spec fn write_index(s: Seq<(Seq<char>, Seq<char>)>, path: Seq<char>) -> int
    decreases s.len(),
{
    if s.len() == 0 {
        -1
    } else if s.last().0 == path {
        s.len() - 1
    } else {
        write_index(s.drop_last(), path)
    }
}

proof fn lemma_write_index(s: Seq<(Seq<char>, Seq<char>)>, path: Seq<char>)
    ensures
        -1 <= write_index(s, path) < s.len(),
        write_index(s, path) >= 0 ==> s[write_index(s, path)].0 == path,
        write_index(s, path) == -1 ==> forall|i: int| 0 <= i < s.len() ==> s[i].0 != path,
    decreases s.len(),
{
    if s.len() > 0 {
        lemma_write_index(s.drop_last(), path);
        assert forall|i: int| 0 <= i < s.len() - 1 implies s.drop_last()[i] == s[i] by {}
    }
}

impl ProcessWrites {
    /// The recorded writes: the last contents per path.
    pub open spec fn recorded(&self, path: Seq<char>) -> Option<Seq<char>> {
        let s = pairs_chars(self.writes@);
        let i = write_index(s, path);
        if i >= 0 { Some(s[i].1) } else { None }
    }

    /// No path is recorded twice.
    pub open spec fn wf(&self) -> bool {
        forall|i: int, j: int| 0 <= i < j < self.writes@.len() ==> self.writes@[i].0@ != self.writes@[j].0@
    }

    /// Nothing recorded.
    pub fn new() -> (w: Self)
        ensures
            w.wf(),
            forall|p: Seq<char>| w.recorded(p) is None,
    {
        ProcessWrites { writes: Vec::new() }
    }

    fn position(&self, path: &str) -> (r: Option<usize>)
        ensures
            r matches Some(i) ==> i < self.writes@.len() && self.writes@[i as int].0@ == path@,
            r is None ==> forall|i: int| 0 <= i < self.writes@.len() ==> self.writes@[i].0@ != path@,
    {
        let mut i: usize = 0;
        while i < self.writes.len()
            invariant
                i <= self.writes@.len(),
                forall|j: int| 0 <= j < i ==> self.writes@[j].0@ != path@,
            decreases self.writes@.len() - i,
        {
            if str_eq(self.writes[i].0.as_str(), path) {
                return Some(i);
            }
            i = i + 1;
        }
        None
    }

    proof fn lemma_recorded_at(&self, i: int)
        requires
            self.wf(),
            0 <= i < self.writes@.len(),
        ensures
            self.recorded(self.writes@[i].0@) == Some(self.writes@[i].1@),
    {
        let s = pairs_chars(self.writes@);
        let p = self.writes@[i].0@;
        lemma_write_index(s, p);
        let k = write_index(s, p);
        assert(s[i].0 == p);
        if k != i {
            assert(k >= 0);
            if k < i {
                assert(self.writes@[k].0@ != self.writes@[i].0@);
            } else {
                assert(self.writes@[i].0@ != self.writes@[k].0@);
            }
        }
    }

    proof fn lemma_recorded_absent(&self, path: Seq<char>)
        requires
            forall|i: int| 0 <= i < self.writes@.len() ==> self.writes@[i].0@ != path,
        ensures
            self.recorded(path) is None,
    {
        let s = pairs_chars(self.writes@);
        lemma_write_index(s, path);
        if write_index(s, path) >= 0 {
            let k = write_index(s, path);
            assert(s[k].0 == self.writes@[k].0@);
        }
    }

    /// Records that this process wrote `contents` to `path`, replacing an earlier record.
    pub fn record(&mut self, path: String, contents: String)
        requires
            old(self).wf(),
        ensures
            final(self).wf(),
            final(self).recorded(path@) == Some(contents@),
            forall|p: Seq<char>| p != path@ ==> #[trigger] final(self).recorded(p) == old(self).recorded(p),
    {
        let ghost before = *self;
        match self.position(path.as_str()) {
            Some(i) => {
                self.writes.set(i, (path, contents));
                proof {
                    assert forall|a: int, b: int| 0 <= a < b < self.writes@.len() implies self.writes@[a].0@ != self.writes@[b].0@ by {
                        assert(self.writes@[a].0@ == before.writes@[a].0@);
                        assert(self.writes@[b].0@ == before.writes@[b].0@);
                    }
                    self.lemma_recorded_at(i as int);
                    assert forall|p: Seq<char>| p != path@ implies #[trigger] self.recorded(p) == before.recorded(p) by {
                        let s0 = pairs_chars(before.writes@);
                        let s1 = pairs_chars(self.writes@);
                        lemma_write_index(s0, p);
                        lemma_write_index(s1, p);
                        let k = write_index(s0, p);
                        if k >= 0 {
                            assert(k != i);
                            before.lemma_recorded_at(k);
                            self.lemma_recorded_at(k);
                        } else {
                            assert forall|j: int| 0 <= j < self.writes@.len() implies self.writes@[j].0@ != p by {
                                if j != i {
                                    assert(s0[j].0 == before.writes@[j].0@);
                                }
                            }
                            self.lemma_recorded_absent(p);
                        }
                    }
                }
            },
            None => {
                self.writes.push((path, contents));
                proof {
                    let n = before.writes@.len() as int;
                    assert forall|a: int, b: int| 0 <= a < b < self.writes@.len() implies self.writes@[a].0@ != self.writes@[b].0@ by {
                        if b < n {
                            assert(self.writes@[a] == before.writes@[a]);
                            assert(self.writes@[b] == before.writes@[b]);
                        } else {
                            assert(self.writes@[a] == before.writes@[a]);
                        }
                    }
                    self.lemma_recorded_at(n);
                    assert forall|p: Seq<char>| p != path@ implies #[trigger] self.recorded(p) == before.recorded(p) by {
                        let s0 = pairs_chars(before.writes@);
                        lemma_write_index(s0, p);
                        let k = write_index(s0, p);
                        if k >= 0 {
                            before.lemma_recorded_at(k);
                            assert(self.writes@[k] == before.writes@[k]);
                            self.lemma_recorded_at(k);
                        } else {
                            assert forall|j: int| 0 <= j < self.writes@.len() implies self.writes@[j].0@ != p by {
                                if j < n {
                                    assert(s0[j].0 == before.writes@[j].0@);
                                    assert(self.writes@[j] == before.writes@[j]);
                                }
                            }
                            self.lemma_recorded_absent(p);
                        }
                    }
                }
            },
        }
    }

    /// Whether a file now holds what this process last wrote to it. Such a write is
    /// recognized once: its record is then dropped.
    pub fn is_process_write(&mut self, path: &str, contents: &str) -> (r: bool)
        requires
            old(self).wf(),
        ensures
            final(self).wf(),
            r == (old(self).recorded(path@) == Some(contents@)),
            r ==> final(self).recorded(path@) is None,
            !r ==> final(self).recorded(path@) == old(self).recorded(path@),
            forall|p: Seq<char>| p != path@ ==> #[trigger] final(self).recorded(p) == old(self).recorded(p),
    {
        let ghost before = *self;
        match self.position(path) {
            Some(i) => {
                proof { self.lemma_recorded_at(i as int); }
                if !str_eq(self.writes[i].1.as_str(), contents) {
                    return false;
                }
                self.writes.remove(i);
                proof {
                    let n = before.writes@.len() as int;
                    assert forall|j: int| 0 <= j < self.writes@.len() implies self.writes@[j] == before.writes@[if j < i { j } else { j + 1 }] by {}
                    assert forall|a: int, b: int| 0 <= a < b < self.writes@.len() implies self.writes@[a].0@ != self.writes@[b].0@ by {
                        let a0 = if a < i { a } else { a + 1 };
                        let b0 = if b < i { b } else { b + 1 };
                        assert(self.writes@[a] == before.writes@[a0]);
                        assert(self.writes@[b] == before.writes@[b0]);
                    }
                    assert forall|j: int| 0 <= j < self.writes@.len() implies self.writes@[j].0@ != path@ by {
                        let j0 = if j < i { j } else { j + 1 };
                        assert(self.writes@[j] == before.writes@[j0]);
                        assert(j0 != i);
                        if j0 < i {
                            assert(before.writes@[j0].0@ != before.writes@[i as int].0@);
                        } else {
                            assert(before.writes@[i as int].0@ != before.writes@[j0].0@);
                        }
                    }
                    self.lemma_recorded_absent(path@);
                    assert forall|p: Seq<char>| p != path@ implies #[trigger] self.recorded(p) == before.recorded(p) by {
                        let s0 = pairs_chars(before.writes@);
                        lemma_write_index(s0, p);
                        let k = write_index(s0, p);
                        if k >= 0 {
                            before.lemma_recorded_at(k);
                            assert(k != i);
                            let k1 = if k < i { k } else { k - 1 };
                            assert(self.writes@[k1] == before.writes@[k]);
                            self.lemma_recorded_at(k1);
                        } else {
                            assert forall|j: int| 0 <= j < self.writes@.len() implies self.writes@[j].0@ != p by {
                                let j0 = if j < i { j } else { j + 1 };
                                assert(self.writes@[j] == before.writes@[j0]);
                                assert(s0[j0].0 == before.writes@[j0].0@);
                            }
                            self.lemma_recorded_absent(p);
                        }
                    }
                }
                true
            },
            None => {
                proof { self.lemma_recorded_absent(path@); }
                false
            },
        }
    }
}

/// The kinds of file-system event that the watcher reports.
#[derive(Debug, Clone, Copy, PartialEq, Eq, Structural)]
pub enum FsEventKind {
    Any,
    CreateAny,
    CreateFile,
    CreateOther,
    ModifyAny,
    ModifyData,
    ModifyName,
    ModifyOther,
    RemoveAny,
    RemoveFile,
    RemoveOther,
    Access,
    Other,
}

/// Whether an event can change a configuration file's contents: any event, the creation or
/// removal of a file (or of something unspecified), and changes of data or name.
pub open spec fn relevant_kind_spec(k: FsEventKind) -> bool {
    match k {
        FsEventKind::Any | FsEventKind::CreateAny | FsEventKind::CreateFile | FsEventKind::ModifyAny
        | FsEventKind::ModifyData | FsEventKind::ModifyName | FsEventKind::RemoveAny | FsEventKind::RemoveFile => true,
        _ => false,
    }
}

/// Whether an event can change a configuration file's contents.
pub fn relevant_kind(k: FsEventKind) -> (r: bool)
    ensures
        r == relevant_kind_spec(k),
{
    match k {
        FsEventKind::Any | FsEventKind::CreateAny | FsEventKind::CreateFile | FsEventKind::ModifyAny
        | FsEventKind::ModifyData | FsEventKind::ModifyName | FsEventKind::RemoveAny | FsEventKind::RemoveFile => true,
        _ => false,
    }
}

fn contains_path(v: &Vec<String>, p: &str) -> (r: bool)
    ensures
        r == path_chars(v@).contains(p@),
{
    let ghost vs = path_chars(v@);
    let mut i: usize = 0;
    while i < v.len()
        invariant
            i <= v@.len(),
            vs == path_chars(v@),
            forall|j: int| 0 <= j < i ==> vs[j] != p@,
        decreases v@.len() - i,
    {
        if str_eq(v[i].as_str(), p) {
            assert(vs[i as int] == p@);
            return true;
        }
        i = i + 1;
    }
    false
}

/// The configuration files that an event touches: none for an irrelevant event, else the
/// event's paths that are configuration files, each once.
pub fn change_paths(kind: FsEventKind, paths: &Vec<String>, config_paths: &Vec<String>) -> (r: Vec<String>)
    ensures
        !relevant_kind_spec(kind) ==> r@.len() == 0,
        relevant_kind_spec(kind) ==> forall|p: Seq<char>| #[trigger] path_chars(r@).contains(p)
            <==> (path_chars(paths@).contains(p) && path_chars(config_paths@).contains(p)),
        path_chars(r@).no_duplicates(),
{
    let mut r: Vec<String> = Vec::new();
    if !relevant_kind(kind) {
        return r;
    }
    let ghost ps = path_chars(paths@);
    let ghost cs = path_chars(config_paths@);
    let mut i: usize = 0;
    while i < paths.len()
        invariant
            i <= paths@.len(),
            ps == path_chars(paths@),
            cs == path_chars(config_paths@),
            path_chars(r@).no_duplicates(),
            forall|p: Seq<char>| #[trigger] path_chars(r@).contains(p)
                <==> (ps.take(i as int).contains(p) && cs.contains(p)),
        decreases paths@.len() - i,
    {
        let p = paths[i].as_str();
        let ghost before = path_chars(r@);
        let in_config = contains_path(config_paths, p);
        let seen = contains_path(&r, p);
        if in_config && !seen {
            r.push(paths[i].clone());
            assert(path_chars(r@) =~= before.push(p@));
        }
        proof {
            let now = path_chars(r@);
            assert(ps[i as int] == p@);
            assert(ps.take(i + 1) == ps.take(i as int).push(p@));
            assert forall|q: Seq<char>| #[trigger] now.contains(q) implies before.contains(q) || q == p@ by {
                if in_config && !seen {
                    let k = choose|k: int| 0 <= k < now.len() && now[k] == q;
                    if k < before.len() {
                        assert(before[k] == q);
                    }
                }
            }
            assert forall|q: Seq<char>| #[trigger] before.contains(q) implies now.contains(q) by {
                if in_config && !seen {
                    let k = choose|k: int| 0 <= k < before.len() && before[k] == q;
                    assert(now[k] == q);
                }
            }
            assert(in_config && !seen ==> now[before.len() as int] == p@);
            assert forall|q: Seq<char>| #[trigger] path_chars(r@).contains(q) <==> (ps.take(i + 1).contains(q) && cs.contains(q)) by {
                if ps.take(i + 1).contains(q) && cs.contains(q) {
                    let k = choose|k: int| 0 <= k < ps.take(i + 1).len() && #[trigger] ps.take(i + 1)[k] == q;
                    if k < i {
                        assert(ps.take(i as int)[k] == q);
                        assert(before.contains(q));
                    } else {
                        assert(q == p@);
                    }
                }
                if now.contains(q) {
                    if before.contains(q) {
                        let k = choose|k: int| 0 <= k < ps.take(i as int).len() && #[trigger] ps.take(i as int)[k] == q;
                        assert(ps.take(i + 1)[k] == q);
                    } else {
                        assert(q == p@);
                        assert(ps.take(i + 1)[i as int] == q);
                    }
                }
            }
            if in_config && !seen {
                assert forall|a: int, b: int| 0 <= a < now.len() && 0 <= b < now.len() && a != b implies now[a] != now[b] by {
                    if a == before.len() as int {
                        assert(now[b] == before[b]);
                    } else if b == before.len() as int {
                        assert(now[a] == before[a]);
                    } else {
                        assert(now[a] == before[a] && now[b] == before[b]);
                    }
                }
            }
        }
        i = i + 1;
    }
    assert(ps.take(paths@.len() as int) == ps);
    r
}

/// Where the configuration is written.
#[derive(Debug, Clone, Copy, PartialEq, Eq, Structural)]
pub enum WritePlan {
    /// Into the main configuration file.
    Main,
    /// Into the override file.
    Override,
    /// The configuration equals the declarative one: the override file is removed (when
    /// it exists) and the declarative document is used.
    DropOverride { remove_file: bool },
}

/// Where a configuration is written.
pub open spec fn write_plan_spec(override_configured: bool, equals_declarative: bool, override_exists: bool) -> WritePlan {
    if !override_configured {
        WritePlan::Main
    } else if equals_declarative {
        WritePlan::DropOverride { remove_file: override_exists }
    } else {
        WritePlan::Override
    }
}

/// Where a configuration is written: with an override file configured, into it, unless
/// the configuration equals the declarative one, in which case the override goes away;
/// without one, into the main file.
pub fn write_plan(override_configured: bool, equals_declarative: bool, override_exists: bool) -> (p: WritePlan)
    ensures
        p == write_plan_spec(override_configured, equals_declarative, override_exists),
{
    if !override_configured {
        WritePlan::Main
    } else if equals_declarative {
        WritePlan::DropOverride { remove_file: override_exists }
    } else {
        WritePlan::Override
    }
}

impl ConfigFile {
    /// Where this configuration is written, given the declarative one.
    pub fn plan_write(&self, declarative: &ConfigFile, override_configured: bool, override_exists: bool) -> (p: WritePlan)
        ensures
            p == write_plan_spec(override_configured, same_config(*self, *declarative), override_exists),
    {
        write_plan(override_configured, self.same_settings(declarative), override_exists)
    }
}

/// Whether the override file exists after carrying out a plan.
pub open spec fn override_exists_after(plan: WritePlan, existed: bool) -> bool {
    match plan {
        WritePlan::Main => existed,
        WritePlan::Override => true,
        WritePlan::DropOverride { .. } => false,
    }
}

/// After a write with an override file configured, the override is in effect exactly
/// when the configuration differs from the declarative one.
pub proof fn lemma_override_follows_difference(equals_declarative: bool, override_exists: bool)
    ensures
        override_exists_after(write_plan_spec(true, equals_declarative, override_exists), override_exists)
            == !equals_declarative,
{
}

/// Whether the override file is the one in effect: it is configured and exists.
pub fn override_active(override_configured: bool, override_exists: bool) -> (r: bool)
    ensures
        r == (override_configured && override_exists),
{
    override_configured && override_exists
}

} // verus!
