//! Front-end preferences: the last opened project and the recent projects.
use crate::text::str_eq;
use vstd::prelude::*;

verus! {

/// At most this many recent projects are kept.
pub const MAX_RECENT_PROJECTS: usize = 10;

/// The last opened project and the recent projects, most recent first.
#[derive(Debug, Clone)]
pub struct AppPreferences {
    pub last_opened_project: Option<String>,
    pub recent_projects: Vec<String>,
}

/// `s` without the entries equal to `p`, order kept.
pub open spec fn without(s: Seq<Seq<char>>, p: Seq<char>) -> Seq<Seq<char>>
    decreases s.len(),
{
    if s.len() == 0 {
        s
    } else if s.last() == p {
        without(s.drop_last(), p)
    } else {
        without(s.drop_last(), p).push(s.last())
    }
}

/// The recent projects after opening `p`: `p` first, then the others, at most
/// `MAX_RECENT_PROJECTS`.
pub open spec fn remembered(s: Seq<Seq<char>>, p: Seq<char>) -> Seq<Seq<char>> {
    let all = seq![p] + without(s, p);
    if all.len() > MAX_RECENT_PROJECTS { all.take(MAX_RECENT_PROJECTS as int) } else { all }
}

/// The strings of `v`, as plain characters.
pub open spec fn paths_view(v: Seq<String>) -> Seq<Seq<char>> {
    v.map_values(|s: String| s@)
}

/// An optional string as plain characters.
pub open spec fn opt_path(o: Option<String>) -> Option<Seq<char>> {
    match o {
        Some(s) => Some(s@),
        None => None,
    }
}

impl Default for AppPreferences {
    fn default() -> (r: Self)
        ensures
            r.last_opened_project is None,
            r.recent_projects@.len() == 0,
    {
        AppPreferences { last_opened_project: None, recent_projects: Vec::new() }
    }
}

/// `v` without the entries equal to `p`.
fn remove_path(v: &Vec<String>, p: &str) -> (r: Vec<String>)
    ensures
        paths_view(r@) == without(paths_view(v@), p@),
{
    let ghost src = paths_view(v@);
    let mut out: Vec<String> = Vec::new();
    let mut i: usize = 0;
    assert(paths_view(out@) =~= without(src.take(0), p@));
    while i < v.len()
        invariant
            i <= v@.len(),
            src == paths_view(v@),
            paths_view(out@) == without(src.take(i as int), p@),
        decreases v@.len() - i,
    {
        assert(src.take(i + 1).drop_last() =~= src.take(i as int));
        assert(src.take(i + 1).last() == v@[i as int]@);
        if !str_eq(v[i].as_str(), p) {
            let c = v[i].clone();
            let ghost before = out@;
            out.push(c);
            assert(paths_view(out@) =~= paths_view(before).push(c@));
        }
        i = i + 1;
    }
    assert(src.take(i as int) =~= src);
    out
}

impl AppPreferences {
    /// Records that project `path` (already normalized) was opened: it becomes the last
    /// opened project and moves to the front of the recent projects.
    pub fn remember(&mut self, path: String)
        ensures
            opt_path(final(self).last_opened_project) == Some(path@),
            paths_view(final(self).recent_projects@) == remembered(paths_view(old(self).recent_projects@), path@),
    {
        let mut rest = remove_path(&self.recent_projects, path.as_str());
        let ghost r0 = paths_view(rest@);
        let first = path.clone();
        rest.insert(0, first);
        assert(paths_view(rest@) =~= seq![path@] + r0);
        if rest.len() > MAX_RECENT_PROJECTS {
            rest.truncate(MAX_RECENT_PROJECTS);
            assert(paths_view(rest@) =~= (seq![path@] + r0).take(MAX_RECENT_PROJECTS as int));
        }
        self.recent_projects = rest;
        self.last_opened_project = Some(path);
    }

    /// Forgets project `path` (already normalized): it leaves the recent projects, and is no
    /// longer the last opened project.
    pub fn forget(&mut self, path: &str)
        ensures
            paths_view(final(self).recent_projects@) == without(paths_view(old(self).recent_projects@), path@),
            opt_path(final(self).last_opened_project) == if opt_path(old(self).last_opened_project) == Some(path@) {
                None
            } else {
                opt_path(old(self).last_opened_project)
            },
    {
        self.recent_projects = remove_path(&self.recent_projects, path);
        let clear = match &self.last_opened_project {
            Some(p) => str_eq(p.as_str(), path),
            None => false,
        };
        if clear {
            self.last_opened_project = None;
        }
    }

    /// No project is the last opened one any more.
    pub fn clear_last(&mut self)
        ensures
            final(self).last_opened_project is None,
            paths_view(final(self).recent_projects@) == paths_view(old(self).recent_projects@),
    {
        self.last_opened_project = None;
    }
}

} // verus!
