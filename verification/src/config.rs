//! Where configuration files are looked for: base names, directories and
//! explicit files, each kept once, the most recently added last (later
//! entries take precedence when the files are merged).
use vstd::prelude::*;

use crate::text::push_str;

verus! {

/// A test configuration section of the command line tool.
pub struct MyConfig {
    /// My name.
    pub name: String,
}

/// `s` holds no value twice.
pub open spec fn no_dups(s: Seq<Seq<char>>) -> bool {
    forall|i: int, j: int| 0 <= i < s.len() && 0 <= j < s.len() && i != j ==> s[i] != s[j]
}

/// `s` with `x` moved to the end, or appended when absent.
pub open spec fn moved_to_end(old_s: Seq<Seq<char>>, new_s: Seq<Seq<char>>, x: Seq<char>) -> bool {
    if old_s.contains(x) {
        exists|i: int| 0 <= i < old_s.len() && old_s[i] == x && new_s == old_s.remove(i).push(x)
    } else {
        new_s == old_s.push(x)
    }
}

/// The strings of a vector, by value.
pub open spec fn strings(v: Seq<String>) -> Seq<Seq<char>> {
    v.map_values(|s: String| s@)
}

/// A file to read: `file` in directory `dir` when it is a file there, or a
/// file added explicitly.
#[derive(Debug, PartialEq, Eq)]
pub enum Candidate {
    InDir { dir: String, file: String },
    File(String),
}

/// A candidate file by value.
pub enum CandidateView {
    InDir { dir: Seq<char>, file: Seq<char> },
    File(Seq<char>),
}

pub open spec fn candidate_view(c: Candidate) -> CandidateView {
    match c {
        Candidate::InDir { dir, file } => CandidateView::InDir { dir: dir@, file: file@ },
        Candidate::File(f) => CandidateView::File(f@),
    }
}

pub open spec fn candidate_views(s: Seq<Candidate>) -> Seq<CandidateView> {
    s.map_values(|c: Candidate| candidate_view(c))
}

/// The file name of the base name `name`: `<name>.toml`.
pub open spec fn toml_file_name(name: Seq<char>) -> Seq<char> {
    name + ".toml"@
}

/// The files of the base names `names` in directory `dir`, in order.
pub open spec fn in_dir(dir: Seq<char>, names: Seq<Seq<char>>) -> Seq<CandidateView> {
    names.map_values(|n: Seq<char>| CandidateView::InDir { dir, file: toml_file_name(n) })
}

/// For each directory in order, the files of all base names.
pub open spec fn dir_candidates(paths: Seq<Seq<char>>, names: Seq<Seq<char>>) -> Seq<CandidateView>
    decreases paths.len(),
{
    if paths.len() == 0 {
        Seq::empty()
    } else {
        dir_candidates(paths.drop_last(), names) + in_dir(paths.last(), names)
    }
}

/// The files a configuration is read from, in the order they are merged:
/// each directory's files of all base names, then the explicit files.
pub open spec fn spec_candidates(
    paths: Seq<Seq<char>>,
    names: Seq<Seq<char>>,
    files: Seq<Seq<char>>,
) -> Seq<CandidateView> {
    dir_candidates(paths, names) + files.map_values(|f: Seq<char>| CandidateView::File(f))
}

/// Builder of the list of configuration files to read.
pub struct ConfigFileBuilder {
    names: Vec<String>,
    paths: Vec<String>,
    files: Vec<String>,
}

/// Position of `x` in `v`, if any.
fn position(v: &Vec<String>, x: &String) -> (r: Option<usize>)
    ensures
        r matches Some(i) ==> i < v@.len() && v@[i as int]@ == x@ && strings(v@).contains(x@),
        r is None ==> !strings(v@).contains(x@),
{
    let mut i: usize = 0;
    while i < v.len()
        invariant
            i <= v@.len(),
            forall|j: int| 0 <= j < i ==> v@[j]@ != x@,
        decreases v@.len() - i,
    {
        if v[i] == *x {
            assert(strings(v@)[i as int] == x@);
            return Some(i);
        }
        i = i + 1;
    }
    proof {
        if strings(v@).contains(x@) {
            let j = choose|j: int| 0 <= j < strings(v@).len() && strings(v@)[j] == x@;
            assert(v@[j]@ == x@);
        }
    }
    None
}

/// Move `x` to the end of `v`, or append it when absent.
fn move_to_end(v: &mut Vec<String>, x: String)
    requires
        no_dups(strings(old(v)@)),
    ensures
        no_dups(strings(final(v)@)),
        moved_to_end(strings(old(v)@), strings(final(v)@), x@),
{
    let ghost old_s = strings(v@);
    match position(v, &x) {
        Some(idx) => {
            let kept = v.remove(idx);
            v.push(kept);
            proof {
                let new_s = strings(v@);
                assert(new_s =~= old_s.remove(idx as int).push(x@));
                assert(old_s.contains(x@)) by {
                    assert(old_s[idx as int] == x@);
                }
                assert(kept@ == x@);
                assert(0 <= idx < old_s.len() && old_s[idx as int] == x@ && new_s == old_s.remove(idx as int).push(x@));
                assert forall|i: int, j: int|
                    0 <= i < new_s.len() && 0 <= j < new_s.len() && i != j implies new_s[i]
                    != new_s[j] by {
                    let oi = if i < idx { i } else if i < new_s.len() - 1 { i + 1 } else { idx as int };
                    let oj = if j < idx { j } else if j < new_s.len() - 1 { j + 1 } else { idx as int };
                    assert(new_s[i] == old_s[oi]);
                    assert(new_s[j] == old_s[oj]);
                }
            }
        },
        None => {
            v.push(x);
            proof {
                let new_s = strings(v@);
                assert(new_s =~= old_s.push(x@));
                assert forall|i: int, j: int|
                    0 <= i < new_s.len() && 0 <= j < new_s.len() && i != j implies new_s[i]
                    != new_s[j] by {
                    if i == old_s.len() {
                        assert(!old_s.contains(new_s[j]) || j != old_s.len());
                    }
                    if j < old_s.len() && i == old_s.len() {
                        assert(old_s[j] == new_s[j]);
                    }
                    if i < old_s.len() && j == old_s.len() {
                        assert(old_s[i] == new_s[i]);
                    }
                }
            }
        },
    }
}

impl ConfigFileBuilder {
    /// Base names of configuration files, without the `.toml` extension.
    pub closed spec fn spec_names(&self) -> Seq<Seq<char>> {
        strings(self.names@)
    }

    /// Directories searched for the base names.
    pub closed spec fn spec_paths(&self) -> Seq<Seq<char>> {
        strings(self.paths@)
    }

    /// Explicit configuration files.
    pub closed spec fn spec_files(&self) -> Seq<Seq<char>> {
        strings(self.files@)
    }

    /// Each list holds every entry once.
    pub open spec fn wf(&self) -> bool {
        &&& no_dups(self.spec_names())
        &&& no_dups(self.spec_paths())
        &&& no_dups(self.spec_files())
    }

    /// A builder with no names, directories or files.
    pub fn new() -> (r: Self)
        ensures
            r.wf(),
            r.spec_names() == Seq::<Seq<char>>::empty(),
            r.spec_paths() == Seq::<Seq<char>>::empty(),
            r.spec_files() == Seq::<Seq<char>>::empty(),
    {
        let r = ConfigFileBuilder { names: Vec::new(), paths: Vec::new(), files: Vec::new() };
        assert(r.spec_names() =~= Seq::<Seq<char>>::empty());
        assert(r.spec_paths() =~= Seq::<Seq<char>>::empty());
        assert(r.spec_files() =~= Seq::<Seq<char>>::empty());
        r
    }

    /// Add a base name; a name added before moves to the end.
    pub fn add_name(self, name: String) -> (r: Self)
        requires
            self.wf(),
        ensures
            r.wf(),
            moved_to_end(self.spec_names(), r.spec_names(), name@),
            r.spec_paths() == self.spec_paths(),
            r.spec_files() == self.spec_files(),
    {
        let mut this = self;
        move_to_end(&mut this.names, name);
        this
    }

    /// Add a directory to search. A directory added before moves to the end;
    /// a new one is added only when `is_dir` tells it is a directory.
    pub fn add_path(self, path: String, is_dir: bool) -> (r: Self)
        requires
            self.wf(),
        ensures
            r.wf(),
            self.spec_paths().contains(path@) || is_dir ==> moved_to_end(
                self.spec_paths(),
                r.spec_paths(),
                path@,
            ),
            !self.spec_paths().contains(path@) && !is_dir ==> r.spec_paths() == self.spec_paths(),
            r.spec_names() == self.spec_names(),
            r.spec_files() == self.spec_files(),
    {
        let mut this = self;
        match position(&this.paths, &path) {
            Some(_) => move_to_end(&mut this.paths, path),
            None => {
                if is_dir {
                    move_to_end(&mut this.paths, path);
                }
            },
        }
        this
    }

    /// Add a file. The empty path and a path that `is_file` tells is not a
    /// file are ignored; a file added before moves to the end.
    pub fn add_file(self, file: String, is_file: bool) -> (r: Self)
        requires
            self.wf(),
        ensures
            r.wf(),
            file@.len() > 0 && is_file ==> moved_to_end(self.spec_files(), r.spec_files(), file@),
            file@.len() == 0 || !is_file ==> r.spec_files() == self.spec_files(),
            r.spec_names() == self.spec_names(),
            r.spec_paths() == self.spec_paths(),
    {
        if file.as_str().is_empty() {
            return self;
        }
        if !is_file {
            return self;
        }
        let mut this = self;
        move_to_end(&mut this.files, file);
        this
    }

    /// The files to read, in the order they are merged (a later one
    /// overrides an earlier one): for each directory, `<name>.toml` for each
    /// base name, then the explicit files.
    pub fn candidate_files(&self) -> (r: Vec<Candidate>)
        ensures
            candidate_views(r@) == spec_candidates(
                self.spec_paths(),
                self.spec_names(),
                self.spec_files(),
            ),
    {
        let ghost paths = self.spec_paths();
        let ghost names = self.spec_names();
        let ghost files = self.spec_files();
        let mut out: Vec<Candidate> = Vec::new();
        let mut i: usize = 0;
        while i < self.paths.len()
            invariant
                i <= self.paths@.len(),
                paths == strings(self.paths@),
                names == strings(self.names@),
                candidate_views(out@) == dir_candidates(paths.take(i as int), names),
            decreases self.paths@.len() - i,
        {
            let mut j: usize = 0;
            while j < self.names.len()
                invariant
                    i < self.paths@.len(),
                    j <= self.names@.len(),
                    paths == strings(self.paths@),
                    names == strings(self.names@),
                    candidate_views(out@) == dir_candidates(paths.take(i as int), names) + in_dir(
                        paths[i as int],
                        names.take(j as int),
                    ),
                decreases self.names@.len() - j,
            {
                let mut file = self.names[j].clone();
                push_str(&mut file, ".toml");
                let ghost before = out@;
                out.push(Candidate::InDir { dir: self.paths[i].clone(), file });
                proof {
                    assert(names.take(j + 1) =~= names.take(j as int).push(names[j as int]));
                    assert(in_dir(paths[i as int], names.take(j + 1)) =~= in_dir(
                        paths[i as int],
                        names.take(j as int),
                    ).push(CandidateView::InDir { dir: paths[i as int], file: toml_file_name(names[j as int]) }));
                    assert(candidate_views(out@) =~= candidate_views(before).push(
                        CandidateView::InDir { dir: paths[i as int], file: toml_file_name(names[j as int]) },
                    ));
                }
                j = j + 1;
            }
            proof {
                assert(names.take(j as int) =~= names);
                assert(paths.take(i + 1).drop_last() =~= paths.take(i as int));
                assert(paths.take(i + 1).last() == paths[i as int]);
            }
            i = i + 1;
        }
        proof {
            assert(paths.take(i as int) =~= paths);
        }
        let ghost dirs = candidate_views(out@);
        let mut k: usize = 0;
        while k < self.files.len()
            invariant
                k <= self.files@.len(),
                files == strings(self.files@),
                candidate_views(out@) == dirs + files.take(k as int).map_values(
                    |f: Seq<char>| CandidateView::File(f),
                ),
            decreases self.files@.len() - k,
        {
            let ghost before = out@;
            out.push(Candidate::File(self.files[k].clone()));
            proof {
                assert(files.take(k + 1) =~= files.take(k as int).push(files[k as int]));
                assert(candidate_views(out@) =~= candidate_views(before).push(CandidateView::File(files[k as int])));
                assert(files.take(k + 1).map_values(|f: Seq<char>| CandidateView::File(f)) =~= files.take(
                    k as int,
                ).map_values(|f: Seq<char>| CandidateView::File(f)).push(CandidateView::File(files[k as int])));
            }
            k = k + 1;
        }
        proof {
            assert(files.take(k as int) =~= files);
        }
        out
    }

    /// The base names, in order.
    pub fn names(&self) -> (r: &Vec<String>)
        ensures
            strings(r@) == self.spec_names(),
    {
        &self.names
    }

    /// The directories, in order.
    pub fn paths(&self) -> (r: &Vec<String>)
        ensures
            strings(r@) == self.spec_paths(),
    {
        &self.paths
    }

    /// The files, in order.
    pub fn files(&self) -> (r: &Vec<String>)
        ensures
            strings(r@) == self.spec_files(),
    {
        &self.files
    }
}

/// After any addition each list still holds every entry once, the added
/// entry is the last one, and the other entries keep their order.
pub proof fn law_moved_to_end(old_s: Seq<Seq<char>>, new_s: Seq<Seq<char>>, x: Seq<char>)
    requires
        no_dups(old_s),
        moved_to_end(old_s, new_s, x),
    ensures
        new_s.len() > 0 && new_s.last() == x,
        new_s.to_set() == old_s.to_set().insert(x),
        new_s.drop_last() == old_s.filter(|y: Seq<char>| y != x),
{
    if old_s.contains(x) {
        let i = choose|i: int| 0 <= i < old_s.len() && old_s[i] == x && new_s == old_s.remove(i).push(x);
        assert(new_s.drop_last() =~= old_s.remove(i));
        assert(new_s.to_set() =~= old_s.to_set().insert(x)) by {
            assert forall|y: Seq<char>| new_s.to_set().contains(y) <==> old_s.to_set().insert(x).contains(y) by {
                if old_s.contains(y) {
                    let k = choose|k: int| 0 <= k < old_s.len() && old_s[k] == y;
                    if k < i {
                        assert(new_s[k] == y);
                    } else if k > i {
                        assert(new_s[k - 1] == y);
                    } else {
                        assert(new_s[new_s.len() - 1] == y);
                    }
                }
                if new_s.contains(y) {
                    let k = choose|k: int| 0 <= k < new_s.len() && new_s[k] == y;
                    if k < i {
                        assert(old_s[k] == y);
                    } else if k < new_s.len() - 1 {
                        assert(old_s[k + 1] == y);
                    }
                }
            }
        }
        lemma_remove_is_filter(old_s, i, x);
    } else {
        assert(new_s.drop_last() =~= old_s);
        assert(new_s.to_set() =~= old_s.to_set().insert(x)) by {
            assert forall|y: Seq<char>| new_s.to_set().contains(y) <==> old_s.to_set().insert(x).contains(y) by {
                if old_s.contains(y) {
                    let k = choose|k: int| 0 <= k < old_s.len() && old_s[k] == y;
                    assert(new_s[k] == y);
                }
                if y == x {
                    assert(new_s[new_s.len() - 1] == y);
                }
                if new_s.contains(y) {
                    let k = choose|k: int| 0 <= k < new_s.len() && new_s[k] == y;
                    if k < old_s.len() {
                        assert(old_s[k] == y);
                    }
                }
            }
        }
        lemma_filter_absent(old_s, x);
    }
}

proof fn lemma_filter_absent(s: Seq<Seq<char>>, x: Seq<char>)
    requires
        !s.contains(x),
    ensures
        s.filter(|y: Seq<char>| y != x) == s,
    decreases s.len(),
{
    reveal(Seq::filter);
    if s.len() > 0 {
        assert(!s.drop_last().contains(x)) by {
            if s.drop_last().contains(x) {
                let k = choose|k: int| 0 <= k < s.drop_last().len() && s.drop_last()[k] == x;
                assert(s[k] == x);
            }
        }
        lemma_filter_absent(s.drop_last(), x);
        assert(s.last() != x) by {
            assert(s[s.len() - 1] == s.last());
        }
        assert(s.drop_last().push(s.last()) =~= s);
    }
}

proof fn lemma_remove_is_filter(s: Seq<Seq<char>>, i: int, x: Seq<char>)
    requires
        no_dups(s),
        0 <= i < s.len(),
        s[i] == x,
    ensures
        s.remove(i) == s.filter(|y: Seq<char>| y != x),
    decreases s.len(),
{
    reveal(Seq::filter);
    if i == s.len() - 1 {
        assert(s.remove(i) =~= s.drop_last());
        assert(!s.drop_last().contains(x)) by {
            if s.drop_last().contains(x) {
                let k = choose|k: int| 0 <= k < s.drop_last().len() && s.drop_last()[k] == x;
                assert(s[k] == x);
            }
        }
        lemma_filter_absent(s.drop_last(), x);
    } else {
        let t = s.drop_last();
        assert(no_dups(t));
        assert(t[i] == x);
        lemma_remove_is_filter(t, i, x);
        assert(s.last() != x) by {
            assert(s[s.len() - 1] != s[i]);
        }
        assert(s.remove(i) =~= t.remove(i).push(s.last()));
    }
}

} // verus!
