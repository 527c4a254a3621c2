//! The decisions of the module import evaluator.
//!
//! An evaluator reads a root module, merges its value, then reads each of its
//! imports in declared order, depth first, each resolved against the directory
//! of the module that declares it. A module's path is marked visited before its
//! imports are read, so reading a visited path again is a cycle. What touches
//! the file system (making a path canonical, driving the recursion over the
//! imports) stays with the caller; [`File::read_module`] is one step of it.
use vstd::prelude::*;
use vstd::string::{StrSliceExecFns, StringExecFns};

use crate::error::{bare, labels_view, Error, ErrorKind, ErrorView};
use crate::merge::Merge;

verus! {

/// The imports of a module: paths relative to the directory of the module
/// that declares them. Empty when a document names none.
#[derive(Debug, Default)]
pub struct Imports(pub Vec<String>);

impl View for Imports {
    type V = Seq<Seq<char>>;

    open spec fn view(&self) -> Seq<Seq<char>> {
        labels_view(self.0@)
    }
}

/// A parsed module: its imports and its value.
#[derive(Debug, Default)]
pub struct Module<T> {
    /// Modules to read after this one.
    pub imports: Imports,
    /// What this module contributes.
    pub value: T,
}

/// Reads the module file at a canonical path and parses it into a
/// [`Module`]. Implemented once per file format; an I/O or parse failure is
/// handed back as a custom error.
pub trait Format<T>: Sized {
    /// Whether reading `path` with the format in the state `fmt` may give
    /// `r` (the module, or the error). A format that states nothing admits
    /// every outcome.
    open spec fn read_spec(fmt: Self, path: Seq<char>, r: Result<Module<T>, ErrorView>) -> bool {
        true
    }

    /// Reads and parses the module at the canonical path `path`.
    fn read(&mut self, path: &str) -> (r: Result<Module<T>, Error>)
        ensures
            Self::read_spec(*old(self), path@, module_outcome(r)),
    ;
}

/// A read result over views.
pub open spec fn module_outcome<T>(r: Result<Module<T>, Error>) -> Result<Module<T>, ErrorView> {
    match r {
        Ok(m) => Ok(m),
        Err(e) => Err(e@),
    }
}

/// Position of the last `/` in `s`, or -1 when there is none.
pub open spec fn last_slash(s: Seq<char>) -> int
    decreases s.len(),
{
    if s.len() == 0 {
        -1
    } else if s.last() == '/' {
        s.len() - 1
    } else {
        last_slash(s.drop_last())
    }
}

/// The path of `import`, declared by the module at `importer`: an absolute
/// import stands as it is; else it is joined to the directory of `importer`.
pub open spec fn resolved(importer: Seq<char>, import: Seq<char>) -> Seq<char> {
    if import.len() > 0 && import[0] == '/' {
        import
    } else if last_slash(importer) < 0 {
        import
    } else {
        importer.subrange(0, last_slash(importer)) + seq!['/'] + import
    }
}

proof fn lemma_last_slash_bounds(s: Seq<char>)
    ensures
        -1 <= last_slash(s) < s.len(),
        last_slash(s) >= 0 ==> s[last_slash(s)] == '/',
    decreases s.len(),
{
    if s.len() > 0 && s.last() != '/' {
        lemma_last_slash_bounds(s.drop_last());
    }
}

/// Position of the last `/` in `s`.
fn last_slash_index(s: &str) -> (r: Option<usize>)
    ensures
        r is None <==> last_slash(s@) < 0,
        r is Some ==> r->Some_0 == last_slash(s@),
{
    let n = s.unicode_len();
    let mut i = n;
    proof {
        assert(s@.subrange(0, n as int) =~= s@);
    }
    while i > 0
        invariant
            n == s@.len(),
            i <= n,
            last_slash(s@) == last_slash(s@.subrange(0, i as int)),
        decreases i,
    {
        let c = s.get_char(i - 1);
        proof {
            let p = s@.subrange(0, i as int);
            assert(p.drop_last() =~= s@.subrange(0, i - 1));
            assert(p.last() == c);
        }
        if c == '/' {
            return Some(i - 1);
        }
        i = i - 1;
    }
    proof {
        assert(s@.subrange(0, 0) =~= Seq::<char>::empty());
    }
    None
}

/// Resolves `import`, declared by the module at `importer`.
pub fn resolve_import(importer: &str, import: &str) -> (r: String)
    ensures
        r@ == resolved(importer@, import@),
{
    let absolute = import.unicode_len() > 0 && import.get_char(0) == '/';
    if absolute {
        return import.to_owned();
    }
    match last_slash_index(importer) {
        None => import.to_owned(),
        Some(i) => {
            proof {
                lemma_last_slash_bounds(importer@);
            }
            let mut r = importer.substring_char(0, i).to_owned();
            r.append("/");
            r.append(import);
            proof {
                reveal_strlit("/");
                assert(r@ =~= resolved(importer@, import@));
            }
            r
        },
    }
}

/// The view of a resolved import list.
pub open spec fn resolved_all(importer: Seq<char>, imports: Seq<Seq<char>>) -> Seq<Seq<char>> {
    imports.map_values(|i: Seq<char>| resolved(importer, i))
}

/// The evaluator's state: the visited canonical paths, the value merged so
/// far (absent until a module is read) and the format that reads modules.
#[derive(Debug)]
pub struct File<T, F> {
    evaluated: Vec<String>,
    value: Option<T>,
    format: F,
}

impl<T, F> File<T, F> {
    /// The canonical paths read so far.
    pub closed spec fn visited(self) -> Set<Seq<char>> {
        labels_view(self.evaluated@).to_set()
    }

    /// The value merged so far.
    pub closed spec fn value_spec(self) -> Option<T> {
        self.value
    }

    /// The format used.
    pub closed spec fn format_spec(self) -> F {
        self.format
    }

    /// A new evaluator that reads modules with `format`.
    pub fn new(format: F) -> (r: File<T, F>)
        ensures
            r.visited() == Set::<Seq<char>>::empty(),
            r.value_spec() is None,
            r.format_spec() == format,
    {
        let r = File { evaluated: Vec::new(), value: None, format };
        assert(r.visited() =~= Set::<Seq<char>>::empty());
        r
    }

    /// The format used.
    pub fn format(&self) -> (r: &F)
        ensures
            *r == self.format_spec(),
    {
        &self.format
    }

    /// The format used, to change it.
    pub fn format_mut(&mut self) -> (r: &mut F)
        ensures
            *r == old(self).format_spec(),
            final(self).format_spec() == *final(r),
            final(self).visited() == old(self).visited(),
            final(self).value_spec() == old(self).value_spec(),
    {
        &mut self.format
    }

    /// Ends the evaluation: `None` when no module was read, else the merged
    /// value.
    pub fn finish(self) -> (r: Option<T>)
        ensures
            r == self.value_spec(),
    {
        self.value
    }

    /// Whether the canonical path `path` was read.
    pub fn is_visited(&self, path: &str) -> (r: bool)
        ensures
            r == self.visited().contains(path@),
    {
        let wanted = path.to_owned();
        let mut i: usize = 0;
        while i < self.evaluated.len()
            invariant
                wanted@ == path@,
                i <= self.evaluated@.len(),
                forall|j: int| 0 <= j < i ==> (#[trigger] self.evaluated@[j])@ != path@,
            decreases self.evaluated@.len() - i,
        {
            if self.evaluated[i].eq(&wanted) {
                proof {
                    assert(labels_view(self.evaluated@)[i as int] == path@);
                }
                return true;
            }
            i = i + 1;
        }
        proof {
            if labels_view(self.evaluated@).contains(path@) {
                let j = choose|j: int| 0 <= j < self.evaluated@.len() && #[trigger] labels_view(self.evaluated@)[j] == path@;
                assert(self.evaluated@[j]@ == path@);
            }
        }
        false
    }
}

impl<T: Merge, F> File<T, F> {
    /// Taking in `module`, read from the canonical path `path`, may turn
    /// `before` into `after` with result `r`. Its value is merged into the
    /// value so far (the first module sets it). When that succeeds, `path`
    /// is marked visited and the result lists the imports resolved against
    /// `path`; when it fails, the merge error is the result and no path is
    /// marked.
    pub open spec fn absorbed(
        before: Self,
        path: Seq<char>,
        module: Module<T>,
        after: Self,
        r: Result<Seq<Seq<char>>, ErrorView>,
    ) -> bool {
        match r {
            Ok(imports) => {
                &&& after.visited() == before.visited().insert(path)
                &&& imports == resolved_all(path, module.imports@)
                &&& after.value_spec() is Some
                &&& match before.value_spec() {
                    None => after.value_spec() == Some(module.value),
                    Some(v) => T::merge_spec(v, module.value, Ok(after.value_spec()->Some_0)),
                }
            },
            Err(e) => {
                &&& after.visited() == before.visited()
                &&& after.value_spec() is Some
                &&& before.value_spec() is Some
                &&& T::merge_spec(before.value_spec()->Some_0, module.value, Err(e))
            },
        }
    }

    /// Takes in `module`, read from the canonical path `path`.
    pub fn absorb(&mut self, path: &str, module: Module<T>) -> (r: Result<Vec<String>, Error>)
        ensures
            Self::absorbed(*old(self), path@, module, *final(self), imports_outcome(r)),
    {
        let Module { imports, value } = module;
        let held = self.value.take();
        match held {
            None => {
                self.value = Some(value);
            },
            Some(a) => {
                let mut a = a;
                let res = a.merge_ref(value);
                self.value = Some(a);
                match res {
                    Ok(()) => {},
                    Err(e) => {
                        return Err(e);
                    },
                }
            },
        }
        let ghost before = self.evaluated@;
        self.evaluated.push(path.to_owned());
        proof {
            let vb = labels_view(before);
            let va = labels_view(self.evaluated@);
            assert(va =~= vb.push(path@));
            assert forall|x: Seq<char>| #[trigger] va.to_set().contains(x) == vb.to_set().insert(path@).contains(x) by {
                if vb.contains(x) {
                    let j = choose|j: int| 0 <= j < vb.len() && vb[j] == x;
                    assert(va[j] == x);
                }
                if va.contains(x) {
                    let j = choose|j: int| 0 <= j < va.len() && va[j] == x;
                    if j < vb.len() {
                        assert(vb[j] == x);
                    }
                }
                assert(va[vb.len() as int] == path@);
            };
            assert(va.to_set() =~= vb.to_set().insert(path@));
        }
        let list = imports.0;
        let mut out: Vec<String> = Vec::new();
        let mut i: usize = 0;
        while i < list.len()
            invariant
                i <= list@.len(),
                labels_view(out@) == resolved_all(path@, labels_view(list@)).subrange(0, i as int),
            decreases list@.len() - i,
        {
            let ghost out0 = out@;
            let p = resolve_import(path, list[i].as_str());
            proof {
                assert(labels_view(list@)[i as int] == list@[i as int]@);
                assert(p@ == resolved_all(path@, labels_view(list@))[i as int]);
            }
            out.push(p);
            proof {
                assert(labels_view(out@) =~= labels_view(out0).push(p@));
            }
            i = i + 1;
            proof {
                assert(labels_view(out@) =~= resolved_all(path@, labels_view(list@)).subrange(0, i as int));
            }
        }
        proof {
            assert(resolved_all(path@, labels_view(list@)).subrange(0, i as int) =~= resolved_all(path@, labels_view(list@)));
        }
        Ok(out)
    }
}

impl<T: Merge, F: Format<T>> File<T, F> {
    /// Reading the canonical path `path` may turn `before` into `after` with
    /// result `r`. A visited path is a cycle and changes nothing. Else the
    /// format is asked to read `path`, and one of the outcomes it admits
    /// decides: its error is the result and changes neither the visited paths
    /// nor the value, or the module it read is taken in as
    /// [`File::absorbed`] says.
    pub open spec fn read_outcome(before: Self, path: Seq<char>, after: Self, r: Result<Seq<Seq<char>>, ErrorView>) -> bool {
        if before.visited().contains(path) {
            r == Err::<Seq<Seq<char>>, ErrorView>(bare(ErrorKind::Cycle)) && after == before
        } else {
            exists|read: Result<Module<T>, ErrorView>|
                #[trigger] F::read_spec(before.format_spec(), path, read) && match read {
                    Ok(m) => Self::absorbed(before, path, m, after, r),
                    Err(e) => {
                        &&& r == Err::<Seq<Seq<char>>, ErrorView>(e)
                        &&& after.visited() == before.visited()
                        &&& after.value_spec() == before.value_spec()
                    },
                }
        }
    }

    /// Reads the module at the canonical path `path`, unless it was read
    /// before (a cycle), and takes it in. The result lists its imports,
    /// resolved, for the caller to read next, in order.
    pub fn read_module(&mut self, path: &str) -> (r: Result<Vec<String>, Error>)
        ensures
            Self::read_outcome(*old(self), path@, *final(self), imports_outcome(r)),
    {
        if self.is_visited(path) {
            return Err(Error::cycle());
        }
        let ghost before = *self;
        let read = self.format.read(path);
        let ghost rv = module_outcome(read);
        match read {
            Err(e) => {
                assert(F::read_spec(before.format_spec(), path@, rv));
                Err(e)
            },
            Ok(module) => {
                let ghost mid = *self;
                let r = self.absorb(path, module);
                proof {
                    assert(mid.visited() == before.visited());
                    assert(mid.value_spec() == before.value_spec());
                    assert(Self::absorbed(before, path@, module, *self, imports_outcome(r)));
                    assert(F::read_spec(before.format_spec(), path@, rv));
                }
                r
            },
        }
    }
}

/// A read step never forgets a visited path.
pub proof fn lemma_read_keeps_visited<T: Merge, F: Format<T>>(
    before: File<T, F>,
    path: Seq<char>,
    after: File<T, F>,
    r: Result<Seq<Seq<char>>, ErrorView>,
)
    requires
        File::read_outcome(before, path, after, r),
    ensures
        before.visited().subset_of(after.visited()),
        r is Ok ==> after.visited().contains(path),
{
    if !before.visited().contains(path) {
        let read = choose|read: Result<Module<T>, ErrorView>|
            #[trigger] F::read_spec(before.format_spec(), path, read) && match read {
                Ok(m) => File::absorbed(before, path, m, after, r),
                Err(e) => {
                    &&& r == Err::<Seq<Seq<char>>, ErrorView>(e)
                    &&& after.visited() == before.visited()
                    &&& after.value_spec() == before.value_spec()
                },
            };
    }
}

proof fn lemma_visited_kept<T: Merge, F: Format<T>>(
    states: Seq<File<T, F>>,
    paths: Seq<Seq<char>>,
    results: Seq<Result<Seq<Seq<char>>, ErrorView>>,
    from: int,
    to: int,
    path: Seq<char>,
)
    requires
        states.len() == paths.len() + 1,
        results.len() == paths.len(),
        forall|i: int| 0 <= i < paths.len() ==> #[trigger] File::read_outcome(states[i], paths[i], states[i + 1], results[i]),
        0 <= from <= to < states.len(),
        states[from].visited().contains(path),
    ensures
        states[to].visited().contains(path),
    decreases to - from,
{
    if from < to {
        lemma_read_keeps_visited(states[from], paths[from], states[from + 1], results[from]);
        lemma_visited_kept(states, paths, results, from + 1, to, path);
    }
}

/// Cycle detection. In a run of read steps (each step reads `paths[i]`,
/// turning `states[i]` into `states[i + 1]` with result `results[i]`), once the
/// module at a path was read successfully, any later read of the same path,
/// however many imports lie between, fails with a cycle.
pub proof fn lemma_revisit_is_cycle<T: Merge, F: Format<T>>(
    states: Seq<File<T, F>>,
    paths: Seq<Seq<char>>,
    results: Seq<Result<Seq<Seq<char>>, ErrorView>>,
    k: int,
    j: int,
)
    requires
        states.len() == paths.len() + 1,
        results.len() == paths.len(),
        forall|i: int| 0 <= i < paths.len() ==> #[trigger] File::read_outcome(states[i], paths[i], states[i + 1], results[i]),
        0 <= k < j < paths.len(),
        results[k] is Ok,
        paths[j] == paths[k],
    ensures
        results[j] == Err::<Seq<Seq<char>>, ErrorView>(bare(ErrorKind::Cycle)),
{
    assert(File::read_outcome(states[k], paths[k], states[k + 1], results[k]));
    lemma_read_keeps_visited(states[k], paths[k], states[k + 1], results[k]);
    lemma_visited_kept(states, paths, results, k + 1, j, paths[k]);
    assert(File::read_outcome(states[j], paths[j], states[j + 1], results[j]));
}

/// A resolved import list over views.
pub open spec fn imports_outcome(r: Result<Vec<String>, Error>) -> Result<Seq<Seq<char>>, ErrorView> {
    match r {
        Ok(v) => Ok(labels_view(v@)),
        Err(e) => Err(e@),
    }
}

} // verus!
