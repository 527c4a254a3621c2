//! The order in which the evaluator reads modules, and the module trace of
//! its errors.
//!
//! [`ImportWalk`] hands out the path to read next: the root first, then the
//! imports of each module read, depth first and in declared order. The caller
//! makes each path canonical and passes it to [`ImportWalk::visit`], which
//! reads it with a [`File`]. An error leaving a module gets the module's path
//! added to its module trace, then the path of each module that imported it,
//! out to the root.
use vstd::prelude::*;

use crate::error::{labels_view, Error, ErrorView};
use crate::file::{File, Format};
use crate::merge::Merge;

verus! {

/// A module being read: its canonical path and the imports not handed out
/// yet.
#[derive(Debug)]
struct Frame {
    path: String,
    pending: Vec<String>,
}

/// A frame over plain sequences.
pub type FrameView = (Seq<char>, Seq<Seq<char>>);

spec fn frames_view(frames: Seq<Frame>) -> Seq<FrameView> {
    frames.map_values(|f: Frame| (f.path@, labels_view(f.pending@)))
}

/// The stack without the frames at its top whose imports are all handed out.
pub open spec fn trimmed(stack: Seq<FrameView>) -> Seq<FrameView>
    decreases stack.len(),
{
    if stack.len() > 0 && stack.last().1.len() == 0 {
        trimmed(stack.drop_last())
    } else {
        stack
    }
}

/// The paths of the modules on the stack, from the root.
pub open spec fn stack_paths(stack: Seq<FrameView>) -> Seq<Seq<char>> {
    stack.map_values(|f: FrameView| f.0)
}

impl ErrorView {
    /// The same error, which crossed the modules `outer` (listed from the
    /// root) on its way out.
    pub open spec fn with_modules(self, outer: Seq<Seq<char>>) -> ErrorView {
        ErrorView { modules: outer + self.modules, ..self }
    }
}

/// The depth-first walk over the imports of a root module.
#[derive(Debug)]
pub struct ImportWalk {
    root: Option<String>,
    frames: Vec<Frame>,
}

impl ImportWalk {
    /// The root path, while it has not been handed out.
    pub closed spec fn root_spec(self) -> Option<Seq<char>> {
        match self.root {
            Some(r) => Some(r@),
            None => None,
        }
    }

    /// The modules being read, from the root, each with its imports not
    /// handed out yet.
    pub closed spec fn stack(self) -> Seq<FrameView> {
        frames_view(self.frames@)
    }

    /// A walk that starts at the module at `root`.
    pub fn new(root: String) -> (r: ImportWalk)
        ensures
            r.root_spec() == Some(root@),
            r.stack() == Seq::<FrameView>::empty(),
    {
        let r = ImportWalk { root: Some(root), frames: Vec::new() };
        assert(r.stack() =~= Seq::<FrameView>::empty());
        r
    }

    /// The path to read next: the root, then the first import not handed out
    /// of the innermost module that has one. `None` when all is read.
    pub fn next(&mut self) -> (r: Option<String>)
        ensures
            ({
                let t = trimmed(old(self).stack());
                &&& t.len() == 0 ==> {
                    &&& final(self).stack() == t
                    &&& final(self).root_spec() is None
                    &&& match r {
                        Some(p) => old(self).root_spec() == Some(p@),
                        None => old(self).root_spec() is None,
                    }
                }
                &&& t.len() > 0 ==> {
                    &&& r is Some
                    &&& r->Some_0@ == t.last().1[0]
                    &&& final(self).stack() == t.update(t.len() - 1, (t.last().0, t.last().1.drop_first()))
                    &&& final(self).root_spec() == old(self).root_spec()
                }
            }),
    {
        while self.frames.len() > 0 && self.frames[self.frames.len() - 1].pending.len() == 0
            invariant
                trimmed(self.stack()) == trimmed(old(self).stack()),
                self.root == old(self).root,
            decreases self.frames.len(),
        {
            let ghost before = self.frames@;
            self.frames.pop();
            proof {
                assert(frames_view(self.frames@) =~= frames_view(before).drop_last());
            }
        }
        proof {
            assert(trimmed(self.stack()) == self.stack());
        }
        if self.frames.len() == 0 {
            return self.root.take();
        }
        let ghost before = self.frames@;
        let mut top = self.frames.pop().unwrap();
        let ghost pending0 = top.pending@;
        let p = top.pending.remove(0);
        proof {
            assert(labels_view(top.pending@) =~= labels_view(pending0).drop_first());
        }
        self.frames.push(top);
        proof {
            let t = frames_view(before);
            assert(frames_view(self.frames@) =~= t.update(t.len() - 1, (t.last().0, t.last().1.drop_first())));
        }
        Some(p)
    }

    /// Adds the paths of the modules on the stack to the module trace of
    /// `e`, from the innermost out to the root.
    pub fn fail(&self, e: Error) -> (r: Error)
        ensures
            r@ == e@.with_modules(stack_paths(self.stack())),
    {
        let ghost e0 = e@;
        let ghost paths = stack_paths(self.stack());
        let mut e = e;
        let n = self.frames.len();
        let mut i = n;
        proof {
            assert(paths.subrange(n as int, n as int) + e0.modules =~= e0.modules);
            assert(e@ == e0.with_modules(paths.subrange(n as int, n as int)));
        }
        while i > 0
            invariant
                n == self.frames@.len(),
                paths == stack_paths(self.stack()),
                i <= n,
                e@ == e0.with_modules(paths.subrange(i as int, n as int)),
            decreases i,
        {
            e.modules.push(self.frames[i - 1].path.clone());
            proof {
                assert(paths[i - 1] == self.frames@[i - 1].path@);
                assert(seq![paths[i - 1]] + paths.subrange(i as int, n as int) =~= paths.subrange(i - 1, n as int));
                assert(e@.modules =~= paths.subrange(i - 1, n as int) + e0.modules);
                assert(e@ == e0.with_modules(paths.subrange(i - 1, n as int)));
            }
            i = i - 1;
        }
        proof {
            assert(paths.subrange(0, n as int) =~= paths);
        }
        e
    }

    /// Reads the module at the canonical path `path` with `file`. On success
    /// its imports go on the stack, to be handed out next. On failure the
    /// error gets `path` added to its module trace, then the modules on the
    /// stack, innermost first.
    pub fn visit<T: Merge, F: Format<T>>(&mut self, file: &mut File<T, F>, path: &str) -> (r: Result<(), Error>)
        ensures
            final(self).root_spec() == old(self).root_spec(),
            match r {
                Ok(_) => {
                    &&& final(self).stack().len() == old(self).stack().len() + 1
                    &&& final(self).stack().drop_last() == old(self).stack()
                    &&& final(self).stack().last().0 == path@
                    &&& File::read_outcome(*old(file), path@, *final(file), Ok(final(self).stack().last().1))
                },
                Err(e) => exists|e0: ErrorView|
                    File::read_outcome(*old(file), path@, *final(file), Err(e0))
                        && e@ == #[trigger] e0.with_modules(stack_paths(old(self).stack()).push(path@)),
            },
    {
        match file.read_module(path) {
            Ok(imports) => {
                let ghost before = self.frames@;
                self.frames.push(Frame { path: path.to_owned(), pending: imports });
                proof {
                    assert(frames_view(self.frames@).drop_last() =~= frames_view(before));
                }
                Ok(())
            },
            Err(e) => {
                let ghost e0 = e@;
                let mut e = e;
                e.modules.push(path.to_owned());
                let r = self.fail(e);
                proof {
                    let paths = stack_paths(self.stack());
                    assert(paths + (seq![path@] + e0.modules) =~= paths.push(path@) + e0.modules);
                    assert(r@ == e0.with_modules(paths.push(path@)));
                }
                Err(r)
            },
        }
    }
}

} // verus!
