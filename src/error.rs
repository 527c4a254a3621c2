//! The error of a failed merge or evaluation, with its value and module traces.
use vstd::prelude::*;
use vstd::string::StringExecFns;

verus! {

/// Kind of an [`Error`].
#[derive(Debug)]
pub enum ErrorKind {
    /// Two values have no defined way to combine.
    Collision,
    /// The import graph revisited a module.
    Cycle,
    /// A failure forwarded from an outside collaborator (I/O, parsing).
    Custom(String),
}

/// Two kinds are equal when they are the same variant; a custom message is
/// not compared.
pub open spec fn same_kind(a: ErrorKind, b: ErrorKind) -> bool {
    match (a, b) {
        (ErrorKind::Collision, ErrorKind::Collision) => true,
        (ErrorKind::Cycle, ErrorKind::Cycle) => true,
        (ErrorKind::Custom(_), ErrorKind::Custom(_)) => true,
        _ => false,
    }
}

impl ErrorKind {
    /// Whether `self` is [`ErrorKind::Collision`].
    pub fn is_collision(&self) -> (r: bool)
        ensures
            r == (*self is Collision),
    {
        match self {
            ErrorKind::Collision => true,
            _ => false,
        }
    }

    /// Whether `self` is [`ErrorKind::Cycle`].
    pub fn is_cycle(&self) -> (r: bool)
        ensures
            r == (*self is Cycle),
    {
        match self {
            ErrorKind::Cycle => true,
            _ => false,
        }
    }

    /// Whether `self` is [`ErrorKind::Custom`].
    pub fn is_custom(&self) -> (r: bool)
        ensures
            r == (*self is Custom),
    {
        match self {
            ErrorKind::Custom(_) => true,
            _ => false,
        }
    }
}

impl PartialEq for ErrorKind {
    fn eq(&self, other: &ErrorKind) -> (r: bool) {
        match (self, other) {
            (ErrorKind::Collision, ErrorKind::Collision) => true,
            (ErrorKind::Cycle, ErrorKind::Cycle) => true,
            (ErrorKind::Custom(_), ErrorKind::Custom(_)) => true,
            _ => false,
        }
    }
}

impl vstd::std_specs::cmp::PartialEqSpecImpl for ErrorKind {
    open spec fn obeys_eq_spec() -> bool {
        true
    }

    open spec fn eq_spec(&self, other: &ErrorKind) -> bool {
        same_kind(*self, *other)
    }
}

impl Eq for ErrorKind {}

/// The labels of a trace as plain character sequences.
pub open spec fn labels_view(labels: Seq<String>) -> Seq<Seq<char>> {
    labels.map_values(|l: String| l@)
}

proof fn lemma_labels_prepend(label: String, labels: Seq<String>)
    ensures
        labels_view(seq![label] + labels) == seq![label@] + labels_view(labels),
{
    assert(labels_view(seq![label] + labels) =~= seq![label@] + labels_view(labels));
}

/// An ordered, prepend-only list of labels.
///
/// Its view lists the labels most recently added first.
#[derive(Debug)]
pub struct Trace {
    labels: Vec<String>,
}

impl View for Trace {
    type V = Seq<Seq<char>>;

    closed spec fn view(&self) -> Seq<Seq<char>> {
        labels_view(self.labels@)
    }
}

impl Trace {
    /// An empty trace.
    pub fn new() -> (r: Trace)
        ensures
            r@ == Seq::<Seq<char>>::empty(),
    {
        let r = Trace { labels: Vec::new() };
        assert(r@ =~= Seq::<Seq<char>>::empty());
        r
    }

    /// Adds `label` in front of the labels already there.
    pub fn add(&mut self, label: String)
        ensures
            final(self)@ == seq![label@] + old(self)@,
    {
        proof {
            lemma_labels_prepend(label, self.labels@);
        }
        self.labels.insert(0, label);
        assert(self.labels@ =~= seq![label] + old(self).labels@);
    }

    /// Number of labels.
    pub fn len(&self) -> (r: usize)
        ensures
            r == self@.len(),
    {
        self.labels.len()
    }

    /// Whether there is no label.
    pub fn is_empty(&self) -> (r: bool)
        ensures
            r == (self@.len() == 0),
    {
        self.labels.len() == 0
    }

    /// The labels, most recently added first.
    pub fn iter(&self) -> (r: TraceIter)
        ensures
            r@ == self@,
    {
        let mut rest: Vec<String> = Vec::new();
        let mut i: usize = 0;
        while i < self.labels.len()
            invariant
                i <= self.labels@.len(),
                rest@ == self.labels@.subrange(0, i as int),
            decreases self.labels@.len() - i,
        {
            rest.push(self.labels[i].clone());
            i = i + 1;
            assert(rest@ =~= self.labels@.subrange(0, i as int));
        }
        assert(rest@ =~= self.labels@);
        TraceIter { rest }
    }
}

/// The labels of a trace that have not been handed out yet.
#[derive(Debug)]
pub struct TraceIter {
    rest: Vec<String>,
}

impl View for TraceIter {
    type V = Seq<Seq<char>>;

    closed spec fn view(&self) -> Seq<Seq<char>> {
        labels_view(self.rest@)
    }
}

impl TraceIter {
    /// Hands out the front label.
    pub fn next(&mut self) -> (r: Option<String>)
        ensures
            old(self)@.len() == 0 ==> r is None && final(self)@ == old(self)@,
            old(self)@.len() > 0 ==> r is Some && r->Some_0@ == old(self)@[0]
                && final(self)@ == old(self)@.drop_first(),
    {
        if self.rest.len() == 0 {
            None
        } else {
            let s = self.rest.remove(0);
            assert(labels_view(self.rest@) =~= labels_view(old(self).rest@).drop_first());
            Some(s)
        }
    }

    /// Hands out the back label.
    pub fn next_back(&mut self) -> (r: Option<String>)
        ensures
            old(self)@.len() == 0 ==> r is None && final(self)@ == old(self)@,
            old(self)@.len() > 0 ==> r is Some && r->Some_0@ == old(self)@.last()
                && final(self)@ == old(self)@.drop_last(),
    {
        match self.rest.pop() {
            None => None,
            Some(s) => {
                assert(labels_view(self.rest@) =~= labels_view(old(self).rest@).drop_last());
                Some(s)
            },
        }
    }

    /// Number of labels left.
    pub fn len(&self) -> (r: usize)
        ensures
            r == self@.len(),
    {
        self.rest.len()
    }
}

/// The module trace: module identifiers, the failing module added first.
#[derive(Debug)]
pub struct Modules {
    trace: Trace,
}

impl View for Modules {
    type V = Seq<Seq<char>>;

    closed spec fn view(&self) -> Seq<Seq<char>> {
        self.trace@
    }
}

impl Modules {
    /// An empty module trace.
    pub fn new() -> (r: Modules)
        ensures
            r@ == Seq::<Seq<char>>::empty(),
    {
        Modules { trace: Trace::new() }
    }

    /// Number of modules in the trace.
    pub fn len(&self) -> (r: usize)
        ensures
            r == self@.len(),
    {
        self.trace.len()
    }

    /// Whether the trace holds no module.
    pub fn is_empty(&self) -> (r: bool)
        ensures
            r == (self@.len() == 0),
    {
        self.trace.is_empty()
    }

    /// Adds the module `module`, which encloses those already there.
    pub fn push(&mut self, module: String)
        ensures
            final(self)@ == seq![module@] + old(self)@,
    {
        self.trace.add(module);
    }

    /// The modules, in the reverse order of `push`.
    pub fn iter(&self) -> (r: TraceIter)
        ensures
            r@ == self@,
    {
        self.trace.iter()
    }
}

/// The value trace: field-path components, the innermost added first, so
/// that the view reads from the root to the leaf.
#[derive(Debug)]
pub struct Value {
    trace: Trace,
}

impl View for Value {
    type V = Seq<Seq<char>>;

    closed spec fn view(&self) -> Seq<Seq<char>> {
        self.trace@
    }
}

impl Value {
    /// An empty value path.
    pub fn new() -> (r: Value)
        ensures
            r@ == Seq::<Seq<char>>::empty(),
    {
        Value { trace: Trace::new() }
    }

    /// Number of components.
    pub fn len(&self) -> (r: usize)
        ensures
            r == self@.len(),
    {
        self.trace.len()
    }

    /// Whether the path has no component.
    pub fn is_empty(&self) -> (r: bool)
        ensures
            r == (self@.len() == 0),
    {
        self.trace.is_empty()
    }

    /// Adds `component`, which encloses those already there.
    pub fn push(&mut self, component: String)
        ensures
            final(self)@ == seq![component@] + old(self)@,
    {
        self.trace.add(component);
    }

    /// The components, from the root to the leaf.
    pub fn components(&self) -> (r: TraceIter)
        ensures
            r@ == self@,
    {
        self.trace.iter()
    }

    /// The path as text: `'a.b.c'`.
    pub fn to_string(&self) -> (r: String)
        ensures
            r@ == quoted_path(self@),
    {
        proof {
            reveal_strlit(".");
            reveal_strlit("'");
        }
        let parts = &self.trace.labels;
        let ghost pv = labels_view(parts@);
        let mut r = "'".to_owned();
        let ghost head = r@;
        let mut i: usize = 0;
        while i < parts.len()
            invariant
                pv == labels_view(parts@),
                i <= parts@.len(),
                r@ == head + dotted(pv.subrange(0, i as int)),
            decreases parts@.len() - i,
        {
            if i > 0 {
                r.append(".");
            }
            r.append(parts[i].as_str());
            i = i + 1;
            proof {
                let sub = pv.subrange(0, i as int);
                assert(sub.drop_last() =~= pv.subrange(0, i - 1));
                if i == 1 {
                    assert(pv.subrange(0, 0) =~= Seq::<Seq<char>>::empty());
                }
                assert(r@ =~= head + dotted(sub));
            }
        }
        assert(pv.subrange(0, i as int) =~= pv);
        r.append("'");
        r
    }
}

/// What an [`Error`] holds, over plain sequences.
pub struct ErrorView {
    pub kind: ErrorKind,
    pub modules: Seq<Seq<char>>,
    pub value: Seq<Seq<char>>,
}

/// An error of kind `kind` with both traces empty.
pub open spec fn bare(kind: ErrorKind) -> ErrorView {
    ErrorView { kind, modules: Seq::empty(), value: Seq::empty() }
}

/// The error of two values that cannot be combined.
pub open spec fn collision_view() -> ErrorView {
    bare(ErrorKind::Collision)
}

impl ErrorView {
    /// The same error, which crossed the field labelled `label`.
    pub open spec fn with_value(self, label: Seq<char>) -> ErrorView {
        ErrorView { value: seq![label] + self.value, ..self }
    }

    /// The same error, which crossed the module named `module`.
    pub open spec fn with_module(self, module: Seq<char>) -> ErrorView {
        ErrorView { modules: seq![module] + self.modules, ..self }
    }
}

/// The error of a merge or an evaluation.
#[derive(Debug)]
pub struct Error {
    /// What went wrong.
    pub kind: ErrorKind,
    /// The modules the error crossed, innermost first.
    pub modules: Modules,
    /// The path of the value that failed, from the root.
    pub value: Value,
}

impl View for Error {
    type V = ErrorView;

    open spec fn view(&self) -> ErrorView {
        ErrorView { kind: self.kind, modules: self.modules@, value: self.value@ }
    }
}

impl Error {
    /// Two values cannot be combined by the current strategy.
    pub fn collision() -> (r: Error)
        ensures
            r@ == collision_view(),
    {
        Error::with_kind(ErrorKind::Collision)
    }

    /// The evaluation met a cyclic import.
    pub fn cycle() -> (r: Error)
        ensures
            r@ == bare(ErrorKind::Cycle),
    {
        Error::with_kind(ErrorKind::Cycle)
    }

    /// A failure of an outside collaborator, described by `msg`.
    pub fn custom(msg: String) -> (r: Error)
        ensures
            r@ == bare(ErrorKind::Custom(msg)),
    {
        Error::with_kind(ErrorKind::Custom(msg))
    }

    /// An error of kind `kind` with empty traces.
    pub fn with_kind(kind: ErrorKind) -> (r: Error)
        ensures
            r@ == bare(kind),
    {
        Error { kind, modules: Modules::new(), value: Value::new() }
    }
}

/// The text of a kind: its description, or the custom message.
pub open spec fn kind_text(k: ErrorKind) -> Seq<char> {
    match k {
        ErrorKind::Collision => "value collision"@,
        ErrorKind::Cycle => "cyclic imports"@,
        ErrorKind::Custom(m) => m@,
    }
}

/// The components of a value path joined by `.`.
pub open spec fn dotted(parts: Seq<Seq<char>>) -> Seq<char>
    decreases parts.len(),
{
    if parts.len() == 0 {
        Seq::empty()
    } else if parts.len() == 1 {
        parts[0]
    } else {
        dotted(parts.drop_last()) + "."@ + parts.last()
    }
}

/// A value path as text: its components joined by `.`, in single quotes.
pub open spec fn quoted_path(parts: Seq<Seq<char>>) -> Seq<char> {
    "'"@ + dotted(parts) + "'"@
}

/// One `from` line for each of `modules`, from the last to the first.
pub open spec fn from_lines(modules: Seq<Seq<char>>) -> Seq<char>
    decreases modules.len(),
{
    if modules.len() == 0 {
        Seq::empty()
    } else {
        "  from "@ + modules.last() + "\n"@ + from_lines(modules.drop_last())
    }
}

/// The default rendering of an error: its kind, the value path when there is
/// one, then the module chain from the failing module outwards.
pub open spec fn rendered(e: ErrorView) -> Seq<char> {
    let head = if e.value.len() > 0 {
        kind_text(e.kind) + " while evaluating "@ + quoted_path(e.value)
    } else {
        kind_text(e.kind)
    };
    let chain = if e.modules.len() > 0 {
        "\n"@ + "    in "@ + e.modules.last() + "\n"@ + from_lines(e.modules.drop_last())
    } else {
        Seq::empty()
    };
    head + "\n"@ + chain
}

impl ErrorKind {
    /// The text of this kind.
    pub fn to_string(&self) -> (r: String)
        ensures
            r@ == kind_text(*self),
    {
        match self {
            ErrorKind::Collision => {
                proof {
                    reveal_strlit("value collision");
                }
                "value collision".to_owned()
            },
            ErrorKind::Cycle => {
                proof {
                    reveal_strlit("cyclic imports");
                }
                "cyclic imports".to_owned()
            },
            ErrorKind::Custom(m) => m.clone(),
        }
    }
}

impl Error {
    /// The default rendering: `<kind> while evaluating '<value path>'`, then
    /// `in <failing module>` and a `from <module>` line for each enclosing
    /// module.
    pub fn to_string(&self) -> (r: String)
        ensures
            r@ == rendered(self@),
    {
        proof {
            reveal_strlit(".");
            reveal_strlit("'");
            reveal_strlit(" while evaluating ");
            reveal_strlit("\n");
            reveal_strlit("    in ");
            reveal_strlit("  from ");
        }
        let mut r = self.kind.to_string();
        if self.value.len() > 0 {
            r.append(" while evaluating ");
            let path = self.value.to_string();
            r.append(path.as_str());
        }
        r.append("\n");
        let mods = &self.modules.trace.labels;
        let ghost mv = labels_view(mods@);
        let n = mods.len();
        if n > 0 {
            r.append("\n");
            r.append("    in ");
            r.append(mods[n - 1].as_str());
            r.append("\n");
            let ghost ms = mv.drop_last();
            let ghost start = r@;
            let mut i: usize = n - 1;
            proof {
                assert(ms.subrange(0, i as int) =~= ms);
            }
            while i > 0
                invariant
                    mv == labels_view(mods@),
                    n == mods@.len(),
                    ms == mv.drop_last(),
                    i <= n - 1,
                    r@ + from_lines(ms.subrange(0, i as int)) == start + from_lines(ms),
                decreases i,
            {
                let ghost before = r@;
                r.append("  from ");
                r.append(mods[i - 1].as_str());
                r.append("\n");
                proof {
                    let sub = ms.subrange(0, i as int);
                    assert(sub.drop_last() =~= ms.subrange(0, i - 1));
                    assert(sub.last() == mods@[i - 1]@);
                    assert(r@ + from_lines(ms.subrange(0, i - 1)) =~= before + from_lines(sub));
                }
                i = i - 1;
            }
            proof {
                assert(ms.subrange(0, 0) =~= Seq::<Seq<char>>::empty());
                assert(r@ =~= start + from_lines(ms));
                assert(r@ =~= rendered(self@));
            }
        } else {
            proof {
                assert(r@ =~= rendered(self@));
            }
        }
        r
    }
}

/// Adding context to a failed result.
pub trait Context: Sized {
    /// `r` is `self` with the module `name` added to its module trace, if
    /// `self` failed.
    spec fn module_added(self, name: Seq<char>, r: Self) -> bool;

    /// `r` is `self` with the component `name` added to its value trace, if
    /// `self` failed.
    spec fn value_added(self, name: Seq<char>, r: Self) -> bool;

    /// Records that the error happened in the module `name`. Modules are
    /// added from the failing one outwards to the root.
    fn module(self, name: String) -> (r: Self)
        ensures
            Self::module_added(self, name@, r),
    ;

    /// Records that the error happened in the value `name`. Components are
    /// added from the leaf outwards to the root.
    fn value(self, name: String) -> (r: Self)
        ensures
            Self::value_added(self, name@, r),
    ;
}

impl<T> Context for Result<T, Error> {
    open spec fn module_added(self, name: Seq<char>, r: Self) -> bool {
        match (self, r) {
            (Ok(a), Ok(b)) => a == b,
            (Err(a), Err(b)) => b@ == a@.with_module(name),
            _ => false,
        }
    }

    open spec fn value_added(self, name: Seq<char>, r: Self) -> bool {
        match (self, r) {
            (Ok(a), Ok(b)) => a == b,
            (Err(a), Err(b)) => b@ == a@.with_value(name),
            _ => false,
        }
    }

    fn module(self, name: String) -> (r: Self) {
        match self {
            Ok(v) => Ok(v),
            Err(e) => {
                let mut e = e;
                e.modules.push(name);
                Err(e)
            },
        }
    }

    fn value(self, name: String) -> (r: Self) {
        match self {
            Ok(v) => Ok(v),
            Err(e) => {
                let mut e = e;
                e.value.push(name);
                Err(e)
            },
        }
    }
}

} // verus!
