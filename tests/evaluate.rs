use module::cell::{try_merge, MergeCell};
use module::error::{Context, Error, ErrorKind, Modules, Trace, Value};
use module::file::{resolve_import, File, Format, Imports, Module};
use module::merge::{merge_field, Merge};
use module::walk::ImportWalk;
use module::types::{Last, Overridable};

/// Modules held in memory, keyed by canonical path.
struct Memory<T> {
    modules: Vec<(String, Vec<String>, T)>,
}

impl<T: Clone> Format<T> for Memory<T> {
    fn read(&mut self, path: &str) -> Result<Module<T>, Error> {
        for (p, imports, value) in &self.modules {
            if p == path {
                return Ok(Module { imports: Imports(imports.clone()), value: value.clone() });
            }
        }
        Err(Error::custom(format!("no such module: {path}")))
    }
}

fn read<T: Merge + Clone>(file: &mut File<T, Memory<T>>, root: &str) -> Result<(), Error> {
    // Paths in memory are canonical already.
    let mut walk = ImportWalk::new(root.to_string());
    while let Some(next) = walk.next() {
        walk.visit(file, &next)?;
    }
    Ok(())
}

fn evaluate<T: Merge + Clone>(root: &str, modules: Vec<(&str, Vec<&str>, T)>) -> Result<Option<T>, Error> {
    let modules = modules
        .into_iter()
        .map(|(p, i, v)| (p.to_string(), i.into_iter().map(String::from).collect(), v))
        .collect();
    let mut file = File::new(Memory { modules });
    read(&mut file, root)?;
    Ok(file.finish())
}

#[derive(Debug, Clone, Default)]
struct Config {
    x: Option<Overridable<i32>>,
    y: Option<Last<String>>,
}

impl Merge for Config {
    fn merge_ref(&mut self, other: Self) -> Result<(), Error> {
        merge_field(&mut self.x, other.x, "x".to_string())?;
        merge_field(&mut self.y, other.y, "y".to_string())
    }
}

fn with_x(v: i32, p: isize) -> Config {
    Config { x: Some(Overridable::with_priority(v, p)), y: None }
}

fn with_y(v: &str) -> Config {
    Config { x: None, y: Some(Last(v.to_string())) }
}

#[test]
fn lower_priority_wins_across_imports() {
    let r = evaluate(
        "/c/a.json",
        vec![("/c/a.json", vec!["b.json"], with_x(1, 10)), ("/c/b.json", vec![], with_x(2, 5))],
    );
    let config = r.unwrap().unwrap();
    assert_eq!(*config.x.unwrap().value(), 2);
}

#[test]
fn last_writer_in_declared_order() {
    let r = evaluate(
        "/c/root.json",
        vec![
            ("/c/root.json", vec!["b.json", "c.json"], Config::default()),
            ("/c/b.json", vec![], with_y("b")),
            ("/c/c.json", vec![], with_y("c")),
        ],
    );
    assert_eq!(r.unwrap().unwrap().y.unwrap().0, "c");
}

#[test]
fn mutual_imports_are_a_cycle() {
    let r = evaluate(
        "/c/a.json",
        vec![("/c/a.json", vec!["b.json"], ()), ("/c/b.json", vec!["a.json"], ())],
    );
    let err = r.unwrap_err();
    assert_eq!(err.kind, ErrorKind::Cycle);
    let mut chain = err.modules.iter();
    assert_eq!(chain.next().as_deref(), Some("/c/a.json"));
    assert_eq!(chain.next().as_deref(), Some("/c/b.json"));
    assert_eq!(chain.next().as_deref(), Some("/c/a.json"));
    assert_eq!(chain.next(), None);
}

#[test]
fn self_import_is_a_cycle() {
    let r = evaluate("/c/a.json", vec![("/c/a.json", vec!["a.json"], ())]);
    assert!(r.unwrap_err().kind.is_cycle());
}

#[test]
fn long_cycle_is_detected() {
    let r = evaluate(
        "/a",
        vec![("/a", vec!["b"], ()), ("/b", vec!["c"], ()), ("/c", vec!["d"], ()), ("/d", vec!["b"], ())],
    );
    assert_eq!(r.unwrap_err().kind, ErrorKind::Cycle);
}

#[test]
fn merge_failure_names_field_and_modules() {
    let r = evaluate(
        "/c/a.json",
        vec![("/c/a.json", vec!["b.json"], with_x(1, 7)), ("/c/b.json", vec![], with_x(2, 7))],
    );
    let err = r.unwrap_err();
    assert!(err.kind.is_collision());
    assert_eq!(err.value.components().next().as_deref(), Some("x"));
    assert_eq!(
        err.to_string(),
        "value collision while evaluating 'x'\n\n    in /c/b.json\n  from /c/a.json\n"
    );
}

#[test]
fn missing_module_is_custom_and_reads_nothing() {
    let r: Result<Option<()>, Error> = evaluate("/nowhere", vec![]);
    let err = r.unwrap_err();
    assert!(err.kind.is_custom());
    assert_eq!(err.kind.to_string(), "no such module: /nowhere");
    let file: File<(), Memory<()>> = File::new(Memory { modules: vec![] });
    assert!(file.finish().is_none());
}

#[test]
fn read_module_marks_visited_and_resolves_imports() {
    let modules = vec![("/etc/app/main.json".to_string(), vec!["extra.json".to_string(), "/abs.json".to_string()], vec![1])];
    let mut file = File::new(Memory { modules });
    assert!(!file.is_visited("/etc/app/main.json"));
    let imports = file.read_module("/etc/app/main.json").unwrap();
    assert_eq!(imports, vec!["/etc/app/extra.json".to_string(), "/abs.json".to_string()]);
    assert!(file.is_visited("/etc/app/main.json"));
    assert!(file.read_module("/etc/app/main.json").unwrap_err().kind.is_cycle());
    assert_eq!(file.format().modules.len(), 1);
    file.format_mut().modules.clear();
    assert_eq!(file.finish(), Some(vec![1]));
}

#[test]
fn absorb_merges_in_order() {
    let mut file: File<Vec<i32>, Memory<Vec<i32>>> = File::new(Memory { modules: vec![] });
    let m = Module { imports: Imports(vec![]), value: vec![1] };
    assert!(file.absorb("/a", m).unwrap().is_empty());
    let m = Module { imports: Imports(vec!["c".to_string()]), value: vec![2] };
    assert_eq!(file.absorb("/x/b", m).unwrap(), vec!["/x/c".to_string()]);
    assert_eq!(file.finish(), Some(vec![1, 2]));
}

#[test]
fn imports_resolve_against_the_importer_directory() {
    assert_eq!(resolve_import("/a/b/c.json", "d.json"), "/a/b/d.json");
    assert_eq!(resolve_import("/a/b/c.json", "../d.json"), "/a/b/../d.json");
    assert_eq!(resolve_import("/c.json", "d.json"), "/d.json");
    assert_eq!(resolve_import("/a/c.json", "/etc/d.json"), "/etc/d.json");
    assert_eq!(resolve_import("c.json", "d.json"), "d.json");
}

#[test]
fn accumulator_keeps_the_first_error() {
    let mut cell = MergeCell::empty();
    assert!(cell.is_empty());
    cell.merge(Overridable::with_priority(1, 10));
    assert!(!cell.has_errored());
    cell.merge(Overridable::with_priority(2, 10));
    assert!(cell.has_errored());
    cell.merge(Overridable::with_priority(3, 1));
    let err = cell.finish().unwrap_err();
    assert_eq!(err.kind, ErrorKind::Collision);
}

#[test]
fn accumulator_folds_in_order() {
    let mut cell = MergeCell::new(vec![1, 2]);
    cell.merge(vec![]);
    cell.merge(vec![0, 4, 8]);
    assert_eq!(cell.try_finish().unwrap().unwrap(), vec![1, 2, 0, 4, 8]);
    assert!(MergeCell::<Vec<i32>>::empty().try_finish().is_none());
}

#[test]
fn fold_of_a_list() {
    let merged = try_merge(vec![vec![0, 6], vec![2, 3, 7], vec![], vec![1, 5], vec![4]]);
    assert_eq!(merged.unwrap().unwrap(), vec![0, 6, 2, 3, 7, 1, 5, 4]);
    assert!(try_merge(Vec::<()>::new()).is_none());
    let failed = try_merge(vec![Overridable::with_priority(1, 3), Overridable::with_priority(2, 3), Overridable::with_priority(3, 0)]);
    assert!(failed.unwrap().unwrap_err().kind.is_collision());
}

#[test]
fn error_rendering() {
    let r = 42i32
        .merge(43i32)
        .value("count".to_string())
        .value("settings".to_string())
        .module("user.json".to_string())
        .module("config.json".to_string());
    let err = r.unwrap_err();
    assert_eq!(
        err.to_string(),
        "value collision while evaluating 'settings.count'\n\n    in user.json\n  from config.json\n"
    );
    assert_eq!(Error::cycle().to_string(), "cyclic imports\n");
    assert_eq!(Error::custom("boom".to_string()).to_string(), "boom\n");
    assert_eq!(ErrorKind::Collision.to_string(), "value collision");
}

#[test]
fn error_kinds() {
    assert!(Error::collision().kind.is_collision());
    assert!(Error::cycle().kind.is_cycle());
    assert!(Error::custom("m".to_string()).kind.is_custom());
    assert_eq!(ErrorKind::Custom("a".to_string()), ErrorKind::Custom("b".to_string()));
    assert_ne!(ErrorKind::Cycle, ErrorKind::Collision);
    let ok: Result<i32, Error> = Ok(1);
    assert_eq!(ok.module("m".to_string()).value("v".to_string()).unwrap(), 1);
}

#[test]
fn traces_list_the_latest_first() {
    let mut t = Trace::new();
    assert!(t.is_empty());
    t.add("item 1".to_string());
    t.add("item 2".to_string());
    assert_eq!(t.len(), 2);
    let mut it = t.iter();
    assert_eq!(it.len(), 2);
    assert_eq!(it.next().as_deref(), Some("item 2"));
    assert_eq!(it.next().as_deref(), Some("item 1"));
    assert_eq!(it.next(), None);

    let mut m = Modules::new();
    m.push("module 1".to_string());
    m.push("module 2".to_string());
    assert_eq!(m.len(), 2);
    let mut it = m.iter();
    assert_eq!(it.next_back().as_deref(), Some("module 1"));
    assert_eq!(it.next().as_deref(), Some("module 2"));
    assert_eq!(it.next_back(), None);

    let mut v = Value::new();
    assert!(v.is_empty());
    v.push("leaf".to_string());
    v.push("root".to_string());
    assert_eq!(v.len(), 2);
    let parts: Vec<String> = {
        let mut it = v.components();
        let mut out = Vec::new();
        while let Some(p) = it.next() {
            out.push(p);
        }
        out
    };
    assert_eq!(parts, vec!["root".to_string(), "leaf".to_string()]);
}

#[test]
fn walk_is_depth_first_in_declared_order() {
    let r = evaluate(
        "/r",
        vec![
            ("/r", vec!["a", "d"], vec![0]),
            ("/a", vec!["b", "c"], vec![1]),
            ("/b", vec![], vec![2]),
            ("/c", vec![], vec![3]),
            ("/d", vec![], vec![4]),
        ],
    );
    assert_eq!(r.unwrap().unwrap(), vec![0, 1, 2, 3, 4]);
}

#[test]
fn walk_hands_out_paths() {
    let mut walk = ImportWalk::new("/root".to_string());
    assert_eq!(walk.next().as_deref(), Some("/root"));
    assert_eq!(walk.next(), None);
    let e = walk.fail(Error::cycle());
    assert!(e.modules.is_empty());
}

#[test]
fn value_path_text() {
    let mut v = Value::new();
    assert_eq!(v.to_string(), "''");
    v.push("count".to_string());
    v.push("settings".to_string());
    assert_eq!(v.to_string(), "'settings.count'");
}

#[test]
fn failed_cell_drops_later_values() {
    let mut cell = MergeCell::new(1i32);
    cell.merge(2);
    assert!(cell.has_errored());
    cell.merge(3);
    assert!(cell.try_finish().unwrap().unwrap_err().kind.is_collision());
}
