//! Whole demands, driven step by step the way an executor would drive them.

use guacamole::cell::QueryCell;
use guacamole::dep::duplicate_deps;
use guacamole::runtime::Conclusion;
use guacamole::runtime::QueryStep;
use guacamole::table::QueriesMap;
use guacamole::walk::WalkStep;
use guacamole::walk::Walker;
use guacamole::Invalidation;
use guacamole::QueryTracker;
use guacamole::Reservation;
use guacamole::Revision;
use guacamole::Runtime;
use std::any::TypeId;
use std::collections::HashMap;
use std::sync::Arc;

/// The queries of all scenarios.
#[derive(Hash, PartialEq, Eq, Debug, Clone)]
enum Key {
    A,
    B,
    File,
    Add { c: usize },
    Parse,
    Indirect(Box<Key>),
    ProcessParsed,
    Loop,
    Count(usize),
    ProcessCounted,
    Long(Box<Key>),
    Fan,
    Intermediate,
    Diamond,
}

#[derive(PartialEq, Eq, Debug, Clone)]
enum Out {
    Text(String),
    Unit,
    Maybe(Option<()>),
}

fn text(s: &str) -> Out {
    Out::Text(s.to_string())
}

fn as_text(out: &Out) -> String {
    match out {
        Out::Text(s) => s.clone(),
        other => panic!("not a text: {:?}", other),
    }
}

struct TA;
struct TB;
struct TFile;
struct TAdd;
struct TParse;
struct TIndirect<Q>(Q);
struct TProcessParsed;
struct TLoop;
struct TCount;
struct TProcessCounted;
struct TLong<Q>(Q);
struct TFan;
struct TIntermediate;
struct TDiamond;

fn type_of(key: &Key) -> TypeId {
    match key {
        Key::A => TypeId::of::<TA>(),
        Key::B => TypeId::of::<TB>(),
        Key::File => TypeId::of::<TFile>(),
        Key::Add { .. } => TypeId::of::<TAdd>(),
        Key::Parse => TypeId::of::<TParse>(),
        Key::Indirect(inner) => match **inner {
            Key::Parse => TypeId::of::<TIndirect<TParse>>(),
            _ => TypeId::of::<TIndirect<TA>>(),
        },
        Key::ProcessParsed => TypeId::of::<TProcessParsed>(),
        Key::Loop => TypeId::of::<TLoop>(),
        Key::Count(_) => TypeId::of::<TCount>(),
        Key::ProcessCounted => TypeId::of::<TProcessCounted>(),
        Key::Long(inner) => match **inner {
            Key::A => TypeId::of::<TLong<TA>>(),
            Key::B => TypeId::of::<TLong<TB>>(),
            _ => TypeId::of::<TLong<TIntermediate>>(),
        },
        Key::Fan => TypeId::of::<TFan>(),
        Key::Intermediate => TypeId::of::<TIntermediate>(),
        Key::Diamond => TypeId::of::<TDiamond>(),
    }
}

/// The table and the counters of calculations run.
struct Engine {
    queries: QueriesMap<Key, Out>,
    runs: HashMap<&'static str, usize>,
}

impl Engine {
    fn new() -> Engine {
        Engine { queries: QueriesMap::new(), runs: HashMap::new() }
    }

    fn count(&mut self, name: &'static str) {
        *self.runs.entry(name).or_insert(0) += 1;
    }

    fn runs(&self, name: &'static str) -> usize {
        self.runs.get(name).copied().unwrap_or(0)
    }
}

/// What a calculation sees of the engine.
enum System<'a> {
    Recording(&'a mut QueryTracker),
    Plain(&'a Runtime),
}

impl<'a> System<'a> {
    fn query(&mut self, engine: &mut Engine, key: Key) -> Out {
        match self {
            System::Recording(tracker) => {
                let runtime = tracker.runtime().fork_no_inc();
                let cell = query_inner(&runtime, engine, key);
                (*tracker.track(cell)).clone()
            }
            System::Plain(runtime) => {
                let (value, _) = Runtime::query_rev(query_inner(runtime, engine, key));
                (*value).clone()
            }
        }
    }

    /// A demand from a computation that runs beside this one: a lineage of
    /// its own, the same list of records.
    fn query_forked(&mut self, engine: &mut Engine, key: Key) -> Out {
        match self {
            System::Recording(tracker) => {
                let runtime = tracker.runtime().fork_inner();
                let cell = query_inner(&runtime, engine, key);
                (*tracker.track(cell)).clone()
            }
            System::Plain(runtime) => {
                let fork = runtime.fork_inner();
                let (value, _) = Runtime::query_rev(query_inner(&fork, engine, key));
                (*value).clone()
            }
        }
    }
}

fn on_cycle(key: &Key) -> Out {
    match key {
        Key::Loop => Out::Maybe(None),
        other => panic!("Cycle detected in {:?}", other),
    }
}

fn calc(key: &Key, system: &mut System, engine: &mut Engine) -> Out {
    match key {
        Key::A | Key::B | Key::File => Out::Text(String::new()),
        Key::Add { c } => {
            let a = as_text(&system.query(engine, Key::A));
            let b = as_text(&system.query(engine, Key::B));
            engine.count("add");
            Out::Text(format!("{} + {} + {}", a, b, c))
        }
        Key::Parse => {
            engine.count("parse");
            let file = as_text(&system.query(engine, Key::File));
            Out::Text(file.chars().filter(|c| !c.is_whitespace()).collect())
        }
        Key::Indirect(inner) => system.query(engine, (**inner).clone()),
        Key::ProcessParsed => {
            let out = system.query(engine, Key::Indirect(Box::new(Key::Parse)));
            engine.count("process");
            out
        }
        Key::Loop => {
            let _file = system.query(engine, Key::File);
            system.query(engine, Key::Loop)
        }
        Key::Count(n) => {
            let _file = system.query(engine, Key::File);
            engine.count("count");
            if *n > 0 {
                system.query(engine, Key::Count(*n - 1));
            }
            Out::Unit
        }
        Key::ProcessCounted => {
            system.query(engine, Key::Count(1));
            engine.count("process");
            Out::Unit
        }
        Key::Long(inner) => {
            let out = system.query(engine, (**inner).clone());
            engine.count("long");
            out
        }
        Key::Fan => {
            let a = as_text(&system.query_forked(engine, Key::Long(Box::new(Key::A))));
            let b = as_text(&system.query_forked(engine, Key::Long(Box::new(Key::B))));
            Out::Text(format!("{} + {} + {}", a, b, 4))
        }
        Key::Intermediate => {
            let input = as_text(&system.query(engine, Key::A));
            engine.count("intermediate");
            Out::Text(format!("{}2", input))
        }
        Key::Diamond => {
            let a = as_text(&system.query_forked(engine, Key::Long(Box::new(Key::Intermediate))));
            let b = as_text(&system.query_forked(engine, Key::Long(Box::new(Key::Intermediate))));
            Out::Text(format!("{} + {}", a, b))
        }
    }
}

fn recalc(
    runtime: &Runtime,
    engine: &mut Engine,
    query: Arc<Key>,
    current_rev: Revision,
    holder: Reservation,
) -> QueryCell<Out> {
    let mut tracker = QueryTracker::new(runtime);
    let output = calc(&query, &mut System::Recording(&mut tracker), engine);
    let deps = tracker.into_deps();
    let cell = engine.queries.complete_query(type_of(&query), query, output, current_rev, deps);
    holder.release();
    cell
}

fn walk(runtime: &Runtime, engine: &mut Engine, cell: &QueryCell<Out>) -> Invalidation {
    let mut walker = Walker::new(duplicate_deps(cell.deps()));
    loop {
        if let Some(idx) = walker.target() {
            assert!(engine.queries.has_cell(&idx), "Dep storage");
        }
        match walker.step(&mut engine.queries) {
            WalkStep::Continue => {}
            WalkStep::Recalc(key) => {
                let output = calc(&key, &mut System::Plain(runtime), engine);
                let idx = walker.target().unwrap();
                assert!(engine.queries.cell(&idx).is_calculated(), "Still calculating");
                walker.supply(&mut engine.queries, output);
            }
            WalkStep::Done(found) => return found,
        }
    }
}

fn query_inner(runtime: &Runtime, engine: &mut Engine, key: Key) -> QueryCell<Out> {
    let query_type = type_of(&key);
    let query = Arc::new(key);
    let (step, current_rev) = runtime.begin_query(&mut engine.queries, query_type, query.clone());
    match step {
        QueryStep::Compute(holder) => recalc(runtime, engine, query, current_rev, holder),
        QueryStep::Wait(_) => panic!("nothing runs beside this demand"),
        QueryStep::Cycle(mut cell) => {
            cell.on_cycle(on_cycle(&query));
            cell
        }
        QueryStep::Ready(cell) => cell,
        QueryStep::Validate(cell) => {
            let found = walk(runtime, engine, &cell);
            match runtime.conclude_query(
                &mut engine.queries,
                query_type,
                query.clone(),
                cell,
                found,
                current_rev,
            ) {
                Conclusion::Recompute(holder) => {
                    recalc(runtime, engine, query, current_rev, holder)
                }
                Conclusion::Done(cell) => cell,
            }
        }
    }
}

fn set_input(runtime: &Runtime, engine: &mut Engine, key: Key, value: &str) {
    runtime.set_input(&mut engine.queries, type_of(&key), Arc::new(key), text(value));
}

fn query_rev(runtime: &Runtime, engine: &mut Engine, key: Key) -> (Out, String) {
    let (value, rev) = Runtime::query_rev(query_inner(runtime, engine, key));
    ((*value).clone(), rev.label())
}

fn assert_query(runtime: &Runtime, engine: &mut Engine, rev: &str, expected: Out, key: Key) {
    let (out, at) = query_rev(runtime, engine, key.clone());
    assert_eq!(at, rev, "Revision {:?}", key);
    assert_eq!(out, expected, "Query output {:?}", key);
}

#[test]
fn dep_tracking() {
    let system = Runtime::default();
    let mut engine = Engine::new();
    set_input(&system, &mut engine, Key::A, "2");
    set_input(&system, &mut engine, Key::B, "3");

    assert_query(&system, &mut engine, "R1", text("2"), Key::A);
    assert_query(&system, &mut engine, "R2", text("3"), Key::B);

    assert_query(&system, &mut engine, "R2", text("2 + 3 + 4"), Key::Add { c: 4 });
    assert_eq!(engine.runs("add"), 1, "Processed count");

    assert_query(&system, &mut engine, "R2", text("2 + 3 + 4"), Key::Add { c: 4 });
    assert_eq!(engine.runs("add"), 1, "Processed count");

    assert_query(&system, &mut engine, "R2", text("2 + 3 + 1"), Key::Add { c: 1 });
    assert_eq!(engine.runs("add"), 2, "Processed count");

    assert_query(&system, &mut engine, "R2", text("2 + 3 + 4"), Key::Add { c: 4 });
    assert_eq!(engine.runs("add"), 2, "Processed count");

    set_input(&system, &mut engine, Key::A, "X");
    assert_query(&system, &mut engine, "R3", text("X"), Key::A);

    assert_query(&system, &mut engine, "R3", text("X + 3 + 4"), Key::Add { c: 4 });
    assert_eq!(engine.runs("add"), 3, "Processed count");

    assert_query(&system, &mut engine, "R3", text("X + 3 + 4"), Key::Add { c: 4 });
    assert_eq!(engine.runs("add"), 3, "Processed count");
}

#[test]
fn output_eq() {
    let system = Runtime::default();
    let mut engine = Engine::new();

    set_input(&system, &mut engine, Key::File, "2+3");
    assert_query(&system, &mut engine, "R1", text("2+3"), Key::File);

    assert_query(&system, &mut engine, "R1", text("2+3"), Key::ProcessParsed);
    assert_eq!(engine.runs("process"), 1, "Processed count");
    assert_eq!(engine.runs("parse"), 1, "Parsed count");

    set_input(&system, &mut engine, Key::File, "2 + 3");
    assert_query(&system, &mut engine, "R2", text("2 + 3"), Key::File);

    assert_query(&system, &mut engine, "R1", text("2+3"), Key::ProcessParsed);
    assert_eq!(engine.runs("process"), 1, "Processed count");
    assert_eq!(engine.runs("parse"), 2, "Parsed count");

    assert_query(&system, &mut engine, "R2", text("2+3"), Key::ProcessParsed);
    assert_eq!(engine.runs("process"), 1, "Processed count");
    assert_eq!(engine.runs("parse"), 2, "Parsed count");

    set_input(&system, &mut engine, Key::File, "2 + 4");
    assert_query(&system, &mut engine, "R3", text("2 + 4"), Key::File);

    assert_query(&system, &mut engine, "R3", text("2+4"), Key::ProcessParsed);
    assert_eq!(engine.runs("process"), 2, "Processed count");
    assert_eq!(engine.runs("parse"), 3, "Parsed count");
}

#[test]
fn cycle() {
    let system = Runtime::default();
    let mut engine = Engine::new();
    set_input(&system, &mut engine, Key::File, "1");
    assert_query(&system, &mut engine, "R1", text("1"), Key::File);

    assert_query(&system, &mut engine, "R1", Out::Maybe(None), Key::Loop);
}

#[test]
fn finite_recursion() {
    let system = Runtime::default();
    let mut engine = Engine::new();

    set_input(&system, &mut engine, Key::File, "1");
    assert_query(&system, &mut engine, "R1", text("1"), Key::File);

    assert_query(&system, &mut engine, "R1", Out::Unit, Key::ProcessCounted);
    assert_eq!(engine.runs("process"), 1, "Processed count");
    assert_eq!(engine.runs("count"), 2, "Counted count");

    assert_query(&system, &mut engine, "R1", Out::Unit, Key::ProcessCounted);
    assert_eq!(engine.runs("process"), 1, "Processed count");
    assert_eq!(engine.runs("count"), 2, "Counted count");

    set_input(&system, &mut engine, Key::File, "2");
    assert_query(&system, &mut engine, "R2", text("2"), Key::File);

    assert_query(&system, &mut engine, "R1", Out::Unit, Key::ProcessCounted);
    assert_eq!(engine.runs("process"), 1, "Processed count");
    assert_eq!(engine.runs("count"), 4, "Counted count");
}

#[test]
fn parallel() {
    let system = Runtime::default();
    let mut engine = Engine::new();
    set_input(&system, &mut engine, Key::A, "2");
    set_input(&system, &mut engine, Key::B, "3");

    assert_query(&system, &mut engine, "R1", text("2"), Key::A);
    assert_query(&system, &mut engine, "R2", text("3"), Key::B);

    assert_query(&system, &mut engine, "R2", text("2 + 3 + 4"), Key::Fan);
    assert_query(&system, &mut engine, "R2", text("2 + 3 + 4"), Key::Fan);
    assert_eq!(engine.runs("long"), 2);

    set_input(&system, &mut engine, Key::A, "X");
    assert_query(&system, &mut engine, "R3", text("X"), Key::A);

    assert_query(&system, &mut engine, "R3", text("X + 3 + 4"), Key::Fan);
}

#[test]
fn diamond() {
    let system = Runtime::default();
    let mut engine = Engine::new();
    set_input(&system, &mut engine, Key::A, "2");

    assert_query(&system, &mut engine, "R1", text("2"), Key::A);

    assert_query(&system, &mut engine, "R1", text("22 + 22"), Key::Diamond);
    assert_eq!(engine.runs("intermediate"), 1, "Proccess count");
}

#[test]
fn cancel_smol() {
    let system = Runtime::default();
    let mut engine = Engine::new();
    set_input(&system, &mut engine, Key::A, "2");
    assert_query(&system, &mut engine, "R1", text("2"), Key::A);

    // A computation of `Long(A)` starts beside the main one and is in flight.
    let fork = system.fork_inner();
    let long = Key::Long(Box::new(Key::A));
    let (step, started_at) =
        fork.begin_query(&mut engine.queries, type_of(&long), Arc::new(long.clone()));
    let holder = match step {
        QueryStep::Compute(holder) => holder,
        _ => panic!("the first demand computes"),
    };
    assert_eq!(started_at.label(), "R1");

    // Another lineage that asks now has to wait for it.
    let other = system.fork_inner();
    let (step, _) = other.begin_query(&mut engine.queries, type_of(&long), Arc::new(long.clone()));
    let waiting = match step {
        QueryStep::Wait(lock) => lock,
        _ => panic!("a second demand at the same revision waits"),
    };
    assert!(!waiting.is_ready());

    // The input changes; the computation in flight is given up.
    set_input(&system, &mut engine, Key::A, "3");
    holder.release();
    assert!(waiting.is_ready());
    assert_eq!(engine.runs("long"), 0, "Processed count");

    // Whoever asks next computes against the new input.
    let (out, _) = query_rev(&other, &mut engine, long);
    assert_eq!(out, text("3"));
    assert_eq!(engine.runs("long"), 1);
}

#[test]
fn set_input_then_query_reads_the_value_back() {
    let system = Runtime::default();
    let mut engine = Engine::new();
    assert_eq!(system.current_rev().label(), "R0");
    set_input(&system, &mut engine, Key::A, "v");
    assert_query(&system, &mut engine, "R1", text("v"), Key::A);
    set_input(&system, &mut engine, Key::A, "w");
    set_input(&system, &mut engine, Key::A, "x");
    assert_eq!(system.current_rev().label(), "R3");
    assert_query(&system, &mut engine, "R3", text("x"), Key::A);
}

#[test]
fn an_input_that_was_never_set_has_the_default_value() {
    let system = Runtime::default();
    let mut engine = Engine::new();
    assert_query(&system, &mut engine, "R0", text(""), Key::B);
}

#[test]
fn a_query_without_dependencies_is_dated_with_the_present_revision() {
    let system = Runtime::default();
    let mut engine = Engine::new();
    set_input(&system, &mut engine, Key::A, "1");
    set_input(&system, &mut engine, Key::B, "2");
    // `Intermediate` consults `A` only, which was set at R1.
    assert_query(&system, &mut engine, "R1", text("12"), Key::Intermediate);
}
