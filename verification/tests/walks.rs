use guacamole::dep::Dep;
use guacamole::dep::DepIdx;
use guacamole::table::QueriesMap;
use guacamole::walk::WalkStep;
use guacamole::walk::Walker;
use guacamole::Invalidation;
use guacamole::Revision;
use std::any::TypeId;
use std::sync::Arc;

struct Inputs;
struct Derived;

fn key(s: &str) -> Arc<String> {
    Arc::new(s.to_string())
}

fn input(n: usize) -> DepIdx {
    DepIdx::new(TypeId::of::<Inputs>(), n)
}

fn derived(n: usize) -> DepIdx {
    DepIdx::new(TypeId::of::<Derived>(), n)
}

/// Inputs `x` and `y`; `sum` computed from both; `top` computed from `sum`.
fn table() -> QueriesMap<String, u32> {
    let mut table = QueriesMap::new();
    let x = table.insert_calculated(TypeId::of::<Inputs>(), key("x"), 1, Revision::at(1), Vec::new());
    let y = table.insert_calculated(TypeId::of::<Inputs>(), key("y"), 2, Revision::at(2), Vec::new());
    let sum = table.complete_query(
        TypeId::of::<Derived>(),
        key("sum"),
        3,
        Revision::at(2),
        vec![x.as_dep(), y.as_dep()],
    );
    table.complete_query(TypeId::of::<Derived>(), key("top"), 30, Revision::at(2), vec![sum.as_dep()]);
    table
}

fn top_deps(table: &QueriesMap<String, u32>) -> Vec<Dep> {
    guacamole::dep::duplicate_deps(table.get(&TypeId::of::<Derived>(), &key("top")).deps())
}

/// Runs a walk; `recalc` gives the value of each computation asked for.
fn run(
    table: &mut QueriesMap<String, u32>,
    deps: Vec<Dep>,
    recalc: &dyn Fn(&str) -> u32,
) -> (Invalidation, Vec<String>) {
    let mut walker = Walker::new(deps);
    let mut asked = Vec::new();
    loop {
        if let Some(idx) = walker.target() {
            assert!(table.has_cell(&idx));
        }
        match walker.step(table) {
            WalkStep::Continue => assert!(!walker.is_awaiting() || walker.target().is_some()),
            WalkStep::Recalc(query) => {
                assert!(walker.is_awaiting());
                asked.push((*query).clone());
                let value = recalc(&query);
                walker.supply(table, value);
            }
            WalkStep::Done(found) => return (found, asked),
        }
    }
}

#[test]
fn a_walk_over_nothing_is_fresh() {
    let mut table = table();
    let (found, asked) = run(&mut table, Vec::new(), &|_| panic!("nothing to compute"));
    assert!(matches!(found, Invalidation::Fresh));
    assert!(asked.is_empty());
}

#[test]
fn a_walk_without_changes_is_fresh_and_computes_nothing() {
    let mut table = table();
    let deps = top_deps(&table);
    let (found, asked) = run(&mut table, deps, &|_| panic!("nothing to compute"));
    assert!(matches!(found, Invalidation::Fresh));
    assert!(asked.is_empty());
    assert_eq!(table.cell(&derived(0)).rev(), Revision::at(2));
    assert_eq!(table.cell(&derived(1)).rev(), Revision::at(2));
}

#[test]
fn a_changed_input_with_an_equal_result_only_redates() {
    let mut table = table();
    table.set_input(TypeId::of::<Inputs>(), key("x"), 1, Revision::at(3));
    let deps = top_deps(&table);
    let (found, asked) = run(&mut table, deps, &|query| {
        assert_eq!(query, "sum");
        3
    });
    match found {
        Invalidation::Revisioned(rev, cause) => {
            assert_eq!(rev, Revision::at(3));
            assert!(cause.same(&input(0)));
        }
        _ => panic!("the sum is what it was"),
    }
    assert_eq!(asked, vec!["sum".to_string()]);
    let sum = table.cell(&derived(0));
    assert_eq!(**sum.value(), 3);
    assert_eq!(sum.rev(), Revision::at(3));
    let observed: Vec<usize> = sum.deps().iter().map(|d| d.query_rev.value()).collect();
    assert_eq!(observed, vec![3, 2]);
    // The cell of `top` is re-dated by the conclusion of the demand, not by
    // the walk.
    assert_eq!(table.cell(&derived(1)).rev(), Revision::at(2));
}

#[test]
fn a_changed_input_with_another_result_outdates() {
    let mut table = table();
    table.set_input(TypeId::of::<Inputs>(), key("y"), 5, Revision::at(3));
    let deps = top_deps(&table);
    let (found, asked) = run(&mut table, deps, &|_| 6);
    match found {
        Invalidation::Outdated(rev, cause) => {
            assert_eq!(rev, Revision::at(3));
            assert!(cause.same(&input(1)));
        }
        _ => panic!("the sum is another"),
    }
    assert_eq!(asked, vec!["sum".to_string()]);
    assert_eq!(**table.cell(&derived(0)).value(), 6);
    assert_eq!(table.cell(&derived(0)).rev(), Revision::at(3));
}

#[test]
fn siblings_are_all_checked_and_their_findings_combined() {
    let mut table = table();
    table.set_input(TypeId::of::<Inputs>(), key("x"), 7, Revision::at(3));
    table.set_input(TypeId::of::<Inputs>(), key("y"), 8, Revision::at(4));
    let sum_deps = guacamole::dep::duplicate_deps(table.cell(&derived(0)).deps());
    let (found, asked) = run(&mut table, sum_deps, &|_| panic!("inputs are not computed"));
    match found {
        Invalidation::Outdated(rev, cause) => {
            assert_eq!(rev, Revision::at(4));
            assert!(cause.same(&input(1)));
        }
        _ => panic!("both inputs moved on"),
    }
    assert!(asked.is_empty());
}

#[test]
fn a_walk_goes_one_record_per_step() {
    let mut table = table();
    let mut walker = Walker::new(top_deps(&table));
    // top-level record `sum`, its children `x` and `y`: three records, each
    // opened once and closed once, then the end.
    let mut steps = 0;
    loop {
        match walker.step(&mut table) {
            WalkStep::Continue => steps += 1,
            WalkStep::Done(found) => {
                assert!(matches!(found, Invalidation::Fresh));
                break;
            }
            WalkStep::Recalc(_) => panic!("nothing changed"),
        }
    }
    assert_eq!(steps, 6);
    assert!(walker.target().is_none());
    assert!(matches!(walker.step(&mut table), WalkStep::Done(Invalidation::Fresh)));
}

/// `x` ← `sum` ← `mid` ← `top`: the records of `top` are three levels deep.
fn chain() -> QueriesMap<String, u32> {
    let mut table = QueriesMap::new();
    let x = table.insert_calculated(TypeId::of::<Inputs>(), key("x"), 1, Revision::at(1), Vec::new());
    let sum =
        table.complete_query(TypeId::of::<Derived>(), key("sum"), 3, Revision::at(1), vec![x.as_dep()]);
    let mid =
        table.complete_query(TypeId::of::<Derived>(), key("mid"), 4, Revision::at(1), vec![sum.as_dep()]);
    table.complete_query(TypeId::of::<Derived>(), key("top"), 5, Revision::at(1), vec![mid.as_dep()]);
    table
}

#[test]
fn a_redated_record_redates_the_records_above_it_without_computing_them() {
    let mut table = chain();
    table.set_input(TypeId::of::<Inputs>(), key("x"), 9, Revision::at(2));
    let deps = top_deps(&table);
    let (found, asked) = run(&mut table, deps, &|query| {
        assert_eq!(query, "sum");
        3
    });
    match found {
        Invalidation::Revisioned(rev, cause) => {
            assert_eq!(rev, Revision::at(2));
            assert!(cause.same(&input(0)));
        }
        _ => panic!("the sum is what it was"),
    }
    assert_eq!(asked, vec!["sum".to_string()]);
    // `sum` and `mid` are re-dated and keep their values.
    assert_eq!(table.cell(&derived(0)).rev(), Revision::at(2));
    assert_eq!(**table.cell(&derived(0)).value(), 3);
    assert_eq!(table.cell(&derived(1)).rev(), Revision::at(2));
    assert_eq!(**table.cell(&derived(1)).value(), 4);
    let observed: Vec<usize> =
        table.cell(&derived(1)).deps().iter().map(|d| d.query_rev.value()).collect();
    assert_eq!(observed, vec![2]);
    assert_eq!(table.cell(&derived(2)).rev(), Revision::at(1));
}

#[test]
fn an_outdated_record_has_the_records_above_it_computed_one_by_one() {
    let mut table = chain();
    table.set_input(TypeId::of::<Inputs>(), key("x"), 9, Revision::at(2));
    let deps = top_deps(&table);
    let (found, asked) = run(&mut table, deps, &|query| match query {
        "sum" => 11,
        "mid" => 4,
        other => panic!("nobody asked for {}", other),
    });
    // `sum` changed, so `mid` is computed; `mid` did not change, so `top`
    // is spared.
    assert!(matches!(found, Invalidation::Revisioned(_, _)));
    assert_eq!(asked, vec!["sum".to_string(), "mid".to_string()]);
    assert_eq!(**table.cell(&derived(0)).value(), 11);
    assert_eq!(**table.cell(&derived(1)).value(), 4);
    assert_eq!(table.cell(&derived(1)).rev(), Revision::at(2));
}
