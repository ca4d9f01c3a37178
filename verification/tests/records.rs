use guacamole::dep::duplicate_deps;
use guacamole::dep::last_rev;
use guacamole::dep::Dep;
use guacamole::dep::DepIdx;
use guacamole::Invalidation;
use guacamole::Revision;
use std::any::TypeId;

struct Leafs;
struct Nodes;

fn leaf(n: usize, rev: usize) -> Dep {
    Dep::new(DepIdx::new(TypeId::of::<Leafs>(), n), Revision::at(rev), Vec::new())
}

fn node(n: usize, rev: usize, children: Vec<Dep>) -> Dep {
    Dep::new(DepIdx::new(TypeId::of::<Nodes>(), n), Revision::at(rev), children)
}

fn shape(dep: &Dep) -> String {
    let children: Vec<String> = dep.deps().iter().map(shape).collect();
    format!("{}@{}[{}]", dep.idx.query_idx, dep.query_rev.value(), children.join(","))
}

#[test]
fn a_record_knows_its_target_and_its_children() {
    let dep = node(7, 3, vec![leaf(0, 1), leaf(1, 3)]);
    assert_eq!(dep.query_type(), TypeId::of::<Nodes>());
    assert_eq!(dep.deps().len(), 2);
    assert_eq!(dep.deps()[1].query_type(), TypeId::of::<Leafs>());
    assert_eq!(shape(&dep), "7@3[0@1[],1@3[]]");
}

#[test]
fn a_record_is_outdated_when_its_target_has_moved_on() {
    let dep = leaf(4, 2);
    match dep.check_outdated(Revision::at(3)) {
        Invalidation::Outdated(rev, idx) => {
            assert_eq!(rev, Revision::at(3));
            assert!(idx.same(&DepIdx::new(TypeId::of::<Leafs>(), 4)));
        }
        _ => panic!("the target moved on"),
    }
    assert!(matches!(dep.check_outdated(Revision::at(2)), Invalidation::Fresh));
    assert!(matches!(dep.check_outdated(Revision::at(1)), Invalidation::Fresh));
}

#[test]
fn last_rev_is_the_newest_top_level_revision() {
    assert_eq!(last_rev(&[]), None);
    assert_eq!(last_rev(&[leaf(0, 5)]), Some(Revision::at(5)));
    assert_eq!(last_rev(&[leaf(0, 1), leaf(1, 9), leaf(2, 4)]), Some(Revision::at(9)));
    // Only the top level counts.
    let deep = node(0, 2, vec![leaf(0, 8)]);
    assert_eq!(last_rev(&[deep, leaf(1, 1)]), Some(Revision::at(2)));
}

#[test]
fn a_copy_is_deep() {
    let dep = node(1, 2, vec![node(2, 2, vec![leaf(0, 1)]), leaf(1, 2)]);
    let copy = dep.clone();
    assert_eq!(shape(&copy), shape(&dep));
    let copies = duplicate_deps(dep.deps());
    assert_eq!(copies.len(), 2);
    assert_eq!(shape(&copies[0]), "2@2[0@1[]]");
    assert_eq!(shape(&copies[1]), "1@2[]");
}

#[test]
fn a_change_reaches_every_record_on_a_path_to_its_cause() {
    let cause = DepIdx::new(TypeId::of::<Leafs>(), 0);
    let mut dep = node(
        1,
        2,
        vec![
            node(2, 2, vec![leaf(0, 1), leaf(1, 1)]),
            leaf(1, 2),
            node(3, 1, vec![leaf(0, 1)]),
        ],
    );
    assert!(dep.redate(cause, Revision::at(5)));
    assert_eq!(shape(&dep), "1@5[2@5[0@5[],1@1[]],1@2[],3@5[0@5[]]]");
}

#[test]
fn a_change_elsewhere_leaves_a_record_as_it_is() {
    let cause = DepIdx::new(TypeId::of::<Leafs>(), 9);
    let mut dep = node(1, 2, vec![node(2, 2, vec![leaf(0, 1)]), leaf(1, 2)]);
    assert!(!dep.redate(cause, Revision::at(5)));
    assert_eq!(shape(&dep), "1@2[2@2[0@1[]],1@2[]]");
    // The same slot of another type is another cell.
    let other_type = DepIdx::new(TypeId::of::<Nodes>(), 0);
    assert!(!dep.redate(other_type, Revision::at(5)));
    assert_eq!(shape(&dep), "1@2[2@2[0@1[]],1@2[]]");
}
