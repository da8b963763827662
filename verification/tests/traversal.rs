use scrapmetal::{
    Everywhere, EverywhereBut, GenericQuery, GenericTransform, Shape, Shaped, Term,
    Transformation, TypeKey,
};
use std::any::Any;
use std::cell::RefCell;
use std::rc::Rc;

#[derive(Debug, PartialEq, Clone)]
enum Tree {
    Leaf(i32),
    Pair(Box<Tree>, Box<Tree>),
}

fn leaf(n: i32) -> Tree {
    Tree::Leaf(n)
}

fn pair(a: Tree, b: Tree) -> Tree {
    Tree::Pair(Box::new(a), Box::new(b))
}

impl Shaped for Tree {
    fn type_key() -> TypeKey {
        unreachable!()
    }

    fn shape(self) -> Shape {
        unreachable!()
    }

    fn shape_has_type_key(self) {}
}

impl Term for Tree {
    fn map_one_transform<F: GenericTransform>(self, walk: &mut Everywhere<F>) -> Self {
        match self {
            Tree::Leaf(n) => Tree::Leaf(walk.transform(n)),
            Tree::Pair(a, b) => {
                let a = walk.transform(*a);
                let b = walk.transform(*b);
                pair(a, b)
            }
        }
    }

    fn map_one_transform_but<F: GenericTransform, P: GenericQuery<bool>>(
        self,
        walk: &mut EverywhereBut<F, P>,
    ) -> Self {
        match self {
            Tree::Leaf(n) => Tree::Leaf(walk.transform(n)),
            Tree::Pair(a, b) => {
                let a = walk.transform(*a);
                let b = walk.transform(*b);
                pair(a, b)
            }
        }
    }
}

/// A record whose fields are of three different types.
#[derive(Debug, PartialEq, Clone)]
struct Employee {
    name: &'static str,
    salary: u32,
    active: bool,
}

impl Shaped for Employee {
    fn type_key() -> TypeKey {
        unreachable!()
    }

    fn shape(self) -> Shape {
        unreachable!()
    }

    fn shape_has_type_key(self) {}
}

impl Term for Employee {
    fn map_one_transform<F: GenericTransform>(self, walk: &mut Everywhere<F>) -> Self {
        let name = walk.transform(self.name);
        let salary = walk.transform(self.salary);
        let active = walk.transform(self.active);
        Employee { name, salary, active }
    }

    fn map_one_transform_but<F: GenericTransform, P: GenericQuery<bool>>(
        self,
        walk: &mut EverywhereBut<F, P>,
    ) -> Self {
        let name = walk.transform(self.name);
        let salary = walk.transform(self.salary);
        let active = walk.transform(self.active);
        Employee { name, salary, active }
    }
}

/// Answers with what `test` says of a `Tree` and with `otherwise` for a
/// value of any other type, and notes every value it is asked about.
struct OnTree<Q: FnMut(&Tree) -> bool> {
    test: Q,
    otherwise: bool,
    asked: Rc<RefCell<Vec<String>>>,
}

impl<Q: FnMut(&Tree) -> bool> OnTree<Q> {
    fn new(test: Q) -> Self {
        OnTree { test, otherwise: true, asked: Rc::new(RefCell::new(Vec::new())) }
    }
}

impl<Q: FnMut(&Tree) -> bool> GenericQuery<bool> for OnTree<Q> {
    fn total(self) -> bool {
        unreachable!()
    }

    fn answers(self, _: Shape, _: bool, _: Self) -> bool {
        unreachable!()
    }

    fn query<T: Shaped + 'static>(&mut self, t: &T) -> bool {
        match (t as &dyn Any).downcast_ref::<Tree>() {
            Some(tree) => {
                self.asked.borrow_mut().push(format!("{:?}", tree));
                (self.test)(tree)
            }
            None => {
                self.asked.borrow_mut().push(String::from("other"));
                self.otherwise
            }
        }
    }
}

fn not_leaf_two(t: &Tree) -> bool {
    *t != Tree::Leaf(2)
}

#[test]
fn everywhere_increments_every_leaf() {
    let mut walk = Everywhere::new(Transformation::new(|n: i32| n + 1));
    assert_eq!(walk.transform(pair(leaf(1), leaf(2))), pair(leaf(2), leaf(3)));
}

#[test]
fn everywhere_but_leaves_the_rejected_subtree_alone() {
    let mut walk =
        EverywhereBut::new(OnTree::new(not_leaf_two), Transformation::new(|n: i32| n + 1));
    assert_eq!(walk.transform(pair(leaf(1), leaf(2))), pair(leaf(2), leaf(2)));
}

#[test]
fn everywhere_reaches_every_depth() {
    let mut walk = Everywhere::new(Transformation::new(|n: i32| n * 10));
    let input = pair(pair(leaf(1), pair(leaf(2), leaf(3))), leaf(4));
    let output = pair(pair(leaf(10), pair(leaf(20), leaf(30))), leaf(40));
    assert_eq!(walk.transform(input), output);
}

#[test]
fn everywhere_on_a_value_without_children_applies_the_function_once() {
    let mut calls = 0;
    {
        let mut walk = Everywhere::new(Transformation::new(|n: i32| {
            calls += 1;
            n + 1
        }));
        assert_eq!(walk.transform(41), 42);
        assert_eq!(walk.transform(true), true);
    }
    assert_eq!(calls, 1);
}

#[test]
fn everywhere_applies_the_function_to_the_rebuilt_parent() {
    // The function sees a pair only after both of its leaves were replaced.
    let mut walk = Everywhere::new(Transformation::new(|t: Tree| match t {
        Tree::Leaf(n) => Tree::Leaf(n + 1),
        Tree::Pair(a, b) => match (*a, *b) {
            (Tree::Leaf(x), Tree::Leaf(y)) => Tree::Leaf(x * y),
            (a, b) => pair(a, b),
        },
    }));
    // Leaves: 2 -> 3 and 4 -> 5; the pair of 3 and 5 then folds to 15.
    assert_eq!(walk.transform(pair(leaf(2), leaf(4))), leaf(15));
}

#[test]
fn everywhere_visits_children_before_parent_and_siblings_in_order() {
    let mut log: Vec<String> = Vec::new();
    {
        let mut walk = Everywhere::new(Transformation::new(|t: Tree| {
            log.push(match &t {
                Tree::Leaf(n) => format!("leaf {}", n),
                Tree::Pair(_, _) => String::from("pair"),
            });
            t
        }));
        let input = pair(leaf(1), leaf(2));
        assert_eq!(walk.transform(input.clone()), input);
    }
    assert_eq!(log, vec!["leaf 1", "leaf 2", "pair"]);
}

#[test]
fn everywhere_visits_nested_terms_in_post_order() {
    let mut log: Vec<String> = Vec::new();
    {
        let mut walk = Everywhere::new(Transformation::new(|t: Tree| {
            log.push(match &t {
                Tree::Leaf(n) => format!("{}", n),
                Tree::Pair(_, _) => String::from("*"),
            });
            t
        }));
        walk.transform(pair(pair(leaf(1), leaf(2)), pair(leaf(3), leaf(4))));
    }
    assert_eq!(log, vec!["1", "2", "*", "3", "4", "*", "*"]);
}

#[test]
fn everywhere_with_the_identity_returns_the_input() {
    let input = pair(pair(leaf(1), leaf(2)), leaf(3));
    let mut on_trees = Everywhere::new(Transformation::new(|t: Tree| t));
    assert_eq!(on_trees.transform(input.clone()), input);
    let mut on_numbers = Everywhere::new(Transformation::new(|n: i32| n));
    assert_eq!(on_numbers.transform(input.clone()), input);
    let mut on_nothing_there = Everywhere::new(Transformation::new(|b: bool| !b));
    assert_eq!(on_nothing_there.transform(input.clone()), input);
}

#[test]
fn everywhere_transforms_fields_of_different_types() {
    let ann = Employee { name: "Ann", salary: 1000, active: false };
    let mut raise = Everywhere::new(Transformation::new(|s: u32| s + 100));
    assert_eq!(
        raise.transform(ann.clone()),
        Employee { name: "Ann", salary: 1100, active: false }
    );
    let mut activate = Everywhere::new(Transformation::new(|_: bool| true));
    assert_eq!(
        activate.transform(ann.clone()),
        Employee { name: "Ann", salary: 1000, active: true }
    );
    let mut rename = Everywhere::new(Transformation::new(|_: &'static str| "Bob"));
    assert_eq!(
        rename.transform(ann.clone()),
        Employee { name: "Bob", salary: 1000, active: false }
    );
    let mut retire = Everywhere::new(Transformation::new(|e: Employee| Employee {
        active: false,
        salary: 0,
        ..e
    }));
    assert_eq!(retire.transform(ann), Employee { name: "Ann", salary: 0, active: false });
}

#[test]
fn everywhere_but_rejected_root_comes_back_untouched() {
    let mut calls = 0;
    let input = pair(pair(leaf(1), leaf(2)), leaf(3));
    let asked;
    {
        let query = OnTree::new(|_: &Tree| false);
        asked = query.asked.clone();
        let mut walk = EverywhereBut::new(
            query,
            Transformation::new(|n: i32| {
                calls += 1;
                n + 1
            }),
        );
        assert_eq!(walk.transform(input.clone()), input);
    }
    // The function ran on nothing, and the predicate on the root alone.
    assert_eq!(calls, 0);
    assert_eq!(*asked.borrow(), vec![format!("{:?}", input)]);
}

#[test]
fn everywhere_but_prunes_a_whole_branch() {
    let mut calls = 0;
    let skipped = pair(leaf(5), leaf(6));
    let input = pair(skipped.clone(), pair(leaf(7), leaf(8)));
    let asked;
    {
        let rejected = skipped.clone();
        let query = OnTree::new(move |t: &Tree| *t != rejected);
        asked = query.asked.clone();
        let mut walk = EverywhereBut::new(
            query,
            Transformation::new(|n: i32| {
                calls += 1;
                n + 1
            }),
        );
        assert_eq!(walk.transform(input.clone()), pair(skipped.clone(), pair(leaf(8), leaf(9))));
    }
    assert_eq!(calls, 2);
    // Nothing below the rejected branch was asked about.
    let asked = asked.borrow();
    assert!(asked.contains(&format!("{:?}", skipped)));
    assert!(!asked.contains(&format!("{:?}", leaf(5))));
    assert!(!asked.contains(&format!("{:?}", leaf(6))));
}

#[test]
fn everywhere_but_asks_about_the_node_before_its_children_change() {
    // A pair is rejected by what its leaves hold on the way down.
    let query = OnTree::new(|t: &Tree| *t != pair(leaf(1), leaf(1)));
    let mut walk = EverywhereBut::new(query, Transformation::new(|n: i32| n + 1));
    let input = pair(pair(leaf(1), leaf(1)), pair(leaf(0), leaf(0)));
    let output = pair(pair(leaf(1), leaf(1)), pair(leaf(1), leaf(1)));
    assert_eq!(walk.transform(input), output);
}

#[test]
fn everywhere_but_with_a_predicate_that_always_agrees_is_everywhere() {
    let input = pair(pair(leaf(1), leaf(2)), leaf(3));
    let mut filtered =
        EverywhereBut::new(OnTree::new(|_: &Tree| true), Transformation::new(|n: i32| n - 1));
    let mut full = Everywhere::new(Transformation::new(|n: i32| n - 1));
    assert_eq!(filtered.transform(input.clone()), full.transform(input));
}

#[test]
fn everywhere_but_can_reject_values_of_other_types() {
    let mut query = OnTree::new(|_: &Tree| true);
    query.otherwise = false;
    let mut walk = EverywhereBut::new(query, Transformation::new(|n: i32| n + 1));
    // Every number below a leaf is rejected, so no number changes.
    let input = pair(leaf(1), leaf(2));
    assert_eq!(walk.transform(input.clone()), input);
}

#[test]
fn everywhere_but_visits_entered_nodes_bottom_up() {
    let mut log: Vec<String> = Vec::new();
    {
        let mut walk = EverywhereBut::new(
            OnTree::new(not_leaf_two),
            Transformation::new(|t: Tree| {
                log.push(match &t {
                    Tree::Leaf(n) => format!("{}", n),
                    Tree::Pair(_, _) => String::from("*"),
                });
                t
            }),
        );
        walk.transform(pair(pair(leaf(1), leaf(2)), leaf(3)));
    }
    assert_eq!(log, vec!["1", "*", "3", "*"]);
}

#[test]
fn everywhere_transforms_both_components_of_a_pair() {
    let mut walk = Everywhere::new(Transformation::new(|n: i32| n + 1));
    assert_eq!(walk.transform((1i32, 2i32)), (2, 3));
    assert_eq!(walk.transform((1i32, true)), (2, true));
    assert_eq!(walk.transform(("one", 'x')), ("one", 'x'));
    assert_eq!(walk.transform(((1i32, 2i64), (3u32, 4i32))), ((2, 2), (3, 5)));
}

#[test]
fn everywhere_visits_the_first_component_of_a_pair_first() {
    let mut next = 0;
    let mut walk = Everywhere::new(Transformation::new(move |_: i32| {
        next += 1;
        next
    }));
    assert_eq!(walk.transform((0i32, 0i32)), (1, 2));
    assert_eq!(walk.transform(((0i32, 0i32), 0i32)), ((3, 4), 5));
}

#[test]
fn everywhere_applies_the_function_to_a_pair_after_its_components() {
    let mut walk = Everywhere::new(Transformation::new(|p: (i32, i32)| (p.1, p.0)));
    assert_eq!(walk.transform((1i32, 2i32)), (2, 1));
    assert_eq!(walk.transform(((1i32, 2i32), (3i32, 4i32))), ((2, 1), (4, 3)));
}

#[test]
fn everywhere_transforms_what_an_option_holds() {
    let mut walk = Everywhere::new(Transformation::new(|n: i32| n * 2));
    assert_eq!(walk.transform(Some(21i32)), Some(42));
    assert_eq!(walk.transform(None::<i32>), None);
    assert_eq!(walk.transform(Some(true)), Some(true));
    assert_eq!(walk.transform(Some((1i32, Some(2i32)))), Some((2, Some(4))));
    let mut fill = Everywhere::new(Transformation::new(|o: Option<i32>| o.or(Some(0))));
    assert_eq!(fill.transform((None::<i32>, Some(5i32))), (Some(0), Some(5)));
}

#[test]
fn everywhere_but_skips_a_rejected_component() {
    // Trees are entered; a value of any other type is entered only if it is
    // not rejected, and here every one is.
    let mut query = OnTree::new(|_: &Tree| true);
    query.otherwise = false;
    let mut walk = EverywhereBut::new(query, Transformation::new(|n: i32| n + 1));
    assert_eq!(walk.transform((1i32, 2i32)), (1, 2));
    assert_eq!(walk.transform(Some(1i32)), Some(1));

    let mut walk =
        EverywhereBut::new(OnTree::new(not_leaf_two), Transformation::new(|n: i32| n + 1));
    assert_eq!(walk.transform((leaf(2), leaf(3))), (leaf(2), leaf(4)));
    assert_eq!(walk.transform(Some(leaf(2))), Some(leaf(2)));
    assert_eq!(walk.transform(Some(leaf(7))), Some(leaf(8)));
    assert_eq!(walk.transform(None::<Tree>), None);
}
