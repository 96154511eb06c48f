//! Tests for the multi-pass rewrite-cycle driver.

use streamjoin::rewrite_cycle::{RewriteCycle, RewriteCycleState, RewriterSequence};

/// A small expression tree for exercising the driver.
#[derive(Debug, Clone, PartialEq)]
enum TestExpr {
    BoolLit(bool),
    Lit(i64),
    Add(Box<TestExpr>, Box<TestExpr>),
    Mul(Box<TestExpr>, Box<TestExpr>),
}

fn lit(v: i64) -> TestExpr {
    TestExpr::Lit(v)
}

fn add(l: TestExpr, r: TestExpr) -> TestExpr {
    TestExpr::Add(Box::new(l), Box::new(r))
}

fn mul(l: TestExpr, r: TestExpr) -> TestExpr {
    TestExpr::Mul(Box::new(l), Box::new(r))
}

/// One bottom-up pass folding binary nodes of one operator over literals.
fn fold_pass(e: TestExpr, fold_mul: bool) -> (TestExpr, bool) {
    match e {
        TestExpr::Add(l, r) => {
            let (l2, c1) = fold_pass(*l, fold_mul);
            let (r2, c2) = fold_pass(*r, fold_mul);
            if !fold_mul {
                if let (TestExpr::Lit(a), TestExpr::Lit(b)) = (&l2, &r2) {
                    return (TestExpr::Lit(a + b), true);
                }
            }
            (TestExpr::Add(Box::new(l2), Box::new(r2)), c1 || c2)
        }
        TestExpr::Mul(l, r) => {
            let (l2, c1) = fold_pass(*l, fold_mul);
            let (r2, c2) = fold_pass(*r, fold_mul);
            if fold_mul {
                if let (TestExpr::Lit(a), TestExpr::Lit(b)) = (&l2, &r2) {
                    return (TestExpr::Lit(a * b), true);
                }
            }
            (TestExpr::Mul(Box::new(l2), Box::new(r2)), c1 || c2)
        }
        other => (other, false),
    }
}

/// A sequence of identity rewriters: every rewrite reports "no change".
struct IdentityRewriters {
    n: usize,
}

impl RewriterSequence for IdentityRewriters {
    type Node = TestExpr;
    type Error = String;

    fn spec_count(&self) -> usize {
        self.n
    }

    fn spec_never_changes(&self) -> bool {
        true
    }

    fn count(&self) -> usize {
        self.n
    }

    fn rewrite(&mut self, _index: usize, node: TestExpr) -> Result<(TestExpr, bool), String> {
        Ok((node, false))
    }
}

/// One identity rewriter followed by one that always reports a change.
struct IdentityThenAlways {}

impl RewriterSequence for IdentityThenAlways {
    type Node = TestExpr;
    type Error = String;

    fn spec_count(&self) -> usize {
        2
    }

    fn spec_never_changes(&self) -> bool {
        false
    }

    fn count(&self) -> usize {
        2
    }

    fn rewrite(&mut self, index: usize, node: TestExpr) -> Result<(TestExpr, bool), String> {
        if index == 0 {
            Ok((node, false))
        } else {
            Ok((node, true))
        }
    }
}

/// An addition-folding rewriter followed by a multiplication-folding one.
struct ConstFolders {}

impl RewriterSequence for ConstFolders {
    type Node = TestExpr;
    type Error = String;

    fn spec_count(&self) -> usize {
        2
    }

    fn spec_never_changes(&self) -> bool {
        false
    }

    fn count(&self) -> usize {
        2
    }

    fn rewrite(&mut self, index: usize, node: TestExpr) -> Result<(TestExpr, bool), String> {
        Ok(fold_pass(node, index == 1))
    }
}

// A cycle that makes no changes should complete exactly one cycle.
#[test]
fn rewrite_cycle_identity() {
    let expr = TestExpr::BoolLit(true);
    let (expr, info) = RewriteCycle::new()
        .with_max_cycles(50)
        .each_cycle(expr, &mut IdentityRewriters { n: 3 })
        .unwrap();
    assert_eq!(expr, TestExpr::BoolLit(true));
    assert_eq!(info.completed_cycles(), 1);
    assert_eq!(info.total_iterations(), 3);
}

// A rewriter that always transforms should complete all cycles.
#[test]
fn rewrite_cycle_always_transforms() {
    let expr = TestExpr::BoolLit(true);
    let (expr, info) = RewriteCycle::new()
        .with_max_cycles(10)
        .each_cycle(expr, &mut IdentityThenAlways {})
        .unwrap();
    assert_eq!(expr, TestExpr::BoolLit(true));
    assert_eq!(info.completed_cycles(), 10);
    assert_eq!(info.total_iterations(), 20);
}

// Constant evaluation with two rewriters that depend on each other.
#[test]
fn rewrite_cycle_const_evaluation() {
    let expr = add(lit(6), mul(lit(4), add(lit(2), mul(lit(3), lit(5)))));
    let (evaluated_expr, info) = RewriteCycle::new()
        .with_max_cycles(4)
        .each_cycle(expr, &mut ConstFolders {})
        .unwrap();
    assert_eq!(evaluated_expr, lit(74));
    assert_eq!(info.completed_cycles(), 3);
    assert_eq!(info.total_iterations(), 7);

    // The same expression, with `with_max_cycles` ending the loop earlier.
    let expr = add(lit(6), mul(lit(4), add(lit(2), mul(lit(3), lit(5)))));
    let (evaluated_expr, info) = RewriteCycle::new()
        .with_max_cycles(2)
        .each_cycle(expr, &mut ConstFolders {})
        .unwrap();
    assert_eq!(evaluated_expr, add(lit(6), lit(68)));
    assert_eq!(info.completed_cycles(), 2);
    assert_eq!(info.total_iterations(), 4);
}

// A cycle cap of zero returns the input unchanged without any rewrites.
#[test]
fn rewrite_cycle_zero_cap_returns_input() {
    let expr = add(lit(1), lit(2));
    let (expr, info) = RewriteCycle::new()
        .with_max_cycles(0)
        .each_cycle(expr, &mut ConstFolders {})
        .unwrap();
    assert_eq!(expr, add(lit(1), lit(2)));
    assert_eq!(info.total_iterations(), 0);
    assert_eq!(info.cycle_length(), 0);
}

// The default cycle cap is three; a rewriter error is surfaced verbatim.
#[test]
fn rewrite_cycle_defaults_and_errors() {
    assert_eq!(RewriteCycle::new().max_cycles(), 3);

    struct Failing {}
    impl RewriterSequence for Failing {
        type Node = TestExpr;
        type Error = String;

        fn spec_count(&self) -> usize {
            1
        }

        fn spec_never_changes(&self) -> bool {
            false
        }

        fn count(&self) -> usize {
            1
        }

        fn rewrite(&mut self, _index: usize, _node: TestExpr) -> Result<(TestExpr, bool), String> {
            Err(String::from("rewriter failed"))
        }
    }
    let res = RewriteCycle::new().each_cycle(lit(1), &mut Failing {});
    assert_eq!(res.unwrap_err(), String::from("rewriter failed"));
}

// The bookkeeping step fixes the counters for each reported flag: replaying
// an identity-then-always pattern by hand gives the same numbers the driver
// reports.
#[test]
fn bookkeeping_follows_the_reported_flags() {
    let mut state = RewriteCycleState::new(lit(1));
    // First cycle: no change, then a change.
    let (s, done) = state.apply_rewrite(lit(1), false);
    assert!(!done);
    let (s, done) = s.apply_rewrite(lit(1), true);
    assert!(!done);
    state = s;
    state.record_cycle_length();
    assert!(!state.is_done());
    // Second cycle: two unchanged rewrites complete an unchanged window.
    let (s, done) = state.apply_rewrite(lit(1), false);
    assert!(!done);
    let (s, done) = s.apply_rewrite(lit(1), false);
    assert!(done);
    let (node, info) = s.finish();
    assert_eq!(node, lit(1));
    assert_eq!(info.total_iterations(), 4);
    assert_eq!(info.cycle_length(), 2);
    assert_eq!(info.completed_cycles(), 2);
}
