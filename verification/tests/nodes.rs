use std::cell::Cell;

use fluorine::{Dependent, Effect, Rx, RxCtx, RxFn, RxVec};

#[test]
fn toplevel_starts_dirty_at_generation_zero() {
    let mut dependent = Dependent::toplevel();
    assert!(dependent.dirty());
    dependent.set_clean();
    assert!(!dependent.dirty());

    let ctx = Dependent::toplevel().ctx();
    assert!(ctx.dependent().unwrap().dirty());
}

#[test]
fn toplevel_reads_are_tracked_and_dirtied() {
    let dependent = Dependent::toplevel();
    let ctx = &mut dependent.ctx();
    let mut a = Rx::new(ctx, 1);
    let mut b = Rx::new(ctx, 2);

    assert_eq!(*a.get(ctx), 1);
    assert_eq!(a.dependents(ctx), 1);
    // a second read adds no second link
    assert_eq!(*a.get(ctx), 1);
    assert_eq!(a.dependents(ctx), 1);

    ctx.set_clean();
    assert!(!ctx.dependent().unwrap().dirty());

    // nobody reads b
    *b.get_mut(ctx) = 3;
    assert!(!ctx.dependent().unwrap().dirty());

    *a.get_mut(ctx) = 5;
    assert!(ctx.dependent().unwrap().dirty());
    assert_eq!(*a.get_untracked(), 5);
    assert_eq!(*b.get_untracked(), 3);
}

#[test]
fn untracked_reads_leave_no_trace() {
    let dependent = Dependent::toplevel();
    let ctx = &mut dependent.ctx();
    let mut a = Rx::new(ctx, 7);
    assert_eq!(*a.get_untracked(), 7);
    assert_eq!(a.dependents(ctx), 0);
    ctx.set_clean();
    *a.get_mut(ctx) = 8;
    assert!(!ctx.dependent().unwrap().dirty());
}

#[test]
fn generation_counts_runs() {
    let dependent = Dependent::toplevel();
    let ctx = &mut dependent.ctx();
    let mut a = Rx::new(ctx, 1u32);
    let mut f = RxFn::new();

    assert_eq!(f.generation(ctx), 0);
    assert!(f.is_stale(ctx));

    assert_eq!(*f.call(ctx, 1u32, |ctx, x| a.get(ctx) + x), 2);
    assert_eq!(f.generation(ctx), 1);
    assert!(!f.is_stale(ctx));

    assert_eq!(*f.call(ctx, 1u32, |ctx, x| a.get(ctx) + x), 2);
    assert_eq!(f.generation(ctx), 1);

    assert_eq!(*f.call(ctx, 2u32, |ctx, x| a.get(ctx) + x), 3);
    assert_eq!(f.generation(ctx), 2);

    *a.get_mut(ctx) = 10;
    assert!(f.is_stale(ctx));
    assert_eq!(f.generation(ctx), 2);
    assert_eq!(*f.call(ctx, 2u32, |ctx, x| a.get(ctx) + x), 12);
    assert_eq!(f.generation(ctx), 3);
    assert!(!f.is_stale(ctx));
}

#[test]
fn call_if_leaves_the_comparison_to_the_caller() {
    let dependent = Dependent::toplevel();
    let ctx = &mut dependent.ctx();
    let mut f = RxFn::new();
    let runs = Cell::new(0);

    let mut eval = |ctx: &mut RxCtx, changed: bool, x: f64| -> f64 {
        *f.call_if(ctx, changed, x, |_, x| {
            runs.set(runs.get() + 1);
            if x.is_nan() {
                0.0
            } else {
                *x
            }
        })
    };

    // the first call runs whatever the caller says
    assert_eq!(eval(ctx, false, f64::NAN), 0.0);
    assert_eq!(runs.get(), 1);
    // the caller holds two NaNs to be the same input
    assert_eq!(eval(ctx, false, f64::NAN), 0.0);
    assert_eq!(runs.get(), 1);
    // and says that this one differs
    assert_eq!(eval(ctx, true, 4.5), 4.5);
    assert_eq!(runs.get(), 2);
    assert_eq!(eval(ctx, true, 4.5), 4.5);
    assert_eq!(runs.get(), 3);
}

#[test]
fn last_input_serves_a_comparison_of_ones_own() {
    let dependent = Dependent::toplevel();
    let ctx = &mut dependent.ctx();
    let mut f = RxFn::new();
    let runs = Cell::new(0);
    assert_eq!(f.last_input(), None);

    let same = |last: Option<&f64>, x: f64| match last {
        Some(last) => (last.is_nan() && x.is_nan()) || *last == x,
        None => false,
    };
    for (x, expected_runs) in [(f64::NAN, 1), (f64::NAN, 1), (2.0, 2), (2.0, 2), (f64::NAN, 3)] {
        let changed = !same(f.last_input(), x);
        let out = *f.call_if(ctx, changed, x, |_, x| {
            runs.set(runs.get() + 1);
            x.is_nan()
        });
        assert_eq!(out, x.is_nan());
        assert_eq!(runs.get(), expected_runs);
    }
    assert!(f.last_input().unwrap().is_nan());
}

#[test]
fn call_compares_with_the_inputs_own_equality() {
    let dependent = Dependent::toplevel();
    let ctx = &mut dependent.ctx();
    let mut f = RxFn::new();
    let runs = Cell::new(0);

    let mut eval = |ctx: &mut RxCtx, x: f64| -> bool {
        *f.call(ctx, x, |_, x| {
            runs.set(runs.get() + 1);
            x.is_nan()
        })
    };

    assert!(eval(ctx, f64::NAN));
    assert_eq!(runs.get(), 1);
    // NaN differs from itself, so the closure runs again
    assert!(eval(ctx, f64::NAN));
    assert_eq!(runs.get(), 2);
    assert!(!eval(ctx, 1.0));
    assert_eq!(runs.get(), 3);
    assert!(!eval(ctx, 1.0));
    assert_eq!(runs.get(), 3);
}

#[test]
fn a_clone_of_a_memoized_function_starts_over() {
    let dependent = Dependent::toplevel();
    let ctx = &mut dependent.ctx();
    let mut f = RxFn::new();
    assert_eq!(*f.call(ctx, 3, |_, x| x * 2), 6);
    assert_eq!(*f.call(ctx, 3, |_, _| -1), 6);

    let mut g = f.clone();
    assert!(g.is_stale(ctx));
    assert_eq!(g.generation(ctx), 0);
    assert_eq!(*g.call(ctx, 3, |_, x| x * 5), 15);
    assert_eq!(*f.call(ctx, 3, |_, _| -1), 6);

    let mut h: RxFn<i32, i32> = RxFn::default();
    assert!(h.is_stale(ctx));
    assert_eq!(*h.call(ctx, 1, |_, x| x + 1), 2);
}

#[test]
fn a_clone_of_a_cell_is_read_by_nobody() {
    let dependent = Dependent::toplevel();
    let ctx = &mut dependent.ctx();
    let a = Rx::new(ctx, String::from("value"));
    a.get(ctx);
    assert_eq!(a.dependents(ctx), 1);
    let mut b = a.clone(ctx);
    assert_eq!(b.get_untracked(), "value");
    assert_eq!(b.dependents(ctx), 0);
    b.get_mut(ctx).push('!');
    assert_eq!(a.get_untracked(), "value");
    assert_eq!(b.get_untracked(), "value!");
}

#[test]
fn effect_runs_while_dirty() {
    let dependent = Dependent::toplevel();
    let ctx = &mut dependent.ctx();
    let mut a = Rx::new(ctx, 1);
    let mut effect = Effect::new();
    let seen = Cell::new(0);
    let runs = Cell::new(0);

    assert!(effect.is_stale(ctx));
    assert_eq!(effect.generation(ctx), 0);

    let mut run = |ctx: &mut RxCtx, a: &Rx<i32>| {
        effect.call(ctx, |ctx| {
            runs.set(runs.get() + 1);
            seen.set(*a.get(ctx));
        })
    };

    run(ctx, &a);
    assert_eq!((runs.get(), seen.get()), (1, 1));
    run(ctx, &a);
    assert_eq!((runs.get(), seen.get()), (1, 1));

    *a.get_mut(ctx) = 4;
    run(ctx, &a);
    assert_eq!((runs.get(), seen.get()), (2, 4));
    run(ctx, &a);
    assert_eq!((runs.get(), seen.get()), (2, 4));

    assert!(!effect.is_stale(ctx));
    assert_eq!(effect.generation(ctx), 2);
    *a.get_mut(ctx) = 5;
    assert!(effect.is_stale(ctx));
}

#[test]
fn effect_behind_a_memoized_function() {
    let dependent = Dependent::toplevel();
    let ctx = &mut dependent.ctx();
    let mut a = Rx::new(ctx, 2);
    let mut square = RxFn::new();
    let mut effect = Effect::new();
    let shown = Cell::new(0);
    let runs = Cell::new(0);

    let mut frame = |ctx: &mut RxCtx, a: &Rx<i32>| {
        effect.call(ctx, |ctx| {
            runs.set(runs.get() + 1);
            shown.set(*square.call(ctx, (), |ctx, _| a.get(ctx) * a.get(ctx)));
        })
    };

    frame(ctx, &a);
    assert_eq!((runs.get(), shown.get()), (1, 4));
    frame(ctx, &a);
    assert_eq!(runs.get(), 1);
    // the effect reads the cell only through the memoized function
    *a.get_mut(ctx) = 3;
    frame(ctx, &a);
    assert_eq!((runs.get(), shown.get()), (2, 9));
}

#[test]
fn retired_consumers_are_reaped_on_the_next_walk() {
    let dependent = Dependent::toplevel();
    let ctx = &mut dependent.ctx();
    let mut a = Rx::new(ctx, 1);
    let mut b = Rx::new(ctx, 2);
    let mut f = RxFn::new();
    let mut effect = Effect::new();

    assert_eq!(*f.call(ctx, (), |ctx, _| a.get(ctx) + b.get(ctx)), 3);
    effect.call(ctx, |ctx| {
        b.get(ctx);
    });
    assert_eq!(a.dependents(ctx), 1);
    assert_eq!(b.dependents(ctx), 2);

    f.retire(ctx);
    // the links are still there
    assert_eq!(a.dependents(ctx), 1);
    assert_eq!(b.dependents(ctx), 2);

    // a read reaps the links to consumers that are gone and adds the reader
    a.get(ctx);
    assert_eq!(a.dependents(ctx), 1);
    // a change reaps them too
    *b.get_mut(ctx) = 5;
    assert_eq!(b.dependents(ctx), 1);
    assert!(effect.is_stale(ctx));

    effect.retire(ctx);
    *b.get_mut(ctx) = 6;
    assert_eq!(b.dependents(ctx), 0);

    // a node that was never called has nothing to give up
    RxFn::<(), ()>::new().retire(ctx);
    Effect::new().retire(ctx);
}

#[test]
fn a_node_binds_to_the_context_of_its_first_call() {
    let first = &mut Dependent::toplevel().ctx();
    let second = &mut Dependent::toplevel().ctx();
    let mut f = RxFn::new();
    assert_eq!(*f.call(first, 1, |_, x| x + 1), 2);
    assert_eq!(f.generation(first), 1);
    // the other context holds no record of the node
    assert_eq!(f.generation(second), 0);
    assert!(f.is_stale(second));
    assert_eq!(*f.call(second, 1, |_, x| x + 10), 11);
    assert_eq!(f.generation(second), 1);
}

#[test]
fn sequence_cell_reads_and_writes() {
    let dependent = Dependent::toplevel();
    let ctx = &mut dependent.ctx();
    let mut list: RxVec<i32> = RxVec::new(ctx);
    let mut sum = RxFn::new();
    let runs = Cell::new(0);

    assert_eq!(list.len(), 0);
    assert_eq!(list.get(ctx, 0), None);

    let mut total = |ctx: &mut RxCtx, list: &RxVec<i32>| -> i32 {
        *sum.call(ctx, (), |ctx, _| {
            runs.set(runs.get() + 1);
            list.as_slice(ctx).iter().map(|entry| entry.value).sum()
        })
    };

    assert_eq!(total(ctx, &list), 0);
    list.push(ctx, 4);
    list.push(ctx, 6);
    assert_eq!(list.len(), 2);
    assert_eq!(total(ctx, &list), 10);
    assert_eq!(runs.get(), 2);
    assert_eq!(total(ctx, &list), 10);
    assert_eq!(runs.get(), 2);

    assert_eq!(list.get(ctx, 1), Some(&6));
    assert_eq!(list.get(ctx, 2), None);

    // a change of one entry in its place dirties nobody
    *list.get_mut(1).unwrap() = 60;
    assert!(list.get_mut(2).is_none());
    assert_eq!(total(ctx, &list), 10);
    assert_eq!(runs.get(), 2);
    assert_eq!(list.get(ctx, 1), Some(&60));

    // the next entry does
    list.push(ctx, 1);
    assert_eq!(total(ctx, &list), 65);
    assert_eq!(runs.get(), 3);
}

#[test]
fn sequence_cell_get_tracks_even_out_of_range() {
    let dependent = Dependent::toplevel();
    let ctx = &mut dependent.ctx();
    let mut list: RxVec<i32> = RxVec::new(ctx);
    let mut first = RxFn::new();

    assert_eq!(*first.call(ctx, (), |ctx, _| list.get(ctx, 0).copied()), None);
    list.push(ctx, 9);
    assert!(first.is_stale(ctx));
    assert_eq!(*first.call(ctx, (), |ctx, _| list.get(ctx, 0).copied()), Some(9));
}

#[test]
fn identifiers_rise_in_the_order_of_creation() {
    let dependent = Dependent::toplevel();
    let ctx = &mut dependent.ctx();
    let mut first: RxVec<u8> = RxVec::new(ctx);
    let second: RxVec<u8> = RxVec::new(ctx);
    first.push(ctx, 1);
    let copy = first.clone(ctx);
    assert_ne!(first.id(), second.id());
    assert_ne!(first.id(), copy.id());
    assert_ne!(first.as_slice(ctx)[0].id(), copy.as_slice(ctx)[0].id());
    assert_eq!(first.id(), first.id());
    let kept = first.id();
    first.push(ctx, 2);
    assert_eq!(first.id(), kept);
}

#[test]
fn dirtying_is_transitive_and_exact() {
    let dependent = Dependent::toplevel();
    let ctx = &mut dependent.ctx();
    let mut a = Rx::new(ctx, 1);
    let mut b = Rx::new(ctx, 2);
    let mut reads_a = RxFn::new();
    let mut reads_reads_a = RxFn::new();
    let mut reads_b = RxFn::new();

    let out = *reads_reads_a.call(ctx, (), |ctx, _| {
        *reads_a.call(ctx, (), |ctx, _| *a.get(ctx) + 1) + 1
    });
    assert_eq!(out, 3);
    assert_eq!(*reads_b.call(ctx, (), |ctx, _| *b.get(ctx) * 2), 4);
    ctx.set_clean();

    *b.get_mut(ctx) = 20;
    assert!(reads_b.is_stale(ctx));
    assert!(!reads_a.is_stale(ctx));
    assert!(!reads_reads_a.is_stale(ctx));
    assert!(ctx.dependent().unwrap().dirty());

    ctx.set_clean();
    assert_eq!(*reads_b.call(ctx, (), |ctx, _| *b.get(ctx) * 2), 40);

    *a.get_mut(ctx) = 5;
    assert!(reads_a.is_stale(ctx));
    assert!(reads_reads_a.is_stale(ctx));
    assert!(!reads_b.is_stale(ctx));
    assert!(ctx.dependent().unwrap().dirty());

    // dirtying runs nothing
    assert_eq!(reads_a.generation(ctx), 1);
    assert_eq!(reads_reads_a.generation(ctx), 1);
}
