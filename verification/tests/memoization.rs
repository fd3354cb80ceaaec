use std::cell::Cell;

use fluorine::{Dependent, Rx, RxCtx, RxFn};

#[test]
fn test_readme_example() {
    let dependent = Dependent::toplevel();
    let ctx = &mut dependent.ctx();

    let mut a = Rx::new(ctx, 1.);

    let mut f = RxFn::new();

    let mut output = |ctx: &mut RxCtx, a: &Rx<f64>, multiplier: f64| -> f64 {
        *f.call(ctx, multiplier, |ctx, multiplier| a.get(ctx) * multiplier)
    };

    // it gets evaluated here for the first time.
    assert_eq!(output(ctx, &a, 2.), 2.);

    // this uses the stored result.
    assert_eq!(output(ctx, &a, 2.), 2.);

    // it gets re-evaluated if the input changes
    assert_eq!(output(ctx, &a, 17.), 17.);

    // or if a dependency changes
    *a.get_mut(ctx) = 3.;
    assert_eq!(output(ctx, &a, 17.), 51.);
}

#[test]
fn test() {
    struct MyState {
        something: Rx<f64>,
        layout: RxFn<f64, f64>,
    }

    fn layout(ctx: &mut RxCtx, state: &mut MyState, width: f64) -> f64 {
        *state.layout.call(ctx, width, |ctx, width| {
            let height = state.something.get(ctx) / width;

            height
        })
    }

    let dependent = Dependent::toplevel();
    let ctx = &mut dependent.ctx();

    let mut state = MyState {
        something: Rx::new(ctx, 128.),
        layout: RxFn::new(),
    };

    assert_eq!(layout(ctx, &mut state, 2.), 64.);

    *state.something.get_mut(ctx) = 64.;

    assert_eq!(layout(ctx, &mut state, 2.), 32.);
}

#[test]
fn test_last_input_storage() {
    let times_called = Cell::new(0);

    let mut f = RxFn::new();
    let mut something = |ctx: &mut RxCtx, num: u32| -> bool {
        *f.call(ctx, num, |_ctx, num| {
            times_called.set(times_called.get() + 1);
            num & 1 == 0
        })
    };

    let dependent = Dependent::toplevel();
    let ctx = &mut dependent.ctx();

    assert!(!something(ctx, 1));
    assert_eq!(times_called.get(), 1);
    assert!(!something(ctx, 1));
    assert_eq!(times_called.get(), 1);
    assert!(something(ctx, 310));
    assert_eq!(times_called.get(), 2);
}

#[test]
fn test_dependency_change() {
    let dependent = Dependent::toplevel();
    let ctx = &mut dependent.ctx();

    let mut a = Rx::new(ctx, true);
    let mut b = Rx::new(ctx, 2);

    let mut f = RxFn::new();
    let mut something = |ctx: &mut RxCtx, a: &mut Rx<bool>, b: &mut Rx<u32>| -> bool {
        *f.call(ctx, (), |ctx, ()| *a.get(ctx) || *b.get(ctx) > 3)
    };

    assert!(something(ctx, &mut a, &mut b));
    assert_eq!(a.dependents(ctx), 1);
    assert_eq!(b.dependents(ctx), 0);

    *a.get_mut(ctx) = false;

    assert!(!something(ctx, &mut a, &mut b));
    assert_eq!(a.dependents(ctx), 1);
    assert_eq!(b.dependents(ctx), 1);

    *a.get_mut(ctx) = true;

    assert!(something(ctx, &mut a, &mut b));
    assert_eq!(a.dependents(ctx), 1);
    assert_eq!(b.dependents(ctx), 1);

    *b.get_mut(ctx) = 513;

    // After b has been mutated it should become aware that f is no longer dependent on it.
    assert_eq!(b.dependents(ctx), 0);
}

#[test]
fn test_nested() {
    struct Inner {
        a: Rx<bool>,
        layout: RxFn<f64, f64>,
    }

    fn inner_layout(ctx: &mut RxCtx, state: &mut Inner, width: f64) -> f64 {
        *state.layout.call(ctx, width, |ctx, width| {
            if *state.a.get(ctx) && *width > 0. {
                20.
            } else {
                30.
            }
        })
    }

    struct MyState {
        inner: Inner,
        something: Rx<f64>,
        layout: RxFn<f64, f64>,
    }

    fn layout(ctx: &mut RxCtx, state: &mut MyState, width: f64) -> f64 {
        *state.layout.call(ctx, width, |ctx, width| {
            let height = state.something.get(ctx) / width
                + inner_layout(ctx, &mut state.inner, width - 1.);

            height
        })
    }

    let dependent = Dependent::toplevel();
    let ctx = &mut dependent.ctx();

    let mut state = MyState {
        inner: Inner {
            a: Rx::new(ctx, true),
            layout: RxFn::new(),
        },
        something: Rx::new(ctx, 128.),
        layout: RxFn::new(),
    };

    assert_eq!(layout(ctx, &mut state, 2.), 84.);

    *state.inner.a.get_mut(ctx) = false;

    assert_eq!(layout(ctx, &mut state, 2.), 94.);
}
