//! The operator factory: macros, recursion, built-ins and pipelines.

use geodesy::Context;
use geodesy::Coor4D;
use geodesy::GysResource;
use geodesy::Operator;
use geodesy::OperatorCore;
use geodesy::Pipeline;

#[test]
fn operator() {
    let mut o = Context::new();

    // A non-existing operator
    let h = Operator::new("unimplemented_operator: {x: -87, y: -96, z: -120}", &mut o);
    assert!(h.is_err());

    // Define "hilmert" and "halmert" to circularly define each other, in
    // order to test the factory's recursion breaker
    assert!(o.register_macro("halmert", "hilmert: {}"));
    assert!(o.register_macro("hilmert", "halmert: {}"));
    if Operator::new("halmert: {x: -87, y: -96, z: -120}", &mut o).is_err() {
        assert!(o.report().contains("too deeply nested"));
    } else {
        panic!();
    }

    // Define "hulmert" as a macro forwarding its args to the "helmert" builtin
    assert!(o.register_macro("hulmert", "helmert: {x: ^x, y: ^y, z: ^z}"));

    // A plain operator: Helmert, 3 parameter
    let hh = Operator::new("helmert: {x: -87, y: -96, z: -120}", &mut o);
    assert!(hh.is_ok());
    let hh = hh.unwrap();

    // Same operator, defined through the "hulmert" macro
    let h = Operator::new("hulmert: {x: -87, y: -96, z: -120}", &mut o);
    assert!(h.is_ok());
    let h = h.unwrap();

    assert_eq!(hh.name(), "helmert");
    assert_eq!(h.name(), "helmert");
    assert!(!h.is_inverted());

    // Check that the "builtin_" prefix works properly: shadow "helmert"
    // with a forwarding macro of the same name - without making trouble
    // for later use
    assert!(o.register_macro("helmert", "builtin_helmert: {x: ^x, y: ^y, z: ^z}"));
    let shadowed = Operator::new("helmert: {x: -87, y: -96, z: -120}", &mut o);
    assert!(shadowed.is_ok());
    assert_eq!(shadowed.unwrap().name(), "helmert");

    // A pipeline
    let pipeline = "ed50_etrs89: {
        steps: [
            cart: {ellps: intl},
            helmert: {x: -87, y: -96, z: -120},
            cart: {inv: true, ellps: GRS80}
        ]
    }";
    let h = Operator::new(pipeline, &mut o);
    assert!(h.is_ok());
    let h = h.unwrap();
    assert_eq!(h.name(), "pipeline");
    assert_eq!(h.len(), 3);
    let plan = h.schedule(true);
    assert_eq!(plan.len(), 3);
    assert_eq!(plan[0].name, "cart");
    assert!(plan[0].forward);
    assert_eq!(plan[1].name, "helmert");
    assert!(plan[1].forward);
    assert_eq!(plan[2].name, "cart");
    // The third step was mounted inverted, so its kernel runs the other way.
    assert!(!plan[2].forward);

    // Running the whole pipeline inverse reverses the order and the roles.
    let plan = h.schedule(false);
    assert_eq!(plan.len(), 3);
    assert_eq!(plan[0].name, "cart");
    assert!(plan[0].forward);
    assert_eq!(plan[1].name, "helmert");
    assert!(!plan[1].forward);
    assert_eq!(plan[2].name, "cart");
    assert!(!plan[2].forward);
}

#[test]
fn user_defined_operator() {
    struct Nnoopp;

    impl OperatorCore for Nnoopp {
        fn fwd(&self, operands: &mut Vec<Coor4D>) -> bool {
            for coord in operands.iter_mut() {
                *coord = Coor4D::raw(42f64.to_bits(), coord.1, coord.2, coord.3);
            }
            true
        }

        fn inv(&self, operands: &mut Vec<Coor4D>) -> bool {
            for coord in operands.iter_mut() {
                *coord = Coor4D::raw(24f64.to_bits(), coord.1, coord.2, coord.3);
            }
            true
        }

        fn name(&self) -> &'static str {
            "nnoopp"
        }

        fn is_inverted(&self) -> bool {
            false
        }
    }

    let mut ctx = Context::new();
    ctx.register_operator("nnoopp");

    let op = ctx.operation("nnoopp: {}").unwrap();
    assert_eq!(op.name(), "nnoopp");
    // The compiled operator dispatches to the registered name: its
    // schedule is the one user activation, which the caller then runs
    // through its OperatorCore implementation.
    let plan = op.schedule(geodesy::FWD);
    assert_eq!(plan.len(), 1);
    assert_eq!(plan[0].name, "nnoopp");
    assert!(plan[0].forward);

    let nnoopp = Nnoopp;
    let mut operands = vec![Coor4D::raw(
        12f64.to_bits(),
        55f64.to_bits(),
        100f64.to_bits(),
        0f64.to_bits(),
    )];
    let _aha = nnoopp.operate(&mut operands, geodesy::FWD);
    assert_eq!(f64::from_bits(operands[0].get(0)), 42.);
    nnoopp.operate(&mut operands, geodesy::INV);
    assert_eq!(f64::from_bits(operands[0].get(0)), 24.);
}

#[test]
fn gys() {
    let mut rp = Context::new();
    rp.register_macro("foo", "bar");
    rp.register_macro("ignore", "noop");
    let foo = rp.locate_macro("foo").unwrap();
    assert_eq!(foo.trim(), "bar");

    // This should be OK, since noop is a builtin
    let res = GysResource::from("noop pip");
    let p = Pipeline::new(&res, &mut rp, 0);
    assert!(p.is_ok());

    // This should be OK, due to "ignore" resolving to noop
    let res = GysResource::from("ignore pip");
    let p = Pipeline::new(&res, &mut rp, 0);
    assert!(p.is_ok());

    // This should fail, due to "baz" being undefined
    let res = GysResource::from("ignore pip|baz pop");
    let p = Pipeline::new(&res, &mut rp, 0);
    assert!(p.is_err());
}

// Both surface syntaxes resolve to the same operator plan: the block
// definition and its shorthand twin compile to pipelines of the same
// primitives with the same parameters, step for step.
#[test]
fn block_and_shorthand_agree() {
    let mut o = Context::new();
    // The conventional boundary sugar, forwarding its own arguments.
    o.register_macro("geo", "adapt from:neut_deg ARGS");

    let pipeline = "ed50_etrs89: {
        steps: [
            adapt: {from: neut_deg},
            cart: {ellps: intl},
            helmert: {x: -87, y: -96, z: -120},
            cart: {inv: true, ellps: GRS80},
            adapt: {to: neut_deg}
        ]
    }";
    let gys =
        "geo | cart ellps:intl | helmert x:-87 y:-96 z:-120 | cart inv ellps:GRS80 | geo inv";

    let op_yaml = Operator::new(pipeline, &mut o).unwrap();
    let op_gys = Operator::new(gys, &mut o).unwrap();

    assert_eq!(op_yaml.len(), 5);
    assert_eq!(op_gys.len(), 5);

    // The middle three steps agree exactly.
    for step in 1..4 {
        let a = op_yaml.args(step);
        let b = op_gys.args(step);
        assert_eq!(a.len(), b.len());
        for (pa, pb) in a.iter().zip(b.iter()) {
            assert_eq!(pa.0, pb.0);
            assert_eq!(pa.1, pb.1);
        }
    }

    // The boundary steps are the same reshaper; the block names its exit
    // by direction, the shorthand by mounting the entry inverted.
    let plan_yaml = op_yaml.schedule(true);
    let plan_gys = op_gys.schedule(true);
    assert_eq!(plan_yaml.len(), 5);
    assert_eq!(plan_gys.len(), 5);
    for i in 0..5 {
        assert_eq!(plan_yaml[i].name, plan_gys[i].name);
    }
    assert!(!plan_gys[4].forward);
}

// Pipeline inversion commutes with step inversion: the inverted pipeline
// and the pipeline of individually inverted steps in reverse order
// perform the same activations.
#[test]
fn pipeline_inversion_matches_step_inversion() {
    let mut o = Context::new();
    let a = Operator::new("cart ellps:intl", &mut o).unwrap();
    let b = Operator::new("helmert x:-87 y:-96 z:-120", &mut o).unwrap();
    let c = Operator::new("cart inv ellps:GRS80", &mut o).unwrap();

    let inverted_pipe = geodesy::Operator {
        name: String::from("pipeline"),
        kind: geodesy::OpKind::Pipeline,
        params: Vec::new(),
        globals: Vec::new(),
        steps: vec![clone_op(&a), clone_op(&b), clone_op(&c)],
        inverted: true,
    };
    let mirrored = geodesy::Operator {
        name: String::from("pipeline"),
        kind: geodesy::OpKind::Pipeline,
        params: Vec::new(),
        globals: Vec::new(),
        steps: vec![invert_op(&c), invert_op(&b), invert_op(&a)],
        inverted: false,
    };

    for forward in [true, false] {
        let p1 = inverted_pipe.schedule(forward);
        let p2 = mirrored.schedule(forward);
        assert_eq!(p1.len(), p2.len());
        for (d1, d2) in p1.iter().zip(p2.iter()) {
            assert_eq!(d1.name, d2.name);
            assert_eq!(d1.forward, d2.forward);
            assert_eq!(d1.params, d2.params);
        }
    }
}

fn clone_op(op: &Operator) -> Operator {
    geodesy::Operator {
        name: op.name.clone(),
        kind: op.kind,
        params: op.params.clone(),
        globals: op.globals.clone(),
        steps: op.steps.iter().map(clone_op).collect(),
        inverted: op.inverted,
    }
}

fn invert_op(op: &Operator) -> Operator {
    let mut r = clone_op(op);
    r.inverted = !r.inverted;
    r
}

// An inverse run visits the same kernels as the forward run, in reverse
// order, each in its opposite direction: round trips cancel step by step.
#[test]
fn inverse_schedule_mirrors_forward() {
    let mut o = Context::new();
    let op = Operator::new(
        "cart ellps:intl | helmert x:-87 y:-96 z:-120 | cart inv ellps:GRS80",
        &mut o,
    )
    .unwrap();
    let fwd = op.schedule(true);
    let inv = op.schedule(false);
    assert_eq!(fwd.len(), inv.len());
    let n = fwd.len();
    for i in 0..n {
        assert_eq!(inv[i].name, fwd[n - 1 - i].name);
        assert_eq!(inv[i].forward, !fwd[n - 1 - i].forward);
    }
}

// A primitive block compiles to exactly its head with its entries as the
// step's own bindings.
#[test]
fn primitive_block_compiles_exactly() {
    let mut o = Context::new();
    let op = Operator::new("helmert: {x: -87, y: -96, z: -120}", &mut o).unwrap();
    assert_eq!(op.name(), "helmert");
    assert_eq!(op.len(), 0);
    let bindings = op.args(0);
    assert_eq!(bindings.len(), 4);
    assert_eq!(bindings[0], ("name".to_string(), "helmert".to_string()));
    assert_eq!(bindings[1], ("x".to_string(), "-87".to_string()));
    assert_eq!(bindings[2], ("y".to_string(), "-96".to_string()));
    assert_eq!(bindings[3], ("z".to_string(), "-120".to_string()));

    let op = Operator::new("merc", &mut o).unwrap();
    assert_eq!(op.name(), "merc");
    assert!(!op.is_inverted());
}

// A noop step contributes nothing to the activations of a pipeline.
#[test]
fn noop_steps_are_skipped() {
    let mut o = Context::new();
    let op = Operator::new("noop | helmert x:1 | noop", &mut o).unwrap();
    assert_eq!(op.len(), 3);
    let plan = op.schedule(true);
    assert_eq!(plan.len(), 1);
    assert_eq!(plan[0].name, "helmert");
}

// A pipeline block's scalar entries become the globals its steps see.
#[test]
fn block_scalars_become_globals() {
    let mut o = Context::new();
    let op = Operator::new(
        "shifted: {ellps: intl, steps: [cart, helmert: {x: -87}]}",
        &mut o,
    )
    .unwrap();
    assert_eq!(op.len(), 2);
    let plan = op.schedule(true);
    // The steps inherit the scalar binding through their scope.
    assert_eq!(plan[0].name, "cart");
    assert_eq!(plan[0].resolve("ellps").as_deref(), Some("intl"));
    assert_eq!(plan[1].resolve("x").as_deref(), Some("-87"));
}

// A parameterized macro pipeline, with globals indirection.
#[test]
fn parameterized_macro() {
    let mut o = Context::new();
    let pipeline_as_macro = "pipeline: {
        globals: {
            leftleft: ^left
        },
        steps: [
            cart: {ellps: ^leftleft},
            helmert: {x: ^x, y: ^y, z: ^z},
            cart: {inv: true, ellps: ^right}
        ]
    }";
    assert!(o.register_macro("geohelmert", pipeline_as_macro));
    let ed50_etrs89 = Operator::new(
        "geohelmert: {left: intl, right: GRS80, x: -87, y: -96, z: -120}",
        &mut o,
    );
    assert!(ed50_etrs89.is_ok());
    let ed50_etrs89 = ed50_etrs89.unwrap();
    assert_eq!(ed50_etrs89.len(), 3);
    let plan = ed50_etrs89.schedule(true);
    assert_eq!(plan[0].name, "cart");
    assert_eq!(plan[1].name, "helmert");
    assert_eq!(plan[2].name, "cart");
}
