//! Parameter validation and the error type.

use geodesy::Context;
use geodesy::GeodesyError;

#[test]
fn unknown_keys_are_errors() {
    let mut ctx = Context::new();
    assert!(ctx.operation("cart ellps:intl").is_ok());
    assert!(matches!(
        ctx.operation("cart bogus:1"),
        Err(GeodesyError::Syntax(_))
    ));
    assert!(matches!(
        ctx.operation("fantasy_operator x:1"),
        Err(GeodesyError::NotFound(_))
    ));
}

#[test]
fn malformed_numbers_are_errors() {
    let mut ctx = Context::new();
    assert!(ctx.operation("helmert x:-87 y:-96 z:-120").is_ok());
    assert!(ctx.operation("helmert x:1.5").is_ok());
    assert!(matches!(
        ctx.operation("helmert x:abc"),
        Err(GeodesyError::Syntax(_))
    ));
    assert!(matches!(
        ctx.operation("helmert x:1.2.3"),
        Err(GeodesyError::Syntax(_))
    ));
}

#[test]
fn merc_lat_ts_bound() {
    let mut ctx = Context::new();
    assert!(ctx.operation("merc lat_ts:55").is_ok());
    assert!(ctx.operation("merc lat_ts:90").is_ok());
    assert!(ctx.operation("merc lat_ts:-90.000").is_ok());
    assert!(matches!(
        ctx.operation("merc lat_ts:90.5"),
        Err(GeodesyError::Operator(_, _))
    ));
    assert!(matches!(
        ctx.operation("merc lat_ts:91"),
        Err(GeodesyError::Operator(_, _))
    ));
    assert!(ctx.operation("merc").is_ok());
}

#[test]
fn utm_zone_bound() {
    let mut ctx = Context::new();
    assert!(ctx.operation("utm zone:32").is_ok());
    assert!(ctx.operation("utm: {zone: 1}").is_ok());
    assert!(ctx.operation("utm: {zone: 60}").is_ok());
    assert!(matches!(
        ctx.operation("utm zone:0"),
        Err(GeodesyError::Operator(_, _))
    ));
    assert!(matches!(
        ctx.operation("utm zone:61"),
        Err(GeodesyError::Operator(_, _))
    ));
    assert!(ctx.operation("utm").is_err());
    assert!(ctx.operation("utm zone:3.5").is_err());
}

#[test]
fn utm_zone_parameters() {
    let p = geodesy::Tmerc::utm_zone_params(32, false);
    assert_eq!(p.lon_0_deg, 9);
    assert_eq!(p.x_0, 500_000);
    assert_eq!(p.y_0, 0);
    assert_eq!(p.k_0_times_10000, 9_996);

    let p = geodesy::Tmerc::utm_zone_params(1, true);
    assert_eq!(p.lon_0_deg, -177);
    assert_eq!(p.y_0, 10_000_000);
}

#[test]
fn recursion_error() {
    let mut ctx = Context::new();
    ctx.register_macro("a", "b: {}");
    ctx.register_macro("b", "a: {}");
    assert!(matches!(
        ctx.operation("a: {}"),
        Err(GeodesyError::Recursion(_))
    ));
}

#[test]
fn error_messages_name_their_kind() {
    assert_eq!(GeodesyError::Unknown.message(), "unknown");
    assert_eq!(
        GeodesyError::General("grid trouble").message(),
        "general: grid trouble"
    );
    assert_eq!(
        GeodesyError::NotFound(String::from("nowhere")).message(),
        "not found: nowhere"
    );
    assert_eq!(
        GeodesyError::Operator("merc", "bad latitude").message(),
        "operator: merc: bad latitude"
    );
    assert_eq!(
        GeodesyError::Syntax(String::from("wat")).message(),
        "syntax: wat"
    );
    assert_eq!(
        GeodesyError::Io(String::from("short read")).message(),
        "io: short read"
    );
    assert_eq!(
        GeodesyError::Recursion(String::from("a")).message(),
        "recursion: a"
    );
    assert_eq!(
        GeodesyError::InvalidHeader {
            expected: String::from("11"),
            found: String::from("7")
        }
        .message(),
        "invalid header: expected 11, found 7"
    );
    assert_eq!(GeodesyError::Unknown.kind(), "unknown");
}

#[test]
fn shorthand_splitting() {
    let res = geodesy::GysResource::from(" a  | b x:1 |c ");
    assert_eq!(res.steps.len(), 3);
    assert_eq!(res.steps[0], "a");
    assert_eq!(res.steps[1], "b x:1");
    assert_eq!(res.steps[2], "c");
}

#[test]
fn builtin_name_resolution() {
    assert_eq!(geodesy::builtins("merc").unwrap(), "merc");
    assert_eq!(geodesy::builtins("MERC").unwrap(), "merc");
    assert_eq!(geodesy::builtins("builtin_helmert").unwrap(), "helmert");
    assert_eq!(geodesy::builtins("Builtin_Helmert").unwrap(), "helmert");
    assert!(geodesy::builtins("fantasy_operator").is_err());
}

#[test]
fn args_substitution_is_textual() {
    let globals: Vec<(String, String)> = Vec::new();
    let args = geodesy::GysArgs::new(&globals, "geo inv lat:5");
    // Each forwarded pair arrives with its own leading blank; the
    // tokenizer collapses runs of blanks, so surplus ones are harmless.
    let out = geodesy::expand_gys("adapt from:neut_deg ARGS", &args);
    assert_eq!(out, "adapt from:neut_deg  inv:true lat:5");

    // Every occurrence is replaced; a body without the slot is unchanged.
    let out = geodesy::expand_gys("a ARGS b ARGS", &args);
    assert_eq!(out, "a  inv:true lat:5 b  inv:true lat:5");
    let out = geodesy::expand_gys("noop", &args);
    assert_eq!(out, "noop");
}

#[test]
fn step_args_fall_back_to_own_bindings() {
    let mut ctx = geodesy::Context::new();
    let op = ctx.operation("cart ellps:intl | helmert x:1").unwrap();
    // In-range steps hand out the step's bindings.
    assert_eq!(op.args(1)[0].1, "helmert");
    // Out of range, the pipeline describes itself.
    assert_eq!(op.args(2)[0].0, "step");
}

// An activation's parameters resolve under the same scope rules the
// compiler used, indirection included.
#[test]
fn directive_resolution() {
    let mut ctx = Context::new();
    ctx.register_macro("hulmert", "helmert: {x: ^x, y: ^y, z: ^z}");
    let op = ctx
        .operation("hulmert: {x: -87, y: -96, z: -120}")
        .unwrap();
    let plan = op.schedule(true);
    assert_eq!(plan.len(), 1);
    assert_eq!(plan[0].resolve("x").as_deref(), Some("-87"));
    assert_eq!(plan[0].resolve("y").as_deref(), Some("-96"));
    assert_eq!(plan[0].resolve("z").as_deref(), Some("-120"));
    assert_eq!(plan[0].resolve("w"), None);
}

#[test]
fn argument_substitution() {
    // A macro body's ARGS slot receives the call's arguments.
    let mut ctx = Context::new();
    ctx.register_macro("geo", "adapt from:neut_deg ARGS");
    let op = ctx.operation("geo inv").unwrap();
    assert_eq!(op.name(), "adapt");
    assert!(op.is_inverted());
    let op = ctx.operation("geo").unwrap();
    assert_eq!(op.name(), "adapt");
    assert!(!op.is_inverted());
}
