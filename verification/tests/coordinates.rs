//! Coordinate containers seen through the CoordinateSet capability.

use geodesy::Coor4D;
use geodesy::CoordinateSet;

fn some_basic_coor4dinates() -> [Coor4D; 2] {
    let cph = Coor4D::raw(55f64.to_bits(), 12f64.to_bits(), 0f64.to_bits(), 0f64.to_bits());
    let sth = Coor4D::raw(59f64.to_bits(), 18f64.to_bits(), 0f64.to_bits(), 0f64.to_bits());
    [cph, sth]
}

// The fixed-size array implementation of CoordinateSet.
#[test]
fn array() {
    let mut operands = some_basic_coor4dinates();
    assert_eq!(operands.len(), 2);
    assert!(!operands.is_empty());

    let cph = operands.get_coord(0);
    assert_eq!(f64::from_bits(cph.get(0)), 55.);
    assert_eq!(f64::from_bits(cph.get(1)), 12.);

    let sth = operands.get_coord(1);
    assert_eq!(f64::from_bits(sth.get(0)), 59.);
    assert_eq!(f64::from_bits(sth.get(1)), 18.);

    // Turn Copenhagen into Stockholm
    operands.set_coord(0, &sth);
    let cph = operands.get_coord(0);
    assert_eq!(f64::from_bits(cph.get(0)), 59.);
    assert_eq!(f64::from_bits(cph.get(1)), 18.);
}

// The Vec implementation of CoordinateSet.
#[test]
fn vector() {
    let mut operands = Vec::from(some_basic_coor4dinates());
    assert_eq!(operands.len(), 2);
    assert!(!operands.is_empty());

    let cph = operands.get_coord(0);
    assert_eq!(f64::from_bits(cph.get(0)), 55.);
    assert_eq!(f64::from_bits(cph.get(1)), 12.);

    let sth = operands.get_coord(1);
    assert_eq!(f64::from_bits(sth.get(0)), 59.);
    assert_eq!(f64::from_bits(sth.get(1)), 18.);

    // Turn Copenhagen into Stockholm
    operands.set_coord(0, &sth);
    let cph = operands.get_coord(0);
    assert_eq!(f64::from_bits(cph.get(0)), 59.);
    assert_eq!(f64::from_bits(cph.get(1)), 18.);
}

#[test]
fn setting_and_getting_as_f64() {
    let first = Coor4D::raw(
        11f64.to_bits(),
        12f64.to_bits(),
        13f64.to_bits(),
        14f64.to_bits(),
    );
    let second = Coor4D::raw(
        21f64.to_bits(),
        22f64.to_bits(),
        23f64.to_bits(),
        24f64.to_bits(),
    );
    let mut operands = Vec::from([first, second]);
    let (x, y) = operands.xy(0);
    assert_eq!((f64::from_bits(x), f64::from_bits(y)), (11., 12.));
    let (x, y) = operands.xy(1);
    assert_eq!((f64::from_bits(x), f64::from_bits(y)), (21., 22.));
    operands.set_xy(0, x, y);
    let (x, y) = operands.xy(0);
    assert_eq!((f64::from_bits(x), f64::from_bits(y)), (21., 22.));

    let mut operands = Vec::from([first, second]);
    let (x, y, z) = operands.xyz(0);
    assert_eq!(
        (f64::from_bits(x), f64::from_bits(y), f64::from_bits(z)),
        (11., 12., 13.)
    );
    let (x, y, z) = operands.xyz(1);
    assert_eq!(
        (f64::from_bits(x), f64::from_bits(y), f64::from_bits(z)),
        (21., 22., 23.)
    );
    operands.set_xyz(0, x, y, z);
    let (x, y, z) = operands.xyz(0);
    assert_eq!(
        (f64::from_bits(x), f64::from_bits(y), f64::from_bits(z)),
        (21., 22., 23.)
    );

    let mut operands = Vec::from([first, second]);
    let (x, y, z, t) = operands.xyzt(0);
    assert_eq!(
        (
            f64::from_bits(x),
            f64::from_bits(y),
            f64::from_bits(z),
            f64::from_bits(t)
        ),
        (11., 12., 13., 14.)
    );
    let (x, y, z, t) = operands.xyzt(1);
    assert_eq!(
        (
            f64::from_bits(x),
            f64::from_bits(y),
            f64::from_bits(z),
            f64::from_bits(t)
        ),
        (21., 22., 23., 24.)
    );
    operands.set_xyzt(0, x, y, z, t);
    let (x, y, z, t) = operands.xyzt(0);
    assert_eq!(
        (
            f64::from_bits(x),
            f64::from_bits(y),
            f64::from_bits(z),
            f64::from_bits(t)
        ),
        (21., 22., 23., 24.)
    );
}

// Narrow containers widen to 4D with a zero height and a NaN epoch.
#[test]
fn widening() {
    let mut operands = vec![geodesy::Coor2D::raw(55f64.to_bits(), 12f64.to_bits())];
    assert_eq!(operands.dim(), 2);
    let c = operands.get_coord(0);
    assert_eq!(f64::from_bits(c.get(2)), 0.);
    assert!(f64::from_bits(c.get(3)).is_nan());

    // Writing discards what the container cannot hold.
    operands.set_coord(
        0,
        &Coor4D::raw(1f64.to_bits(), 2f64.to_bits(), 3f64.to_bits(), 4f64.to_bits()),
    );
    let c = operands.get_coord(0);
    assert_eq!(f64::from_bits(c.get(0)), 1.);
    assert_eq!(f64::from_bits(c.get(1)), 2.);
    assert_eq!(f64::from_bits(c.get(2)), 0.);
    assert!(f64::from_bits(c.get(3)).is_nan());
}

// The fixed height and epoch adapter.
#[test]
fn adapter_tuple() {
    let inner = vec![geodesy::Coor2D::raw(55f64.to_bits(), 12f64.to_bits())];
    let padded = (inner, 100f64.to_bits(), 2000f64.to_bits());
    assert_eq!(padded.dim(), 4);
    let c = padded.get_coord(0);
    assert_eq!(f64::from_bits(c.get(2)), 100.);
    assert_eq!(f64::from_bits(c.get(3)), 2000.);
}

// Exchanging the first two components twice is the identity, bit for bit.
#[test]
fn axis_swap_involution() {
    let c = Coor4D::raw(
        12f64.to_bits(),
        55f64.to_bits(),
        100f64.to_bits(),
        f64::NAN.to_bits(),
    );
    let swapped = c.swapped_xy();
    assert_eq!(swapped.get(0), c.get(1));
    assert_eq!(swapped.get(1), c.get(0));
    let back = swapped.swapped_xy();
    for i in 0..4 {
        assert_eq!(back.get(i), c.get(i));
    }
}

#[test]
fn data_epoch_is_undefined() {
    let e = geodesy::DataEpoch::new();
    assert!(f64::from_bits(e.0).is_nan());
}

#[test]
fn fresh_identifiers() {
    let a = geodesy::MdIdentifier::new();
    let b = geodesy::MdIdentifier::new();
    // Two fresh identifiers are distinct with overwhelming probability.
    assert_ne!(a.0, b.0);
}
