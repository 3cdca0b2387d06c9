//! Grids, the grid shift decision, and NTv2 byte access.

use geodesy::decide;
use geodesy::decide_inverse;
use geodesy::Context;
use geodesy::Coor4D;
use geodesy::Endianness;
use geodesy::Grid;
use geodesy::GridAction;
use geodesy::NTv2Parser;

fn degree_grid(bands: usize) -> Grid {
    // A one-degree cell around (12 E, 55 N), in radians.
    let lat_min = (54.5f64.to_radians()).to_bits();
    let lat_max = (55.5f64.to_radians()).to_bits();
    let lon_min = (11.5f64.to_radians()).to_bits();
    let lon_max = (12.5f64.to_radians()).to_bits();
    let d = (1.0f64.to_radians()).to_bits();
    let samples = vec![0u32; 4 * bands];
    Grid::new(lat_min, lat_max, lon_min, lon_max, d, d, 2, 2, bands, samples).unwrap()
}

fn point(lon_deg: f64, lat_deg: f64) -> Coor4D {
    Coor4D::raw(
        lon_deg.to_radians().to_bits(),
        lat_deg.to_radians().to_bits(),
        0f64.to_bits(),
        0f64.to_bits(),
    )
}

#[test]
fn grid_shape_is_checked() {
    let samples = vec![0u32; 3];
    let r = Grid::new(0, 0, 0, 0, 0, 0, 2, 2, 1, samples);
    assert!(r.is_err());
    let samples = vec![0u32; 4];
    assert!(Grid::new(0, 0, 0, 0, 0, 0, 2, 2, 0, samples).is_err());
    let samples = vec![0u32; 4];
    assert!(Grid::new(0, 0, 0, 0, 0, 0, 2, 2, 1, samples).is_ok());
}

#[test]
fn containment_follows_numeric_order() {
    let g = degree_grid(2);
    assert!(g.contains(&point(12.0, 55.0)));
    assert!(g.contains(&point(11.5, 54.5)));
    assert!(g.contains(&point(12.5, 55.5)));
    assert!(!g.contains(&point(13.0, 55.0)));
    assert!(!g.contains(&point(12.0, 54.0)));
    assert!(!g.contains(&point(-12.0, 55.0)));
}

#[test]
fn first_matching_grid_wins() {
    let grids = vec![degree_grid(2), degree_grid(2)];
    match decide(&grids, false, &point(12.0, 55.0)) {
        GridAction::Datum(k) => assert_eq!(k, 0),
        _ => panic!(),
    }
    // A one-band grid is a geoid.
    let grids = vec![degree_grid(1)];
    match decide(&grids, false, &point(12.0, 55.0)) {
        GridAction::Geoid(k) => assert_eq!(k, 0),
        _ => panic!(),
    }
    // The inverse scan runs the other way.
    let grids = vec![degree_grid(2), degree_grid(2)];
    match decide_inverse(&grids, false, &point(12.0, 55.0)) {
        GridAction::Datum(k) => assert_eq!(k, 0),
        _ => panic!(),
    }
}

// A point outside all grids: all-NaN without the null grid, untouched
// with it.
#[test]
fn unmatched_point() {
    let grids = vec![degree_grid(2)];
    let outside = point(100.0, -30.0);
    assert_eq!(decide(&grids, false, &outside), GridAction::Invalidate);
    assert_eq!(decide(&grids, true, &outside), GridAction::PassThrough);
    assert_eq!(decide_inverse(&grids, false, &outside), GridAction::Invalidate);
    assert_eq!(decide_inverse(&grids, true, &outside), GridAction::PassThrough);
}

// The null grid alone is the identity on any input.
#[test]
fn null_grid_identity() {
    let grids: Vec<Grid> = Vec::new();
    for p in [point(12.0, 55.0), point(-100.0, -80.0), Coor4D::nan()] {
        assert_eq!(decide(&grids, true, &p), GridAction::PassThrough);
        assert_eq!(decide_inverse(&grids, true, &p), GridAction::PassThrough);
    }
}

// A gridshift operator accepts the null sentinel, registered grids, and
// nothing else.
#[test]
fn gridshift_construction() {
    let mut ctx = Context::new();
    assert!(ctx.operation("gridshift grids=@null").is_ok());
    assert!(ctx.operation("gridshift grids=test.datum").is_err());
    ctx.register_grid("test.datum", vec![0u8; 16]);
    assert!(ctx.operation("gridshift grids=test.datum").is_ok());
    assert!(ctx.operation("gridshift grids=test.datum,also.datum").is_err());
    assert!(ctx.operation("gridshift grids=test.datum,missing@null").is_ok());
    assert!(ctx.operation("gridshift").is_err());
}

#[test]
fn grid_list_partition() {
    let (names, use_null) = geodesy::gridshift::grid_names("a.gsb,b.gsb,@null");
    assert_eq!(names, vec!["a.gsb", "b.gsb"]);
    assert!(use_null);

    let (names, use_null) = geodesy::gridshift::grid_names("only.gsb");
    assert_eq!(names, vec!["only.gsb"]);
    assert!(!use_null);
}

// The success count: corrections count, pass-throughs, invalidations and
// non-converged planar inversions do not.
#[test]
fn success_counting() {
    let actions = vec![
        GridAction::Geoid(0),
        GridAction::Datum(0),
        GridAction::Datum(1),
        GridAction::PassThrough,
        GridAction::Invalidate,
    ];
    let converged = vec![true, true, false, true, true];
    assert_eq!(geodesy::success_count(&actions, &converged), 2);
    let none: Vec<GridAction> = Vec::new();
    assert_eq!(geodesy::success_count(&none, &Vec::new()), 0);
}

#[test]
fn gravsoft_text_layer() {
    let text = "54.5 55.5 11.5 12.5 1.0 1.0 # header comment\n1 2 # row\n3 4\n";
    let toks = geodesy::gravsoft_tokens(text);
    assert_eq!(
        toks,
        vec!["54.5", "55.5", "11.5", "12.5", "1.0", "1.0", "1", "2", "3", "4"]
    );
    assert_eq!(geodesy::infer_bands(toks.len(), 2, 2), Some(1));
    assert_eq!(geodesy::infer_bands(14, 2, 2), Some(2));
    assert_eq!(geodesy::infer_bands(13, 2, 2), None);
    assert_eq!(geodesy::infer_bands(6, 2, 2), None);
    assert_eq!(geodesy::infer_bands(10, 0, 2), None);
}

#[test]
fn ntv2_endianness_detection() {
    let mut le = vec![0u8; 176];
    le[8] = 11;
    let p = NTv2Parser::new(le);
    assert_eq!(p.endian(), Endianness::Le);

    let mut be = vec![0u8; 176];
    be[11] = 11;
    let p = NTv2Parser::new(be);
    assert_eq!(p.endian(), Endianness::Be);
}

#[test]
fn ntv2_numeric_fields() {
    // Little-endian buffer.
    let mut buf = vec![0u8; 32];
    buf[8] = 11;
    buf[16] = 0x04;
    buf[17] = 0x03;
    buf[18] = 0x02;
    buf[19] = 0x01;
    let p = NTv2Parser::new(buf);
    assert_eq!(p.get_u32(16), 0x0102_0304);

    // Big-endian buffer (nothing at offset 8).
    let mut buf = vec![0u8; 32];
    buf[16] = 0x01;
    buf[17] = 0x02;
    buf[18] = 0x03;
    buf[19] = 0x04;
    let p = NTv2Parser::new(buf);
    assert_eq!(p.get_u32(16), 0x0102_0304);

    // A double's bit pattern round-trips through the byte accessor.
    let bits = 55.5f64.to_bits();
    let mut buf = vec![0u8; 32];
    buf[8] = 11;
    buf[16..24].copy_from_slice(&bits.to_le_bytes());
    let p = NTv2Parser::new(buf);
    assert_eq!(p.get_u64(16), bits);
    assert_eq!(f64::from_bits(p.get_u64(16)), 55.5);
}

#[test]
fn ntv2_header_text() {
    let mut buf = vec![0u8; 176];
    buf[8] = 11;
    buf[0..8].copy_from_slice(b"NUM_OREC");
    let p = NTv2Parser::new(buf);
    assert!(p.cmp_str(0, "NUM_OREC"));
    assert!(!p.cmp_str(0, "NUM_SREC"));
    assert_eq!(p.get_str(0, 8).unwrap(), "NUM_OREC");
    assert_eq!(p.get_str(4, 4).unwrap(), "OREC");
    assert_eq!(p.buffer().len(), 176);
}

#[test]
fn ntv2_rejects_garbled_text() {
    let mut buf = vec![0u8; 176];
    buf[8] = 11;
    buf[0] = 0xff;
    buf[1] = 0xfe;
    let p = NTv2Parser::new(buf);
    assert!(p.get_str(0, 2).is_err());
}
