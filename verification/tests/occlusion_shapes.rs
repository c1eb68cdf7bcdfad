use unvoga::direction::Direction;
use unvoga::occluder::{expand_byte_to_u16, rect_row_mask, Occluder};
use unvoga::occlusion_shape::{
    OcclusionRect, OcclusionShape, OcclusionShape16x16, OcclusionShape2x2, OcclusionShape4x4, OcclusionShape8x8,
};

fn occluder_with(s: OcclusionShape) -> Occluder {
    Occluder::new(s.clone(), s.clone(), s.clone(), s.clone(), s.clone(), s)
}

#[test]
fn expand_byte_matches_naive() {
    for b in 0u16..256 {
        let b = b as u8;
        let expected: u16 = (0..8).fold(0u16, |acc, i| {
            if b & (1 << i) != 0 { acc | (0b11u16 << (i * 2)) } else { acc }
        });
        assert_eq!(expand_byte_to_u16(b), expected, "byte {b:08b}");
    }
}

#[test]
fn rect_row_mask_basic() {
    let r = OcclusionRect::new(2, 3, 5, 4); // left=2 right=7 top=3 bottom=7
    assert_eq!(rect_row_mask(r, 2), 0);
    assert_eq!(rect_row_mask(r, 3), 0b0000_0000_0111_1100);
    assert_eq!(rect_row_mask(r, 6), 0b0000_0000_0111_1100);
    assert_eq!(rect_row_mask(r, 7), 0);
    let full = OcclusionRect::new(0, 0, 16, 16);
    for y in 0..16 {
        assert_eq!(rect_row_mask(full, y), 0xFFFF, "y={y}");
    }
}

/// Slow-path reference: per-pixel iteration in the default orientation.
fn s16_vs_s16_slow(shape: &OcclusionShape16x16, other: &OcclusionShape16x16) -> bool {
    for y in 0..16 {
        for x in 0..16 {
            if shape.get(x, y) && !other.get(x, y) {
                return false;
            }
        }
    }
    true
}

#[test]
fn s16_fast_path_matches_slow_path() {
    let cases: Vec<([u16; 16], [u16; 16])> = vec![
        ([u16::MAX; 16], [u16::MAX; 16]),
        ([u16::MAX; 16], [0; 16]),
        ([0; 16], [u16::MAX; 16]),
        ([0xAAAA; 16], [0xAAAA; 16]),
        ([0xAAAA; 16], [0x5555; 16]),
        ([0x00FF; 16], [0x0F0F; 16]),
    ];
    for face in [Direction::PosY, Direction::NegX, Direction::PosZ] {
        for (s, ot) in &cases {
            let s = OcclusionShape16x16::new(*s);
            let ot = OcclusionShape16x16::new(*ot);
            let a = occluder_with(OcclusionShape::S16x16(s));
            let b = occluder_with(OcclusionShape::S16x16(ot));
            let fast = a.occluded_by(face, &b);
            let slow = s16_vs_s16_slow(&s, &ot);
            assert_eq!(fast, slow, "face={face:?} s={:04x?} o={:04x?}", s.0, ot.0);
        }
    }
}

#[test]
fn occlusion_shape_occlusion_test() {
    let occluder_a = OcclusionShape::S4x4(OcclusionShape4x4::from_matrix([
        [1, 1, 0, 0],
        [1, 1, 0, 0],
        [1, 1, 0, 0],
        [1, 1, 0, 0],
    ]));
    let occluder_b = OcclusionShape::S2x2(OcclusionShape2x2::from_matrix([[1, 0], [1, 0]]));
    if occluder_a.occluded_by(&occluder_b, 0, 0) {
        println!("A Occluded by B");
    }
    if occluder_b.occluded_by(&occluder_a, 0, 0) {
        println!("B Occluded by A");
    }
    // the left half of a 4x4 grid and the left column of a 2x2 grid cover
    // the same cells
    assert!(occluder_a.occluded_by(&occluder_b, 0, 0));
    assert!(occluder_b.occluded_by(&occluder_a, 0, 0));
}

#[test]
fn reduce_rect_test() {
    fn reduce_min(value: i32, base: i32, reduction: i32) -> i32 {
        value / (base / reduction)
    }
    fn reduce_max(value: i32, base: i32, reduction: i32) -> i32 {
        let div = base / reduction;
        value / div + if value % div == 0 { 0 } else { 1 }
    }
    let base = 16;
    let reduction = 8;
    let (left, right) = (2, 14);
    let (rl, rr) = (reduce_min(left, base, reduction), reduce_max(right, base, reduction));
    println!("{rl}, {rr}");
    let down = OcclusionRect::new(2, 2, 12, 12).downsample(8);
    assert_eq!((down.left, down.top, down.right, down.bottom), (rl as u8, rl as u8, rr as u8, rr as u8));
}

#[test]
fn grids_get_and_set() {
    let mut g8 = OcclusionShape8x8::new(0);
    assert!(!g8.set(3, 5, true));
    assert!(g8.get(3, 5));
    assert_eq!(g8.0, 1u64 << 43);
    let mut g16 = OcclusionShape16x16::new([0; 16]);
    g16.set(15, 0, true);
    assert_eq!(g16.0[0], 0x8000);
    assert!(OcclusionShape::Full.is_full());
    assert!(OcclusionShape::Empty.is_empty());
}

#[test]
fn rect_queries() {
    let r = OcclusionRect::new(2, 3, 5, 4);
    assert!(r.contains((2, 3)));
    assert!(!r.contains((7, 3)));
    assert!(r.contains_rect(OcclusionRect::new(3, 4, 2, 2)));
    assert!(r.intersects(OcclusionRect::new(6, 6, 4, 4)));
    assert!(!r.intersects(OcclusionRect::new(7, 0, 4, 4)));
    let m = OcclusionRect::from_min_max((1, 1), (4, 5));
    assert_eq!((m.left, m.top, m.right, m.bottom), (1, 1, 4, 5));
}

#[test]
fn full_face_hides_any_shown_face() {
    let full = occluder_with(OcclusionShape::Full);
    let empty = occluder_with(OcclusionShape::Empty);
    // an empty face has nothing to hide
    assert!(!empty.occluded_by(Direction::PosX, &full));
    assert!(full.occluded_by(Direction::NegY, &full));
    assert!(!full.occluded_by(Direction::NegY, &empty));
}

#[test]
fn occluder_indexing() {
    let mut occluder = occluder_with(OcclusionShape::Empty);
    occluder[Direction::PosX] = OcclusionShape::Full;
    assert!(occluder[Direction::PosX].fully_occluded());
    assert!(!occluder[Direction::NegX].fully_occluded());
}

#[test]
fn occlusion_shape_from_grids() {
    let s: OcclusionShape = OcclusionShape2x2::new(0b1111).into();
    assert!(s.fully_occluded());
    let t: OcclusionShape = OcclusionShape4x4::new(0).into();
    assert!(!t.occludes());
    let u: OcclusionShape = OcclusionShape16x16::new([0xFFFF; 16]).into();
    assert!(u.fully_occluded());
    let v: OcclusionShape = OcclusionShape8x8::new(1).into();
    assert!(v.occludes());
}

#[test]
fn rect_scaled_down_to_coarse_grid() {
    // A 2x2 block rectangle covers one cell of an 8x8 grid.
    let rect = OcclusionShape::Rect(OcclusionRect::new(0, 0, 2, 2));
    let one_cell = OcclusionShape::S8x8(OcclusionShape8x8(1));
    assert!(rect.occluded_by(&one_cell, 0, 0));
    // A rectangle reaching past the first cell needs the next one too.
    let wider = OcclusionShape::Rect(OcclusionRect::new(0, 0, 3, 2));
    assert!(!wider.occluded_by(&one_cell, 0, 0));
    // The whole face against a grid with the last cell set only.
    let face = OcclusionShape::Rect(OcclusionRect::new(0, 0, 16, 16));
    let last = OcclusionShape::S2x2(OcclusionShape2x2(0b1000));
    assert!(!face.occluded_by(&last, 0, 0));
}
