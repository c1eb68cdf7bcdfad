use unvoga::blocklayer::BlockLayer;
use unvoga::blocks::{BlockId, Id};
use unvoga::chunkcoord::ChunkCoord;
use unvoga::coord::Coord;
use unvoga::direction::{Cardinal, Direction};
use unvoga::dirty::Dirty;
use unvoga::faceflags::FaceFlags;
use unvoga::faces::Faces;
use unvoga::gridindex::{deindex16x16, deindex16x16x16};
use unvoga::memory::MemoryUsage;
use unvoga::placement::PlaceContext;
use unvoga::lightargs::LightArgs;
use unvoga::occlusion::Occlusion;
use unvoga::section::{LightChange, SectionUpdate, StateChange};
use unvoga::worldgenerator::{FlatLayer, FlatWorldGenerator};

#[test]
fn ord_test() {
    let layer0 = BlockLayer::Base;
    let layer1 = BlockLayer::Transparent;
    let layer2 = BlockLayer::Other(0);
    let layer3 = BlockLayer::Other(1);
    assert!(layer0 < layer1);
    assert!(layer1 < layer2);
    assert!(layer2 < layer3);
}

#[test]
fn transparent_layer() {
    assert!(BlockLayer::Transparent.transparent());
    assert!(!BlockLayer::Base.transparent());
    assert!(!BlockLayer::Other(1).transparent());
}

#[test]
fn neighbors_test() {
    let max = Coord::new(3, 1, 4);
    max.neighbors().iter().for_each(|(dir, _coord)| {
        println!("{dir:?}");
    });
}

#[test]
fn neighbors_order_and_bounds() {
    let n = Coord::new(3, 1, 4).neighbors();
    assert_eq!(n.len(), 6);
    assert_eq!(n[0], (Direction::NegX, Coord::new(2, 1, 4)));
    assert_eq!(n[4], (Direction::PosY, Coord::new(3, 2, 4)));
    let edge = Coord::new(i32::MAX, 0, i32::MIN).neighbors();
    assert_eq!(edge.len(), 4);
    assert!(edge.iter().all(|(d, _)| *d != Direction::PosX && *d != Direction::NegZ));
}

#[test]
fn coord_division_rounds_toward_zero() {
    let c = Coord::new(-17, 33, -1);
    assert_eq!(c.chunk_coord(), ChunkCoord::new(-1, 0));
    assert_eq!(c.section_coord(), Coord::new(-1, 2, 0));
    assert_eq!(c.rem_euclid(16), Coord::new(15, 1, 15));
    assert_eq!(Coord::new(-7, 7, 0).rem_euclid(-4), Coord::new(1, 3, 0));
    assert_eq!(Coord::splat(5), Coord::new(5, 5, 5));
}

#[test]
fn chunk_coord_neighbors() {
    let c = ChunkCoord::new(2, -3);
    assert_eq!(c.neighbor(Cardinal::West), ChunkCoord::new(1, -3));
    assert_eq!(c.neighbor(Cardinal::North), ChunkCoord::new(2, -4));
    assert_eq!(c.neighbor(Cardinal::East), ChunkCoord::new(3, -3));
    assert_eq!(c.neighbor(Cardinal::South), ChunkCoord::new(2, -2));
    assert_eq!(c.block_coord(), Coord::new(32, 0, -48));
    assert_eq!(c.xz(), (2, -3));
}

#[test]
fn inv_test() {
    let dir = Cardinal::East.invert();
    println!("{dir:?}");
    assert_eq!(dir, Cardinal::West);
}

#[test]
fn direction_flip() {
    assert_eq!(Direction::NegX.flip(true, false, false), Direction::PosX);
    assert_eq!(Direction::NegX.flip(false, true, true), Direction::NegX);
    assert_eq!(Direction::PosZ.flip(false, false, true), Direction::NegZ);
    for d in Direction::iter() {
        assert_eq!(d.flip(true, true, true).flip(true, true, true), d);
    }
}

#[test]
fn fmt_test() {
    let flags = FaceFlags::new(true, false, false, false, false, false)
        | FaceFlags::new(false, false, false, true, false, false);
    println!("{}", flags.to_string());
    assert_eq!(flags.to_string(), "FaceFlags(PosX|NegX)");
    assert!(flags.pos_x() && flags.neg_x() && !flags.pos_y());
    assert!(flags.x_and());
}

#[test]
fn face_flags_bits() {
    let mut flags = FaceFlags::new(true, true, false, false, false, true);
    assert_eq!(flags.bits(), 0b100011);
    assert!(flags.get(Direction::PosY));
    assert!(!flags.set(Direction::NegY, true));
    assert!(flags.get(Direction::NegY));
    assert!(flags.y_and());
    assert!(!flags.z_and());
    assert!(flags.z_xor());
    assert!(flags.x_or());
    assert!(flags.x_xor());
    assert_eq!((!flags).bits(), 0b010100);
    assert_eq!((flags & FaceFlags::new(false, true, false, false, false, false)).bits(), 0b000001);
    assert_eq!(FaceFlags::from_bits(0xFF).bits(), 0b111111);
    assert!(FaceFlags::from_bits(0xFF).all());
    flags.reset();
    assert!(flags.none());
    assert!(!flags.any());
}

#[test]
fn chunk_occlusion_test() {
    let mut occlusion = Occlusion(0);
    Direction::iter().iter().for_each(|&dir| {
        assert!(!occlusion.hidden(dir));
        assert!(occlusion.visible(dir));
        occlusion.conceal(dir);
        assert!(occlusion.hidden(dir));
        assert!(!occlusion.visible(dir));
        occlusion.show(dir);
        assert!(!occlusion.hidden(dir));
        assert!(occlusion.visible(dir));
    });
    assert_eq!(occlusion, Occlusion(0));
    assert!(Occlusion(0b111111).fully_occluded());
}

#[test]
fn occlusion_face_getters() {
    let mut o = Occlusion(0);
    assert!(!o.conceal(Direction::NegZ));
    assert!(o.conceal(Direction::NegZ));
    assert!(!o.neg_z());
    assert!(o.pos_z() && o.neg_x() && o.neg_y() && o.pos_x() && o.pos_y());
    assert_eq!(o.0, 32);
}

#[test]
fn light_args_clamp() {
    let mut args = LightArgs::new(20, 3);
    assert_eq!(args.filter(), 15);
    assert_eq!(args.emit(), 3);
    args.set_emit(200);
    assert_eq!(args.emit(), 15);
    assert_eq!(args.filter(), 15);
    args.set_filter(7);
    assert_eq!(args.filter(), 7);
    assert_eq!(args.emit(), 15);
}

#[test]
fn dirty_flag() {
    let mut d = Dirty::new();
    assert!(!d.dirty());
    assert!(d.mark());
    assert!(!d.mark());
    assert!(d.dirty());
    d.mark_clean();
    assert!(!d.dirty());
}

#[test]
fn ids_and_changes() {
    assert!(Id(0).is_air());
    assert!(Id(3).is_non_air());
    assert_eq!(Id(3).id(), 3);
    assert_eq!(BlockId(9).id(), 9);
    let change = LightChange { old_max: 1, old_level: 2, new_max: 1, new_level: 3 };
    assert!(change.changed());
    assert!(!change.max_changed());
    assert!(StateChange::Changed(Id(1)).changed());
    assert!(!StateChange::Unchanged.changed());
    let u = SectionUpdate::new_dirty(5u8);
    assert!(u.marked_dirty && u.change == 5);
    assert!(!SectionUpdate::new(5u8).marked_dirty);
}

#[test]
fn flat_layers() {
    let generator = FlatWorldGenerator::new(vec![
        FlatLayer::new(1, Id(1)),
        FlatLayer::new(3, Id(2)),
        FlatLayer::new(1000, Id(3)),
        FlatLayer::new(5, Id(4)),
    ]);
    let ranges = generator.layer_ranges();
    assert_eq!(ranges, vec![(-400, -399, Id(1)), (-399, -396, Id(2)), (-396, 240, Id(3)), (240, 240, Id(4))]);
}

#[test]
fn chunk_quick() {
    struct Dog {
        name: String,
    }
    impl Dog {
        fn new(name: &str) -> Self {
            Self { name: name.to_owned() }
        }
    }
    let cells = [Dog::new("Ralph"), Dog::new("Jimbob")];
    let ralph = &cells[0];
    let jimbob = &cells[1];
    assert_eq!(ralph.name, "Ralph");
    assert_eq!(jimbob.name, "Jimbob");
}

#[test]
fn chunk_sandbox() {
    let neg8 = -8i32;
    let neg8 = neg8 as usize;
    let bit_count = (31 + 8 - 1) & neg8;
    println!("{bit_count}");
}

#[test]
fn heightmap_sandbox() {
    let val = 0x04030201u32;
    let bytes = val.to_le_bytes();
    println!("{bytes:?}");
}

#[test]
fn mod_sandbox() {
    let v = 0b00001111u32;
    let n = v.next_power_of_two();
    println!("{n:08b} {}", n.trailing_zeros());
}

#[test]
fn face_flags_text() {
    assert_eq!(FaceFlags::new(false, false, false, false, false, false).to_string(), "FaceFlags()");
    assert_eq!(FaceFlags::new(false, true, false, false, false, false).to_string(), "FaceFlags(PosY)");
    assert_eq!(
        FaceFlags::new(true, true, true, true, true, true).to_string(),
        "FaceFlags(PosX|PosY|PosZ|NegX|NegY|NegZ)"
    );
}

#[test]
fn direction_names() {
    assert_eq!(Direction::NegX.to_string(), "NegX");
    assert_eq!(Direction::PosY.to_string(), "PosY");
    assert_eq!(Direction::PosZ.to_string(), "PosZ");
}

#[test]
fn grid_deindex() {
    assert_eq!(deindex16x16(0), (0, 0));
    assert_eq!(deindex16x16(0x3A), (0xA, 3));
    assert_eq!(deindex16x16x16(0x123), (3, 1, 2));
    assert_eq!(deindex16x16x16(4095), (15, 15, 15));
}

#[test]
fn memory_usage_add() {
    let a = MemoryUsage::new(3, 10) + MemoryUsage::new(4, 20);
    assert_eq!(a, MemoryUsage::new(7, 30));
    assert_eq!(a.used, 7);
    assert_eq!(a.total, 30);
}

#[test]
fn place_context() {
    let mut ctx = PlaceContext::<String>::new(Coord::new(1, 2, 3), Id(4), Id(0));
    assert_eq!(ctx.coord(), Coord::new(1, 2, 3));
    assert_eq!(ctx.replacement(), Id(4));
    assert_eq!(ctx.old_state(), Id(0));
    assert!(!ctx.enabled() && !ctx.disabled());
    ctx.replace(Id(9));
    assert_eq!(ctx.replacement(), Id(9));
    ctx.disable();
    assert!(ctx.disabled() && !ctx.enabled());
    // set_enabled always switches updates on.
    ctx.set_enabled(false);
    assert!(ctx.enabled());
    ctx.enable();
    assert!(ctx.enabled());
    ctx.set_data("data".to_string());
}

#[test]
fn occlusion_ops_and_text() {
    let a = Occlusion(0b000011);
    let b = Occlusion(0b000110);
    assert_eq!(a | b, Occlusion(0b000111));
    assert_eq!(a & b, Occlusion(0b000010));
    assert_eq!(a - b, Occlusion(0b000001));
    let mut o = Occlusion(0);
    assert_eq!(o.to_string(), "Occlusion()");
    o.conceal(Direction::PosY);
    o.conceal(Direction::NegX);
    assert_eq!(o.to_string(), "Occlusion(NegX|PosY)");
    assert!(!(o & Direction::PosY));
    assert!(o & Direction::PosZ);
}

#[test]
fn negated_directions() {
    assert_eq!(-Direction::PosX, Direction::NegX);
    assert_eq!(-Direction::NegY, Direction::PosY);
    assert_eq!(-Cardinal::North, Cardinal::South);
    assert_eq!(-Cardinal::East, Cardinal::West);
}

#[test]
fn faces_indexing() {
    let mut faces = Faces::new(1, 2, 3, 4, 5, 6);
    assert_eq!(faces[Direction::NegZ], 3);
    faces[Direction::PosY] = 50;
    assert_eq!(faces[Direction::PosY], 50);
    assert_eq!(*faces.face(Direction::PosY), 50);
}
