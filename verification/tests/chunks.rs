use unvoga::blocks::Id;
use unvoga::chunk::Chunk;
use unvoga::chunkcoord::ChunkCoord;
use unvoga::coord::Coord;
use unvoga::direction::{Cardinal, Direction};
use unvoga::section::StateChange;
use unvoga::query::{BlockLight, SkyLight};
use unvoga::update::UpdateRef;

fn c(x: i32, y: i32, z: i32) -> Coord {
    Coord::new(x, y, z)
}

#[test]
fn chunk_blocks_and_heights() {
    let mut chunk = Chunk::<String>::new(c(16, -400, 32));
    assert_eq!(chunk.y(), -400);
    assert_eq!(chunk.section_y(), -25);
    assert_eq!(chunk.height(1, 2), -400);
    let r = chunk.set_block(c(17, -390, 34), Id(5));
    assert_eq!(r.change, StateChange::Changed(Id(0)));
    assert_eq!(chunk.get_block(c(17, -390, 34)), Id(5));
    assert_eq!(chunk.get_block(c(17, -389, 34)), Id(0));
    assert_eq!(chunk.height(1, 2), -389);
    chunk.set_block(c(17, 200, 34), Id(6));
    assert_eq!(chunk.height(1, 2), 201);
    chunk.set_block(c(17, 200, 34), Id(0));
    assert_eq!(chunk.height(1, 2), -389);
    chunk.set_block(c(17, -390, 34), Id(0));
    assert_eq!(chunk.height(1, 2), -400);
}

#[test]
fn chunk_delegates_to_sections() {
    let mut chunk = Chunk::<String>::new(c(0, 0, 0));
    assert_eq!(chunk.set_update_ref(c(1, 100, 1), UpdateRef(3)), UpdateRef(0));
    assert_eq!(chunk.get_update_ref(c(1, 100, 1)), UpdateRef(3));
    chunk.hide_face(c(1, 100, 1), Direction::PosZ);
    assert!(!chunk.face_visible(c(1, 100, 1), Direction::PosZ));
    assert!(chunk.face_visible(c(1, 101, 1), Direction::PosZ));
    assert_eq!(chunk.occlusion(c(1, 100, 1)).0, 1 << 2);
    chunk.show_face(c(1, 100, 1), Direction::PosZ);
    assert!(chunk.face_visible(c(1, 100, 1), Direction::PosZ));
    chunk.set_sky_light(c(2, 50, 2), 7);
    assert_eq!(chunk.get_sky_light(c(2, 50, 2)), 7);
    chunk.set_block_light(c(2, 50, 2), 9);
    assert_eq!(chunk.get_block_light(c(2, 50, 2)), 9);
    assert_eq!(chunk.get_light(c(2, 50, 2)), 9);
    assert_eq!(chunk.set_data(c(3, 3, 3), "x".to_string()), None);
    assert_eq!(chunk.get_data(c(3, 3, 3)).map(|v| v.as_str()), Some("x"));
    chunk.get_data_mut(c(3, 3, 3)).unwrap().push('y');
    chunk.get_or_insert_data(c(4, 3, 3), "z".to_string());
    chunk.get_or_insert_data_with(c(5, 3, 3), || "w".to_string());
    assert_eq!(chunk.get_data(c(4, 3, 3)).map(|v| v.as_str()), Some("z"));
    assert_eq!(chunk.get_data(c(5, 3, 3)).map(|v| v.as_str()), Some("w"));
    assert_eq!(chunk.delete_data(c(3, 3, 3)), Some("xy".to_string()));
    assert!(chunk.get_data(c(3, 3, 3)).is_none());
}

#[test]
fn coord_arithmetic() {
    assert_eq!(c(1, 2, 3) + c(10, 20, 30), c(11, 22, 33));
    assert_eq!(c(1, 2, 3) - c(10, 20, 30), c(-9, -18, -27));
    assert_eq!(c(1, -2, 3) * 3, c(3, -6, 9));
    assert_eq!(c(7, -7, 8) / 2, c(3, -3, 4));
    assert_eq!(c(7, -7, 8) / -2, c(-3, 3, -4));
    assert_eq!(c(7, -7, 8) % 2, c(1, -1, 0));
    assert_eq!(c(7, -7, 8) % -3, c(1, -1, 2));
    assert_eq!(c(0, 0, 0) + Direction::NegY, c(0, -1, 0));
    assert_eq!(c(0, 0, 0) + Direction::PosZ, c(0, 0, 1));
    assert_eq!(c(0, 0, 0) + Cardinal::North, c(0, 0, -1));
    assert_eq!(c(0, 0, 0) + Cardinal::East, c(1, 0, 0));
    let t: (i32, i32, i32) = c(4, 5, 6).into();
    assert_eq!(t, (4, 5, 6));
}

#[test]
fn chunk_query() {
    let mut chunk = Chunk::<String>::new(c(0, 0, 0));
    chunk.set_block(c(1, 300, 1), Id(2));
    chunk.set_block_light(c(1, 300, 1), 4);
    assert_eq!(chunk.query::<(Id, BlockLight, SkyLight)>(c(1, 300, 1)), (Id(2), 4, 15));
}

#[test]
fn chunk_coord_arithmetic() {
    let a = ChunkCoord::new(3, -4);
    assert_eq!(a + ChunkCoord::new(1, 1), ChunkCoord::new(4, -3));
    assert_eq!(a - ChunkCoord::new(1, 1), ChunkCoord::new(2, -5));
    assert_eq!(a * 2, ChunkCoord::new(6, -8));
    assert_eq!(a / 2, ChunkCoord::new(1, -2));
    assert_eq!(a % 2, ChunkCoord::new(1, 0));
    assert_eq!(a + Cardinal::North, ChunkCoord::new(3, -5));
    let mut b = a;
    b += ChunkCoord::new(10, 10);
    assert_eq!(b, ChunkCoord::new(13, 6));
    b -= ChunkCoord::new(3, 6);
    assert_eq!(b, ChunkCoord::new(10, 0));
    let t: (i32, i32) = a.into();
    assert_eq!(t, (3, -4));
}
