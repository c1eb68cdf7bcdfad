use unvoga::chunk::Chunk;
use unvoga::timestamp::Timestamp;
use unvoga::blockdata::{BlockDataContainer, BlockDataRef};
use unvoga::coord::Coord;
use unvoga::direction::{Cardinal, Direction};
use unvoga::error::Error;
use unvoga::worldedit::{face_edit_marks, neighbor_faces_hidden, placed_update_action, FaceEditMarks, UpdateRefAction};
use unvoga::blocklayer::BlockLayer;
use unvoga::occluder::Occluder;
use unvoga::occlusion_shape::{OcclusionRect, OcclusionShape};
use unvoga::faceflags::FaceFlags;
use unvoga::record::encode_record;
use unvoga::sectormanager::{ManagedSector, SectorManager};
use unvoga::sectoroffset::{block_size_notation, BlockSize, SectorOffset};
use unvoga::update::{BlockUpdateQueue, UpdateRef};

#[test]
fn managed_sector_refuses_start_past_2_24() {
    let mut past = ManagedSector::new(0x1000001, 0x1000100);
    assert_eq!(past.allocate(BlockSize(1)), None);
    assert_eq!(past, ManagedSector::new(0x1000001, 0x1000100));
    let mut at = ManagedSector::new(0x1000000, 0x1000100);
    assert_eq!(at.allocate(BlockSize(1)), Some(SectorOffset::new(BlockSize(1), 0x1000000)));
    assert_eq!(at, ManagedSector::new(0x1000001, 0x1000100));
}

#[test]
fn block_size_notation_orders_sizes() {
    let mut previous: Option<u64> = None;
    for exponent in 0..8u32 {
        for count in 0..32u64 {
            let blocks = block_size_notation(count, exponent, 5);
            if let Some(p) = previous {
                assert!(p < blocks, "({exponent}, {count}) gives {blocks}, not above {p}");
            }
            previous = Some(blocks);
        }
    }
    assert_eq!(block_size_notation(0, 0, 5), 0);
    assert_eq!(block_size_notation(31, 0, 5), 31);
    assert_eq!(block_size_notation(0, 1, 5), 33);
    assert_eq!(previous, Some(8033));
}

#[test]
fn sector_manager_freed_blocks_coalesce() {
    let mut m = SectorManager::new();
    let a = m.allocate(1);
    let b = m.allocate(2);
    assert_eq!(a.block_offset(), 3);
    assert_eq!(b.block_offset(), 4);
    m.deallocate(ManagedSector::from(a));
    m.deallocate(ManagedSector::from(b));
    // 3..4 and 4..6 join each other and the end range again
    let c = m.allocate(5);
    assert_eq!((c.block_offset(), c.block_size()), (3, BlockSize(5)));
    let d = m.allocate(1);
    assert_eq!(d.block_offset(), 8);
}

#[test]
fn encode_record_refuses_oversize_data() {
    let mut state: u64 = 0x9E37_79B9_7F4A_7C15;
    let mut data = Vec::with_capacity(33_000_000);
    while data.len() < 33_000_000 {
        state ^= state << 13;
        state ^= state >> 7;
        state ^= state << 17;
        data.extend_from_slice(&state.to_le_bytes());
    }
    assert_eq!(encode_record(&data), Err(Error::ChunkTooLarge));
}

#[test]
fn block_data_delete_null_changes_nothing() {
    let mut data: BlockDataContainer<u32> = BlockDataContainer::new();
    let a = data.insert(7);
    assert_eq!(data.delete(BlockDataRef(0)), None);
    assert_eq!(data.get(a), Some(&7));
    let b = data.insert(8);
    assert_eq!(b.0, 2);
}

#[test]
fn update_queue_remove_leaves_others() {
    let mut q = BlockUpdateQueue::new();
    let keys: Vec<UpdateRef> = (0..4).map(|i| q.push(Coord::new(i, i, i))).collect();
    q.remove(UpdateRef(0));
    assert_eq!(q.iter().len(), 4);
    q.remove(keys[1]);
    let mut left = q.iter();
    left.sort_by_key(|c| c.x);
    assert_eq!(left, vec![Coord::new(0, 0, 0), Coord::new(2, 2, 2), Coord::new(3, 3, 3)]);
    q.remove(keys[3]);
    q.remove(keys[0]);
    assert_eq!(q.iter(), vec![Coord::new(2, 2, 2)]);
}

#[test]
fn face_flags_or_and_not() {
    let x = FaceFlags::new(true, false, false, false, false, false);
    let y = FaceFlags::new(false, false, false, true, false, false);
    let both = x | y;
    assert_eq!(both.0, x.0 | y.0);
    assert!(both.pos_x() && both.neg_x());
    assert!(!both.pos_y() && !both.pos_z() && !both.neg_y() && !both.neg_z());
    assert_eq!((both & x).0, x.0);
    assert!(!(!both).pos_x() && !(!both).neg_x() && (!both).pos_y());
    assert!(both.get(Direction::PosX) && both.get(Direction::NegX));
}

#[test]
fn cardinal_rotations_compose() {
    let all = [Cardinal::West, Cardinal::North, Cardinal::East, Cardinal::South];
    for c in all {
        for a in -6..7 {
            for b in -6..7 {
                assert_eq!(c.rotate(a).rotate(b), c.rotate(a + b));
            }
        }
        assert_eq!(c.rotate(0), c);
        assert_eq!(c.rotate(4), c);
        assert_eq!(c.rotate(2), c.invert());
    }
    assert_eq!(Cardinal::West.rotate(1), Cardinal::North);
    assert_eq!(Cardinal::North.rotate(1), Cardinal::East);
    assert_eq!(Cardinal::West.rotate(-1), Cardinal::South);
}

#[test]
fn face_edits_mark_only_changes() {
    let none = FaceEditMarks { mark_modified: false, mark_section_dirty: false };
    let both = FaceEditMarks { mark_modified: true, mark_section_dirty: true };
    // hiding a shown face changes it
    assert_eq!(face_edit_marks(true, false, true), both);
    assert_eq!(face_edit_marks(true, false, false), FaceEditMarks { mark_modified: true, mark_section_dirty: false });
    // hiding a hidden face changes nothing
    assert_eq!(face_edit_marks(true, true, true), none);
    // showing a hidden face changes it
    assert_eq!(face_edit_marks(false, true, true), both);
    // showing a shown face changes nothing
    assert_eq!(face_edit_marks(false, false, true), none);
}

#[test]
fn placed_blocks_update_handles() {
    assert_eq!(placed_update_action(false, Some(true), false), UpdateRefAction::Enable);
    assert_eq!(placed_update_action(false, None, true), UpdateRefAction::Enable);
    assert_eq!(placed_update_action(false, None, false), UpdateRefAction::Keep);
    assert_eq!(placed_update_action(false, Some(false), true), UpdateRefAction::Keep);
    assert_eq!(placed_update_action(true, Some(true), true), UpdateRefAction::Disable);
    assert_eq!(placed_update_action(true, None, false), UpdateRefAction::Disable);
}

#[test]
fn chunk_edit_time_is_stamped() {
    let mut chunk = Chunk::<u32>::new_at(Coord::new(0, -64, 0), Timestamp::new(1_700_000_000));
    assert_eq!(chunk.edit_timestamp(), Timestamp::new(1_700_000_000));
    chunk.set_edit_time(Timestamp::new(1_700_000_123));
    assert_eq!(chunk.edit_timestamp().timestamp(), 1_700_000_123);
    assert_eq!(chunk.get_block(Coord::new(1, -64, 1)).0, 0);
    chunk.mark_modified();
    assert!(chunk.edit_timestamp().timestamp() > 1_700_000_123);
}

fn same_faces(s: OcclusionShape) -> Occluder {
    Occluder::new(s.clone(), s.clone(), s.clone(), s.clone(), s.clone(), s)
}

#[test]
fn neighbor_faces_hide_by_layer_and_shape() {
    let full = same_faces(OcclusionShape::Full);
    let empty = same_faces(OcclusionShape::Empty);
    let half = same_faces(OcclusionShape::Rect(OcclusionRect::new(0, 0, 16, 8)));
    let base = BlockLayer::Base;
    // two full blocks hide each other's touching faces
    assert_eq!(neighbor_faces_hidden(Direction::PosX, base, &full, &full, base, &full, &full), (true, true));
    // on different layers nothing is hidden
    assert_eq!(
        neighbor_faces_hidden(Direction::PosX, base, &full, &full, BlockLayer::Transparent, &full, &full),
        (false, false)
    );
    // next to an empty occluder the face stays shown; the neighbour's face is hidden
    assert_eq!(neighbor_faces_hidden(Direction::NegY, base, &full, &full, base, &empty, &full), (false, true));
    // a half face is hidden by a full one, not the other way round
    assert_eq!(neighbor_faces_hidden(Direction::PosZ, base, &half, &half, base, &full, &full), (true, false));
}

#[test]
fn face_flags_set_bits() {
    let mut f = FaceFlags(0b1100_0001);
    assert!(!f.set(Direction::PosX, true));
    assert_eq!(f.bits(), 0b1100_0011);
    assert!(f.set(Direction::PosY, false));
    assert_eq!(f.bits(), 0b1100_0010);
    assert!(f.set(Direction::PosX, true));
    assert_eq!(f.bits(), 0b1100_0010);
}
