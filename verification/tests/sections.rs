use unvoga::blocks::Id;
use unvoga::coord::Coord;
use unvoga::direction::Direction;
use unvoga::occlusion::Occlusion;
use unvoga::query::{BlockData, BlockLight, Enabled, SkyLight};
use unvoga::section::{LightChange, Section, SectionUpdate, StateChange};
use unvoga::update::UpdateRef;

fn c(x: i32, y: i32, z: i32) -> Coord {
    Coord::new(x, y, z)
}

#[test]
fn section_index_and_coord() {
    assert_eq!(Section::<u32>::index(c(0, 0, 0)), 0);
    assert_eq!(Section::<u32>::index(c(1, 2, 3)), 1 + 3 * 16 + 2 * 256);
    assert_eq!(Section::<u32>::index(c(17, -1, 15)), 1 + 15 * 16 + 15 * 256);
    assert_eq!(Section::<u32>::coord(1 + 3 * 16 + 2 * 256), c(1, 2, 3));
    for i in 0..4096u16 {
        assert_eq!(Section::<u32>::index(Section::<u32>::coord(i)), i as usize);
    }
}

#[test]
fn section_new_is_empty() {
    let s = Section::<u32>::new();
    assert!(s.is_empty());
    assert_eq!(s.get_block(c(3, 4, 5)), Id(0));
    assert_eq!(s.get_block_light(c(3, 4, 5)), 0);
    assert_eq!(s.get_sky_light(c(3, 4, 5)), 15);
    assert_eq!(s.get_light(c(3, 4, 5)), 15);
    assert!(s.face_visible(c(3, 4, 5), Direction::PosY));
    assert_eq!(s.get_update_ref(c(3, 4, 5)), UpdateRef(0));
    assert!(s.get_data(c(3, 4, 5)).is_none());
}

#[test]
fn section_set_block_round_trip() {
    let mut s = Section::<u32>::new();
    let first = s.set_block(c(1, 2, 3), Id(7));
    assert_eq!(first, SectionUpdate { marked_dirty: true, change: StateChange::Changed(Id(0)) });
    assert_eq!(s.get_block(c(1, 2, 3)), Id(7));
    assert_eq!(s.get_block(c(1, 2, 4)), Id(0));
    assert!(!s.is_empty());
    let same = s.set_block(c(1, 2, 3), Id(7));
    assert_eq!(same, SectionUpdate { marked_dirty: false, change: StateChange::Unchanged });
    let second = s.set_block(c(1, 2, 3), Id(9));
    assert_eq!(second, SectionUpdate { marked_dirty: false, change: StateChange::Changed(Id(7)) });
    let back = s.set_block(c(1, 2, 3), Id(0));
    assert_eq!(back.change, StateChange::Changed(Id(9)));
    assert!(s.is_empty());
    assert_eq!(s.get_block(c(1, 2, 3)), Id(0));
}

#[test]
fn section_set_air_on_empty_changes_nothing() {
    let mut s = Section::<u32>::new();
    let r = s.set_block(c(0, 0, 0), Id(0));
    assert_eq!(r, SectionUpdate { marked_dirty: false, change: StateChange::Unchanged });
}

#[test]
fn section_faces() {
    let mut s = Section::<u32>::new();
    // Nothing is hidden yet: showing a face reports true and changes nothing.
    assert_eq!(s.show_face(c(1, 1, 1), Direction::NegX), SectionUpdate { marked_dirty: false, change: true });
    let hidden = s.hide_face(c(1, 1, 1), Direction::NegX);
    assert_eq!(hidden, SectionUpdate { marked_dirty: false, change: false });
    assert!(!s.face_visible(c(1, 1, 1), Direction::NegX));
    assert!(s.face_visible(c(1, 1, 1), Direction::PosX));
    let again = s.hide_face(c(1, 1, 1), Direction::NegX);
    assert_eq!(again, SectionUpdate { marked_dirty: true, change: true });
    let shown = s.show_face(c(1, 1, 1), Direction::NegX);
    assert_eq!(shown, SectionUpdate { marked_dirty: false, change: true });
    assert!(s.face_visible(c(1, 1, 1), Direction::NegX));
    assert_eq!(s.occlusion(c(1, 1, 1)).0, 0);
    let shown_again = s.show_face(c(1, 1, 1), Direction::NegX);
    assert_eq!(shown_again.change, true);
}

#[test]
fn section_update_refs() {
    let mut s = Section::<u32>::new();
    assert_eq!(s.set_update_ref(c(2, 2, 2), UpdateRef(5)), UpdateRef(0));
    assert_eq!(s.get_update_ref(c(2, 2, 2)), UpdateRef(5));
    assert_eq!(s.set_update_ref(c(2, 2, 2), UpdateRef(0)), UpdateRef(5));
    assert_eq!(s.get_update_ref(c(2, 2, 2)), UpdateRef(0));
    assert_eq!(s.set_update_ref(c(2, 2, 2), UpdateRef(0)), UpdateRef(0));
}

#[test]
fn section_block_light() {
    let mut s = Section::<u32>::new();
    // Storing level 0 where no map exists changes nothing.
    let none = s.set_block_light(c(0, 0, 0), 0);
    assert_eq!(
        none,
        SectionUpdate {
            marked_dirty: false,
            change: LightChange { old_max: 0, old_level: 0, new_max: 0, new_level: 0 }
        }
    );
    // The first level stored makes a map whose bytes are all 15: even blocks
    // read 15 and odd blocks read 0.
    let first = s.set_block_light(c(0, 0, 0), 5);
    assert_eq!(
        first,
        SectionUpdate {
            marked_dirty: true,
            change: LightChange { old_max: 15, old_level: 15, new_max: 5, new_level: 5 }
        }
    );
    assert_eq!(s.get_block_light(c(0, 0, 0)), 5);
    assert_eq!(s.get_block_light(c(1, 0, 0)), 0);
    assert_eq!(s.get_block_light(c(2, 0, 0)), 15);
    // Levels above 15 are stored as 15.
    let high = s.set_block_light(c(1, 0, 0), 200);
    assert_eq!(high.change, LightChange { old_max: 0, old_level: 0, new_max: 15, new_level: 15 });
    assert_eq!(s.get_block_light(c(1, 0, 0)), 15);
    assert_eq!(s.get_block_light(c(0, 0, 0)), 5);
    // The same level again is no change.
    let same = s.set_block_light(c(1, 0, 0), 15);
    assert_eq!(same.marked_dirty, false);
    assert!(!same.change.changed());
    // Back to 0 drops the map once the counter reaches 0.
    let off = s.set_block_light(c(1, 0, 0), 0);
    assert_eq!(off.change, LightChange { old_max: 15, old_level: 15, new_max: 0, new_level: 0 });
    assert_eq!(s.get_block_light(c(0, 0, 0)), 0);
    assert_eq!(s.get_block_light(c(2, 0, 0)), 0);
}

#[test]
fn section_sky_light() {
    let mut s = Section::<u32>::new();
    let none = s.set_sky_light(c(0, 0, 0), 15);
    assert_eq!(
        none,
        SectionUpdate {
            marked_dirty: false,
            change: LightChange { old_max: 15, old_level: 15, new_max: 15, new_level: 15 }
        }
    );
    let dark = s.set_sky_light(c(0, 0, 0), 3);
    assert_eq!(dark.change, LightChange { old_max: 15, old_level: 15, new_max: 15, new_level: 3 });
    // The block light counts as 15 where none is stored, so the maximum
    // did not change and nothing was marked dirty.
    assert_eq!(dark.marked_dirty, false);
    assert_eq!(s.get_sky_light(c(0, 0, 0)), 3);
    assert_eq!(s.get_sky_light(c(1, 0, 0)), 0);
    assert_eq!(s.get_sky_light(c(2, 0, 0)), 15);
    assert_eq!(s.get_light(c(0, 0, 0)), 3);
    let back = s.set_sky_light(c(0, 0, 0), 15);
    assert_eq!(back.change, LightChange { old_max: 15, old_level: 3, new_max: 15, new_level: 15 });
    assert_eq!(s.get_sky_light(c(1, 0, 0)), 15);
}

#[test]
fn section_copy_lightmap() {
    let mut s = Section::<u32>::new();
    let mut dest = vec![99u8; 4100];
    s.copy_lightmap(&mut dest);
    assert!(dest[..4096].iter().all(|&l| l == 0));
    assert!(dest[4096..].iter().all(|&l| l == 99));
    s.set_sky_light(c(0, 0, 0), 4);
    s.copy_lightmap(&mut dest);
    assert_eq!(dest[0], 4);
    assert_eq!(dest[1], 0);
    assert_eq!(dest[2], 15);
}

#[test]
fn section_data() {
    let mut s = Section::<String>::new();
    assert_eq!(s.set_data(c(1, 1, 1), "a".to_string()), None);
    assert_eq!(s.get_data(c(1, 1, 1)).map(|v| v.as_str()), Some("a"));
    assert_eq!(s.set_data(c(1, 1, 1), "b".to_string()), Some("a".to_string()));
    assert_eq!(s.set_data(c(2, 1, 1), "c".to_string()), None);
    if let Some(v) = s.get_data_mut(c(2, 1, 1)) {
        v.push('!');
    }
    assert_eq!(s.get_data(c(2, 1, 1)).map(|v| v.as_str()), Some("c!"));
    assert_eq!(s.delete_data(c(1, 1, 1)), Some("b".to_string()));
    assert!(s.get_data(c(1, 1, 1)).is_none());
    assert_eq!(s.delete_data(c(1, 1, 1)), None);
    assert_eq!(s.get_data(c(2, 1, 1)).map(|v| v.as_str()), Some("c!"));
}

#[test]
fn section_get_or_insert_data() {
    let mut s = Section::<String>::new();
    s.get_or_insert_data(c(0, 0, 0), "x".to_string()).push('y');
    assert_eq!(s.get_data(c(0, 0, 0)).map(|v| v.as_str()), Some("xy"));
    let v = s.get_or_insert_data(c(0, 0, 0), "z".to_string());
    assert_eq!(v.as_str(), "xy");
    let w = s.get_or_insert_data_with(c(3, 0, 0), || "w".to_string());
    assert_eq!(w.as_str(), "w");
    let w2 = s.get_or_insert_data_with(c(3, 0, 0), || "other".to_string());
    assert_eq!(w2.as_str(), "w");
}

#[test]
fn section_queries() {
    let mut s = Section::<String>::new();
    s.set_block(c(1, 2, 3), Id(4));
    s.set_sky_light(c(1, 2, 3), 6);
    s.set_update_ref(c(1, 2, 3), UpdateRef(2));
    s.set_data(c(1, 2, 3), "d".to_string());
    assert_eq!(s.query::<Id>(c(1, 2, 3)), Id(4));
    assert_eq!(s.query::<SkyLight>(c(1, 2, 3)), 6);
    assert_eq!(s.query::<BlockLight>(c(1, 2, 3)), 0);
    assert_eq!(s.query::<Enabled>(c(1, 2, 3)), true);
    assert_eq!(s.query::<Occlusion>(c(1, 2, 3)), Occlusion(0));
    assert_eq!(s.query::<BlockData>(c(1, 2, 3)).map(|v| v.as_str()), Some("d"));
    let (id, sky, on) = s.query::<(Id, SkyLight, Enabled)>(c(1, 2, 3));
    assert_eq!((id, sky, on), (Id(4), 6, true));
    let (id2, _, on2) = s.query::<(Id, SkyLight, Enabled)>(c(0, 0, 0));
    assert_eq!((id2, on2), (Id(0), false));
}
