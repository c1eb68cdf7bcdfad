use unvoga::blockdata::{BlockDataContainer, BlockDataRef};
use unvoga::byteio::{write_u16_be, ByteReader};
use unvoga::coord::Coord;
use unvoga::error::Error;
use unvoga::header::RegionHeader;
use unvoga::heightmap::{Heightmap, HeightmapColumn};
use unvoga::occlusion::Occlusion;
use unvoga::regioncoord::RegionCoord;
use unvoga::regionfile::{allocate_for_write, allocation_fits, pad_size, padded_size};
use unvoga::regiontable::RegionTable;
use unvoga::sectionio::{
    read_enabled, read_section_light, read_section_occlusions, write_enabled, write_section_light,
    write_section_occlusions,
};
use unvoga::sectormanager::{ManagedSector, SectorManager};
use unvoga::sectoroffset::{block_size_notation, BlockSize, SectorOffset};
use unvoga::record::{decode_record, encode_record, frame_record, unframe_record};
use unvoga::seed::{make_seed, seed_bytes};
use unvoga::timestamp::Timestamp;
use unvoga::update::{BlockUpdateQueue, UpdateRef};

#[test]
fn bsn_test() {
    let block_size = BlockSize::new(31, 7);
    println!("Block Count: {}", block_size.block_count());
    assert_eq!(block_size.block_count(), 8033);
}

#[test]
fn block_size_counts() {
    assert_eq!(BlockSize(0).block_count(), 0);
    assert_eq!(BlockSize(31).block_count(), 31);
    // exponent 1: 2 * count + 31 + 2
    assert_eq!(BlockSize::new(0, 1).block_count(), 33);
    assert_eq!(block_size_notation(3, 2, 5), 3 * 4 + 3 * 31 + 4);
    assert_eq!(BlockSize::required(0).0, 0);
    assert_eq!(BlockSize::required(32).block_count(), 33);
    assert_eq!(BlockSize::required(8033).block_count(), 8033);
}

#[test]
fn sector_offset_fields() {
    let s = SectorOffset::new(BlockSize(5), 3);
    assert_eq!(s.0, (3 << 8) | 5);
    assert_eq!(s.block_offset(), 3);
    assert_eq!(s.block_size(), BlockSize(5));
    assert_eq!(s.file_offset(), 3 * 4096);
    assert!(!s.is_empty());
    assert!(SectorOffset(0).is_empty());
    let m = ManagedSector::from(s);
    assert_eq!(m, ManagedSector::new(3, 8));
    assert_eq!(m.size(), 5);
    assert_eq!(m.file_size(), 5 * 4096);
}

#[test]
fn managed_sector_ops() {
    let mut a = ManagedSector::new(3, 10);
    let (l, r) = a.split_left(4);
    assert_eq!((l, r), (ManagedSector::new(3, 7), ManagedSector::new(7, 10)));
    assert_eq!(a.gap(ManagedSector::new(12, 14)), Some(2));
    assert_eq!(a.gap(ManagedSector::new(10, 14)), None);
    a.absorb(ManagedSector::new(10, 14));
    assert_eq!(a, ManagedSector::new(3, 14));
    let got = a.allocate(BlockSize(4));
    assert_eq!(got, Some(SectorOffset::new(BlockSize(4), 3)));
    assert_eq!(a, ManagedSector::new(7, 14));
    assert_eq!(a.allocate(BlockSize(20)), None);
    assert_eq!(a, ManagedSector::new(7, 14));
    assert!(ManagedSector::new(4, 4).is_empty());
    assert!(a.not_empty());
    assert_eq!(ManagedSector::header(), ManagedSector::new(0, 12288));
}

#[test]
fn sector_manager_reuses_freed_ranges() {
    let mut m = SectorManager::new();
    let a = m.allocate(1);
    assert_eq!((a.block_offset(), a.block_size()), (3, BlockSize(1)));
    let b = m.allocate(3);
    assert_eq!((b.block_offset(), b.block_size()), (4, BlockSize(3)));
    m.deallocate(ManagedSector::from(a));
    let c = m.allocate(1);
    assert_eq!(c.block_offset(), 3);
    // growing moves the data to the end and frees 4..7
    let grown = m.reallocate(b, BlockSize(5)).unwrap();
    assert_eq!((grown.block_offset(), grown.block_size()), (7, BlockSize(5)));
    // shrinking keeps the start and gives the tail back to the end range
    let shrunk = m.reallocate(grown, BlockSize(2)).unwrap();
    assert_eq!((shrunk.block_offset(), shrunk.block_size()), (7, BlockSize(2)));
    let d = m.allocate(5);
    assert_eq!(d.block_offset(), 9);
    let e = m.allocate(3);
    assert_eq!(e.block_offset(), 4);
    assert_eq!(m.reallocate(e, BlockSize(3)), Some(e));
    assert_eq!(m.reallocate(e, BlockSize(0)), None);
    assert_eq!(m.reallocate_err(e, BlockSize(0)), Err(Error::AllocationFailure));
}

#[test]
fn sector_manager_from_table() {
    let mut table: RegionTable<SectorOffset> = RegionTable::new();
    assert_eq!(table.set(1, 0, SectorOffset::new(BlockSize(2), 10)), SectorOffset(0));
    table.set(0, 0, SectorOffset::new(BlockSize(1), 3));
    assert_eq!(table.get(1, 0), SectorOffset::new(BlockSize(2), 10));
    assert_eq!(table.get(33, 32), SectorOffset::new(BlockSize(2), 10));
    assert_eq!(table.iter().len(), 1024);
    let mut m = SectorManager::from_sector_table(&table);
    // the space between the two used ranges (4 .. 10) is unused
    let a = m.allocate(2);
    assert_eq!(a.block_offset(), 4);
    let b = m.allocate(4);
    assert_eq!(b.block_offset(), 6);
}

#[test]
fn region_coords() {
    let c = RegionCoord::new(33, -1);
    assert_eq!(c.index(), 1 + 31 * 32);
    assert_eq!(c.sector_offset(), 8192 + 4 * 993);
    assert_eq!(c.timestamp_offset(), 8 * 993);
    assert_eq!(c.x(), 993 & 0x31);
    assert_eq!(c.z(), 993 & 0x31);
    assert_eq!(RegionCoord::from((1, 31)), c);
}

#[test]
fn record_sizes() {
    assert_eq!(pad_size(0), 0);
    assert_eq!(pad_size(1), 4095);
    assert_eq!(pad_size(4097), 4095);
    assert_eq!(pad_size(8192), 0);
    assert_eq!(padded_size(0), 0);
    assert_eq!(padded_size(1), 4096);
    assert_eq!(padded_size(4096), 4096);
    assert_eq!(padded_size(4097), 8192);
}

#[test]
fn write_allocation() {
    let mut m = SectorManager::new();
    let first = allocate_for_write(&mut m, SectorOffset(0), 100).unwrap();
    assert_eq!((first.block_offset(), first.block_size()), (3, BlockSize(1)));
    let grown = allocate_for_write(&mut m, first, 3 * 4096).unwrap();
    assert_eq!((grown.block_offset(), grown.block_size()), (4, BlockSize(4)));
    assert_eq!(allocate_for_write(&mut m, grown, 8033 * 4096), Err(Error::ChunkTooLarge));
    assert_eq!(allocate_for_write(&mut m, grown, 8033 * 4096 - 4).map(|s| s.block_size()), Ok(BlockSize(255)));
}

#[test]
fn timestamps() {
    assert_eq!(Timestamp::new(5).timestamp(), 5);
    assert!(Timestamp::utc_now().timestamp() > 1_600_000_000);
}

#[test]
fn update_quick() {
    let mut update = BlockUpdateQueue::default();
    let mut keys = Vec::new();
    for i in 0..16 {
        keys.push(update.push(Coord::new(i, i, i)));
    }
    update.iter().iter().for_each(|coord| {
        println!("{coord:?}");
    });
    keys.into_iter().for_each(|key| {
        update.remove(key);
    });
    update.iter().iter().for_each(|coord| {
        println!("{coord:?}");
    });
    assert!(update.iter().is_empty());
}

#[test]
fn update_queue_handles() {
    let mut q = BlockUpdateQueue::new();
    let a = q.push(Coord::splat(1));
    let b = q.push(Coord::splat(2));
    let c = q.push(Coord::splat(3));
    assert_eq!((a.0, b.0, c.0), (1, 2, 3));
    q.remove(a);
    // the last entry takes the removed one's place
    assert_eq!(q.iter(), vec![Coord::splat(3), Coord::splat(2)]);
    q.remove(UpdateRef::default());
    assert_eq!(q.iter().len(), 2);
    // the freed slot is handed out again
    let d = q.push(Coord::splat(4));
    assert_eq!(d.0, 1);
    q.remove(c);
    assert_eq!(q.iter(), vec![Coord::splat(4), Coord::splat(2)]);
    q.remove(b);
    q.remove(d);
    assert!(q.iter().is_empty());
    assert!(UpdateRef(0).null() && UpdateRef(0).disabled() && UpdateRef(2).enabled());
}

#[test]
fn block_data_slots() {
    let mut data: BlockDataContainer<String> = BlockDataContainer::new();
    let a = data.insert("a".to_owned());
    let b = data.insert("b".to_owned());
    assert_eq!((a.0, b.0), (1, 2));
    assert_eq!(data.get(a).map(|s| s.as_str()), Some("a"));
    assert_eq!(data.get(BlockDataRef(0)), None);
    assert!(BlockDataRef(0).null());
    assert_eq!(data.delete(a), Some("a".to_owned()));
    let c = data.insert("c".to_owned());
    assert_eq!(c.0, 1);
    assert_eq!(data.delete(c), Some("c".to_owned()));
    assert_eq!(data.delete(b), Some("b".to_owned()));
    // with every slot empty the storage is released: numbering starts over
    let d = data.insert("d".to_owned());
    assert_eq!(d.0, 1);
    data.clear();
    assert_eq!(data.insert("e".to_owned()).0, 1);
}

#[test]
fn heightmap_columns() {
    let mut col = HeightmapColumn::new();
    assert_eq!(col.height(), 0);
    assert!(!col.set(70, true));
    assert!(col.get(70));
    assert_eq!(col.height(), 71);
    col.set(639, true);
    assert_eq!(col.height(), 640);
    col.set(639, false);
    assert_eq!(col.height(), 71);
    let mut bytes = Vec::new();
    assert_eq!(col.write_to(&mut bytes), 80);
    assert_eq!(bytes[8], 1 << 6);
    let mut back = HeightmapColumn::new();
    let mut reader = ByteReader::new(bytes);
    assert_eq!(back.read_from(&mut reader), Ok(()));
    assert!(back.get(70) && back.height() == 71);
}

#[test]
fn heightmap_heights() {
    let mut map = Heightmap::new();
    assert!(!map.set(Coord::new(1, 10, 2), true));
    assert_eq!(map.height(1, 2), 11);
    assert_eq!(map.height(17, 18), 11);
    map.set(Coord::new(1, 3, 2), true);
    assert_eq!(map.height(1, 2), 11);
    map.set(Coord::new(1, 10, 2), false);
    assert_eq!(map.height(1, 2), 4);
    assert!(map.get(Coord::new(1, 3, 2)));
    let mut bytes = Vec::new();
    assert_eq!(map.write_to(&mut bytes), 20992);
    assert_eq!(bytes.len(), 20992);
    let mut back = Heightmap::new();
    let mut reader = ByteReader::new(bytes.clone());
    assert_eq!(back.read_from(&mut reader), Ok(()));
    assert_eq!(back.height(1, 2), 4);
    assert!(back.get(Coord::new(1, 3, 2)));
    let mut short = ByteReader::new(bytes[..100].to_vec());
    assert_eq!(back.read_from(&mut short), Err(Error::UnexpectedEnd));
}

fn occlusions(f: impl Fn(usize) -> u8) -> Option<Vec<Occlusion>> {
    Some((0..4096usize).map(|i| Occlusion(f(i))).collect())
}

#[test]
fn write_read_occlusion() {
    {
        let occlusions = occlusions(|i| (i % 64) as u8);
        let mut buf: Vec<u8> = Vec::new();
        write_section_occlusions(&mut buf, &occlusions);
        let mut reader = ByteReader::new(buf);
        let mut read_occlusions = None;
        let mut count = 10;
        read_section_occlusions(&mut reader, &mut read_occlusions, &mut count).unwrap();
        assert_ne!(count, 10);
        assert_eq!(occlusions, read_occlusions);
    }
    {
        let occlusions = None;
        let mut buf: Vec<u8> = Vec::new();
        write_section_occlusions(&mut buf, &occlusions);
        let mut reader = ByteReader::new(buf);
        let mut read_occlusions = self::occlusions(|i| (i % 64) as u8);
        let mut count = 10;
        read_section_occlusions(&mut reader, &mut read_occlusions, &mut count).unwrap();
        assert_ne!(count, 10);
        assert_eq!(occlusions, read_occlusions);
    }
    {
        let occlusions = self::occlusions(|i| (i % 64) as u8 | 1);
        let mut buf: Vec<u8> = Vec::new();
        write_section_occlusions(&mut buf, &occlusions);
        let mut reader = ByteReader::new(buf);
        let mut read_occlusions = self::occlusions(|_| 0b111111);
        let mut count = 10;
        read_section_occlusions(&mut reader, &mut read_occlusions, &mut count).unwrap();
        assert_eq!(count, 4096);
        assert_eq!(occlusions, read_occlusions);
    }
}

#[test]
fn occlusion_sizes_and_errors() {
    let mut buf = Vec::new();
    assert_eq!(write_section_occlusions(&mut buf, &occlusions(|i| (i % 64) as u8)), 3073);
    assert_eq!(buf.len(), 3073);
    // 0, 1, 2, 3 pack into 0b01_000000, 0b0010_0000, 0b000011_00
    assert_eq!(&buf[1..4], &[0b0100_0000, 0b0010_0000, 0b0000_1100]);
    let mut count = 7;
    let mut target = None;
    let mut empty = ByteReader::new(Vec::new());
    assert_eq!(read_section_occlusions(&mut empty, &mut target, &mut count), Err(Error::UnexpectedEnd));
    assert_eq!(count, 7);
    let mut short = ByteReader::new(buf[..100].to_vec());
    assert_eq!(read_section_occlusions(&mut short, &mut target, &mut count), Err(Error::UnexpectedEnd));
    assert_eq!(count, 0);
    assert_eq!(target.map(|v| v.len()), Some(4096));
    let mut none = Vec::new();
    assert_eq!(write_section_occlusions(&mut none, &None), 1);
    assert_eq!(none, vec![0]);
}

#[test]
fn write_read_light() {
    let light: Vec<u8> = (0..2048usize).map(|i| (i % 256) as u8).collect();
    let mut buf = Vec::new();
    assert_eq!(write_section_light(&mut buf, &Some(light.clone())), 2049);
    let mut reader = ByteReader::new(buf);
    let mut read = None;
    let mut count = 0;
    read_section_light(&mut reader, &mut read, &mut count).unwrap();
    assert_eq!(read, Some(light.clone()));
    let expected: u16 = light.iter().map(|&l| (l & 0x0f != 0) as u16 + (l & 0xf0 != 0) as u16).sum();
    assert_eq!(count, expected);
    let mut off = Vec::new();
    assert_eq!(write_section_light(&mut off, &None), 1);
    let mut reader = ByteReader::new(off);
    read_section_light(&mut reader, &mut read, &mut count).unwrap();
    assert_eq!((read, count), (None, 0));
}

#[test]
fn write_read_enabled() {
    let mut refs = vec![UpdateRef(0); 4096];
    refs[5] = UpdateRef(1);
    refs[300] = UpdateRef(9);
    let mut buf = Vec::new();
    assert_eq!(write_enabled(&mut buf, &Some(refs)), 6);
    assert_eq!(buf, vec![0, 2, 0, 5, 1, 44]);
    let mut reader = ByteReader::new(buf);
    let mut count = 0;
    assert_eq!(read_enabled(&mut reader, &mut count), Ok(vec![5, 300]));
    assert_eq!(count, 2);
    let mut none = Vec::new();
    assert_eq!(write_enabled(&mut none, &None), 2);
    assert_eq!(none, vec![0, 0]);
    let mut truncated = ByteReader::new(vec![0, 2, 0, 5]);
    assert_eq!(read_enabled(&mut truncated, &mut count), Err(Error::UnexpectedEnd));
    assert_eq!(count, 2);
}

#[test]
fn byte_reader() {
    let mut out = Vec::new();
    write_u16_be(&mut out, 0x1234);
    out.push(0);
    out.push(7);
    let mut r = ByteReader::new(out);
    assert_eq!(r.read_u16_be(), Ok(0x1234));
    assert_eq!(r.read_bool(), Ok(false));
    assert_eq!(r.read_u8(), Ok(7));
    assert_eq!(r.pos(), 4);
    assert_eq!(r.bytes_left(), 0);
    assert_eq!(r.read_u8(), Err(Error::UnexpectedEnd));
    assert_eq!(r.read_exact(1), Err(Error::UnexpectedEnd));
}

#[test]
fn records_round_trip() {
    let data: Vec<u8> = (0..10000u32).map(|i| (i * 7 % 251) as u8).collect();
    let record = encode_record(&data).unwrap();
    assert_eq!(record.len() % 4096, 0);
    assert_ne!(&record[4..], &data[..]);
    assert_eq!(decode_record(&record), Ok(data.clone()));
    let framed = frame_record(&[9, 8, 7]);
    assert_eq!(framed.len(), 4096);
    assert_eq!(&framed[..7], &[0, 0, 0, 3, 9, 8, 7]);
    assert_eq!(unframe_record(&framed), Ok(vec![9, 8, 7]));
    assert_eq!(unframe_record(&[0, 0, 0, 9, 1]), Err(Error::UnexpectedEnd));
    assert_eq!(decode_record(&framed), Err(Error::InvalidData));
    assert_eq!(decode_record(&[0, 0]), Err(Error::UnexpectedEnd));
}

#[test]
fn seeds_from_names() {
    assert_eq!(make_seed(b"temperature"), make_seed(b"temperature"));
    assert_ne!(make_seed(b"temperature"), make_seed(b"humidity"));
}

#[test]
fn bitmask_test() {
    // bits 1 .. 7 of an i8
    let mask = ((1i16 << 7) - (1i16 << 1)) as i8;
    println!("{mask:08b}");
    assert_eq!(mask, 0b0111_1110);
}

#[test]
fn seed_digest() {
    // SHA-256 of "abc"
    assert_eq!(&seed_bytes(b"abc")[..4], &[0xba, 0x78, 0x16, 0xbf]);
}

#[test]
fn region_header_round_trip() {
    let mut header = RegionHeader::new();
    assert_eq!(header.set_timestamp(3, 1, Timestamp::new(-2)), Timestamp::new(0));
    header.set_offset(31, 31, SectorOffset::new(BlockSize(7), 0x12345));
    let mut bytes = Vec::new();
    assert_eq!(header.write_to(&mut bytes), 12288);
    assert_eq!(bytes.len(), 12288);
    assert_eq!(&bytes[8 * 35..8 * 35 + 8], &(-2i64).to_be_bytes());
    assert_eq!(&bytes[12284..], &((0x12345u32 << 8) | 7).to_be_bytes());
    let mut reader = ByteReader::new(bytes);
    let back = RegionHeader::read_from(&mut reader).unwrap();
    assert_eq!(back.get_timestamp(3, 1), Timestamp::new(-2));
    assert_eq!(back.get_offset(31, 31), SectorOffset::new(BlockSize(7), 0x12345));
    assert_eq!(back.get_offset(0, 0), SectorOffset(0));
    assert!(RegionHeader::read_from(&mut ByteReader::new(vec![0; 100])).is_err());
}

#[test]
fn reallocation_that_cannot_run() {
    let mut m = SectorManager::new();
    let s3 = m.allocate(1);
    let s4 = m.allocate(1);
    let s5 = m.allocate(1);
    let s6 = m.allocate(1);
    let _sep = m.allocate(1);
    let big = m.allocate(8);
    let _tail = m.allocate(1);
    assert_eq!((s3.block_offset(), s6.block_offset(), big.block_offset()), (3, 6, 8));
    m.deallocate(ManagedSector::from(s4));
    m.deallocate(ManagedSector::from(s6));
    m.deallocate(ManagedSector::from(big));
    // the range that fits is last; giving back 5 .. 6 merges the two
    // ranges before it, so that it is no longer at its index
    assert!(!m.reallocation_fits(s5, BlockSize(2)));
    assert!(!allocation_fits(&m, s5, 4096));
    assert!(m.reallocation_fits(s5, BlockSize(1)));
    assert!(m.reallocation_fits(s3, BlockSize(0)));
    assert!(allocation_fits(&m, s5, 100));
}

#[test]
fn block_data_in_place() {
    let mut data: BlockDataContainer<u32> = BlockDataContainer::new();
    let a = data.insert(5);
    if let Some(v) = data.get_mut(a) {
        *v += 1;
    }
    assert_eq!(data.get(a), Some(&6));
    assert!(data.get_mut(BlockDataRef(0)).is_none());
}

#[test]
fn sector_manager_test() {
    let mut man = SectorManager::new();
    let sect1 = man.allocate(BlockSize::MAX_BLOCK_COUNT);
    fn rand_size() -> u16 {
        rand::random::<u16>().rem_euclid(BlockSize::MAX_BLOCK_COUNT).max(1)
    }
    println!("{sect1:?}");
    println!("===First Allocation");
    println!("{:?}", man);
    man.deallocate(sect1.into());
    println!("{:?}", man);
    println!("===Allocating Random Sizes");
    let mut sectors: Vec<SectorOffset> = (0..16).map(|_| man.allocate(rand_size())).collect();
    println!("{:?}", man);
    println!("===Allocation:");
    println!("{sectors:?}");
    man.deallocate(sectors.remove(7).into());
    println!("===Removed middle:");
    println!("{:?}", man);
    man.deallocate(sectors.remove(7).into());
    println!("===Removed the next one.");
    println!("{:?}", man);
    sectors.into_iter().for_each(|sector| {
        man.deallocate(sector.into());
    });
    println!("===Deallocated all");
    println!("{:?}", man);
}

#[test]
fn timestamp_test() {
    let ts = Timestamp::utc_now();
    let dt = chrono::DateTime::from_timestamp(ts.timestamp(), 0).unwrap();
    println!("{dt}");
}

#[test]
fn region_table_indexing() {
    let mut table = RegionTable::<Timestamp>::new();
    let coord = RegionCoord::new(3, 4);
    table[coord] = Timestamp::new(77);
    assert_eq!(table[coord], Timestamp::new(77));
    assert_eq!(table.get(3, 4), Timestamp::new(77));
    assert_eq!(table[RegionCoord::new(4, 3)], Timestamp::new(0));
}

#[test]
fn region_coord_into_pair() {
    let pair: (i32, i32) = RegionCoord::new(1, 2).into();
    // Both halves mask the packed value with 0x31.
    assert_eq!(pair, (1, 1));
    let h = Heightmap::default();
    assert_eq!(h.height(3, 4), 0);
    let col = HeightmapColumn::default();
    assert_eq!(col.height(), 0);
}
