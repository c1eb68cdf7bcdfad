use unvoga::blockpack::{
    block_palette, blocks_from_indices, index_bit_width, pack_indices, palette_count_bytes, read_palette_count,
    unpack_indices,
};
use unvoga::blocks::Id;
use unvoga::byteio::ByteReader;
use unvoga::error::Error;

#[test]
fn bit_widths() {
    assert_eq!(index_bit_width(1), 0);
    assert_eq!(index_bit_width(2), 1);
    assert_eq!(index_bit_width(3), 2);
    assert_eq!(index_bit_width(4), 2);
    assert_eq!(index_bit_width(5), 3);
    assert_eq!(index_bit_width(300), 9);
    assert_eq!(index_bit_width(4096), 12);
    for count in 1u16..=4096 {
        assert_eq!(index_bit_width(count), count.next_power_of_two().trailing_zeros() as usize);
    }
}

#[test]
fn palette_in_order_of_first_appearance() {
    let mut blocks = vec![Id(0); 4096];
    blocks[5] = Id(7);
    blocks[9] = Id(3);
    blocks[100] = Id(7);
    let (palette, indices) = block_palette(&blocks);
    assert_eq!(palette, vec![Id(0), Id(7), Id(3)]);
    assert_eq!(indices[0], 0);
    assert_eq!(indices[5], 1);
    assert_eq!(indices[9], 2);
    assert_eq!(indices[100], 1);
    let (decoded, count) = blocks_from_indices(&palette, &indices);
    assert_eq!(decoded, blocks);
    assert_eq!(count, 3);
}

#[test]
fn packing_is_lsb_first() {
    let mut indices = vec![0u16; 4096];
    indices[0] = 0b101;
    indices[1] = 0b011;
    indices[2] = 0b111;
    let packed = pack_indices(&indices, 3);
    assert_eq!(packed.len(), 3 * 512);
    // 101 | 011 << 3 | 111 << 6 = 0b1_1101_1101 -> bytes 0b1101_1101, 0b1
    assert_eq!(packed[0], 0b1101_1101);
    assert_eq!(packed[1], 0b0000_0001);
    assert!(packed[2..].iter().all(|&b| b == 0));
    assert_eq!(unpack_indices(&packed, 3), indices);
}

#[test]
fn packing_round_trips_every_width() {
    for width in 1..=12usize {
        let indices: Vec<u16> = (0..4096u32).map(|i| ((i * 2654435761u32) >> 7) as u16 & ((1u16 << width) - 1)).collect();
        let packed = pack_indices(&indices, width);
        assert_eq!(packed.len(), 512 * width);
        assert_eq!(unpack_indices(&packed, width), indices);
    }
}

#[test]
fn palette_count_round_trip() {
    assert_eq!(palette_count_bytes(0), vec![0]);
    assert_eq!(palette_count_bytes(127), vec![127]);
    assert_eq!(palette_count_bytes(128), vec![0x80, 0x80]);
    assert_eq!(palette_count_bytes(4096), vec![0x90, 0x00]);
    for count in [0u16, 1, 5, 127, 128, 300, 4096] {
        let mut reader = ByteReader::new(palette_count_bytes(count));
        assert_eq!(read_palette_count(&mut reader), Ok(count));
    }
    let mut short = ByteReader::new(vec![0x81]);
    assert_eq!(read_palette_count(&mut short), Err(Error::UnexpectedEnd));
    let mut empty = ByteReader::new(vec![]);
    assert_eq!(read_palette_count(&mut empty), Err(Error::UnexpectedEnd));
}
