use bd1::error::FormatError;
use bd1::geom::Block;
use bd1::reader::Reader;
use bd1::texture::normalize_filename;

/// A valid texture table region: ten empty (all-zero) slots.
fn empty_table() -> Vec<u8> {
    vec![0u8; 310]
}

/// Writes `name` into slot `i` of the table region, leaving the rest
/// of the slot zero.
fn write_slot(buf: &mut [u8], i: usize, name: &[u8]) {
    assert!(name.len() <= 31);
    buf[31 * i..31 * i + name.len()].copy_from_slice(name);
}

fn push_f32(buf: &mut Vec<u8>, x: f32) {
    buf.extend_from_slice(&x.to_bits().to_le_bytes());
}

fn push_i32(buf: &mut Vec<u8>, x: i32) {
    buf.extend_from_slice(&x.to_le_bytes());
}

#[test]
fn table_has_ten_entries() {
    let bin = empty_table();
    let reader = Reader::new(&bin).unwrap();
    assert_eq!(reader.texture_filenames.len(), 10);
    for i in 0..10 {
        assert_eq!(reader.texture_filenames.get(i).as_str(), "");
    }
}

#[test]
fn normalization_is_idempotent_on_a_sample() {
    let once = normalize_filename("tex\\a\\b.bmp");
    assert_eq!(once.as_str(), "tex/a/b.bmp");
    let twice = normalize_filename(once.as_str());
    assert_eq!(twice, once);
}

#[test]
fn plain_name_decodes_without_padding() {
    let mut bin = empty_table();
    write_slot(&mut bin, 0, b"brick.bmp\0");
    let reader = Reader::new(&bin).unwrap();
    assert_eq!(reader.texture_filenames.get(0).as_str(), "brick.bmp");
}

#[test]
fn backslashes_become_forward_slashes() {
    let mut bin = empty_table();
    write_slot(&mut bin, 0, b"tex\\wood.bmp\0");
    let reader = Reader::new(&bin).unwrap();
    assert_eq!(reader.texture_filenames.get(0).as_str(), "tex/wood.bmp");
}

#[test]
fn names_fill_their_own_slots() {
    let mut bin = empty_table();
    write_slot(&mut bin, 2, b"a.bmp\0");
    write_slot(&mut bin, 9, b"last.bmp\0");
    let reader = Reader::new(&bin).unwrap();
    assert_eq!(reader.texture_filenames.get(0).as_str(), "");
    assert_eq!(reader.texture_filenames.get(2).as_str(), "a.bmp");
    assert_eq!(reader.texture_filenames.get(9).as_str(), "last.bmp");
}

#[test]
fn name_without_null_is_cut_at_thirty() {
    let mut bin = empty_table();
    // 31 non-null bytes: only the first 30 are name characters, the
    // final byte is reserved and ignored.
    write_slot(&mut bin, 0, b"aaaaaaaaaaaaaaaaaaaaaaaaaaaaaax");
    let reader = Reader::new(&bin).unwrap();
    assert_eq!(
        reader.texture_filenames.get(0).as_str(),
        "aaaaaaaaaaaaaaaaaaaaaaaaaaaaaa"
    );
}

#[test]
fn reserved_byte_is_still_validated() {
    let mut bin = empty_table();
    bin[30] = 0x80; // final byte of slot 0, not ASCII
    let err = Reader::new(&bin).unwrap_err();
    assert_eq!(err, FormatError::InvalidEncoding);
}

#[test]
fn non_ascii_slot_byte_is_an_encoding_error() {
    let mut bin = empty_table();
    write_slot(&mut bin, 3, b"bri\xffck.bmp\0");
    let err = Reader::new(&bin).unwrap_err();
    assert_eq!(err, FormatError::InvalidEncoding);
}

#[test]
fn default_block_is_the_empty_template() {
    let b = Block::new();
    assert_eq!(b.vertex_positions.len(), 8);
    for p in &b.vertex_positions {
        assert_eq!((p.x_bits, p.y_bits, p.z_bits), (0, 0, 0));
    }
    assert_eq!(b.uvs.len(), 24);
    for uv in &b.uvs {
        assert_eq!((uv.u_bits, uv.v_bits), (0, 0));
    }
    assert_eq!(b.texture_ids.len(), 6);
    for id in &b.texture_ids {
        assert_eq!(*id, 0);
    }
    assert!(b.enabled);
}

#[test]
fn cloning_a_block_is_a_deep_copy() {
    let original = Block::new();
    let mut copy = original.clone();
    copy.vertex_positions[0].x_bits = 7.5f32.to_bits();
    copy.uvs[5].v_bits = 0.25f32.to_bits();
    copy.texture_ids[2] = -1;
    copy.enabled = false;
    assert_eq!(original.vertex_positions[0].x_bits, 0);
    assert_eq!(original.uvs[5].v_bits, 0);
    assert_eq!(original.texture_ids[2], 0);
    assert!(original.enabled);
}

#[test]
fn short_buffer_is_a_truncation_error() {
    let err = Reader::new(&vec![0u8; 309]).unwrap_err();
    assert_eq!(err, FormatError::TruncatedBuffer);
    let err = Reader::new(&Vec::new()).unwrap_err();
    assert_eq!(err, FormatError::TruncatedBuffer);
}

#[test]
fn table_only_buffer_has_no_blocks() {
    let mut bin = empty_table();
    write_slot(&mut bin, 0, b"brick.bmp\0");
    let reader = Reader::new(&bin).unwrap();
    assert!(reader.blocks.is_empty());
    assert_eq!(reader.texture_filenames.len(), 10);
}

#[test]
fn trailing_bytes_are_a_misalignment_error() {
    let mut bin = empty_table();
    bin.extend_from_slice(&[0u8; 100]);
    let err = Reader::new(&bin).unwrap_err();
    assert_eq!(err, FormatError::MisalignedRecords);
}

#[test]
fn round_trip_of_one_known_block() {
    let mut bin = empty_table();
    write_slot(&mut bin, 0, b"brick.bmp\0");

    // 8 corner positions.
    let positions: [(f32, f32, f32); 8] = [
        (0.0, 0.0, 0.0),
        (1.0, 0.0, 0.0),
        (1.0, 1.0, 0.0),
        (0.0, 1.0, 0.0),
        (0.0, 0.0, -2.5),
        (1.0, 0.0, -2.5),
        (1.0, 1.0, -2.5),
        (0.0, 1.0, -2.5),
    ];
    for &(x, y, z) in &positions {
        push_f32(&mut bin, x);
        push_f32(&mut bin, y);
        push_f32(&mut bin, z);
    }
    // 24 texture coordinate pairs.
    for k in 0..24 {
        push_f32(&mut bin, k as f32 * 0.25);
        push_f32(&mut bin, 1.0 - k as f32 * 0.03125);
    }
    // 6 face texture indices, one of them "no texture".
    let ids: [i32; 6] = [0, 1, 2, 3, -1, 9];
    for &id in &ids {
        push_i32(&mut bin, id);
    }
    // Enabled flag byte.
    bin.push(1);

    let reader = Reader::new(&bin).unwrap();
    assert_eq!(reader.blocks.len(), 1);
    let b = &reader.blocks[0];

    assert_eq!(b.vertex_positions.len(), 8);
    for (k, &(x, y, z)) in positions.iter().enumerate() {
        assert_eq!(b.vertex_positions[k].x_bits, x.to_bits());
        assert_eq!(b.vertex_positions[k].y_bits, y.to_bits());
        assert_eq!(b.vertex_positions[k].z_bits, z.to_bits());
        assert_eq!(f32::from_bits(b.vertex_positions[k].z_bits), z);
    }
    assert_eq!(b.uvs.len(), 24);
    for k in 0..24 {
        assert_eq!(b.uvs[k].u_bits, (k as f32 * 0.25).to_bits());
        assert_eq!(b.uvs[k].v_bits, (1.0 - k as f32 * 0.03125).to_bits());
    }
    assert_eq!(b.texture_ids.len(), 6);
    assert_eq!(b.texture_ids, vec![0, 1, 2, 3, -1, 9]);
    assert!(b.enabled);
}

#[test]
fn records_keep_file_order_and_flags() {
    let mut bin = empty_table();
    // First record: all zero fields, flag byte zero: a disabled block.
    bin.extend_from_slice(&[0u8; 313]);
    // Second record: all zero but an enabled flag and one marked field.
    let mut second = vec![0u8; 313];
    second[0..4].copy_from_slice(&42.0f32.to_bits().to_le_bytes());
    second[312] = 1;
    bin.extend_from_slice(&second);

    let reader = Reader::new(&bin).unwrap();
    assert_eq!(reader.blocks.len(), 2);
    assert!(!reader.blocks[0].enabled);
    assert_eq!(reader.blocks[0].vertex_positions[0].x_bits, 0);
    assert!(reader.blocks[1].enabled);
    assert_eq!(
        f32::from_bits(reader.blocks[1].vertex_positions[0].x_bits),
        42.0
    );
}
