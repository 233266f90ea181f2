use coolviz::glb::{
    accessor_layout, append_rebased, append_sequential, parse_b3dm, parse_glb, read_indices,
    read_batch_ids, read_primitive, read_vec3_bits, PrimitiveDesc, AccessorDesc, AccessorError, AccessorLayout, BatchId,
    ContainerError,
};

fn chunk(kind: &[u8; 4], body: &[u8]) -> Vec<u8> {
    let mut v = (body.len() as u32).to_le_bytes().to_vec();
    v.extend_from_slice(kind);
    v.extend_from_slice(body);
    while v.len() % 4 != 0 {
        v.push(0x20);
    }
    v
}

fn glb(chunks: &[Vec<u8>]) -> Vec<u8> {
    let mut v = b"glTF".to_vec();
    v.extend_from_slice(&2u32.to_le_bytes());
    let total: usize = 12 + chunks.iter().map(|c| c.len()).sum::<usize>();
    v.extend_from_slice(&(total as u32).to_le_bytes());
    for c in chunks {
        v.extend_from_slice(c);
    }
    v
}

#[test]
fn glb_chunks() {
    let data = glb(&[chunk(b"JSON", br#"{"a":1}"#), chunk(b"BIN\0", &[1, 2, 3, 4, 5])]);
    let g = parse_glb(&data).unwrap();
    assert_eq!(g.json, br#"{"a":1}"#.to_vec());
    assert_eq!(g.bin, vec![1, 2, 3, 4, 5]);
    // Unknown chunks are skipped; the last JSON chunk wins.
    let data = glb(&[chunk(b"JSON", b"[1]"), chunk(b"XTRA", b"zz"), chunk(b"JSON", b"[2]")]);
    let g = parse_glb(&data).unwrap();
    assert_eq!(g.json, b"[2]".to_vec());
    assert!(g.bin.is_empty());
    assert_eq!(parse_glb(&glb(&[chunk(b"BIN\0", &[0; 12])])).err(), Some(ContainerError::NoJsonChunk));
    assert_eq!(parse_glb(&glb(&[chunk(b"JSON", b"{oops")])).err(), Some(ContainerError::BadJson));
    assert_eq!(parse_glb(b"glTF").err(), Some(ContainerError::NotGlb));
    let mut bad = data.clone();
    bad[0] = b'x';
    assert_eq!(parse_glb(&bad).err(), Some(ContainerError::NotGlb));
    // A chunk longer than the data is cut at the end.
    let mut cut = glb(&[chunk(b"JSON", b"[3]")]);
    cut.extend_from_slice(&100u32.to_le_bytes());
    cut.extend_from_slice(b"BIN\0");
    cut.extend_from_slice(&[9, 9]);
    let g = parse_glb(&cut).unwrap();
    assert_eq!(g.bin, vec![9, 9]);
}

#[test]
fn b3dm_payload() {
    let inner = glb(&[chunk(b"JSON", b"{}")]);
    let mut b = b"b3dm".to_vec();
    b.extend_from_slice(&1u32.to_le_bytes());
    b.extend_from_slice(&0u32.to_le_bytes());
    for len in [4u32, 0, 2, 0] {
        b.extend_from_slice(&len.to_le_bytes());
    }
    b.extend_from_slice(b"{}  ");
    b.extend_from_slice(b"..");
    b.extend_from_slice(&inner);
    let g = parse_b3dm(&b).unwrap();
    assert_eq!(g.json, b"{}".to_vec());
    assert_eq!(parse_b3dm(&inner).err(), Some(ContainerError::NotB3dm));
}

fn desc(kind: &str) -> AccessorDesc {
    AccessorDesc {
        count: Some(3),
        component_type: Some(5123),
        kind: kind.to_string(),
        buffer_view: Some(0),
        view_byte_offset: Some(4),
        view_byte_stride: None,
        byte_offset: Some(2),
    }
}

#[test]
fn accessor_layouts() {
    assert_eq!(
        accessor_layout(&desc("SCALAR")),
        Ok(AccessorLayout { offset: 6, count: 3, component_type: 5123, components: 1, stride: 2 })
    );
    let mut d = desc("VEC3");
    d.component_type = Some(5126);
    d.view_byte_stride = Some(16);
    assert_eq!(
        accessor_layout(&d),
        Ok(AccessorLayout { offset: 6, count: 3, component_type: 5126, components: 3, stride: 16 })
    );
    assert_eq!(accessor_layout(&desc("MAT4")), Err(AccessorError::UnknownType));
    let mut d = desc("VEC2");
    d.count = None;
    assert_eq!(accessor_layout(&d), Err(AccessorError::MissingCount));
    let mut d = desc("VEC2");
    d.component_type = None;
    assert_eq!(accessor_layout(&d), Err(AccessorError::MissingComponentType));
    let mut d = desc("VEC2");
    d.buffer_view = None;
    assert_eq!(accessor_layout(&d), Err(AccessorError::MissingBufferView));
    let mut d = desc("VEC2");
    d.component_type = Some(5000);
    assert_eq!(accessor_layout(&d), Err(AccessorError::UnknownComponentType));
}

#[test]
fn index_buffers() {
    let bin = [0u8, 0, 7, 0, 8, 1, 0xFF, 0xFF, 1, 0, 0, 0];
    let l16 = AccessorLayout { offset: 2, count: 3, component_type: 5123, components: 1, stride: 2 };
    assert_eq!(read_indices(&bin, l16), Ok(vec![7, 264, 0xFFFF]));
    let l8 = AccessorLayout { offset: 2, count: 2, component_type: 5121, components: 1, stride: 2 };
    assert_eq!(read_indices(&bin, l8), Ok(vec![7, 8]));
    let l32 = AccessorLayout { offset: 8, count: 1, component_type: 5125, components: 1, stride: 4 };
    assert_eq!(read_indices(&bin, l32), Ok(vec![1]));
    let lf = AccessorLayout { offset: 0, count: 1, component_type: 5126, components: 1, stride: 4 };
    assert_eq!(read_indices(&bin, lf), Err(AccessorError::UnknownIndexType));
    let empty = AccessorLayout { offset: 999, count: 0, component_type: 5126, components: 1, stride: 4 };
    assert_eq!(read_indices(&bin, empty), Ok(vec![]));
    let mut out = vec![1];
    append_rebased(&mut out, 10, &[0, 2, 1]);
    append_sequential(&mut out, 20, 3);
    assert_eq!(out, vec![1, 10, 12, 11, 20, 21, 22]);
}

#[test]
fn position_and_batch_accessors() {
    let mut bin = Vec::new();
    for f in [1.0f32, -2.5, 3.25, 0.0, 0.5, 7.0] {
        bin.extend_from_slice(&f.to_le_bytes());
    }
    let l = AccessorLayout { offset: 0, count: 2, component_type: 5126, components: 3, stride: 12 };
    let v = read_vec3_bits(&bin, l).unwrap();
    assert_eq!(v.len(), 2);
    assert_eq!(f32::from_bits(v[0][1]), -2.5);
    assert_eq!(f32::from_bits(v[1][2]), 7.0);
    let l2 = AccessorLayout { components: 2, ..l };
    assert_eq!(read_vec3_bits(&bin, l2), Err(AccessorError::NotFloat3));
    let lb = AccessorLayout { offset: 4, count: 2, component_type: 5126, components: 1, stride: 4 };
    assert_eq!(
        read_batch_ids(&bin, lb),
        Ok(vec![BatchId::FloatBits((-2.5f32).to_bits()), BatchId::FloatBits(3.25f32.to_bits())])
    );
    let lu = AccessorLayout { offset: 0, count: 1, component_type: 5123, components: 1, stride: 2 };
    assert_eq!(read_batch_ids(&[5, 1], lu), Ok(vec![BatchId::Int(261)]));
    let lbad = AccessorLayout { offset: 0, count: 1, component_type: 5121, components: 1, stride: 1 };
    assert_eq!(read_batch_ids(&[5], lbad), Err(AccessorError::UnknownBatchIdType));
}

fn float3_desc(count: u64) -> AccessorDesc {
    AccessorDesc {
        count: Some(count),
        component_type: Some(5126),
        kind: "VEC3".to_string(),
        buffer_view: Some(0),
        view_byte_offset: None,
        view_byte_stride: None,
        byte_offset: None,
    }
}

#[test]
fn primitive_selection_and_reading() {
    let mut bin = Vec::new();
    for f in [1.0f32, 2.0, 3.0, 4.0, 5.0, 6.0] {
        bin.extend_from_slice(&f.to_le_bytes());
    }
    bin.extend_from_slice(&[1, 0, 0, 0]); // u16 indices at 24: 1, 0
    let idx = AccessorDesc {
        count: Some(2),
        component_type: Some(5123),
        kind: "SCALAR".to_string(),
        buffer_view: Some(0),
        view_byte_offset: Some(24),
        view_byte_stride: None,
        byte_offset: None,
    };
    let p = PrimitiveDesc { mode: None, position: Some(float3_desc(2)), batch_id: None, indices: Some(idx) };
    let d = read_primitive(&bin, &p).unwrap().unwrap();
    assert_eq!(d.positions.len(), 2);
    assert_eq!(f32::from_bits(d.positions[1][0]), 4.0);
    assert!(d.batch_ids.is_none());
    assert_eq!(d.indices, Ok(Some(vec![1, 0])));
    // Lines are skipped, as is a primitive without positions.
    let lines = PrimitiveDesc { mode: Some(1), position: Some(float3_desc(2)), batch_id: None, indices: None };
    assert!(read_primitive(&bin, &lines).unwrap().is_none());
    let bare = PrimitiveDesc { mode: Some(4), position: None, batch_id: None, indices: None };
    assert!(read_primitive(&bin, &bare).unwrap().is_none());
    // Without an index accessor the list is implicit; a bad batch accessor is dropped.
    let mut bad_batch = float3_desc(1);
    bad_batch.kind = "MAT4".to_string();
    let q = PrimitiveDesc { mode: Some(4), position: Some(float3_desc(2)), batch_id: Some(bad_batch), indices: None };
    let d = read_primitive(&bin, &q).unwrap().unwrap();
    assert!(d.batch_ids.is_none());
    assert_eq!(d.indices, Ok(None));
    // Positions that are not float3 reject the tile.
    let mut not3 = float3_desc(2);
    not3.kind = "VEC2".to_string();
    let r = PrimitiveDesc { mode: None, position: Some(not3), batch_id: None, indices: None };
    assert_eq!(read_primitive(&bin, &r).err(), Some(AccessorError::NotFloat3));
}
