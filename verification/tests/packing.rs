use instance_store::model::{pack_instances, MeshVertex, Model, ModelInstance, INSTANCE_BYTES};

#[test]
fn instance_record_is_112_packed_bytes() {
    let inst = ModelInstance { model: [0u32; 16], normal: [0u32; 9], color: [0u32; 3] };
    let bytes = inst.to_bytes();
    assert_eq!(bytes.len(), INSTANCE_BYTES);
    assert!(bytes.iter().all(|b| *b == 0));
}

#[test]
fn words_pack_little_endian() {
    let mut model = [0u32; 16];
    model[0] = 0x3F800000; // 1.0f32
    model[1] = 0x04030201;
    let mut color = [0u32; 3];
    color[2] = 0xAABBCCDD;
    let inst = ModelInstance { model, normal: [0u32; 9], color };
    let bytes = inst.to_bytes();
    assert_eq!(&bytes[0..4], &[0x00, 0x00, 0x80, 0x3F]);
    assert_eq!(&bytes[4..8], &[0x01, 0x02, 0x03, 0x04]);
    // the color occupies the last three words
    assert_eq!(&bytes[108..112], &[0xDD, 0xCC, 0xBB, 0xAA]);
    assert_eq!(bytes[0], 1.0f32.to_bits().to_le_bytes()[0]);
    assert_eq!(&bytes[0..4], &1.0f32.to_le_bytes());
}

#[test]
fn instances_pack_back_to_back() {
    let mut a = ModelInstance { model: [0u32; 16], normal: [0u32; 9], color: [0u32; 3] };
    let mut b = a;
    a.model[0] = 7;
    b.color[0] = 9;
    let packed = pack_instances(&[a, b]);
    assert_eq!(packed.len(), 2 * INSTANCE_BYTES);
    assert_eq!(&packed[..INSTANCE_BYTES], a.to_bytes().as_slice());
    assert_eq!(&packed[INSTANCE_BYTES..], b.to_bytes().as_slice());
}

#[test]
fn vertex_buffer_image() {
    let v = MeshVertex { position: [1, 2, 3], normal: [4, 5, 6] };
    let w = MeshVertex { position: [7, 8, 9], normal: [10, 11, 12] };
    let model = Model { vertices: vec![v, w], indices: Vec::new() };
    let bytes = model.vertex_bytes();
    assert_eq!(bytes.len(), 2 * 6 * 4);
    assert_eq!(&bytes[0..4], &[1, 0, 0, 0]);
    assert_eq!(&bytes[20..24], &[6, 0, 0, 0]);
    assert_eq!(&bytes[24..28], &[7, 0, 0, 0]);
}

#[test]
fn index_buffer_image() {
    let model = Model { vertices: Vec::new(), indices: vec![1, 0x0203, 0xFFFE] };
    let bytes = model.index_bytes();
    assert_eq!(bytes, vec![0x01, 0x00, 0x03, 0x02, 0xFE, 0xFF]);
}
