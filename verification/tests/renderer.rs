use instance_store::error::Error;
use instance_store::model::{Model, ModelInstance, INSTANCE_BYTES};
use instance_store::renderer::{Renderer, INITIAL_INSTANCE_BUFFER_BYTES, MAX_INSTANCES};

fn test_instance(tag: u32) -> ModelInstance {
    let mut model = [0u32; 16];
    model[0] = tag;
    ModelInstance { model, normal: [0u32; 9], color: [tag, tag, tag] }
}

fn quad() -> Model {
    Model { vertices: Vec::new(), indices: vec![0, 1, 2, 2, 3, 0] }
}

#[test]
fn model_ids_are_sequential() {
    let mut r = Renderer::new();
    assert_eq!(r.num_models(), 0);
    assert_eq!(r.add_model(quad()), 0);
    assert_eq!(r.add_model(quad()), 1);
    assert_eq!(r.add_model(quad()), 2);
    assert_eq!(r.num_models(), 3);
}

#[test]
fn add_instance_to_unknown_model_fails() {
    let mut r = Renderer::new();
    let _ = r.add_model(quad());
    assert_eq!(r.add_instance(1, test_instance(1)), Err(Error::ModelIndexOutOfRange));
}

#[test]
fn instance_resolves_until_removed() {
    let mut r = Renderer::new();
    let id = r.add_model(quad());
    let h1 = r.add_instance(id, test_instance(1)).unwrap();
    let h2 = r.add_instance(id, test_instance(2)).unwrap();
    assert_eq!(r.instance(h1), Ok(&test_instance(1)));
    assert_eq!(r.instance(h2), Ok(&test_instance(2)));
    assert_eq!(r.remove_instance(h1), Ok(()));
    assert_eq!(r.instance(h1), Err(Error::InvalidKey));
    assert_eq!(r.instance(h2), Ok(&test_instance(2)));
}

#[test]
fn double_remove_fails_every_time() {
    let mut r = Renderer::new();
    let id = r.add_model(quad());
    let h = r.add_instance(id, test_instance(9)).unwrap();
    assert_eq!(r.remove_instance(h), Ok(()));
    assert_eq!(r.remove_instance(h), Err(Error::InvalidKey));
    assert_eq!(r.remove_instance(h), Err(Error::InvalidKey));
    assert_eq!(r.instance_count(id), 0);
}

#[test]
fn draw_count_is_inserts_minus_removals() {
    // interleaved inserts and removals; the count a draw submits is n - m
    let mut r = Renderer::new();
    let id = r.add_model(quad());
    let mut handles = Vec::new();
    let mut inserts = 0u32;
    let mut removals = 0u32;
    for round in 0..12u32 {
        handles.push(r.add_instance(id, test_instance(round)).unwrap());
        inserts += 1;
        if round % 3 == 2 {
            let h = handles.remove(0);
            assert_eq!(r.remove_instance(h), Ok(()));
            removals += 1;
        }
    }
    let draws = r.draw_commands();
    assert_eq!(draws.len(), 1);
    assert_eq!(draws[0].model, id);
    assert_eq!(draws[0].index_count, 6);
    assert_eq!(draws[0].instance_count as u32, inserts - removals);
    assert_eq!(draws[0].instance_count, 12 - 4);
}

#[test]
fn sync_uploads_exactly_the_dirty_models() {
    let mut r = Renderer::new();
    let a = r.add_model(quad());
    let b = r.add_model(quad());
    let c = r.add_model(quad());
    assert!(!r.is_dirty(a) && !r.is_dirty(b) && !r.is_dirty(c));
    let _ = r.add_instance(a, test_instance(1)).unwrap();
    let _ = r.add_instance(c, test_instance(2)).unwrap();
    let _ = r.add_instance(c, test_instance(3)).unwrap();
    assert!(r.is_dirty(a) && !r.is_dirty(b) && r.is_dirty(c));

    let cmds = r.sync_uploads();
    assert_eq!(cmds.len(), 2);
    assert_eq!(cmds[0].model, a);
    assert_eq!(cmds[0].buffer_bytes, INITIAL_INSTANCE_BUFFER_BYTES);
    assert_eq!(cmds[0].data, test_instance(1).to_bytes());
    assert_eq!(cmds[1].model, c);
    let mut expected = test_instance(2).to_bytes();
    expected.extend_from_slice(&test_instance(3).to_bytes());
    assert_eq!(cmds[1].data, expected);

    assert!(!r.is_dirty(a) && !r.is_dirty(b) && !r.is_dirty(c));
    assert_eq!(r.sync_uploads().len(), 0);
}

#[test]
fn removal_marks_the_model_dirty_again() {
    let mut r = Renderer::new();
    let id = r.add_model(quad());
    let h1 = r.add_instance(id, test_instance(1)).unwrap();
    let _h2 = r.add_instance(id, test_instance(2)).unwrap();
    let _ = r.sync_uploads();
    assert!(!r.is_dirty(id));
    assert_eq!(r.remove_instance(h1), Ok(()));
    assert!(r.is_dirty(id));
    let cmds = r.sync_uploads();
    assert_eq!(cmds.len(), 1);
    assert_eq!(cmds[0].data.len(), INSTANCE_BYTES);
    assert_eq!(cmds[0].data, test_instance(2).to_bytes());
}

#[test]
fn instance_buffer_grows_when_outgrown() {
    let mut r = Renderer::new();
    let id = r.add_model(quad());
    let within = INITIAL_INSTANCE_BUFFER_BYTES / INSTANCE_BYTES;
    for tag in 0..(within as u32) {
        r.add_instance(id, test_instance(tag)).unwrap();
    }
    let cmds = r.sync_uploads();
    assert_eq!(cmds[0].buffer_bytes, INITIAL_INSTANCE_BUFFER_BYTES);
    r.add_instance(id, test_instance(9999)).unwrap();
    let cmds = r.sync_uploads();
    assert!(cmds[0].buffer_bytes >= INSTANCE_BYTES * (within + 1));
    assert_eq!(cmds[0].data.len(), INSTANCE_BYTES * (within + 1));
}

#[test]
fn model_fills_to_capacity_then_rejects() {
    let mut r = Renderer::new();
    let id = r.add_model(quad());
    for tag in 0..(MAX_INSTANCES as u32) {
        assert!(r.add_instance(id, test_instance(tag)).is_ok());
    }
    assert_eq!(r.instance_count(id), MAX_INSTANCES);
    assert_eq!(r.add_instance(id, test_instance(0)), Err(Error::CapacityExceeded));
    assert_eq!(r.instance_count(id), MAX_INSTANCES);
    assert_eq!(r.draw_commands()[0].instance_count, MAX_INSTANCES);
}
