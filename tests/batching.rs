use demongrep::batching::plan_batches;
use demongrep::database::DbMetadata;
use demongrep::error::DemongrepError;

fn meta(model: &str, dims: u32) -> DbMetadata {
    DbMetadata {
        model_id: model.to_string(),
        model_display_name: String::new(),
        dimensions: dims,
        created_at: 0,
        last_full_index_at: 0,
    }
}

#[test]
fn model_switch_is_a_hard_error() {
    let m = meta("jina-code", 768);
    assert!(m.check_compatible("jina-code", 768, false).is_ok());
    match m.check_compatible("bge-small-q", 384, false) {
        Err(DemongrepError::DatabaseError { message }) => {
            assert_eq!(message, "model/dimension mismatch: store has jina-code, expected bge-small-q");
        }
        _ => panic!("expected a mismatch error"),
    }
    assert!(m.check_compatible("jina-code", 384, false).is_err());
    assert!(m.check_compatible("bge-small-q", 384, true).is_ok());
}

#[test]
fn batches_cover_inputs_in_order() {
    assert_eq!(plan_batches(600, 256), vec![(0, 256), (256, 512), (512, 600)]);
    assert_eq!(plan_batches(256, 256), vec![(0, 256)]);
    assert!(plan_batches(0, 64).is_empty());
}
