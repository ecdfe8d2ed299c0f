use pathtracer::ui::{hash_id, push_indices, Interaction};
use std::hash::{Hash, Hasher};

#[test]
fn hash_id_matches_default_hasher() {
    let mut h = std::collections::hash_map::DefaultHasher::new();
    "Restart".hash(&mut h);
    assert_eq!(hash_id("Restart"), h.finish());
}

#[test]
fn hash_id_is_stable_and_tells_labels_apart() {
    assert_eq!(hash_id("a"), hash_id("a"));
    assert_ne!(hash_id("a"), hash_id("b"));
    assert_ne!(hash_id(""), hash_id(" "));
}

#[test]
fn button_clicks_on_release_over_it() {
    let id = hash_id("go");
    let mut ix = Interaction::new();
    assert!(!ix.button(id, true, true));
    assert_eq!(ix.active_id, Some(id));
    ix.end_frame(true);
    assert!(ix.is_active(id));
    assert!(ix.button(id, true, false));
    ix.end_frame(false);
    assert_eq!(ix.active_id, None);
}

#[test]
fn button_released_elsewhere_does_not_click() {
    let mut ix = Interaction::new();
    assert!(!ix.button(1, true, true));
    assert!(!ix.button(1, false, false));
    ix.end_frame(false);
    assert!(!ix.is_active(1));
}

#[test]
fn second_button_cannot_take_mouse() {
    let mut ix = Interaction::new();
    assert!(!ix.button(1, true, true));
    assert!(!ix.button(2, true, true));
    assert_eq!(ix.active_id, Some(1));
    assert!(!ix.button(2, true, false));
}

#[test]
fn indices_offset_by_vertex_count() {
    let mut idx = vec![9];
    push_indices(&mut idx, 4, &[0, 1, 2, 1, 3, 2]);
    assert_eq!(idx, vec![9, 4, 5, 6, 5, 7, 6]);
    push_indices(&mut idx, 0, &[]);
    assert_eq!(idx.len(), 7);
}

#[test]
fn indices_reach_largest_vertex_number() {
    let mut idx = Vec::new();
    push_indices(&mut idx, u32::MAX - 3, &[0, 1, 2, 1, 3, 2]);
    assert_eq!(idx, vec![u32::MAX - 3, u32::MAX - 2, u32::MAX - 1, u32::MAX - 2, u32::MAX, u32::MAX - 1]);
}
