use vstd::prelude::*;

verus! {

/// What std's `DefaultHasher` gives for a string.
pub uninterp spec fn str_hash_of(s: Seq<char>) -> u64;

/// Relies on std's DefaultHasher: one made by `DefaultHasher::new` always
/// starts from the same keys, so the hash depends on the string alone.
#[verifier::external_body]
fn default_hash(s: &str) -> (r: u64)
    ensures
        r == str_hash_of(s@),
{
    let mut h = std::collections::hash_map::DefaultHasher::new();
    std::hash::Hash::hash(s, &mut h);
    std::hash::Hasher::finish(&h)
}

/// The identity of a widget, from its label.
pub fn hash_id(s: &str) -> (r: u64)
    ensures
        r == str_hash_of(s@),
{
    default_hash(s)
}

/// Which widget, if any, holds the mouse: the one that was pressed while
/// the cursor was over it, until the primary button is released.
#[derive(Clone, Copy, Debug, PartialEq, Eq, Structural)]
pub struct Interaction {
    pub active_id: Option<u64>,
}

impl Interaction {
    /// No widget is active.
    pub fn new() -> (r: Interaction)
        ensures
            r.active_id is None,
    {
        Interaction { active_id: None }
    }

    /// Whether the widget `id` holds the mouse.
    pub fn is_active(&self, id: u64) -> (r: bool)
        ensures
            r == (self.active_id == Some(id)),
    {
        match self.active_id {
            Some(a) => a == id,
            None => false,
        }
    }

    /// A button `id` this frame. It becomes active when pressed while
    /// hovered and no widget is active; it is clicked when the cursor is
    /// over it with the button released while it is active.
    pub fn button(&mut self, id: u64, hovered: bool, mouse_down: bool) -> (clicked: bool)
        ensures
            clicked == (hovered && !mouse_down && old(self).active_id == Some(id)),
            final(self).active_id == (if hovered && mouse_down && old(self).active_id is None {
                Some(id)
            } else {
                old(self).active_id
            }),
    {
        let active = self.is_active(id);
        if hovered {
            if mouse_down {
                if self.active_id.is_none() {
                    self.active_id = Some(id);
                }
            } else if active {
                return true;
            }
        }
        false
    }

    /// The end of a frame: once the primary button is up no widget is active.
    pub fn end_frame(&mut self, mouse_down: bool)
        ensures
            final(self).active_id == (if mouse_down {
                old(self).active_id
            } else {
                None
            }),
    {
        if !mouse_down {
            self.active_id = None;
        }
    }
}

/// Appends `indices`, each offset by the number of vertices already in the
/// buffer, so that they name the vertices pushed next.
pub fn push_indices(idx_buf: &mut Vec<u32>, vertex_count: u32, indices: &[u32])
    requires
        forall|i: int| 0 <= i < indices@.len() ==> indices@[i] + vertex_count <= u32::MAX,
    ensures
        final(idx_buf)@.len() == old(idx_buf)@.len() + indices@.len(),
        final(idx_buf)@.take(old(idx_buf)@.len() as int) == old(idx_buf)@,
        forall|i: int|
            0 <= i < indices@.len() ==> #[trigger] final(idx_buf)@[old(idx_buf)@.len() + i]
                == indices@[i] + vertex_count,
{
    let ghost start = idx_buf@;
    let mut k: usize = 0;
    while k < indices.len()
        invariant
            k <= indices@.len(),
            idx_buf@.len() == start.len() + k,
            idx_buf@.take(start.len() as int) == start,
            forall|i: int|
                0 <= i < indices@.len() ==> indices@[i] + vertex_count <= u32::MAX,
            forall|i: int|
                0 <= i < k ==> #[trigger] idx_buf@[start.len() + i] == indices@[i]
                    + vertex_count,
        decreases indices@.len() - k,
    {
        let ghost before = idx_buf@;
        idx_buf.push(indices[k] + vertex_count);
        assert(idx_buf@.take(start.len() as int) =~= before.take(start.len() as int));
        k = k + 1;
    }
}

} // verus!
