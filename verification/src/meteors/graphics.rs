use vstd::prelude::*;

verus! {

/// The index list that draws a triangle strip of `vertex_count` vertices (counted modulo
/// 65536) as separate triangles: triangle `k` is made of vertices `k`, `k + 1` and `k + 2`.
pub fn generate_triangle_strip_indices(vertex_count: usize) -> (r: Vec<u16>)
    requires
        vertex_count > 2 ==> vertex_count % 65536 >= 2,
    ensures
        vertex_count <= 2 ==> r@.len() == 0,
        vertex_count > 2 ==> r@.len() == 3 * (vertex_count % 65536 - 2),
        forall|i: int| 0 <= i < r@.len() ==> #[trigger] r@[i] == i / 3 + i % 3,
{
    let mut indices: Vec<u16> = Vec::new();
    if vertex_count > 2 {
        let count: u16 = (vertex_count % 65536) as u16;
        let triangles: u16 = count - 2;
        let mut first: u16 = 0;
        while first < triangles
            invariant
                triangles == vertex_count % 65536 - 2,
                0 <= first <= triangles,
                indices@.len() == 3 * first,
                forall|i: int| 0 <= i < indices@.len() ==> #[trigger] indices@[i] == i / 3 + i % 3,
            decreases triangles - first,
        {
            let ghost before = indices@;
            indices.push(first);
            indices.push(first + 1);
            indices.push(first + 2);
            assert forall|i: int| 0 <= i < indices@.len() implies #[trigger] indices@[i] == i / 3 + i % 3 by {
                if i >= before.len() {
                    assert(i / 3 == first as int);
                } else {
                    assert(indices@[i] == before[i]);
                }
            }
            first += 1;
        }
    }
    indices
}

} // verus!
