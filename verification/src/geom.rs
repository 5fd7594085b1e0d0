//! The layout of the scene's built-in geometry: which corner, normal and
//! texture coordinate each vertex takes, and which vertices each triangle
//! joins. The coordinates themselves are the renderer's.
use vstd::prelude::*;

verus! {

/// The faces of a box.
pub const CUBE_FACES: usize = 6;

/// The vertices of one face, and of the screen quad.
pub const FACE_VERTICES: usize = 4;

/// The indices that two triangles take to cover one face.
pub const FACE_INDICES: usize = 6;

/// One vertex of a box: the corner it sits on, of eight, the normal of its
/// face, of six, and its texture coordinate, of four.
#[derive(Clone, Copy, PartialEq, Eq, Structural, Debug)]
pub struct CubeVertex {
    pub position: u8,
    pub normal: u8,
    pub tex_coord: u8,
}

/// The corners of face `face`, in the order of its vertices.
pub open spec fn face_corners(face: int) -> Seq<u8> {
    if face == 0 {
        seq![0u8, 1u8, 3u8, 2u8]
    } else if face == 1 {
        seq![5u8, 4u8, 6u8, 7u8]
    } else if face == 2 {
        seq![4u8, 5u8, 1u8, 0u8]
    } else if face == 3 {
        seq![2u8, 3u8, 7u8, 6u8]
    } else if face == 4 {
        seq![4u8, 0u8, 2u8, 6u8]
    } else {
        seq![1u8, 5u8, 7u8, 3u8]
    }
}

/// The texture coordinates of a face, in the order of its vertices.
pub open spec fn face_tex_coords() -> Seq<u8> {
    seq![0u8, 1u8, 3u8, 2u8]
}

/// The two triangles of a face, over the four vertices of the face.
pub open spec fn face_triangles() -> Seq<u32> {
    seq![0u32, 2u32, 1u32, 0u32, 3u32, 2u32]
}

/// The vertex `k` of face `face`.
pub open spec fn cube_vertex(face: int, k: int) -> CubeVertex {
    CubeVertex {
        position: face_corners(face)[k],
        normal: face as u8,
        tex_coord: face_tex_coords()[k],
    }
}

/// The vertices of a box: four to a face, face after face.
pub fn cube_vertices() -> (vertices: Vec<CubeVertex>)
    ensures
        vertices@.len() == CUBE_FACES * FACE_VERTICES,
        forall|face: int, k: int|
            0 <= face < CUBE_FACES && 0 <= k < FACE_VERTICES ==> #[trigger] vertices@[face * 4 + k]
                == cube_vertex(face, k),
        forall|i: int|
            0 <= i < vertices@.len() ==> (#[trigger] vertices@[i]).position < 8 && vertices@[i].normal
                < 6 && vertices@[i].tex_coord < 4,
{
    let corners: [[u8; 4]; 6] = [
        [0, 1, 3, 2],
        [5, 4, 6, 7],
        [4, 5, 1, 0],
        [2, 3, 7, 6],
        [4, 0, 2, 6],
        [1, 5, 7, 3],
    ];
    let tex_coords: [u8; 4] = [0, 1, 3, 2];
    let mut vertices: Vec<CubeVertex> = Vec::new();
    let mut face: usize = 0;
    while face < CUBE_FACES
        invariant
            0 <= face <= CUBE_FACES,
            vertices@.len() == face * 4,
            forall|f: int| 0 <= f < 6 ==> (#[trigger] corners@[f])@ == face_corners(f),
            tex_coords@ == face_tex_coords(),
            forall|f: int, k: int|
                0 <= f < face && 0 <= k < FACE_VERTICES ==> #[trigger] vertices@[f * 4 + k]
                    == cube_vertex(f, k),
            forall|i: int|
                0 <= i < vertices@.len() ==> (#[trigger] vertices@[i]).position < 8
                    && vertices@[i].normal < 6 && vertices@[i].tex_coord < 4,
        decreases CUBE_FACES - face,
    {
        let mut k: usize = 0;
        while k < FACE_VERTICES
            invariant
                0 <= face < CUBE_FACES,
                0 <= k <= FACE_VERTICES,
                vertices@.len() == face * 4 + k,
                forall|f: int| 0 <= f < 6 ==> (#[trigger] corners@[f])@ == face_corners(f),
                tex_coords@ == face_tex_coords(),
                forall|f: int, j: int|
                    0 <= f < face && 0 <= j < FACE_VERTICES ==> #[trigger] vertices@[f * 4 + j]
                        == cube_vertex(f, j),
                forall|j: int| 0 <= j < k ==> #[trigger] vertices@[face * 4 + j] == cube_vertex(
                    face as int,
                    j,
                ),
                forall|i: int|
                    0 <= i < vertices@.len() ==> (#[trigger] vertices@[i]).position < 8
                        && vertices@[i].normal < 6 && vertices@[i].tex_coord < 4,
            decreases FACE_VERTICES - k,
        {
            assert(corners@[face as int]@ == face_corners(face as int));
            let vertex = CubeVertex {
                position: corners[face][k],
                normal: face as u8,
                tex_coord: tex_coords[k],
            };
            vertices.push(vertex);
            k = k + 1;
        }
        face = face + 1;
    }
    vertices
}

/// The triangles of a box: for each face the two of `face_triangles`, over
/// the four vertices of that face.
pub fn cube_indices() -> (index: Vec<u32>)
    ensures
        index@.len() == CUBE_FACES * FACE_INDICES,
        forall|face: int, j: int|
            0 <= face < CUBE_FACES && 0 <= j < FACE_INDICES ==> #[trigger] index@[face * 6 + j]
                == face_triangles()[j] + face * 4,
        forall|i: int| 0 <= i < index@.len() ==> (#[trigger] index@[i]) < CUBE_FACES * FACE_VERTICES,
{
    let indicies: [u32; 6] = [0, 2, 1, 0, 3, 2];
    let mut index: Vec<u32> = Vec::new();
    let mut i: u32 = 0;
    while i < 6
        invariant
            0 <= i <= 6,
            index@.len() == i * 6,
            indicies@ == face_triangles(),
            forall|face: int, j: int|
                0 <= face < i && 0 <= j < FACE_INDICES ==> #[trigger] index@[face * 6 + j]
                    == face_triangles()[j] + face * 4,
            forall|n: int| 0 <= n < index@.len() ==> (#[trigger] index@[n]) < 24,
        decreases 6 - i,
    {
        let mut j: usize = 0;
        while j < FACE_INDICES
            invariant
                0 <= i < 6,
                0 <= j <= FACE_INDICES,
                index@.len() == i * 6 + j,
                indicies@ == face_triangles(),
                forall|face: int, m: int|
                    0 <= face < i && 0 <= m < FACE_INDICES ==> #[trigger] index@[face * 6 + m]
                        == face_triangles()[m] + face * 4,
                forall|m: int| 0 <= m < j ==> #[trigger] index@[i * 6 + m] == face_triangles()[m]
                    + i * 4,
                forall|n: int| 0 <= n < index@.len() ==> (#[trigger] index@[n]) < 24,
            decreases FACE_INDICES - j,
        {
            index.push(indicies[j] + i * 4);
            j = j + 1;
        }
        i = i + 1;
    }
    index
}

/// The two triangles of the quad that covers the screen, over its four
/// vertices.
pub fn quad_indices() -> (index: Vec<u32>)
    ensures
        index@ == seq![0u32, 3u32, 2u32, 0u32, 2u32, 1u32],
        forall|i: int| 0 <= i < index@.len() ==> (#[trigger] index@[i]) < FACE_VERTICES,
{
    let index = vec![0u32, 3u32, 2u32, 0u32, 2u32, 1u32];
    assert(index@ =~= seq![0u32, 3u32, 2u32, 0u32, 2u32, 1u32]);
    index
}

} // verus!
