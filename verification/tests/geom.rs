use shader_store::geom::{
    cube_indices, cube_vertices, quad_indices, CubeVertex, CUBE_FACES, FACE_INDICES, FACE_VERTICES,
};

#[test]
fn a_box_has_four_vertices_to_a_face() {
    let vertices = cube_vertices();
    assert_eq!(vertices.len(), CUBE_FACES * FACE_VERTICES);
    assert_eq!(vertices[0], CubeVertex { position: 0, normal: 0, tex_coord: 0 });
    assert_eq!(vertices[1], CubeVertex { position: 1, normal: 0, tex_coord: 1 });
    assert_eq!(vertices[2], CubeVertex { position: 3, normal: 0, tex_coord: 3 });
    assert_eq!(vertices[3], CubeVertex { position: 2, normal: 0, tex_coord: 2 });
    assert_eq!(vertices[4], CubeVertex { position: 5, normal: 1, tex_coord: 0 });
    assert_eq!(vertices[11], CubeVertex { position: 0, normal: 2, tex_coord: 2 });
    assert_eq!(vertices[23], CubeVertex { position: 3, normal: 5, tex_coord: 2 });
    let corners: Vec<u8> = vertices.iter().map(|v| v.position).collect();
    assert_eq!(
        corners,
        vec![0, 1, 3, 2, 5, 4, 6, 7, 4, 5, 1, 0, 2, 3, 7, 6, 4, 0, 2, 6, 1, 5, 7, 3]
    );
    for corner in 0..8u8 {
        assert_eq!(corners.iter().filter(|c| **c == corner).count(), 3);
    }
}

#[test]
fn a_box_has_two_triangles_to_a_face() {
    let index = cube_indices();
    assert_eq!(index.len(), CUBE_FACES * FACE_INDICES);
    assert_eq!(&index[0..6], &[0, 2, 1, 0, 3, 2]);
    assert_eq!(&index[6..12], &[4, 6, 5, 4, 7, 6]);
    assert_eq!(&index[30..36], &[20, 22, 21, 20, 23, 22]);
    assert!(index.iter().all(|i| (*i as usize) < CUBE_FACES * FACE_VERTICES));
}

#[test]
fn the_screen_quad_has_two_triangles() {
    assert_eq!(quad_indices(), vec![0, 3, 2, 0, 2, 1]);
}
