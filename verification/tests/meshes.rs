use voxelworld::mesh::{Mesh, MeshVertex, StitchedMesh, WindingDirection};

fn v(x: i32, y: i32, z: i32) -> MeshVertex {
    MeshVertex { x, y, z }
}

fn unit_quad(mesh: &mut Mesh, winding: WindingDirection) {
    mesh.add_quad([v(0, 0, 0), v(1, 0, 0), v(1, 1, 0), v(0, 1, 0)], winding);
}

#[test]
fn clockwise_quad_indices() {
    let mut mesh = Mesh::default();
    unit_quad(&mut mesh, WindingDirection::Clockwise);
    assert_eq!(mesh.vertices().len(), 4);
    assert_eq!(mesh.normals().len(), 1);
    assert_eq!(mesh.indicies(), &[2, 1, 0, 0, 3, 2]);
}

#[test]
fn counter_clockwise_quad_indices() {
    let mut mesh = Mesh::default();
    unit_quad(&mut mesh, WindingDirection::CounterClockwise);
    assert_eq!(mesh.indicies(), &[0, 1, 2, 0, 2, 3]);
}

#[test]
fn second_quad_indices_are_based_at_four() {
    let mut mesh = Mesh::default();
    unit_quad(&mut mesh, WindingDirection::Clockwise);
    unit_quad(&mut mesh, WindingDirection::CounterClockwise);
    assert_eq!(mesh.vertices().len(), 8);
    assert_eq!(mesh.indicies(), &[2, 1, 0, 0, 3, 2, 4, 5, 6, 4, 6, 7]);
}

#[test]
fn quad_normal_is_the_edge_cross_product() {
    let mut mesh = Mesh::default();
    // Edges (1,0,0) and (1,1,0): their cross product points along +z.
    unit_quad(&mut mesh, WindingDirection::Clockwise);
    let n = mesh.normals()[0];
    assert_eq!((n.x, n.y, n.z), (0, 0, 1));

    let mut tilted = Mesh::default();
    tilted.add_quad(
        [v(0, 0, 0), v(0, 1, 0), v(0, 1, 1), v(0, 0, 1)],
        WindingDirection::Clockwise,
    );
    let n = tilted.normals()[0];
    assert_eq!((n.x, n.y, n.z), (1, 0, 0));
}

#[test]
fn produced_meshes_have_valid_indices() {
    let mut mesh = Mesh::default();
    unit_quad(&mut mesh, WindingDirection::Clockwise);
    unit_quad(&mut mesh, WindingDirection::CounterClockwise);
    unit_quad(&mut mesh, WindingDirection::Clockwise);
    assert_eq!(mesh.indicies().len() % 6, 0);
    let vertex_count = mesh.vertices().len() as u32;
    assert!(mesh.indicies().iter().all(|&i| i < vertex_count));
}

#[test]
fn empty_mesh_is_empty() {
    let mesh = Mesh::default();
    assert!(mesh.is_empty());
    let mut grown = Mesh::default();
    unit_quad(&mut grown, WindingDirection::Clockwise);
    assert!(!grown.is_empty());
}

#[test]
fn stitch_rebases_appended_indices_by_vertex_count() {
    let mut a = Mesh::default();
    unit_quad(&mut a, WindingDirection::CounterClockwise);
    let mut b = Mesh::default();
    unit_quad(&mut b, WindingDirection::CounterClockwise);

    let mut stitched = StitchedMesh::default();
    stitched.stich(&a);
    stitched.stich(&b);

    // A's indices are kept; each of B's indices is shifted up by A's four
    // vertices: 0,1,2,3 become 4,5,6,7.
    assert_eq!(stitched.verticies().len(), 8);
    assert_eq!(stitched.normals().len(), 2);
    assert_eq!(stitched.indicies(), &[0, 1, 2, 0, 2, 3, 4, 5, 6, 4, 6, 7]);
}

#[test]
fn stitch_keeps_vertices_in_order() {
    let mut a = Mesh::default();
    a.add_quad([v(0, 0, 0), v(1, 0, 0), v(1, 1, 0), v(0, 1, 0)], WindingDirection::Clockwise);
    let mut b = Mesh::default();
    b.add_quad([v(9, 9, 9), v(10, 9, 9), v(10, 10, 9), v(9, 10, 9)], WindingDirection::Clockwise);

    let mut stitched = StitchedMesh::default();
    stitched.stich(&a);
    stitched.stich(&b);
    assert_eq!(stitched.verticies()[0], v(0, 0, 0));
    assert_eq!(stitched.verticies()[4], v(9, 9, 9));
    let vertex_count = stitched.verticies().len() as u32;
    assert!(stitched.indicies().iter().all(|&i| i < vertex_count));
}
