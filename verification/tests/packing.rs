use r_tracer::buffer::pack_rgb;
use r_tracer::mesh::PrimitiveMeshType;

#[test]
fn pack_rgb_orders_channels_red_high() {
    assert_eq!(pack_rgb(1, 2, 3), 0x010203);
    assert_eq!(pack_rgb(255, 0, 0), 0xFF0000);
    assert_eq!(pack_rgb(0, 255, 0), 0x00FF00);
    assert_eq!(pack_rgb(0, 0, 255), 0x0000FF);
}

#[test]
fn pack_rgb_fits_in_24_bits() {
    assert_eq!(pack_rgb(0, 0, 0), 0);
    assert_eq!(pack_rgb(255, 255, 255), 0x00FFFFFF);
}

#[test]
fn primitive_mesh_types_are_distinct() {
    assert_eq!(PrimitiveMeshType::Sphere, PrimitiveMeshType::Sphere);
    assert_ne!(PrimitiveMeshType::Sphere, PrimitiveMeshType::Triangle);
    assert_ne!(PrimitiveMeshType::Empty, PrimitiveMeshType::Triangle);
}
