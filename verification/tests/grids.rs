use r_tracer::vector2d::Vector2D;
use r_tracer::vector3d::Vector3D;

#[test]
fn vector2d_new_fills_every_cell() {
    let grid: Vector2D<u32> = Vector2D::new(3, 2, 42);
    assert_eq!(grid.width, 3);
    assert_eq!(grid.height, 2);
    assert_eq!(grid.data.len(), 6);
    assert!(grid.data.iter().all(|&cell| cell == 42));
    assert_eq!(grid.default, 42);
}

#[test]
fn vector2d_index_is_row_major() {
    let grid: Vector2D<u8> = Vector2D::new(4, 3, 0);
    assert_eq!(grid.get_index(0, 0), 0);
    assert_eq!(grid.get_index(0, 3), 3);
    assert_eq!(grid.get_index(1, 0), 4);
    assert_eq!(grid.get_index(2, 3), 11);
}

#[test]
fn vector2d_set_then_get() {
    let mut grid: Vector2D<i64> = Vector2D::new(4, 3, 0);
    assert_eq!(grid.set(1, 2, -5), Some(()));
    assert_eq!(*grid.get(1, 2), -5);
    assert_eq!(*grid.get(0, 0), 0);
    assert_eq!(*grid.get(2, 3), 0);
}

#[test]
fn vector2d_set_out_of_range_is_dropped() {
    let mut grid: Vector2D<u8> = Vector2D::new(2, 2, 1);
    assert_eq!(grid.set(5, 5, 9), None);
    assert!(grid.data.iter().all(|&cell| cell == 1));
}

#[test]
fn vector2d_coords_invert_index() {
    let grid: Vector2D<u8> = Vector2D::new(5, 4, 0);
    for index in 0..grid.data.len() {
        let (row, col) = grid.get_coords(index);
        assert_eq!(grid.get_index(row, col), index);
        assert!(row < grid.height);
        assert!(col < grid.width);
    }
    assert_eq!(grid.get_coords(7), (1, 2));
}

#[test]
fn vector3d_new_fills_every_cell() {
    let grid: Vector3D<u16> = Vector3D::new(2, 3, 4, 7);
    assert_eq!(grid.data.len(), 24);
    assert!(grid.data.iter().all(|&cell| cell == 7));
    assert_eq!(grid.default, 7);
}

#[test]
fn vector3d_index_layers_vary_fastest() {
    let grid: Vector3D<u16> = Vector3D::new(2, 3, 4, 0);
    assert_eq!(grid.get_index(0, 0, 0), 0);
    assert_eq!(grid.get_index(0, 0, 3), 3);
    assert_eq!(grid.get_index(0, 1, 0), 4);
    assert_eq!(grid.get_index(1, 0, 0), 8);
    assert_eq!(grid.get_index(1, 2, 3), 19);
}

#[test]
fn vector3d_get_and_set() {
    let mut grid: Vector3D<u16> = Vector3D::new(2, 3, 4, 0);
    assert_eq!(grid.set(1, 2, 3, 99), Some(()));
    assert_eq!(grid.get(1, 2, 3), Some(&99));
    assert_eq!(grid.get(0, 0, 0), Some(&0));
    assert_eq!(grid.get(9, 9, 9), None);
    assert_eq!(grid.set(9, 9, 9, 1), None);
}
