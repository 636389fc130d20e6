use voxgen::buffer::{Rgba, VolumeBuffer, Voxel};

#[test]
fn len_counts_bytes() {
    assert_eq!(VolumeBuffer::<Rgba>::len(2, 3, 4), Some(96));
    assert_eq!(VolumeBuffer::<Rgba>::len(0, 7, 7), Some(0));
    assert_eq!(VolumeBuffer::<Rgba>::len(u32::MAX, u32::MAX, u32::MAX), None);
}

#[test]
fn new_buffer_is_zero_filled() {
    let vol = VolumeBuffer::<Rgba>::new(4, 3, 2);
    assert_eq!(vol.width(), 4);
    assert_eq!(vol.depth(), 3);
    assert_eq!(vol.height(), 2);
    for x in 0..4 {
        for y in 0..3 {
            for z in 0..2 {
                assert_eq!(*vol.get(x, y, z), Rgba([0, 0, 0, 0]));
            }
        }
    }
}

#[test]
fn index_coordinate_round_trip() {
    let vol = VolumeBuffer::<Rgba>::new(4, 5, 6);
    for x in 0..4 {
        for y in 0..5 {
            for z in 0..6 {
                let id = vol.id(x, y, z).unwrap();
                assert_eq!(vol.coordinate(id), Some((x, y, z)));
            }
        }
    }
}

#[test]
fn id_is_row_major() {
    let vol = VolumeBuffer::<Rgba>::new(4, 5, 6);
    assert_eq!(vol.id(0, 0, 0), Some(0));
    assert_eq!(vol.id(1, 0, 0), Some(1));
    assert_eq!(vol.id(0, 1, 0), Some(4));
    assert_eq!(vol.id(0, 0, 1), Some(20));
    assert_eq!(vol.id(3, 4, 5), Some(3 + 4 * 4 + 5 * 20));
}

#[test]
fn coordinate_index_round_trip() {
    let vol = VolumeBuffer::<Rgba>::new(4, 5, 6);
    for i in 0..(4 * 5 * 6) {
        let (x, y, z) = vol.coordinate(i).unwrap();
        assert_eq!(vol.id(x, y, z), Some(i));
    }
}

#[test]
fn id_rejects_out_of_range() {
    let vol = VolumeBuffer::<Rgba>::new(4, 5, 6);
    assert_eq!(vol.id(4, 0, 0), None);
    assert_eq!(vol.id(0, 5, 0), None);
    assert_eq!(vol.id(0, 0, 6), None);
    assert_eq!(vol.coordinate(120), None);
}

#[test]
fn get_mut_writes_one_cell() {
    let mut vol = VolumeBuffer::<Rgba>::new(3, 3, 3);
    *vol.get_mut(1, 2, 0) = Rgba([9, 8, 7, 255]);
    assert_eq!(*vol.get(1, 2, 0), Rgba([9, 8, 7, 255]));
    assert_eq!(*vol.get(2, 1, 0), Rgba([0, 0, 0, 0]));
    let id = vol.id(1, 2, 0).unwrap();
    assert_eq!(*vol.get_id(id), Rgba([9, 8, 7, 255]));
    *vol.get_id_mut(id) = Rgba([1, 2, 3, 4]);
    assert_eq!(*vol.get(1, 2, 0), Rgba([1, 2, 3, 4]));
}

#[test]
fn enumerate_visits_every_cell_once_in_order() {
    let mut vol = VolumeBuffer::<Rgba>::new(2, 3, 4);
    let id = vol.id(1, 2, 3).unwrap();
    *vol.get_id_mut(id) = Rgba([5, 5, 5, 5]);
    let mut cursor = vol.enumerate_voxels();
    let mut count: usize = 0;
    let mut expected_id: usize = 0;
    while let Some((x, y, z, v)) = cursor.next() {
        assert_eq!(vol.id(x, y, z), Some(expected_id));
        assert_eq!(v, *vol.get_id(expected_id));
        expected_id += 1;
        count += 1;
    }
    assert_eq!(count, 2 * 3 * 4);
    // Restartable: a fresh cursor walks the volume again.
    let mut again = vol.enumerate_voxels();
    assert_eq!(again.next().map(|(x, y, z, _)| (x, y, z)), Some((0, 0, 0)));
}

#[test]
fn enumerate_order_is_x_fastest() {
    let vol = VolumeBuffer::<Rgba>::new(2, 2, 2);
    let mut cursor = vol.enumerate_voxels();
    let mut coords = Vec::new();
    while let Some((x, y, z, _)) = cursor.next() {
        coords.push((x, y, z));
    }
    assert_eq!(
        coords,
        vec![
            (0, 0, 0),
            (1, 0, 0),
            (0, 1, 0),
            (1, 1, 0),
            (0, 0, 1),
            (1, 0, 1),
            (0, 1, 1),
            (1, 1, 1),
        ]
    );
}

#[test]
fn enumerate_mut_overwrites_cells() {
    let vol = VolumeBuffer::<Rgba>::new(2, 2, 1);
    let mut cursor = vol.enumerate_voxels_mut();
    while let Some((x, _y, _z, _v)) = cursor.next() {
        if x == 1 {
            cursor.set(Rgba([7, 7, 7, 255]));
        }
    }
    let vol = cursor.into_buffer();
    assert_eq!(*vol.get(0, 0, 0), Rgba([0, 0, 0, 0]));
    assert_eq!(*vol.get(1, 0, 0), Rgba([7, 7, 7, 255]));
    assert_eq!(*vol.get(0, 1, 0), Rgba([0, 0, 0, 0]));
    assert_eq!(*vol.get(1, 1, 0), Rgba([7, 7, 7, 255]));
}

#[test]
fn voxel_byte_round_trip() {
    let red = Rgba([255, 0, 0, 255]);
    let bytes = red.to_bytes();
    assert_eq!(bytes, vec![255, 0, 0, 255]);
    assert_eq!(Rgba::from_bytes(&bytes), red);
    assert_eq!(Rgba::width(), 4);
    assert_eq!(Rgba::zeroed(), Rgba([0, 0, 0, 0]));
}
