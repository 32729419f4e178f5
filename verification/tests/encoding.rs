use accelstruct::device::Device;
use accelstruct::encoder::{BlasBuildEntry, CommandEncoder};
use accelstruct::types::{
    Blas, CreateBlasDescriptor, EncodeError, GeometryDescriptor, GeometryFlags, StructureFlags,
    TriangleGeometry, UpdateMode, VertexFormat,
};

fn triangle_descriptor() -> GeometryDescriptor {
    GeometryDescriptor {
        vertex_format: VertexFormat::Float32x3,
        vertex_count: 3,
        index_count: None,
        flags: GeometryFlags::Empty,
    }
}

fn make_blas(device: &mut Device) -> Blas {
    device.create_blas(
        &CreateBlasDescriptor {
            label: None,
            flags: StructureFlags::PreferFastBuild,
            update_mode: UpdateMode::Build,
        },
        vec![triangle_descriptor()],
    )
}

fn good_entry(blas: &Blas) -> BlasBuildEntry {
    BlasBuildEntry {
        blas: blas.clone(),
        geometries: vec![TriangleGeometry {
            size: triangle_descriptor(),
            first_vertex: 0,
            vertex_stride: 12,
        }],
    }
}

#[test]
fn undersized_stride_is_a_structural_mismatch() {
    let mut device = Device::new();
    let blas = make_blas(&mut device);

    let mut encoder = CommandEncoder::new();
    let bad = BlasBuildEntry {
        blas: blas.clone(),
        geometries: vec![TriangleGeometry {
            size: triangle_descriptor(),
            first_vertex: 0,
            vertex_stride: 8,
        }],
    };
    assert_eq!(
        encoder.build_acceleration_structures(&vec![bad], &vec![]),
        Err(EncodeError::StructuralMismatch { entry_index: 0 })
    );
}

#[test]
fn size_descriptor_must_repeat_the_declared_one() {
    let mut device = Device::new();
    let blas = make_blas(&mut device);

    let mut encoder = CommandEncoder::new();
    let wrong_count = GeometryDescriptor {
        vertex_count: 6,
        ..triangle_descriptor()
    };
    let bad = BlasBuildEntry {
        blas: blas.clone(),
        geometries: vec![TriangleGeometry {
            size: wrong_count,
            first_vertex: 0,
            vertex_stride: 12,
        }],
    };
    // The good entry before the bad one is named: the first offender wins.
    assert_eq!(
        encoder.build_acceleration_structures(&vec![good_entry(&blas), bad], &vec![]),
        Err(EncodeError::StructuralMismatch { entry_index: 1 })
    );
}

#[test]
fn geometry_count_must_match_declared_count() {
    let mut device = Device::new();
    let blas = make_blas(&mut device);

    let mut encoder = CommandEncoder::new();
    let empty_geometries = BlasBuildEntry {
        blas: blas.clone(),
        geometries: vec![],
    };
    assert_eq!(
        encoder.build_acceleration_structures(&vec![empty_geometries], &vec![]),
        Err(EncodeError::StructuralMismatch { entry_index: 0 })
    );
}

#[test]
fn failed_record_call_appends_nothing() {
    // After a structural mismatch the log is unchanged: finishing and
    // submitting the encoder behaves as if the failed call never happened.
    let mut device = Device::new();
    let blas = make_blas(&mut device);

    let mut encoder = CommandEncoder::new();
    let bad = BlasBuildEntry {
        blas: blas.clone(),
        geometries: vec![],
    };
    assert!(encoder
        .build_acceleration_structures(&vec![bad], &vec![])
        .is_err());
    encoder
        .build_acceleration_structures(&vec![good_entry(&blas)], &vec![])
        .unwrap();

    device.submit(&vec![encoder.finish()]);
    assert!(!device.has_errors());
}

#[test]
fn no_error_pending_on_a_fresh_device() {
    let mut device = Device::new();
    assert!(!device.has_errors());
    assert_eq!(device.pop_error(), None);
}
