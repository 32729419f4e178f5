use accelstruct::device::Device;
use accelstruct::encoder::{BlasBuildEntry, CommandEncoder};
use accelstruct::types::{
    Blas, CreateBlasDescriptor, CreateTlasDescriptor, GeometryDescriptor, GeometryFlags,
    StructureFlags, TlasInstance, TlasPackage, TriangleGeometry, UpdateMode, VertexFormat,
    Violation,
};

fn triangle_descriptor() -> GeometryDescriptor {
    GeometryDescriptor {
        vertex_format: VertexFormat::Float32x3,
        vertex_count: 3,
        index_count: None,
        flags: GeometryFlags::Empty,
    }
}

fn make_blas(device: &mut Device) -> Blas {
    device.create_blas(
        &CreateBlasDescriptor {
            label: Some(String::from("BLAS")),
            flags: StructureFlags::PreferFastTrace,
            update_mode: UpdateMode::Build,
        },
        vec![triangle_descriptor()],
    )
}

fn make_package(device: &mut Device, blas: &Blas) -> TlasPackage {
    let tlas = device.create_tlas(&CreateTlasDescriptor {
        label: Some(String::from("TLAS")),
        max_instances: 1,
        flags: StructureFlags::PreferFastTrace,
        update_mode: UpdateMode::Build,
    });
    let mut package = TlasPackage::new(tlas);
    package.set_slot(0, Some(TlasInstance::new(blas, identity_transform(), 0, 0xFF)));
    package
}

fn identity_transform() -> [u32; 12] {
    let one: u32 = 1.0f32.to_bits();
    let zero: u32 = 0.0f32.to_bits();
    [one, zero, zero, zero, one, zero, zero, zero, one, zero, zero, zero]
}

fn blas_entry(blas: &Blas) -> BlasBuildEntry {
    BlasBuildEntry {
        blas: blas.clone(),
        geometries: vec![TriangleGeometry {
            size: triangle_descriptor(),
            first_vertex: 0,
            vertex_stride: 12,
        }],
    }
}

#[test]
fn unbuilt_blas() {
    let mut device = Device::new();
    let blas = make_blas(&mut device);
    let package = make_package(&mut device, &blas);

    let mut encoder = CommandEncoder::new();
    encoder
        .build_acceleration_structures(&vec![], &vec![package.clone()])
        .unwrap();

    device.submit(&vec![encoder.finish()]);
    assert!(device.has_errors());
    assert_eq!(
        device.pop_error(),
        Some(Violation::UnbuiltDependency {
            tlas_id: package.tlas().id,
            blas_id: blas.id,
        })
    );
}

#[test]
fn out_of_order_as_build() {
    // Encode the TLAS build before the BLAS build, but submit them in the
    // right order: accepted.
    let mut device = Device::new();
    let blas = make_blas(&mut device);
    let package = make_package(&mut device, &blas);

    let mut encoder_tlas = CommandEncoder::new();
    encoder_tlas
        .build_acceleration_structures(&vec![], &vec![package.clone()])
        .unwrap();
    let mut encoder_blas = CommandEncoder::new();
    encoder_blas
        .build_acceleration_structures(&vec![blas_entry(&blas)], &vec![])
        .unwrap();

    device.submit(&vec![encoder_blas.finish(), encoder_tlas.finish()]);
    assert!(!device.has_errors());

    // Encode the BLAS build before the TLAS build, but submit them in the
    // wrong order: rejected.
    let mut device = Device::new();
    let blas = make_blas(&mut device);
    let package = make_package(&mut device, &blas);

    let mut encoder_blas = CommandEncoder::new();
    encoder_blas
        .build_acceleration_structures(&vec![blas_entry(&blas)], &vec![])
        .unwrap();
    let mut encoder_tlas = CommandEncoder::new();
    encoder_tlas
        .build_acceleration_structures(&vec![], &vec![package.clone()])
        .unwrap();

    device.submit(&vec![encoder_tlas.finish(), encoder_blas.finish()]);
    assert!(device.has_errors());
    assert_eq!(
        device.pop_error(),
        Some(Violation::UnbuiltDependency {
            tlas_id: package.tlas().id,
            blas_id: blas.id,
        })
    );
}

#[test]
fn out_of_order_as_build_use() {
    // Build in the right order, then rebuild the BLAS so the TLAS is
    // stale, then use the TLAS: rejected at the dispatch's submission.
    let mut device = Device::new();
    let blas = make_blas(&mut device);
    let package = make_package(&mut device, &blas);

    let mut encoder_blas = CommandEncoder::new();
    encoder_blas
        .build_acceleration_structures(&vec![blas_entry(&blas)], &vec![])
        .unwrap();
    let mut encoder_tlas = CommandEncoder::new();
    encoder_tlas
        .build_acceleration_structures(&vec![], &vec![package.clone()])
        .unwrap();
    let mut encoder_blas2 = CommandEncoder::new();
    encoder_blas2
        .build_acceleration_structures(&vec![blas_entry(&blas)], &vec![])
        .unwrap();

    device.submit(&vec![
        encoder_blas.finish(),
        encoder_tlas.finish(),
        encoder_blas2.finish(),
    ]);
    assert!(!device.has_errors());

    let bind_group = device.create_bind_group(package.tlas());
    let mut encoder_compute = CommandEncoder::new();
    encoder_compute.dispatch(&bind_group);

    device.submit(&vec![encoder_compute.finish()]);
    assert!(device.has_errors());
    assert_eq!(
        device.pop_error(),
        Some(Violation::StaleDependency {
            tlas_id: package.tlas().id,
            blas_id: blas.id,
        })
    );
}

#[test]
fn empty_build() {
    // A checked empty build and an unchecked empty build in the same
    // submission both succeed trivially and mutate nothing.
    let mut device = Device::new();
    let blas = make_blas(&mut device);
    let package = make_package(&mut device, &blas);

    let mut encoder_checked = CommandEncoder::new();
    encoder_checked
        .build_acceleration_structures(&vec![], &vec![])
        .unwrap();
    let mut encoder_unchecked = CommandEncoder::new();
    encoder_unchecked
        .build_acceleration_structures_unchecked(&vec![], &vec![])
        .unwrap();

    device.submit(&vec![encoder_checked.finish(), encoder_unchecked.finish()]);
    assert!(!device.has_errors());

    // The tracker was not mutated: the TLAS still counts as unbuilt, so a
    // dispatch against it is rejected as such.
    let bind_group = device.create_bind_group(package.tlas());
    let mut encoder_compute = CommandEncoder::new();
    encoder_compute.dispatch(&bind_group);
    device.submit(&vec![encoder_compute.finish()]);
    assert_eq!(
        device.pop_error(),
        Some(Violation::UnbuiltTlas { tlas_id: package.tlas().id })
    );
}

#[test]
fn unchecked_build_skips_dependency_checks() {
    // The same wrong-order submission as the rejected half of
    // out_of_order_as_build, with the TLAS build recorded through the
    // unchecked path: accepted by caller assertion.
    let mut device = Device::new();
    let blas = make_blas(&mut device);
    let package = make_package(&mut device, &blas);

    let mut encoder_tlas = CommandEncoder::new();
    encoder_tlas
        .build_acceleration_structures_unchecked(&vec![], &vec![package.clone()])
        .unwrap();
    let mut encoder_blas = CommandEncoder::new();
    encoder_blas
        .build_acceleration_structures(&vec![blas_entry(&blas)], &vec![])
        .unwrap();

    device.submit(&vec![encoder_tlas.finish(), encoder_blas.finish()]);
    assert!(!device.has_errors());
}

#[test]
fn rejection_is_atomic() {
    // A rejected submission must not leave partial state behind: the BLAS
    // build that preceded the failing TLAS build in the same submission is
    // discarded too, and the whole pair can be resubmitted cleanly.
    let mut device = Device::new();
    let blas = make_blas(&mut device);
    let package = make_package(&mut device, &blas);

    let mut encoder = CommandEncoder::new();
    encoder
        .build_acceleration_structures(&vec![], &vec![package.clone()])
        .unwrap();
    let mut encoder_blas = CommandEncoder::new();
    encoder_blas
        .build_acceleration_structures(&vec![blas_entry(&blas)], &vec![])
        .unwrap();

    // TLAS buffer first: rejected; the BLAS build in the later buffer of
    // the same submission must not have been applied.
    device.submit(&vec![encoder.finish(), encoder_blas.finish()]);
    assert!(device.has_errors());
    device.pop_error();

    // The BLAS still counts as unbuilt: the same wrong order fails again.
    let mut encoder = CommandEncoder::new();
    encoder
        .build_acceleration_structures(&vec![], &vec![package.clone()])
        .unwrap();
    device.submit(&vec![encoder.finish()]);
    assert_eq!(
        device.pop_error(),
        Some(Violation::UnbuiltDependency {
            tlas_id: package.tlas().id,
            blas_id: blas.id,
        })
    );
}

#[test]
fn rebuild_recovers_stale_tlas() {
    // After the BLAS is rebuilt, rebuilding the TLAS refreshes its
    // snapshot and a later dispatch is accepted again.
    let mut device = Device::new();
    let blas = make_blas(&mut device);
    let package = make_package(&mut device, &blas);

    let mut encoder = CommandEncoder::new();
    encoder
        .build_acceleration_structures(&vec![blas_entry(&blas)], &vec![package.clone()])
        .unwrap();
    device.submit(&vec![encoder.finish()]);
    assert!(!device.has_errors());

    // Rebuild the BLAS, then the TLAS, in one submission; then dispatch.
    let mut encoder = CommandEncoder::new();
    encoder
        .build_acceleration_structures(&vec![blas_entry(&blas)], &vec![package.clone()])
        .unwrap();
    let bind_group = device.create_bind_group(package.tlas());
    let mut encoder_compute = CommandEncoder::new();
    encoder_compute.dispatch(&bind_group);
    device.submit(&vec![encoder.finish(), encoder_compute.finish()]);
    assert!(!device.has_errors());
}

#[test]
fn build_with_transform() {
    // A BLAS build and a TLAS build with a non-trivial instance transform
    // in one call, submitted together: accepted. The transform is opaque
    // to validation and carried through untouched.
    let mut device = Device::new();
    let blas = make_blas(&mut device);
    let tlas = device.create_tlas(&CreateTlasDescriptor {
        label: Some(String::from("TLAS")),
        max_instances: 1,
        flags: StructureFlags::PreferFastTrace,
        update_mode: UpdateMode::Build,
    });
    let mut package = TlasPackage::new(tlas);
    let mut transform = identity_transform();
    transform[3] = 2.5f32.to_bits();
    package.set_slot(0, Some(TlasInstance::new(&blas, transform, 7, 0xFF)));
    assert_eq!(package.get_slot(0).unwrap().custom_index, 7);
    assert_eq!(package.get_slot(0).unwrap().transform_bits[3], 2.5f32.to_bits());

    let mut encoder = CommandEncoder::new();
    encoder
        .build_acceleration_structures(&vec![blas_entry(&blas)], &vec![package.clone()])
        .unwrap();
    device.submit(&vec![encoder.finish()]);
    assert!(!device.has_errors());
}

#[test]
fn every_violation_of_a_rejected_submission_is_reported() {
    // Two unbuilt dependencies in one checked TLAS build: both pairs are
    // delivered through the error channel, in replay order.
    let mut device = Device::new();
    let blas_a = make_blas(&mut device);
    let blas_b = make_blas(&mut device);
    let tlas = device.create_tlas(&CreateTlasDescriptor {
        label: None,
        max_instances: 2,
        flags: StructureFlags::PreferFastTrace,
        update_mode: UpdateMode::Build,
    });
    let mut package = TlasPackage::new(tlas);
    package.set_slot(0, Some(TlasInstance::new(&blas_a, identity_transform(), 0, 0xFF)));
    package.set_slot(1, Some(TlasInstance::new(&blas_b, identity_transform(), 1, 0xFF)));

    let mut encoder = CommandEncoder::new();
    encoder
        .build_acceleration_structures(&vec![], &vec![package.clone()])
        .unwrap();
    device.submit(&vec![encoder.finish()]);

    // The channel pops the most recent report first.
    assert_eq!(
        device.pop_error(),
        Some(Violation::UnbuiltDependency {
            tlas_id: package.tlas().id,
            blas_id: blas_b.id,
        })
    );
    assert_eq!(
        device.pop_error(),
        Some(Violation::UnbuiltDependency {
            tlas_id: package.tlas().id,
            blas_id: blas_a.id,
        })
    );
    assert_eq!(device.pop_error(), None);
}

#[test]
fn dangling_identity_is_its_own_failure() {
    // Handles from another device do not resolve here: the validator
    // reports the dangling identity, not undefined behavior.
    let mut other = Device::new();
    let foreign_blas = make_blas(&mut other);
    let foreign_package = make_package(&mut other, &foreign_blas);

    let mut device = Device::new();
    let mut encoder = CommandEncoder::new();
    encoder
        .build_acceleration_structures(&vec![blas_entry(&foreign_blas)], &vec![])
        .unwrap();
    device.submit(&vec![encoder.finish()]);
    assert_eq!(
        device.pop_error(),
        Some(Violation::MissingBlas { blas_id: foreign_blas.id })
    );

    let mut encoder = CommandEncoder::new();
    encoder
        .build_acceleration_structures(&vec![], &vec![foreign_package.clone()])
        .unwrap();
    device.submit(&vec![encoder.finish()]);
    assert_eq!(
        device.pop_error(),
        Some(Violation::MissingTlas { tlas_id: foreign_package.tlas().id })
    );
}
