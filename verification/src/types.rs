//! Data model: geometry descriptors, acceleration-structure handles,
//! instance slots, and the error taxonomy.

use vstd::prelude::*;

verus! {

/// Build-speed versus trace-speed preference recorded at creation time.
#[derive(Clone, Copy, Debug, PartialEq, Eq, Structural)]
pub enum StructureFlags {
    Empty,
    PreferFastBuild,
    PreferFastTrace,
}

/// Whether a rebuild starts from scratch or may refine the previous build.
/// Only recorded here; the update algorithm itself is a backend concern.
#[derive(Clone, Copy, Debug, PartialEq, Eq, Structural)]
pub enum UpdateMode {
    Build,
    PreferUpdate,
}

/// Vertex layouts a bottom-level geometry may declare.
#[derive(Clone, Copy, Debug, PartialEq, Eq, Structural)]
pub enum VertexFormat {
    Float32x2,
    Float32x3,
    Float32x4,
}

impl VertexFormat {
    /// Size in bytes of one vertex in this format.
    pub open spec fn spec_byte_size(self) -> u64 {
        match self {
            VertexFormat::Float32x2 => 8,
            VertexFormat::Float32x3 => 12,
            VertexFormat::Float32x4 => 16,
        }
    }

    /// Size in bytes of one vertex in this format.
    pub fn byte_size(&self) -> (n: u64)
        ensures
            n == self.spec_byte_size(),
    {
        match self {
            VertexFormat::Float32x2 => 8,
            VertexFormat::Float32x3 => 12,
            VertexFormat::Float32x4 => 16,
        }
    }
}

/// Per-geometry flags on a descriptor.
#[derive(Clone, Copy, Debug, PartialEq, Eq, Structural)]
pub enum GeometryFlags {
    Empty,
    Opaque,
}

/// Immutable shape and size contract for one geometry of a `Blas`,
/// fixed when the `Blas` is created.
#[derive(Clone, Copy, Debug, PartialEq, Eq, Structural)]
pub struct GeometryDescriptor {
    pub vertex_format: VertexFormat,
    pub vertex_count: u32,
    pub index_count: Option<u32>,
    pub flags: GeometryFlags,
}

/// Triangle geometry handed to a build call. Its `size` must repeat the
/// descriptor the `Blas` was created with, and `vertex_stride` must cover
/// one vertex of the declared format.
#[derive(Clone, Copy, Debug)]
pub struct TriangleGeometry {
    pub size: GeometryDescriptor,
    pub first_vertex: u32,
    pub vertex_stride: u64,
}

impl TriangleGeometry {
    /// The encode-time structural check: the repeated size descriptor
    /// equals the declared one and the stride covers one vertex.
    pub open spec fn matches(self, declared: GeometryDescriptor) -> bool {
        &&& self.size == declared
        &&& self.vertex_stride >= declared.vertex_format.spec_byte_size()
    }

    /// Runs the encode-time structural check against a declared descriptor.
    pub fn check_against(&self, declared: &GeometryDescriptor) -> (r: bool)
        ensures
            r == self.matches(*declared),
    {
        self.size == *declared && self.vertex_stride >= declared.vertex_format.byte_size()
    }
}

/// Creation parameters for a `Blas`.
#[derive(Clone, Debug)]
pub struct CreateBlasDescriptor {
    pub label: Option<String>,
    pub flags: StructureFlags,
    pub update_mode: UpdateMode,
}

/// Creation parameters for a `Tlas`.
#[derive(Clone, Debug)]
pub struct CreateTlasDescriptor {
    pub label: Option<String>,
    pub max_instances: usize,
    pub flags: StructureFlags,
    pub update_mode: UpdateMode,
}

/// Bottom-level acceleration structure handle. The handle names the
/// resource by identity; build state lives in the device's tracker.
#[derive(Clone, Debug)]
pub struct Blas {
    pub id: usize,
    pub sizes: Vec<GeometryDescriptor>,
    pub flags: StructureFlags,
    pub update_mode: UpdateMode,
}

/// Top-level acceleration structure handle. Build state and the
/// dependency snapshot of its last build live in the device's tracker.
#[derive(Clone, Debug)]
pub struct Tlas {
    pub id: usize,
    pub max_instances: usize,
    pub flags: StructureFlags,
    pub update_mode: UpdateMode,
}

/// One instance slot of a `TlasPackage`: a non-owning reference to a
/// `Blas` by identity, with its placement data. The transform is a 3x4
/// affine matrix carried as opaque bit patterns; validation never reads it.
#[derive(Clone, Copy, Debug)]
pub struct TlasInstance {
    pub blas_id: usize,
    pub transform_bits: [u32; 12],
    pub custom_index: u32,
    pub mask: u8,
}

impl TlasInstance {
    /// A new instance referencing `blas` by identity only: the handle's
    /// lifetime is not extended, and a later rebuild of the `Blas` is
    /// visible to the validator through the shared id.
    pub fn new(blas: &Blas, transform_bits: [u32; 12], custom_index: u32, mask: u8) -> (inst:
        TlasInstance)
        ensures
            inst.blas_id == blas.id,
            inst.transform_bits == transform_bits,
            inst.custom_index == custom_index,
            inst.mask == mask,
    {
        TlasInstance { blas_id: blas.id, transform_bits, custom_index, mask }
    }
}

/// Fixed-capacity ordered collection of optional instance slots,
/// exclusively owning one `Tlas`.
#[derive(Clone, Debug)]
pub struct TlasPackage {
    pub tlas: Tlas,
    pub slots: Vec<Option<TlasInstance>>,
}

impl TlasPackage {
    /// The slot vector always has exactly the capacity declared at
    /// `Tlas` creation.
    pub open spec fn wf(self) -> bool {
        self.slots@.len() == self.tlas.max_instances
    }

    /// Wraps a `Tlas` with all instance slots empty.
    pub fn new(tlas: Tlas) -> (p: TlasPackage)
        ensures
            p.wf(),
            p.tlas == tlas,
            forall|i: int| 0 <= i < p.slots@.len() ==> p.slots@[i] is None,
    {
        let capacity = tlas.max_instances;
        let mut slots: Vec<Option<TlasInstance>> = Vec::new();
        let mut i: usize = 0;
        while i < capacity
            invariant
                i <= capacity,
                slots@.len() == i,
                forall|j: int| 0 <= j < i ==> slots@[j] is None,
            decreases capacity - i,
        {
            slots.push(None);
            i = i + 1;
        }
        TlasPackage { tlas, slots }
    }

    /// Replaces one instance slot.
    pub fn set_slot(&mut self, index: usize, inst: Option<TlasInstance>)
        requires
            old(self).wf(),
            index < old(self).tlas.max_instances,
        ensures
            final(self).wf(),
            final(self).tlas == old(self).tlas,
            final(self).slots@ == old(self).slots@.update(index as int, inst),
    {
        self.slots.set(index, inst);
    }

    /// Reads one instance slot.
    pub fn get_slot(&self, index: usize) -> (r: &Option<TlasInstance>)
        requires
            self.wf(),
            index < self.tlas.max_instances,
        ensures
            *r == self.slots@[index as int],
    {
        &self.slots[index]
    }

    /// The `Tlas` this package owns.
    pub fn tlas(&self) -> (t: &Tlas)
        ensures
            *t == self.tlas,
    {
        &self.tlas
    }
}

/// Shader-visible binding of a `Tlas` as an opaque acceleration-structure
/// resource. Binding performs no check: the validation checkpoint fires on
/// the dispatch that consumes it, once that dispatch's buffer is submitted.
#[derive(Clone, Copy, Debug)]
pub struct BindGroup {
    pub tlas_id: usize,
}

/// Synchronous encode-time error: a pure caller mistake that needs no
/// cross-buffer state, reported at the record call itself.
#[derive(Clone, Copy, Debug, PartialEq, Eq, Structural)]
pub enum EncodeError {
    /// The geometry list of the named build entry does not match the
    /// geometry descriptors its `Blas` was created with.
    StructuralMismatch { entry_index: usize },
}

/// Submission-time violation, delivered through the device's error channel.
/// A rejected submission executes nothing and leaves the tracker unchanged;
/// the device stays usable.
#[derive(Clone, Copy, Debug, PartialEq, Eq, Structural)]
pub enum Violation {
    /// A referenced bottom-level identity no longer resolves.
    MissingBlas { blas_id: usize },
    /// A referenced top-level identity no longer resolves.
    MissingTlas { tlas_id: usize },
    /// A checked top-level build references a `Blas` not yet built at that
    /// point in submission order.
    UnbuiltDependency { tlas_id: usize, blas_id: usize },
    /// A dispatch consumes a `Tlas` that has never been built.
    UnbuiltTlas { tlas_id: usize },
    /// A dispatch consumes a `Tlas` one of whose dependencies was rebuilt
    /// after the `Tlas`'s own last build.
    StaleDependency { tlas_id: usize, blas_id: usize },
}

} // verus!
