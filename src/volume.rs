use vstd::prelude::*;

verus! {

/// One addressable storage volume, as seen by a single enumeration.
#[derive(Clone, Debug)]
pub struct VolumeDescriptor {
    /// Platform-meaningful name of the volume (a mount path or drive root).
    pub identifier: String,
    pub capacity_bytes: u64,
    pub free_bytes: u64,
    /// Human-readable name; may be empty.
    pub label: String,
    /// Free-text filesystem descriptor; informational only.
    pub filesystem_kind: String,
    /// Volume serial number; zero means unavailable.
    pub serial: u32,
    /// Whether this volume hosts the running operating system.
    pub is_system: bool,
}

/// The closed set of failures of the sanitization core.
#[derive(Clone, Debug)]
pub enum SanitizeError {
    /// The platform could not produce any volume listing.
    EnumerationFailure,
    /// The identifier matches no current volume, or its path is gone.
    NotFound,
    /// The target is the host's own boot volume.
    SystemVolumeProtected,
    /// The caller did not attest explicit consent.
    ConfirmationRequired,
    /// Creating, writing, flushing or removing the scratch file failed.
    IoFailure(String),
}

/// No two volumes of the sequence share an identifier.
pub open spec fn identifiers_distinct(vs: Seq<VolumeDescriptor>) -> bool {
    forall|i: int, j: int|
        0 <= i < vs.len() && 0 <= j < vs.len() && i != j ==> vs[i].identifier@ != vs[j].identifier@
}

/// At most one volume of the sequence is flagged as the system volume.
pub open spec fn at_most_one_system(vs: Seq<VolumeDescriptor>) -> bool {
    forall|i: int, j: int|
        0 <= i < vs.len() && 0 <= j < vs.len() && vs[i].is_system && vs[j].is_system ==> i == j
}

/// Whether some volume of the sequence is named `id`.
pub open spec fn names(vs: Seq<VolumeDescriptor>, id: Seq<char>) -> bool {
    exists|i: int| 0 <= i < vs.len() && vs[i].identifier@ == id
}

/// `i` is the first position of a volume named `id`.
pub open spec fn first_named(vs: Seq<VolumeDescriptor>, id: Seq<char>, i: int) -> bool {
    &&& 0 <= i < vs.len()
    &&& vs[i].identifier@ == id
    &&& forall|k: int| 0 <= k < i ==> vs[k].identifier@ != id
}

/// The first volume named `id` is flagged as the system volume.
pub open spec fn names_system(vs: Seq<VolumeDescriptor>, id: Seq<char>) -> bool {
    exists|i: int| #[trigger] first_named(vs, id, i) && vs[i].is_system
}

} // verus!
