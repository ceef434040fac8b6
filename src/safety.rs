use vstd::prelude::*;

use crate::volume::{first_named, identifiers_distinct, names, names_system, SanitizeError, VolumeDescriptor};

verus! {

/// What the classifier answers for `id` against a freshly enumerated catalog.
pub open spec fn safety_verdict(vs: Seq<VolumeDescriptor>, id: Seq<char>) -> Result<bool, SanitizeError> {
    if !names(vs, id) {
        Err(SanitizeError::NotFound)
    } else if names_system(vs, id) {
        Err(SanitizeError::SystemVolumeProtected)
    } else {
        Ok(true)
    }
}

/// Finds the first volume named `identifier`.
pub fn find_volume(volumes: &Vec<VolumeDescriptor>, identifier: &String) -> (r: Option<usize>)
    ensures
        r is None <==> !names(volumes@, identifier@),
        r is Some ==> first_named(volumes@, identifier@, r->Some_0 as int),
{
    let mut i: usize = 0;
    while i < volumes.len()
        invariant
            i <= volumes@.len(),
            forall|k: int| 0 <= k < i ==> volumes@[k].identifier@ != identifier@,
        decreases volumes@.len() - i,
    {
        if volumes[i].identifier == *identifier {
            return Some(i);
        }
        i = i + 1;
    }
    None
}

/// Decides whether destructive work on `identifier` is permitted, against the
/// catalog the caller has just enumerated.
pub fn check_safety(volumes: &Vec<VolumeDescriptor>, identifier: &String) -> (r: Result<bool, SanitizeError>)
    ensures
        r == safety_verdict(volumes@, identifier@),
{
    match find_volume(volumes, identifier) {
        None => Err(SanitizeError::NotFound),
        Some(i) => {
            proof {
                lemma_first_named_unique(volumes@, identifier@, i as int);
            }
            if volumes[i].is_system {
                Err(SanitizeError::SystemVolumeProtected)
            } else {
                Ok(true)
            }
        },
    }
}

/// The first position of a name is unique, so it decides `names_system`.
pub proof fn lemma_first_named_unique(vs: Seq<VolumeDescriptor>, id: Seq<char>, i: int)
    requires
        first_named(vs, id, i),
    ensures
        names(vs, id),
        names_system(vs, id) == vs[i].is_system,
{
    if names_system(vs, id) {
        let j = choose|j: int| #[trigger] first_named(vs, id, j) && vs[j].is_system;
        assert(i == j) by {
            if i < j {
                assert(vs[i].identifier@ == id);
            } else if j < i {
                assert(vs[j].identifier@ == id);
            }
        }
    }
    if vs[i].is_system {
        assert(first_named(vs, id, i));
    }
}

/// In a catalog with distinct identifiers, asking about the system volume's own
/// identifier is always refused as the protected system volume.
pub proof fn lemma_system_volume_refused(vs: Seq<VolumeDescriptor>, i: int)
    requires
        identifiers_distinct(vs),
        0 <= i < vs.len(),
        vs[i].is_system,
    ensures
        safety_verdict(vs, vs[i].identifier@) == Err::<bool, SanitizeError>(SanitizeError::SystemVolumeProtected),
{
    let id = vs[i].identifier@;
    assert(first_named(vs, id, i));
    lemma_first_named_unique(vs, id, i);
}

} // verus!
