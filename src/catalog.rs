use vstd::prelude::*;

use crate::volume::{at_most_one_system, identifiers_distinct, names, SanitizeError, VolumeDescriptor};

verus! {

/// Number of drive designators a logical-drive bitmask can name.
pub const DRIVE_SLOTS: u32 = 26;

/// The bit for drive slot `k` is set in `mask`.
pub open spec fn slot_set(mask: u32, k: u32) -> bool {
    mask & (1u32 << k) != 0u32
}

/// The ASCII letters (`A` for slot 0) of the slots below `n` that `mask` sets, in order.
pub open spec fn letters_below(mask: u32, n: u32) -> Seq<u8>
    decreases n,
{
    if n == 0 {
        seq![]
    } else {
        let prev = letters_below(mask, (n - 1) as u32);
        if slot_set(mask, (n - 1) as u32) {
            prev.push((65 + n - 1) as u8)
        } else {
            prev
        }
    }
}

/// Decodes a logical-drive bitmask into the letters of the drives it names.
/// A mask of zero means that the platform could not list drives at all.
pub fn drive_letters(mask: u32) -> (r: Result<Vec<u8>, SanitizeError>)
    ensures
        mask == 0 <==> r is Err,
        r is Err ==> r->Err_0 is EnumerationFailure,
        r is Ok ==> r->Ok_0@ == letters_below(mask, DRIVE_SLOTS),
{
    if mask == 0 {
        return Err(SanitizeError::EnumerationFailure);
    }
    let mut out: Vec<u8> = Vec::new();
    let mut k: u32 = 0;
    while k < DRIVE_SLOTS
        invariant
            k <= DRIVE_SLOTS,
            out@ == letters_below(mask, k),
        decreases DRIVE_SLOTS - k,
    {
        if mask & (1u32 << k) != 0 {
            out.push(65u8 + k as u8);
        }
        k = k + 1;
    }
    Ok(out)
}

/// Sizes reported for a volume by the platform's space query.
#[derive(Clone, Debug)]
pub struct SpaceReport {
    pub capacity_bytes: u64,
    pub free_bytes: u64,
}

/// Label, filesystem and serial reported by the platform's volume query.
#[derive(Clone, Debug)]
pub struct LabelReport {
    pub label: String,
    pub filesystem_kind: String,
    pub serial: u32,
}

/// What one platform probe learned of a volume; a query that failed is `None`.
#[derive(Clone, Debug)]
pub struct RawVolume {
    pub identifier: String,
    pub space: Option<SpaceReport>,
    pub info: Option<LabelReport>,
}

/// `d` is the descriptor of `raw`: reported metadata where present, defaults
/// (zero sizes, empty label and filesystem, zero serial) where a query failed,
/// and the system flag set exactly when the identifier is the system identifier.
pub open spec fn describes(d: VolumeDescriptor, raw: RawVolume, system: Option<Seq<char>>) -> bool {
    &&& d.identifier@ == raw.identifier@
    &&& d.capacity_bytes == (match raw.space { Some(s) => s.capacity_bytes, None => 0 })
    &&& d.free_bytes == (match raw.space { Some(s) => s.free_bytes, None => 0 })
    &&& d.label@ == (match raw.info { Some(i) => i.label@, None => Seq::<char>::empty() })
    &&& d.filesystem_kind@ == (match raw.info { Some(i) => i.filesystem_kind@, None => Seq::<char>::empty() })
    &&& d.serial == (match raw.info { Some(i) => i.serial, None => 0 })
    &&& d.is_system == (system == Some(raw.identifier@))
}

/// The view of an optional system identifier.
pub open spec fn system_view(system: Option<String>) -> Option<Seq<char>> {
    match system {
        Some(s) => Some(s@),
        None => None,
    }
}

/// Builds the descriptor of one probed volume.
pub fn describe(raw: &RawVolume, system: &Option<String>) -> (d: VolumeDescriptor)
    ensures
        describes(d, *raw, system_view(*system)),
{
    let is_system = match system {
        Some(s) => *s == raw.identifier,
        None => false,
    };
    let (capacity_bytes, free_bytes) = match &raw.space {
        Some(s) => (s.capacity_bytes, s.free_bytes),
        None => (0, 0),
    };
    let (label, filesystem_kind, serial) = match &raw.info {
        Some(i) => (i.label.clone(), i.filesystem_kind.clone(), i.serial),
        None => (String::new(), String::new(), 0),
    };
    VolumeDescriptor {
        identifier: raw.identifier.clone(),
        capacity_bytes,
        free_bytes,
        label,
        filesystem_kind,
        serial,
        is_system,
    }
}

/// The probe at position `i` repeats the identifier of an earlier probe.
pub open spec fn repeats_earlier(raws: Seq<RawVolume>, i: int) -> bool {
    exists|k: int| 0 <= k < i && raws[k].identifier@ == raws[i].identifier@
}

/// The probes that are kept: the first of each identifier, in probe order.
pub open spec fn kept(raws: Seq<RawVolume>) -> Seq<RawVolume>
    decreases raws.len(),
{
    if raws.len() == 0 {
        seq![]
    } else {
        let prev = kept(raws.drop_last());
        if repeats_earlier(raws, raws.len() - 1) {
            prev
        } else {
            prev.push(raws.last())
        }
    }
}

/// `vs` is the catalog of the probes `raws`: one descriptor for each kept probe.
pub open spec fn catalog_of(vs: Seq<VolumeDescriptor>, raws: Seq<RawVolume>, system: Option<Seq<char>>) -> bool {
    &&& vs.len() == kept(raws).len()
    &&& forall|i: int| 0 <= i < vs.len() ==> describes(vs[i], kept(raws)[i], system)
}

proof fn lemma_kept_prefix(raws: Seq<RawVolume>, n: int)
    requires
        0 <= n < raws.len(),
    ensures
        kept(raws.take(n + 1)) == (if repeats_earlier(raws, n) {
            kept(raws.take(n))
        } else {
            kept(raws.take(n)).push(raws[n])
        }),
{
    let t = raws.take(n + 1);
    assert(t.drop_last() == raws.take(n));
    assert(repeats_earlier(t, n) == repeats_earlier(raws, n)) by {
        if repeats_earlier(raws, n) {
            let k = choose|k: int| 0 <= k < n && raws[k].identifier@ == raws[n].identifier@;
            assert(t[k] == raws[k]);
        }
    }
}

/// Builds the catalog from one pass of platform probes. A probe that repeats
/// an identifier already seen is skipped, so identifiers stay distinct and
/// at most one volume carries the system flag.
pub fn build_catalog(raws: &Vec<RawVolume>, system: &Option<String>) -> (vs: Vec<VolumeDescriptor>)
    ensures
        catalog_of(vs@, raws@, system_view(*system)),
        identifiers_distinct(vs@),
        at_most_one_system(vs@),
        forall|k: int| 0 <= k < raws@.len() ==> names(vs@, #[trigger] raws@[k].identifier@),
{
    let mut vs: Vec<VolumeDescriptor> = Vec::new();
    let mut n: usize = 0;
    while n < raws.len()
        invariant
            n <= raws@.len(),
            catalog_of(vs@, raws@.take(n as int), system_view(*system)),
            identifiers_distinct(vs@),
            forall|k: int| 0 <= k < n ==> names(vs@, #[trigger] raws@[k].identifier@),
            forall|i: int| 0 <= i < vs@.len() ==> exists|k: int|
                0 <= k < n && #[trigger] vs@[i].identifier@ == #[trigger] raws@[k].identifier@,
        decreases raws@.len() - n,
    {
        let raw = &raws[n];
        let mut seen = false;
        let mut j: usize = 0;
        while j < vs.len()
            invariant
                j <= vs@.len(),
                seen <==> exists|i: int| 0 <= i < j && vs@[i].identifier@ == raw.identifier@,
            decreases vs@.len() - j,
        {
            if vs[j].identifier == raw.identifier {
                seen = true;
            }
            j = j + 1;
        }
        proof {
            lemma_kept_prefix(raws@, n as int);
            assert(seen == repeats_earlier(raws@, n as int)) by {
                if seen {
                    let i = choose|i: int| 0 <= i < vs@.len() && vs@[i].identifier@ == raw.identifier@;
                    let k = choose|k: int| 0 <= k < n && #[trigger] vs@[i].identifier@ == #[trigger] raws@[k].identifier@;
                    assert(raws@[k].identifier@ == raws@[n as int].identifier@);
                }
                if repeats_earlier(raws@, n as int) {
                    let k = choose|k: int| 0 <= k < n && raws@[k].identifier@ == raws@[n as int].identifier@;
                    let i = choose|i: int| 0 <= i < vs@.len() && #[trigger] vs@[i].identifier@ == #[trigger] raws@[k].identifier@;
                    assert(vs@[i].identifier@ == raw.identifier@);
                }
            }
        }
        let ghost before = vs@;
        if !seen {
            let d = describe(raw, system);
            vs.push(d);
        }
        n = n + 1;
        proof {
            assert forall|k: int| 0 <= k < n implies names(vs@, #[trigger] raws@[k].identifier@) by {
                if k < n - 1 {
                    assert(names(before, raws@[k].identifier@));
                    let i = choose|i: int| 0 <= i < before.len() && before[i].identifier@ == raws@[k].identifier@;
                    assert(vs@[i] == before[i]);
                } else if seen {
                    let i = choose|i: int| 0 <= i < before.len() && before[i].identifier@ == raw.identifier@;
                    assert(vs@[i] == before[i]);
                } else {
                    assert(vs@[vs@.len() - 1].identifier@ == raws@[k].identifier@);
                }
            }
            assert forall|i: int| 0 <= i < vs@.len() implies exists|k: int|
                0 <= k < n && #[trigger] vs@[i].identifier@ == #[trigger] raws@[k].identifier@ by {
                if i < before.len() {
                    assert(vs@[i] == before[i]);
                    let k = choose|k: int| 0 <= k < n - 1 && #[trigger] before[i].identifier@ == #[trigger] raws@[k].identifier@;
                } else {
                    assert(vs@[i].identifier@ == raws@[n - 1].identifier@);
                }
            }
            assert(raws@.take(n as int).drop_last() == raws@.take(n - 1));
        }
    }
    proof {
        assert(n == raws@.len());
        assert forall|k: int| 0 <= k < raws@.len() implies names(vs@, #[trigger] raws@[k].identifier@) by {
            assert(0 <= k < n);
        }
        assert(raws@.take(raws@.len() as int) == raws@);
        lemma_catalog_one_system(vs@, raws@, system_view(*system));
    }
    vs
}

proof fn lemma_kept_from(raws: Seq<RawVolume>)
    ensures
        forall|i: int| 0 <= i < kept(raws).len() ==> exists|k: int|
            0 <= k < raws.len() && #[trigger] kept(raws)[i] == raws[k],
        forall|i: int, j: int|
            0 <= i < kept(raws).len() && 0 <= j < kept(raws).len() && i != j
                ==> kept(raws)[i].identifier@ != kept(raws)[j].identifier@,
    decreases raws.len(),
{
    if raws.len() > 0 {
        let prev = raws.drop_last();
        lemma_kept_from(prev);
        let p = kept(prev);
        let last = raws.last();
        let n = raws.len() - 1;
        assert forall|i: int| 0 <= i < p.len() implies exists|k: int|
            0 <= k < raws.len() && #[trigger] p[i] == raws[k] by {
            let k = choose|k: int| 0 <= k < prev.len() && #[trigger] p[i] == prev[k];
            assert(p[i] == raws[k]);
        }
        if !repeats_earlier(raws, n) {
            let q = p.push(last);
            assert(kept(raws) == q);
            assert forall|i: int| 0 <= i < q.len() implies exists|k: int|
                0 <= k < raws.len() && #[trigger] q[i] == raws[k] by {
                if i < p.len() {
                    assert(q[i] == p[i]);
                } else {
                    assert(q[i] == raws[n]);
                }
            }
            assert forall|i: int, j: int|
                0 <= i < q.len() && 0 <= j < q.len() && i != j
                    implies q[i].identifier@ != q[j].identifier@ by {
                if i < p.len() && j < p.len() {
                    assert(q[i] == p[i] && q[j] == p[j]);
                } else if i < p.len() {
                    let k = choose|k: int| 0 <= k < prev.len() && #[trigger] p[i] == prev[k];
                    assert(q[i] == raws[k]);
                } else if j < p.len() {
                    let k = choose|k: int| 0 <= k < prev.len() && #[trigger] p[j] == prev[k];
                    assert(q[j] == raws[k]);
                }
            }
        }
    }
}

/// Every catalog of a probe pass has distinct identifiers and at most one
/// system volume, whatever the probes and the system identifier were.
pub proof fn lemma_catalog_one_system(vs: Seq<VolumeDescriptor>, raws: Seq<RawVolume>, system: Option<Seq<char>>)
    requires
        catalog_of(vs, raws, system),
    ensures
        identifiers_distinct(vs),
        at_most_one_system(vs),
{
    lemma_kept_from(raws);
    assert forall|i: int, j: int|
        0 <= i < vs.len() && 0 <= j < vs.len() && i != j implies vs[i].identifier@ != vs[j].identifier@ by {
        assert(describes(vs[i], kept(raws)[i], system));
        assert(describes(vs[j], kept(raws)[j], system));
    }
    assert forall|i: int, j: int|
        0 <= i < vs.len() && 0 <= j < vs.len() && vs[i].is_system && vs[j].is_system implies i == j by {
        assert(describes(vs[i], kept(raws)[i], system));
        assert(describes(vs[j], kept(raws)[j], system));
    }
}

/// Two catalogs built from the same probes and system identifier list the same
/// volumes in the same order, with equal identifiers, system flags and labels.
pub proof fn lemma_catalog_deterministic(
    a: Seq<VolumeDescriptor>,
    b: Seq<VolumeDescriptor>,
    raws: Seq<RawVolume>,
    system: Option<Seq<char>>,
)
    requires
        catalog_of(a, raws, system),
        catalog_of(b, raws, system),
    ensures
        a.len() == b.len(),
        forall|i: int| 0 <= i < a.len() ==> {
            &&& #[trigger] a[i].identifier@ == b[i].identifier@
            &&& a[i].is_system == b[i].is_system
            &&& a[i].label@ == b[i].label@
        },
{
    assert forall|i: int| 0 <= i < a.len() implies {
        &&& #[trigger] a[i].identifier@ == b[i].identifier@
        &&& a[i].is_system == b[i].is_system
        &&& a[i].label@ == b[i].label@
    } by {
        assert(describes(a[i], kept(raws)[i], system));
        assert(describes(b[i], kept(raws)[i], system));
    }
}

} // verus!
