use vstd::prelude::*;

use crate::pattern::Fill;
use crate::safety::{check_safety, find_volume, safety_verdict};
use crate::volume::{first_named, SanitizeError, VolumeDescriptor};

verus! {

/// Number of overwrite passes: zeros, then ones, then random bytes.
pub const PASSES: u64 = 3;

/// Upper bound on the blocks written in one pass.
pub const MAX_BLOCKS_PER_PASS: u64 = 100;

/// Bytes in one block, as a 64-bit count.
pub const BLOCK_SIZE: u64 = 1048576;

/// How many blocks one pass writes.
#[derive(Clone, Copy, Debug, PartialEq, Eq, Structural)]
pub enum PassLength {
    /// Always the full bound of blocks per pass.
    Fixed,
    /// The bound, or fewer where the volume's reported capacity is smaller.
    CapacityBounded,
}

/// Blocks per pass under `policy` for a volume of `capacity` bytes.
pub open spec fn blocks_for(policy: PassLength, capacity: u64) -> u64 {
    match policy {
        PassLength::Fixed => MAX_BLOCKS_PER_PASS,
        PassLength::CapacityBounded => if capacity / BLOCK_SIZE < MAX_BLOCKS_PER_PASS {
            capacity / BLOCK_SIZE
        } else {
            MAX_BLOCKS_PER_PASS
        },
    }
}

/// The pattern of pass `pass`: zeros first, then ones, then random bytes.
pub open spec fn fill_of(pass: u64) -> Fill {
    if pass == 0 {
        Fill::Zeros
    } else if pass == 1 {
        Fill::Ones
    } else {
        Fill::Random
    }
}

/// A caller's request to destroy the contents of one volume.
#[derive(Clone, Debug)]
pub struct SanitizationRequest {
    pub identifier: String,
    /// The caller attests that the user explicitly consented.
    pub confirmed: bool,
    pub pass_length: PassLength,
}

/// The summary of a completed overwrite.
#[derive(Clone, Debug)]
pub struct SanitizationOutcome {
    pub identifier: String,
    pub passes: u64,
    pub blocks_per_pass: u64,
    pub bytes_written: u64,
}

/// Where a sanitization stands.
#[derive(Clone, Copy, Debug, PartialEq, Eq, Structural)]
pub enum Stage {
    /// Waiting for a fresh catalog.
    Listing,
    /// Waiting to learn whether the target path still exists.
    Probing,
    /// Waiting for the scratch file to be created.
    Creating,
    /// Waiting for block `block` of pass `pass` to be written.
    Writing { pass: u64, block: u64 },
    /// Waiting for pass `pass` to be flushed to persistent storage.
    Flushing { pass: u64 },
    /// Waiting for the scratch file to be removed.
    Removing,
    /// Nothing more to do.
    Finished,
}

/// What the caller must do next.
#[derive(Clone, Debug)]
pub enum Action {
    /// Enumerate the volumes afresh and report `Event::Listed` or `Event::ListingFailed`.
    Enumerate,
    /// Report with `Event::PathChecked` whether this path exists.
    CheckPath(String),
    /// Create (or truncate) the scratch file at this path.
    CreateScratch(String),
    /// Write one block of this pattern to the scratch file.
    Write(Fill),
    /// Force the scratch file's written data to persistent storage.
    Flush,
    /// Remove the scratch file at this path.
    RemoveScratch(String),
    /// The sanitization succeeded.
    Complete(SanitizationOutcome),
    /// The sanitization failed.
    Fail(SanitizeError),
}

/// What the caller observed while doing the last action.
#[derive(Clone, Debug)]
pub enum Event {
    Listed(Vec<VolumeDescriptor>),
    ListingFailed,
    PathChecked(bool),
    /// The last file operation succeeded.
    Done,
    /// The last file operation failed, with the underlying cause.
    IoFailed(String),
}

/// The path of the scratch file on the volume `identifier`.
pub open spec fn scratch_path_of(identifier: Seq<char>) -> Seq<char> {
    identifier + "/temp_sanitize_file"@
}

/// The path of the scratch file on the volume `identifier`.
pub fn scratch_path(identifier: &String) -> (p: String)
    ensures
        p@ == scratch_path_of(identifier@),
{
    let mut p = identifier.clone();
    p.append("/temp_sanitize_file");
    p
}

/// One sanitization in progress.
pub struct Sanitization {
    pub identifier: String,
    pub pass_length: PassLength,
    /// Blocks per pass, fixed once the target has been resolved.
    pub blocks: u64,
    pub stage: Stage,
    /// Bytes acknowledged as written so far.
    pub written: u64,
}

/// Whether `event` is an answer to the action that leads to `stage`.
pub open spec fn answers(stage: Stage, event: Event) -> bool {
    match stage {
        Stage::Listing => event is Listed || event is ListingFailed,
        Stage::Probing => event is PathChecked,
        Stage::Finished => false,
        _ => event is Done || event is IoFailed,
    }
}

impl Sanitization {
    /// The bytes counted through `stage`: every block written in earlier passes
    /// and earlier in the current one.
    pub open spec fn well_formed(&self) -> bool {
        &&& self.blocks <= MAX_BLOCKS_PER_PASS
        &&& match self.stage {
            Stage::Listing | Stage::Probing | Stage::Creating => self.written == 0,
            Stage::Writing { pass, block } => pass < PASSES && block < self.blocks && self.written
                == (pass * self.blocks + block) * BLOCK_SIZE,
            Stage::Flushing { pass } => pass < PASSES && self.written == (pass + 1) * self.blocks
                * BLOCK_SIZE,
            Stage::Removing => self.written == PASSES * self.blocks * BLOCK_SIZE,
            Stage::Finished => true,
        }
    }

    /// Starts a sanitization. Without confirmation it fails at once and asks
    /// for no enumeration and no file operation.
    pub fn start(request: &SanitizationRequest) -> (r: (Sanitization, Action))
        ensures
            r.0.well_formed(),
            r.0.identifier@ == request.identifier@,
            r.0.pass_length == request.pass_length,
            !request.confirmed ==> r.0.stage is Finished && r.1 == Action::Fail(
                SanitizeError::ConfirmationRequired,
            ),
            request.confirmed ==> r.0.stage is Listing && r.1 is Enumerate,
    {
        let s = Sanitization {
            identifier: request.identifier.clone(),
            pass_length: request.pass_length,
            blocks: 0,
            stage: if request.confirmed { Stage::Listing } else { Stage::Finished },
            written: 0,
        };
        if request.confirmed {
            (s, Action::Enumerate)
        } else {
            (s, Action::Fail(SanitizeError::ConfirmationRequired))
        }
    }

    /// Whether `event` answers the action this sanitization last asked for.
    pub fn accepts(&self, event: &Event) -> (r: bool)
        ensures
            r == answers(self.stage, *event),
    {
        match self.stage {
            Stage::Listing => matches!(event, Event::Listed(_) | Event::ListingFailed),
            Stage::Probing => matches!(event, Event::PathChecked(_)),
            Stage::Finished => false,
            _ => matches!(event, Event::Done | Event::IoFailed(_)),
        }
    }
}

/// Blocks per pass under `policy` for a volume of `capacity` bytes.
pub fn blocks_per_pass(policy: PassLength, capacity: u64) -> (r: u64)
    ensures
        r == blocks_for(policy, capacity),
{
    match policy {
        PassLength::Fixed => MAX_BLOCKS_PER_PASS,
        PassLength::CapacityBounded => {
            let whole = capacity / BLOCK_SIZE;
            if whole < MAX_BLOCKS_PER_PASS {
                whole
            } else {
                MAX_BLOCKS_PER_PASS
            }
        },
    }
}

/// The pattern of pass `pass`.
pub fn pass_fill(pass: u64) -> (f: Fill)
    ensures
        f == fill_of(pass),
{
    if pass == 0 {
        Fill::Zeros
    } else if pass == 1 {
        Fill::Ones
    } else {
        Fill::Random
    }
}

/// The stage and action that begin pass `pass`: its first write, or its flush
/// where a pass has no blocks.
pub open spec fn pass_entry(blocks: u64, pass: u64, stage: Stage, action: Action) -> bool {
    if blocks > 0 {
        stage == (Stage::Writing { pass, block: 0 }) && action == Action::Write(fill_of(pass))
    } else {
        stage == (Stage::Flushing { pass }) && action == Action::Flush
    }
}

fn enter_pass(blocks: u64, pass: u64) -> (r: (Stage, Action))
    ensures
        pass_entry(blocks, pass, r.0, r.1),
{
    if blocks > 0 {
        (Stage::Writing { pass, block: 0 }, Action::Write(pass_fill(pass)))
    } else {
        (Stage::Flushing { pass }, Action::Flush)
    }
}

/// One step of a sanitization: from `s`, the answer `e` leads to state `t`
/// and the next action `a`.
pub open spec fn transition(s: Sanitization, e: Event, t: Sanitization, a: Action) -> bool {
    let id = s.identifier@;
    &&& t.identifier == s.identifier
    &&& t.pass_length == s.pass_length
    &&& !(s.stage is Listing) ==> t.blocks == s.blocks
    // resolving the target against the fresh catalog; a system volume stops here
    &&& s.stage is Listing && e is ListingFailed ==> t.stage is Finished && a == Action::Fail(
        SanitizeError::EnumerationFailure,
    )
    &&& s.stage is Listing && e is Listed ==> match safety_verdict(e->Listed_0@, id) {
        Err(err) => t.stage is Finished && a == Action::Fail(err),
        Ok(_) => {
            &&& t.stage is Probing
            &&& a is CheckPath && a->CheckPath_0@ == id
            &&& forall|i: int| #[trigger]
                first_named(e->Listed_0@, id, i) ==> t.blocks == blocks_for(
                    s.pass_length,
                    e->Listed_0@[i].capacity_bytes,
                )
        },
    }
    // the target path must still exist
    &&& s.stage is Probing && e == Event::PathChecked(false) ==> t.stage is Finished && a
        == Action::Fail(SanitizeError::NotFound)
    &&& s.stage is Probing && e == Event::PathChecked(true) ==> t.stage is Creating
        && a is CreateScratch && a->CreateScratch_0@ == scratch_path_of(id)
    // any failed file operation ends the sanitization with its cause
    &&& e is IoFailed ==> t.stage is Finished && a == Action::Fail(
        SanitizeError::IoFailure(e->IoFailed_0),
    )
    // the overwrite passes
    &&& s.stage is Creating && e is Done ==> pass_entry(s.blocks, 0, t.stage, a)
    &&& s.stage is Writing && e is Done ==> {
        let pass = s.stage->Writing_pass;
        let block = s.stage->Writing_block;
        &&& t.written == s.written + BLOCK_SIZE
        &&& block + 1 < s.blocks ==> t.stage == (Stage::Writing { pass, block: (block + 1) as u64 })
            && a == Action::Write(fill_of(pass))
        &&& block + 1 >= s.blocks ==> t.stage == (Stage::Flushing { pass }) && a == Action::Flush
    }
    &&& s.stage is Flushing && e is Done ==> {
        let pass = s.stage->Flushing_pass;
        &&& pass + 1 < PASSES ==> pass_entry(s.blocks, (pass + 1) as u64, t.stage, a)
        &&& pass + 1 >= PASSES ==> t.stage is Removing && a is RemoveScratch
            && a->RemoveScratch_0@ == scratch_path_of(id)
    }
    &&& s.stage is Removing && e is Done ==> t.stage is Finished && a == Action::Complete(
        SanitizationOutcome {
            identifier: s.identifier,
            passes: PASSES,
            blocks_per_pass: s.blocks,
            bytes_written: (PASSES * s.blocks * BLOCK_SIZE) as u64,
        },
    )
}

impl Sanitization {
    /// Advances the sanitization by the answer to its last action and returns
    /// the next action. A system volume never gets past the resolution of the
    /// catalog, whatever the caller checked before.
    pub fn step(&mut self, event: Event) -> (a: Action)
        requires
            old(self).well_formed(),
            answers(old(self).stage, event),
        ensures
            final(self).well_formed(),
            transition(*old(self), event, *final(self), a),
    {
        let blocks = self.blocks;
        match event {
            Event::IoFailed(detail) => {
                self.stage = Stage::Finished;
                Action::Fail(SanitizeError::IoFailure(detail))
            },
            Event::ListingFailed => {
                self.stage = Stage::Finished;
                Action::Fail(SanitizeError::EnumerationFailure)
            },
            Event::Listed(volumes) => {
                match check_safety(&volumes, &self.identifier) {
                    Err(e) => {
                        self.stage = Stage::Finished;
                        Action::Fail(e)
                    },
                    Ok(_) => {
                        let i = find_volume(&volumes, &self.identifier).unwrap();
                        self.blocks = blocks_per_pass(self.pass_length, volumes[i].capacity_bytes);
                        self.stage = Stage::Probing;
                        proof {
                            assert forall|j: int| #[trigger]
                                first_named(volumes@, self.identifier@, j) implies j == i by {
                                if j < i {
                                    assert(volumes@[j].identifier@ == self.identifier@);
                                } else if i < j {
                                    assert(volumes@[i as int].identifier@ == self.identifier@);
                                }
                            }
                        }
                        Action::CheckPath(self.identifier.clone())
                    },
                }
            },
            Event::PathChecked(exists) => {
                if exists {
                    self.stage = Stage::Creating;
                    Action::CreateScratch(scratch_path(&self.identifier))
                } else {
                    self.stage = Stage::Finished;
                    Action::Fail(SanitizeError::NotFound)
                }
            },
            Event::Done => {
                match self.stage {
                    Stage::Creating => {
                        let (stage, action) = enter_pass(blocks, 0);
                        self.stage = stage;
                        proof {
                            assert((0 * blocks + 0) * BLOCK_SIZE == 0) by (nonlinear_arith);
                            assert((0 + 1) * blocks * BLOCK_SIZE == blocks * BLOCK_SIZE) by (nonlinear_arith);
                        }
                        action
                    },
                    Stage::Writing { pass, block } => {
                        proof {
                            assert((pass * blocks + block + 1) * BLOCK_SIZE == (pass * blocks
                                + block) * BLOCK_SIZE + BLOCK_SIZE) by (nonlinear_arith);
                            assert(pass * blocks + block + 1 <= PASSES * MAX_BLOCKS_PER_PASS)
                                by (nonlinear_arith)
                                requires
                                    pass < PASSES,
                                    block < blocks,
                                    blocks <= MAX_BLOCKS_PER_PASS,
                            ;
                            assert((pass * blocks + block + 1) * BLOCK_SIZE <= PASSES
                                * MAX_BLOCKS_PER_PASS * BLOCK_SIZE) by (nonlinear_arith)
                                requires
                                    pass * blocks + block + 1 <= PASSES * MAX_BLOCKS_PER_PASS,
                            ;
                            if block + 1 >= blocks {
                                assert(pass * blocks + block + 1 == (pass + 1) * blocks)
                                    by (nonlinear_arith)
                                    requires
                                        block + 1 == blocks,
                                ;
                            }
                        }
                        self.written = self.written + BLOCK_SIZE;
                        if block + 1 < blocks {
                            self.stage = Stage::Writing { pass, block: block + 1 };
                            Action::Write(pass_fill(pass))
                        } else {
                            self.stage = Stage::Flushing { pass };
                            Action::Flush
                        }
                    },
                    Stage::Flushing { pass } => {
                        if pass + 1 < PASSES {
                            let (stage, action) = enter_pass(blocks, pass + 1);
                            self.stage = stage;
                            proof {
                                assert(((pass + 1) * blocks + 0) * BLOCK_SIZE == (pass + 1) * blocks
                                    * BLOCK_SIZE) by (nonlinear_arith);
                                if blocks == 0 {
                                    assert((pass + 1 + 1) * blocks * BLOCK_SIZE == (pass + 1)
                                        * blocks * BLOCK_SIZE) by (nonlinear_arith)
                                        requires
                                            blocks == 0,
                                    ;
                                }
                            }
                            action
                        } else {
                            self.stage = Stage::Removing;
                            Action::RemoveScratch(scratch_path(&self.identifier))
                        }
                    },
                    _ => {
                        proof {
                            assert(PASSES * blocks * BLOCK_SIZE <= PASSES * MAX_BLOCKS_PER_PASS
                                * BLOCK_SIZE) by (nonlinear_arith)
                                requires
                                    blocks <= MAX_BLOCKS_PER_PASS,
                            ;
                        }
                        self.stage = Stage::Finished;
                        Action::Complete(
                            SanitizationOutcome {
                                identifier: self.identifier.clone(),
                                passes: PASSES,
                                blocks_per_pass: blocks,
                                bytes_written: self.written,
                            },
                        )
                    },
                }
            },
        }
    }
}

} // verus!
