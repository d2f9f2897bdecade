//! Flake locking: lock modes, lock-file replies, and the builder that
//! plans how a set of inputs is locked.

use vstd::prelude::*;

verus! {

/// Locking mode for flake inputs.
#[derive(Debug, Clone, Copy, PartialEq, Eq, Structural)]
pub enum LockMode {
    /// Compute locks and write to disk if changes are needed.
    WriteAsNeeded,
    /// Compute locks in memory only, don't write to disk.
    Virtual,
    /// Check if locks are up-to-date, fail if updates are needed.
    Check,
}

/// One setting applied to the lock flags before locking.
pub enum FlagStep<'a, FR> {
    /// Write changes to the lock file as needed.
    ModeWriteAsNeeded,
    /// Lock in memory only.
    ModeVirtual,
    /// Fail if the lock file is not up to date.
    ModeCheck,
    /// Enable or disable registry lookups.
    UseRegistries(bool),
    /// Re-resolve all inputs from scratch.
    RecreateLockFile,
    /// Ignore the existing lock of an input.
    AddInputUpdate(String),
    /// Replace an input by a flake reference.
    AddInputOverride(String, &'a FR),
}

/// Why a lock cannot be computed.
#[derive(Debug, Clone, Copy, PartialEq, Eq, Structural)]
pub enum LockerError {
    /// No inputs were given.
    InputsNotSet,
    /// No source path was given.
    SourcePathNotSet,
}

/// The arguments of the final call that computes the lock file.
pub struct LockCall<'a, FI, LF> {
    pub inputs: FI,
    pub source_path: String,
    pub old_lock: Option<&'a LF>,
}

/// How a lock is computed: the flake settings to create the flags with,
/// the settings to apply to them in order (stopping at the first that
/// fails), and then either the locking call or the reason it cannot be
/// made.
pub struct LockPlan<'a, FS, FI, LF, FR> {
    pub flake_settings: &'a FS,
    pub flag_steps: Vec<FlagStep<'a, FR>>,
    pub finish: Result<LockCall<'a, FI, LF>, LockerError>,
}

/// The flag step that selects a lock mode.
pub open spec fn mode_step<'a, FR>(mode: LockMode) -> FlagStep<'a, FR> {
    match mode {
        LockMode::WriteAsNeeded => FlagStep::ModeWriteAsNeeded,
        LockMode::Virtual => FlagStep::ModeVirtual,
        LockMode::Check => FlagStep::ModeCheck,
    }
}

/// The flag steps for input updates, in order.
pub open spec fn update_steps<'a, FR>(updates: Seq<String>) -> Seq<FlagStep<'a, FR>> {
    updates.map_values(|u: String| FlagStep::AddInputUpdate(u))
}

/// The flag steps for input overrides, in order.
pub open spec fn override_steps<'a, FR>(overrides: Seq<(String, &'a FR)>) -> Seq<FlagStep<'a, FR>> {
    overrides.map_values(|o: (String, &'a FR)| FlagStep::AddInputOverride(o.0, o.1))
}

/// All flag steps of a lock: the mode, the registry setting, recreating
/// the lock file when all inputs are updated, the updates, the overrides.
pub open spec fn planned_steps<'a, FR>(
    mode: LockMode,
    use_registries: bool,
    update_all: bool,
    updates: Seq<String>,
    overrides: Seq<(String, &'a FR)>,
) -> Seq<FlagStep<'a, FR>> {
    seq![mode_step(mode), FlagStep::UseRegistries(use_registries)]
        + (if update_all { seq![FlagStep::RecreateLockFile] } else { Seq::empty() })
        + update_steps(updates)
        + override_steps(overrides)
}

/// Every requested update and every override is applied, in the order
/// given, after the mode, the registry setting and the optional
/// recreation of the lock file; nothing else is applied.
pub proof fn lemma_plan_applies_every_request<'a, FR>(
    mode: LockMode,
    use_registries: bool,
    update_all: bool,
    updates: Seq<String>,
    overrides: Seq<(String, &'a FR)>,
)
    ensures
        ({
            let steps = planned_steps(mode, use_registries, update_all, updates, overrides);
            let base: int = if update_all { 3 } else { 2 };
            &&& steps.len() == base + updates.len() + overrides.len()
            &&& steps[0] == mode_step::<FR>(mode)
            &&& steps[1] == FlagStep::<FR>::UseRegistries(use_registries)
            &&& update_all ==> steps[2] == FlagStep::<FR>::RecreateLockFile
            &&& forall|i: int| 0 <= i < updates.len() ==> #[trigger] steps[base + i] == FlagStep::<FR>::AddInputUpdate(updates[i])
            &&& forall|j: int| 0 <= j < overrides.len() ==> #[trigger] steps[base + updates.len() + j] == FlagStep::<FR>::AddInputOverride(overrides[j].0, overrides[j].1)
        }),
{
    let steps = planned_steps(mode, use_registries, update_all, updates, overrides);
    let base: int = if update_all { 3 } else { 2 };
    let head = seq![mode_step::<FR>(mode), FlagStep::<FR>::UseRegistries(use_registries)]
        + (if update_all { seq![FlagStep::<FR>::RecreateLockFile] } else { Seq::empty() });
    assert(head.len() == base);
    assert forall|i: int| 0 <= i < updates.len() implies #[trigger] steps[base + i] == FlagStep::<FR>::AddInputUpdate(updates[i]) by {
        assert(steps[base + i] == (head + update_steps::<FR>(updates))[base + i]);
    }
    assert forall|j: int| 0 <= j < overrides.len() implies #[trigger] steps[base + updates.len() + j] == FlagStep::<FR>::AddInputOverride(overrides[j].0, overrides[j].1) by {
    }
}

/// High-level builder for locking flake inputs.
///
/// It gathers the inputs, the source path, an old lock file, the inputs
/// to update and to override, the mode and the registry setting, and
/// plans the locking from them.
pub struct InputsLocker<'a, FS, FI, LF, FR> {
    flake_settings: &'a FS,
    inputs: Option<FI>,
    source_path: Option<String>,
    old_lock: Option<&'a LF>,
    updates: Vec<String>,
    update_all: bool,
    overrides: Vec<(String, &'a FR)>,
    mode: LockMode,
    use_registries: bool,
}

impl<'a, FS, FI, LF, FR> InputsLocker<'a, FS, FI, LF, FR> {
    pub closed spec fn settings(&self) -> &'a FS {
        self.flake_settings
    }

    pub closed spec fn inputs_spec(&self) -> Option<FI> {
        self.inputs
    }

    pub closed spec fn source_path_spec(&self) -> Option<String> {
        self.source_path
    }

    pub closed spec fn old_lock_spec(&self) -> Option<&'a LF> {
        self.old_lock
    }

    pub closed spec fn updates_spec(&self) -> Seq<String> {
        self.updates@
    }

    pub closed spec fn update_all_spec(&self) -> bool {
        self.update_all
    }

    pub closed spec fn overrides_spec(&self) -> Seq<(String, &'a FR)> {
        self.overrides@
    }

    pub closed spec fn mode_spec(&self) -> LockMode {
        self.mode
    }

    pub closed spec fn use_registries_spec(&self) -> bool {
        self.use_registries
    }

    /// `self` and `other` agree on everything but the fields named false.
    pub open spec fn same_except(
        &self,
        other: &Self,
        inputs: bool,
        source_path: bool,
        old_lock: bool,
        updates: bool,
        update_all: bool,
        overrides: bool,
        mode: bool,
        use_registries: bool,
    ) -> bool {
        &&& self.settings() == other.settings()
        &&& inputs ==> self.inputs_spec() == other.inputs_spec()
        &&& source_path ==> self.source_path_spec() == other.source_path_spec()
        &&& old_lock ==> self.old_lock_spec() == other.old_lock_spec()
        &&& updates ==> self.updates_spec() == other.updates_spec()
        &&& update_all ==> self.update_all_spec() == other.update_all_spec()
        &&& overrides ==> self.overrides_spec() == other.overrides_spec()
        &&& mode ==> self.mode_spec() == other.mode_spec()
        &&& use_registries ==> self.use_registries_spec() == other.use_registries_spec()
    }

    /// Create a new locker with the given flake settings: nothing set, no
    /// updates or overrides, mode `WriteAsNeeded`, registries disabled.
    pub fn new(flake_settings: &'a FS) -> (l: Self)
        ensures
            l.settings() == flake_settings,
            l.inputs_spec() is None,
            l.source_path_spec() is None,
            l.old_lock_spec() is None,
            l.updates_spec() == Seq::<String>::empty(),
            !l.update_all_spec(),
            l.overrides_spec() == Seq::<(String, &'a FR)>::empty(),
            l.mode_spec() == LockMode::WriteAsNeeded,
            !l.use_registries_spec(),
    {
        InputsLocker {
            flake_settings,
            inputs: None,
            source_path: None,
            old_lock: None,
            updates: Vec::new(),
            update_all: false,
            overrides: Vec::new(),
            mode: LockMode::WriteAsNeeded,
            use_registries: false,
        }
    }

    /// Set the inputs to lock.
    pub fn with_inputs(self, inputs: FI) -> (l: Self)
        ensures
            l.inputs_spec() == Some(inputs),
            l.same_except(&self, false, true, true, true, true, true, true, true),
    {
        let mut s = self;
        s.inputs = Some(inputs);
        s
    }

    /// Set the source path for resolving relative references.
    pub fn source_path<P: Into<String>>(self, path: P) -> (l: Self)
        ensures
            l.source_path_spec() is Some,
            <P as vstd::std_specs::convert::IntoSpec<String>>::obeys_into_spec() ==> l.source_path_spec() == Some(<P as vstd::std_specs::convert::IntoSpec<String>>::into_spec(path)),
            l.same_except(&self, true, false, true, true, true, true, true, true),
    {
        let mut s = self;
        s.source_path = Some(path.into());
        s
    }

    /// Set the old lock file to use as basis for incremental updates.
    pub fn old_lock_file(self, lock: &'a LF) -> (l: Self)
        ensures
            l.old_lock_spec() == Some(lock),
            l.same_except(&self, true, true, false, true, true, true, true, true),
    {
        let mut s = self;
        s.old_lock = Some(lock);
        s
    }

    /// Mark a single input for update (ignore its existing lock).
    pub fn update_input<I: Into<String>>(self, input: I) -> (l: Self)
        ensures
            l.updates_spec().len() == self.updates_spec().len() + 1,
            l.updates_spec().drop_last() == self.updates_spec(),
            <I as vstd::std_specs::convert::IntoSpec<String>>::obeys_into_spec() ==> l.updates_spec().last() == <I as vstd::std_specs::convert::IntoSpec<String>>::into_spec(input),
            l.same_except(&self, true, true, true, false, true, true, true, true),
    {
        let mut s = self;
        s.updates.push(input.into());
        s
    }

    /// Mark multiple inputs for update, after those already marked.
    pub fn update_inputs(self, inputs: Vec<String>) -> (l: Self)
        ensures
            l.updates_spec() == self.updates_spec() + inputs@,
            l.same_except(&self, true, true, true, false, true, true, true, true),
    {
        let mut s = self;
        let mut more = inputs;
        s.updates.append(&mut more);
        s
    }

    /// Recreate the lock file from scratch, re-resolving all inputs.
    pub fn update_all(self) -> (l: Self)
        ensures
            l.update_all_spec(),
            l.same_except(&self, true, true, true, true, false, true, true, true),
    {
        let mut s = self;
        s.update_all = true;
        s
    }

    /// Override a single input with a specific flake reference.
    pub fn override_input<P: Into<String>>(self, path: P, flake_ref: &'a FR) -> (l: Self)
        ensures
            l.overrides_spec().len() == self.overrides_spec().len() + 1,
            l.overrides_spec().drop_last() == self.overrides_spec(),
            l.overrides_spec().last().1 == flake_ref,
            <P as vstd::std_specs::convert::IntoSpec<String>>::obeys_into_spec() ==> l.overrides_spec().last().0 == <P as vstd::std_specs::convert::IntoSpec<String>>::into_spec(path),
            l.same_except(&self, true, true, true, true, true, false, true, true),
    {
        let mut s = self;
        s.overrides.push((path.into(), flake_ref));
        s
    }

    /// Add several input overrides, after those already given.
    pub fn overrides(self, overrides: Vec<(String, &'a FR)>) -> (l: Self)
        ensures
            l.overrides_spec() == self.overrides_spec() + overrides@,
            l.same_except(&self, true, true, true, true, true, false, true, true),
    {
        let mut s = self;
        let mut more = overrides;
        s.overrides.append(&mut more);
        s
    }

    /// Set the locking mode.
    pub fn mode(self, mode: LockMode) -> (l: Self)
        ensures
            l.mode_spec() == mode,
            l.same_except(&self, true, true, true, true, true, true, false, true),
    {
        let mut s = self;
        s.mode = mode;
        s
    }

    /// Enable or disable registry lookups for flake input resolution.
    pub fn use_registries(self, use_registries: bool) -> (l: Self)
        ensures
            l.use_registries_spec() == use_registries,
            l.same_except(&self, true, true, true, true, true, true, true, false),
    {
        let mut s = self;
        s.use_registries = use_registries;
        s
    }

    /// Plans the locking operation from all accumulated settings: the flag
    /// steps in order, then the locking call, which needs the inputs and
    /// then the source path.
    pub fn lock_plan(self) -> (p: LockPlan<'a, FS, FI, LF, FR>)
        ensures
            p.flake_settings == self.settings(),
            p.flag_steps@ == planned_steps(
                self.mode_spec(),
                self.use_registries_spec(),
                self.update_all_spec(),
                self.updates_spec(),
                self.overrides_spec(),
            ),
            self.inputs_spec() is None ==> p.finish == Err::<LockCall<'a, FI, LF>, LockerError>(
                LockerError::InputsNotSet,
            ),
            self.inputs_spec() is Some && self.source_path_spec() is None ==> p.finish == Err::<
                LockCall<'a, FI, LF>,
                LockerError,
            >(LockerError::SourcePathNotSet),
            self.inputs_spec() is Some && self.source_path_spec() is Some ==> p.finish == Ok::<
                LockCall<'a, FI, LF>,
                LockerError,
            >(
                LockCall {
                    inputs: self.inputs_spec().unwrap(),
                    source_path: self.source_path_spec().unwrap(),
                    old_lock: self.old_lock_spec(),
                },
            ),
    {
        let ghost updates = self.updates@;
        let ghost overrides = self.overrides@;
        let mut steps: Vec<FlagStep<'a, FR>> = Vec::new();
        let mode = match self.mode {
            LockMode::WriteAsNeeded => FlagStep::ModeWriteAsNeeded,
            LockMode::Virtual => FlagStep::ModeVirtual,
            LockMode::Check => FlagStep::ModeCheck,
        };
        steps.push(mode);
        steps.push(FlagStep::UseRegistries(self.use_registries));
        if self.update_all {
            steps.push(FlagStep::RecreateLockFile);
        }
        let ghost head = steps@;
        let mut i: usize = 0;
        while i < self.updates.len()
            invariant
                i <= self.updates@.len(),
                self.updates@ == updates,
                steps@ == head + update_steps::<FR>(updates.take(i as int)),
            decreases self.updates@.len() - i,
        {
            let u = self.updates[i].clone();
            steps.push(FlagStep::AddInputUpdate(u));
            i = i + 1;
            proof {
                assert(updates.take(i as int) == updates.take(i - 1).push(updates[i - 1]));
            }
        }
        assert(updates.take(updates.len() as int) == updates);
        let ghost middle = steps@;
        let mut j: usize = 0;
        while j < self.overrides.len()
            invariant
                j <= self.overrides@.len(),
                self.overrides@ == overrides,
                steps@ == middle + override_steps::<FR>(overrides.take(j as int)),
            decreases self.overrides@.len() - j,
        {
            let path = self.overrides[j].0.clone();
            let r = self.overrides[j].1;
            steps.push(FlagStep::AddInputOverride(path, r));
            j = j + 1;
            proof {
                assert(overrides.take(j as int) == overrides.take(j - 1).push(overrides[j - 1]));
            }
        }
        assert(overrides.take(overrides.len() as int) == overrides);
        let finish = match self.inputs {
            None => Err(LockerError::InputsNotSet),
            Some(inputs) => match self.source_path {
                None => Err(LockerError::SourcePathNotSet),
                Some(source_path) => Ok(LockCall { inputs, source_path, old_lock: self.old_lock }),
            },
        };
        LockPlan { flake_settings: self.flake_settings, flag_steps: steps, finish }
    }
}

/// A lock file's reply in which the empty string means "none": the first
/// unlocked input, or the fingerprint of an input.
pub fn optional_reply(reply: String) -> (r: Option<String>)
    ensures
        reply@.len() == 0 ==> r is None,
        reply@.len() != 0 ==> r == Some(reply),
{
    if reply.as_str().is_empty() {
        None
    } else {
        Some(reply)
    }
}

/// Whether two lock files differ, from the result of comparing them for
/// equality; an error of the comparison is passed on.
pub fn has_changes_from<E>(equality: Result<bool, E>) -> (r: Result<bool, E>)
    ensures
        equality matches Ok(eq) ==> r == Ok::<bool, E>(!eq),
        equality matches Err(e) ==> r == Err::<bool, E>(e),
{
    match equality {
        Ok(eq) => Ok(!eq),
        Err(e) => Err(e),
    }
}

} // verus!
