//! Process-wide switches.
//!
//! A switch is read from its variable once; the first reading stands for the
//! life of the process.
use vstd::prelude::*;

verus! {

/// A switch that keeps its first reading.
pub struct Latch {
    value: Option<bool>,
}

impl View for Latch {
    type V = Option<bool>;

    closed spec fn view(&self) -> Option<bool> {
        self.value
    }
}

/// What a latch holds after it was offered a reading.
pub open spec fn latched(held: Option<bool>, reading: bool) -> bool {
    match held {
        Some(b) => b,
        None => reading,
    }
}

impl Latch {
    /// A switch that was not read yet.
    pub fn new() -> (r: Latch)
        ensures
            r@ is None,
    {
        Latch { value: None }
    }

    /// The reading that the switch keeps: the one it holds, or `reading` when
    /// it holds none yet.
    pub fn get_or_init(&mut self, reading: bool) -> (r: bool)
        ensures
            r == latched(old(self)@, reading),
            final(self)@ == Some(r),
    {
        match self.value {
            Some(b) => b,
            None => {
                self.value = Some(reading);
                reading
            },
        }
    }
}

/// Whether a variable switches its feature on: it is set, and to `1` exactly.
pub open spec fn switched_on(var: Option<String>) -> bool {
    match var {
        Some(s) => s@ == "1"@,
        None => false,
    }
}

/// Whether a variable switches its feature on.
pub fn reads_on(var: &Option<String>) -> (r: bool)
    ensures
        r == switched_on(*var),
{
    match var {
        Some(s) => *s == "1".to_owned(),
        None => false,
    }
}

/// Whether the fused-QK kernels are enabled. `var` is what the environment
/// holds under their name; only the first reading counts.
pub fn fused_qk_enabled(latch: &mut Latch, var: &Option<String>) -> (r: bool)
    ensures
        r == latched(old(latch)@, switched_on(*var)),
        final(latch)@ == Some(r),
{
    latch.get_or_init(reads_on(var))
}

/// Whether the two-phase sparse-attention kernels are enabled. `var` is what
/// the environment holds under their name; only the first reading counts.
pub fn sparse_attn_enabled(latch: &mut Latch, var: &Option<String>) -> (r: bool)
    ensures
        r == latched(old(latch)@, switched_on(*var)),
        final(latch)@ == Some(r),
{
    latch.get_or_init(reads_on(var))
}

/// Whether the device-resident mirror of the isoclinic V store is kept. It
/// never is: measurements showed no gain on the path that would read it.
pub fn gpu_resident_iso_enabled() -> (r: bool)
    ensures
        !r,
{
    false
}

/// A stand-in for [`gpu_resident_iso_enabled`] that a test can switch, up to
/// the first reading.
pub struct IsoOverride {
    flag: bool,
    latch: Latch,
}

impl IsoOverride {
    /// What the next first reading would see.
    pub closed spec fn flag(&self) -> bool {
        self.flag
    }

    /// The reading that is kept, once there is one.
    pub closed spec fn reading(&self) -> Option<bool> {
        self.latch@
    }

    /// Switched off and not read yet.
    pub fn new() -> (r: IsoOverride)
        ensures
            !r.flag(),
            r.reading() is None,
    {
        IsoOverride { flag: false, latch: Latch::new() }
    }

    /// Switches the stand-in. It has no effect once the switch was read.
    pub fn set_gpu_resident_iso_for_test(&mut self, enabled: bool)
        ensures
            final(self).flag() == enabled,
            final(self).reading() == old(self).reading(),
    {
        self.flag = enabled;
    }

    /// The stand-in's answer.
    pub fn gpu_resident_iso_enabled(&mut self) -> (r: bool)
        ensures
            r == latched(old(self).reading(), old(self).flag()),
            final(self).reading() == Some(r),
            final(self).flag() == old(self).flag(),
    {
        self.latch.get_or_init(self.flag)
    }
}

/// Once read, a switch answers the same whatever its variable holds later on.
pub proof fn law_first_reading_stands(held: Option<bool>, first: bool, later: bool)
    ensures
        latched(Some(latched(held, first)), later) == latched(held, first),
{
}

/// A feature is switched on by a variable that holds the one digit `1`, and by no
/// other content, nor by a variable that is not set.
pub proof fn law_only_one_switches_on(var: Option<String>)
    ensures
        switched_on(var) <==> (var matches Some(s) && s@.len() == 1 && s@[0] == '1'),
{
    reveal_strlit("1");
    if let Some(s) = var {
        if s@.len() == 1 && s@[0] == '1' {
            assert(s@ =~= "1"@);
        }
    }
}

/// A switch that was not read yet takes the first reading it is offered.
pub proof fn law_first_reading_is_taken(reading: bool)
    ensures
        latched(None, reading) == reading,
{
}

} // verus!
