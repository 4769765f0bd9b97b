use vstd::prelude::*;

verus! {

/// The operating system's figures, as sysinfo gathered them.
#[verifier::external_type_specification]
#[verifier::external_body]
pub struct ExSystem(sysinfo::System);

/// One CPU as sysinfo describes it.
#[verifier::external_type_specification]
#[verifier::external_body]
pub struct ExCpu(sysinfo::Cpu);

/// The number of CPUs that `s` holds from its last refresh.
pub uninterp spec fn cpu_count_of(s: sysinfo::System) -> nat;

/// Relies on sysinfo's `System::cpus`: the CPUs that the value holds from its
/// last refresh, one per logical core.
pub assume_specification[ sysinfo::System::cpus ](s: &sysinfo::System) -> (r: &[sysinfo::Cpu])
    ensures
        r@.len() == cpu_count_of(*s),
;

} // verus!
