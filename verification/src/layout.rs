//! Layout planner: computes the shrunk RAM window.

use vstd::prelude::*;

verus! {

/// The planner's output: the rewritten `RAM` region.  Its upper bound
/// `new_origin + new_length` always equals the original region's upper
/// bound; only the lower bound moves up (or, after alignment, slightly
/// down past the original origin).
#[derive(Clone, Copy, Debug, PartialEq, Eq, Structural)]
pub struct RamWindow {
    pub new_origin: u64,
    pub new_length: u64,
}

/// Mathematical mirror of `round_down_to_nearest_multiple`.
pub open spec fn spec_round_down(x: int, multiple: u64) -> int {
    x - x % (multiple as int)
}

pub open spec fn spec_max(a: u64, b: u64) -> u64 {
    if a > b { a } else { b }
}

/// Rounding down to a positive multiple stays within `[x - multiple + 1, x]`
/// and lands on an exact multiple.
pub proof fn lemma_round_down_props(x: int, m: int)
    requires
        m > 0,
        x >= 0,
    ensures
        0 <= x % m <= x,
        x % m < m,
        (x - x % m) % m == 0,
{
    vstd::arithmetic::div_mod::lemma_fundamental_div_mod(x, m);
    vstd::arithmetic::div_mod::lemma_mod_decreases(x as nat, m as nat);
    assert(x - x % m == m * (x / m));
    vstd::arithmetic::div_mod::lemma_mod_multiples_basic(x / m, m);
    assert((x / m) * m == m * (x / m)) by (nonlinear_arith);
}

/// Largest multiple of `multiple` that is at most `x`.
pub fn round_down_to_nearest_multiple(x: u64, multiple: u64) -> (r: u64)
    requires
        multiple > 0,
    ensures
        r == spec_round_down(x as int, multiple),
        r % multiple == 0,
        r <= x,
        x - r < multiple,
{
    proof {
        lemma_round_down_props(x as int, multiple as int);
    }
    x - x % multiple
}

/// Plans the shrunk window for a region whose exclusive upper bound is
/// `region_end`, given the measured usage span and the architecture's
/// stack alignment.  The lower bound is `region_end - used_length`
/// rounded *down* to the combined alignment, so the window is never
/// smaller than the measured footprint, and the resulting stack start
/// (the window's origin) is alignment-correct.
pub fn plan_ram_window(region_end: u64, used_length: u64, used_align: u64, stack_align: u64) -> (w: RamWindow)
    requires
        used_length <= region_end,
        stack_align > 0,
    ensures
        w.new_origin == spec_round_down(region_end - used_length, spec_max(used_align, stack_align)),
        w.new_length == region_end - w.new_origin,
        w.new_origin + w.new_length == region_end,
        w.new_origin <= region_end - used_length,
        w.new_length >= used_length,
        w.new_origin % spec_max(used_align, stack_align) == 0,
{
    let align = if used_align > stack_align { used_align } else { stack_align };
    let new_origin = round_down_to_nearest_multiple(region_end - used_length, align);
    RamWindow { new_origin, new_length: region_end - new_origin }
}

/// The planned window always honors the measured usage: its origin lies at
/// or below the lowest used address, its upper bound is exactly the
/// region's upper bound, and the origin is a multiple of the combined
/// alignment.  Stated over the planner's defining formula, for every
/// region and usage span.
pub proof fn lemma_window_respects_usage(region_end: u64, used_length: u64, used_align: u64, stack_align: u64, w: RamWindow)
    requires
        used_length <= region_end,
        stack_align > 0,
        w.new_origin == spec_round_down(region_end - used_length, spec_max(used_align, stack_align)),
        w.new_length == region_end - w.new_origin,
    ensures
        w.new_origin <= region_end - used_length,
        w.new_origin + w.new_length == region_end,
        w.new_length >= used_length,
        w.new_origin % spec_max(used_align, stack_align) == 0,
{
    let m = spec_max(used_align, stack_align);
    lemma_round_down_props(region_end - used_length, m as int);
}

/// When the region's upper bound is itself a multiple of the combined
/// alignment, the planned length is one as well.  An unaligned upper bound
/// (say `region_end = 0x20010001` with zero usage and alignment 8) leaves
/// a remainder, so that case is excluded here.
pub proof fn lemma_window_length_aligned(region_end: u64, used_length: u64, used_align: u64, stack_align: u64, w: RamWindow)
    requires
        used_length <= region_end,
        stack_align > 0,
        region_end % spec_max(used_align, stack_align) == 0,
        w.new_origin == spec_round_down(region_end - used_length, spec_max(used_align, stack_align)),
        w.new_length == region_end - w.new_origin,
    ensures
        w.new_length % spec_max(used_align, stack_align) == 0,
{
    let m = spec_max(used_align, stack_align) as int;
    lemma_window_respects_usage(region_end, used_length, used_align, stack_align, w);
    let o = w.new_origin as int;
    let e = region_end as int;
    vstd::arithmetic::div_mod::lemma_fundamental_div_mod(o, m);
    vstd::arithmetic::div_mod::lemma_fundamental_div_mod(e, m);
    assert(e - o == m * (e / m) - m * (o / m));
    assert(m * (e / m) - m * (o / m) == (e / m - o / m) * m) by (nonlinear_arith);
    vstd::arithmetic::div_mod::lemma_mod_multiples_basic(e / m - o / m, m);
}

} // verus!
