//! What the coordinator settles before any probe is sent: the pacing
//! interval, the number of probes per target, and the identifier and the
//! range of sequence numbers that each target gets.

use vstd::prelude::*;

verus! {

/// The largest sequence number, and so the number of sequence numbers that
/// all targets share (zero is not used).
pub const SEQUENCE_SPACE: usize = 65535;

/// The interval in milliseconds that is used when none is asked for.
pub const DEFAULT_INTERVAL_MS: u64 = 500;

/// How the sessions of a run receive their replies.
#[derive(Clone, Copy, Debug, PartialEq, Eq, Structural)]
pub enum Strategy {
    /// All sessions share one receive path and are told apart by identifier
    /// and sequence number.
    Shared,
    /// Every session has a receive path of its own.
    Isolated,
}

/// One target of a run with what was allocated to it.
pub struct ProbeTarget {
    /// The name under which the target is shown: what the user typed.
    pub label: String,
    /// The address that the name resolved to.
    pub address: String,
    /// The identifier in the target's echo requests.
    pub identifier: u16,
    /// The first sequence number of the target's range.
    pub sequence_base: u16,
    /// How many sequence numbers the range holds.
    pub sequence_count: u16,
}

/// The pacing interval in milliseconds for an interval asked for in seconds:
/// zero stands for the default.
pub open spec fn effective_interval_spec(seconds: nat) -> nat {
    if seconds == 0 {
        DEFAULT_INTERVAL_MS as nat
    } else {
        seconds * 1000
    }
}

/// How many sequence numbers each of `targets` targets can have.
pub open spec fn per_target_count_spec(targets: nat) -> nat {
    SEQUENCE_SPACE as nat / targets
}

/// How many probes each target gets when `requested` are asked for.
pub open spec fn effective_count_spec(requested: nat, targets: nat, strategy: Strategy) -> nat {
    match strategy {
        Strategy::Shared => if requested <= per_target_count_spec(targets) {
            requested
        } else {
            per_target_count_spec(targets)
        },
        Strategy::Isolated => requested,
    }
}

/// The first sequence number of target `index` among `targets` targets.
pub open spec fn sequence_base_spec(index: nat, targets: nat) -> nat {
    index * per_target_count_spec(targets) + 1
}

/// A 16-bit value advanced by `steps`, wrapping at 16 bits.
pub open spec fn advanced(base: u16, steps: nat) -> nat {
    ((base + steps) % 65536) as nat
}

/// The identifier of target `index` for a run whose base value is `base`.
pub open spec fn identifier_spec(base: u16, index: nat) -> nat {
    advanced(base, index)
}

/// The label of target `index`: a single name stands for every address that
/// it resolved to; otherwise each address has the name at its own place.
pub open spec fn label_spec(names: Seq<String>, index: int) -> String {
    if names.len() == 1 {
        names[0]
    } else {
        names[index]
    }
}

/// Whether `names` can label `addresses` addresses: there is an address, and
/// either one name for them all or one name each.
pub open spec fn labels_fit(names: nat, addresses: nat) -> bool {
    addresses > 0 && (names == 1 || names == addresses)
}

/// Whether `plan` is what the coordinator allocates to `addresses`, named by
/// `names`, in a run whose identifier base is `base`.
pub open spec fn is_plan(
    plan: Seq<ProbeTarget>,
    names: Seq<String>,
    addresses: Seq<String>,
    base: u16,
) -> bool {
    &&& plan.len() == addresses.len()
    &&& forall|i: int|
        0 <= i < plan.len() ==> {
            &&& (#[trigger] plan[i]).label@ == label_spec(names, i)@
            &&& plan[i].address@ == addresses[i]@
            &&& plan[i].identifier == identifier_spec(base, i as nat)
            &&& plan[i].sequence_base == sequence_base_spec(i as nat, addresses.len())
            &&& plan[i].sequence_count == per_target_count_spec(addresses.len())
        }
}

/// The ranges of two different targets do not meet, and every range lies
/// within the sequence numbers 1 to 65535.
pub proof fn lemma_sequence_ranges_disjoint(first: nat, second: nat, targets: nat)
    requires
        first < second < targets,
    ensures
        sequence_base_spec(first, targets) + per_target_count_spec(targets) <= sequence_base_spec(
            second,
            targets,
        ),
        1 <= sequence_base_spec(first, targets),
        sequence_base_spec(second, targets) + per_target_count_spec(targets) <= SEQUENCE_SPACE + 1,
{
    let each = per_target_count_spec(targets);
    assert(targets * each <= 65535) by (nonlinear_arith)
        requires
            each == 65535nat / targets,
            targets > 0,
    ;
    assert((first + 1) * each <= second * each && (second + 1) * each <= targets * each)
        by (nonlinear_arith)
        requires
            first < second < targets,
    ;
    assert((first + 1) * each == first * each + each && (second + 1) * each == second * each
        + each) by (nonlinear_arith);
}

/// Two targets of one run have different identifiers, for as long as a run
/// has no more targets than there are identifiers.
pub proof fn lemma_identifiers_distinct(base: u16, first: nat, second: nat)
    requires
        first < second,
        second - first < 65536,
    ensures
        identifier_spec(base, first) != identifier_spec(base, second),
{
    if identifier_spec(base, first) == identifier_spec(base, second) {
        vstd::arithmetic::div_mod::lemma_mod_equivalence(
            (base + second) as int,
            (base + first) as int,
            65536,
        );
        assert((second - first) % 65536 == 0);
        assert(false);
    }
}

/// Under the shared strategy no target is given more probes than its range
/// has sequence numbers.
pub proof fn lemma_effective_count_fits(requested: nat, targets: nat)
    ensures
        effective_count_spec(requested, targets, Strategy::Shared) <= per_target_count_spec(
            targets,
        ),
        effective_count_spec(requested, targets, Strategy::Shared) <= requested,
        effective_count_spec(requested, targets, Strategy::Shared) == requested
            || effective_count_spec(requested, targets, Strategy::Shared) == per_target_count_spec(
            targets,
        ),
{
}

/// The pacing interval in milliseconds for an interval given in seconds:
/// 500 ms when the interval is zero, and the interval itself otherwise.
pub fn effective_interval(seconds: u32) -> (millis: u64)
    ensures
        millis == effective_interval_spec(seconds as nat),
{
    if seconds == 0 {
        DEFAULT_INTERVAL_MS
    } else {
        seconds as u64 * 1000
    }
}

/// How many sequence numbers each target of a run can have: the 65535
/// sequence numbers divided among the targets, rounded down.
pub fn per_target_count(targets: usize) -> (each: u16)
    requires
        targets > 0,
    ensures
        each == per_target_count_spec(targets as nat),
{
    proof {
        assert(65535int / (targets as int) <= 65535) by (nonlinear_arith)
            requires
                targets > 0,
        ;
    }
    (SEQUENCE_SPACE / targets) as u16
}

/// How many probes each target gets when `requested` are asked for. Where
/// the sessions share a receive path the number is capped at what
/// `per_target_count` allows; where each has its own it is not.
pub fn effective_count(requested: usize, targets: usize, strategy: Strategy) -> (count: usize)
    requires
        targets > 0,
    ensures
        count == effective_count_spec(requested as nat, targets as nat, strategy),
{
    match strategy {
        Strategy::Shared => {
            let each = per_target_count(targets) as usize;
            if requested <= each {
                requested
            } else {
                each
            }
        },
        Strategy::Isolated => requested,
    }
}

/// The first sequence number of target `index` among `targets` targets: one
/// more than the sequence numbers of the targets before it.
pub fn sequence_base(index: usize, targets: usize) -> (base: u16)
    requires
        index < targets,
    ensures
        base == sequence_base_spec(index as nat, targets as nat),
        1 <= base <= SEQUENCE_SPACE,
{
    let each = per_target_count(targets) as u64;
    proof {
        let e = per_target_count_spec(targets as nat);
        assert(targets * e <= 65535) by (nonlinear_arith)
            requires
                e == 65535nat / (targets as nat),
                targets > 0,
        ;
        assert(index * e + e <= targets * e) by (nonlinear_arith)
            requires
                index < targets,
        ;
        assert(index * e <= 65535);
        if e == 0 {
            assert(index * e == 0) by (nonlinear_arith)
                requires
                    e == 0,
            ;
        }
    }
    if each == 0 {
        1
    } else {
        (index as u64 * each + 1) as u16
    }
}

/// `base` advanced by `steps`, wrapping at 16 bits.
pub fn advance(base: u16, steps: usize) -> (value: u16)
    ensures
        value == advanced(base, steps as nat),
{
    let offset: u64 = (steps % 65536) as u64;
    proof {
        vstd::arithmetic::div_mod::lemma_add_mod_noop_right(base as int, steps as int, 65536);
    }
    ((base as u64 + offset) % 65536) as u16
}

/// The identifier of target `index` in a run whose base value is `base`:
/// the base advanced by the index, modulo 65536.
pub fn identifier_for(base: u16, index: usize) -> (identifier: u16)
    ensures
        identifier == identifier_spec(base, index as nat),
{
    advance(base, index)
}

/// A base for the identifiers of a run. The value is whatever
/// `rand::random::<u16>()` draws from the generator of the calling thread;
/// nothing is claimed of it.
#[verifier::external_body]
fn random_identifier_base() -> (base: u16) {
    rand::random::<u16>()
}

/// Allocates to every address its label, identifier and range of sequence
/// numbers, for a run whose identifier base is `base`. There is no plan
/// unless there is an address and the names are one for all or one each.
pub fn plan_targets(names: &Vec<String>, addresses: &Vec<String>, base: u16) -> (plan: Option<
    Vec<ProbeTarget>,
>)
    ensures
        plan.is_some() <==> labels_fit(names@.len(), addresses@.len()),
        plan matches Some(p) ==> is_plan(p@, names@, addresses@, base),
{
    let n = addresses.len();
    if n == 0 || (names.len() != 1 && names.len() != n) {
        return None;
    }
    let each = per_target_count(n);
    let mut plan: Vec<ProbeTarget> = Vec::new();
    let mut i: usize = 0;
    while i < n
        invariant
            n == addresses@.len(),
            n > 0,
            names@.len() == 1 || names@.len() == n,
            each == per_target_count_spec(n as nat),
            i <= n,
            plan@.len() == i,
            forall|k: int|
                0 <= k < i ==> {
                    &&& (#[trigger] plan@[k]).label@ == label_spec(names@, k)@
                    &&& plan@[k].address@ == addresses@[k]@
                    &&& plan@[k].identifier == identifier_spec(base, k as nat)
                    &&& plan@[k].sequence_base == sequence_base_spec(k as nat, n as nat)
                    &&& plan@[k].sequence_count == per_target_count_spec(n as nat)
                },
        decreases n - i,
    {
        let label = if names.len() == 1 {
            names[0].clone()
        } else {
            names[i].clone()
        };
        let target = ProbeTarget {
            label,
            address: addresses[i].clone(),
            identifier: identifier_for(base, i),
            sequence_base: sequence_base(i, n),
            sequence_count: each,
        };
        plan.push(target);
        i = i + 1;
    }
    Some(plan)
}

/// Plans a run: draws a base for the identifiers and allocates to every
/// address its label, identifier and range of sequence numbers. There is no
/// plan unless there is an address and the names are one for all or one
/// each; whatever base was drawn, the plan is the one that
/// `plan_targets` makes of it.
pub fn plan_run(names: &Vec<String>, addresses: &Vec<String>) -> (plan: Option<Vec<ProbeTarget>>)
    ensures
        plan.is_some() <==> labels_fit(names@.len(), addresses@.len()),
        plan matches Some(p) ==> exists|base: u16| is_plan(p@, names@, addresses@, base),
{
    let base = random_identifier_base();
    plan_targets(names, addresses, base)
}

} // verus!
