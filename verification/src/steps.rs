//! Runs of calls: what a call that concerns one name does to the registrar,
//! and what no call ever changes.

use crate::auction::lemma_with_reveal_wf;
use crate::encoding::{commitment_of, slot_of};
use crate::laws::law_reveals_within_bids;
use crate::parties::lemma_push_fresh;
use crate::registrar::RegistrarView;
use vstd::prelude::*;

verus! {

/// One call that concerns the auction of a name.
pub enum Step {
    /// A bid of `caller` on `commitment`.
    Bid { now: u64, caller: Seq<char>, commitment: Seq<u8> },
    /// A reveal of `amount` and `salt` by `caller` that carries `attached`.
    Reveal { now: u64, caller: Seq<char>, attached: u128, amount: u128, salt: Seq<char> },
    /// A withdrawal of `caller`.
    Withdraw { now: u64, caller: Seq<char> },
    /// A claim of `caller`.
    Claim { now: u64, caller: Seq<char> },
}

/// The time at which a step is made.
pub open spec fn step_time(step: Step) -> u64 {
    match step {
        Step::Bid { now, caller, commitment } => now,
        Step::Reveal { now, caller, attached, amount, salt } => now,
        Step::Withdraw { now, caller } => now,
        Step::Claim { now, caller } => now,
    }
}

/// Whether the registrar takes a step for `name`.
pub open spec fn step_taken(registrar: RegistrarView, name: Seq<char>, step: Step) -> bool {
    match step {
        Step::Bid { now, caller, commitment } => registrar.bid_accepted(
            now,
            caller,
            name,
            slot_of(name),
        ),
        Step::Reveal { now, caller, attached, amount, salt } => registrar.reveal_accepted(
            now,
            caller,
            attached,
            name,
            amount,
            commitment_of(amount, salt),
        ),
        Step::Withdraw { now, caller } => registrar.withdraw_accepted(now, caller, name),
        Step::Claim { now, caller } => registrar.claim_accepted(now, caller, name),
    }
}

/// The registrar after a step for `name`; as before where the step is refused.
pub open spec fn after_step(
    registrar: RegistrarView,
    name: Seq<char>,
    step: Step,
) -> RegistrarView {
    if !step_taken(registrar, name, step) {
        registrar
    } else {
        match step {
            Step::Bid { now, caller, commitment } => registrar.after_bid(
                now,
                caller,
                name,
                commitment,
            ),
            Step::Reveal { now, caller, attached, amount, salt } => registrar.after_reveal(
                caller,
                name,
                amount,
            ),
            Step::Withdraw { now, caller } => registrar.after_withdraw(caller, name),
            Step::Claim { now, caller } => registrar.after_claim(name),
        }
    }
}

/// The registrar after a run of steps for `name`.
pub open spec fn after_steps(
    registrar: RegistrarView,
    name: Seq<char>,
    steps: Seq<Step>,
) -> RegistrarView
    decreases steps.len(),
{
    if steps.len() == 0 {
        registrar
    } else {
        after_step(after_steps(registrar, name, steps.drop_last()), name, steps.last())
    }
}

/// A call that concerns one name leaves the auction of every other name as
/// it is, and no auction is ever dropped.
pub proof fn law_other_names_untouched(
    registrar: RegistrarView,
    name: Seq<char>,
    step: Step,
    other: Seq<char>,
)
    ensures
        registrar.auctions.contains_key(other) ==> after_step(
            registrar,
            name,
            step,
        ).auctions.contains_key(other),
        other != name ==> after_step(registrar, name, step).auctions.contains_key(other)
            == registrar.auctions.contains_key(other),
        other != name ==> after_step(registrar, name, step).auctions[other]
            == registrar.auctions[other],
{
}

/// The clock of an auction is set by its first bid and never again, and the
/// schedule of the registrar never changes.
pub proof fn law_start_is_fixed(registrar: RegistrarView, name: Seq<char>, step: Step)
    ensures
        registrar.auctions.contains_key(name) ==> after_step(
            registrar,
            name,
            step,
        ).auctions[name].start_tick == registrar.auctions[name].start_tick,
        after_step(registrar, name, step).launch_tick == registrar.launch_tick,
        after_step(registrar, name, step).bid_period == registrar.bid_period,
        after_step(registrar, name, step).reveal_period == registrar.reveal_period,
{
}

/// A reveal stands: whatever call is made, a party that has revealed stays
/// listed with the amount it revealed, so that no later reveal of it is
/// taken.
pub proof fn law_reveal_stands(
    registrar: RegistrarView,
    name: Seq<char>,
    step: Step,
    party: Seq<char>,
)
    requires
        registrar.wf(),
        registrar.auctions.contains_key(name),
        registrar.auctions[name].has_revealed(party),
    ensures
        after_step(registrar, name, step).auctions[name].has_revealed(party),
        after_step(registrar, name, step).auctions[name].reveal_of(party)
            == registrar.auctions[name].reveal_of(party),
        step matches Step::Reveal { caller, .. } && caller == party ==> !step_taken(
            registrar,
            name,
            step,
        ),
{
    if step_taken(registrar, name, step) {
        match step {
            Step::Reveal { now, caller, attached, amount, salt } => {
                lemma_push_fresh(registrar.auctions[name].revealers, caller);
            },
            _ => {},
        }
    }
}

/// Settled is settled: once the auction of a name is settleable, it is so at
/// every later time, whatever call is made in between.
pub proof fn law_settleable_for_good(
    registrar: RegistrarView,
    name: Seq<char>,
    step: Step,
    now: u64,
    later: u64,
)
    requires
        registrar.wf(),
        registrar.settleable(now, name),
        now <= step_time(step) <= later,
    ensures
        after_step(registrar, name, step).settleable(later, name),
{
    if step_taken(registrar, name, step) {
        match step {
            Step::Reveal { now, caller, attached, amount, salt } => {
                lemma_with_reveal_wf(registrar.auctions[name], caller, amount);
                law_reveals_within_bids(registrar.auctions[name].with_reveal(caller, amount));
            },
            _ => {},
        }
    }
}

} // verus!
