//! Where the money goes: what every call takes into custody and pays out,
//! and why no run of calls pays out more than was deposited.

use crate::auction::{
    lemma_with_bid_wf, lemma_with_reveal_wf, refunds_except, total_locked, total_transferred,
    AuctionView, BidView, TransferView,
};
use crate::laws::law_others_leave_bid;
use crate::parties::{lemma_found_at, lemma_push_fresh};
use crate::registrar::RegistrarView;
use crate::steps::{after_step, after_steps, law_reveal_stands, step_taken, Step};
use vstd::prelude::*;

verus! {

/// Replacing one bid shifts the total held by the difference of the two
/// amounts.
proof fn lemma_locked_update(bids: Seq<BidView>, at: int, bid: BidView)
    requires
        0 <= at < bids.len(),
    ensures
        total_locked(bids.update(at, bid)) + bids[at].amount == total_locked(bids) + bid.amount,
    decreases bids.len(),
{
    let changed = bids.update(at, bid);
    if at == bids.len() - 1 {
        assert(changed.drop_last() =~= bids.drop_last());
    } else {
        assert(changed.drop_last() =~= bids.drop_last().update(at, bid));
        lemma_locked_update(bids.drop_last(), at, bid);
    }
}

/// Nothing is held where every amount is 0.
proof fn lemma_locked_zero(bids: Seq<BidView>)
    requires
        forall|i: int| 0 <= i < bids.len() ==> (#[trigger] bids[i]).amount == 0,
    ensures
        total_locked(bids) == 0,
    decreases bids.len(),
{
    if bids.len() > 0 {
        lemma_locked_zero(bids.drop_last());
    }
}

/// A bid locks nothing.
pub proof fn law_bid_locks_nothing(auction: AuctionView, party: Seq<char>, commitment: Seq<u8>)
    ensures
        auction.with_bid(party, commitment).locked() == auction.locked(),
{
    assert(auction.with_bid(party, commitment).bids.drop_last() =~= auction.bids);
}

/// A reveal locks the deposit: nothing was held for the party before it, the
/// revealed amount is held for the party after it, and that much more is
/// held in all.
pub proof fn law_reveal_locks_deposit(auction: AuctionView, party: Seq<char>, amount: u128)
    requires
        auction.wf(),
        auction.has_bid(party),
        !auction.has_revealed(party),
    ensures
        auction.bid_of(party).amount == 0,
        auction.with_reveal(party, amount).bid_of(party).amount == amount,
        auction.with_reveal(party, amount).locked() == auction.locked() + amount,
{
    lemma_with_reveal_wf(auction, party, amount);
    let at = auction.bidders.index_of(party);
    lemma_locked_update(
        auction.bids,
        at,
        BidView { amount, commitment: auction.bids[at].commitment },
    );
}

/// A withdrawal pays exactly what is held for the party and holds that much
/// less.
pub proof fn law_withdraw_pays_held(auction: AuctionView, party: Seq<char>)
    requires
        auction.wf(),
        auction.has_bid(party),
    ensures
        auction.with_release(party).locked() + auction.bid_of(party).amount == auction.locked(),
{
    let at = auction.bidders.index_of(party);
    lemma_locked_update(
        auction.bids,
        at,
        BidView { amount: 0, commitment: auction.bids[at].commitment },
    );
}

/// The refunds to everyone but `keep`, together with what is held for
/// `keep`, are the total held.
proof fn lemma_refunds_total(bidders: Seq<Seq<char>>, bids: Seq<BidView>, keep: Seq<char>)
    requires
        bidders.no_duplicates(),
        bidders.len() == bids.len(),
    ensures
        total_transferred(refunds_except(bidders, bids, keep)) + (if bidders.contains(keep) {
            bids[bidders.index_of(keep)].amount
        } else {
            0
        }) == total_locked(bids),
    decreases bidders.len(),
{
    if bidders.len() > 0 {
        let init = bidders.drop_last();
        lemma_refunds_total(init, bids.drop_last(), keep);
        if bidders.last() != keep {
            let before = refunds_except(init, bids.drop_last(), keep);
            let added = TransferView { to: bidders.last(), amount: bids.last().amount };
            assert(before.push(added).drop_last() =~= before);
            if bidders.contains(keep) {
                assert(init[bidders.index_of(keep)] == keep);
            }
        }
    }
}

/// A settlement pays out everything: the refunds and what the winner gives
/// up are the total that was held, and nothing is held afterwards.
pub proof fn law_settlement_pays_all(auction: AuctionView, winner: Seq<char>)
    requires
        auction.wf(),
    ensures
        total_transferred(auction.refunds(winner)) + auction.forfeit(winner) == auction.locked(),
        auction.emptied().locked() == 0,
        auction.emptied().wf(),
{
    lemma_refunds_total(auction.bidders, auction.bids, winner);
    lemma_locked_zero(auction.emptied().bids);
}

/// The sum of what a run of transfers moves to `party`.
pub open spec fn transferred_to(transfers: Seq<TransferView>, party: Seq<char>) -> nat
    decreases transfers.len(),
{
    if transfers.len() == 0 {
        0
    } else {
        transferred_to(transfers.drop_last(), party) + (if transfers.last().to == party {
            transfers.last().amount as nat
        } else {
            0
        })
    }
}

/// What the refunds of a run of bids move to `party`: what is held for it,
/// unless it is the party that is passed over or has no bid.
proof fn lemma_refund_share(
    bidders: Seq<Seq<char>>,
    bids: Seq<BidView>,
    keep: Seq<char>,
    party: Seq<char>,
)
    requires
        bidders.no_duplicates(),
        bidders.len() == bids.len(),
    ensures
        transferred_to(refunds_except(bidders, bids, keep), party) == (if party != keep
            && bidders.contains(party) {
            bids[bidders.index_of(party)].amount as nat
        } else {
            0
        }),
    decreases bidders.len(),
{
    if bidders.len() > 0 {
        let init = bidders.drop_last();
        lemma_refund_share(init, bids.drop_last(), keep, party);
        let before = refunds_except(init, bids.drop_last(), keep);
        if bidders.last() != keep {
            let added = TransferView { to: bidders.last(), amount: bids.last().amount };
            assert(before.push(added).drop_last() =~= before);
        }
        if bidders.last() != party && bidders.contains(party) {
            assert(init[bidders.index_of(party)] == party);
        }
    }
}

/// A settlement refunds every loser in full and once: what the refunds move
/// to a bidder other than the winner is exactly what was held for it, and
/// they move nothing to the winner or to a party without a bid.
pub proof fn law_settlement_refunds_losers(
    auction: AuctionView,
    winner: Seq<char>,
    party: Seq<char>,
)
    requires
        auction.wf(),
    ensures
        party != winner && auction.has_bid(party) ==> transferred_to(
            auction.refunds(winner),
            party,
        ) == auction.bid_of(party).amount,
        party == winner || !auction.has_bid(party) ==> transferred_to(
            auction.refunds(winner),
            party,
        ) == 0,
{
    lemma_refund_share(auction.bidders, auction.bids, winner, party);
}

/// The refunds of a run of bids are as many as the bids of other parties
/// than the one passed over.
proof fn lemma_refund_count(bidders: Seq<Seq<char>>, bids: Seq<BidView>, keep: Seq<char>)
    requires
        bidders.no_duplicates(),
        bidders.len() == bids.len(),
    ensures
        refunds_except(bidders, bids, keep).len() == bidders.len() - (if bidders.contains(keep) {
            1int
        } else {
            0int
        }),
    decreases bidders.len(),
{
    if bidders.len() > 0 {
        let init = bidders.drop_last();
        lemma_refund_count(init, bids.drop_last(), keep);
        if bidders.last() != keep && bidders.contains(keep) {
            assert(init[bidders.index_of(keep)] == keep);
        }
    }
}

/// A settlement makes one transfer for every bidder but the winner.
pub proof fn law_refund_count(auction: AuctionView, winner: Seq<char>)
    requires
        auction.wf(),
    ensures
        auction.refunds(winner).len() == auction.bidders.len() - (if auction.has_bid(winner) {
            1int
        } else {
            0int
        }),
{
    lemma_refund_count(auction.bidders, auction.bids, winner);
}

/// What is held in the auction of `name`; nothing where there is none.
pub open spec fn held(registrar: RegistrarView, name: Seq<char>) -> nat {
    if registrar.auctions.contains_key(name) {
        registrar.auctions[name].locked()
    } else {
        0
    }
}

/// What a step takes into custody: the deposit of a reveal that is taken.
pub open spec fn step_deposit(registrar: RegistrarView, name: Seq<char>, step: Step) -> nat {
    match step {
        Step::Reveal { now, caller, attached, amount, salt } => if step_taken(
            registrar,
            name,
            step,
        ) {
            amount as nat
        } else {
            0
        },
        _ => 0,
    }
}

/// What leaves custody by a step: the amount a withdrawal pays, or the
/// refunds of a claim together with what its winner gives up.
pub open spec fn step_payout(registrar: RegistrarView, name: Seq<char>, step: Step) -> nat {
    if !step_taken(registrar, name, step) {
        0
    } else {
        match step {
            Step::Withdraw { now, caller } => registrar.auctions[name].bid_of(caller).amount as nat,
            Step::Claim { now, caller } => total_transferred(
                registrar.auctions[name].refunds(caller),
            ) + registrar.auctions[name].forfeit(caller) as nat,
            _ => 0,
        }
    }
}

/// Everything a run of steps takes into custody.
pub open spec fn deposits(registrar: RegistrarView, name: Seq<char>, steps: Seq<Step>) -> nat
    decreases steps.len(),
{
    if steps.len() == 0 {
        0
    } else {
        deposits(registrar, name, steps.drop_last()) + step_deposit(
            after_steps(registrar, name, steps.drop_last()),
            name,
            steps.last(),
        )
    }
}

/// Everything that leaves custody over a run of steps.
pub open spec fn payouts(registrar: RegistrarView, name: Seq<char>, steps: Seq<Step>) -> nat
    decreases steps.len(),
{
    if steps.len() == 0 {
        0
    } else {
        payouts(registrar, name, steps.drop_last()) + step_payout(
            after_steps(registrar, name, steps.drop_last()),
            name,
            steps.last(),
        )
    }
}

/// Every step keeps the registrar well formed and accounts for every unit:
/// what it pays out and what is held after it are together what was held
/// before it and what it took in.
pub proof fn law_step_accounts(registrar: RegistrarView, name: Seq<char>, step: Step)
    requires
        registrar.wf(),
    ensures
        after_step(registrar, name, step).wf(),
        step_payout(registrar, name, step) + held(after_step(registrar, name, step), name)
            == held(registrar, name) + step_deposit(registrar, name, step),
{
    if step_taken(registrar, name, step) {
        match step {
            Step::Bid { now, caller, commitment } => {
                if registrar.auctions.contains_key(name) {
                    lemma_with_bid_wf(registrar.auctions[name], caller, commitment);
                    law_bid_locks_nothing(registrar.auctions[name], caller, commitment);
                } else {
                    let opened = AuctionView::opened(now, caller, commitment);
                    assert(total_locked(opened.bids.drop_last()) == 0);
                }
            },
            Step::Reveal { now, caller, attached, amount, salt } => {
                lemma_with_reveal_wf(registrar.auctions[name], caller, amount);
                law_reveal_locks_deposit(registrar.auctions[name], caller, amount);
            },
            Step::Withdraw { now, caller } => {
                law_withdraw_pays_held(registrar.auctions[name], caller);
            },
            Step::Claim { now, caller } => {
                law_settlement_pays_all(registrar.auctions[name], caller);
            },
        }
    }
}

/// Every unit is accounted for: over any run of calls that concern one name,
/// what was paid out and what is still held are together what was held at
/// the start and what the reveals deposited.
pub proof fn law_accounts(registrar: RegistrarView, name: Seq<char>, steps: Seq<Step>)
    requires
        registrar.wf(),
    ensures
        after_steps(registrar, name, steps).wf(),
        payouts(registrar, name, steps) + held(after_steps(registrar, name, steps), name)
            == held(registrar, name) + deposits(registrar, name, steps),
    decreases steps.len(),
{
    if steps.len() > 0 {
        law_accounts(registrar, name, steps.drop_last());
        law_step_accounts(
            after_steps(registrar, name, steps.drop_last()),
            name,
            steps.last(),
        );
    }
}

/// No value is created: over any run of calls that concern one name, what
/// was paid out and what is still held together never exceed what was held
/// at the start and what the reveals deposited. For an auction that starts
/// with its first bid, what was paid out never exceeds what was deposited.
pub proof fn law_conservation(registrar: RegistrarView, name: Seq<char>, steps: Seq<Step>)
    requires
        registrar.wf(),
    ensures
        after_steps(registrar, name, steps).wf(),
        payouts(registrar, name, steps) + held(after_steps(registrar, name, steps), name) <= held(
            registrar,
            name,
        ) + deposits(registrar, name, steps),
        !registrar.auctions.contains_key(name) ==> payouts(registrar, name, steps) <= deposits(
            registrar,
            name,
            steps,
        ),
{
    law_accounts(registrar, name, steps);
}

/// What is held for `party` in the auction of `name`; nothing where the
/// party has no bid there.
pub open spec fn held_for(registrar: RegistrarView, name: Seq<char>, party: Seq<char>) -> nat {
    if registrar.auctions.contains_key(name) && registrar.auctions[name].has_bid(party) {
        registrar.auctions[name].bid_of(party).amount as nat
    } else {
        0
    }
}

/// What a step takes into custody from `party`.
pub open spec fn step_deposit_by(
    registrar: RegistrarView,
    name: Seq<char>,
    step: Step,
    party: Seq<char>,
) -> nat {
    match step {
        Step::Reveal { now, caller, attached, amount, salt } => if caller == party && step_taken(
            registrar,
            name,
            step,
        ) {
            amount as nat
        } else {
            0
        },
        _ => 0,
    }
}

/// What leaves custody on account of `party` by a step: what its own
/// withdrawal pays, what a claim of another party refunds to it, or what it
/// gives up by its own claim.
pub open spec fn step_payout_to(
    registrar: RegistrarView,
    name: Seq<char>,
    step: Step,
    party: Seq<char>,
) -> nat {
    if !step_taken(registrar, name, step) {
        0
    } else {
        match step {
            Step::Withdraw { now, caller } => if caller == party {
                registrar.auctions[name].bid_of(party).amount as nat
            } else {
                0
            },
            Step::Claim { now, caller } => if caller == party {
                registrar.auctions[name].forfeit(party) as nat
            } else {
                transferred_to(registrar.auctions[name].refunds(caller), party)
            },
            _ => 0,
        }
    }
}

/// Everything a run of steps takes into custody from `party`.
pub open spec fn deposits_by(
    registrar: RegistrarView,
    name: Seq<char>,
    steps: Seq<Step>,
    party: Seq<char>,
) -> nat
    decreases steps.len(),
{
    if steps.len() == 0 {
        0
    } else {
        deposits_by(registrar, name, steps.drop_last(), party) + step_deposit_by(
            after_steps(registrar, name, steps.drop_last()),
            name,
            steps.last(),
            party,
        )
    }
}

/// Everything that leaves custody on account of `party` over a run of steps.
pub open spec fn payouts_to(
    registrar: RegistrarView,
    name: Seq<char>,
    steps: Seq<Step>,
    party: Seq<char>,
) -> nat
    decreases steps.len(),
{
    if steps.len() == 0 {
        0
    } else {
        payouts_to(registrar, name, steps.drop_last(), party) + step_payout_to(
            after_steps(registrar, name, steps.drop_last()),
            name,
            steps.last(),
            party,
        )
    }
}

/// Every step accounts for every unit of every party: what a step pays out
/// on account of a party and what is held for the party after it are
/// together what was held for the party before it and what the party
/// deposited with it.
pub proof fn law_step_accounts_for(
    registrar: RegistrarView,
    name: Seq<char>,
    step: Step,
    party: Seq<char>,
)
    requires
        registrar.wf(),
    ensures
        step_payout_to(registrar, name, step, party) + held_for(
            after_step(registrar, name, step),
            name,
            party,
        ) == held_for(registrar, name, party) + step_deposit_by(registrar, name, step, party),
{
    if step_taken(registrar, name, step) {
        let auction = registrar.auctions[name];
        match step {
            Step::Bid { now, caller, commitment } => {
                if registrar.auctions.contains_key(name) {
                    // the new bid holds nothing, and every other bid stays where it was
                    lemma_push_fresh(auction.bidders, caller);
                } else {
                    let opened = AuctionView::opened(now, caller, commitment);
                    assert(opened.bidders[0] == caller);
                    lemma_found_at(opened.bidders, 0);
                    if opened.has_bid(party) {
                        assert(opened.bidders[opened.bidders.index_of(party)] == party);
                    }
                }
            },
            Step::Reveal { now, caller, attached, amount, salt } => {
                // nothing was held for the revealer, and the amount is held now
                lemma_with_reveal_wf(auction, caller, amount);
                if caller != party && auction.has_bid(party) {
                    law_others_leave_bid(auction, party, caller, Seq::empty(), amount);
                }
            },
            Step::Withdraw { now, caller } => {
                if caller != party && auction.has_bid(party) {
                    law_others_leave_bid(auction, party, caller, Seq::empty(), 0);
                }
            },
            Step::Claim { now, caller } => {
                law_settlement_refunds_losers(auction, caller, party);
            },
        }
    }
}

/// Every unit of every party is accounted for: over any run of calls that
/// concern one name, what was paid out on account of a party and what is
/// still held for it are together what was held for it at the start and what
/// it deposited with its reveal. Every deposit comes back once, in full: as
/// a withdrawal, as a refund, or as what the winner gives up.
pub proof fn law_accounts_for(
    registrar: RegistrarView,
    name: Seq<char>,
    steps: Seq<Step>,
    party: Seq<char>,
)
    requires
        registrar.wf(),
    ensures
        payouts_to(registrar, name, steps, party) + held_for(
            after_steps(registrar, name, steps),
            name,
            party,
        ) == held_for(registrar, name, party) + deposits_by(registrar, name, steps, party),
    decreases steps.len(),
{
    if steps.len() > 0 {
        law_accounts(registrar, name, steps.drop_last());
        law_accounts_for(registrar, name, steps.drop_last(), party);
        law_step_accounts_for(
            after_steps(registrar, name, steps.drop_last()),
            name,
            steps.last(),
            party,
        );
    }
}

/// No party gets out more than it put in, and none loses what it put in:
/// over any run of calls that concern one name, what was paid out on account
/// of a party never exceeds what was held for it at the start and what it
/// deposited with its reveal, and what is missing of that is still held for
/// it.
pub proof fn law_conservation_for(
    registrar: RegistrarView,
    name: Seq<char>,
    steps: Seq<Step>,
    party: Seq<char>,
)
    requires
        registrar.wf(),
    ensures
        payouts_to(registrar, name, steps, party) <= held_for(registrar, name, party)
            + deposits_by(registrar, name, steps, party),
        held_for(after_steps(registrar, name, steps), name, party) == held_for(
            registrar,
            name,
            party,
        ) + deposits_by(registrar, name, steps, party) - payouts_to(registrar, name, steps, party),
{
    law_accounts_for(registrar, name, steps, party);
}

/// One deposit at most is taken from every bidder: a party that has
/// revealed deposits nothing more, whatever calls follow.
pub proof fn law_one_deposit(
    registrar: RegistrarView,
    name: Seq<char>,
    steps: Seq<Step>,
    party: Seq<char>,
)
    requires
        registrar.wf(),
        registrar.auctions.contains_key(name),
        registrar.auctions[name].has_revealed(party),
    ensures
        after_steps(registrar, name, steps).wf(),
        after_steps(registrar, name, steps).auctions.contains_key(name),
        after_steps(registrar, name, steps).auctions[name].has_revealed(party),
        deposits_by(registrar, name, steps, party) == 0,
    decreases steps.len(),
{
    if steps.len() > 0 {
        let before = after_steps(registrar, name, steps.drop_last());
        law_one_deposit(registrar, name, steps.drop_last(), party);
        law_step_accounts(before, name, steps.last());
        law_reveal_stands(before, name, steps.last(), party);
    }
}

} // verus!
