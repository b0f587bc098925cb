//! What holds of the auction rules whatever the calls: the invariants of an
//! auction, when a call is taken, and what two calls in a row do.

use crate::auction::{lemma_with_reveal_wf, AuctionView, BidView, Phase};
use crate::encoding::commitment_of;
use crate::parties::lemma_push_fresh;
use crate::ranking::{highest, leader, lemma_highest_bounds, lemma_leader_is_first_highest};
use crate::registrar::RegistrarView;
use vstd::prelude::*;

verus! {

/// No more parties have revealed than have bid.
pub proof fn law_reveals_within_bids(auction: AuctionView)
    requires
        auction.wf(),
    ensures
        auction.reveals.len() <= auction.bids.len(),
{
    auction.revealers.unique_seq_to_set();
    auction.bidders.unique_seq_to_set();
    vstd::set_lib::lemma_len_subset(auction.revealers.to_set(), auction.bidders.to_set());
}

/// As many reveals as bids means that every bidder has revealed.
pub proof fn law_all_revealed(auction: AuctionView)
    requires
        auction.wf(),
    ensures
        auction.all_revealed() <==> (forall|party: Seq<char>|
            auction.has_bid(party) ==> auction.has_revealed(party)),
{
    let revealed = auction.revealers.to_set();
    let bid = auction.bidders.to_set();
    auction.revealers.unique_seq_to_set();
    auction.bidders.unique_seq_to_set();
    if auction.all_revealed() {
        vstd::set_lib::lemma_subset_equality(revealed, bid);
        assert forall|party: Seq<char>| auction.has_bid(party) implies auction.has_revealed(
            party,
        ) by {
            assert(bid.contains(party));
        }
    }
    if forall|party: Seq<char>| auction.has_bid(party) ==> auction.has_revealed(party) {
        assert(bid.subset_of(revealed)) by {
            assert forall|party: Seq<char>| bid.contains(party) implies revealed.contains(
                party,
            ) by {
                assert(auction.has_bid(party));
            }
        }
        vstd::set_lib::lemma_len_subset(bid, revealed);
        vstd::set_lib::lemma_len_subset(revealed, bid);
    }
}

/// Once an auction is settleable it stays so as time goes on.
pub proof fn law_settleable_stays(
    auction: AuctionView,
    bid_period: u64,
    reveal_period: u64,
    now: u64,
    later: u64,
)
    requires
        now <= later,
        auction.phase(bid_period, reveal_period, now) == Phase::Settleable,
    ensures
        auction.phase(bid_period, reveal_period, later) == Phase::Settleable,
{
}

/// Once the bid period and the reveal period have elapsed an auction is
/// settleable, whoever has revealed, and every bidder may withdraw.
pub proof fn law_withdrawal_opens(
    registrar: RegistrarView,
    now: u64,
    caller: Seq<char>,
    name: Seq<char>,
)
    requires
        registrar.auctions.contains_key(name),
        registrar.auctions[name].has_bid(caller),
        registrar.auctions[name].elapsed(now) >= registrar.bid_period + registrar.reveal_period,
    ensures
        registrar.settleable(now, name),
        registrar.withdraw_accepted(now, caller, name),
{
}

/// A name without an auction takes its first bid in the schedule period of
/// its slot and in no other: the bid is taken exactly where the number of
/// whole bid periods since the launch is the slot of the name.
pub proof fn law_first_bid_gate(
    registrar: RegistrarView,
    now: u64,
    caller: Seq<char>,
    name: Seq<char>,
    slot: u64,
)
    requires
        !registrar.auctions.contains_key(name),
    ensures
        registrar.bid_accepted(now, caller, name, slot) <==> {
            &&& registrar.bid_period > 0
            &&& now >= registrar.launch_tick
            &&& (now - registrar.launch_tick) / (registrar.bid_period as int) == slot
        },
{
}

/// A party bids once for a name. After a bid was taken, a second bid of the
/// same party for the same name is refused whenever it comes and whatever it
/// commits to, and the first bid stands as it was recorded.
pub proof fn law_no_double_bid(
    registrar: RegistrarView,
    now: u64,
    later: u64,
    caller: Seq<char>,
    name: Seq<char>,
    slot: u64,
    first: Seq<u8>,
)
    requires
        registrar.wf(),
        registrar.bid_accepted(now, caller, name, slot),
    ensures
        registrar.after_bid(now, caller, name, first).wf(),
        !registrar.after_bid(now, caller, name, first).bid_accepted(later, caller, name, slot),
        registrar.after_bid(now, caller, name, first).auctions[name].has_bid(caller),
        registrar.after_bid(now, caller, name, first).auctions[name].bid_of(caller) == (BidView {
            amount: 0,
            commitment: first,
        }),
{
    if registrar.auctions.contains_key(name) {
        lemma_push_fresh(registrar.auctions[name].bidders, caller);
    } else {
        assert(AuctionView::opened(now, caller, first).bidders[0] == caller);
    }
}

/// While bidding is open no reveal is taken, whatever it reveals.
pub proof fn law_no_reveal_while_bidding(
    registrar: RegistrarView,
    now: u64,
    caller: Seq<char>,
    attached: u128,
    name: Seq<char>,
    amount: u128,
    recomputed: Seq<u8>,
)
    requires
        registrar.auctions.contains_key(name),
        registrar.auctions[name].elapsed(now) < registrar.bid_period,
    ensures
        !registrar.reveal_accepted(now, caller, attached, name, amount, recomputed),
{
}

/// A reveal binds to the commitment: a reveal that is in order otherwise, the
/// first of its party among the rest, is taken exactly where the amount and
/// the salt give the recorded commitment.
pub proof fn law_reveal_binds(
    registrar: RegistrarView,
    now: u64,
    caller: Seq<char>,
    attached: u128,
    name: Seq<char>,
    amount: u128,
    salt: Seq<char>,
)
    requires
        registrar.reveal_expected(now, caller, attached, name, amount),
    ensures
        !registrar.auctions[name].has_revealed(caller),
        registrar.reveal_accepted(now, caller, attached, name, amount, commitment_of(amount, salt))
            <==> commitment_of(amount, salt) == registrar.auctions[name].bid_of(caller).commitment,
{
}

/// A party reveals once for a name. After a reveal was taken, a second reveal
/// of the same party for the same name is refused whenever it comes and
/// whatever it reveals and carries, the same amount and salt included, and
/// the first reveal stands: its amount is listed and held for the party.
pub proof fn law_no_double_reveal(
    registrar: RegistrarView,
    now: u64,
    later: u64,
    caller: Seq<char>,
    name: Seq<char>,
    attached: u128,
    amount: u128,
    recomputed: Seq<u8>,
    second_attached: u128,
    second_amount: u128,
    second_recomputed: Seq<u8>,
)
    requires
        registrar.wf(),
        registrar.reveal_accepted(now, caller, attached, name, amount, recomputed),
    ensures
        registrar.after_reveal(caller, name, amount).wf(),
        !registrar.after_reveal(caller, name, amount).reveal_accepted(
            later,
            caller,
            second_attached,
            name,
            second_amount,
            second_recomputed,
        ),
        registrar.after_reveal(caller, name, amount).auctions[name].has_revealed(caller),
        registrar.after_reveal(caller, name, amount).auctions[name].reveal_of(caller) == amount,
        registrar.after_reveal(caller, name, amount).auctions[name].bid_of(caller).amount
            == amount,
{
    lemma_with_reveal_wf(registrar.auctions[name], caller, amount);
}

/// Nothing is held for a bidder that has not revealed.
pub proof fn law_unrevealed_holds_nothing(auction: AuctionView, party: Seq<char>)
    requires
        auction.wf(),
        auction.has_bid(party),
        !auction.has_revealed(party),
    ensures
        auction.bid_of(party).amount == 0,
{
}

/// A withdrawal pays once. After a withdrawal was taken nothing is held for
/// the party, so a second withdrawal, which is taken at any later time, pays
/// 0 and changes nothing.
pub proof fn law_withdraw_pays_once(
    registrar: RegistrarView,
    now: u64,
    later: u64,
    caller: Seq<char>,
    name: Seq<char>,
)
    requires
        registrar.wf(),
        registrar.withdraw_accepted(now, caller, name),
        now <= later,
    ensures
        registrar.after_withdraw(caller, name).wf(),
        registrar.after_withdraw(caller, name).withdraw_accepted(later, caller, name),
        registrar.after_withdraw(caller, name).auctions[name].bid_of(caller).amount == 0,
        registrar.after_withdraw(caller, name).after_withdraw(caller, name)
            == registrar.after_withdraw(caller, name),
{
    let once = registrar.after_withdraw(caller, name);
    let released = registrar.auctions[name].with_release(caller);
    assert(released.with_release(caller).bids =~= released.bids);
    assert(once.after_withdraw(caller, name).auctions =~= once.auctions);
}

/// The winner pays the second price. Once somebody has revealed, the winner
/// is a party that revealed an amount that no reveal exceeds; the price is
/// at most that amount, no reveal of another party exceeds it, and unless it
/// is 0 another party revealed exactly the price.
pub proof fn law_second_price(auction: AuctionView)
    requires
        auction.wf(),
        auction.reveals.len() > 0,
    ensures
        auction.has_revealed(auction.winner()),
        auction.reveal_of(auction.winner()) == highest(auction.reveals),
        auction.price() <= auction.reveal_of(auction.winner()),
        forall|party: Seq<char>| #[trigger]
            auction.has_revealed(party) ==> auction.reveal_of(party) <= highest(auction.reveals),
        forall|party: Seq<char>| #[trigger]
            auction.has_revealed(party) && party != auction.winner() ==> auction.reveal_of(party)
                <= auction.price(),
        auction.price() == 0 || exists|party: Seq<char>| #[trigger]
            auction.has_revealed(party) && party != auction.winner() && auction.reveal_of(party)
                == auction.price(),
{
    let vals = auction.reveals;
    let lead = leader(vals);
    let others = vals.remove(lead);
    lemma_leader_is_first_highest(vals);
    lemma_highest_bounds(vals);
    lemma_highest_bounds(others);
    assert forall|party: Seq<char>| #[trigger] auction.has_revealed(party) implies {
        &&& auction.reveal_of(party) <= highest(vals)
        &&& party != auction.winner() ==> auction.reveal_of(party) <= auction.price()
    } by {
        let at = auction.revealers.index_of(party);
        if at < lead {
            assert(others[at] == vals[at]);
        } else if at > lead {
            assert(others[at - 1] == vals[at]);
        }
    }
    if auction.price() != 0 {
        let k = choose|k: int| 0 <= k < others.len() && others[k] == highest(others);
        let at = if k < lead {
            k
        } else {
            k + 1
        };
        let party = auction.revealers[at];
        assert(auction.has_revealed(party) && party != auction.winner() && auction.reveal_of(party)
            == auction.price());
    }
}

/// What one party does leaves the bid of another as it is.
pub proof fn law_others_leave_bid(
    auction: AuctionView,
    party: Seq<char>,
    other: Seq<char>,
    commitment: Seq<u8>,
    amount: u128,
)
    requires
        auction.wf(),
        auction.has_bid(party),
        other != party,
    ensures
        !auction.has_bid(other) ==> auction.with_bid(other, commitment).bid_of(party)
            == auction.bid_of(party),
        auction.has_bid(other) && !auction.has_revealed(other) ==> auction.with_reveal(
            other,
            amount,
        ).bid_of(party) == auction.bid_of(party),
        auction.has_bid(other) ==> auction.with_release(other).bid_of(party)
            == auction.bid_of(party),
{
    if !auction.has_bid(other) {
        lemma_push_fresh(auction.bidders, other);
    }
}

} // verus!
