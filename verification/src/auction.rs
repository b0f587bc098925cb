//! One auction: the bids placed for a name, the amounts revealed so far and
//! the tick at which the first bid arrived.

use crate::encoding::same_bytes;
use crate::parties::{lemma_found_at, lemma_push_fresh, position};
use crate::ranking::{leader, second_highest, top_two};
use vstd::prelude::*;

verus! {

/// Where an auction stands at a given time.
#[derive(Clone, Copy, Debug, PartialEq, Eq, Structural)]
pub enum Phase {
    /// Bids are accepted.
    Bidding,
    /// Bidding is closed and some bidder has yet to reveal.
    Revealing,
    /// Locked funds may be withdrawn and the name may be claimed.
    Settleable,
}

/// A bid as the contracts see it.
pub struct BidView {
    /// The revealed amount still held for the bidder; 0 before a reveal and
    /// after the amount was paid out.
    pub amount: u128,
    /// The commitment recorded when the bid was placed.
    pub commitment: Seq<u8>,
}

/// A value to be moved to a party, as the contracts see it.
pub struct TransferView {
    /// The party to pay.
    pub to: Seq<char>,
    /// How much to pay.
    pub amount: u128,
}

/// An auction as the contracts see it. Bids stand in the order in which they
/// were placed, reveals in the order in which they were taken; `bids[i]`
/// belongs to `bidders[i]` and `reveals[j]` to `revealers[j]`.
pub struct AuctionView {
    /// The tick at which the first bid arrived.
    pub start_tick: u64,
    /// The parties that have bid.
    pub bidders: Seq<Seq<char>>,
    /// The bid of each bidder.
    pub bids: Seq<BidView>,
    /// The parties that have revealed.
    pub revealers: Seq<Seq<char>>,
    /// The amount each revealer revealed.
    pub reveals: Seq<u128>,
}

/// The sum of the amounts held for a run of bids.
pub open spec fn total_locked(bids: Seq<BidView>) -> nat
    decreases bids.len(),
{
    if bids.len() == 0 {
        0
    } else {
        total_locked(bids.drop_last()) + bids.last().amount as nat
    }
}

/// The sum of the amounts of a run of transfers.
pub open spec fn total_transferred(transfers: Seq<TransferView>) -> nat
    decreases transfers.len(),
{
    if transfers.len() == 0 {
        0
    } else {
        total_transferred(transfers.drop_last()) + transfers.last().amount as nat
    }
}

/// One transfer per bid that does not belong to `keep`, in bid order, each
/// over the amount held for that bid.
pub open spec fn refunds_except(
    bidders: Seq<Seq<char>>,
    bids: Seq<BidView>,
    keep: Seq<char>,
) -> Seq<TransferView>
    decreases bidders.len(),
{
    if bidders.len() == 0 || bids.len() == 0 {
        Seq::empty()
    } else {
        let before = refunds_except(bidders.drop_last(), bids.drop_last(), keep);
        if bidders.last() == keep {
            before
        } else {
            before.push(TransferView { to: bidders.last(), amount: bids.last().amount })
        }
    }
}

impl AuctionView {
    /// Each party bids once and is listed as a revealer once, only bidders
    /// reveal, and the amount held for a bid is the bidder's revealed amount
    /// or, before the reveal and after a payout, 0.
    pub open spec fn wf(self) -> bool {
        &&& self.bids.len() == self.bidders.len()
        &&& self.reveals.len() == self.revealers.len()
        &&& self.bidders.no_duplicates()
        &&& self.revealers.no_duplicates()
        &&& forall|j: int|
            0 <= j < self.revealers.len() ==> self.bidders.contains(#[trigger] self.revealers[j])
        &&& forall|i: int|
            0 <= i < self.bidders.len() ==> {
                ||| (#[trigger] self.bids[i]).amount == 0
                ||| self.revealers.contains(self.bidders[i]) && self.bids[i].amount
                    == self.reveal_of(self.bidders[i])
            }
    }

    /// The auction that a first bid opens at `now`.
    pub open spec fn opened(now: u64, bidder: Seq<char>, commitment: Seq<u8>) -> AuctionView {
        AuctionView {
            start_tick: now,
            bidders: seq![bidder],
            bids: seq![BidView { amount: 0, commitment }],
            revealers: Seq::empty(),
            reveals: Seq::empty(),
        }
    }

    /// `party` has bid.
    pub open spec fn has_bid(self, party: Seq<char>) -> bool {
        self.bidders.contains(party)
    }

    /// The bid of a party that has one.
    pub open spec fn bid_of(self, party: Seq<char>) -> BidView {
        self.bids[self.bidders.index_of(party)]
    }

    /// `party` has revealed.
    pub open spec fn has_revealed(self, party: Seq<char>) -> bool {
        self.revealers.contains(party)
    }

    /// The amount revealed by a party that has revealed.
    pub open spec fn reveal_of(self, party: Seq<char>) -> u128 {
        self.reveals[self.revealers.index_of(party)]
    }

    /// As many parties have revealed as have bid.
    pub open spec fn all_revealed(self) -> bool {
        self.revealers.len() == self.bidders.len()
    }

    /// Ticks since the first bid; negative for a time before it.
    pub open spec fn elapsed(self, now: u64) -> int {
        now - self.start_tick
    }

    /// The phase at `now`: bidding until `bid_period` has elapsed, settleable
    /// once the reveal period has elapsed as well or everyone has revealed,
    /// revealing in between.
    pub open spec fn phase(self, bid_period: u64, reveal_period: u64, now: u64) -> Phase {
        if self.elapsed(now) < bid_period {
            Phase::Bidding
        } else if self.elapsed(now) < bid_period + reveal_period && !self.all_revealed() {
            Phase::Revealing
        } else {
            Phase::Settleable
        }
    }

    /// Reveals are taken from the end of the bid period until the reveal
    /// period has elapsed, whether or not everyone has revealed already.
    pub open spec fn reveal_window_open(
        self,
        bid_period: u64,
        reveal_period: u64,
        now: u64,
    ) -> bool {
        bid_period <= self.elapsed(now) < bid_period + reveal_period
    }

    /// The auction with a fresh bid of `party` appended.
    pub open spec fn with_bid(self, party: Seq<char>, commitment: Seq<u8>) -> AuctionView {
        AuctionView {
            bidders: self.bidders.push(party),
            bids: self.bids.push(BidView { amount: 0, commitment }),
            ..self
        }
    }

    /// The auction once `party`, a bidder that has not revealed yet, has
    /// revealed `amount`: the amount is held for the bid, and the party is
    /// listed last among the revealers with it.
    pub open spec fn with_reveal(self, party: Seq<char>, amount: u128) -> AuctionView {
        let at = self.bidders.index_of(party);
        AuctionView {
            bids: self.bids.update(at, BidView { amount, commitment: self.bids[at].commitment }),
            revealers: self.revealers.push(party),
            reveals: self.reveals.push(amount),
            ..self
        }
    }

    /// The auction once the amount held for `party`, a bidder, was paid out.
    pub open spec fn with_release(self, party: Seq<char>) -> AuctionView {
        let at = self.bidders.index_of(party);
        AuctionView {
            bids: self.bids.update(
                at,
                BidView { amount: 0, commitment: self.bids[at].commitment },
            ),
            ..self
        }
    }

    /// The auction once every amount held was paid out or given up.
    pub open spec fn emptied(self) -> AuctionView {
        AuctionView {
            bids: Seq::new(
                self.bids.len(),
                |i: int| BidView { amount: 0, commitment: self.bids[i].commitment },
            ),
            ..self
        }
    }

    /// Everything held for the bidders of this auction.
    pub open spec fn locked(self) -> nat {
        total_locked(self.bids)
    }

    /// The party with the highest reveal, the earliest to reveal among equals.
    /// Meaningful once somebody has revealed.
    pub open spec fn winner(self) -> Seq<char> {
        self.revealers[leader(self.reveals)]
    }

    /// The second-highest reveal: what the winner pays. 0 where fewer than
    /// two parties revealed or every other reveal is 0.
    pub open spec fn price(self) -> u128 {
        second_highest(self.reveals)
    }

    /// `party` may claim the name: somebody revealed, the price is not 0, and
    /// `party` holds the highest reveal.
    pub open spec fn claimable_by(self, party: Seq<char>) -> bool {
        &&& self.reveals.len() > 0
        &&& self.price() != 0
        &&& self.winner() == party
    }

    /// What is held for `winner` and given up when the auction is settled in
    /// its favour; 0 for a party without a bid.
    pub open spec fn forfeit(self, winner: Seq<char>) -> u128 {
        if self.has_bid(winner) {
            self.bid_of(winner).amount
        } else {
            0
        }
    }

    /// The transfers that settle the auction in favour of `winner`: one to
    /// every other bidder, over what is held for them.
    pub open spec fn refunds(self, winner: Seq<char>) -> Seq<TransferView> {
        refunds_except(self.bidders, self.bids, winner)
    }
}

/// A bid: the commitment recorded when it was placed and, from the reveal
/// on, the amount held for the bidder.
pub struct Bid {
    amount: u128,
    commitment: Vec<u8>,
}

impl View for Bid {
    type V = BidView;

    closed spec fn view(&self) -> BidView {
        BidView { amount: self.amount, commitment: self.commitment@ }
    }
}

impl Bid {
    /// A fresh bid: nothing revealed, nothing held.
    pub fn new(commitment: Vec<u8>) -> (bid: Bid)
        ensures
            bid@ == (BidView { amount: 0, commitment: commitment@ }),
    {
        Bid { amount: 0, commitment }
    }

    /// The amount held for the bidder.
    pub fn amount(&self) -> (amount: u128)
        ensures
            amount == self@.amount,
    {
        self.amount
    }

    /// The commitment recorded when the bid was placed.
    pub fn commitment(&self) -> (commitment: &Vec<u8>)
        ensures
            commitment@ == self@.commitment,
    {
        &self.commitment
    }
}

/// A value to be moved to a party.
pub struct Transfer {
    /// The party to pay.
    pub to: String,
    /// How much to pay.
    pub amount: u128,
}

impl View for Transfer {
    type V = TransferView;

    open spec fn view(&self) -> TransferView {
        TransferView { to: self.to@, amount: self.amount }
    }
}

/// The transfers of a list as the contracts see them.
pub open spec fn transfer_views(transfers: Seq<Transfer>) -> Seq<TransferView> {
    Seq::new(transfers.len(), |i: int| transfers[i]@)
}

/// The state of the auction of one name.
pub struct Auction {
    start_block_height: u64,
    bidders: Vec<String>,
    bids: Vec<Bid>,
    revealers: Vec<String>,
    reveals: Vec<u128>,
}

impl View for Auction {
    type V = AuctionView;

    closed spec fn view(&self) -> AuctionView {
        AuctionView {
            start_tick: self.start_block_height,
            bidders: self.bidders.deep_view(),
            bids: Seq::new(self.bids@.len(), |i: int| self.bids@[i]@),
            revealers: self.revealers.deep_view(),
            reveals: self.reveals@,
        }
    }
}

impl Auction {
    /// Opens the auction with its first bid, placed at `now`.
    pub fn open(now: u64, bidder: String, commitment: Vec<u8>) -> (auction: Auction)
        ensures
            auction@ == AuctionView::opened(now, bidder@, commitment@),
            auction@.wf(),
    {
        let mut bidders: Vec<String> = Vec::new();
        let mut bids: Vec<Bid> = Vec::new();
        bidders.push(bidder);
        bids.push(Bid::new(commitment));
        let auction = Auction {
            start_block_height: now,
            bidders,
            bids,
            revealers: Vec::new(),
            reveals: Vec::new(),
        };
        assert(auction@.bidders =~= seq![bidder@]);
        assert(auction@.bids =~= seq![BidView { amount: 0, commitment: commitment@ }]);
        assert(auction@.revealers =~= Seq::empty());
        auction
    }

    /// The tick at which the first bid arrived.
    pub fn start_tick(&self) -> (tick: u64)
        ensures
            tick == self@.start_tick,
    {
        self.start_block_height
    }

    /// How many parties have bid.
    pub fn bidder_count(&self) -> (count: usize)
        ensures
            count == self@.bidders.len(),
    {
        self.bidders.len()
    }

    /// How many parties have revealed.
    pub fn revealer_count(&self) -> (count: usize)
        ensures
            count == self@.revealers.len(),
    {
        self.revealers.len()
    }

    /// The phase of the auction at `now`.
    pub fn phase(&self, bid_period: u64, reveal_period: u64, now: u64) -> (phase: Phase)
        ensures
            phase == self@.phase(bid_period, reveal_period, now),
    {
        if now < self.start_block_height {
            return Phase::Bidding;
        }
        let elapsed: u64 = now - self.start_block_height;
        if elapsed < bid_period {
            Phase::Bidding
        } else if (elapsed as u128) < bid_period as u128 + reveal_period as u128
            && self.revealers.len() != self.bidders.len() {
            Phase::Revealing
        } else {
            Phase::Settleable
        }
    }

    /// Whether a reveal is in time at `now`.
    pub fn reveal_window_open(
        &self,
        bid_period: u64,
        reveal_period: u64,
        now: u64,
    ) -> (in_time: bool)
        ensures
            in_time == self@.reveal_window_open(bid_period, reveal_period, now),
    {
        if now < self.start_block_height {
            return false;
        }
        let elapsed: u64 = now - self.start_block_height;
        bid_period <= elapsed && (elapsed as u128) < bid_period as u128 + reveal_period as u128
    }

    /// Whether `party` has bid.
    pub fn has_bid(&self, party: &String) -> (yes: bool)
        ensures
            yes == self@.has_bid(party@),
    {
        position(&self.bidders, party).is_some()
    }

    /// The bid of `party`, if it has bid.
    pub fn bid_for(&self, party: &String) -> (found: Option<&Bid>)
        requires
            self@.wf(),
        ensures
            found is Some <==> self@.has_bid(party@),
            found matches Some(bid) ==> bid@ == self@.bid_of(party@),
    {
        match position(&self.bidders, party) {
            Some(at) => Some(&self.bids[at]),
            None => None,
        }
    }

    /// The amount revealed by `party`, if it has revealed.
    pub fn reveal_for(&self, party: &String) -> (found: Option<u128>)
        requires
            self@.wf(),
        ensures
            found is Some <==> self@.has_revealed(party@),
            found matches Some(amount) ==> amount == self@.reveal_of(party@),
    {
        match position(&self.revealers, party) {
            Some(at) => Some(self.reveals[at]),
            None => None,
        }
    }

    /// Records a bid of `bidder`, unless that party has bid already.
    pub fn place_bid(&mut self, bidder: String, commitment: Vec<u8>) -> (placed: bool)
        requires
            old(self)@.wf(),
        ensures
            final(self)@.wf(),
            placed == !old(self)@.has_bid(bidder@),
            placed ==> final(self)@ == old(self)@.with_bid(bidder@, commitment@),
            !placed ==> final(self)@ == old(self)@,
    {
        if position(&self.bidders, &bidder).is_some() {
            return false;
        }
        self.bidders.push(bidder);
        self.bids.push(Bid::new(commitment));
        proof {
            let expected = old(self)@.with_bid(bidder@, commitment@);
            assert(self@.bidders =~= expected.bidders);
            assert(self@.bids =~= expected.bids);
            lemma_with_bid_wf(old(self)@, bidder@, commitment@);
        }
        true
    }

    /// Takes the reveal of `party`: where the party has bid, has not revealed
    /// yet, and `recomputed`, the commitment recomputed from the reveal, is
    /// the recorded one, byte for byte, `amount` is held for the bid and
    /// listed as its reveal. A party reveals once: a second reveal is
    /// refused, whatever it reveals.
    pub fn record_reveal(
        &mut self,
        party: &String,
        amount: u128,
        recomputed: &Vec<u8>,
    ) -> (taken: bool)
        requires
            old(self)@.wf(),
        ensures
            final(self)@.wf(),
            taken == {
                &&& old(self)@.has_bid(party@)
                &&& !old(self)@.has_revealed(party@)
                &&& old(self)@.bid_of(party@).commitment == recomputed@
            },
            taken ==> final(self)@ == old(self)@.with_reveal(party@, amount),
            !taken ==> final(self)@ == old(self)@,
    {
        let at: usize = match position(&self.bidders, party) {
            Some(at) => at,
            None => {
                return false;
            },
        };
        proof {
            lemma_found_at(self@.bidders, at as int);
        }
        if position(&self.revealers, party).is_some() {
            return false;
        }
        if !same_bytes(&self.bids[at].commitment, recomputed) {
            return false;
        }
        self.bids[at].amount = amount;
        self.revealers.push(party.clone());
        self.reveals.push(amount);
        proof {
            let expected = old(self)@.with_reveal(party@, amount);
            assert(self@.bids =~= expected.bids);
            assert(self@.revealers =~= expected.revealers);
            lemma_with_reveal_wf(old(self)@, party@, amount);
        }
        true
    }

    /// Pays out what is held for `party`: hands the amount back and holds 0
    /// from then on. `None`, and no change, where the party has not bid.
    pub fn release(&mut self, party: &String) -> (paid: Option<u128>)
        requires
            old(self)@.wf(),
        ensures
            final(self)@.wf(),
            paid is Some <==> old(self)@.has_bid(party@),
            paid matches Some(amount) ==> amount == old(self)@.bid_of(party@).amount,
            paid is Some ==> final(self)@ == old(self)@.with_release(party@),
            paid is None ==> final(self)@ == old(self)@,
    {
        let at: usize = match position(&self.bidders, party) {
            Some(at) => at,
            None => {
                return None;
            },
        };
        proof {
            lemma_found_at(self@.bidders, at as int);
        }
        let amount: u128 = self.bids[at].amount;
        self.bids[at].amount = 0;
        assert(self@.bids =~= old(self)@.with_release(party@).bids);
        Some(amount)
    }

    /// The price at which `party` may claim the name: the second-highest
    /// reveal, where it is not 0 and `party` holds the highest reveal.
    pub fn winning_price(&self, party: &String) -> (price: Option<u128>)
        requires
            self@.wf(),
        ensures
            price is Some <==> self@.claimable_by(party@),
            price matches Some(p) ==> p == self@.price(),
    {
        match top_two(&self.reveals) {
            Some((lead, second)) => {
                proof {
                    crate::ranking::lemma_leader_is_first_highest(self.reveals@);
                }
                if second != 0 && self.revealers[lead] == *party {
                    Some(second)
                } else {
                    None
                }
            },
            None => None,
        }
    }

    /// Settles the auction in favour of `winner`: every other bidder is owed
    /// what is held for them, the winner's own amount is given up, and
    /// nothing is held afterwards. Hands back the amount given up and the
    /// transfers owed, in bid order.
    pub fn settle(&mut self, winner: &String) -> (paid: (u128, Vec<Transfer>))
        requires
            old(self)@.wf(),
        ensures
            final(self)@.wf(),
            final(self)@ == old(self)@.emptied(),
            paid.0 == old(self)@.forfeit(winner@),
            transfer_views(paid.1@) == old(self)@.refunds(winner@),
    {
        let ghost before = self@;
        let count: usize = self.bids.len();
        let mut refunds: Vec<Transfer> = Vec::new();
        let mut forfeited: u128 = 0;
        let mut i: usize = 0;
        while i < count
            invariant
                before.wf(),
                count == before.bids.len(),
                i <= count,
                self@.start_tick == before.start_tick,
                self@.bidders == before.bidders,
                self@.revealers == before.revealers,
                self@.reveals == before.reveals,
                self@.bids.len() == count,
                forall|k: int|
                    0 <= k < i ==> self@.bids[k] == (BidView {
                        amount: 0,
                        commitment: before.bids[k].commitment,
                    }),
                forall|k: int| i <= k < count ==> self@.bids[k] == before.bids[k],
                transfer_views(refunds@) == refunds_except(
                    before.bidders.take(i as int),
                    before.bids.take(i as int),
                    winner@,
                ),
                before.bidders.take(i as int).contains(winner@) ==> forfeited == before.bid_of(
                    winner@,
                ).amount,
                !before.bidders.take(i as int).contains(winner@) ==> forfeited == 0,
            decreases count - i,
        {
            let amount: u128 = self.bids[i].amount;
            proof {
                let sofar = before.bidders.take(i as int);
                let upto = before.bidders.take(i + 1);
                assert(upto.drop_last() =~= sofar);
                assert(before.bids.take(i + 1).drop_last() =~= before.bids.take(i as int));
                assert(upto.last() == before.bidders[i as int]);
                assert(before.bids.take(i + 1).last() == before.bids[i as int]);
                if before.bidders[i as int] == winner@ {
                    lemma_found_at(before.bidders, i as int);
                    assert(upto[i as int] == winner@);
                    if sofar.contains(winner@) {
                        let k = sofar.index_of(winner@);
                        assert(before.bidders[k] == winner@);
                    }
                } else {
                    if upto.contains(winner@) {
                        let k = upto.index_of(winner@);
                        assert(sofar[k] == winner@);
                    }
                    if sofar.contains(winner@) {
                        let k = sofar.index_of(winner@);
                        assert(upto[k] == winner@);
                    }
                }
            }
            if self.bidders[i] == *winner {
                forfeited = amount;
            } else {
                refunds.push(Transfer { to: self.bidders[i].clone(), amount });
            }
            let ghost held = self@.bids;
            self.bids[i].amount = 0;
            assert(self@.bids =~= held.update(
                i as int,
                BidView { amount: 0, commitment: held[i as int].commitment },
            ));
            i = i + 1;
        }
        proof {
            assert(before.bidders.take(count as int) =~= before.bidders);
            assert(before.bids.take(count as int) =~= before.bids);
            assert(self@.bids =~= before.emptied().bids);
        }
        (forfeited, refunds)
    }
}

/// A fresh bid of a party that has none keeps an auction well formed.
pub proof fn lemma_with_bid_wf(auction: AuctionView, party: Seq<char>, commitment: Seq<u8>)
    requires
        auction.wf(),
        !auction.has_bid(party),
    ensures
        auction.with_bid(party, commitment).wf(),
{
    let after = auction.with_bid(party, commitment);
    assert forall|j: int| 0 <= j < after.revealers.len() implies after.bidders.contains(
        #[trigger] after.revealers[j],
    ) by {
        let at = auction.bidders.index_of(auction.revealers[j]);
        assert(after.bidders[at] == auction.revealers[j]);
    }
}

/// A reveal by a bidder that has not revealed yet keeps an auction well
/// formed. Nothing was held for the bidder before it, and the revealed
/// amount is held after it.
pub proof fn lemma_with_reveal_wf(auction: AuctionView, party: Seq<char>, amount: u128)
    requires
        auction.wf(),
        auction.has_bid(party),
        !auction.has_revealed(party),
    ensures
        auction.bid_of(party).amount == 0,
        auction.with_reveal(party, amount).wf(),
        auction.with_reveal(party, amount).has_revealed(party),
        auction.with_reveal(party, amount).reveal_of(party) == amount,
        auction.with_reveal(party, amount).bid_of(party) == (BidView {
            amount,
            commitment: auction.bid_of(party).commitment,
        }),
{
    let after = auction.with_reveal(party, amount);
    let at = auction.bidders.index_of(party);
    lemma_push_fresh(auction.revealers, party);
    assert forall|i: int| 0 <= i < after.bidders.len() implies {
        ||| (#[trigger] after.bids[i]).amount == 0
        ||| after.revealers.contains(after.bidders[i]) && after.bids[i].amount
            == after.reveal_of(after.bidders[i])
    } by {
        if i != at && auction.bids[i].amount != 0 {
            let other = auction.revealers.index_of(auction.bidders[i]);
            assert(after.revealers[other] == auction.bidders[i]);
        }
    }
}

} // verus!
