//! The registrar: the schedule, one auction per name, and the four operations
//! that drive an auction from the first bid to settlement.

use crate::auction::{Auction, AuctionView, Phase, Transfer, TransferView, transfer_views};
use crate::encoding::{commitment, commitment_of, eligibility_slot, slot_of};
use crate::parties::{lemma_found_at, lemma_push_fresh, position};
use vstd::prelude::*;

verus! {

/// What the ledger reports of one call: the time, who calls, and the value
/// attached to the call.
pub struct Call {
    /// The current tick of the ledger's clock.
    pub now: u64,
    /// The party that makes the call.
    pub caller: String,
    /// The value that the call carries.
    pub attached: u128,
}

/// What a successful claim decides: the name to create for the winner with
/// the key to bind to it, the price, the winner's own held amount that is
/// given up, and what every other bidder is owed.
pub struct Settlement {
    /// The name to create.
    pub name: String,
    /// The key to bind to the name.
    pub public_key: Vec<u8>,
    /// The party the name goes to.
    pub winner: String,
    /// The second-highest reveal.
    pub price: u128,
    /// What was held for the winner: the price and the surplus above it,
    /// none of which is paid back.
    pub forfeited: u128,
    /// What the other bidders are owed, in bid order.
    pub refunds: Vec<Transfer>,
}

/// A registrar as the contracts see it.
pub struct RegistrarView {
    /// The tick from which schedule periods are counted.
    pub launch_tick: u64,
    /// How long bidding lasts, and how long one schedule period is.
    pub bid_period: u64,
    /// How long revealing lasts after bidding has closed.
    pub reveal_period: u64,
    /// The auction of every name that was ever bid on.
    pub auctions: Map<Seq<char>, AuctionView>,
}

impl RegistrarView {
    /// Every auction is well formed.
    pub open spec fn wf(self) -> bool {
        forall|name: Seq<char>| #[trigger]
            self.auctions.contains_key(name) ==> self.auctions[name].wf()
    }

    /// The schedule period that `now` falls into is the one numbered `slot`:
    /// periods are `bid_period` ticks long and counted from the launch.
    pub open spec fn eligible_at(self, now: u64, slot: u64) -> bool {
        &&& self.bid_period > 0
        &&& now >= self.launch_tick
        &&& (now - self.launch_tick) / (self.bid_period as int) == slot
    }

    /// Whether a bid by `caller` for `name` is taken at `now`, `slot` being
    /// the schedule slot of the name. For a name under auction: bidding is
    /// still open and the caller has not bid. For a name without an auction:
    /// `now` falls into the period of its slot.
    pub open spec fn bid_accepted(
        self,
        now: u64,
        caller: Seq<char>,
        name: Seq<char>,
        slot: u64,
    ) -> bool {
        if self.auctions.contains_key(name) {
            &&& self.auctions[name].phase(self.bid_period, self.reveal_period, now)
                == Phase::Bidding
            &&& !self.auctions[name].has_bid(caller)
        } else {
            self.eligible_at(now, slot)
        }
    }

    /// The registrar once a bid was taken.
    pub open spec fn after_bid(
        self,
        now: u64,
        caller: Seq<char>,
        name: Seq<char>,
        commitment: Seq<u8>,
    ) -> RegistrarView {
        let auction = if self.auctions.contains_key(name) {
            self.auctions[name].with_bid(caller, commitment)
        } else {
            AuctionView::opened(now, caller, commitment)
        };
        RegistrarView { auctions: self.auctions.insert(name, auction), ..self }
    }

    /// Whether a reveal of `amount` by `caller` is in order but for the
    /// commitment: the attached value is the amount, the name is under
    /// auction, the reveal is in time, the caller has bid, and the caller
    /// has not revealed yet.
    pub open spec fn reveal_expected(
        self,
        now: u64,
        caller: Seq<char>,
        attached: u128,
        name: Seq<char>,
        amount: u128,
    ) -> bool {
        &&& attached == amount
        &&& self.auctions.contains_key(name)
        &&& self.auctions[name].reveal_window_open(self.bid_period, self.reveal_period, now)
        &&& self.auctions[name].has_bid(caller)
        &&& !self.auctions[name].has_revealed(caller)
    }

    /// Whether a reveal of `amount` by `caller` is taken, `recomputed` being
    /// the commitment that the revealed amount and salt give: the reveal is
    /// in order, and the recorded commitment is the recomputed one.
    pub open spec fn reveal_accepted(
        self,
        now: u64,
        caller: Seq<char>,
        attached: u128,
        name: Seq<char>,
        amount: u128,
        recomputed: Seq<u8>,
    ) -> bool {
        &&& self.reveal_expected(now, caller, attached, name, amount)
        &&& self.auctions[name].bid_of(caller).commitment == recomputed
    }

    /// The registrar once a reveal was taken.
    pub open spec fn after_reveal(
        self,
        caller: Seq<char>,
        name: Seq<char>,
        amount: u128,
    ) -> RegistrarView {
        RegistrarView {
            auctions: self.auctions.insert(name, self.auctions[name].with_reveal(caller, amount)),
            ..self
        }
    }

    /// Whether the auction of `name` exists and is settleable at `now`.
    pub open spec fn settleable(self, now: u64, name: Seq<char>) -> bool {
        &&& self.auctions.contains_key(name)
        &&& self.auctions[name].phase(self.bid_period, self.reveal_period, now)
            == Phase::Settleable
    }

    /// Whether `caller` may withdraw from the auction of `name` at `now`.
    pub open spec fn withdraw_accepted(self, now: u64, caller: Seq<char>, name: Seq<char>) -> bool {
        &&& self.settleable(now, name)
        &&& self.auctions[name].has_bid(caller)
    }

    /// The registrar once `caller` has withdrawn.
    pub open spec fn after_withdraw(self, caller: Seq<char>, name: Seq<char>) -> RegistrarView {
        RegistrarView {
            auctions: self.auctions.insert(name, self.auctions[name].with_release(caller)),
            ..self
        }
    }

    /// Whether `caller` may claim `name` at `now`.
    pub open spec fn claim_accepted(self, now: u64, caller: Seq<char>, name: Seq<char>) -> bool {
        &&& self.settleable(now, name)
        &&& self.auctions[name].claimable_by(caller)
    }

    /// The registrar once `name` was claimed.
    pub open spec fn after_claim(self, name: Seq<char>) -> RegistrarView {
        RegistrarView {
            auctions: self.auctions.insert(name, self.auctions[name].emptied()),
            ..self
        }
    }
}

/// The map from each listed name to the auction at the same position.
spec fn auction_table(names: Seq<Seq<char>>, auctions: Seq<AuctionView>) -> Map<
    Seq<char>,
    AuctionView,
> {
    Map::new(
        |name: Seq<char>| names.contains(name),
        |name: Seq<char>| auctions[names.index_of(name)],
    )
}

/// Replacing the auction at a position replaces the entry of its name.
proof fn lemma_table_update(
    names: Seq<Seq<char>>,
    auctions: Seq<AuctionView>,
    at: int,
    auction: AuctionView,
)
    requires
        names.no_duplicates(),
        names.len() == auctions.len(),
        0 <= at < names.len(),
    ensures
        auction_table(names, auctions.update(at, auction)) == auction_table(names, auctions).insert(
            names[at],
            auction,
        ),
        auction_table(names, auctions).contains_key(names[at]),
        auction_table(names, auctions)[names[at]] == auctions[at],
{
    lemma_found_at(names, at);
    let after = auction_table(names, auctions.update(at, auction));
    let expected = auction_table(names, auctions).insert(names[at], auction);
    assert forall|name: Seq<char>| after.contains_key(name) implies #[trigger] after[name]
        == expected[name] by {
        let found = names.index_of(name);
        if found == at {
            assert(names[found] == name);
        }
    }
    assert(after =~= expected);
}

/// Listing a fresh name with its auction adds the entry of that name.
proof fn lemma_table_push(
    names: Seq<Seq<char>>,
    auctions: Seq<AuctionView>,
    name: Seq<char>,
    auction: AuctionView,
)
    requires
        names.no_duplicates(),
        names.len() == auctions.len(),
        !names.contains(name),
    ensures
        auction_table(names.push(name), auctions.push(auction)) == auction_table(
            names,
            auctions,
        ).insert(name, auction),
        !auction_table(names, auctions).contains_key(name),
{
    lemma_push_fresh(names, name);
    let after = auction_table(names.push(name), auctions.push(auction));
    let expected = auction_table(names, auctions).insert(name, auction);
    assert forall|other: Seq<char>| after.contains_key(other) == expected.contains_key(other) by {
        if other != name {
            assert(names.push(name).contains(other) == names.contains(other));
        }
    }
    assert forall|other: Seq<char>| after.contains_key(other) implies #[trigger] after[other]
        == expected[other] by {
        if other != name {
            assert(names.contains(other));
            let found = names.index_of(other);
            assert(auctions.push(auction)[found] == auctions[found]);
        }
    }
    assert(after =~= expected);
}

/// The registrar: when the schedule was launched, how long bidding and
/// revealing last, and the auction of every name that was ever bid on.
pub struct Registrar {
    start_block_height: u64,
    auction_period: u64,
    reveal_period: u64,
    names: Vec<String>,
    auctions: Vec<Auction>,
}

impl View for Registrar {
    type V = RegistrarView;

    closed spec fn view(&self) -> RegistrarView {
        RegistrarView {
            launch_tick: self.start_block_height,
            bid_period: self.auction_period,
            reveal_period: self.reveal_period,
            auctions: auction_table(self.names.deep_view(), self.auction_views()),
        }
    }
}

impl Registrar {
    /// The auctions in the order in which they were opened.
    spec fn auction_views(&self) -> Seq<AuctionView> {
        Seq::new(self.auctions@.len(), |i: int| self.auctions@[i]@)
    }

    /// Each name is listed once, with its auction, and each auction is well
    /// formed.
    pub closed spec fn listed(&self) -> bool {
        &&& self.names@.len() == self.auctions@.len()
        &&& self.names.deep_view().no_duplicates()
        &&& forall|i: int| 0 <= i < self.auctions@.len() ==> (#[trigger] self.auctions@[i])@.wf()
    }

    /// The registrar is in order: its names are listed as they should be,
    /// and every auction is well formed.
    pub open spec fn wf(&self) -> bool {
        self.listed() && self@.wf()
    }

    /// A change to the auction at one position, and nowhere else, shows as a
    /// change to the auction of the name at that position.
    proof fn lemma_one_changed(before: Registrar, after: Registrar, at: int)
        requires
            before.listed(),
            0 <= at < before.auctions@.len(),
            after.start_block_height == before.start_block_height,
            after.auction_period == before.auction_period,
            after.reveal_period == before.reveal_period,
            after.names == before.names,
            after.auctions@.len() == before.auctions@.len(),
            forall|i: int|
                0 <= i < before.auctions@.len() && i != at ==> after.auctions@[i]
                    == before.auctions@[i],
            after.auctions@[at]@.wf(),
        ensures
            after.listed(),
            before@.auctions.contains_key(before.names.deep_view()[at]),
            before@.auctions[before.names.deep_view()[at]] == before.auctions@[at]@,
            after@ == (RegistrarView {
                auctions: before@.auctions.insert(
                    before.names.deep_view()[at],
                    after.auctions@[at]@,
                ),
                ..before@
            }),
            after.auctions@[at]@ == before.auctions@[at]@ ==> after@ == before@,
    {
        assert(after.auction_views() =~= before.auction_views().update(at, after.auctions@[at]@));
        lemma_table_update(
            before.names.deep_view(),
            before.auction_views(),
            at,
            after.auctions@[at]@,
        );
        if after.auctions@[at]@ == before.auctions@[at]@ {
            assert(after@.auctions =~= before@.auctions);
        }
    }

    /// A registrar whose schedule starts at `launch_tick`, with no auctions.
    pub fn new(launch_tick: u64, auction_period: u64, reveal_period: u64) -> (registrar: Registrar)
        ensures
            registrar.wf(),
            registrar@ == (RegistrarView {
                launch_tick,
                bid_period: auction_period,
                reveal_period,
                auctions: Map::empty(),
            }),
    {
        let registrar = Registrar {
            start_block_height: launch_tick,
            auction_period,
            reveal_period,
            names: Vec::new(),
            auctions: Vec::new(),
        };
        assert(registrar@.auctions =~= Map::empty());
        registrar
    }

    /// The tick at which the schedule was launched.
    pub fn launch_tick(&self) -> (tick: u64)
        ensures
            tick == self@.launch_tick,
    {
        self.start_block_height
    }

    /// How long bidding lasts, and how long one schedule period is.
    pub fn bid_period(&self) -> (ticks: u64)
        ensures
            ticks == self@.bid_period,
    {
        self.auction_period
    }

    /// How long revealing lasts after bidding has closed.
    pub fn reveal_period(&self) -> (ticks: u64)
        ensures
            ticks == self@.reveal_period,
    {
        self.reveal_period
    }

    /// The auction of `name`, if the name was ever bid on.
    pub fn auction(&self, name: &String) -> (found: Option<&Auction>)
        requires
            self.wf(),
        ensures
            found is Some <==> self@.auctions.contains_key(name@),
            found matches Some(auction) ==> auction@ == self@.auctions[name@] && auction@.wf(),
    {
        match position(&self.names, name) {
            Some(at) => Some(&self.auctions[at]),
            None => None,
        }
    }

    /// Whether `now` falls into the schedule period numbered `slot`.
    pub fn eligible_at(&self, now: u64, slot: u64) -> (yes: bool)
        ensures
            yes == self@.eligible_at(now, slot),
    {
        self.auction_period > 0 && now >= self.start_block_height && (now
            - self.start_block_height) / self.auction_period == slot
    }

    /// Places a bid of the caller for `account_id`, whose schedule slot is
    /// `slot`. The first bid for a name opens its auction at the time of the
    /// call.
    pub fn bid_in_slot(
        &mut self,
        call: &Call,
        account_id: String,
        commitment: Vec<u8>,
        slot: u64,
    ) -> (accepted: bool)
        requires
            old(self).wf(),
        ensures
            final(self).wf(),
            accepted == old(self)@.bid_accepted(call.now, call.caller@, account_id@, slot),
            accepted ==> final(self)@ == old(self)@.after_bid(
                call.now,
                call.caller@,
                account_id@,
                commitment@,
            ),
            !accepted ==> final(self)@ == old(self)@,
    {
        match position(&self.names, &account_id) {
            Some(at) => {
                match self.auctions[at].phase(self.auction_period, self.reveal_period, call.now) {
                    Phase::Bidding => {},
                    _ => {
                        return false;
                    },
                }
                let placed: bool = self.auctions[at].place_bid(call.caller.clone(), commitment);
                proof {
                    lemma_found_at(old(self).names.deep_view(), at as int);
                    Self::lemma_one_changed(*old(self), *self, at as int);
                }
                placed
            },
            None => {
                if !self.eligible_at(call.now, slot) {
                    return false;
                }
                let opened: Auction = Auction::open(call.now, call.caller.clone(), commitment);
                proof {
                    lemma_table_push(
                        self.names.deep_view(),
                        self.auction_views(),
                        account_id@,
                        opened@,
                    );
                }
                self.names.push(account_id);
                self.auctions.push(opened);
                proof {
                    assert(self.names.deep_view() =~= old(self).names.deep_view().push(
                        account_id@,
                    ));
                    assert(self.auction_views() =~= old(self).auction_views().push(opened@));
                }
                true
            },
        }
    }

    /// Places a bid of the caller for `account_id`.
    ///
    /// A name that is under auction takes bids while its bidding is open, one
    /// per party. A name without an auction takes its first bid only in the
    /// schedule period of its slot, and that bid opens the auction.
    pub fn bid(&mut self, call: &Call, account_id: String, commitment: Vec<u8>) -> (accepted: bool)
        requires
            old(self).wf(),
        ensures
            final(self).wf(),
            accepted == old(self)@.bid_accepted(
                call.now,
                call.caller@,
                account_id@,
                slot_of(account_id@),
            ),
            !old(self)@.auctions.contains_key(account_id@) ==> (accepted
                <==> old(self)@.eligible_at(call.now, slot_of(account_id@))),
            accepted ==> final(self)@ == old(self)@.after_bid(
                call.now,
                call.caller@,
                account_id@,
                commitment@,
            ),
            !accepted ==> final(self)@ == old(self)@,
    {
        let slot: u64 = eligibility_slot(&account_id);
        self.bid_in_slot(call, account_id, commitment, slot)
    }

    /// Takes a reveal of `masked_amount` by the caller for `account_id`,
    /// `recomputed` being the commitment that the revealed amount and salt
    /// give. It is taken where, in this order: the attached value is the
    /// amount; the name is under auction; the reveal is in time; the caller
    /// has bid; the caller has not revealed yet; the recorded commitment is
    /// `recomputed`, byte for byte.
    pub fn reveal_against(
        &mut self,
        call: &Call,
        account_id: &String,
        masked_amount: u128,
        recomputed: &Vec<u8>,
    ) -> (accepted: bool)
        requires
            old(self).wf(),
        ensures
            final(self).wf(),
            accepted == old(self)@.reveal_accepted(
                call.now,
                call.caller@,
                call.attached,
                account_id@,
                masked_amount,
                recomputed@,
            ),
            accepted ==> final(self)@ == old(self)@.after_reveal(
                call.caller@,
                account_id@,
                masked_amount,
            ),
            !accepted ==> final(self)@ == old(self)@,
    {
        if call.attached != masked_amount {
            return false;
        }
        let at: usize = match position(&self.names, account_id) {
            Some(at) => at,
            None => {
                return false;
            },
        };
        if !self.auctions[at].reveal_window_open(
            self.auction_period,
            self.reveal_period,
            call.now,
        ) {
            return false;
        }
        let taken: bool = self.auctions[at].record_reveal(&call.caller, masked_amount, recomputed);
        proof {
            lemma_found_at(old(self).names.deep_view(), at as int);
            Self::lemma_one_changed(*old(self), *self, at as int);
        }
        taken
    }

    /// Takes a reveal of `masked_amount` and `salt` by the caller for
    /// `account_id`. The value attached to the call is the deposit: on
    /// success it is held for the caller's bid until it is withdrawn or the
    /// auction is settled. A party reveals once for a name: a second reveal
    /// is refused, whatever it reveals, so that one deposit at most is taken
    /// from every bidder.
    pub fn reveal_bid(
        &mut self,
        call: &Call,
        account_id: String,
        masked_amount: u128,
        salt: String,
    ) -> (accepted: bool)
        requires
            old(self).wf(),
        ensures
            final(self).wf(),
            accepted == old(self)@.reveal_accepted(
                call.now,
                call.caller@,
                call.attached,
                account_id@,
                masked_amount,
                commitment_of(masked_amount, salt@),
            ),
            old(self)@.reveal_expected(
                call.now,
                call.caller@,
                call.attached,
                account_id@,
                masked_amount,
            ) ==> (accepted <==> old(self)@.auctions[account_id@].bid_of(call.caller@).commitment
                == commitment_of(masked_amount, salt@)),
            accepted ==> final(self)@ == old(self)@.after_reveal(
                call.caller@,
                account_id@,
                masked_amount,
            ),
            !accepted ==> final(self)@ == old(self)@,
    {
        let recomputed: Vec<u8> = commitment(masked_amount, &salt);
        self.reveal_against(call, &account_id, masked_amount, &recomputed)
    }

    /// Pays out what is held for the caller in the auction of `account_id`,
    /// once that auction is settleable. Hands back the transfer to make; its
    /// amount is 0 where nothing is held, as after an earlier withdrawal.
    pub fn withdraw(&mut self, call: &Call, account_id: String) -> (paid: Option<Transfer>)
        requires
            old(self).wf(),
        ensures
            final(self).wf(),
            paid is Some <==> old(self)@.withdraw_accepted(call.now, call.caller@, account_id@),
            paid matches Some(transfer) ==> transfer@ == (TransferView {
                to: call.caller@,
                amount: old(self)@.auctions[account_id@].bid_of(call.caller@).amount,
            }),
            paid is Some ==> final(self)@ == old(self)@.after_withdraw(call.caller@, account_id@),
            paid is None ==> final(self)@ == old(self)@,
    {
        let at: usize = match position(&self.names, &account_id) {
            Some(at) => at,
            None => {
                return None;
            },
        };
        match self.auctions[at].phase(self.auction_period, self.reveal_period, call.now) {
            Phase::Settleable => {},
            _ => {
                return None;
            },
        }
        let released: Option<u128> = self.auctions[at].release(&call.caller);
        proof {
            lemma_found_at(old(self).names.deep_view(), at as int);
            Self::lemma_one_changed(*old(self), *self, at as int);
        }
        match released {
            Some(amount) => Some(Transfer { to: call.caller.clone(), amount }),
            None => None,
        }
    }

    /// Settles the auction of `account_id` in favour of the caller, once
    /// that auction is settleable, the second-highest reveal is not 0 and
    /// the caller holds the highest reveal. Hands back what is to be done:
    /// the name to create with `public_key`, the price, and a refund for
    /// every other bidder. Nothing is held in the auction afterwards.
    pub fn claim(
        &mut self,
        call: &Call,
        account_id: String,
        public_key: Vec<u8>,
    ) -> (settled: Option<Settlement>)
        requires
            old(self).wf(),
        ensures
            final(self).wf(),
            settled is Some <==> old(self)@.claim_accepted(call.now, call.caller@, account_id@),
            settled matches Some(done) ==> done.name@ == account_id@,
            settled matches Some(done) ==> done.public_key@ == public_key@,
            settled matches Some(done) ==> done.winner@ == call.caller@,
            settled matches Some(done) ==> done.price == old(self)@.auctions[account_id@].price(),
            settled matches Some(done) ==> done.forfeited
                == old(self)@.auctions[account_id@].forfeit(call.caller@),
            settled matches Some(done) ==> transfer_views(done.refunds@)
                == old(self)@.auctions[account_id@].refunds(call.caller@),
            settled is Some ==> final(self)@ == old(self)@.after_claim(account_id@),
            settled is None ==> final(self)@ == old(self)@,
    {
        let at: usize = match position(&self.names, &account_id) {
            Some(at) => at,
            None => {
                return None;
            },
        };
        match self.auctions[at].phase(self.auction_period, self.reveal_period, call.now) {
            Phase::Settleable => {},
            _ => {
                return None;
            },
        }
        let price: u128 = match self.auctions[at].winning_price(&call.caller) {
            Some(price) => price,
            None => {
                return None;
            },
        };
        let paid: (u128, Vec<Transfer>) = self.auctions[at].settle(&call.caller);
        proof {
            lemma_found_at(old(self).names.deep_view(), at as int);
            Self::lemma_one_changed(*old(self), *self, at as int);
        }
        Some(
            Settlement {
                name: account_id,
                public_key,
                winner: call.caller.clone(),
                price,
                forfeited: paid.0,
                refunds: paid.1,
            },
        )
    }
}

} // verus!
