//! The lottery registry and the operations on it.
//!
//! The registry is an explicit value: callers load it, run one operation and
//! persist it whole. Each operation validates before it changes anything, so a
//! failed operation leaves the registry as it was.

use vstd::prelude::*;
use crate::address::Address;
use crate::lottery::{distinct_identities, identities, Lottery, LotteryView};

verus! {

/// Why an operation was refused.
#[derive(Clone, Copy, Debug, PartialEq, Eq, Structural)]
pub enum LotteryError {
    NotFound,
    AlreadyCompleted,
    Full,
    DuplicateParticipant,
    AuthorizationFailed,
}

/// The model of the registry: the issuance counter and the lotteries in
/// ascending order of identifier.
pub ghost struct RegistryView {
    pub counter: u32,
    pub lotteries: Seq<LotteryView>,
}

impl RegistryView {
    pub open spec fn len(self) -> int {
        self.lotteries.len() as int
    }

    /// Identifiers are strictly ascending, hence unique.
    pub open spec fn ids_ordered(self) -> bool {
        forall|i: int, j: int|
            0 <= i < j < self.len() ==> #[trigger] self.lotteries[i].id < #[trigger] self.lotteries[j].id
    }

    /// Every identifier was issued: it lies between 1 and the counter.
    pub open spec fn ids_issued(self) -> bool {
        forall|i: int| 0 <= i < self.len() ==> 1 <= #[trigger] self.lotteries[i].id <= self.counter
    }

    /// No lottery holds more participants than its capacity.
    pub open spec fn within_capacity(self) -> bool {
        forall|i: int|
            0 <= i < self.len() ==> (#[trigger] self.lotteries[i]).participants.len()
                <= self.lotteries[i].max_participants
    }

    /// A completed lottery has its winner.
    pub open spec fn completed_have_winner(self) -> bool {
        forall|i: int|
            0 <= i < self.len() && (#[trigger] self.lotteries[i]).is_completed
                ==> self.lotteries[i].winner is Some
    }

    /// No caller appears twice among the participants of one lottery.
    pub open spec fn participants_distinct(self) -> bool {
        forall|i: int| 0 <= i < self.len() ==> (#[trigger] self.lotteries[i]).participants.no_duplicates()
    }

    pub open spec fn wf(self) -> bool {
        &&& self.ids_ordered()
        &&& self.ids_issued()
        &&& self.within_capacity()
        &&& self.completed_have_winner()
        &&& self.participants_distinct()
    }

    pub open spec fn has_id(self, id: u32) -> bool {
        exists|i: int| 0 <= i < self.len() && #[trigger] self.lotteries[i].id == id
    }

    /// The position of the lottery with identifier `id`.
    pub open spec fn slot(self, id: u32) -> int {
        choose|i: int| 0 <= i < self.len() && #[trigger] self.lotteries[i].id == id
    }

    pub open spec fn lottery(self, id: u32) -> LotteryView {
        self.lotteries[self.slot(id)]
    }

    /// The registry with every lottery discarded and the counter reset.
    pub open spec fn empty() -> RegistryView {
        RegistryView { counter: 0, lotteries: Seq::empty() }
    }

    pub open spec fn new_lottery(
        self,
        creator: Seq<char>,
        name: Seq<char>,
        entry_fee: i128,
        max_participants: u32,
        now: u64,
    ) -> LotteryView {
        LotteryView {
            id: (self.counter + 1) as u32,
            name,
            entry_fee,
            max_participants,
            participants: Seq::empty(),
            winner: None,
            winner_tx_hash: None,
            is_completed: false,
            created_at: now,
            creator,
        }
    }

    /// The registry after a successful creation.
    pub open spec fn created(
        self,
        creator: Seq<char>,
        name: Seq<char>,
        entry_fee: i128,
        max_participants: u32,
        now: u64,
    ) -> RegistryView {
        RegistryView {
            counter: (self.counter + 1) as u32,
            lotteries: self.lotteries.push(
                self.new_lottery(creator, name, entry_fee, max_participants, now),
            ),
        }
    }

    pub open spec fn create_outcome(self, authorized: bool) -> Result<u32, LotteryError> {
        if !authorized {
            Err(LotteryError::AuthorizationFailed)
        } else {
            Ok((self.counter + 1) as u32)
        }
    }

    /// What entering `who` into lottery `id` answers; the conditions are
    /// tested in this order.
    pub open spec fn enter_outcome(self, who: Seq<char>, id: u32, authorized: bool) -> Result<
        (),
        LotteryError,
    > {
        if !authorized {
            Err(LotteryError::AuthorizationFailed)
        } else if !self.has_id(id) {
            Err(LotteryError::NotFound)
        } else if self.lottery(id).is_completed {
            Err(LotteryError::AlreadyCompleted)
        } else if self.lottery(id).participants.len() >= self.lottery(id).max_participants {
            Err(LotteryError::Full)
        } else if self.lottery(id).has_participant(who) {
            Err(LotteryError::DuplicateParticipant)
        } else {
            Ok(())
        }
    }

    /// The registry after `who` entered lottery `id`.
    pub open spec fn entered(self, who: Seq<char>, id: u32) -> RegistryView {
        RegistryView {
            lotteries: self.lotteries.update(self.slot(id), self.lottery(id).with_participant(who)),
            ..self
        }
    }

    pub open spec fn complete_outcome(self, id: u32) -> Result<(), LotteryError> {
        if !self.has_id(id) {
            Err(LotteryError::NotFound)
        } else if self.lottery(id).is_completed {
            Err(LotteryError::AlreadyCompleted)
        } else {
            Ok(())
        }
    }

    /// The registry after lottery `id` was completed with `winner`.
    pub open spec fn completed(self, id: u32, winner: Seq<char>) -> RegistryView {
        RegistryView {
            lotteries: self.lotteries.update(self.slot(id), self.lottery(id).completed_with(winner)),
            ..self
        }
    }

    pub open spec fn completed_lotteries(self) -> Seq<LotteryView> {
        self.lotteries.filter(|l: LotteryView| l.is_completed)
    }

    /// Going from `self` to `after` loses no lottery, keeps every identifier
    /// in its place, lets the counter only grow, and leaves the participants,
    /// winner and completion of each completed lottery as they were.
    pub open spec fn completed_frozen(self, after: RegistryView) -> bool {
        &&& self.counter <= after.counter
        &&& self.len() <= after.len()
        &&& forall|i: int|
            0 <= i < self.len() ==> {
                &&& (#[trigger] after.lotteries[i]).id == self.lotteries[i].id
                &&& self.lotteries[i].is_completed ==> {
                    &&& after.lotteries[i].is_completed
                    &&& after.lotteries[i].participants == self.lotteries[i].participants
                    &&& after.lotteries[i].winner == self.lotteries[i].winner
                }
            }
    }
}

/// In a registry with ascending identifiers, the lottery found at `i` is the
/// one that `slot` designates.
pub proof fn lemma_slot_unique(reg: RegistryView, id: u32, i: int)
    requires
        reg.ids_ordered(),
        0 <= i < reg.len(),
        reg.lotteries[i].id == id,
    ensures
        reg.has_id(id),
        reg.slot(id) == i,
{
    let j = reg.slot(id);
    assert(0 <= j < reg.len() && reg.lotteries[j].id == id);
    if j < i {
        assert(reg.lotteries[j].id < reg.lotteries[i].id);
    } else if i < j {
        assert(reg.lotteries[i].id < reg.lotteries[j].id);
    }
}

/// The lottery registry: an issuance counter and the lotteries, kept in
/// ascending order of identifier.
pub struct LotteryContract {
    counter: u32,
    lotteries: Vec<Lottery>,
}

impl View for LotteryContract {
    type V = RegistryView;

    closed spec fn view(&self) -> RegistryView {
        RegistryView { counter: self.counter, lotteries: self.lotteries@.map_values(|l: Lottery| l@) }
    }
}

/// The model of a registry made of `counter` and `lotteries`.
pub open spec fn registry_of(counter: u32, lotteries: Seq<Lottery>) -> RegistryView {
    RegistryView { counter, lotteries: lotteries.map_values(|l: Lottery| l@) }
}

impl LotteryContract {
    /// A registry rebuilt from stored parts, or `None` where the parts break
    /// one of the registry's invariants.
    pub fn restore(counter: u32, lotteries: Vec<Lottery>) -> (r: Option<LotteryContract>)
        ensures
            r is Some <==> registry_of(counter, lotteries@).wf(),
            r matches Some(reg) ==> reg@ == registry_of(counter, lotteries@),
    {
        let ghost reg = registry_of(counter, lotteries@);
        let mut i: usize = 0;
        while i < lotteries.len()
            invariant
                reg == registry_of(counter, lotteries@),
                i <= lotteries.len(),
                forall|x: int, y: int|
                    0 <= x < y < i ==> #[trigger] reg.lotteries[x].id < #[trigger] reg.lotteries[y].id,
                forall|x: int| 0 <= x < i ==> 1 <= #[trigger] reg.lotteries[x].id <= counter,
                forall|x: int|
                    0 <= x < i ==> (#[trigger] reg.lotteries[x]).participants.len()
                        <= reg.lotteries[x].max_participants,
                forall|x: int|
                    0 <= x < i && (#[trigger] reg.lotteries[x]).is_completed
                        ==> reg.lotteries[x].winner is Some,
                forall|x: int| 0 <= x < i ==> (#[trigger] reg.lotteries[x]).participants.no_duplicates(),
            decreases lotteries.len() - i,
        {
            let l = &lotteries[i];
            assert(reg.lotteries[i as int] == l@);
            if l.id < 1 || l.id > counter {
                assert(!(1 <= reg.lotteries[i as int].id <= counter));
                assert(!reg.ids_issued());
                return None;
            }
            if i > 0 && lotteries[i - 1].id >= l.id {
                assert(reg.lotteries[i - 1].id >= reg.lotteries[i as int].id);
                assert(!reg.ids_ordered());
                return None;
            }
            if l.participants.len() as u64 > l.max_participants as u64 {
                assert(!reg.within_capacity());
                return None;
            }
            if l.is_completed && l.winner.is_none() {
                assert(!reg.completed_have_winner());
                return None;
            }
            if !distinct_identities(&l.participants) {
                assert(!reg.participants_distinct());
                return None;
            }
            assert forall|x: int, y: int|
                0 <= x < y < i + 1 implies #[trigger] reg.lotteries[x].id
                < #[trigger] reg.lotteries[y].id by {
                if y == i && x < i - 1 {
                    assert(reg.lotteries[x].id < reg.lotteries[i - 1].id);
                }
            }
            i = i + 1;
        }
        Some(LotteryContract { counter, lotteries })
    }

    /// An empty registry, as read where nothing was ever stored.
    pub fn new() -> (r: LotteryContract)
        ensures
            r@ == RegistryView::empty(),
            r@.wf(),
    {
        let r = LotteryContract { counter: 0, lotteries: Vec::new() };
        assert(r@.lotteries =~= Seq::empty());
        r
    }

    /// Discards every lottery and resets the counter.
    pub fn initialize(&mut self)
        ensures
            final(self)@ == RegistryView::empty(),
            final(self)@.wf(),
    {
        self.counter = 0;
        self.lotteries = Vec::new();
        assert(self@.lotteries =~= Seq::empty());
    }

    /// The current value of the issuance counter.
    pub fn get_lottery_count(&self) -> (r: u32)
        ensures
            r == self@.counter,
    {
        self.counter
    }

    /// The position of lottery `id`, if the registry holds it.
    fn find(&self, id: u32) -> (r: Option<usize>)
        requires
            self@.wf(),
        ensures
            match r {
                Some(i) => {
                    &&& i < self@.len()
                    &&& self@.lotteries[i as int].id == id
                    &&& self@.has_id(id)
                    &&& self@.slot(id) == i
                },
                None => !self@.has_id(id),
            },
    {
        let mut i: usize = 0;
        while i < self.lotteries.len()
            invariant
                i <= self.lotteries.len(),
                self@.wf(),
                forall|k: int| 0 <= k < i ==> self@.lotteries[k].id != id,
            decreases self.lotteries.len() - i,
        {
            if self.lotteries[i].id == id {
                proof {
                    lemma_slot_unique(self@, id, i as int);
                }
                return Some(i);
            }
            i = i + 1;
        }
        None
    }

    /// Creates a lottery and returns its identifier, one above the counter.
    ///
    /// `creator_authorized` is the authorization gate's answer for `creator`,
    /// `now` the clock's current timestamp. `duration` is accepted and has no
    /// effect: lotteries do not expire.
    pub fn create_lottery(
        &mut self,
        creator: Address,
        name: String,
        entry_fee: i128,
        duration: u64,
        max_participants: u32,
        creator_authorized: bool,
        now: u64,
    ) -> (r: Result<u32, LotteryError>)
        requires
            old(self)@.wf(),
            old(self)@.counter < u32::MAX,
        ensures
            final(self)@.wf(),
            r == old(self)@.create_outcome(creator_authorized),
            r is Ok ==> final(self)@ == old(self)@.created(
                creator@,
                name@,
                entry_fee,
                max_participants,
                now,
            ),
            r is Err ==> final(self)@ == old(self)@,
            old(self)@.completed_frozen(final(self)@),
    {
        if !creator_authorized {
            return Err(LotteryError::AuthorizationFailed);
        }
        let new_id: u32 = self.counter + 1;
        let lottery = Lottery {
            id: new_id,
            name,
            entry_fee,
            max_participants,
            participants: Vec::new(),
            winner: None,
            winner_tx_hash: None,
            is_completed: false,
            created_at: now,
            creator,
        };
        proof {
            assert(identities(lottery.participants@) =~= Seq::empty());
        }
        let ghost before = self@;
        self.lotteries.push(lottery);
        self.counter = new_id;
        proof {
            assert(self@.lotteries =~= before.lotteries.push(
                before.new_lottery(lottery.creator@, lottery.name@, entry_fee, max_participants, now),
            ));
        }
        Ok(new_id)
    }

    /// Enters `participant` into lottery `lottery_id`.
    ///
    /// `participant_authorized` is the authorization gate's answer for
    /// `participant`. Refused, in this order of checks, when the caller is not
    /// authorized, the lottery is unknown, already completed, full, or already
    /// holds the caller.
    pub fn enter_lottery(
        &mut self,
        participant: Address,
        lottery_id: u32,
        participant_authorized: bool,
    ) -> (r: Result<(), LotteryError>)
        requires
            old(self)@.wf(),
        ensures
            final(self)@.wf(),
            r == old(self)@.enter_outcome(participant@, lottery_id, participant_authorized),
            r is Ok ==> final(self)@ == old(self)@.entered(participant@, lottery_id),
            r is Err ==> final(self)@ == old(self)@,
            old(self)@.completed_frozen(final(self)@),
    {
        if !participant_authorized {
            return Err(LotteryError::AuthorizationFailed);
        }
        let i = match self.find(lottery_id) {
            Some(i) => i,
            None => {
                return Err(LotteryError::NotFound);
            },
        };
        if self.lotteries[i].is_completed {
            return Err(LotteryError::AlreadyCompleted);
        }
        if self.lotteries[i].participants.len() as u64 >= self.lotteries[i].max_participants as u64 {
            return Err(LotteryError::Full);
        }
        let n = self.lotteries[i].participants.len();
        let mut k: usize = 0;
        while k < n
            invariant
                self@.wf(),
                self@ == old(self)@,
                participant_authorized,
                i < self@.len(),
                self@.has_id(lottery_id),
                self@.slot(lottery_id) == i,
                !self@.lotteries[i as int].is_completed,
                self@.lotteries[i as int].participants.len() < self@.lotteries[i as int].max_participants,
                n == self.lotteries@[i as int].participants@.len(),
                k <= n,
                forall|j: int| 0 <= j < k ==> self@.lotteries[i as int].participants[j] != participant@,
            decreases n - k,
        {
            if self.lotteries[i].participants[k].same_as(&participant) {
                assert(self@.lotteries[i as int].participants[k as int] == participant@);
                assert(self@.lottery(lottery_id).has_participant(participant@));
                return Err(LotteryError::DuplicateParticipant);
            }
            k = k + 1;
        }
        let ghost before = self@;
        let ghost who = participant@;
        self.lotteries[i].participants.push(participant);
        proof {
            let old_l = before.lotteries[i as int];
            assert(self@.lotteries[i as int].participants =~= old_l.participants.push(who));
            assert(self@.lotteries =~= before.lotteries.update(i as int, old_l.with_participant(who)));
        }
        Ok(())
    }

    /// Completes lottery `lottery_id` with `winner_address` as its winner.
    ///
    /// Neither the caller nor the winner's membership among the participants
    /// is checked here.
    pub fn complete_lottery(&mut self, lottery_id: u32, winner_address: Address) -> (r: Result<
        (),
        LotteryError,
    >)
        requires
            old(self)@.wf(),
        ensures
            final(self)@.wf(),
            r == old(self)@.complete_outcome(lottery_id),
            r is Ok ==> final(self)@ == old(self)@.completed(lottery_id, winner_address@),
            r is Err ==> final(self)@ == old(self)@,
            old(self)@.completed_frozen(final(self)@),
    {
        let i = match self.find(lottery_id) {
            Some(i) => i,
            None => {
                return Err(LotteryError::NotFound);
            },
        };
        if self.lotteries[i].is_completed {
            return Err(LotteryError::AlreadyCompleted);
        }
        let ghost before = self@;
        let ghost who = winner_address@;
        self.lotteries[i].is_completed = true;
        self.lotteries[i].winner = Some(winner_address);
        proof {
            let old_l = before.lotteries[i as int];
            assert(self@.lotteries =~= before.lotteries.update(i as int, old_l.completed_with(who)));
        }
        Ok(())
    }

    /// Every lottery, in ascending order of identifier.
    pub fn get_all_lotteries(&self) -> (r: Vec<Lottery>)
        ensures
            r@.map_values(|l: Lottery| l@) == self@.lotteries,
    {
        let mut r: Vec<Lottery> = Vec::new();
        let mut i: usize = 0;
        while i < self.lotteries.len()
            invariant
                i <= self.lotteries.len(),
                r@.map_values(|l: Lottery| l@) =~= self@.lotteries.take(i as int),
            decreases self.lotteries.len() - i,
        {
            let ghost prev = r@;
            r.push(self.lotteries[i].clone());
            assert(r@.map_values(|l: Lottery| l@) =~= prev.map_values(|l: Lottery| l@).push(
                self@.lotteries[i as int],
            ));
            assert(self@.lotteries.take(i + 1) =~= self@.lotteries.take(i as int).push(
                self@.lotteries[i as int],
            ));
            i = i + 1;
        }
        assert(self@.lotteries.take(i as int) =~= self@.lotteries);
        r
    }

    /// The completed lotteries, in ascending order of identifier.
    pub fn get_completed_lotteries(&self) -> (r: Vec<Lottery>)
        ensures
            r@.map_values(|l: Lottery| l@) == self@.completed_lotteries(),
    {
        let mut r: Vec<Lottery> = Vec::new();
        let mut i: usize = 0;
        while i < self.lotteries.len()
            invariant
                i <= self.lotteries.len(),
                r@.map_values(|l: Lottery| l@) == self@.lotteries.take(i as int).filter(
                    |l: LotteryView| l.is_completed,
                ),
            decreases self.lotteries.len() - i,
        {
            let ghost seen = self@.lotteries.take(i as int);
            let ghost prev = r@;
            if self.lotteries[i].is_completed {
                r.push(self.lotteries[i].clone());
                assert(r@.map_values(|l: Lottery| l@) =~= prev.map_values(|l: Lottery| l@).push(
                    self@.lotteries[i as int],
                ));
            }
            i = i + 1;
            proof {
                assert(self@.lotteries.take(i as int) =~= seen.push(self@.lotteries[i - 1]));
                seen.lemma_filter_push(self@.lotteries[i - 1], |l: LotteryView| l.is_completed);
            }
        }
        assert(self@.lotteries.take(i as int) =~= self@.lotteries);
        r
    }
}

} // verus!
