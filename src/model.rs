use vstd::prelude::*;
use crate::types::{AccountId, DNSError, DomainNameView, Event, NewNameClaimed, SetNewOwner, State};

verus! {

/// One state-changing operation, with its inputs.
pub enum Op {
    Claim { name: Seq<char>, offer_state: State, offer_price: u128, caller: AccountId },
    Transfer { id: int, new_owner: AccountId, caller: AccountId },
}

/// The abstract state of a registry.
pub struct DnsView {
    /// The identity that created the registry.
    pub owner: Seq<u8>,
    /// Per-identity counters of held names.
    pub holdings: Map<Seq<u8>, int>,
    /// Every record that a claim created, by identifier.
    pub records: Map<int, DomainNameView>,
    /// The identity that first claimed each name.
    pub name_owner: Map<Seq<char>, Seq<u8>>,
    /// The claim flag of each record.
    pub claimed: Map<int, bool>,
    /// The number of successful claims so far.
    pub total_claimed: int,
    /// The identifier that the next claim receives.
    pub next_id: int,
    /// The notifications emitted and not yet taken out.
    pub events: Seq<Event>,
}

impl DnsView {
    /// The state of a fresh registry created by `creator`.
    pub open spec fn initial(creator: Seq<u8>) -> DnsView {
        DnsView {
            owner: creator,
            holdings: Map::empty(),
            records: Map::empty(),
            name_owner: Map::empty(),
            claimed: Map::empty(),
            total_claimed: 0,
            next_id: 1,
            events: Seq::empty(),
        }
    }

    /// The counter of `who`, zero for an identity never seen.
    pub open spec fn holding(self, who: Seq<u8>) -> int {
        if self.holdings.contains_key(who) {
            self.holdings[who]
        } else {
            0
        }
    }

    /// The claim flag of `id`, false for an identifier without a flag.
    pub open spec fn is_claimed(self, id: int) -> bool {
        self.claimed.contains_key(id) && self.claimed[id]
    }

    /// What every reachable state satisfies.
    pub open spec fn wf(self) -> bool {
        &&& 1 <= self.next_id
        &&& 0 <= self.total_claimed < self.next_id
        &&& forall|id: int| #[trigger] self.records.contains_key(id) ==> 1 <= id < self.next_id
        &&& forall|id: int| #[trigger]
            self.claimed.contains_key(id) <==> self.records.contains_key(id)
        &&& forall|id: int| #[trigger]
            self.records.contains_key(id) ==> self.name_owner.contains_key(self.records[id].name)
        &&& forall|i: int, j: int|
            #![trigger self.records[i], self.records[j]]
            self.records.contains_key(i) && self.records.contains_key(j) && self.records[i].name
                == self.records[j].name ==> i == j
        &&& forall|who: Seq<u8>| #[trigger]
            self.holdings.contains_key(who) ==> self.holdings[who] <= self.total_claimed
    }

    /// The state after the identifier counter moved on by one.
    pub open spec fn with_next_id(self) -> DnsView {
        DnsView { next_id: self.next_id + 1, ..self }
    }

    /// A claim of `name` by `caller`: the next state and the result.
    pub open spec fn claim(
        self,
        name: Seq<char>,
        offer_state: State,
        offer_price: u128,
        caller: AccountId,
    ) -> (DnsView, Result<(), DNSError>) {
        let id = self.next_id;
        if self.name_owner.contains_key(name) {
            (self.with_next_id(), Err(DNSError::DomainAlreadyOwned))
        } else if self.is_claimed(id) {
            (self.with_next_id(), Err(DNSError::NameAlreadyClaimed))
        } else {
            let record = DomainNameView { name, offer_state, offer_price, holder: caller@ };
            (
                DnsView {
                    holdings: self.holdings.insert(caller@, self.holding(caller@) + 1),
                    records: self.records.insert(id, record),
                    name_owner: self.name_owner.insert(name, caller@),
                    claimed: self.claimed.insert(id, true),
                    total_claimed: self.total_claimed + 1,
                    next_id: id + 1,
                    events: self.events.push(
                        Event::NewNameClaimed(NewNameClaimed { address: caller }),
                    ),
                    ..self
                },
                Ok(()),
            )
        }
    }

    /// Whether a transfer of `id` by `caller` to `new_owner` moves the record.
    pub open spec fn transfer_moves(self, id: int, new_owner: Seq<u8>, caller: Seq<u8>) -> bool {
        &&& self.records.contains_key(id)
        &&& self.records[id].holder == caller
        &&& self.records[id].holder != new_owner
    }

    /// A transfer of `id` by `caller` to `new_owner`: the next state and the result.
    pub open spec fn transfer(self, id: int, new_owner: AccountId, caller: AccountId) -> (
        DnsView,
        Result<(), DNSError>,
    ) {
        let event = Event::SetNewOwner(SetNewOwner { address: new_owner });
        if !self.records.contains_key(id) {
            (DnsView { events: self.events.push(event), ..self }, Ok(()))
        } else if self.records[id].holder != caller@ {
            (self, Err(DNSError::NotAOwner))
        } else if self.records[id].holder == new_owner@ {
            (self, Err(DNSError::SameOwner))
        } else {
            let record = DomainNameView { holder: new_owner@, ..self.records[id] };
            (
                DnsView {
                    holdings: self.holdings.insert(caller@, self.holding(caller@) - 1),
                    records: self.records.insert(id, record),
                    claimed: self.claimed.insert(id, !self.is_claimed(id)),
                    events: self.events.push(event),
                    ..self
                },
                Ok(()),
            )
        }
    }

    /// The records held by `who` among the identifiers below `n`, by ascending identifier.
    pub open spec fn owned_below(self, who: Seq<u8>, n: int) -> Seq<DomainNameView>
        decreases n,
    {
        if n <= 0 {
            Seq::empty()
        } else {
            let before = self.owned_below(who, n - 1);
            if self.records.contains_key(n - 1) && self.records[n - 1].holder == who {
                before.push(self.records[n - 1])
            } else {
                before
            }
        }
    }

    /// The records held by `who`, by ascending identifier.
    pub open spec fn owned_by(self, who: Seq<u8>) -> Seq<DomainNameView> {
        self.owned_below(who, self.next_id)
    }

    /// One operation: the next state and the result.
    pub open spec fn step(self, op: Op) -> (DnsView, Result<(), DNSError>) {
        match op {
            Op::Claim { name, offer_state, offer_price, caller } => self.claim(
                name,
                offer_state,
                offer_price,
                caller,
            ),
            Op::Transfer { id, new_owner, caller } => self.transfer(id, new_owner, caller),
        }
    }

    /// The state after the operations `ops`, in order.
    pub open spec fn run(self, ops: Seq<Op>) -> DnsView
        decreases ops.len(),
    {
        if ops.len() == 0 {
            self
        } else {
            self.run(ops.drop_last()).step(ops.last()).0
        }
    }

    /// How many of the operations `ops` are successful claims by `who`.
    pub open spec fn claims_by(self, ops: Seq<Op>, who: Seq<u8>) -> int
        decreases ops.len(),
    {
        if ops.len() == 0 {
            0
        } else {
            let before = self.run(ops.drop_last());
            let counted = match ops.last() {
                Op::Claim { caller, .. } => caller@ == who && before.step(ops.last()).1 is Ok,
                Op::Transfer { .. } => false,
            };
            self.claims_by(ops.drop_last(), who) + if counted {
                1int
            } else {
                0int
            }
        }
    }

    /// How many of the operations `ops` move a record away from `who`.
    pub open spec fn transfers_from(self, ops: Seq<Op>, who: Seq<u8>) -> int
        decreases ops.len(),
    {
        if ops.len() == 0 {
            0
        } else {
            let before = self.run(ops.drop_last());
            let counted = match ops.last() {
                Op::Claim { .. } => false,
                Op::Transfer { id, new_owner, caller } => caller@ == who && before.transfer_moves(
                    id,
                    new_owner@,
                    caller@,
                ),
            };
            self.transfers_from(ops.drop_last(), who) + if counted {
                1int
            } else {
                0int
            }
        }
    }
}

} // verus!
