use vstd::prelude::*;
use crate::laws::{lemma_claim_preserves_wf, lemma_initial_wf, lemma_transfer_preserves_wf};
use crate::model::DnsView;
use crate::tables::{HoldingTable, NameTable};
use crate::types::{AccountId, DNSError, DomainName, Event, NewNameClaimed, SetNewOwner, State};

verus! {

/// The registry. Identifiers start at 1; slot `k` of `domain_name` and of
/// `claimed` belongs to identifier `k + 1`, and a slot is added each time an
/// identifier is handed out.
pub struct DnsContract {
    owner: AccountId,
    owner_name_count: HoldingTable,
    domain_name: Vec<Option<DomainName>>,
    name_to_owner: NameTable,
    claimed: Vec<Option<bool>>,
    no_of_claimed_names: i32,
    domain_name_id: i32,
    events: Vec<Event>,
}

impl View for DnsContract {
    type V = DnsView;

    closed spec fn view(&self) -> DnsView {
        DnsView {
            owner: self.owner@,
            holdings: self.owner_name_count@,
            records: Map::new(
                |id: int| 1 <= id < self.domain_name_id && self.domain_name@[id - 1] is Some,
                |id: int| self.domain_name@[id - 1]->Some_0@,
            ),
            name_owner: self.name_to_owner@,
            claimed: Map::new(
                |id: int| 1 <= id < self.domain_name_id && self.claimed@[id - 1] is Some,
                |id: int| self.claimed@[id - 1]->Some_0,
            ),
            total_claimed: self.no_of_claimed_names as int,
            next_id: self.domain_name_id as int,
            events: self.events@,
        }
    }
}

impl DnsContract {
    /// How the fields hold the abstract state.
    pub closed spec fn rep_ok(&self) -> bool {
        &&& self.owner_name_count.wf()
        &&& self.name_to_owner.wf()
        &&& 1 <= self.domain_name_id
        &&& self.domain_name@.len() == self.domain_name_id - 1
        &&& self.claimed@.len() == self.domain_name_id - 1
    }

    pub open spec fn wf(&self) -> bool {
        self.rep_ok() && self@.wf()
    }

    /// An empty registry whose administrative owner is `caller`.
    pub fn new(caller: AccountId) -> (r: DnsContract)
        ensures
            r.wf(),
            r@ == DnsView::initial(caller@),
    {
        let r = DnsContract {
            owner: caller,
            owner_name_count: HoldingTable::new(),
            domain_name: Vec::new(),
            name_to_owner: NameTable::new(),
            claimed: Vec::new(),
            no_of_claimed_names: 0,
            domain_name_id: 1,
            events: Vec::new(),
        };
        proof {
            lemma_initial_wf(caller@);
            assert(r@.records =~= Map::empty());
            assert(r@.claimed =~= Map::empty());
            assert(r@.events =~= Seq::empty());
        }
        r
    }

    /// Hands out the next identifier, with an empty slot for it.
    fn next_domain_name_id(&mut self) -> (r: i32)
        requires
            old(self).rep_ok(),
            old(self)@.next_id < i32::MAX,
        ensures
            final(self).rep_ok(),
            r == old(self)@.next_id,
            final(self)@ == old(self)@.with_next_id(),
    {
        let id = self.domain_name_id;
        self.domain_name.push(None);
        self.claimed.push(None);
        self.domain_name_id = self.domain_name_id + 1;
        proof {
            assert(self@.records =~= old(self)@.records);
            assert(self@.claimed =~= old(self)@.claimed);
        }
        id
    }

    /// Claims `name` for `caller` with the given offer. The identifier
    /// counter moves on whatever the outcome.
    pub fn create_new_dns(
        &mut self,
        name: String,
        offer_state: State,
        offer_price: u128,
        caller: AccountId,
    ) -> (r: Result<(), DNSError>)
        requires
            old(self).wf(),
            old(self)@.next_id < i32::MAX,
        ensures
            final(self).wf(),
            (final(self)@, r) == old(self)@.claim(name@, offer_state, offer_price, caller),
            r is Ok <==> !old(self)@.name_owner.contains_key(name@),
            r is Err ==> r == Err::<(), DNSError>(DNSError::DomainAlreadyOwned),
    {
        proof {
            lemma_claim_preserves_wf(self@, name@, offer_state, offer_price, caller);
        }
        let ghost s0 = self@;
        let name_id = self.next_domain_name_id();
        let idx = (name_id - 1) as usize;
        let claimed = match self.claimed[idx] {
            Some(b) => b,
            None => false,
        };
        if self.name_to_owner.contains(&name) {
            return Err(DNSError::DomainAlreadyOwned);
        }
        if claimed {
            return Err(DNSError::NameAlreadyClaimed);
        }
        self.name_to_owner.insert(name.clone(), caller);
        let domain_name = DomainName { name, offer_state, offer_price, default_address: caller };
        self.domain_name.set(idx, Some(domain_name));
        self.claimed.set(idx, Some(true));
        self.no_of_claimed_names = self.no_of_claimed_names + 1;
        let name_count = self.owner_name_count.get(&caller);
        self.owner_name_count.set(caller, name_count + 1);
        self.events.push(Event::NewNameClaimed(NewNameClaimed { address: caller }));
        proof {
            let t = s0.claim(name@, offer_state, offer_price, caller).0;
            assert(self@.records =~= t.records);
            assert(self@.claimed =~= t.claimed);
        }
        Ok(())
    }

    /// Hands record `name_id` from `caller` to `new_owner`. An identifier
    /// without a record is accepted and changes nothing but the log.
    pub fn set_new_owner(&mut self, name_id: i32, new_owner: AccountId, caller: AccountId) -> (r:
        Result<(), DNSError>)
        requires
            old(self).wf(),
            old(self)@.transfer_moves(name_id as int, new_owner@, caller@) ==> old(self)@.holding(
                caller@,
            ) > i32::MIN,
        ensures
            final(self).wf(),
            (final(self)@, r) == old(self)@.transfer(name_id as int, new_owner, caller),
    {
        proof {
            lemma_transfer_preserves_wf(self@, name_id as int, new_owner, caller);
        }
        let ghost s0 = self@;
        if 1 <= name_id && name_id < self.domain_name_id {
            let idx = (name_id - 1) as usize;
            if let Some(value) = &self.domain_name[idx] {
                if !value.default_address.same_as(&caller) {
                    return Err(DNSError::NotAOwner);
                }
                if value.default_address.same_as(&new_owner) {
                    return Err(DNSError::SameOwner);
                }
                let moved = DomainName {
                    name: value.name.clone(),
                    offer_state: value.offer_state,
                    offer_price: value.offer_price,
                    default_address: new_owner,
                };
                let name_count = self.owner_name_count.get(&caller);
                self.owner_name_count.set(caller, name_count - 1);
                let name_claimed = match self.claimed[idx] {
                    Some(b) => b,
                    None => false,
                };
                self.claimed.set(idx, Some(!name_claimed));
                self.domain_name.set(idx, Some(moved));
            }
        }
        self.events.push(Event::SetNewOwner(SetNewOwner { address: new_owner }));
        proof {
            let t = s0.transfer(name_id as int, new_owner, caller).0;
            assert(self@.records =~= t.records);
            assert(self@.claimed =~= t.claimed);
        }
        Ok(())
    }

    /// The records held by `caller`, by ascending identifier.
    pub fn get_owner_domain_name(&self, caller: AccountId) -> (r: Vec<DomainName>)
        requires
            self.wf(),
        ensures
            r@.map_values(|d: DomainName| d@) == self@.owned_by(caller@),
    {
        let mut domain_name: Vec<DomainName> = Vec::new();
        let mut i: usize = 0;
        proof {
            assert(self@.owned_below(caller@, 0) =~= Seq::empty());
            assert(!self@.records.contains_key(0));
            assert(domain_name@.map_values(|d: DomainName| d@) =~= self@.owned_below(caller@, 1));
        }
        while i < self.domain_name.len()
            invariant
                self.wf(),
                0 <= i <= self.domain_name@.len(),
                domain_name@.map_values(|d: DomainName| d@) == self@.owned_below(
                    caller@,
                    i + 1,
                ),
            decreases self.domain_name@.len() - i,
        {
            let ghost before = domain_name@;
            if let Some(value) = &self.domain_name[i] {
                if value.default_address.same_as(&caller) {
                    domain_name.push(value.duplicate());
                }
            }
            i = i + 1;
            proof {
                assert(domain_name@.map_values(|d: DomainName| d@) =~= self@.owned_below(
                    caller@,
                    i + 1,
                ));
            }
        }
        domain_name
    }

    /// The identity that created the registry.
    pub fn get_owner(&self) -> (r: AccountId)
        ensures
            r@ == self@.owner,
    {
        self.owner
    }

    /// The number of successful claims so far.
    pub fn get_no_of_name_claimed(&self) -> (r: i32)
        ensures
            r == self@.total_claimed,
    {
        self.no_of_claimed_names
    }

    /// The counter of `account_id`, zero for an identity never seen.
    pub fn get_owner_name_count(&self, account_id: AccountId) -> (r: i32)
        requires
            self.wf(),
        ensures
            r == self@.holding(account_id@),
    {
        self.owner_name_count.get(&account_id)
    }

    /// The claim flag of `id`, false for an identifier without a record.
    pub fn is_claimed(&self, id: i32) -> (r: bool)
        requires
            self.wf(),
        ensures
            r == self@.is_claimed(id as int),
    {
        if 1 <= id && id < self.domain_name_id {
            match self.claimed[(id - 1) as usize] {
                Some(b) => b,
                None => false,
            }
        } else {
            false
        }
    }

    /// The identifier that the next claim receives.
    pub fn get_next_domain_name_id(&self) -> (r: i32)
        ensures
            r == self@.next_id,
    {
        self.domain_name_id
    }

    /// Takes out the notifications emitted so far, oldest first.
    pub fn take_events(&mut self) -> (r: Vec<Event>)
        requires
            old(self).wf(),
        ensures
            final(self).wf(),
            r@ == old(self)@.events,
            final(self)@ == (DnsView { events: Seq::empty(), ..old(self)@ }),
    {
        let mut r: Vec<Event> = Vec::new();
        std::mem::swap(&mut r, &mut self.events);
        proof {
            assert(self@.records =~= old(self)@.records);
            assert(self@.claimed =~= old(self)@.claimed);
            assert(self@.events =~= Seq::empty());
        }
        r
    }
}

} // verus!
