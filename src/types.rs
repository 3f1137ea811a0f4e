use vstd::prelude::*;

verus! {

/// An identity: the 32 bytes of an account.
#[derive(Debug, Clone, Copy, Eq, Hash)]
pub struct AccountId {
    pub bytes: [u8; 32],
}

impl View for AccountId {
    type V = Seq<u8>;

    open spec fn view(&self) -> Seq<u8> {
        self.bytes@
    }
}

impl AccountId {
    pub fn from_bytes(bytes: [u8; 32]) -> (r: AccountId)
        ensures
            r@ == bytes@,
    {
        AccountId { bytes }
    }

    /// Byte-wise comparison of two identities.
    pub fn same_as(&self, other: &AccountId) -> (r: bool)
        ensures
            r == (self@ == other@),
    {
        let mut i: usize = 0;
        while i < 32
            invariant
                0 <= i <= 32,
                self.bytes@.len() == 32,
                other.bytes@.len() == 32,
                forall|k: int| 0 <= k < i ==> self.bytes@[k] == other.bytes@[k],
            decreases 32 - i,
        {
            if self.bytes[i] != other.bytes[i] {
                return false;
            }
            i = i + 1;
        }
        proof {
            assert(self.bytes@ =~= other.bytes@);
        }
        true
    }
}

impl PartialEq for AccountId {
    fn eq(&self, other: &AccountId) -> (r: bool) {
        self.same_as(other)
    }
}

impl vstd::std_specs::cmp::PartialEqSpecImpl for AccountId {
    open spec fn obeys_eq_spec() -> bool {
        true
    }

    open spec fn eq_spec(&self, other: &AccountId) -> bool {
        self@ == other@
    }
}

/// The identity made of 32 zero bytes.
pub fn zero_address() -> (r: AccountId)
    ensures
        r@ == Seq::new(32, |i: int| 0u8),
{
    let r = AccountId { bytes: [0u8; 32] };
    proof {
        assert(r@ =~= Seq::new(32, |i: int| 0u8));
    }
    r
}

/// Whether, and how, a name is offered to others.
#[derive(Debug, Clone, Copy, PartialEq, Eq, Structural)]
pub enum State {
    NotOffering,
    PrivateOffering,
    PublicOffering,
}

/// What can go wrong in a registry operation.
#[derive(Debug, Clone, Copy, PartialEq, Eq, Structural)]
pub enum DNSError {
    NameAlreadyExists,
    NotAOwner,
    CallerIsNotOwner,
    SameOwner,
    NameAlreadyClaimed,
    DomainAlreadyOwned,
}

/// The abstract content of a record: its name, offer and holder.
pub struct DomainNameView {
    pub name: Seq<char>,
    pub offer_state: State,
    pub offer_price: u128,
    pub holder: Seq<u8>,
}

/// One claimed name with its offer and its current holder.
#[derive(Debug, Clone, PartialEq, Eq)]
pub struct DomainName {
    pub name: String,
    pub offer_state: State,
    pub offer_price: u128,
    pub default_address: AccountId,
}

impl View for DomainName {
    type V = DomainNameView;

    open spec fn view(&self) -> DomainNameView {
        DomainNameView {
            name: self.name@,
            offer_state: self.offer_state,
            offer_price: self.offer_price,
            holder: self.default_address@,
        }
    }
}

impl DomainName {
    /// A copy with the same content.
    pub fn duplicate(&self) -> (r: DomainName)
        ensures
            r@ == self@,
    {
        DomainName {
            name: self.name.clone(),
            offer_state: self.offer_state,
            offer_price: self.offer_price,
            default_address: self.default_address,
        }
    }
}

impl Default for DomainName {
    fn default() -> (r: DomainName)
        ensures
            r@ == (DomainNameView {
                name: Seq::empty(),
                offer_state: State::NotOffering,
                offer_price: 0,
                holder: Seq::new(32, |i: int| 0u8),
            }),
    {
        DomainName {
            name: String::new(),
            offer_state: State::NotOffering,
            offer_price: 0,
            default_address: zero_address(),
        }
    }
}

/// Notification that `address` claimed a name.
#[derive(Debug, Clone, Copy, PartialEq, Eq)]
pub struct NewNameClaimed {
    pub address: AccountId,
}

/// Notification that a transfer to `address` was requested and went through.
#[derive(Debug, Clone, Copy, PartialEq, Eq)]
pub struct SetNewOwner {
    pub address: AccountId,
}

/// A notification emitted by the registry.
#[derive(Debug, Clone, Copy, PartialEq, Eq)]
pub enum Event {
    NewNameClaimed(NewNameClaimed),
    SetNewOwner(SetNewOwner),
}

} // verus!
