use vstd::prelude::*;
use crate::model::{DnsView, Op};
use crate::types::{AccountId, DNSError, State};

verus! {

/// A fresh registry satisfies the state invariant.
pub proof fn lemma_initial_wf(creator: Seq<u8>)
    ensures
        DnsView::initial(creator).wf(),
{
}

/// A claim, successful or not, keeps the state invariant; in particular no
/// two records ever carry the same name.
pub proof fn lemma_claim_preserves_wf(
    s: DnsView,
    name: Seq<char>,
    offer_state: State,
    offer_price: u128,
    caller: AccountId,
)
    requires
        s.wf(),
    ensures
        s.claim(name, offer_state, offer_price, caller).0.wf(),
{
    let t = s.claim(name, offer_state, offer_price, caller).0;
    if !s.name_owner.contains_key(name) && !s.is_claimed(s.next_id) {
        assert forall|i: int, j: int|
            #![trigger t.records[i], t.records[j]]
            t.records.contains_key(i) && t.records.contains_key(j) && t.records[i].name
                == t.records[j].name implies i == j by {
            if i != s.next_id && j != s.next_id {
                assert(s.records[i] == t.records[i]);
                assert(s.records[j] == t.records[j]);
            } else if i != s.next_id {
                assert(s.records.contains_key(i));
                assert(s.name_owner.contains_key(s.records[i].name));
            } else if j != s.next_id {
                assert(s.records.contains_key(j));
                assert(s.name_owner.contains_key(s.records[j].name));
            }
        }
    }
}

/// A transfer, successful or not, keeps the state invariant.
pub proof fn lemma_transfer_preserves_wf(s: DnsView, id: int, new_owner: AccountId, caller: AccountId)
    requires
        s.wf(),
    ensures
        s.transfer(id, new_owner, caller).0.wf(),
{
    let t = s.transfer(id, new_owner, caller).0;
    if s.transfer_moves(id, new_owner@, caller@) {
        assert forall|i: int, j: int|
            #![trigger t.records[i], t.records[j]]
            t.records.contains_key(i) && t.records.contains_key(j) && t.records[i].name
                == t.records[j].name implies i == j by {
            assert(s.records[i].name == t.records[i].name);
            assert(s.records[j].name == t.records[j].name);
        }
    }
}

/// Any operation keeps the state invariant.
pub proof fn lemma_step_preserves_wf(s: DnsView, op: Op)
    requires
        s.wf(),
    ensures
        s.step(op).0.wf(),
{
    match op {
        Op::Claim { name, offer_state, offer_price, caller } => {
            lemma_claim_preserves_wf(s, name, offer_state, offer_price, caller);
        },
        Op::Transfer { id, new_owner, caller } => {
            lemma_transfer_preserves_wf(s, id, new_owner, caller);
        },
    }
}

/// Any sequence of operations keeps the state invariant.
pub proof fn lemma_run_preserves_wf(s: DnsView, ops: Seq<Op>)
    requires
        s.wf(),
    ensures
        s.run(ops).wf(),
    decreases ops.len(),
{
    if ops.len() > 0 {
        lemma_run_preserves_wf(s, ops.drop_last());
        lemma_step_preserves_wf(s.run(ops.drop_last()), ops.last());
    }
}

/// Once taken, a name stays taken: operations never remove it.
pub proof fn lemma_run_keeps_names(s: DnsView, ops: Seq<Op>, name: Seq<char>)
    requires
        s.name_owner.contains_key(name),
    ensures
        s.run(ops).name_owner.contains_key(name),
    decreases ops.len(),
{
    if ops.len() > 0 {
        lemma_run_keeps_names(s, ops.drop_last(), name);
    }
}

/// Each name is carried by at most one record, whatever operations ran.
pub proof fn law_names_unique(s: DnsView, ops: Seq<Op>)
    requires
        s.wf(),
    ensures
        forall|i: int, j: int|
            #![trigger s.run(ops).records[i], s.run(ops).records[j]]
            s.run(ops).records.contains_key(i) && s.run(ops).records.contains_key(j) && s.run(
                ops,
            ).records[i].name == s.run(ops).records[j].name ==> i == j,
{
    lemma_run_preserves_wf(s, ops);
}

/// After a claim of `name`, whatever operations follow, a further claim of
/// `name` by anyone fails with `DomainAlreadyOwned`.
pub proof fn law_second_claim_fails(
    s: DnsView,
    name: Seq<char>,
    offer_state: State,
    offer_price: u128,
    caller: AccountId,
    ops: Seq<Op>,
    offer_state2: State,
    offer_price2: u128,
    caller2: AccountId,
)
    requires
        s.wf(),
    ensures
        s.claim(name, offer_state, offer_price, caller).0.run(ops).claim(
            name,
            offer_state2,
            offer_price2,
            caller2,
        ).1 == Err::<(), DNSError>(DNSError::DomainAlreadyOwned),
{
    lemma_run_keeps_names(s.claim(name, offer_state, offer_price, caller).0, ops, name);
}

/// A claim consumes the next identifier, which no record holds yet; a
/// successful one puts its record there, and no record is ever removed.
pub proof fn law_claim_fresh_id(
    s: DnsView,
    name: Seq<char>,
    offer_state: State,
    offer_price: u128,
    caller: AccountId,
)
    requires
        s.wf(),
    ensures
        !s.records.contains_key(s.next_id),
        s.claim(name, offer_state, offer_price, caller).0.next_id == s.next_id + 1,
        s.claim(name, offer_state, offer_price, caller).1 is Ok ==> s.claim(
            name,
            offer_state,
            offer_price,
            caller,
        ).0.records.contains_key(s.next_id),
        forall|id: int| #[trigger]
            s.records.contains_key(id) ==> s.claim(
                name,
                offer_state,
                offer_price,
                caller,
            ).0.records.contains_key(id),
{
}

/// The identifier counter never goes back.
pub proof fn lemma_run_next_id(s: DnsView, ops: Seq<Op>)
    ensures
        s.run(ops).next_id >= s.next_id,
    decreases ops.len(),
{
    if ops.len() > 0 {
        lemma_run_next_id(s, ops.drop_last());
    }
}

/// Of two claims with any operations between them, the later one gets a
/// strictly larger identifier.
pub proof fn law_successive_claims_increase(
    s: DnsView,
    name: Seq<char>,
    offer_state: State,
    offer_price: u128,
    caller: AccountId,
    ops: Seq<Op>,
)
    ensures
        s.claim(name, offer_state, offer_price, caller).0.run(ops).next_id > s.next_id,
{
    lemma_run_next_id(s.claim(name, offer_state, offer_price, caller).0, ops);
}

/// The counter of `who` changes by the successful claims by `who`, less the
/// transfers that moved a record away from `who`; from a fresh registry it
/// is exactly that difference.
pub proof fn law_holding_count(s: DnsView, ops: Seq<Op>, who: Seq<u8>, creator: Seq<u8>)
    ensures
        s.run(ops).holding(who) == s.holding(who) + s.claims_by(ops, who) - s.transfers_from(
            ops,
            who,
        ),
        DnsView::initial(creator).run(ops).holding(who) == DnsView::initial(creator).claims_by(
            ops,
            who,
        ) - DnsView::initial(creator).transfers_from(ops, who),
{
    lemma_holding_count(s, ops, who);
    lemma_holding_count(DnsView::initial(creator), ops, who);
}

proof fn lemma_holding_count(s: DnsView, ops: Seq<Op>, who: Seq<u8>)
    ensures
        s.run(ops).holding(who) == s.holding(who) + s.claims_by(ops, who) - s.transfers_from(
            ops,
            who,
        ),
    decreases ops.len(),
{
    if ops.len() > 0 {
        lemma_holding_count(s, ops.drop_last(), who);
    }
}

/// A transfer of an existing record fails with `NotAOwner` exactly when the
/// caller is not its holder; when the caller is the holder, it fails with
/// `SameOwner` exactly when the new holder is the current one.
pub proof fn law_transfer_authorization(s: DnsView, id: int, new_owner: AccountId, caller: AccountId)
    requires
        s.records.contains_key(id),
    ensures
        (s.transfer(id, new_owner, caller).1 == Err::<(), DNSError>(DNSError::NotAOwner)) <==> (
        s.records[id].holder != caller@),
        s.records[id].holder == caller@ ==> ((s.transfer(id, new_owner, caller).1 == Err::<
            (),
            DNSError,
        >(DNSError::SameOwner)) <==> (new_owner@ == s.records[id].holder)),
{
}

/// A transfer rewrites at most the holder of one record: every record keeps
/// its name and its offer, and none appears or disappears.
pub proof fn law_transfer_keeps_record_content(
    s: DnsView,
    id: int,
    new_owner: AccountId,
    caller: AccountId,
)
    ensures
        s.transfer(id, new_owner, caller).0.records.dom() == s.records.dom(),
        forall|k: int| #[trigger]
            s.records.contains_key(k) ==> s.transfer(id, new_owner, caller).0.records[k].name
                == s.records[k].name && s.transfer(id, new_owner, caller).0.records[k].offer_state
                == s.records[k].offer_state && s.transfer(id, new_owner, caller).0.records[k].offer_price
                == s.records[k].offer_price,
{
    if s.transfer_moves(id, new_owner@, caller@) {
        assert(s.transfer(id, new_owner, caller).0.records.dom() =~= s.records.dom());
    }
}

} // verus!
