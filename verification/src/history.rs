//! What holds of the registry over whole runs of calls.
//!
//! A run is a sequence of [`Call`]s, each with the caller on whose behalf it is
//! made. [`after_calls`] replays a run on a registry given as a map, with the
//! functions by which [`registry`](crate::registry) states its rules. The laws
//! below hold of every run on every registry.

use crate::body::{latest, lemma_latest_push, BodyView, CAPACITY};
use crate::registry::{
    add_weight_outcome, all_within_capacity, key_fits, register_outcome, registered, weight_added,
    Accounts, ContractError,
};
use vstd::prelude::*;

verus! {

/// One call that may change the registry, with the caller it is made for.
pub enum Call {
    /// `caller` registers with the given age, height and first weight sample.
    Register { caller: Seq<char>, age: u8, height: u8, weight: u32 },
    /// `caller` asks to add a weight sample to the record of `account_id`.
    AddWeight { caller: Seq<char>, account_id: Seq<char>, weight: u32 },
}

impl Call {
    /// Whether the call is a registration of `account_id` that is granted.
    pub open spec fn registers(self, account_id: Seq<char>) -> bool {
        self matches Call::Register { caller, .. } && caller == account_id && register_outcome(
            caller,
        ) is Ok
    }
}

/// The registry after one call.
pub open spec fn after_call(accounts: Accounts, call: Call) -> Accounts {
    match call {
        Call::Register { caller, age, height, weight } => registered(
            accounts,
            caller,
            age,
            height,
            weight,
        ),
        Call::AddWeight { caller, account_id, weight } => weight_added(
            accounts,
            caller,
            account_id,
            weight,
        ),
    }
}

/// The registry after a run of calls, made in order.
pub open spec fn after_calls(accounts: Accounts, calls: Seq<Call>) -> Accounts
    decreases calls.len(),
{
    if calls.len() == 0 {
        accounts
    } else {
        after_call(after_calls(accounts, calls.drop_last()), calls.last())
    }
}

/// Whether some call of the run is a granted registration of `account_id`.
pub open spec fn registered_in(calls: Seq<Call>, account_id: Seq<char>) -> bool {
    exists|i: int| 0 <= i < calls.len() && (#[trigger] calls[i]).registers(account_id)
}

/// Everything a run has given to the record of `owner`: the age and height of
/// its latest granted registration, and every sample since then, in order,
/// however many. The samples are the one of that registration and those of
/// each request to add a weight that was granted. Before any registration in
/// the run, it is what the record held at the start.
pub open spec fn given(accounts: Accounts, calls: Seq<Call>, owner: Seq<char>) -> BodyView
    decreases calls.len(),
{
    if calls.len() == 0 {
        accounts[owner]
    } else {
        let earlier = calls.drop_last();
        let so_far = given(accounts, earlier, owner);
        match calls.last() {
            Call::Register { caller, age, height, weight } => if calls.last().registers(owner) {
                BodyView::fresh(age, height, weight)
            } else {
                so_far
            },
            Call::AddWeight { caller, account_id, weight } => if account_id == owner
                && add_weight_outcome(after_calls(accounts, earlier), caller, account_id, weight)
                is Ok {
                BodyView {
                    age: so_far.age,
                    height: so_far.height,
                    weights: so_far.weights.push(weight),
                }
            } else {
                so_far
            },
        }
    }
}

/// Presence law: after a run of calls an account has a record exactly if it had
/// one before the run or some call of the run registered it. Nothing else
/// creates a record and nothing removes one; in particular, starting from a
/// registry without records, an account has a record if and only if it was
/// registered.
pub proof fn law_presence(accounts: Accounts, calls: Seq<Call>, account_id: Seq<char>)
    ensures
        after_calls(accounts, calls).dom().contains(account_id) <==> accounts.dom().contains(
            account_id,
        ) || registered_in(calls, account_id),
        accounts == Map::<Seq<char>, BodyView>::empty() ==> (after_calls(
            accounts,
            calls,
        ).dom().contains(account_id) <==> registered_in(calls, account_id)),
    decreases calls.len(),
{
    if calls.len() > 0 {
        let earlier = calls.drop_last();
        law_presence(accounts, earlier, account_id);
        if registered_in(earlier, account_id) {
            let i = choose|i: int|
                0 <= i < earlier.len() && (#[trigger] earlier[i]).registers(account_id);
            assert(calls[i].registers(account_id));
        }
        if calls.last().registers(account_id) {
            assert(calls[calls.len() - 1].registers(account_id));
        }
        if registered_in(calls, account_id) {
            let i = choose|i: int|
                0 <= i < calls.len() && (#[trigger] calls[i]).registers(account_id);
            if i < calls.len() - 1 {
                assert(earlier[i].registers(account_id));
            }
        }
    }
}

/// Capacity law: if every record is within capacity before a run of calls,
/// every record is within capacity after each call of it.
pub proof fn law_capacity_kept(accounts: Accounts, calls: Seq<Call>)
    requires
        all_within_capacity(accounts),
    ensures
        all_within_capacity(after_calls(accounts, calls)),
    decreases calls.len(),
{
    if calls.len() > 0 {
        law_capacity_kept(accounts, calls.drop_last());
    }
}

/// Replacement law: when the same caller registers twice, the registry is as
/// if only the second registration had been made. Where registrations are
/// granted, the caller's record is the fresh record of the second call, with
/// nothing of the first one's history.
pub proof fn law_register_replaces(
    accounts: Accounts,
    caller: Seq<char>,
    first: (u8, u8, u32),
    second: (u8, u8, u32),
)
    ensures
        registered(
            registered(accounts, caller, first.0, first.1, first.2),
            caller,
            second.0,
            second.1,
            second.2,
        ) == registered(accounts, caller, second.0, second.1, second.2),
        key_fits(caller) ==> registered(
            registered(accounts, caller, first.0, first.1, first.2),
            caller,
            second.0,
            second.1,
            second.2,
        )[caller] == BodyView::fresh(second.0, second.1, second.2),
{
    assert(registered(
        registered(accounts, caller, first.0, first.1, first.2),
        caller,
        second.0,
        second.1,
        second.2,
    ) =~= registered(accounts, caller, second.0, second.1, second.2));
}

/// Access law: a request to add a weight for another account is refused with
/// `AccessDenied`, whether or not that account has a record, and leaves the
/// whole registry as it was.
pub proof fn law_strangers_change_nothing(
    accounts: Accounts,
    caller: Seq<char>,
    account_id: Seq<char>,
    weight: u32,
)
    requires
        caller != account_id,
    ensures
        add_weight_outcome(accounts, caller, account_id, weight) == Err::<(), ContractError>(
            ContractError::AccessDenied,
        ),
        weight_added(accounts, caller, account_id, weight) == accounts,
{
}

/// Sliding-window law for the registry: after any run of calls, with other
/// accounts' calls and refused requests anywhere in it, the record of an
/// account holds the age and height of its latest registration and exactly the
/// latest [`CAPACITY`] of the samples it was given since, in the order they
/// were given. Once it was given [`CAPACITY`] samples or more, that is the
/// last [`CAPACITY`] of them.
///
/// A record that is in the registry before the run must be within capacity.
pub proof fn law_window(accounts: Accounts, calls: Seq<Call>, owner: Seq<char>)
    requires
        accounts.dom().contains(owner) ==> accounts[owner].within_capacity(),
    ensures
        after_calls(accounts, calls).dom().contains(owner) ==> after_calls(accounts, calls)[owner]
            == (BodyView {
            age: given(accounts, calls, owner).age,
            height: given(accounts, calls, owner).height,
            weights: latest(given(accounts, calls, owner).weights, CAPACITY as nat),
        }),
        after_calls(accounts, calls).dom().contains(owner) && given(
            accounts,
            calls,
            owner,
        ).weights.len() >= CAPACITY ==> after_calls(accounts, calls)[owner].weights == given(
            accounts,
            calls,
            owner,
        ).weights.subrange(
            given(accounts, calls, owner).weights.len() - CAPACITY,
            given(accounts, calls, owner).weights.len() as int,
        ),
    decreases calls.len(),
{
    if calls.len() > 0 {
        let earlier = calls.drop_last();
        let before = after_calls(accounts, earlier);
        let so_far = given(accounts, earlier, owner);
        law_window(accounts, earlier, owner);
        match calls.last() {
            Call::Register { caller, age, height, weight } => {
                assert(latest(seq![weight], CAPACITY as nat) == seq![weight]);
            },
            Call::AddWeight { caller, account_id, weight } => {
                if account_id == owner && add_weight_outcome(before, caller, account_id, weight)
                    is Ok {
                    lemma_latest_push(so_far.weights, weight);
                }
            },
        }
    }
}

/// Sliding-window law from a registration on: once an account is registered
/// with a first sample, then after any run of calls it still has a record, and
/// the record holds the latest [`CAPACITY`] of what it was given. What it was
/// given starts as the fresh record of that registration: its age and height,
/// and the first sample alone.
pub proof fn law_registered_window(
    accounts: Accounts,
    owner: Seq<char>,
    age: u8,
    height: u8,
    first: u32,
    calls: Seq<Call>,
)
    requires
        key_fits(owner),
    ensures
        after_calls(registered(accounts, owner, age, height, first), calls).dom().contains(owner),
        after_calls(registered(accounts, owner, age, height, first), calls)[owner] == (BodyView {
            age: given(registered(accounts, owner, age, height, first), calls, owner).age,
            height: given(registered(accounts, owner, age, height, first), calls, owner).height,
            weights: latest(
                given(registered(accounts, owner, age, height, first), calls, owner).weights,
                CAPACITY as nat,
            ),
        }),
        given(registered(accounts, owner, age, height, first), Seq::empty(), owner)
            == BodyView::fresh(age, height, first),
{
    let start = registered(accounts, owner, age, height, first);
    law_presence(start, calls, owner);
    law_window(start, calls, owner);
}

} // verus!
