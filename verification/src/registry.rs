//! The account registry: one measurement record per account identifier, kept
//! in host storage, with the rule that only an account's owner may add to its
//! record.
//!
//! The registry's entries live with the host, and what the host returns for a
//! key is the host's to say. So the rules of the registry are stated twice.
//! As mathematics, over a map from account identifier to record:
//! [`registered`], [`add_weight_outcome`], [`weight_added`]. And as verified
//! functions that decide what to answer and what to store, for every value
//! that a read may return: [`entry_to_register`], [`read_record`] and
//! [`entry_with_weight`]. The operations of [`Contract`] make the host calls
//! around those decisions. Each says what it answers and what it hands to the
//! host to store, whatever the host returned, and that this is what the rules
//! give on every registry that holds what was read.
//!
//! Two operations act for "the caller", whom only the host can name. Each has a
//! twin that takes the caller as an argument, [`Contract::register_as`] and
//! [`Contract::add_weight_as`].

use crate::body::{Body, BodyView, CAPACITY};
use crate::host::{
    handed, key_prefix, lookup_map_contains_key, lookup_map_get, lookup_map_insert,
    lookup_map_new, predecessor_account_id, state_exists, storage_value_fits,
};
use near_sdk::collections::LookupMap;
use vstd::prelude::*;
use vstd::utf8::encode_utf8;

verus! {

/// The longest account identifier that can be a key of the registry, in bytes
/// of UTF-8: what the host allows for a storage key, less the one byte of
/// prefix and the four bytes of length that go before the identifier.
pub const MAX_KEY_BYTES: usize = 4194299;

/// The most samples an entry can hold and still be stored: what the host
/// allows for a value, less the six bytes that go before the samples, at four
/// bytes a sample.
pub const MAX_SAMPLES: usize = 1048574;

/// The namespaces of host storage that the contract uses.
pub enum StorageKeys {
    /// The registry's entries.
    Accounts,
}

impl StorageKeys {
    /// The bytes that begin every storage key of this namespace: the position
    /// of the variant, as one byte.
    pub open spec fn prefix(self) -> Seq<u8> {
        match self {
            StorageKeys::Accounts => seq![0u8],
        }
    }

    /// The prefix as bytes to create a map with.
    pub fn into_storage_key(self) -> (key: Vec<u8>)
        ensures
            key@ == self.prefix(),
    {
        match self {
            StorageKeys::Accounts => {
                let mut key: Vec<u8> = Vec::new();
                key.push(0u8);
                key
            },
        }
    }
}

/// Why an operation on the registry was refused.
#[derive(Debug, Clone, Copy, PartialEq, Eq, Structural)]
pub enum ContractError {
    /// No record is stored for the account.
    NotFound,
    /// The caller is not the account whose record was to be changed.
    AccessDenied,
    /// The contract state already exists; the registry is already in use.
    AlreadyInitialized,
    /// What the operation would store is more than the host accepts: the
    /// identifier is too long to be a key, or the record too large to be a
    /// value.
    LimitExceeded,
}

/// The registry as a mathematical value: the record of each registered
/// account.
pub type Accounts = Map<Seq<char>, BodyView>;

/// One write: an account identifier and the entry handed to the host to store
/// under it.
pub type Write = (Seq<char>, (u8, u8, Seq<u32>));

/// Whether an account identifier can be a key of the registry: its UTF-8
/// encoding has at most [`MAX_KEY_BYTES`] bytes.
pub open spec fn key_fits(account_id: Seq<char>) -> bool {
    (encode_utf8(account_id).len() as usize) <= MAX_KEY_BYTES
}

/// Whether a record with these samples can be stored: at most [`MAX_SAMPLES`]
/// of them.
pub open spec fn entry_fits(samples: Seq<u32>) -> bool {
    samples.len() <= MAX_SAMPLES
}

/// A stored entry read as a record.
pub open spec fn record_of(entry: (u8, u8, Seq<u32>)) -> BodyView {
    BodyView { age: entry.0, height: entry.1, weights: entry.2 }
}

/// A record as the entry that is stored for it.
pub open spec fn entry_of(record: BodyView) -> (u8, u8, Seq<u32>) {
    (record.age, record.height, record.weights)
}

/// What was read for a key, as a record or the lack of one.
pub open spec fn record_read(entry: Option<(u8, u8, Vec<u32>)>) -> Option<BodyView> {
    match entry {
        Some(e) => Some(record_of((e.0, e.1, e.2@))),
        None => None,
    }
}

/// The record that the registry holds for an account, or the lack of one.
pub open spec fn record_at(accounts: Accounts, account_id: Seq<char>) -> Option<BodyView> {
    if accounts.dom().contains(account_id) {
        Some(accounts[account_id])
    } else {
        None
    }
}

/// The registry after the host has stored some writes, in order: each puts its
/// record in place of whatever the account had and leaves the others.
pub open spec fn with_writes(accounts: Accounts, writes: Seq<Write>) -> Accounts
    decreases writes.len(),
{
    if writes.len() == 0 {
        accounts
    } else {
        with_writes(accounts, writes.drop_last()).insert(
            writes.last().0,
            record_of(writes.last().1),
        )
    }
}

/// Every record of the registry is within capacity.
pub open spec fn all_within_capacity(accounts: Accounts) -> bool {
    forall|account_id: Seq<char>| #[trigger]
        accounts.dom().contains(account_id) ==> accounts[account_id].within_capacity()
}

/// What a request for a record is answered with: the record, or `NotFound`
/// where there is none.
pub open spec fn record_found(record: Option<BodyView>) -> Result<BodyView, ContractError> {
    match record {
        Some(found) => Ok(found),
        None => Err(ContractError::NotFound),
    }
}

/// What becomes of a record that is to gain a weight sample: `NotFound` where
/// there is no record, the record with the sample where that can be stored,
/// and `LimitExceeded` where it cannot.
pub open spec fn record_with_weight(record: Option<BodyView>, weight: u32) -> Result<
    BodyView,
    ContractError,
> {
    match record {
        None => Err(ContractError::NotFound),
        Some(found) => if entry_fits(found.with_weight(weight).weights) {
            Ok(found.with_weight(weight))
        } else {
            Err(ContractError::LimitExceeded)
        },
    }
}

/// What `caller` is told on registering: granted, unless the caller's
/// identifier is too long to be a key.
pub open spec fn register_outcome(caller: Seq<char>) -> Result<(), ContractError> {
    if key_fits(caller) {
        Ok(())
    } else {
        Err(ContractError::LimitExceeded)
    }
}

/// What a registration hands to the host: where it is granted, the fresh
/// record under the caller's identifier and nothing else; where it is refused,
/// nothing.
pub open spec fn register_writes(caller: Seq<char>, age: u8, height: u8, weight: u32) -> Seq<
    Write,
> {
    if register_outcome(caller) is Ok {
        seq![(caller, (age, height, seq![weight]))]
    } else {
        Seq::empty()
    }
}

/// The registry after `caller` registers: if the registration is granted the
/// caller's record is a fresh one, whatever it was before, and every other
/// record is untouched; if it is refused nothing changes.
pub open spec fn registered(
    accounts: Accounts,
    caller: Seq<char>,
    age: u8,
    height: u8,
    weight: u32,
) -> Accounts {
    if register_outcome(caller) is Ok {
        accounts.insert(caller, BodyView::fresh(age, height, weight))
    } else {
        accounts
    }
}

/// What `caller` is told on asking to add a weight sample to the record of
/// `account_id`, where `held` is what the registry holds for that account.
/// Ownership is checked first, existence second; an identifier too long to be
/// a key has no record.
pub open spec fn request_outcome(
    held: Option<BodyView>,
    caller: Seq<char>,
    account_id: Seq<char>,
    weight: u32,
) -> Result<(), ContractError> {
    if caller != account_id {
        Err(ContractError::AccessDenied)
    } else if !key_fits(account_id) {
        Err(ContractError::NotFound)
    } else {
        match record_with_weight(held, weight) {
            Ok(_) => Ok(()),
            Err(error) => Err(error),
        }
    }
}

/// What a request to add a weight sample hands to the host: where it is
/// granted, the record with the sample under the account's identifier and
/// nothing else; where it is refused, nothing.
pub open spec fn request_writes(
    held: Option<BodyView>,
    caller: Seq<char>,
    account_id: Seq<char>,
    weight: u32,
) -> Seq<Write> {
    if request_outcome(held, caller, account_id, weight) is Ok {
        seq![(account_id, entry_of(held->0.with_weight(weight)))]
    } else {
        Seq::empty()
    }
}

/// What `caller` is told on asking to add a weight sample to the record of
/// `account_id` in a given registry.
pub open spec fn add_weight_outcome(
    accounts: Accounts,
    caller: Seq<char>,
    account_id: Seq<char>,
    weight: u32,
) -> Result<(), ContractError> {
    request_outcome(record_at(accounts, account_id), caller, account_id, weight)
}

/// The registry after `caller` asks to add a weight sample to the record of
/// `account_id`: that record gains the sample if the request is granted, and
/// nothing changes if it is refused.
pub open spec fn weight_added(
    accounts: Accounts,
    caller: Seq<char>,
    account_id: Seq<char>,
    weight: u32,
) -> Accounts {
    if add_weight_outcome(accounts, caller, account_id, weight) is Ok {
        accounts.insert(account_id, accounts[account_id].with_weight(weight))
    } else {
        accounts
    }
}

/// Whether the answer to a request to add a weight sample, and what the
/// registry wrote for it, are what the rules give where `held` is what was
/// found for the account. The answer is the one that `held` calls for, and the
/// registry wrote what `held` calls for and nothing else. So on every registry
/// that holds `held` for the account, the answer is [`add_weight_outcome`] and
/// the registry after the writes is [`weight_added`].
pub open spec fn request_obeys(
    held: Option<BodyView>,
    caller: Seq<char>,
    account_id: Seq<char>,
    weight: u32,
    done: Result<(), ContractError>,
    written_before: Seq<Write>,
    written_after: Seq<Write>,
) -> bool {
    &&& done == request_outcome(held, caller, account_id, weight)
    &&& written_after == written_before + request_writes(held, caller, account_id, weight)
    &&& forall|accounts: Accounts|
        record_at(accounts, account_id) == held ==> done == #[trigger] add_weight_outcome(
            accounts,
            caller,
            account_id,
            weight,
        ) && with_writes(accounts, request_writes(held, caller, account_id, weight))
            == weight_added(accounts, caller, account_id, weight)
}

/// Whether the answer to a registration, and what the registry wrote for it,
/// are what the rules give. The answer is the one that the caller's identifier
/// calls for, and the registry wrote what the registration calls for and
/// nothing else. So on every registry, the registry after the writes is
/// [`registered`].
pub open spec fn register_obeys(
    caller: Seq<char>,
    age: u8,
    height: u8,
    weight: u32,
    done: Result<(), ContractError>,
    written_before: Seq<Write>,
    written_after: Seq<Write>,
) -> bool {
    &&& done == register_outcome(caller)
    &&& written_after == written_before + register_writes(caller, age, height, weight)
    &&& forall|accounts: Accounts|
        with_writes(accounts, register_writes(caller, age, height, weight))
            == #[trigger] registered(accounts, caller, age, height, weight)
}

/// Storing no write leaves the registry; storing one puts its record in place.
pub proof fn lemma_with_writes_short(accounts: Accounts, write: Write)
    ensures
        with_writes(accounts, Seq::empty()) == accounts,
        with_writes(accounts, seq![write]) == accounts.insert(write.0, record_of(write.1)),
{
    assert(seq![write].drop_last() =~= Seq::<Write>::empty());
}

/// The writes of a registration, once stored, make the registry what
/// [`registered`] says.
pub proof fn lemma_register_obeys(
    caller: Seq<char>,
    age: u8,
    height: u8,
    weight: u32,
    written_before: Seq<Write>,
)
    ensures
        register_obeys(
            caller,
            age,
            height,
            weight,
            register_outcome(caller),
            written_before,
            written_before + register_writes(caller, age, height, weight),
        ),
{
    assert forall|accounts: Accounts|
        with_writes(accounts, register_writes(caller, age, height, weight))
            == #[trigger] registered(accounts, caller, age, height, weight) by {
        lemma_with_writes_short(accounts, (caller, (age, height, seq![weight])));
    }
}

/// The answer and the writes that `held` calls for are, on every registry that
/// holds `held` for the account, what [`add_weight_outcome`] and
/// [`weight_added`] say.
pub proof fn lemma_request_obeys(
    held: Option<BodyView>,
    caller: Seq<char>,
    account_id: Seq<char>,
    weight: u32,
    written_before: Seq<Write>,
)
    ensures
        request_obeys(
            held,
            caller,
            account_id,
            weight,
            request_outcome(held, caller, account_id, weight),
            written_before,
            written_before + request_writes(held, caller, account_id, weight),
        ),
{
    let done = request_outcome(held, caller, account_id, weight);
    let writes = request_writes(held, caller, account_id, weight);
    assert forall|accounts: Accounts| record_at(accounts, account_id) == held implies done
        == #[trigger] add_weight_outcome(accounts, caller, account_id, weight) && with_writes(
        accounts,
        writes,
    ) == weight_added(accounts, caller, account_id, weight) by {
        if done is Ok {
            lemma_with_writes_short(accounts, (account_id, entry_of(held->0.with_weight(weight))));
        } else {
            lemma_with_writes_short(accounts, (account_id, (0u8, 0u8, Seq::empty())));
        }
    }
}

/// Whether `account_id` can be a key of the registry.
pub fn key_is_fit(account_id: &String) -> (fit: bool)
    ensures
        fit == key_fits(account_id@),
{
    account_id.as_str().len() <= MAX_KEY_BYTES
}

/// Decides on a registration: the entry to store under the caller's
/// identifier, which is a fresh record with `weight` as its only sample, or
/// `LimitExceeded` exactly when the identifier is too long to be a key.
pub fn entry_to_register(caller: &String, age: u8, height: u8, weight: u32) -> (entry: Result<
    (u8, u8, Vec<u32>),
    ContractError,
>)
    ensures
        entry is Ok <==> register_outcome(caller@) is Ok,
        entry matches Ok(e) ==> record_of((e.0, e.1, e.2@)) == BodyView::fresh(age, height, weight)
            && storage_value_fits(e.2@),
        entry matches Err(error) ==> register_outcome(caller@) == Err::<(), ContractError>(error),
{
    if key_is_fit(caller) {
        Ok(Body::new(age, height, weight).into_parts())
    } else {
        Err(ContractError::LimitExceeded)
    }
}

/// Answers a request for a record with what was read for the account: the
/// record, or `NotFound` where nothing was stored.
pub fn read_record(entry: Option<(u8, u8, Vec<u32>)>) -> (found: Result<Body, ContractError>)
    ensures
        found is Ok <==> entry is Some,
        found matches Ok(body) ==> record_found(record_read(entry)) == Ok::<
            BodyView,
            ContractError,
        >(body@),
        found matches Err(error) ==> record_found(record_read(entry)) == Err::<
            BodyView,
            ContractError,
        >(error),
{
    match entry {
        Some(e) => Ok(Body::from_parts(e)),
        None => Err(ContractError::NotFound),
    }
}

/// Decides on what was read for an account that is to gain a weight sample:
/// `NotFound` where nothing was stored; otherwise the entry to store in its
/// place, which is the record with the sample at the end of its window and its
/// oldest sample gone if the window was full; or `LimitExceeded` where that
/// entry could not be stored. An entry within capacity always can.
pub fn entry_with_weight(entry: Option<(u8, u8, Vec<u32>)>, weight: u32) -> (next: Result<
    (u8, u8, Vec<u32>),
    ContractError,
>)
    ensures
        next matches Ok(n) ==> record_with_weight(record_read(entry), weight) == Ok::<
            BodyView,
            ContractError,
        >(record_of((n.0, n.1, n.2@))) && storage_value_fits(n.2@),
        next matches Err(error) ==> record_with_weight(record_read(entry), weight) == Err::<
            BodyView,
            ContractError,
        >(error),
        entry matches Some(e) && e.2@.len() <= CAPACITY ==> next is Ok,
{
    match entry {
        None => Err(ContractError::NotFound),
        Some(e) => {
            let mut user = Body::from_parts(e);
            user.add_weight(weight);
            if user.weights.len() <= MAX_SAMPLES {
                Ok(user.into_parts())
            } else {
                Err(ContractError::LimitExceeded)
            }
        },
    }
}

/// The account registry: a handle on the entries that the host stores under
/// the prefix of [`StorageKeys::Accounts`].
pub struct Contract {
    users: LookupMap<String, (u8, u8, Vec<u32>)>,
}

impl Contract {
    /// The storage prefix under which the registry keeps its entries.
    pub closed spec fn namespace(&self) -> Seq<u8> {
        key_prefix(self.users)
    }

    /// Everything this registry has handed to the host to store, in order:
    /// each account identifier with the entry for it.
    pub closed spec fn written(&self) -> Seq<Write> {
        handed(self.users)
    }

    /// The registry is a handle on the accounts namespace. Every registry that
    /// [`Contract::new`] or [`Contract::initialize`] opens is, and every
    /// operation keeps it so.
    pub open spec fn wf(&self) -> bool {
        self.namespace() == StorageKeys::Accounts.prefix()
    }

    /// The map of entries, for reading.
    pub fn users(&self) -> (users: &LookupMap<String, (u8, u8, Vec<u32>)>)
        ensures
            key_prefix(*users) == self.namespace(),
    {
        &self.users
    }

    /// Opens the registry, unless the host already holds a contract state: a
    /// registry that is in use is not set up a second time.
    ///
    /// Whether a state exists is the host's to say; [`Contract::initialize`]
    /// says what follows from either answer.
    pub fn new() -> (opened: Result<Contract, ContractError>)
        ensures
            opened matches Ok(contract) ==> contract.wf() && contract.written()
                == Seq::<Write>::empty(),
            opened matches Err(error) ==> error == ContractError::AlreadyInitialized,
    {
        let already_initialized = state_exists();
        Contract::initialize(already_initialized)
    }

    /// Opens the registry over the [`StorageKeys::Accounts`] namespace if the
    /// contract has no state yet, and refuses with
    /// [`ContractError::AlreadyInitialized`] if it has. Opening makes no call
    /// to the host: the new registry has written nothing, and what is stored
    /// is as it was.
    pub fn initialize(already_initialized: bool) -> (opened: Result<Contract, ContractError>)
        ensures
            already_initialized ==> (opened matches Err(error) && error
                == ContractError::AlreadyInitialized),
            !already_initialized ==> (opened matches Ok(contract) && contract.wf()
                && contract.written() == Seq::<Write>::empty()),
    {
        if already_initialized {
            Err(ContractError::AlreadyInitialized)
        } else {
            Ok(Contract { users: lookup_map_new(StorageKeys::Accounts.into_storage_key()) })
        }
    }

    /// The record that the host holds for `account_id`, or
    /// [`ContractError::NotFound`] if it holds none.
    ///
    /// An identifier too long to be a key has no record, and the host is not
    /// asked. Otherwise the host's answer decides, as [`read_record`] says.
    pub fn get_user(&self, account_id: String) -> (found: Result<Body, ContractError>)
        requires
            self.wf(),
        ensures
            !key_fits(account_id@) ==> found is Err,
            found matches Err(error) ==> error == ContractError::NotFound,
    {
        if !key_is_fit(&account_id) {
            return Err(ContractError::NotFound);
        }
        read_record(lookup_map_get(&self.users, &account_id))
    }

    /// Whether the host holds a record for `account_id`. Never fails.
    ///
    /// An identifier too long to be a key has no record, and the host is not
    /// asked. Otherwise the answer is the host's.
    pub fn check_user(&self, account_id: String) -> (found: bool)
        requires
            self.wf(),
        ensures
            !key_fits(account_id@) ==> !found,
    {
        key_is_fit(&account_id) && lookup_map_contains_key(&self.users, &account_id)
    }

    /// Registers the caller: stores a fresh record under the caller's own
    /// identifier, in place of any record it had.
    ///
    /// The host names the caller. For that caller, the answer and what is
    /// handed to the host are what [`Contract::register_as`] says.
    pub fn register_user(&mut self, age: u8, height: u8, weight: u32) -> (done: Result<
        (),
        ContractError,
    >)
        requires
            old(self).wf(),
        ensures
            exists|caller: Seq<char>| #[trigger]
                register_obeys(
                    caller,
                    age,
                    height,
                    weight,
                    done,
                    old(self).written(),
                    final(self).written(),
                ),
            done matches Err(error) ==> error == ContractError::LimitExceeded,
            done is Err ==> final(self).written() == old(self).written(),
            final(self).wf(),
    {
        let caller = predecessor_account_id();
        self.register_as(&caller, age, height, weight)
    }

    /// Registers `caller`.
    ///
    /// Granted unless the identifier is too long to be a key. When granted, one
    /// entry is handed to the host: under the caller's identifier, the record
    /// with the given age and height and `weight` as its only sample. It goes
    /// in place of any record the caller had, and no other key is written.
    /// When refused, with [`ContractError::LimitExceeded`], nothing is written.
    /// Either way the registry is then what [`registered`] says.
    pub fn register_as(&mut self, caller: &String, age: u8, height: u8, weight: u32) -> (done:
        Result<(), ContractError>)
        requires
            old(self).wf(),
        ensures
            register_obeys(
                caller@,
                age,
                height,
                weight,
                done,
                old(self).written(),
                final(self).written(),
            ),
            done is Ok ==> final(self).written() == old(self).written().push(
                (caller@, (age, height, seq![weight])),
            ),
            done is Err ==> final(self).written() == old(self).written(),
            final(self).wf(),
    {
        proof {
            lemma_register_obeys(caller@, age, height, weight, old(self).written());
        }
        match entry_to_register(caller, age, height, weight) {
            Err(error) => {
                assert(old(self).written() + Seq::<Write>::empty() =~= old(self).written());
                Err(error)
            },
            Ok(entry) => {
                lookup_map_insert(&mut self.users, caller, &entry);
                assert(entry.2@ =~= seq![weight]);
                assert(old(self).written() + seq![(caller@, (age, height, seq![weight]))]
                    =~= old(self).written().push((caller@, (age, height, seq![weight]))));
                Ok(())
            },
        }
    }

    /// Adds a weight sample to the record of `account_id`, on behalf of the
    /// caller, who must be that account.
    ///
    /// The host names the caller and holds the record. For that caller and
    /// what the host held, the answer and what is handed to the host are what
    /// [`Contract::add_weight_as`] and [`Contract::add_weight_to_record`] say.
    /// A refused request writes nothing.
    pub fn add_weight_to_user(&mut self, account_id: String, weight: u32) -> (done: Result<
        (),
        ContractError,
    >)
        requires
            old(self).wf(),
        ensures
            exists|held: Option<BodyView>, caller: Seq<char>| #[trigger]
                request_obeys(
                    held,
                    caller,
                    account_id@,
                    weight,
                    done,
                    old(self).written(),
                    final(self).written(),
                ),
            done is Err ==> final(self).written() == old(self).written(),
            done is Ok ==> key_fits(account_id@),
            final(self).wf(),
    {
        let caller = predecessor_account_id();
        self.add_weight_as(&caller, account_id, weight)
    }

    /// Adds a weight sample to the record of `account_id`, on behalf of
    /// `caller`.
    ///
    /// Refused with [`ContractError::AccessDenied`] exactly when `caller` is
    /// not `account_id`; the host is then neither asked nor written to. An
    /// identifier too long to be a key has no record. Otherwise the host is
    /// asked for the record, and [`Contract::add_weight_to_record`] does the
    /// rest with the answer. A refused request writes nothing; a granted one
    /// writes one entry, under `account_id`.
    pub fn add_weight_as(&mut self, caller: &String, account_id: String, weight: u32) -> (done:
        Result<(), ContractError>)
        requires
            old(self).wf(),
        ensures
            caller@ != account_id@ <==> done == Err::<(), ContractError>(
                ContractError::AccessDenied,
            ),
            caller@ == account_id@ && !key_fits(account_id@) ==> done == Err::<(), ContractError>(
                ContractError::NotFound,
            ),
            exists|held: Option<BodyView>| #[trigger]
                request_obeys(
                    held,
                    caller@,
                    account_id@,
                    weight,
                    done,
                    old(self).written(),
                    final(self).written(),
                ),
            done is Err ==> final(self).written() == old(self).written(),
            done is Ok ==> caller@ == account_id@ && key_fits(account_id@),
            final(self).wf(),
    {
        if !(*caller == account_id) || !key_is_fit(&account_id) {
            proof {
                let held: Option<BodyView> = None;
                lemma_request_obeys(held, caller@, account_id@, weight, old(self).written());
                assert(old(self).written() + Seq::<Write>::empty() =~= old(self).written());
            }
            return if *caller == account_id {
                Err(ContractError::NotFound)
            } else {
                Err(ContractError::AccessDenied)
            };
        }
        let entry = lookup_map_get(&self.users, &account_id);
        self.add_weight_to_record(&account_id, entry, weight)
    }

    /// Completes the owner's request to add a weight sample to the record of
    /// `account_id`, given what the host returned for the account.
    ///
    /// Where nothing was stored the request is refused with
    /// [`ContractError::NotFound`]. Otherwise the entry read, with the sample
    /// at the end of its window and its oldest sample gone if the window was
    /// full, is handed to the host under `account_id`, and no other key is
    /// written; or, where that entry could not be stored, the request is
    /// refused with [`ContractError::LimitExceeded`]. A refused request writes
    /// nothing.
    pub fn add_weight_to_record(
        &mut self,
        account_id: &String,
        entry: Option<(u8, u8, Vec<u32>)>,
        weight: u32,
    ) -> (done: Result<(), ContractError>)
        requires
            old(self).wf(),
            key_fits(account_id@),
        ensures
            request_obeys(
                record_read(entry),
                account_id@,
                account_id@,
                weight,
                done,
                old(self).written(),
                final(self).written(),
            ),
            done is Err ==> final(self).written() == old(self).written(),
            done is Ok ==> entry is Some && final(self).written() == old(self).written().push(
                (account_id@, entry_of(record_read(entry)->0.with_weight(weight))),
            ),
            final(self).wf(),
    {
        let ghost held = record_read(entry);
        proof {
            lemma_request_obeys(held, account_id@, account_id@, weight, old(self).written());
        }
        match entry_with_weight(entry, weight) {
            Err(error) => {
                assert(old(self).written() + Seq::<Write>::empty() =~= old(self).written());
                Err(error)
            },
            Ok(updated) => {
                lookup_map_insert(&mut self.users, account_id, &updated);
                proof {
                    let next = held->0.with_weight(weight);
                    assert(record_of((updated.0, updated.1, updated.2@)) == next);
                    assert(old(self).written() + seq![(account_id@, entry_of(next))]
                        =~= old(self).written().push((account_id@, entry_of(next))));
                }
                Ok(())
            },
        }
    }
}

} // verus!
