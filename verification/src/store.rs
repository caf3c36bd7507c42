//! The subscriber store: subscribers, their confirmation tokens, and the
//! operator credentials, together with the transactional operations over
//! them.
//!
//! The store is modelled in memory; its contract is stated over a ghost
//! `StoreModel`. The invariant `store_wf` guarantees that subscriber ids are
//! unique, that tokens are unique and always point at an existing
//! subscriber, and that no subscriber exists without at least one token.

use vstd::prelude::*;
use vstd::string::*;
use crate::domain::NewSubscriber;
use crate::text::str_eq;

verus! {

/// Lifecycle state of a subscriber; the only transition ever made is
/// `PendingConfirmation` to `Confirmed`.
#[derive(Clone, Copy, PartialEq, Eq, Structural, Debug)]
pub enum SubscriberStatus {
    PendingConfirmation,
    Confirmed,
}

/// Store failures, collapsed to a generic server error at the boundary.
#[derive(Clone, Copy, PartialEq, Eq, Structural, Debug)]
pub enum StoreError {
    PoolAcquisition,
    ConstraintViolation,
    QueryFailed,
}

/// One persisted subscriber.
pub struct SubscriberRow {
    pub id: u128,
    pub email: String,
    pub name: String,
    pub subscribed_at: i64,
    pub status: SubscriberStatus,
}

/// One confirmation token, owned by exactly one subscriber.
pub struct TokenRow {
    pub token: String,
    pub subscriber_id: u128,
}

/// One operator credential: a unique username and a PHC-encoded password
/// hash.
pub struct CredentialRow {
    pub user_id: u128,
    pub username: String,
    pub password_hash: String,
}

/// Mathematical image of a subscriber row.
#[verifier::ext_equal]
pub ghost struct SubscriberModel {
    pub id: u128,
    pub email: Seq<char>,
    pub name: Seq<char>,
    pub subscribed_at: i64,
    pub status: SubscriberStatus,
}

/// Mathematical image of a token row.
#[verifier::ext_equal]
pub ghost struct TokenModel {
    pub token: Seq<char>,
    pub subscriber_id: u128,
}

/// Mathematical image of a credential row.
#[verifier::ext_equal]
pub ghost struct CredentialModel {
    pub user_id: u128,
    pub username: Seq<char>,
    pub password_hash: Seq<char>,
}

/// Mathematical image of the whole store.
#[verifier::ext_equal]
pub ghost struct StoreModel {
    pub subscribers: Seq<SubscriberModel>,
    pub tokens: Seq<TokenModel>,
    pub users: Seq<CredentialModel>,
}

impl View for SubscriberRow {
    type V = SubscriberModel;

    open spec fn view(&self) -> SubscriberModel {
        SubscriberModel {
            id: self.id,
            email: self.email@,
            name: self.name@,
            subscribed_at: self.subscribed_at,
            status: self.status,
        }
    }
}

impl View for TokenRow {
    type V = TokenModel;

    open spec fn view(&self) -> TokenModel {
        TokenModel { token: self.token@, subscriber_id: self.subscriber_id }
    }
}

impl View for CredentialRow {
    type V = CredentialModel;

    open spec fn view(&self) -> CredentialModel {
        CredentialModel {
            user_id: self.user_id,
            username: self.username@,
            password_hash: self.password_hash@,
        }
    }
}

pub open spec fn subscriber_models(v: Seq<SubscriberRow>) -> Seq<SubscriberModel> {
    v.map_values(|r: SubscriberRow| r@)
}

pub open spec fn token_models(v: Seq<TokenRow>) -> Seq<TokenModel> {
    v.map_values(|r: TokenRow| r@)
}

pub open spec fn credential_models(v: Seq<CredentialRow>) -> Seq<CredentialModel> {
    v.map_values(|r: CredentialRow| r@)
}

// ---------------------------------------------------------------------------
// Queries over the model
// ---------------------------------------------------------------------------

pub open spec fn has_subscriber_id(m: StoreModel, id: u128) -> bool {
    exists|i: int| 0 <= i < m.subscribers.len() && (#[trigger] m.subscribers[i]).id == id
}

pub open spec fn has_token(m: StoreModel, token: Seq<char>) -> bool {
    exists|i: int| 0 <= i < m.tokens.len() && (#[trigger] m.tokens[i]).token == token
}

/// The owner of a token, when the token exists.
pub open spec fn token_lookup(m: StoreModel, token: Seq<char>) -> Option<u128> {
    if has_token(m, token) {
        let i = choose|i: int|
            0 <= i < m.tokens.len() && (#[trigger] m.tokens[i]).token == token;
        Some(m.tokens[i].subscriber_id)
    } else {
        None
    }
}

pub open spec fn has_username(m: StoreModel, username: Seq<char>) -> bool {
    exists|i: int| 0 <= i < m.users.len() && (#[trigger] m.users[i]).username == username
}

/// The credential stored under a username, when one exists.
pub open spec fn cred_lookup(m: StoreModel, username: Seq<char>) -> Option<CredentialModel> {
    if has_username(m, username) {
        let i = choose|i: int|
            0 <= i < m.users.len() && (#[trigger] m.users[i]).username == username;
        Some(m.users[i])
    } else {
        None
    }
}

pub open spec fn is_confirmed(r: SubscriberModel) -> bool {
    r.status == SubscriberStatus::Confirmed
}

/// The confirmed rows of a subscriber sequence, in order.
pub open spec fn confirmed_of(s: Seq<SubscriberModel>) -> Seq<SubscriberModel> {
    s.filter(|r: SubscriberModel| is_confirmed(r))
}

/// The confirmed subscribers, in stored order.
pub open spec fn confirmed_rows(m: StoreModel) -> Seq<SubscriberModel> {
    confirmed_of(m.subscribers)
}

/// Some token of the store points at this subscriber id.
pub open spec fn covered_by_token(m: StoreModel, id: u128) -> bool {
    exists|j: int| 0 <= j < m.tokens.len() && (#[trigger] m.tokens[j]).subscriber_id == id
}

// ---------------------------------------------------------------------------
// The store invariant
// ---------------------------------------------------------------------------

pub open spec fn store_wf(m: StoreModel) -> bool {
    &&& forall|i: int, j: int|
        0 <= i < j < m.subscribers.len() ==> (#[trigger] m.subscribers[i]).id != (
        #[trigger] m.subscribers[j]).id
    &&& forall|i: int, j: int|
        0 <= i < j < m.tokens.len() ==> (#[trigger] m.tokens[i]).token != (
        #[trigger] m.tokens[j]).token
    &&& forall|i: int|
        0 <= i < m.tokens.len() ==> has_subscriber_id(m, (#[trigger] m.tokens[i]).subscriber_id)
    &&& forall|i: int|
        0 <= i < m.subscribers.len() ==> covered_by_token(m, (#[trigger] m.subscribers[i]).id)
    &&& forall|i: int, j: int|
        0 <= i < j < m.users.len() ==> (#[trigger] m.users[i]).username != (
        #[trigger] m.users[j]).username
}

// ---------------------------------------------------------------------------
// Transitions
// ---------------------------------------------------------------------------

/// Registration: one new pending subscriber and its token, added together.
pub open spec fn subscribe_transition(
    m: StoreModel,
    id: u128,
    email: Seq<char>,
    name: Seq<char>,
    subscribed_at: i64,
    token: Seq<char>,
) -> StoreModel {
    StoreModel {
        subscribers: m.subscribers.push(
            SubscriberModel {
                id,
                email,
                name,
                subscribed_at,
                status: SubscriberStatus::PendingConfirmation,
            },
        ),
        tokens: m.tokens.push(TokenModel { token, subscriber_id: id }),
        users: m.users,
    }
}

/// Confirmation: the token's owner moves to `Confirmed`; everything else is
/// untouched. Applying it to an already confirmed owner changes nothing.
/// One subscriber row after a confirmation aimed at `owner`.
pub open spec fn confirm_map_one(r: SubscriberModel, owner: u128) -> SubscriberModel {
    if r.id == owner {
        SubscriberModel { status: SubscriberStatus::Confirmed, ..r }
    } else {
        r
    }
}

/// All subscriber rows after a confirmation aimed at `owner`.
pub open spec fn confirm_all(s: Seq<SubscriberModel>, owner: u128) -> Seq<SubscriberModel> {
    s.map_values(|r: SubscriberModel| confirm_map_one(r, owner))
}

pub open spec fn confirm_transition(m: StoreModel, token: Seq<char>) -> StoreModel
    recommends
        has_token(m, token),
{
    StoreModel { subscribers: confirm_all(m.subscribers, token_lookup(m, token)->Some_0), ..m }
}

// ---------------------------------------------------------------------------
// Transactions
// ---------------------------------------------------------------------------

/// Rows staged by one transaction; nothing is visible in the store until
/// `commit` applies them atomically. Dropping a transaction discards them.
pub struct Transaction {
    subscribers: Vec<SubscriberRow>,
    tokens: Vec<TokenRow>,
}

/// Mathematical image of a transaction.
#[verifier::ext_equal]
pub ghost struct TransactionModel {
    pub subscribers: Seq<SubscriberModel>,
    pub tokens: Seq<TokenModel>,
}

impl View for Transaction {
    type V = TransactionModel;

    closed spec fn view(&self) -> TransactionModel {
        TransactionModel {
            subscribers: subscriber_models(self.subscribers@),
            tokens: token_models(self.tokens@),
        }
    }
}

pub open spec fn txn_has_subscriber_id(t: TransactionModel, id: u128) -> bool {
    exists|i: int| 0 <= i < t.subscribers.len() && (#[trigger] t.subscribers[i]).id == id
}

pub open spec fn txn_has_token(t: TransactionModel, token: Seq<char>) -> bool {
    exists|i: int| 0 <= i < t.tokens.len() && (#[trigger] t.tokens[i]).token == token
}

/// The staged rows collide neither with the store nor with each other, and
/// staged tokens point at a subscriber of the store or of the transaction.
pub open spec fn txn_fresh(t: TransactionModel, m: StoreModel) -> bool {
    &&& forall|i: int, j: int|
        0 <= i < j < t.subscribers.len() ==> (#[trigger] t.subscribers[i]).id != (
        #[trigger] t.subscribers[j]).id
    &&& forall|i: int|
        0 <= i < t.subscribers.len() ==> !has_subscriber_id(m, (#[trigger] t.subscribers[i]).id)
    &&& forall|i: int, j: int|
        0 <= i < j < t.tokens.len() ==> (#[trigger] t.tokens[i]).token != (
        #[trigger] t.tokens[j]).token
    &&& forall|i: int| 0 <= i < t.tokens.len() ==> !has_token(m, (#[trigger] t.tokens[i]).token)
    &&& forall|i: int|
        0 <= i < t.tokens.len() ==> has_subscriber_id(m, (#[trigger] t.tokens[i]).subscriber_id)
            || txn_has_subscriber_id(t, (#[trigger] t.tokens[i]).subscriber_id)
}

/// Some staged token points at this subscriber id.
pub open spec fn txn_covers(t: TransactionModel, id: u128) -> bool {
    exists|j: int| 0 <= j < t.tokens.len() && (#[trigger] t.tokens[j]).subscriber_id == id
}

/// Every staged subscriber is staged together with at least one token: the
/// store never learns of a subscriber without one.
pub open spec fn txn_covered(t: TransactionModel) -> bool {
    forall|i: int|
        0 <= i < t.subscribers.len() ==> txn_covers(t, (#[trigger] t.subscribers[i]).id)
}

/// What committing a transaction does to the store.
pub open spec fn apply_transaction(m: StoreModel, t: TransactionModel) -> StoreModel {
    StoreModel {
        subscribers: m.subscribers + t.subscribers,
        tokens: m.tokens + t.tokens,
        users: m.users,
    }
}

// ---------------------------------------------------------------------------
// The store
// ---------------------------------------------------------------------------

/// The persistent state: subscribers, tokens, operator credentials.
pub struct Store {
    subscribers: Vec<SubscriberRow>,
    tokens: Vec<TokenRow>,
    users: Vec<CredentialRow>,
}

impl View for Store {
    type V = StoreModel;

    closed spec fn view(&self) -> StoreModel {
        StoreModel {
            subscribers: subscriber_models(self.subscribers@),
            tokens: token_models(self.tokens@),
            users: credential_models(self.users@),
        }
    }
}

impl Store {
    /// An empty store; trivially well-formed.
    pub fn new() -> (s: Store)
        ensures
            s@ == (StoreModel {
                subscribers: Seq::<SubscriberModel>::empty(),
                tokens: Seq::<TokenModel>::empty(),
                users: Seq::<CredentialModel>::empty(),
            }),
            store_wf(s@),
    {
        let s = Store { subscribers: Vec::new(), tokens: Vec::new(), users: Vec::new() };
        proof {
            assert(s@ =~= (StoreModel {
                subscribers: Seq::<SubscriberModel>::empty(),
                tokens: Seq::<TokenModel>::empty(),
                users: Seq::<CredentialModel>::empty(),
            }));
        }
        s
    }

    /// Opens a transaction with nothing staged yet.
    pub fn begin(&self) -> (t: Transaction)
        ensures
            t@.subscribers.len() == 0,
            t@.tokens.len() == 0,
            txn_fresh(t@, self@),
            txn_covered(t@),
    {
        Transaction { subscribers: Vec::new(), tokens: Vec::new() }
    }

    /// Applies every staged row at once: atomic visibility. The freshness
    /// and coverage of the staged rows keep the store invariant.
    pub fn commit(&mut self, txn: Transaction)
        requires
            store_wf(old(self)@),
            txn_fresh(txn@, old(self)@),
            txn_covered(txn@),
        ensures
            final(self)@ == apply_transaction(old(self)@, txn@),
            store_wf(final(self)@),
    {
        let ghost m0 = self@;
        let ghost t = txn@;
        let Transaction { mut subscribers, mut tokens } = txn;
        self.subscribers.append(&mut subscribers);
        self.tokens.append(&mut tokens);
        proof {
            assert(self@.subscribers =~= m0.subscribers + t.subscribers);
            assert(self@.tokens =~= m0.tokens + t.tokens);
            assert(self@ =~= apply_transaction(m0, t));
            lemma_commit_preserves_wf(m0, t);
        }
    }

    /// Moves the token's owner to `Confirmed`. Succeeds exactly when the
    /// token exists; confirming an already confirmed subscriber succeeds
    /// silently and changes nothing.
    pub fn confirm_subscriber(&mut self, token: &str) -> (r: Result<(), ConfirmError>)
        requires
            store_wf(old(self)@),
        ensures
            r is Ok <==> has_token(old(self)@, token@),
            r is Ok ==> final(self)@ == confirm_transition(old(self)@, token@),
            r is Err ==> final(self)@ == old(self)@ && r == Err::<(), ConfirmError>(
                ConfirmError::TokenNotFound,
            ),
            store_wf(final(self)@),
    {
        let ghost m0 = self@;
        let mut owner: Option<u128> = None;
        let mut i: usize = 0;
        while i < self.tokens.len()
            invariant
                store_wf(m0),
                self@ == m0,
                i <= self.tokens@.len(),
                match owner {
                    Some(o) => token_lookup(m0, token@) == Some(o),
                    None => forall|j: int|
                        0 <= j < i ==> (#[trigger] m0.tokens[j]).token != token@,
                },
            decreases self.tokens@.len() - i,
        {
            proof {
                assert(m0.tokens[i as int] == self.tokens@[i as int]@);
            }
            if owner.is_none() && str_eq(self.tokens[i].token.as_str(), token) {
                owner = Some(self.tokens[i].subscriber_id);
                proof {
                    let w = choose|w: int|
                        0 <= w < m0.tokens.len() && (#[trigger] m0.tokens[w]).token == token@;
                    if w != i as int {
                        assert(m0.tokens[w].token != m0.tokens[i as int].token);
                    }
                }
            }
            i += 1;
        }
        let o = match owner {
            Some(o) => o,
            None => {
                return Err(ConfirmError::TokenNotFound);
            },
        };
        let mut updated: Vec<SubscriberRow> = Vec::new();
        let mut k: usize = 0;
        while k < self.subscribers.len()
            invariant
                self@ == m0,
                k <= self.subscribers@.len(),
                updated@.len() == k,
                forall|j: int|
                    0 <= j < k ==> (#[trigger] updated@[j])@ == confirm_map_one(
                        m0.subscribers[j],
                        o,
                    ),
            decreases self.subscribers@.len() - k,
        {
            let row = &self.subscribers[k];
            let status = if row.id == o {
                SubscriberStatus::Confirmed
            } else {
                row.status
            };
            updated.push(
                SubscriberRow {
                    id: row.id,
                    email: row.email.clone(),
                    name: row.name.clone(),
                    subscribed_at: row.subscribed_at,
                    status,
                },
            );
            proof {
                assert(m0.subscribers[k as int] == self.subscribers@[k as int]@);
                assert(updated@[k as int]@ =~= confirm_map_one(m0.subscribers[k as int], o));
            }
            k += 1;
        }
        self.subscribers = updated;
        proof {
            assert(self@.subscribers =~= confirm_all(m0.subscribers, o));
            assert(self@ =~= confirm_transition(m0, token@));
            lemma_confirm_preserves_wf(m0, token@);
        }
        Ok(())
    }

    /// The confirmed subscribers, in stored order, as fresh copies.
    pub fn list_confirmed_subscribers(&self) -> (r: Vec<SubscriberRow>)
        ensures
            subscriber_models(r@) == confirmed_rows(self@),
    {
        let mut r: Vec<SubscriberRow> = Vec::new();
        let mut i: usize = 0;
        while i < self.subscribers.len()
            invariant
                i <= self.subscribers@.len(),
                subscriber_models(r@) == confirmed_of(
                    subscriber_models(self.subscribers@).take(i as int),
                ),
            decreases self.subscribers@.len() - i,
        {
            let ghost prefix = subscriber_models(self.subscribers@).take(i as int);
            let row = &self.subscribers[i];
            if matches!(row.status, SubscriberStatus::Confirmed) {
                r.push(
                    SubscriberRow {
                        id: row.id,
                        email: row.email.clone(),
                        name: row.name.clone(),
                        subscribed_at: row.subscribed_at,
                        status: row.status,
                    },
                );
            }
            i += 1;
            proof {
                let models = subscriber_models(self.subscribers@);
                let next = models.take(i as int);
                assert(models[i - 1] == self.subscribers@[i - 1]@);
                assert(next.drop_last() =~= prefix);
                assert(next.last() == models[i - 1]);
                reveal(Seq::filter);
                assert(subscriber_models(r@) =~= confirmed_of(next));
            }
        }
        proof {
            assert(subscriber_models(self.subscribers@).take(
                self.subscribers@.len() as int,
            ) =~= subscriber_models(self.subscribers@));
        }
        r
    }

    /// How many subscriber rows the store holds.
    pub fn subscriber_count(&self) -> (r: usize)
        ensures
            r == self@.subscribers.len(),
    {
        self.subscribers.len()
    }

    /// How many token rows the store holds.
    pub fn token_count(&self) -> (r: usize)
        ensures
            r == self@.tokens.len(),
    {
        self.tokens.len()
    }

    /// The credential stored under this username, if any.
    pub fn get_credential(&self, username: &str) -> (r: Option<&CredentialRow>)
        requires
            store_wf(self@),
        ensures
            match r {
                Some(c) => cred_lookup(self@, username@) == Some(c@),
                None => cred_lookup(self@, username@) is None,
            },
    {
        let mut i: usize = 0;
        while i < self.users.len()
            invariant
                store_wf(self@),
                i <= self.users@.len(),
                forall|j: int| 0 <= j < i ==> (#[trigger] self@.users[j]).username != username@,
            decreases self.users@.len() - i,
        {
            proof {
                assert(self@.users[i as int] == self.users@[i as int]@);
            }
            if str_eq(self.users[i].username.as_str(), username) {
                proof {
                    let w = choose|w: int|
                        0 <= w < self@.users.len() && (#[trigger] self@.users[w]).username
                            == username@;
                    if w != i as int {
                        assert(self@.users[w].username != self@.users[i as int].username);
                    }
                }
                return Some(&self.users[i]);
            }
            i += 1;
        }
        None
    }

    /// Adds one operator credential; the provisioning edge of the store.
    /// Fails when the username is already taken.
    pub fn seed_credential(
        &mut self,
        user_id: u128,
        username: String,
        password_hash: String,
    ) -> (r: Result<(), StoreError>)
        requires
            store_wf(old(self)@),
        ensures
            r is Ok <==> !has_username(old(self)@, username@),
            r is Ok ==> final(self)@ == (StoreModel {
                users: old(self)@.users.push(
                    CredentialModel {
                        user_id,
                        username: username@,
                        password_hash: password_hash@,
                    },
                ),
                ..old(self)@
            }),
            r is Err ==> final(self)@ == old(self)@ && r == Err::<(), StoreError>(
                StoreError::ConstraintViolation,
            ),
            store_wf(final(self)@),
    {
        let ghost m0 = self@;
        let mut i: usize = 0;
        while i < self.users.len()
            invariant
                self@ == m0,
                store_wf(m0),
                i <= self.users@.len(),
                forall|j: int| 0 <= j < i ==> (#[trigger] m0.users[j]).username != username@,
            decreases self.users@.len() - i,
        {
            proof {
                assert(m0.users[i as int] == self.users@[i as int]@);
            }
            if str_eq(self.users[i].username.as_str(), username.as_str()) {
                return Err(StoreError::ConstraintViolation);
            }
            i += 1;
        }
        self.users.push(CredentialRow { user_id, username, password_hash });
        proof {
            assert(self@ =~= (StoreModel {
                users: m0.users.push(
                    CredentialModel {
                        user_id,
                        username: username@,
                        password_hash: password_hash@,
                    },
                ),
                ..m0
            }));
        }
        Ok(())
    }
}

/// Unknown-token failure of the confirmation handler.
#[derive(Clone, Copy, PartialEq, Eq, Structural, Debug)]
pub enum ConfirmError {
    TokenNotFound,
}

impl ConfirmError {
    /// The HTTP status this failure is surfaced as: the token is simply
    /// not there.
    pub fn status_code(&self) -> (r: u16)
        ensures
            r == 404,
    {
        404
    }
}

// ---------------------------------------------------------------------------
// Staging operations
// ---------------------------------------------------------------------------

fn subscribers_contain_id(v: &Vec<SubscriberRow>, id: u128) -> (r: bool)
    ensures
        r == exists|i: int|
            0 <= i < v@.len() && (#[trigger] subscriber_models(v@)[i]).id == id,
{
    let mut i: usize = 0;
    while i < v.len()
        invariant
            i <= v@.len(),
            forall|j: int| 0 <= j < i ==> (#[trigger] subscriber_models(v@)[j]).id != id,
        decreases v@.len() - i,
    {
        proof {
            assert(subscriber_models(v@)[i as int] == v@[i as int]@);
        }
        if v[i].id == id {
            return true;
        }
        i += 1;
    }
    false
}

fn tokens_contain(v: &Vec<TokenRow>, token: &str) -> (r: bool)
    ensures
        r == exists|i: int|
            0 <= i < v@.len() && (#[trigger] token_models(v@)[i]).token == token@,
{
    let mut i: usize = 0;
    while i < v.len()
        invariant
            i <= v@.len(),
            forall|j: int| 0 <= j < i ==> (#[trigger] token_models(v@)[j]).token != token@,
        decreases v@.len() - i,
    {
        proof {
            assert(token_models(v@)[i as int] == v@[i as int]@);
        }
        if str_eq(v[i].token.as_str(), token) {
            return true;
        }
        i += 1;
    }
    false
}

/// Stages one new subscriber, `PendingConfirmation`, under the given id and
/// timestamp. Fails with `ConstraintViolation` when the id is already taken
/// by the store or by the transaction.
pub fn insert_subscriber(
    store: &Store,
    txn: &mut Transaction,
    new_subscriber: &NewSubscriber,
    subscriber_id: u128,
    subscribed_at: i64,
) -> (r: Result<u128, StoreError>)
    requires
        txn_fresh(old(txn)@, store@),
    ensures
        r is Ok <==> !has_subscriber_id(store@, subscriber_id) && !txn_has_subscriber_id(
            old(txn)@,
            subscriber_id,
        ),
        r matches Ok(id) ==> id == subscriber_id,
        r is Ok ==> final(txn)@ == (TransactionModel {
            subscribers: old(txn)@.subscribers.push(
                SubscriberModel {
                    id: subscriber_id,
                    email: new_subscriber.email@,
                    name: new_subscriber.name@,
                    subscribed_at,
                    status: SubscriberStatus::PendingConfirmation,
                },
            ),
            tokens: old(txn)@.tokens,
        }),
        r is Err ==> final(txn)@ == old(txn)@ && r == Err::<u128, StoreError>(
            StoreError::ConstraintViolation,
        ),
        txn_fresh(final(txn)@, store@),
{
    let in_store = {
        let mut i: usize = 0;
        let mut found = false;
        while i < store.subscribers.len()
            invariant
                i <= store.subscribers@.len(),
                found == exists|j: int|
                    0 <= j < i && (#[trigger] store@.subscribers[j]).id == subscriber_id,
            decreases store.subscribers@.len() - i,
        {
            proof {
                assert(store@.subscribers[i as int] == store.subscribers@[i as int]@);
            }
            if store.subscribers[i].id == subscriber_id {
                found = true;
            }
            i += 1;
        }
        found
    };
    if in_store || subscribers_contain_id(&txn.subscribers, subscriber_id) {
        return Err(StoreError::ConstraintViolation);
    }
    txn.subscribers.push(
        SubscriberRow {
            id: subscriber_id,
            email: String::from_str(new_subscriber.email.as_str()),
            name: String::from_str(new_subscriber.name.as_str()),
            subscribed_at,
            status: SubscriberStatus::PendingConfirmation,
        },
    );
    proof {
        assert(txn@.subscribers =~= old(txn)@.subscribers.push(
            SubscriberModel {
                id: subscriber_id,
                email: new_subscriber.email@,
                name: new_subscriber.name@,
                subscribed_at,
                status: SubscriberStatus::PendingConfirmation,
            },
        ));
        assert(txn@.tokens =~= old(txn)@.tokens);
        lemma_txn_push_subscriber(
            old(txn)@,
            store@,
            SubscriberModel {
                id: subscriber_id,
                email: new_subscriber.email@,
                name: new_subscriber.name@,
                subscribed_at,
                status: SubscriberStatus::PendingConfirmation,
            },
        );
    }
    Ok(subscriber_id)
}

/// Stages one confirmation token for a subscriber of the store or of the
/// transaction. Fails with `ConstraintViolation` on a token collision —
/// treated as fatal, not retried — or when the owner is unknown.
pub fn store_token(
    store: &Store,
    txn: &mut Transaction,
    subscriber_id: u128,
    subscription_token: &str,
) -> (r: Result<(), StoreError>)
    requires
        txn_fresh(old(txn)@, store@),
    ensures
        r is Ok <==> !has_token(store@, subscription_token@) && !txn_has_token(
            old(txn)@,
            subscription_token@,
        ) && (has_subscriber_id(store@, subscriber_id) || txn_has_subscriber_id(
            old(txn)@,
            subscriber_id,
        )),
        r is Ok ==> final(txn)@ == (TransactionModel {
            subscribers: old(txn)@.subscribers,
            tokens: old(txn)@.tokens.push(
                TokenModel { token: subscription_token@, subscriber_id },
            ),
        }),
        r is Err ==> final(txn)@ == old(txn)@ && r == Err::<(), StoreError>(
            StoreError::ConstraintViolation,
        ),
        txn_fresh(final(txn)@, store@),
{
    let in_store = {
        let mut i: usize = 0;
        let mut found = false;
        while i < store.tokens.len()
            invariant
                i <= store.tokens@.len(),
                found == exists|j: int|
                    0 <= j < i && (#[trigger] store@.tokens[j]).token == subscription_token@,
            decreases store.tokens@.len() - i,
        {
            proof {
                assert(store@.tokens[i as int] == store.tokens@[i as int]@);
            }
            if str_eq(store.tokens[i].token.as_str(), subscription_token) {
                found = true;
            }
            i += 1;
        }
        found
    };
    if in_store || tokens_contain(&txn.tokens, subscription_token) {
        return Err(StoreError::ConstraintViolation);
    }
    let owner_in_store = {
        let mut i: usize = 0;
        let mut found = false;
        while i < store.subscribers.len()
            invariant
                i <= store.subscribers@.len(),
                found == exists|j: int|
                    0 <= j < i && (#[trigger] store@.subscribers[j]).id == subscriber_id,
            decreases store.subscribers@.len() - i,
        {
            proof {
                assert(store@.subscribers[i as int] == store.subscribers@[i as int]@);
            }
            if store.subscribers[i].id == subscriber_id {
                found = true;
            }
            i += 1;
        }
        found
    };
    if !owner_in_store && !subscribers_contain_id(&txn.subscribers, subscriber_id) {
        return Err(StoreError::ConstraintViolation);
    }
    txn.tokens.push(
        TokenRow { token: String::from_str(subscription_token), subscriber_id },
    );
    proof {
        assert(txn@.tokens =~= old(txn)@.tokens.push(
            TokenModel { token: subscription_token@, subscriber_id },
        ));
        assert(txn@.subscribers =~= old(txn)@.subscribers);
        lemma_txn_push_token(
            old(txn)@,
            store@,
            TokenModel { token: subscription_token@, subscriber_id },
        );
    }
    Ok(())
}

// ---------------------------------------------------------------------------
// Invariant preservation
// ---------------------------------------------------------------------------

// ---------------------------------------------------------------------------
// Laws
// ---------------------------------------------------------------------------

/// Law: registering a valid (name, email) pair and then confirming with the
/// issued token puts the subscriber into the confirmed set; before the
/// confirmation the registration has changed the confirmed set not at all.
pub proof fn lemma_subscribe_then_confirm(
    m: StoreModel,
    id: u128,
    email: Seq<char>,
    name: Seq<char>,
    subscribed_at: i64,
    token: Seq<char>,
)
    requires
        store_wf(m),
        crate::domain::name_is_valid(name),
        crate::domain::email_is_valid(email),
        !has_subscriber_id(m, id),
        !has_token(m, token),
    ensures
        ({
            let m1 = subscribe_transition(m, id, email, name, subscribed_at, token);
            let m2 = confirm_transition(m1, token);
            &&& confirmed_rows(m1) == confirmed_rows(m)
            &&& forall|k: int| 0 <= k < m.subscribers.len() ==> (#[trigger] m.subscribers[k]).id != id
            &&& token_lookup(m1, token) == Some(id)
            &&& exists|k: int|
                0 <= k < confirmed_rows(m2).len() && (#[trigger] confirmed_rows(m2)[k]).id == id
                    && confirmed_rows(m2)[k].email == email
        }),
{
    let m1 = subscribe_transition(m, id, email, name, subscribed_at, token);
    let m2 = confirm_transition(m1, token);
    let row = SubscriberModel {
        id,
        email,
        name,
        subscribed_at,
        status: SubscriberStatus::PendingConfirmation,
    };
    let sl = m.subscribers.len() as int;
    // Registration leaves the confirmed set untouched: the new row is
    // pending, so the filter drops it.
    assert(confirmed_rows(m1) =~= confirmed_rows(m)) by {
        reveal(Seq::filter);
        assert(m1.subscribers.drop_last() =~= m.subscribers);
        assert(m1.subscribers.last() == row);
    }
    // The issued token resolves to the new subscriber: it is fresh, so the
    // pushed row is the only match.
    let tl = m.tokens.len() as int;
    assert(m1.tokens[tl].token == token);
    assert(has_token(m1, token));
    let w = choose|w: int| 0 <= w < m1.tokens.len() && (#[trigger] m1.tokens[w]).token == token;
    if w != tl {
        assert(m.tokens[w].token == token);
    }
    assert(token_lookup(m1, token) == Some(id));
    // After confirmation the new subscriber stands in the confirmed set,
    // with its email.
    let confirmed = SubscriberModel { status: SubscriberStatus::Confirmed, ..row };
    assert(m2.subscribers[sl] == confirmed);
    assert(confirmed_rows(m2).contains(m2.subscribers[sl]));
    let k = choose|k: int|
        0 <= k < confirmed_rows(m2).len() && confirmed_rows(m2)[k] == confirmed;
    assert(confirmed_rows(m2)[k].id == id && confirmed_rows(m2)[k].email == email);
}

/// Law: confirming the same token twice is a no-op the second time — the
/// token still resolves, nothing fails, and the store does not change
/// again, so the subscriber's status remains `Confirmed`.
pub proof fn lemma_confirm_idempotent(m: StoreModel, token: Seq<char>)
    requires
        store_wf(m),
        has_token(m, token),
    ensures
        ({
            let m1 = confirm_transition(m, token);
            &&& has_token(m1, token)
            &&& confirm_transition(m1, token) == m1
        }),
{
    let m1 = confirm_transition(m, token);
    assert(m1.tokens == m.tokens);
    assert(has_token(m1, token));
    // Both lookups pick a token row with this token; token uniqueness makes
    // the owner the same on both sides.
    let w0 = choose|w: int| 0 <= w < m.tokens.len() && (#[trigger] m.tokens[w]).token == token;
    let w1 = choose|w: int| 0 <= w < m1.tokens.len() && (#[trigger] m1.tokens[w]).token == token;
    if w0 != w1 {
        assert(m.tokens[w0].token != m.tokens[w1].token);
    }
    let o = token_lookup(m, token)->Some_0;
    assert(token_lookup(m1, token) == Some(o));
    assert(confirm_transition(m1, token).subscribers =~= m1.subscribers) by {
        assert forall|k: int| 0 <= k < m1.subscribers.len() implies confirm_all(
            m1.subscribers,
            o,
        )[k] == m1.subscribers[k] by {
            assert(m1.subscribers[k] == confirm_map_one(m.subscribers[k], o));
        }
    }
    assert(confirm_transition(m1, token) =~= m1);
}

proof fn lemma_txn_push_subscriber(t: TransactionModel, m: StoreModel, s: SubscriberModel)
    requires
        txn_fresh(t, m),
        !has_subscriber_id(m, s.id),
        !txn_has_subscriber_id(t, s.id),
    ensures
        txn_fresh(
            TransactionModel { subscribers: t.subscribers.push(s), tokens: t.tokens },
            m,
        ),
{
    let n = TransactionModel { subscribers: t.subscribers.push(s), tokens: t.tokens };
    let l = t.subscribers.len() as int;
    assert forall|i: int, j: int| 0 <= i < j < n.subscribers.len() implies (
    #[trigger] n.subscribers[i]).id != (#[trigger] n.subscribers[j]).id by {
        if j == l {
            assert(n.subscribers[i] == t.subscribers[i]);
        }
    }
    assert forall|i: int| 0 <= i < n.subscribers.len() implies !has_subscriber_id(
        m,
        (#[trigger] n.subscribers[i]).id,
    ) by {
        if i < l {
            assert(n.subscribers[i] == t.subscribers[i]);
        } else {
            assert(n.subscribers[i] == s);
        }
    }
    assert forall|i: int| 0 <= i < n.tokens.len() implies has_subscriber_id(
        m,
        (#[trigger] n.tokens[i]).subscriber_id,
    ) || txn_has_subscriber_id(n, (#[trigger] n.tokens[i]).subscriber_id) by {
        if !has_subscriber_id(m, n.tokens[i].subscriber_id) {
            assert(txn_has_subscriber_id(t, t.tokens[i].subscriber_id));
            let w = choose|w: int|
                0 <= w < t.subscribers.len() && (#[trigger] t.subscribers[w]).id
                    == t.tokens[i].subscriber_id;
            assert(n.subscribers[w].id == n.tokens[i].subscriber_id);
        }
    }
}

proof fn lemma_txn_push_token(t: TransactionModel, m: StoreModel, tok: TokenModel)
    requires
        txn_fresh(t, m),
        !has_token(m, tok.token),
        !txn_has_token(t, tok.token),
        has_subscriber_id(m, tok.subscriber_id) || txn_has_subscriber_id(t, tok.subscriber_id),
    ensures
        txn_fresh(
            TransactionModel { subscribers: t.subscribers, tokens: t.tokens.push(tok) },
            m,
        ),
{
    let n = TransactionModel { subscribers: t.subscribers, tokens: t.tokens.push(tok) };
    let l = t.tokens.len() as int;
    assert forall|i: int, j: int| 0 <= i < j < n.tokens.len() implies (
    #[trigger] n.tokens[i]).token != (#[trigger] n.tokens[j]).token by {
        if j == l {
            assert(n.tokens[i] == t.tokens[i]);
        }
    }
    assert forall|i: int| 0 <= i < n.tokens.len() implies !has_token(
        m,
        (#[trigger] n.tokens[i]).token,
    ) by {
        if i < l {
            assert(n.tokens[i] == t.tokens[i]);
        } else {
            assert(n.tokens[i] == tok);
        }
    }
    assert forall|i: int| 0 <= i < n.tokens.len() implies has_subscriber_id(
        m,
        (#[trigger] n.tokens[i]).subscriber_id,
    ) || txn_has_subscriber_id(n, (#[trigger] n.tokens[i]).subscriber_id) by {
        if i < l {
            assert(n.tokens[i] == t.tokens[i]);
        } else {
            assert(n.tokens[i] == tok);
        }
    }
}

proof fn lemma_commit_preserves_wf(m: StoreModel, t: TransactionModel)
    requires
        store_wf(m),
        txn_fresh(t, m),
        txn_covered(t),
    ensures
        store_wf(apply_transaction(m, t)),
{
    let n = apply_transaction(m, t);
    let sl = m.subscribers.len() as int;
    let tl = m.tokens.len() as int;
    assert forall|i: int, j: int| 0 <= i < j < n.subscribers.len() implies (
    #[trigger] n.subscribers[i]).id != (#[trigger] n.subscribers[j]).id by {
        if j >= sl {
            if i >= sl {
            } else {
                assert(!has_subscriber_id(m, t.subscribers[j - sl].id));
                assert(m.subscribers[i].id == n.subscribers[i].id);
            }
        }
    }
    assert forall|i: int, j: int| 0 <= i < j < n.tokens.len() implies (
    #[trigger] n.tokens[i]).token != (#[trigger] n.tokens[j]).token by {
        if j >= tl {
            if i >= tl {
            } else {
                assert(!has_token(m, t.tokens[j - tl].token));
                assert(m.tokens[i].token == n.tokens[i].token);
            }
        }
    }
    assert forall|i: int| 0 <= i < n.tokens.len() implies has_subscriber_id(
        n,
        (#[trigger] n.tokens[i]).subscriber_id,
    ) by {
        if i < tl {
            let id = m.tokens[i].subscriber_id;
            assert(has_subscriber_id(m, id));
            let w = choose|w: int|
                0 <= w < m.subscribers.len() && (#[trigger] m.subscribers[w]).id == id;
            assert(n.subscribers[w].id == id);
        } else {
            let id = t.tokens[i - tl].subscriber_id;
            if has_subscriber_id(m, id) {
                let w = choose|w: int|
                    0 <= w < m.subscribers.len() && (#[trigger] m.subscribers[w]).id == id;
                assert(n.subscribers[w].id == id);
            } else {
                assert(txn_has_subscriber_id(t, id));
                let w = choose|w: int|
                    0 <= w < t.subscribers.len() && (#[trigger] t.subscribers[w]).id == id;
                assert(n.subscribers[sl + w].id == id);
            }
        }
    }
    assert forall|i: int| 0 <= i < n.subscribers.len() implies covered_by_token(
        n,
        (#[trigger] n.subscribers[i]).id,
    ) by {
        if i < sl {
            assert(covered_by_token(m, m.subscribers[i].id));
            let w = choose|j: int|
                0 <= j < m.tokens.len() && (#[trigger] m.tokens[j]).subscriber_id
                    == m.subscribers[i].id;
            assert(n.tokens[w].subscriber_id == n.subscribers[i].id);
        } else {
            assert(txn_covers(t, t.subscribers[i - sl].id));
            let w = choose|j: int|
                0 <= j < t.tokens.len() && (#[trigger] t.tokens[j]).subscriber_id
                    == t.subscribers[i - sl].id;
            assert(n.tokens[tl + w].subscriber_id == n.subscribers[i].id);
        }
    }
}

proof fn lemma_confirm_preserves_wf(m: StoreModel, token: Seq<char>)
    requires
        store_wf(m),
    ensures
        store_wf(confirm_transition(m, token)),
{
    let n = confirm_transition(m, token);
    assert(n.subscribers.len() == m.subscribers.len());
    assert forall|i: int| 0 <= i < n.subscribers.len() implies (#[trigger] n.subscribers[i]).id
        == m.subscribers[i].id by {}
    assert forall|i: int| 0 <= i < n.tokens.len() implies has_subscriber_id(
        n,
        (#[trigger] n.tokens[i]).subscriber_id,
    ) by {
        let id = m.tokens[i].subscriber_id;
        let w = choose|w: int|
            0 <= w < m.subscribers.len() && (#[trigger] m.subscribers[w]).id == id;
        assert(n.subscribers[w].id == id);
    }
    assert forall|i: int| 0 <= i < n.subscribers.len() implies covered_by_token(
        n,
        (#[trigger] n.subscribers[i]).id,
    ) by {
        assert(covered_by_token(m, m.subscribers[i].id));
        let w = choose|j: int|
            0 <= j < m.tokens.len() && (#[trigger] m.tokens[j]).subscriber_id
                == m.subscribers[i].id;
        assert(n.tokens[w].subscriber_id == n.subscribers[i].id);
    }
}

} // verus!
