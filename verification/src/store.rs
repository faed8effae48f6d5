//! The subscription store: the data the service keeps — confirmation tokens,
//! subscriptions with their two-state life cycle, administrator records — and
//! the operations that drive it.
//!
//! A subscription and its token are created by one atomic unit of work: both
//! become visible together or not at all; a rejected transaction leaves no
//! partial state behind. Confirmation flips a pending subscription found by
//! its still-unconsumed token and is a silent no-op otherwise, so confirming
//! twice changes nothing. Every operation needs the connection to be ready.

use crate::broadcast::OutgoingEmail;
use crate::codec::Credentials;
use crate::domain::{is_valid_email, valid_subscriber_name, FormData, Subscriber};
use crate::errors::Error;
use crate::manager::{conn_next, scope_selected, starts_init, ConnAction, ConnEvent, ConnState,
    DatabaseConfig};
use crate::text::concat_strs;
use vstd::prelude::*;

verus! {

/// The two life-cycle states of a subscription.
#[derive(Debug, Clone, Copy, PartialEq, Eq, Structural)]
pub enum Status {
    Pending,
    Confirmed,
}

/// A stored confirmation token.
#[derive(Debug)]
pub struct TokenRecord {
    pub token: String,
}

/// A stored subscription, holding a back-reference (an index into the token
/// table) to the token it was created with.
#[derive(Debug)]
pub struct SubscriptionRecord {
    pub email: String,
    pub name: String,
    pub status: Status,
    pub token_ix: usize,
}

/// A stored administrator record.
pub struct UserRecord {
    pub username: String,
    pub password_hash: String,
}

/// One confirmed subscriber, as the broadcast path consumes it.
#[derive(Debug, Clone)]
pub struct ConfirmedSubscriber {
    pub email: String,
}

/// The mathematical value of a stored subscription.
pub struct SubView {
    pub email: Seq<char>,
    pub name: Seq<char>,
    pub status: Status,
    pub token_ix: int,
}

/// The mathematical value of a stored administrator record.
pub struct UserView {
    pub username: Seq<char>,
    pub password_hash: Seq<char>,
}

impl View for SubscriptionRecord {
    type V = SubView;

    open spec fn view(&self) -> SubView {
        SubView {
            email: self.email@,
            name: self.name@,
            status: self.status,
            token_ix: self.token_ix as int,
        }
    }
}

impl View for UserRecord {
    type V = UserView;

    open spec fn view(&self) -> UserView {
        UserView { username: self.username@, password_hash: self.password_hash@ }
    }
}

/// The subscription table as mathematical values.
pub open spec fn subs_seq_view(subs: Seq<SubscriptionRecord>) -> Seq<SubView> {
    subs.map_values(|s: SubscriptionRecord| s@)
}

/// The token table as the sequence of its token values.
pub open spec fn tokens_seq_view(tokens: Seq<TokenRecord>) -> Seq<Seq<char>> {
    tokens.map_values(|t: TokenRecord| t.token@)
}

/// The administrator table as mathematical values.
pub open spec fn users_seq_view(users: Seq<UserRecord>) -> Seq<UserView> {
    users.map_values(|u: UserRecord| u@)
}

/// The emails carried by a list of confirmed subscribers.
pub open spec fn emails_of(v: Seq<ConfirmedSubscriber>) -> Seq<Seq<char>> {
    v.map_values(|c: ConfirmedSubscriber| c.email@)
}

/// The mathematical value of the whole store.
pub struct StoreView {
    pub conn: ConnState,
    pub tokens: Seq<Seq<char>>,
    pub subs: Seq<SubView>,
    pub users: Seq<UserView>,
    pub fault: bool,
}

/// Owns the configuration, the connection life cycle, and the stored data.
///
/// The data lives in memory here; the connection life cycle it gates the
/// operations with is the one of `crate::manager`.
pub struct ModelManager {
    pub config: DatabaseConfig,
    pub conn: ConnState,
    pub tokens: Vec<TokenRecord>,
    pub subs: Vec<SubscriptionRecord>,
    pub users: Vec<UserRecord>,
    /// When set, the next subscription-creating transaction is rejected by
    /// the store after its token write, exercising the rollback path.
    pub fault: bool,
}

impl View for ModelManager {
    type V = StoreView;

    open spec fn view(&self) -> StoreView {
        StoreView {
            conn: self.conn,
            tokens: tokens_seq_view(self.tokens@),
            subs: subs_seq_view(self.subs@),
            users: users_seq_view(self.users@),
            fault: self.fault,
        }
    }
}

/// Stored token values are unique.
pub open spec fn tokens_distinct(tokens: Seq<Seq<char>>) -> bool {
    forall|i: int, j: int| 0 <= i < j < tokens.len() ==> tokens[i] != tokens[j]
}

/// True exactly when `i` is the first index of token value `t`.
pub open spec fn first_token_at(tokens: Seq<Seq<char>>, t: Seq<char>, i: int) -> bool {
    &&& 0 <= i < tokens.len()
    &&& tokens[i] == t
    &&& forall|j: int| 0 <= j < i ==> tokens[j] != t
}

/// What confirmation with token `t` does to one subscription: a pending
/// subscription whose token reference is the first occurrence of `t` becomes
/// confirmed; every other subscription is untouched.
pub open spec fn confirm_one(s: SubView, tokens: Seq<Seq<char>>, t: Seq<char>) -> SubView {
    if first_token_at(tokens, t, s.token_ix) && s.status is Pending {
        SubView { status: Status::Confirmed, ..s }
    } else {
        s
    }
}

/// What confirmation with token `t` does to the whole subscription table.
pub open spec fn confirm_subs(subs: Seq<SubView>, tokens: Seq<Seq<char>>, t: Seq<char>) -> Seq<
    SubView,
> {
    subs.map_values(|s: SubView| confirm_one(s, tokens, t))
}

/// The emails of the confirmed subscriptions, in table order.
pub open spec fn confirmed_emails(subs: Seq<SubView>) -> Seq<Seq<char>>
    decreases subs.len(),
{
    if subs.len() == 0 {
        Seq::empty()
    } else {
        confirmed_emails(subs.drop_last()) + (if subs.last().status is Confirmed {
            seq![subs.last().email]
        } else {
            Seq::empty()
        })
    }
}

/// True exactly when `i` is the first index of an administrator named `name`.
pub open spec fn first_user_at(users: Seq<UserView>, name: Seq<char>, i: int) -> bool {
    &&& 0 <= i < users.len()
    &&& users[i].username == name
    &&& forall|j: int| 0 <= j < i ==> users[j].username != name
}

/// True when the supplied username and secret match a stored administrator:
/// the administrator is looked up by username, and the secret must verify
/// against that record's stored hash.
pub open spec fn credentials_accepted(users: Seq<UserView>, u: Seq<char>, p: Seq<char>) -> bool {
    exists|i: int| #[trigger] first_user_at(users, u, i) && users[i].password_hash == p
}

impl ModelManager {
    /// Stored token values never repeat: each subscription was created with a
    /// fresh token.
    pub open spec fn wf(&self) -> bool {
        tokens_distinct(self@.tokens)
    }

    /// A fresh manager: nothing attempted, nothing stored.
    pub fn new(config: DatabaseConfig) -> (r: ModelManager)
        ensures
            r@.conn is NotStarted,
            r@.tokens == Seq::<Seq<char>>::empty(),
            r@.subs == Seq::<SubView>::empty(),
            r@.users == Seq::<UserView>::empty(),
            !r@.fault,
            r.config == config,
            r.wf(),
    {
        let r = ModelManager {
            config,
            conn: ConnState::NotStarted,
            tokens: Vec::new(),
            subs: Vec::new(),
            users: Vec::new(),
            fault: false,
        };
        proof {
            assert(r@.tokens =~= Seq::<Seq<char>>::empty());
            assert(r@.subs =~= Seq::<SubView>::empty());
            assert(r@.users =~= Seq::<UserView>::empty());
        }
        r
    }

    /// Feeds one event to the connection life cycle, exactly as
    /// `crate::manager::Manager::step` does; the stored data is untouched.
    pub fn connection_step(&mut self, event: ConnEvent) -> (a: ConnAction)
        ensures
            final(self)@.conn == conn_next(old(self)@.conn, event),
            final(self)@.tokens == old(self)@.tokens,
            final(self)@.subs == old(self)@.subs,
            final(self)@.users == old(self)@.users,
            final(self)@.fault == old(self)@.fault,
            final(self).config == old(self).config,
            starts_init(old(self)@.conn, event) ==> (a matches ConnAction::StartInit { scope }
                && scope_selected(old(self).config, scope)),
            old(self)@.conn is InFlight && event is Demand ==> a is Wait,
            (old(self)@.conn matches ConnState::Ready { handle } && event is Demand) ==> (a
                matches ConnAction::UseHandle { handle: h } && h == old(self)@.conn->handle),
            (old(self)@.conn is InFlight && event matches ConnEvent::Succeeded { handle }) ==> (a
                matches ConnAction::UseHandle { handle: h } && h == event->handle),
            old(self)@.conn is InFlight && event is Failed ==> a is ReportError,
            !(old(self)@.conn is InFlight) && !(event is Demand) ==> a is Wait,
    {
        match (self.conn, event) {
            (ConnState::NotStarted, ConnEvent::Demand) => {
                self.conn = ConnState::InFlight;
                ConnAction::StartInit { scope: self.config.auth_scope() }
            },
            (ConnState::InFlight, ConnEvent::Demand) => ConnAction::Wait,
            (ConnState::Ready { handle }, ConnEvent::Demand) => ConnAction::UseHandle { handle },
            (ConnState::InFlight, ConnEvent::Succeeded { handle }) => {
                self.conn = ConnState::Ready { handle };
                ConnAction::UseHandle { handle }
            },
            (ConnState::InFlight, ConnEvent::Failed) => {
                self.conn = ConnState::NotStarted;
                ConnAction::ReportError
            },
            (_, _) => ConnAction::Wait,
        }
    }

    /// The memoized handle, if the connection is ready; the infrastructure
    /// failure otherwise.
    pub fn db(&self) -> (r: Result<u64, Error>)
        ensures
            r is Ok <==> self@.conn is Ready,
            r matches Ok(h) ==> self@.conn == (ConnState::Ready { handle: h }),
            r matches Err(e) ==> e is Store,
    {
        match self.conn {
            ConnState::Ready { handle } => Ok(handle),
            _ => Err(Error::Store(String::from_str("the store connection is not ready"))),
        }
    }

    /// Makes the store reject the next subscription-creating transaction,
    /// after its token write; the rollback must then leave no partial state.
    pub fn inject_fault(&mut self)
        ensures
            final(self)@.fault,
            final(self)@.conn == old(self)@.conn,
            final(self)@.tokens == old(self)@.tokens,
            final(self)@.subs == old(self)@.subs,
            final(self)@.users == old(self)@.users,
            final(self).config == old(self).config,
    {
        self.fault = true;
    }

    /// Creates a subscription: one atomic unit of work that writes the token
    /// record and the pending subscription record holding a reference to it.
    /// Both become visible together or not at all — on any failure (connection
    /// not ready, transaction rejected by the store, duplicate token) the
    /// store is exactly as it was. Succeeds if and only if the connection is
    /// ready, the store does not reject the transaction, and the token is
    /// fresh.
    pub fn create_subscriber(&mut self, subscriber: &Subscriber, token: &str) -> (r: Result<
        (),
        Error,
    >)
        ensures
            r is Ok <==> (old(self)@.conn is Ready && !old(self)@.fault && !old(
                self,
            )@.tokens.contains(token@)),
            r is Ok ==> final(self)@.tokens == old(self)@.tokens.push(token@) && final(self)@.subs
                == old(self)@.subs.push(
                SubView {
                    email: subscriber.email@,
                    name: subscriber.name@,
                    status: Status::Pending,
                    token_ix: old(self)@.tokens.len() as int,
                },
            ),
            r is Err ==> final(self)@.tokens == old(self)@.tokens && final(self)@.subs == old(
                self,
            )@.subs,
            r matches Err(e) ==> e is Store,
            final(self)@.users == old(self)@.users,
            final(self)@.conn == old(self)@.conn,
            final(self).config == old(self).config,
            final(self)@.fault == (old(self)@.fault && !(old(self)@.conn is Ready && !old(
                self,
            )@.tokens.contains(token@))),
            old(self).wf() ==> final(self).wf(),
    {
        match self.conn {
            ConnState::Ready { .. } => {},
            _ => {
                return Err(Error::Store(String::from_str("the store connection is not ready")));
            },
        }
        let token_string = String::from_str(token);
        let mut i: usize = 0;
        while i < self.tokens.len()
            invariant
                0 <= i <= self.tokens.len(),
                token_string@ == token@,
                forall|j: int| 0 <= j < i ==> self@.tokens[j] != token@,
            decreases self.tokens.len() - i,
        {
            if self.tokens[i].token == token_string {
                proof {
                    assert(self@.tokens[i as int] == token@);
                    assert(self@.tokens.contains(token@));
                }
                return Err(Error::Store(String::from_str(
                    "the store rejected the transaction: duplicate token",
                )));
            }
            i = i + 1;
        }
        assert(!old(self)@.tokens.contains(token@));
        let ghost pre = self@;
        let token_ix = self.tokens.len();
        self.tokens.push(TokenRecord { token: token_string });
        proof {
            assert(self@.tokens =~= pre.tokens.push(token@));
            assert(self@.subs =~= pre.subs);
            assert(self@.users =~= pre.users);
        }
        if self.fault {
            // The store rejected the transaction after the token write: roll
            // the orphan token back so no partial state stays visible.
            let _ = self.tokens.pop();
            self.fault = false;
            proof {
                assert(self@.tokens =~= pre.tokens);
            }
            return Err(Error::Store(String::from_str(
                "the store rejected the transaction",
            )));
        }
        let email = subscriber.email.as_ref().to_owned();
        let name = subscriber.name.as_ref().to_owned();
        self.subs.push(
            SubscriptionRecord { email, name, status: Status::Pending, token_ix },
        );
        proof {
            assert(self@.subs =~= pre.subs.push(
                SubView {
                    email: subscriber.email@,
                    name: subscriber.name@,
                    status: Status::Pending,
                    token_ix: token_ix as int,
                },
            ));
            assert(self@.tokens =~= pre.tokens.push(token@));
            assert(self@.users =~= pre.users);
            if old(self).wf() {
                assert forall|a: int, b: int|
                    0 <= a < b < self@.tokens.len() implies self@.tokens[a] != self@.tokens[b] by {
                    if b < self@.tokens.len() - 1 {
                        assert(old(self)@.tokens[a] != old(self)@.tokens[b]);
                    } else {
                        assert(!old(self)@.tokens.contains(token@));
                        assert(old(self)@.tokens[a] != token@);
                    }
                }
            }
        }
        Ok(())
    }

    /// Confirms the subscription that the given token belongs to: the pending
    /// subscription whose token reference matches becomes confirmed. An
    /// unknown token, an already confirmed subscription, or any other status
    /// mismatch is a silent no-op — the caller cannot tell those cases apart.
    pub fn confirm_subscriber(&mut self, token: String) -> (r: Result<(), Error>)
        ensures
            r is Ok <==> old(self)@.conn is Ready,
            r is Ok ==> final(self)@.subs == confirm_subs(
                old(self)@.subs,
                old(self)@.tokens,
                token@,
            ),
            r matches Err(e) ==> e is Store && final(self)@.subs == old(self)@.subs,
            final(self)@.tokens == old(self)@.tokens,
            final(self)@.users == old(self)@.users,
            final(self)@.conn == old(self)@.conn,
            final(self)@.fault == old(self)@.fault,
            final(self).config == old(self).config,
            old(self).wf() ==> final(self).wf(),
    {
        match self.conn {
            ConnState::Ready { .. } => {},
            _ => {
                return Err(Error::Store(String::from_str("the store connection is not ready")));
            },
        }
        // Locate the first record of this token value, if any.
        let mut token_ix: usize = 0;
        let mut found = false;
        let mut i: usize = 0;
        while i < self.tokens.len()
            invariant_except_break
                !found,
            invariant
                0 <= i <= self.tokens.len(),
                forall|j: int| 0 <= j < i ==> self@.tokens[j] != token@,
            ensures
                found ==> first_token_at(self@.tokens, token@, token_ix as int),
                !found ==> forall|j: int| 0 <= j < self@.tokens.len() ==> self@.tokens[j]
                    != token@,
            decreases self.tokens.len() - i,
        {
            if self.tokens[i].token == token {
                proof {
                    assert(self@.tokens[i as int] == token@);
                }
                token_ix = i;
                found = true;
                break ;
            }
            i = i + 1;
        }
        // Flip every pending subscription whose token reference matches.
        let ghost pre = self@;
        let mut updated: Vec<SubscriptionRecord> = Vec::new();
        let mut k: usize = 0;
        while k < self.subs.len()
            invariant
                0 <= k <= self.subs.len(),
                self@ == pre,
                subs_seq_view(updated@) == confirm_subs(pre.subs, pre.tokens, token@).take(
                    k as int,
                ),
                found ==> first_token_at(pre.tokens, token@, token_ix as int),
                !found ==> forall|j: int| 0 <= j < pre.tokens.len() ==> pre.tokens[j] != token@,
            decreases self.subs.len() - k,
        {
            let rec = &self.subs[k];
            let flips = found && rec.token_ix == token_ix && matches!(rec.status, Status::Pending);
            let status = if flips {
                Status::Confirmed
            } else {
                rec.status
            };
            let ghost upd_pre = updated@;
            proof {
                assert(subs_seq_view(upd_pre).len() == upd_pre.len());
                assert(upd_pre.len() == k as int);
            }
            updated.push(
                SubscriptionRecord {
                    email: rec.email.clone(),
                    name: rec.name.clone(),
                    status,
                    token_ix: rec.token_ix,
                },
            );
            proof {
                let ghost target = confirm_subs(pre.subs, pre.tokens, token@);
                assert(pre.subs[k as int] == self.subs@[k as int]@);
                let sv = pre.subs[k as int];
                if found && sv.token_ix != token_ix as int && first_token_at(
                    pre.tokens,
                    token@,
                    sv.token_ix,
                ) {
                    lemma_first_token_unique(pre.tokens, token@, token_ix as int, sv.token_ix);
                }
                assert(updated@.last()@ == confirm_one(sv, pre.tokens, token@));
                assert(target[k as int] == confirm_one(sv, pre.tokens, token@));
                assert forall|j: int| 0 <= j < k + 1 implies subs_seq_view(updated@)[j]
                    == #[trigger] (target.take(k as int + 1)[j]) by {
                    if j < k {
                        assert(updated@[j] == upd_pre[j]);
                        assert(subs_seq_view(upd_pre)[j] == target.take(k as int)[j]);
                    }
                }
                assert(subs_seq_view(updated@) =~= target.take(k as int + 1));
            }
            k = k + 1;
        }
        self.subs = updated;
        proof {
            assert(confirm_subs(pre.subs, pre.tokens, token@).take(pre.subs.len() as int)
                =~= confirm_subs(pre.subs, pre.tokens, token@));
        }
        Ok(())
    }

    /// Every subscriber currently confirmed, in table order. The system
    /// assumes subscriber counts fit comfortably in memory: there is no
    /// pagination.
    pub fn get_confirmed_subscribers(&self) -> (r: Result<Vec<ConfirmedSubscriber>, Error>)
        ensures
            r is Ok <==> self@.conn is Ready,
            r matches Ok(v) ==> emails_of(v@) == confirmed_emails(self@.subs),
            r matches Err(e) ==> e is Store,
    {
        match self.conn {
            ConnState::Ready { .. } => {},
            _ => {
                return Err(Error::Store(String::from_str("the store connection is not ready")));
            },
        }
        let mut out: Vec<ConfirmedSubscriber> = Vec::new();
        let mut k: usize = 0;
        while k < self.subs.len()
            invariant
                0 <= k <= self.subs.len(),
                emails_of(out@) == confirmed_emails(self@.subs.take(k as int)),
            decreases self.subs.len() - k,
        {
            let rec = &self.subs[k];
            if matches!(rec.status, Status::Confirmed) {
                out.push(ConfirmedSubscriber { email: rec.email.clone() });
            }
            proof {
                assert(self@.subs.take(k as int + 1).drop_last() =~= self@.subs.take(k as int));
                assert(self@.subs.take(k as int + 1).last() == self@.subs[k as int]);
                assert(emails_of(out@) =~= confirmed_emails(self@.subs.take(k as int + 1)));
            }
            k = k + 1;
        }
        proof {
            assert(self@.subs.take(self.subs@.len() as int) =~= self@.subs);
        }
        Ok(out)
    }


    /// Checks the supplied credentials against the stored administrators: the
    /// administrator is looked up by username and the supplied secret must
    /// verify against that record's stored value. On a miss — whether the
    /// username is unknown or the secret wrong — the failure is one and the
    /// same, with one and the same message, so the caller cannot tell which
    /// occurred. (The comparison scheme behind the stored value is the
    /// collaborator's concern; here it is equality with the stored value.)
    pub fn validate_credentials(&self, credentials: &Credentials) -> (r: Result<u64, Error>)
        ensures
            r is Ok <==> (self@.conn is Ready && credentials_accepted(
                self@.users,
                credentials.username@,
                credentials.password@,
            )),
            r matches Ok(id) ==> first_user_at(
                self@.users,
                credentials.username@,
                id as int,
            ) && self@.users[id as int].password_hash == credentials.password@,
            !(self@.conn is Ready) ==> (r matches Err(e) && e is Store),
            self@.conn is Ready ==> (r matches Err(e) ==> (e matches Error::Auth(m) && m@
                == "invalid credentials"@)),
    {
        match self.conn {
            ConnState::Ready { .. } => {},
            _ => {
                return Err(Error::Store(String::from_str("the store connection is not ready")));
            },
        }
        let mut i: usize = 0;
        while i < self.users.len()
            invariant
                0 <= i <= self.users.len(),
                self@.conn is Ready,
                forall|j: int| 0 <= j < i ==> self@.users[j].username != credentials.username@,
            decreases self.users.len() - i,
        {
            if self.users[i].username == credentials.username {
                proof {
                    assert(self@.users[i as int].username == credentials.username@);
                    assert(first_user_at(self@.users, credentials.username@, i as int));
                }
                if self.users[i].password_hash == credentials.password {
                    proof {
                        assert(credentials_accepted(
                            self@.users,
                            credentials.username@,
                            credentials.password@,
                        ));
                    }
                    return Ok(i as u64);
                }
                proof {
                    assert forall|j: int|
                        first_user_at(self@.users, credentials.username@, j) implies j
                        == i as int by {
                        lemma_first_user_unique(self@.users, credentials.username@, i as int, j);
                    }
                }
                return Err(Error::Auth(String::from_str("invalid credentials")));
            }
            i = i + 1;
        }
        Err(Error::Auth(String::from_str("invalid credentials")))
    }

    /// Stores an administrator record, as the seeding path does after the
    /// schema is in place.
    pub fn create_user(&mut self, username: String, password_hash: String) -> (r: Result<
        u64,
        Error,
    >)
        ensures
            r is Ok <==> old(self)@.conn is Ready,
            r matches Ok(id) ==> id as int == old(self)@.users.len() && final(self)@.users == old(
                self,
            )@.users.push(UserView { username: username@, password_hash: password_hash@ }),
            r matches Err(e) ==> e is Store && final(self)@.users == old(self)@.users,
            final(self)@.tokens == old(self)@.tokens,
            final(self)@.subs == old(self)@.subs,
            final(self)@.conn == old(self)@.conn,
            final(self)@.fault == old(self)@.fault,
            final(self).config == old(self).config,
            old(self).wf() ==> final(self).wf(),
    {
        match self.conn {
            ConnState::Ready { .. } => {},
            _ => {
                return Err(Error::Store(String::from_str("the store connection is not ready")));
            },
        }
        let id = self.users.len();
        let ghost pre = self@;
        self.users.push(UserRecord { username, password_hash });
        proof {
            assert(self@.users =~= pre.users.push(
                UserView { username: username@, password_hash: password_hash@ },
            ));
            assert(self@.tokens =~= pre.tokens);
            assert(self@.subs =~= pre.subs);
        }
        Ok(id as u64)
    }
}

/// The length of every confirmation token.
pub const TOKEN_LENGTH: usize = 25;

/// Whether the character is an ASCII letter or digit — the token alphabet.
pub open spec fn is_token_char(c: char) -> bool {
    ||| ('a' as u32) <= (c as u32) <= ('z' as u32)
    ||| ('A' as u32) <= (c as u32) <= ('Z' as u32)
    ||| ('0' as u32) <= (c as u32) <= ('9' as u32)
}

/// Draws a fresh random confirmation token.
///
/// Relies on rand's `Alphanumeric` distribution: every sample is one ASCII
/// letter or digit, so taking `TOKEN_LENGTH` samples yields exactly that many
/// characters of the token alphabet. The value itself is random: nothing more
/// can be said of it.
#[verifier::external_body]
fn get_confirmation_token() -> (r: String)
    ensures
        r@.len() == TOKEN_LENGTH as int,
        forall|i: int| 0 <= i < r@.len() ==> is_token_char(r@[i]),
{
    rand::RngExt::sample_iter(rand::rng(), &rand::distr::Alphanumeric).map(char::from).take(
        TOKEN_LENGTH,
    ).collect()
}

/// The full subscription flow behind one submitted form: validate the name
/// and the email, draw a fresh confirmation token, and run the atomic
/// creation. Returns the token for the confirmation link on success. Invalid
/// input is rejected before anything reaches the store, and is the only
/// client-input failure; on a valid form the flow fails only as the store
/// does — connection not ready, a rejected transaction, or a drawn token that
/// collides with a stored one — and succeeds whenever none of those can
/// occur, in particular whenever no stored token even has the token length.
/// On any failure the store is exactly as it was.
pub fn subscribe(mm: &mut ModelManager, form: FormData) -> (r: Result<String, Error>)
    ensures
        !(is_valid_email(form.email@) && valid_subscriber_name(form.name@)) ==> (r matches Err(e)
            && e is Validation),
        (is_valid_email(form.email@) && valid_subscriber_name(form.name@)) ==> (r matches Err(e)
            ==> e is Store),
        (old(mm)@.conn is Ready && !old(mm)@.fault && is_valid_email(form.email@)
            && valid_subscriber_name(form.name@) && (forall|i: int|
            0 <= i < old(mm)@.tokens.len() ==> (#[trigger] old(mm)@.tokens[i]).len()
                != TOKEN_LENGTH as int)) ==> r is Ok,
        r matches Ok(t) ==> is_valid_email(form.email@) && valid_subscriber_name(form.name@)
            && t@.len() == TOKEN_LENGTH as int && (forall|i: int|
            0 <= i < t@.len() ==> is_token_char(t@[i])) && old(mm)@.conn is Ready && !old(
            mm,
        )@.fault && final(mm)@.tokens == old(mm)@.tokens.push(t@) && final(mm)@.subs == old(
            mm,
        )@.subs.push(
            SubView {
                email: form.email@,
                name: form.name@,
                status: Status::Pending,
                token_ix: old(mm)@.tokens.len() as int,
            },
        ),
        r is Err ==> final(mm)@.tokens == old(mm)@.tokens && final(mm)@.subs == old(mm)@.subs,
        r matches Err(e) ==> (e is Validation || e is Store),
        final(mm)@.users == old(mm)@.users,
        final(mm)@.conn == old(mm)@.conn,
        final(mm).config == old(mm).config,
        final(mm)@.fault ==> old(mm)@.fault,
        old(mm).wf() ==> final(mm).wf(),
{
    let subscriber = match Subscriber::try_from(form) {
        Ok(subscriber) => subscriber,
        Err(e) => {
            return Err(e);
        },
    };
    let token = get_confirmation_token();
    proof {
        // A drawn token cannot collide where no stored token has its length.
        if forall|i: int|
            0 <= i < mm@.tokens.len() ==> (#[trigger] mm@.tokens[i]).len()
                != TOKEN_LENGTH as int {
            assert(!mm@.tokens.contains(token@)) by {
                if mm@.tokens.contains(token@) {
                    let i = choose|i: int|
                        0 <= i < mm@.tokens.len() && mm@.tokens[i] == token@;
                    assert(mm@.tokens[i].len() != TOKEN_LENGTH as int);
                }
            }
        }
    }
    match mm.create_subscriber(&subscriber, token.as_str()) {
        Ok(()) => Ok(token),
        Err(e) => Err(e),
    }
}

/// The confirmation-link parameters: the token the link carries.
#[derive(Debug, Clone)]
pub struct Params {
    pub token: String,
}

/// The confirmation flow behind one confirmation link: hand the carried token
/// to the store. An unknown or already consumed token is a silent no-op.
pub fn confirm(mm: &mut ModelManager, params: Params) -> (r: Result<(), Error>)
    ensures
        r is Ok <==> old(mm)@.conn is Ready,
        r is Ok ==> final(mm)@.subs == confirm_subs(
            old(mm)@.subs,
            old(mm)@.tokens,
            params.token@,
        ),
        r matches Err(e) ==> e is Store && final(mm)@.subs == old(mm)@.subs,
        final(mm)@.tokens == old(mm)@.tokens,
        final(mm)@.users == old(mm)@.users,
        final(mm)@.conn == old(mm)@.conn,
        final(mm)@.fault == old(mm)@.fault,
        final(mm).config == old(mm).config,
        old(mm).wf() ==> final(mm).wf(),
{
    mm.confirm_subscriber(params.token)
}

/// The confirmation link that the welcome email carries: the service's base
/// URL (expected to end in `/`) followed by the confirmation route and the
/// token as its query parameter.
pub fn get_confirmation_link(base_url: &str, token: &str) -> (r: String)
    ensures
        r@ == base_url@ + "subscriptions/confirm?token="@ + token@,
{
    let prefix = concat_strs(base_url, "subscriptions/confirm?token=");
    let r = concat_strs(prefix.as_str(), token);
    proof {
        assert(r@ =~= base_url@ + "subscriptions/confirm?token="@ + token@);
    }
    r
}

/// The welcome email for one new subscriber: where it goes and what it says,
/// with the confirmation link in both bodies. Sending it is the email
/// collaborator's job.
pub fn confirmation_email(subscriber: &Subscriber, base_url: &str, token: &str) -> (r:
    OutgoingEmail)
    ensures
        r.to@ == subscriber.email@,
        r.subject@ == "Welcome!"@,
        r.html@ == "Welcome to our newsletter!<br />Click <a href=\""@ + (base_url@
            + "subscriptions/confirm?token="@ + token@) + "\">here</a> to confirm your subscription."@,
        r.text@ == "Welcome to our newsletter!\nVisit "@ + (base_url@
            + "subscriptions/confirm?token="@ + token@) + " to confirm your subscription."@,
{
    let link = get_confirmation_link(base_url, token);
    let html_head = concat_strs(
        "Welcome to our newsletter!<br />Click <a href=\"",
        link.as_str(),
    );
    let html = concat_strs(html_head.as_str(), "\">here</a> to confirm your subscription.");
    let text_head = concat_strs("Welcome to our newsletter!\nVisit ", link.as_str());
    let text = concat_strs(text_head.as_str(), " to confirm your subscription.");
    proof {
        assert(html@ =~= "Welcome to our newsletter!<br />Click <a href=\""@ + (base_url@
            + "subscriptions/confirm?token="@ + token@)
            + "\">here</a> to confirm your subscription."@);
        assert(text@ =~= "Welcome to our newsletter!\nVisit "@ + (base_url@
            + "subscriptions/confirm?token="@ + token@) + " to confirm your subscription."@);
    }
    OutgoingEmail {
        to: subscriber.email.as_ref().to_owned(),
        subject: String::from_str("Welcome!"),
        html,
        text,
    }
}

/// A username has only one first index.
proof fn lemma_first_user_unique(users: Seq<UserView>, name: Seq<char>, i: int, j: int)
    requires
        first_user_at(users, name, i),
        first_user_at(users, name, j),
    ensures
        i == j,
{
    if i < j {
        assert(users[i].username == name);
    } else if j < i {
        assert(users[j].username == name);
    }
}

/// A token value has only one first index.
proof fn lemma_first_token_unique(tokens: Seq<Seq<char>>, t: Seq<char>, i: int, j: int)
    requires
        first_token_at(tokens, t, i),
        first_token_at(tokens, t, j),
    ensures
        i == j,
{
    if i < j {
        assert(tokens[i] == t);
    } else if j < i {
        assert(tokens[j] == t);
    }
}

/// Confirming with the same token twice is the same as confirming once: the
/// first confirmation leaves no pending subscription that still matches the
/// token, so the second pass changes nothing.
pub proof fn lemma_confirm_idempotent(subs: Seq<SubView>, tokens: Seq<Seq<char>>, t: Seq<char>)
    ensures
        confirm_subs(confirm_subs(subs, tokens, t), tokens, t) == confirm_subs(subs, tokens, t),
{
    let once = confirm_subs(subs, tokens, t);
    let twice = confirm_subs(once, tokens, t);
    assert forall|k: int| 0 <= k < subs.len() implies twice[k] == once[k] by {
        assert(once[k] == confirm_one(subs[k], tokens, t));
        assert(twice[k] == confirm_one(once[k], tokens, t));
    }
    assert(twice =~= once);
}

} // verus!


