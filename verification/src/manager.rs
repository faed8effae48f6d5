//! The connection manager: configuration, the three-way choice of
//! authentication scope, and the single-flight life cycle of the one lazily
//! created connection.
//!
//! The life cycle is an explicit state machine. A caller demanding the
//! connection either starts the one initialization attempt, waits for the
//! attempt already in flight, or receives the memoized handle. The attempt's
//! outcome is reported back as an event: success memoizes the handle for every
//! later caller, failure resets the machine so that the next caller retries
//! from scratch — a failed attempt is never memoized.

use crate::errors::Error;
use vstd::prelude::*;

verus! {

/// Where the service listens.
#[derive(Debug, Clone)]
pub struct ApplicationConfig {
    pub port: u16,
    pub host: String,
}

/// How the data store is reached and under which authentication scope.
/// If `namespace` is present the connection is scoped; if `name` is present
/// as well it is scoped to that namespace/database pair; with no namespace,
/// root-level authentication is the fallback.
#[derive(Clone)]
pub struct DatabaseConfig {
    pub url: String,
    pub username: String,
    pub password: String,
    pub namespace: Option<String>,
    pub name: Option<String>,
}

/// The whole configuration, loaded once at startup.
#[derive(Clone)]
pub struct Config {
    pub application: ApplicationConfig,
    pub database: DatabaseConfig,
}

/// The authentication boundary under which a connection signs in: the least
/// privilege that the supplied configuration allows.
#[derive(Debug, Clone)]
pub enum AuthScope {
    /// Full administrative privileges; the bootstrap fallback.
    Root,
    /// Scoped to one namespace.
    Namespace { namespace: String },
    /// Scoped to one database inside one namespace.
    Database { namespace: String, database: String },
}

/// True when `r` is the scope that the configuration `cfg` selects: database
/// scope when namespace and database name are both present, namespace scope
/// when only the namespace is, root scope otherwise.
pub open spec fn scope_selected(cfg: DatabaseConfig, r: AuthScope) -> bool {
    match (cfg.namespace, cfg.name) {
        (Some(ns), Some(db)) => r matches AuthScope::Database { namespace, database }
            && namespace@ == ns@ && database@ == db@,
        (Some(ns), None) => (r matches AuthScope::Namespace { namespace } && namespace@ == ns@),
        (None, _) => r is Root,
    }
}

impl DatabaseConfig {
    /// Picks the authentication scope that this configuration calls for,
    /// preferring the lower-privilege scopes whenever enough configuration is
    /// supplied.
    pub fn auth_scope(&self) -> (r: AuthScope)
        ensures
            scope_selected(*self, r),
    {
        match (&self.namespace, &self.name) {
            (Some(ns), Some(db)) => AuthScope::Database {
                namespace: ns.clone(),
                database: db.clone(),
            },
            (Some(ns), None) => AuthScope::Namespace { namespace: ns.clone() },
            (None, _) => AuthScope::Root,
        }
    }
}

/// The life-cycle state of the one shared connection.
#[derive(Debug, Clone, Copy, PartialEq, Eq, Structural)]
pub enum ConnState {
    /// No initialization attempt has run, or the last one failed.
    NotStarted,
    /// Exactly one initialization attempt is running.
    InFlight,
    /// The connection is established and memoized.
    Ready { handle: u64 },
}

/// What the manager observes: a caller demanding the connection, or the
/// outcome of the initialization attempt in flight.
#[derive(Debug, Clone, Copy, PartialEq, Eq, Structural)]
pub enum ConnEvent {
    Demand,
    Succeeded { handle: u64 },
    Failed,
}

/// What the caller must do next.
#[derive(Debug, Clone)]
pub enum ConnAction {
    /// Run the one initialization attempt: open the transport, sign in under
    /// the given scope, apply the pending migrations in order.
    StartInit { scope: AuthScope },
    /// An attempt is already in flight; park until its outcome arrives.
    Wait,
    /// The connection is ready; use this handle.
    UseHandle { handle: u64 },
    /// The attempt failed; report the error. The failure is not memoized.
    ReportError,
}

/// The state after one event.
pub open spec fn conn_next(s: ConnState, e: ConnEvent) -> ConnState {
    match (s, e) {
        (ConnState::NotStarted, ConnEvent::Demand) => ConnState::InFlight,
        (ConnState::InFlight, ConnEvent::Succeeded { handle }) => ConnState::Ready { handle },
        (ConnState::InFlight, ConnEvent::Failed) => ConnState::NotStarted,
        (_, _) => s,
    }
}

/// True exactly when the event makes a new initialization attempt start.
pub open spec fn starts_init(s: ConnState, e: ConnEvent) -> bool {
    s is NotStarted && e is Demand
}

/// The state after a whole sequence of events.
pub open spec fn run_states(s: ConnState, events: Seq<ConnEvent>) -> ConnState
    decreases events.len(),
{
    if events.len() == 0 {
        s
    } else {
        run_states(conn_next(s, events[0]), events.drop_first())
    }
}

/// How many initialization attempts a sequence of events starts.
pub open spec fn count_inits(s: ConnState, events: Seq<ConnEvent>) -> nat
    decreases events.len(),
{
    if events.len() == 0 {
        0
    } else {
        (if starts_init(s, events[0]) {
            1nat
        } else {
            0nat
        }) + count_inits(conn_next(s, events[0]), events.drop_first())
    }
}

/// Owns the configuration and the life-cycle state of the one connection.
#[derive(Clone)]
pub struct Manager {
    pub config: DatabaseConfig,
    pub conn: ConnState,
}

impl Manager {
    /// A fresh manager: nothing attempted yet.
    pub fn new(config: DatabaseConfig) -> (r: Manager)
        ensures
            r.conn is NotStarted,
            r.config == config,
    {
        Manager { config, conn: ConnState::NotStarted }
    }

    /// Feeds one event to the life-cycle state machine and says what the
    /// caller must do next. A demand starts the one initialization attempt
    /// only from the idle state; while an attempt is in flight every caller
    /// waits; once ready, every caller shares the memoized handle; a failure
    /// resets the machine so the next caller retries from scratch.
    pub fn step(&mut self, event: ConnEvent) -> (a: ConnAction)
        ensures
            final(self).conn == conn_next(old(self).conn, event),
            final(self).config == old(self).config,
            starts_init(old(self).conn, event) ==> (a matches ConnAction::StartInit { scope }
                && scope_selected(old(self).config, scope)),
            old(self).conn is InFlight && event is Demand ==> a is Wait,
            (old(self).conn matches ConnState::Ready { handle } && event is Demand) ==> (a
                matches ConnAction::UseHandle { handle: h } && h == old(self).conn->handle),
            (old(self).conn is InFlight && event matches ConnEvent::Succeeded { handle }) ==> (a
                matches ConnAction::UseHandle { handle: h } && h == event->handle),
            old(self).conn is InFlight && event is Failed ==> a is ReportError,
            !(old(self).conn is InFlight) && !(event is Demand) ==> a is Wait,
    {
        match (self.conn, event) {
            (ConnState::NotStarted, ConnEvent::Demand) => {
                self.conn = ConnState::InFlight;
                ConnAction::StartInit { scope: self.config.auth_scope() }
            },
            (ConnState::InFlight, ConnEvent::Demand) => ConnAction::Wait,
            (ConnState::Ready { handle }, ConnEvent::Demand) => ConnAction::UseHandle { handle },
            (ConnState::InFlight, ConnEvent::Succeeded { handle }) => {
                self.conn = ConnState::Ready { handle };
                ConnAction::UseHandle { handle }
            },
            (ConnState::InFlight, ConnEvent::Failed) => {
                self.conn = ConnState::NotStarted;
                ConnAction::ReportError
            },
            (_, _) => ConnAction::Wait,
        }
    }

    /// The memoized handle, if the connection is ready; the infrastructure
    /// failure otherwise.
    pub fn db(&self) -> (r: Result<u64, Error>)
        ensures
            r is Ok <==> self.conn is Ready,
            r matches Ok(h) ==> self.conn == (ConnState::Ready { handle: h }),
            r matches Err(e) ==> e is Store,
    {
        match self.conn {
            ConnState::Ready { handle } => Ok(handle),
            _ => Err(Error::Store(String::from_str("the store connection is not ready"))),
        }
    }
}

/// While an attempt is in flight, demands start nothing new and the machine
/// stays in flight.
proof fn lemma_demands_from_inflight(events: Seq<ConnEvent>)
    requires
        forall|i: int| 0 <= i < events.len() ==> events[i] is Demand,
    ensures
        run_states(ConnState::InFlight, events) is InFlight,
        count_inits(ConnState::InFlight, events) == 0,
    decreases events.len(),
{
    if events.len() > 0 {
        assert(events[0] is Demand);
        lemma_demands_from_inflight(events.drop_first());
    }
}

/// Once the connection is ready, demands start nothing and the handle stays.
proof fn lemma_demands_from_ready(events: Seq<ConnEvent>, handle: u64)
    requires
        forall|i: int| 0 <= i < events.len() ==> events[i] is Demand,
    ensures
        run_states(ConnState::Ready { handle }, events) == (ConnState::Ready { handle }),
        count_inits(ConnState::Ready { handle }, events) == 0,
    decreases events.len(),
{
    if events.len() > 0 {
        assert(events[0] is Demand);
        lemma_demands_from_ready(events.drop_first(), handle);
    }
}

/// Single-flight: from a fresh manager, any number of concurrent demands runs
/// exactly one initialization attempt; every other caller waits for it.
pub proof fn lemma_single_flight(events: Seq<ConnEvent>)
    requires
        events.len() >= 1,
        forall|i: int| 0 <= i < events.len() ==> events[i] is Demand,
    ensures
        count_inits(ConnState::NotStarted, events) == 1,
        run_states(ConnState::NotStarted, events) is InFlight,
{
    assert(events[0] is Demand);
    lemma_demands_from_inflight(events.drop_first());
}

/// Counting initialization attempts distributes over splitting the events.
proof fn lemma_count_concat(s: ConnState, a: Seq<ConnEvent>, b: Seq<ConnEvent>)
    ensures
        run_states(s, a + b) == run_states(run_states(s, a), b),
        count_inits(s, a + b) == count_inits(s, a) + count_inits(run_states(s, a), b),
    decreases a.len(),
{
    if a.len() == 0 {
        assert(a + b =~= b);
    } else {
        assert((a + b).drop_first() =~= a.drop_first() + b);
        lemma_count_concat(conn_next(s, a[0]), a.drop_first(), b);
    }
}

/// A failed attempt is not memoized: demands before the failure run one
/// attempt, and demands after it run one fresh attempt.
pub proof fn lemma_retry_after_failure(before: Seq<ConnEvent>, after: Seq<ConnEvent>)
    requires
        before.len() >= 1,
        after.len() >= 1,
        forall|i: int| 0 <= i < before.len() ==> before[i] is Demand,
        forall|i: int| 0 <= i < after.len() ==> after[i] is Demand,
    ensures
        count_inits(ConnState::NotStarted, before + seq![ConnEvent::Failed] + after) == 2,
{
    let fail = seq![ConnEvent::Failed];
    lemma_single_flight(before);
    lemma_count_concat(ConnState::NotStarted, before, fail);
    assert(fail.drop_first() =~= Seq::<ConnEvent>::empty());
    assert(count_inits(ConnState::NotStarted, fail.drop_first()) == 0);
    assert(run_states(ConnState::NotStarted, fail.drop_first()) == ConnState::NotStarted);
    assert(count_inits(ConnState::InFlight, fail) == 0);
    assert(run_states(ConnState::InFlight, fail) is NotStarted);
    lemma_count_concat(ConnState::NotStarted, before + fail, after);
    lemma_single_flight(after);
}

/// Once one attempt has succeeded, every later demand shares its handle and
/// no further attempt runs.
pub proof fn lemma_success_is_shared(events: Seq<ConnEvent>, handle: u64)
    requires
        forall|i: int| 0 <= i < events.len() ==> events[i] is Demand,
    ensures
        count_inits(ConnState::Ready { handle }, events) == 0,
        run_states(ConnState::Ready { handle }, events) == (ConnState::Ready { handle }),
{
    lemma_demands_from_ready(events, handle);
}

} // verus!
