//! Listening to a running download, and cancelling it.
//!
//! A [`Listener`] and its [`Canceller`] hold the same token. The download goes on as
//! long as somebody besides the listener holds it: dropping the canceller stops it.
use crate::snapshot::{holds_state, is_complete, snapshot_value};
use mtorrent::utils::listener::StateSnapshot;
use std::sync::Arc;
use vstd::multiset::Multiset;
use vstd::prelude::*;

verus! {

/// `log::Level`, how important a log message is.
#[verifier::external_type_specification]
#[verifier::external_body]
pub struct ExLevel(log::Level);

/// A share in a token. Shares in the same token are equal.
#[verifier::external_body]
#[derive(Debug)]
pub struct Token {
    inner: Arc<()>,
}

impl Token {
    /// `std::sync::Arc::new`: the first share in a new token. Nothing is claimed of it.
    #[verifier::external_body]
    fn new() -> (token: Token) {
        Token { inner: Arc::new(()) }
    }

    /// `std::sync::Arc::clone`: one more share in the same token.
    #[verifier::external_body]
    fn share(&self) -> (token: Token)
        ensures
            token == *self,
    {
        Token { inner: Arc::clone(&self.inner) }
    }
}

/// Counting those who hold `token` has given `holders`.
pub closed spec fn found_holders(token: Token, holders: usize) -> bool {
    call_ensures(token_holders, (&token,), holders)
}

/// `std::sync::Arc::strong_count`: how many hold the token at the moment, the one who
/// asks among them. That the number grows with each share that is made, and shrinks with each
/// that is dropped, is not stated; laws that need it take the number as given.
#[verifier::external_body]
fn token_holders(token: &Token) -> (holders: usize)
    ensures
        holders >= 1,
{
    Arc::strong_count(&token.inner)
}

/// When the next dump of a snapshot to the log is due.
#[derive(Debug)]
pub struct DumpSnapshot {
    pub level: log::Level,
    pub ticks: usize,
}

/// Receives the snapshots of one download and hands them to a callback.
pub struct Listener<F> {
    pub callback: F,
    pub token: Token,
    pub dump_cfg: Option<DumpSnapshot>,
}

/// Keeps a download running until it is dropped.
#[derive(Debug)]
pub struct Canceller {
    pub token: Token,
}

/// What is to be done with a snapshot.
#[derive(Debug)]
pub enum SnapshotAction {
    /// The download has been cancelled and is to stop.
    Stop,
    /// The snapshot is to be delivered, after a dump to the log at the given level.
    Deliver { dump: Option<log::Level> },
}

/// How many snapshots pass from one dump to the next.
pub const DUMP_INTERVAL: usize = 10;

impl<F> Listener<F> {
    /// The listener after a snapshot of a download that goes on.
    pub open spec fn ticked(self) -> Listener<F> {
        Listener {
            dump_cfg: match self.dump_cfg {
                Some(dump) => Some(
                    DumpSnapshot {
                        ticks: if dump.ticks == usize::MAX {
                            0
                        } else {
                            (dump.ticks + 1) as usize
                        },
                        ..dump
                    },
                ),
                None => None,
            },
            ..self
        }
    }

    /// The level at which the listener dumps the snapshot that it has just counted.
    pub open spec fn dump_due(self) -> Option<log::Level> {
        match self.dump_cfg {
            Some(dump) => if dump.ticks % DUMP_INTERVAL == 0 {
                Some(dump.level)
            } else {
                None
            },
            None => None,
        }
    }

    /// The listener after `n` snapshots of a download that goes on.
    pub open spec fn ticked_times(self, n: nat) -> Listener<F>
        decreases n,
    {
        if n == 0 {
            self
        } else {
            self.ticked_times((n - 1) as nat).ticked()
        }
    }

    /// Decides on a snapshot, given how many hold the token.
    pub fn on_snapshot_held_by(&mut self, holders: usize) -> (action: SnapshotAction)
        ensures
            holders == 1 ==> action is Stop && *final(self) == *old(self),
            holders != 1 ==> {
                &&& *final(self) == old(self).ticked()
                &&& action == (SnapshotAction::Deliver { dump: old(self).ticked().dump_due() })
            },
    {
        if holders == 1 {
            return SnapshotAction::Stop;
        }
        let mut due: Option<log::Level> = None;
        if let Some(dump) = &mut self.dump_cfg {
            dump.ticks = dump.ticks.wrapping_add(1);
            if dump.ticks % DUMP_INTERVAL == 0 {
                due = Some(dump.level);
            }
        }
        SnapshotAction::Deliver { dump: due }
    }

    /// `action` is what is to be done with a snapshot if `holders` hold the token, and `after`
    /// is the listener from then on.
    pub open spec fn decides(self, holders: usize, action: SnapshotAction, after: Listener<F>) -> bool {
        if holders == 1 {
            action is Stop && after == self
        } else {
            &&& action == (SnapshotAction::Deliver { dump: self.ticked().dump_due() })
            &&& after == self.ticked()
        }
    }

    /// Decides on a snapshot: the download stops once nobody else holds the token. What
    /// decides is how many are found to hold the token of this listener.
    pub fn on_snapshot(&mut self) -> (action: SnapshotAction)
        ensures
            exists|holders: usize| #[trigger]
                found_holders(old(self).token, holders) && old(self).decides(
                    holders,
                    action,
                    *final(self),
                ),
            match action {
                SnapshotAction::Stop => *final(self) == *old(self),
                SnapshotAction::Deliver { dump } => {
                    &&& *final(self) == old(self).ticked()
                    &&& dump == final(self).dump_due()
                },
            },
    {
        let holders = token_holders(&self.token);
        assert(found_holders(self.token, holders));
        self.on_snapshot_held_by(holders)
    }
}

impl<F> Listener<F> {
    /// Where `shares` are all the shares in tokens that there are, the listener is the only
    /// one to hold its token.
    pub open spec fn is_alone(self, shares: Multiset<Token>) -> bool {
        shares.count(self.token) == 1
    }
}

/// The shares that there are after a listener and its canceller were made.
pub open spec fn with_pair(shares: Multiset<Token>, token: Token) -> Multiset<Token> {
    shares.insert(token).insert(token)
}

/// Law: if a listener counts the shares that there are, it stops the download if and only if
/// it is alone, however many snapshots it has received before. Nothing else decides, and a
/// listener that stops is left as it was.
pub proof fn alone_means_stop<F>(
    shares: Multiset<Token>,
    listener: Listener<F>,
    n: nat,
    holders: usize,
    action: SnapshotAction,
    after: Listener<F>,
)
    requires
        holders == shares.count(listener.token),
        listener.ticked_times(n).decides(holders, action, after),
    ensures
        action is Stop <==> listener.is_alone(shares),
        action is Stop ==> after == listener.ticked_times(n),
        !(action is Stop) ==> after == listener.ticked_times(n + 1),
        after.token == listener.token,
{
    token_is_kept(listener, n);
}

/// Receiving snapshots does not change the token.
proof fn token_is_kept<F>(listener: Listener<F>, n: nat)
    ensures
        listener.ticked_times(n).token == listener.token,
    decreases n,
{
    if n > 0 {
        token_is_kept(listener, (n - 1) as nat);
    }
}

/// Law: a listener is alone once its canceller was dropped, and not before.
pub proof fn dropped_canceller_leaves_the_listener_alone<F>(
    shares: Multiset<Token>,
    listener: Listener<F>,
)
    requires
        shares.count(listener.token) == 0,
    ensures
        !listener.is_alone(with_pair(shares, listener.token)),
        listener.is_alone(with_pair(shares, listener.token).remove(listener.token)),
{
}

/// Law: a listener and its canceller are independent of other pairs. Dropping the canceller
/// of one pair leaves its own listener alone and not the other; dropping one of the listeners
/// as well changes nothing for the other.
pub proof fn pairs_are_independent<F, G>(
    shares: Multiset<Token>,
    one: Listener<F>,
    other: Listener<G>,
)
    requires
        shares.count(one.token) == 0,
        with_pair(shares, one.token).count(other.token) == 0,
    ensures
        ({
            let made = with_pair(with_pair(shares, one.token), other.token);
            let cancelled = made.remove(one.token);
            &&& !one.is_alone(made) && !other.is_alone(made)
            &&& one.is_alone(cancelled) && !other.is_alone(cancelled)
            &&& !other.is_alone(cancelled.remove(one.token))
        }),
{
}

/// Law: of the snapshots that a new listener with dumps delivers, every tenth is dumped
/// and no other, until the counter has gone through all its values.
pub proof fn every_tenth_is_dumped<F>(listener: Listener<F>, n: nat)
    requires
        listener.dump_cfg is Some,
        listener.dump_cfg->0.ticks == 0,
        n <= usize::MAX,
    ensures
        listener.ticked_times(n).dump_cfg == Some(
            DumpSnapshot { level: listener.dump_cfg->0.level, ticks: n as usize },
        ),
        listener.ticked_times(n).dump_due() == if n % 10 == 0 {
            Some(listener.dump_cfg->0.level)
        } else {
            None
        },
    decreases n,
{
    if n > 0 {
        every_tenth_is_dumped(listener, (n - 1) as nat);
    }
}

/// Law: a listener without dumps never dumps.
pub proof fn never_dumped_without_dumps<F>(listener: Listener<F>, n: nat)
    requires
        listener.dump_cfg is None,
    ensures
        listener.ticked_times(n) == listener,
        listener.ticked_times(n).dump_due() is None,
    decreases n,
{
    if n > 0 {
        never_dumped_without_dumps(listener, (n - 1) as nat);
    }
}

impl<F: Fn(serde_json::Value)> Listener<F> {
    /// Hands a snapshot to the callback, as a document.
    pub fn deliver(&self, snapshot: &StateSnapshot<'_>)
        requires
            forall|value: serde_json::Value| #[trigger]
                call_requires(self.callback, (value,)),
        ensures
            exists|value: serde_json::Value| #[trigger]
                call_ensures(self.callback, (value,), ()) && holds_state(value, *snapshot)
                    && is_complete(value),
    {
        (self.callback)(snapshot_value(snapshot));
    }
}

/// A listener that starts counting, and its canceller. Snapshots are dumped to the log at
/// `dump_level` if the log takes messages of that level.
///
/// The two of them share one token.
pub fn listener_with_canceller<F>(
    callback: F,
    dump_level: log::Level,
    dump_enabled: bool,
) -> (pair: (Listener<F>, Canceller))
    ensures
        pair.0.callback == callback,
        pair.0.token == pair.1.token,
        pair.0.dump_cfg == if dump_enabled {
            Some(DumpSnapshot { level: dump_level, ticks: 0 })
        } else {
            None
        },
{
    let canceller = Canceller { token: Token::new() };
    let dump_cfg = if dump_enabled {
        Some(DumpSnapshot { level: dump_level, ticks: 0 })
    } else {
        None
    };
    let listener = Listener { callback, token: canceller.token.share(), dump_cfg };
    (listener, canceller)
}

/// Law: a snapshot of a download that goes on is counted, and the count starts over behind its
/// largest value. The callback, the token and the level of dumps are kept.
pub proof fn snapshots_are_counted<F>(listener: Listener<F>)
    ensures
        listener.ticked().callback == listener.callback,
        listener.ticked().token == listener.token,
        listener.dump_cfg is None ==> listener.ticked().dump_cfg is None,
        listener.dump_cfg matches Some(dump) ==> {
            &&& listener.ticked().dump_cfg is Some
            &&& listener.ticked().dump_cfg->0.level == dump.level
            &&& listener.ticked().dump_cfg->0.ticks == (dump.ticks + 1) % (usize::MAX + 1)
        },
{
    if let Some(dump) = listener.dump_cfg {
        if dump.ticks < usize::MAX {
            vstd::arithmetic::div_mod::lemma_small_mod(
                (dump.ticks + 1) as nat,
                (usize::MAX + 1) as nat,
            );
        } else {
            vstd::arithmetic::div_mod::lemma_mod_self_0(usize::MAX + 1);
        }
    }
}

/// Law: a listener dumps at its level if its count is a multiple of ten, and at no other time.
pub proof fn dumps_go_by_the_count<F>(listener: Listener<F>)
    ensures
        listener.dump_due() matches Some(level) ==> {
            &&& listener.dump_cfg is Some
            &&& level == listener.dump_cfg->0.level
            &&& listener.dump_cfg->0.ticks % 10 == 0
        },
        listener.dump_cfg is Some && listener.dump_cfg->0.ticks % 10 == 0
            ==> listener.dump_due() is Some,
{
}

/// Law: the number of holders decides, and nothing else. One holder means that the download
/// stops and the listener is left as it was; any other number means that the snapshot is
/// counted and delivered, with a dump if one is due by then.
pub proof fn holders_decide<F>(
    listener: Listener<F>,
    holders: usize,
    action: SnapshotAction,
    after: Listener<F>,
)
    requires
        listener.decides(holders, action, after),
    ensures
        action is Stop <==> holders == 1,
        holders == 1 ==> after == listener,
        holders != 1 ==> after == listener.ticked(),
        action matches SnapshotAction::Deliver { dump } ==> dump == after.dump_due(),
{
}

/// Law: a listener and its canceller share a token. The listener has the callback that it was
/// given, and dumps at the level that it was given, from the beginning of its count, if the
/// log takes dumps.
pub proof fn pair_is_made_as_asked<F>(
    callback: F,
    dump_level: log::Level,
    dump_enabled: bool,
    pair: (Listener<F>, Canceller),
)
    requires
        call_ensures(listener_with_canceller::<F>, (callback, dump_level, dump_enabled), pair),
    ensures
        pair.0.token == pair.1.token,
        pair.0.callback == callback,
        pair.0.dump_cfg is Some <==> dump_enabled,
        dump_enabled ==> pair.0.dump_cfg->0.level == dump_level && pair.0.dump_cfg->0.ticks == 0,
{
}

/// Law: a call that is told of one holder stops the download and leaves the listener as it
/// was; told of any other number, it counts the snapshot and delivers it.
pub proof fn call_goes_by_the_holders<F>(
    listener: &mut Listener<F>,
    holders: usize,
    action: SnapshotAction,
)
    requires
        call_ensures(Listener::<F>::on_snapshot_held_by, (listener, holders), action),
    ensures
        action is Stop <==> holders == 1,
        action is Stop ==> *final(listener) == *old(listener),
        !(action is Stop) ==> *final(listener) == old(listener).ticked(),
        action matches SnapshotAction::Deliver { dump } ==> dump == final(listener).dump_due(),
{
}

} // verus!
