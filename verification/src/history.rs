//! What becomes of the tasks and of their downloads over time.
//!
//! A download reports for as long as its listener finds others that hold its token, so what
//! happens to the list of tasks bears on all the downloads that were ever launched. The laws
//! here follow the shares in tokens through everything that can happen. That the number which
//! a listener finds is the number of shares that there are is taken as given.
use crate::frame::{FrameActionsView, StartRequestView};
use crate::listener::{Listener, SnapshotAction, Token};
use crate::progress::SnapshotView;
use crate::tasks::{initial_app, torrent_name_of, DownloadTaskView, MtorrentAppView};
use vstd::multiset::Multiset;
use vstd::prelude::*;

verus! {

/// How many of the tasks hold a share in `token`.
pub open spec fn cancellers(tasks: Seq<DownloadTaskView>, token: Token) -> nat
    decreases tasks.len(),
{
    if tasks.len() == 0 {
        0
    } else {
        cancellers(tasks.drop_last(), token) + share_of(tasks.last(), token)
    }
}

/// How many shares in `token` a task holds.
pub open spec fn share_of(task: DownloadTaskView, token: Token) -> nat {
    if task.canceller == Some(token) {
        1
    } else {
        0
    }
}

/// The application together with the listeners of the downloads that it launched.
#[verifier::ext_equal]
pub struct Session {
    pub app: MtorrentAppView,
    /// The shares that the listeners hold.
    pub listeners: Multiset<Token>,
    /// The number of the task that the listener with a token reports to.
    pub reports_to: Map<Token, nat>,
}

/// What can happen.
pub enum Event {
    /// A task is added.
    Add,
    /// A task is removed.
    Remove { index: int },
    /// A task is started. Where it is on the list, `token` is made for it.
    Start {
        index: int,
        uri: Seq<char>,
        output_dir: Seq<u8>,
        torrent_name: Option<Seq<char>>,
        token: Token,
    },
    /// A task is stopped.
    Stop { index: int },
    /// The source of a task is typed in.
    Input { index: int, input: Seq<char> },
    /// Everything is stopped.
    Exit,
    /// The download with `token` reports a snapshot to its listener.
    Report { token: Token, snapshot: SnapshotView },
    /// The download with `token` ends, and its listener is dropped.
    End { token: Token },
}

impl Session {
    /// How many shares in `token` there are.
    pub open spec fn holders(self, token: Token) -> nat {
        self.listeners.count(token) + cancellers(self.app.tasks, token)
    }

    /// The listener with `token` takes the download for cancelled.
    pub open spec fn cancelled(self, token: Token) -> bool {
        self.holders(token) == 1
    }

    /// The event can happen: a new token is one that nobody holds, and only a download that
    /// has a listener reports or ends.
    pub open spec fn possible(self, event: Event) -> bool {
        match event {
            Event::Start { index, token, .. } => 0 <= index < self.app.tasks.len()
                ==> self.holders(token) == 0,
            Event::Report { token, .. } => self.listeners.count(token) > 0,
            Event::End { token } => self.listeners.count(token) > 0,
            _ => true,
        }
    }

    /// After an event.
    pub open spec fn after(self, event: Event) -> Session {
        match event {
            Event::Add => Session { app: self.app.with_new_task(), ..self },
            Event::Remove { index } => Session { app: self.app.with_task_removed(index), ..self },
            Event::Start { index, uri, output_dir, torrent_name, token } => if 0 <= index
                < self.app.tasks.len() {
                Session {
                    app: self.app.with_task_started(index, uri, output_dir, torrent_name, token),
                    listeners: self.listeners.insert(token),
                    reports_to: self.reports_to.insert(token, self.app.tasks[index].id),
                }
            } else {
                self
            },
            Event::Stop { index } => Session { app: self.app.with_task_stopped(index), ..self },
            Event::Input { index, input } => Session {
                app: self.app.with_uri_input(index, input),
                ..self
            },
            Event::Exit => Session { app: self.app.with_all_stopped(), ..self },
            Event::Report { token, snapshot } => if self.cancelled(token) {
                self
            } else {
                Session { app: self.app.with_snapshot(self.reports_to[token], snapshot), ..self }
            },
            Event::End { token } => Session { listeners: self.listeners.remove(token), ..self },
        }
    }

    /// After events, one after the other.
    pub open spec fn after_all(self, events: Seq<Event>) -> Session
        decreases events.len(),
    {
        if events.len() == 0 {
            self
        } else {
            self.after_all(events.drop_last()).after(events.last())
        }
    }

    /// The events can happen one after the other.
    pub open spec fn possible_all(self, events: Seq<Event>) -> bool
        decreases events.len(),
    {
        events.len() > 0 ==> {
            &&& self.possible_all(events.drop_last())
            &&& self.after_all(events.drop_last()).possible(events.last())
        }
    }

    /// The event starts the task with the number `id`.
    pub open spec fn starts(self, event: Event, id: nat) -> bool {
        event matches Event::Start { index, .. } && 0 <= index < self.app.tasks.len()
            && self.app.tasks[index].id == id
    }

    /// One of the events starts the task with the number `id`.
    pub open spec fn starts_in(self, events: Seq<Event>, id: nat) -> bool
        decreases events.len(),
    {
        events.len() > 0 && {
            ||| self.starts_in(events.drop_last(), id)
            ||| self.after_all(events.drop_last()).starts(events.last(), id)
        }
    }

    /// Each token belongs to one listener and one canceller at most, and a download reports
    /// to the task that can cancel it.
    pub open spec fn consistent(self) -> bool {
        &&& self.app.well_formed()
        &&& forall|token: Token| #[trigger] self.listeners.count(token) <= 1
        &&& forall|token: Token| #[trigger] cancellers(self.app.tasks, token) <= 1
        &&& forall|i: int|
            0 <= i < self.app.tasks.len() && (#[trigger] self.app.tasks[i]).downloading()
                ==> self.reports_to[self.app.tasks[i].canceller->0] == self.app.tasks[i].id
    }
}

/// Replacing a task replaces the share that it holds.
proof fn cancellers_after_update(
    tasks: Seq<DownloadTaskView>,
    index: int,
    task: DownloadTaskView,
    token: Token,
)
    requires
        0 <= index < tasks.len(),
    ensures
        cancellers(tasks.update(index, task), token) + share_of(tasks[index], token)
            == cancellers(tasks, token) + share_of(task, token),
    decreases tasks.len(),
{
    let changed = tasks.update(index, task);
    if index == tasks.len() - 1 {
        assert(changed.drop_last() =~= tasks.drop_last());
    } else {
        assert(changed.drop_last() =~= tasks.drop_last().update(index, task));
        cancellers_after_update(tasks.drop_last(), index, task, token);
    }
}

/// Removing a task drops the share that it holds.
proof fn cancellers_after_removal(tasks: Seq<DownloadTaskView>, index: int, token: Token)
    requires
        0 <= index < tasks.len(),
    ensures
        cancellers(tasks.remove(index), token) + share_of(tasks[index], token) == cancellers(
            tasks,
            token,
        ),
    decreases tasks.len(),
{
    let changed = tasks.remove(index);
    if index == tasks.len() - 1 {
        assert(changed =~= tasks.drop_last());
    } else {
        assert(changed.drop_last() =~= tasks.drop_last().remove(index));
        cancellers_after_removal(tasks.drop_last(), index, token);
    }
}

/// Tasks that hold the same shares hold the same number of shares.
proof fn cancellers_agree(a: Seq<DownloadTaskView>, b: Seq<DownloadTaskView>, token: Token)
    requires
        a.len() == b.len(),
        forall|i: int|
            0 <= i < a.len() ==> (#[trigger] a[i]).canceller == (#[trigger] b[i]).canceller,
    ensures
        cancellers(a, token) == cancellers(b, token),
    decreases a.len(),
{
    if a.len() > 0 {
        cancellers_agree(a.drop_last(), b.drop_last(), token);
        assert(a[a.len() - 1].canceller == b[b.len() - 1].canceller);
    }
}

/// Where no task holds a share, the number of shares is zero.
proof fn no_cancellers(tasks: Seq<DownloadTaskView>, token: Token)
    requires
        forall|i: int| 0 <= i < tasks.len() ==> (#[trigger] tasks[i]).canceller != Some(token),
    ensures
        cancellers(tasks, token) == 0,
    decreases tasks.len(),
{
    if tasks.len() > 0 {
        no_cancellers(tasks.drop_last(), token);
        assert(tasks[tasks.len() - 1].canceller != Some(token));
    }
}

/// A task that holds a share is counted.
proof fn canceller_counts(tasks: Seq<DownloadTaskView>, index: int, token: Token)
    requires
        0 <= index < tasks.len(),
        tasks[index].canceller == Some(token),
    ensures
        cancellers(tasks, token) >= 1,
{
    let without = DownloadTaskView { canceller: None, ..tasks[index] };
    cancellers_after_update(tasks, index, without, token);
}

/// Where the number of shares is zero, no task holds a share.
proof fn nobody_cancels(tasks: Seq<DownloadTaskView>, token: Token)
    requires
        cancellers(tasks, token) == 0,
    ensures
        forall|i: int| 0 <= i < tasks.len() ==> (#[trigger] tasks[i]).canceller != Some(token),
{
    assert forall|i: int| 0 <= i < tasks.len() implies (#[trigger] tasks[i]).canceller != Some(
        token,
    ) by {
        if tasks[i].canceller == Some(token) {
            canceller_counts(tasks, i, token);
        }
    }
}

/// Where there are shares among the tasks, one of them holds a share.
proof fn find_canceller(tasks: Seq<DownloadTaskView>, token: Token) -> (index: int)
    requires
        cancellers(tasks, token) > 0,
    ensures
        0 <= index < tasks.len(),
        tasks[index].canceller == Some(token),
    decreases tasks.len(),
{
    if tasks.last().canceller == Some(token) {
        tasks.len() - 1
    } else {
        find_canceller(tasks.drop_last(), token)
    }
}

/// How an event changes the shares that the tasks hold.
proof fn cancellers_after_event(session: Session, event: Event, token: Token)
    ensures
        ({
            let tasks = session.app.tasks;
            let after = cancellers(session.after(event).app.tasks, token) as int;
            let before = cancellers(tasks, token) as int;
            match event {
                Event::Remove { index } => after == if 0 <= index < tasks.len() {
                    before - share_of(tasks[index], token)
                } else {
                    before
                },
                Event::Start { index, token: started, .. } => after == if 0 <= index
                    < tasks.len() {
                    before - share_of(tasks[index], token) + if started == token {
                        1int
                    } else {
                        0
                    }
                } else {
                    before
                },
                Event::Stop { index } => after == if 0 <= index < tasks.len() {
                    before - share_of(tasks[index], token)
                } else {
                    before
                },
                Event::Exit => after == 0,
                _ => after == before,
            }
        }),
{
    let tasks = session.app.tasks;
    let changed = session.after(event).app.tasks;
    match event {
        Event::Add => {
            assert(changed.drop_last() =~= tasks);
        },
        Event::Remove { index } => {
            if 0 <= index < tasks.len() {
                cancellers_after_removal(tasks, index, token);
            }
        },
        Event::Start { index, .. } => {
            if 0 <= index < tasks.len() {
                cancellers_after_update(tasks, index, changed[index], token);
            }
        },
        Event::Stop { index } => {
            if 0 <= index < tasks.len() {
                cancellers_after_update(tasks, index, changed[index], token);
            }
        },
        Event::Input { index, .. } => {
            if 0 <= index < tasks.len() {
                cancellers_after_update(tasks, index, changed[index], token);
            }
        },
        Event::Exit => {
            no_cancellers(changed, token);
        },
        Event::Report { .. } => {
            cancellers_agree(changed, tasks, token);
        },
        Event::End { .. } => {},
    }
}

/// Law: whatever happens, each token belongs to one listener and one canceller at most, and
/// a download reports to the task that can cancel it.
pub proof fn events_keep_consistency(session: Session, event: Event)
    requires
        session.consistent(),
        session.possible(event),
    ensures
        session.after(event).consistent(),
{
    let tasks = session.app.tasks;
    let changed = session.after(event);
    assert forall|token: Token| #[trigger] cancellers(changed.app.tasks, token) <= 1 by {
        cancellers_after_event(session, event, token);
        assert(cancellers(tasks, token) <= 1);
    }
    assert forall|token: Token| #[trigger] changed.listeners.count(token) <= 1 by {
        assert(session.listeners.count(token) <= 1);
    }
    if let Event::Start { index, token, .. } = event {
        if 0 <= index < tasks.len() {
            nobody_cancels(tasks, token);
        }
    }
}

/// Law: the application at its start, without downloads, is consistent.
pub proof fn beginning_is_consistent(session: Session, cli_arg: Option<Seq<char>>)
    requires
        session.app == initial_app(
            session.app.peer_id,
            session.app.local_data_dir,
            cli_arg,
            session.app.net_if,
        ),
        session.listeners == Multiset::<Token>::empty(),
    ensures
        session.consistent(),
{
    assert forall|token: Token| #[trigger] cancellers(session.app.tasks, token) <= 1 by {
        no_cancellers(session.app.tasks, token);
    }
}

/// Law: consistency lasts.
pub proof fn consistency_lasts(session: Session, events: Seq<Event>)
    requires
        session.consistent(),
        session.possible_all(events),
    ensures
        session.after_all(events).consistent(),
    decreases events.len(),
{
    if events.len() > 0 {
        consistency_lasts(session, events.drop_last());
        events_keep_consistency(session.after_all(events.drop_last()), events.last());
    }
}

/// Law: if a listener counts the shares that there are, it stops its download if and only if
/// no task holds the canceller any more. Otherwise the one task that holds it is the one that
/// the download reports to.
pub proof fn listener_stops_iff_its_canceller_is_dropped<F>(
    session: Session,
    listener: Listener<F>,
    holders: usize,
    action: SnapshotAction,
    after: Listener<F>,
)
    requires
        session.consistent(),
        session.listeners.count(listener.token) > 0,
        holders == session.holders(listener.token),
        listener.decides(holders, action, after),
    ensures
        action is Stop <==> session.cancelled(listener.token),
        action is Stop <==> forall|i: int|
            0 <= i < session.app.tasks.len() ==> (#[trigger] session.app.tasks[i]).canceller
                != Some(listener.token),
        action is Stop ==> after == listener,
        !(action is Stop) ==> {
            &&& after == listener.ticked()
            &&& exists|i: int|
                0 <= i < session.app.tasks.len() && (#[trigger] session.app.tasks[i]).canceller
                    == Some(listener.token) && session.app.tasks[i].id
                    == session.reports_to[listener.token]
        },
        after.token == listener.token,
{
    let token = listener.token;
    let tasks = session.app.tasks;
    assert(session.listeners.count(token) <= 1);
    assert(cancellers(tasks, token) <= 1);
    if cancellers(tasks, token) > 0 {
        let index = find_canceller(tasks, token);
        assert(tasks[index].downloading());
        assert(tasks[index].canceller == Some(token));
    } else {
        nobody_cancels(tasks, token);
    }
}

/// Law: of the downloads that report to a task, at most one is not cancelled.
pub proof fn one_download_per_task(session: Session, one: Token, other: Token)
    requires
        session.consistent(),
        session.listeners.count(one) > 0,
        session.listeners.count(other) > 0,
        !session.cancelled(one),
        !session.cancelled(other),
        session.reports_to[one] == session.reports_to[other],
    ensures
        one == other,
{
    let tasks = session.app.tasks;
    assert(session.listeners.count(one) <= 1 && session.listeners.count(other) <= 1);
    let i = find_canceller(tasks, one);
    let j = find_canceller(tasks, other);
    assert(tasks[i].downloading() && tasks[j].downloading());
    assert(tasks[i].id == tasks[j].id);
}

/// Law: cancellation is permanent. Whatever happens to the tasks and to other downloads, a
/// download that was cancelled stays so until its listener is dropped.
pub proof fn cancellation_is_permanent(session: Session, events: Seq<Event>, token: Token)
    requires
        session.consistent(),
        session.possible_all(events),
        session.listeners.count(token) > 0,
        session.cancelled(token),
        forall|k: int|
            0 <= k < events.len() ==> #[trigger] events[k] != (Event::End { token }),
    ensures
        session.after_all(events).listeners.count(token) > 0,
        session.after_all(events).cancelled(token),
    decreases events.len(),
{
    if events.len() > 0 {
        let front = events.drop_last();
        let before = session.after_all(front);
        assert forall|k: int| 0 <= k < front.len() implies #[trigger] front[k] != (Event::End {
            token,
        }) by {
            assert(front[k] == events[k]);
        }
        cancellation_is_permanent(session, front, token);
        consistency_lasts(session, front);
        assert(events[events.len() - 1] != (Event::End { token }));
        assert(before.listeners.count(token) <= 1);
        cancellers_after_event(before, events.last(), token);
    }
}

/// Law: stopping or removing a task cancels its download.
pub proof fn stopping_cancels_the_download(session: Session, index: int, token: Token)
    requires
        session.consistent(),
        0 <= index < session.app.tasks.len(),
        session.app.tasks[index].canceller == Some(token),
        session.listeners.count(token) > 0,
    ensures
        !session.cancelled(token),
        session.after(Event::Stop { index }).cancelled(token),
        session.after(Event::Remove { index }).cancelled(token),
        session.after(Event::Exit).cancelled(token),
{
    canceller_counts(session.app.tasks, index, token);
    assert(session.listeners.count(token) <= 1);
    assert(cancellers(session.app.tasks, token) <= 1);
    cancellers_after_event(session, Event::Stop { index }, token);
    cancellers_after_event(session, Event::Remove { index }, token);
    cancellers_after_event(session, Event::Exit, token);
}

/// Law: starting a task that is downloading cancels the download that it had, and the new
/// download is not cancelled.
pub proof fn restart_cancels_the_earlier_download(session: Session, event: Event, earlier: Token)
    requires
        session.consistent(),
        session.possible(event),
        event matches Event::Start { index, .. } && 0 <= index < session.app.tasks.len()
            && session.app.tasks[index].canceller == Some(earlier),
        session.listeners.count(earlier) > 0,
    ensures
        session.after(event).cancelled(earlier),
        session.after(event).listeners.count(event->Start_token) > 0,
        !session.after(event).cancelled(event->Start_token),
{
    let index = event->Start_index;
    let token = event->Start_token;
    canceller_counts(session.app.tasks, index, earlier);
    assert(session.listeners.count(earlier) <= 1);
    assert(cancellers(session.app.tasks, earlier) <= 1);
    cancellers_after_event(session, event, earlier);
    cancellers_after_event(session, event, token);
}

/// The event is about the download with `token`: it makes, cancels or ends it.
pub open spec fn concerns(session: Session, event: Event, token: Token) -> bool {
    let tasks = session.app.tasks;
    match event {
        Event::Remove { index } => 0 <= index < tasks.len() && tasks[index].canceller == Some(
            token,
        ),
        Event::Start { index, token: started, .. } => 0 <= index < tasks.len() && (started == token
            || tasks[index].canceller == Some(token)),
        Event::Stop { index } => 0 <= index < tasks.len() && tasks[index].canceller == Some(token),
        Event::Exit => true,
        Event::End { token: ended } => ended == token,
        _ => false,
    }
}

/// Law: downloads are independent. What is about other downloads neither cancels a download
/// nor takes its cancellation back.
pub proof fn downloads_are_independent(session: Session, event: Event, token: Token)
    requires
        !concerns(session, event, token),
    ensures
        session.after(event).holders(token) == session.holders(token),
{
    cancellers_after_event(session, event, token);
}

/// Law: a task that was stopped keeps its progress, and says `Stopped`, until it is started
/// again: no download that it had reports to it any more.
pub proof fn stopped_task_stays_stopped(
    session: Session,
    events: Seq<Event>,
    index: int,
    later: int,
)
    requires
        session.consistent(),
        session.possible_all(events),
        0 <= index < session.app.tasks.len(),
        !session.app.tasks[index].downloading(),
        session.app.tasks[index].progress.status == "Stopped"@,
        !session.starts_in(events, session.app.tasks[index].id),
        0 <= later < session.after_all(events).app.tasks.len(),
        session.after_all(events).app.tasks[later].id == session.app.tasks[index].id,
    ensures
        session.after_all(events).app.tasks[later].progress == session.app.tasks[index].progress,
        !session.after_all(events).app.tasks[later].downloading(),
{
    stays_stopped(session, events, session.app.tasks[index]);
}

/// The number of the task is given out, and the task, if it is still on the list, is stopped.
spec fn is_stopped(session: Session, task: DownloadTaskView) -> bool {
    &&& task.id < session.app.next_id
    &&& forall|i: int|
        0 <= i < session.app.tasks.len() && (#[trigger] session.app.tasks[i]).id == task.id ==> {
            &&& session.app.tasks[i].progress == task.progress
            &&& !session.app.tasks[i].downloading()
        }
}

proof fn stays_stopped(session: Session, events: Seq<Event>, task: DownloadTaskView)
    requires
        session.consistent(),
        session.possible_all(events),
        is_stopped(session, task),
        task.progress.status == "Stopped"@,
        !session.starts_in(events, task.id),
    ensures
        is_stopped(session.after_all(events), task),
    decreases events.len(),
{
    if events.len() > 0 {
        let front = events.drop_last();
        let event = events.last();
        let before = session.after_all(front);
        stays_stopped(session, front, task);
        consistency_lasts(session, front);
        let tasks = before.app.tasks;
        if let Event::Report { token, .. } = event {
            if !before.cancelled(token) && before.reports_to[token] == task.id {
                assert(before.listeners.count(token) <= 1);
                let i = find_canceller(tasks, token);
                assert(tasks[i].downloading());
                assert(false);
            }
        }
    }
}

/// The starts that a frame asks for, of a list of `count` tasks. Each task that is on the list
/// takes the next of the tokens.
pub open spec fn start_events(
    count: nat,
    requests: Seq<StartRequestView>,
    tokens: Seq<Token>,
) -> Seq<Event>
    decreases requests.len(),
{
    if requests.len() == 0 {
        Seq::empty()
    } else {
        let request = requests.last();
        if request.index < count {
            start_events(count, requests.drop_last(), tokens.drop_last()).push(
                Event::Start {
                    index: request.index as int,
                    uri: request.uri,
                    output_dir: request.output_dir,
                    torrent_name: torrent_name_of(request.uri),
                    token: tokens.last(),
                },
            )
        } else {
            start_events(count, requests.drop_last(), tokens)
        }
    }
}

/// The events of a frame.
pub open spec fn frame_events(
    app: MtorrentAppView,
    actions: FrameActionsView,
    tokens: Seq<Token>,
) -> Seq<Event> {
    let removal = match actions.task_to_remove {
        Some(index) => seq![Event::Remove { index: index as int }],
        None => Seq::empty(),
    };
    let count = app.after_removal(actions.task_to_remove).tasks.len();
    removal + start_events(count, actions.tasks_to_start, tokens)
        + actions.tasks_to_stop.map_values(|index: usize| Event::Stop { index: index as int })
}

/// Events in two parts.
proof fn events_in_parts(session: Session, first: Seq<Event>, second: Seq<Event>)
    ensures
        session.after_all(first + second) == session.after_all(first).after_all(second),
        session.possible_all(first + second) <==> session.possible_all(first)
            && session.after_all(first).possible_all(second),
    decreases second.len(),
{
    if second.len() == 0 {
        assert(first + second =~= first);
    } else {
        assert((first + second).drop_last() =~= first + second.drop_last());
        events_in_parts(session, first, second.drop_last());
    }
}

/// The starts of a frame can happen, and give the list that the frame gives.
proof fn starts_happen(session: Session, requests: Seq<StartRequestView>, tokens: Seq<Token>)
    requires
        tokens.len() == session.app.launched(requests).len(),
        tokens.no_duplicates(),
        forall|k: int| 0 <= k < tokens.len() ==> session.holders(#[trigger] tokens[k]) == 0,
    ensures
        ({
            let events = start_events(session.app.tasks.len(), requests, tokens);
            &&& session.possible_all(events)
            &&& session.after_all(events).app == session.app.after_starts(requests, tokens)
            &&& session.after_all(events).app.tasks.len() == session.app.tasks.len()
            &&& forall|token: Token|
                session.holders(token) == 0 && !tokens.contains(token)
                    ==> #[trigger] session.after_all(events).holders(token) == 0
        }),
    decreases requests.len(),
{
    reveal(Seq::filter);
    let count = session.app.tasks.len();
    let events = start_events(count, requests, tokens);
    if requests.len() > 0 {
        let front = requests.drop_last();
        if requests.last().index < count {
            let fewer = tokens.drop_last();
            assert(session.app.launched(requests) == session.app.launched(front).push(
                requests.last(),
            ));
            assert forall|k: int| 0 <= k < fewer.len() implies session.holders(
                #[trigger] fewer[k],
            ) == 0 by {
                assert(fewer[k] == tokens[k]);
            }
            starts_happen(session, front, fewer);
            let earlier = start_events(count, front, fewer);
            let before = session.after_all(earlier);
            assert(events.drop_last() =~= earlier);
            assert(session.holders(tokens[tokens.len() - 1]) == 0);
            assert(before.holders(tokens.last()) == 0);
            assert forall|token: Token|
                session.holders(token) == 0 && !tokens.contains(token) implies
                #[trigger] session.after_all(events).holders(token) == 0 by {
                assert(tokens.contains(tokens.last()));
                assert(!fewer.contains(token)) by {
                    if fewer.contains(token) {
                        let k = choose|k: int| 0 <= k < fewer.len() && fewer[k] == token;
                        assert(tokens[k] == token);
                    }
                }
                assert(before.holders(token) == 0);
                cancellers_after_event(before, events.last(), token);
            }
        } else {
            starts_happen(session, front, tokens);
        }
    }
}

/// The stops of a frame can happen, and give the list that the frame gives.
proof fn stops_happen(session: Session, indices: Seq<usize>)
    ensures
        ({
            let events = indices.map_values(|index: usize| Event::Stop { index: index as int });
            &&& session.possible_all(events)
            &&& session.after_all(events).app == session.app.after_stops(indices)
        }),
    decreases indices.len(),
{
    let events = indices.map_values(|index: usize| Event::Stop { index: index as int });
    if indices.len() > 0 {
        stops_happen(session, indices.drop_last());
        assert(events.drop_last() =~= indices.drop_last().map_values(
            |index: usize| Event::Stop { index: index as int },
        ));
    }
}

/// Law: what a frame does, with tokens that nobody holds yet, is a number of events one after
/// the other. So what holds of all events holds of frames.
pub proof fn frame_is_made_of_events(
    session: Session,
    actions: FrameActionsView,
    tokens: Seq<Token>,
)
    requires
        tokens.len() == session.app.after_removal(actions.task_to_remove).launched(
            actions.tasks_to_start,
        ).len(),
        tokens.no_duplicates(),
        forall|k: int| 0 <= k < tokens.len() ==> session.holders(#[trigger] tokens[k]) == 0,
    ensures
        session.possible_all(frame_events(session.app, actions, tokens)),
        session.after_all(frame_events(session.app, actions, tokens)).app
            == session.app.after_frame(actions, tokens),
{
    let removal = match actions.task_to_remove {
        Some(index) => seq![Event::Remove { index: index as int }],
        None => Seq::empty(),
    };
    let removed = session.after_all(removal);
    assert(removed.app == session.app.after_removal(actions.task_to_remove)
        && session.possible_all(removal) && removed.listeners == session.listeners) by {
        assert(removal.len() > 0 ==> removal.drop_last() =~= Seq::<Event>::empty());
        reveal_with_fuel(Session::after_all, 2);
        reveal_with_fuel(Session::possible_all, 2);
    }
    assert forall|k: int| 0 <= k < tokens.len() implies removed.holders(
        #[trigger] tokens[k],
    ) == 0 by {
        assert(session.holders(tokens[k]) == 0);
        if let Some(index) = actions.task_to_remove {
            cancellers_after_event(session, Event::Remove { index: index as int }, tokens[k]);
        }
    }
    let starts = start_events(removed.app.tasks.len(), actions.tasks_to_start, tokens);
    starts_happen(removed, actions.tasks_to_start, tokens);
    events_in_parts(session, removal, starts);
    let stops = actions.tasks_to_stop.map_values(
        |index: usize| Event::Stop { index: index as int },
    );
    stops_happen(session.after_all(removal + starts), actions.tasks_to_stop);
    events_in_parts(session, removal + starts, stops);
}

} // verus!
