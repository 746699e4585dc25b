//! One frame of the window: what it shows of the tasks, and what the user asks for in it.
use crate::decimal::{decimal, decimal_is_injective, push_decimal};
use crate::double::Double;
use crate::listener::Token;
use crate::paths::path_bytes;
use crate::percent::{percent, percent_chars, percent_parts, percent_text};
use crate::progress::{
    DownloadProgress, DownloadProgressView, PeerInfo, PeerInfoView,
};
use crate::sizes::{kib_chars, size_chars};
use crate::tasks::{
    fresh_dump, initial_app, torrent_name_of, DownloadOrder, DownloadTask, DownloadTaskView,
    MtorrentApp, MtorrentAppView,
};
use std::path::PathBuf;
use vstd::prelude::*;

verus! {

/// A row of the table of peers.
#[derive(Debug)]
pub struct PeerRow {
    pub addr: String,
    pub client: String,
    pub origin: String,
    pub downloaded: String,
    pub uploaded: String,
}

/// What a [`PeerRow`] holds.
#[verifier::ext_equal]
pub struct PeerRowView {
    pub addr: Seq<char>,
    pub client: Seq<char>,
    pub origin: Seq<char>,
    pub downloaded: Seq<char>,
    pub uploaded: Seq<char>,
}

impl View for PeerRow {
    type V = PeerRowView;

    open spec fn view(&self) -> PeerRowView {
        PeerRowView {
            addr: self.addr@,
            client: self.client@,
            origin: self.origin@,
            downloaded: self.downloaded@,
            uploaded: self.uploaded@,
        }
    }
}

/// How a peer is shown in the table.
pub open spec fn peer_row_of(peer: PeerInfoView) -> PeerRowView {
    PeerRowView {
        addr: peer.addr,
        client: peer.client,
        origin: peer.origin,
        downloaded: size_chars(peer.downloaded as nat),
        uploaded: size_chars(peer.uploaded as nat),
    }
}

/// What is shown of one task.
#[derive(Debug)]
pub struct TaskRow {
    pub heading: String,
    pub uri_input: String,
    pub is_downloading: bool,
    pub share: Double,
    pub share_text: String,
    pub status_line: String,
    pub peers_table: String,
    pub peers: Vec<PeerRow>,
}

/// What a [`TaskRow`] holds.
#[verifier::ext_equal]
pub struct TaskRowView {
    pub heading: Seq<char>,
    pub uri_input: Seq<char>,
    pub is_downloading: bool,
    pub share: (nat, nat),
    pub share_text: Seq<char>,
    pub status_line: Seq<char>,
    pub peers_table: Seq<char>,
    pub peers: Seq<PeerRowView>,
}

impl View for TaskRow {
    type V = TaskRowView;

    open spec fn view(&self) -> TaskRowView {
        TaskRowView {
            heading: self.heading@,
            uri_input: self.uri_input@,
            is_downloading: self.is_downloading,
            share: (self.share.significand as nat, self.share.scale as nat),
            share_text: self.share_text@,
            status_line: self.status_line@,
            peers_table: self.peers_table@,
            peers: self.peers@.map_values(|peer: PeerRow| peer@),
        }
    }
}

/// The line that sums up the progress of a download.
pub open spec fn status_line_of(progress: DownloadProgressView) -> Seq<char> {
    "Status: "@ + progress.status + " | Downloaded: "@ + size_chars(
        progress.downloaded_bytes as nat,
    ) + " / "@ + size_chars(progress.total_bytes as nat) + " ("@ + kib_chars(
        progress.downloaded_bytes as nat,
    ) + ")"@
}

/// What is shown of the task at `index`.
pub open spec fn task_row_of(index: nat, task: DownloadTaskView) -> TaskRowView {
    let share = percent_parts(
        task.progress.downloaded_bytes as nat,
        task.progress.total_bytes as nat,
    );
    TaskRowView {
        heading: task.name,
        uri_input: task.new_uri_input,
        is_downloading: task.downloading(),
        share,
        share_text: percent_chars(share.0, share.1),
        status_line: status_line_of(task.progress),
        peers_table: "peers_table_"@ + decimal(index),
        peers: task.progress.peers.map_values(|peer: PeerInfoView| peer_row_of(peer)),
    }
}

fn status_line(progress: &DownloadProgress) -> (line: String)
    ensures
        line@ == status_line_of(progress@),
{
    let mut line = "Status: ".to_string();
    line.append(progress.status.as_str());
    line.append(" | Downloaded: ");
    line.append(MtorrentApp::format_bytes(progress.downloaded_bytes).as_str());
    line.append(" / ");
    line.append(MtorrentApp::format_bytes(progress.total_bytes).as_str());
    line.append(" (");
    line.append(MtorrentApp::format_bytes_kib(progress.downloaded_bytes).as_str());
    line.append(")");
    line
}

fn peer_rows(peers: &Vec<PeerInfo>) -> (rows: Vec<PeerRow>)
    ensures
        rows@.len() == peers@.len(),
        rows@.map_values(|row: PeerRow| row@) == peers@.map_values(
            |peer: PeerInfo| peer@,
        ).map_values(|peer: PeerInfoView| peer_row_of(peer)),
{
    let mut rows: Vec<PeerRow> = Vec::new();
    let mut i: usize = 0;
    while i < peers.len()
        invariant
            i <= peers@.len(),
            rows@.len() == i,
            forall|j: int|
                #![trigger rows@[j]]
                0 <= j < i ==> rows@[j]@ == peer_row_of(peers@[j]@),
        decreases peers@.len() - i,
    {
        let peer = &peers[i];
        rows.push(
            PeerRow {
                addr: peer.addr.clone(),
                client: peer.client.clone(),
                origin: peer.origin.clone(),
                downloaded: MtorrentApp::format_bytes(peer.downloaded),
                uploaded: MtorrentApp::format_bytes(peer.uploaded),
            },
        );
        i = i + 1;
    }
    assert(rows@.map_values(|row: PeerRow| row@) =~= peers@.map_values(
        |peer: PeerInfo| peer@,
    ).map_values(|peer: PeerInfoView| peer_row_of(peer)));
    rows
}

fn task_row(index: usize, task: &DownloadTask) -> (row: TaskRow)
    ensures
        row@ == task_row_of(index as nat, task@),
        row.heading@ == task.name@,
        row.uri_input@ == task.new_uri_input@,
        row.is_downloading == task.canceller is Some,
        row.peers@.len() == task.progress.peers@.len(),
{
    let progress = &task.progress;
    let mut peers_table = "peers_table_".to_string();
    push_decimal(&mut peers_table, index as u64);
    let row = TaskRow {
        heading: task.name.clone(),
        uri_input: task.new_uri_input.clone(),
        is_downloading: task.canceller.is_some(),
        share: percent(progress.downloaded_bytes, progress.total_bytes),
        share_text: percent_text(progress.downloaded_bytes, progress.total_bytes),
        status_line: status_line(progress),
        peers_table,
        peers: peer_rows(&progress.peers),
    };
    assert(row@ =~= task_row_of(index as nat, task@));
    row
}

impl TaskRow {
    /// Whether a click on the button that selects a torrent file opens a dialog: not while
    /// the task is downloading.
    pub fn asks_for_file(&self, clicked: bool) -> (opens: bool)
        ensures
            opens == (clicked && !self@.is_downloading),
    {
        clicked && !self.is_downloading
    }

    /// Whether the task has a button that starts it; it has one that stops it otherwise.
    pub fn can_start(&self) -> (startable: bool)
        ensures
            startable == !self@.is_downloading,
    {
        !self.is_downloading
    }

    /// Whether a click on the button that starts the task opens a dialog for the output
    /// directory: only if there is something to download.
    pub fn asks_for_folder(&self, clicked: bool, input: &str) -> (opens: bool)
        ensures
            opens == (!self@.is_downloading && clicked && input@.len() > 0),
    {
        !self.is_downloading && clicked && !input.is_empty()
    }

    /// Whether the table of peers is shown.
    pub fn shows_peers(&self) -> (shown: bool)
        ensures
            shown == (self@.peers.len() > 0),
    {
        !self.peers.is_empty()
    }
}

/// A task that the user wants to start.
#[derive(Debug)]
pub struct StartRequest {
    pub index: usize,
    pub uri: String,
    pub output_dir: PathBuf,
}

/// What a [`StartRequest`] holds.
pub struct StartRequestView {
    pub index: nat,
    pub uri: Seq<char>,
    pub output_dir: Seq<u8>,
}

impl View for StartRequest {
    type V = StartRequestView;

    open spec fn view(&self) -> StartRequestView {
        StartRequestView {
            index: self.index as nat,
            uri: self.uri@,
            output_dir: path_bytes(self.output_dir),
        }
    }
}

/// What the user asks for in a frame. The indices are those of the frame.
#[derive(Debug)]
pub struct FrameActions {
    pub task_to_remove: Option<usize>,
    pub tasks_to_start: Vec<StartRequest>,
    pub tasks_to_stop: Vec<usize>,
}

/// What a [`FrameActions`] holds.
#[verifier::ext_equal]
pub struct FrameActionsView {
    pub task_to_remove: Option<usize>,
    pub tasks_to_start: Seq<StartRequestView>,
    pub tasks_to_stop: Seq<usize>,
}

impl View for FrameActions {
    type V = FrameActionsView;

    open spec fn view(&self) -> FrameActionsView {
        FrameActionsView {
            task_to_remove: self.task_to_remove,
            tasks_to_start: self.tasks_to_start@.map_values(|request: StartRequest| request@),
            tasks_to_stop: self.tasks_to_stop@,
        }
    }
}

/// Nothing is asked for.
pub open spec fn no_actions() -> FrameActionsView {
    FrameActionsView {
        task_to_remove: None,
        tasks_to_start: Seq::empty(),
        tasks_to_stop: Seq::empty(),
    }
}

impl FrameActions {
    /// Nothing is asked for yet.
    pub fn new() -> (actions: FrameActions)
        ensures
            actions@ == no_actions(),
    {
        let actions = FrameActions {
            task_to_remove: None,
            tasks_to_start: Vec::new(),
            tasks_to_stop: Vec::new(),
        };
        assert(actions@ =~= no_actions());
        actions
    }

    /// The task is to be removed. Only one task is removed per frame, the last that was
    /// asked for.
    pub fn remove(&mut self, index: usize)
        ensures
            final(self)@ == (FrameActionsView { task_to_remove: Some(index), ..old(self)@ }),
    {
        self.task_to_remove = Some(index);
    }

    /// The task is to be started, if an output directory was chosen.
    pub fn start(&mut self, index: usize, uri: String, output_dir: Option<PathBuf>)
        ensures
            final(self)@ == match output_dir {
                Some(folder) => FrameActionsView {
                    tasks_to_start: old(self)@.tasks_to_start.push(
                        StartRequestView {
                            index: index as nat,
                            uri: uri@,
                            output_dir: path_bytes(folder),
                        },
                    ),
                    ..old(self)@
                },
                None => old(self)@,
            },
    {
        if let Some(folder) = output_dir {
            self.tasks_to_start.push(StartRequest { index, uri, output_dir: folder });
            assert(self@.tasks_to_start =~= old(self)@.tasks_to_start.push(
                StartRequestView { index: index as nat, uri: uri@, output_dir: path_bytes(folder) },
            ));
        }
    }

    /// The task is to be stopped.
    pub fn stop(&mut self, index: usize)
        ensures
            final(self)@ == (FrameActionsView {
                tasks_to_stop: old(self)@.tasks_to_stop.push(index),
                ..old(self)@
            }),
    {
        self.tasks_to_stop.push(index);
    }
}

impl MtorrentAppView {
    /// After the removal that a frame asks for.
    pub open spec fn after_removal(self, task_to_remove: Option<usize>) -> MtorrentAppView {
        match task_to_remove {
            Some(index) => self.with_task_removed(index as int),
            None => self,
        }
    }

    /// After tasks were started one after the other. Each task that is on the list takes the
    /// next of the tokens.
    pub open spec fn after_starts(
        self,
        requests: Seq<StartRequestView>,
        tokens: Seq<Token>,
    ) -> MtorrentAppView
        decreases requests.len(),
    {
        if requests.len() == 0 {
            self
        } else {
            let request = requests.last();
            if request.index < self.tasks.len() {
                self.after_starts(requests.drop_last(), tokens.drop_last()).with_task_started(
                    request.index as int,
                    request.uri,
                    request.output_dir,
                    torrent_name_of(request.uri),
                    tokens.last(),
                )
            } else {
                self.after_starts(requests.drop_last(), tokens)
            }
        }
    }

    /// After tasks were stopped one after the other.
    pub open spec fn after_stops(self, indices: Seq<usize>) -> MtorrentAppView
        decreases indices.len(),
    {
        if indices.len() == 0 {
            self
        } else {
            self.after_stops(indices.drop_last()).with_task_stopped(indices.last() as int)
        }
    }

    /// After a frame: first a task is removed, then tasks are started, then tasks are
    /// stopped, each by its index in the list as it is by then. The tokens are those of the
    /// downloads to launch.
    pub open spec fn after_frame(
        self,
        actions: FrameActionsView,
        tokens: Seq<Token>,
    ) -> MtorrentAppView {
        self.after_removal(actions.task_to_remove).after_starts(
            actions.tasks_to_start,
            tokens,
        ).after_stops(actions.tasks_to_stop)
    }

    /// The requests for tasks that are on the list.
    pub open spec fn launched(self, requests: Seq<StartRequestView>) -> Seq<StartRequestView> {
        requests.filter(|request: StartRequestView| request.index < self.tasks.len())
    }
}

/// The tokens that the listeners of the downloads hold.
pub open spec fn launch_tokens<F>(orders: Seq<DownloadOrder<F>>) -> Seq<Token> {
    orders.map_values(|order: DownloadOrder<F>| order.listener.token)
}

/// Starting tasks keeps everything that an order to download is made from.
proof fn starts_keep(
    app: MtorrentAppView,
    requests: Seq<StartRequestView>,
    tokens: Seq<Token>,
)
    ensures
        app.after_starts(requests, tokens).tasks.len() == app.tasks.len(),
        app.after_starts(requests, tokens).peer_id == app.peer_id,
        app.after_starts(requests, tokens).local_data_dir == app.local_data_dir,
        app.after_starts(requests, tokens).net_if == app.net_if,
        app.after_starts(requests, tokens).next_id == app.next_id,
        app.after_starts(requests, tokens).cli_arg == app.cli_arg,
        forall|i: int|
            0 <= i < app.tasks.len() ==> (#[trigger] app.after_starts(
                requests,
                tokens,
            ).tasks[i]).id == app.tasks[i].id,
    decreases requests.len(),
{
    if requests.len() > 0 {
        if requests.last().index < app.tasks.len() {
            starts_keep(app, requests.drop_last(), tokens.drop_last());
        } else {
            starts_keep(app, requests.drop_last(), tokens);
        }
    }
}

impl MtorrentApp {
    /// What is shown of the tasks.
    pub fn rows(&self) -> (rows: Vec<TaskRow>)
        ensures
            rows@.len() == self@.tasks.len(),
            forall|i: int|
                #![trigger rows@[i]]
                0 <= i < rows@.len() ==> rows@[i]@ == task_row_of(i as nat, self@.tasks[i]),
            forall|i: int|
                #![trigger rows@[i]]
                0 <= i < rows@.len() ==> {
                    let task = self.active_downloads@[i];
                    &&& rows@[i].heading@ == task.name@
                    &&& rows@[i].uri_input@ == task.new_uri_input@
                    &&& rows@[i].is_downloading == task.canceller is Some
                    &&& rows@[i].peers@.len() == task.progress.peers@.len()
                },
    {
        let mut rows: Vec<TaskRow> = Vec::new();
        let mut index: usize = 0;
        while index < self.active_downloads.len()
            invariant
                index <= self.active_downloads@.len(),
                rows@.len() == index,
                forall|i: int|
                    #![trigger rows@[i]]
                    0 <= i < index ==> rows@[i]@ == task_row_of(i as nat, self@.tasks[i]),
                forall|i: int|
                    #![trigger rows@[i]]
                    0 <= i < index ==> {
                        let task = self.active_downloads@[i];
                        &&& rows@[i].heading@ == task.name@
                        &&& rows@[i].uri_input@ == task.new_uri_input@
                        &&& rows@[i].is_downloading == task.canceller is Some
                        &&& rows@[i].peers@.len() == task.progress.peers@.len()
                    },
            decreases self.active_downloads@.len() - index,
        {
            rows.push(task_row(index, &self.active_downloads[index]));
            index = index + 1;
        }
        rows
    }

    /// Does what the user asked for in a frame, and returns the downloads to launch, in the
    /// order in which they were asked for.
    pub fn update<F, M: Fn(usize) -> F>(
        &mut self,
        actions: &FrameActions,
        make_callback: &M,
        dump_level: log::Level,
        dump_enabled: bool,
    ) -> (orders: Vec<DownloadOrder<F>>)
        requires
            forall|id: usize| #[trigger] call_requires(*make_callback, (id,)),
        ensures
            final(self)@ == old(self)@.after_frame(actions@, launch_tokens(orders@)),
            old(self)@.well_formed() ==> final(self)@.well_formed(),
            ({
                let app = old(self)@.after_removal(actions@.task_to_remove);
                let launched = app.launched(actions@.tasks_to_start);
                &&& orders@.len() == launched.len()
                &&& forall|i: int|
                    #![trigger orders@[i]]
                    0 <= i < orders@.len() ==> orders@[i].is_for(
                        app,
                        app.tasks[launched[i].index as int].id,
                        launched[i].uri,
                        launched[i].output_dir,
                        *make_callback,
                    ) && orders@[i].listener.dump_cfg == fresh_dump(dump_level, dump_enabled)
            }),
    {
        if let Some(index) = actions.task_to_remove {
            self.remove_task(index);
        }
        let ghost app = self@;
        let ghost requests = actions@.tasks_to_start;
        let ghost wanted = |request: StartRequestView| request.index < app.tasks.len();
        let mut orders: Vec<DownloadOrder<F>> = Vec::new();
        let mut i: usize = 0;
        proof {
            assert(requests.take(0) =~= Seq::empty());
            assert(requests.take(0).filter(wanted) =~= Seq::empty()) by {
                reveal(Seq::filter);
            }
        }
        while i < actions.tasks_to_start.len()
            invariant
                i <= actions.tasks_to_start@.len(),
                requests == actions@.tasks_to_start,
                wanted == (|request: StartRequestView| request.index < app.tasks.len()),
                forall|id: usize| #[trigger] call_requires(*make_callback, (id,)),
                self@ == app.after_starts(requests.take(i as int), launch_tokens(orders@)),
                old(self)@.well_formed() ==> self@.well_formed(),
                orders@.len() == requests.take(i as int).filter(wanted).len(),
                forall|j: int|
                    #![trigger orders@[j]]
                    0 <= j < orders@.len() ==> {
                        let request = requests.take(i as int).filter(wanted)[j];
                        &&& orders@[j].is_for(
                            app,
                            app.tasks[request.index as int].id,
                            request.uri,
                            request.output_dir,
                            *make_callback,
                        )
                        &&& orders@[j].listener.dump_cfg == fresh_dump(dump_level, dump_enabled)
                    },
            decreases actions.tasks_to_start@.len() - i,
        {
            let request = &actions.tasks_to_start[i];
            let ghost before = launch_tokens(orders@);
            proof {
                starts_keep(app, requests.take(i as int), launch_tokens(orders@));
                reveal(Seq::filter);
                assert(requests.take(i + 1).drop_last() =~= requests.take(i as int));
                assert(requests.take(i + 1).last() == request@);
            }
            match self.start_download(
                request.index,
                request.uri.clone(),
                request.output_dir.clone(),
                make_callback,
                dump_level,
                dump_enabled,
            ) {
                Some(order) => {
                    orders.push(order);
                    assert(launch_tokens(orders@).drop_last() =~= before);
                },
                None => {},
            }
            i = i + 1;
        }
        assert(requests.take(requests.len() as int) =~= requests);
        let ghost started = self@;
        let ghost stops = actions@.tasks_to_stop;
        let mut i: usize = 0;
        assert(stops.take(0) =~= Seq::empty());
        while i < actions.tasks_to_stop.len()
            invariant
                i <= actions.tasks_to_stop@.len(),
                stops == actions.tasks_to_stop@,
                self@ == started.after_stops(stops.take(i as int)),
                old(self)@.well_formed() ==> self@.well_formed(),
            decreases actions.tasks_to_stop@.len() - i,
        {
            self.stop_download(actions.tasks_to_stop[i]);
            assert(stops.take(i + 1).drop_last() =~= stops.take(i as int));
            i = i + 1;
        }
        assert(stops.take(stops.len() as int) =~= stops);
        orders
    }
}

/// Stopping tasks changes neither how many there are nor their numbers, and what was
/// stopped is not downloading.
proof fn stops_keep(app: MtorrentAppView, indices: Seq<usize>)
    ensures
        app.after_stops(indices).tasks.len() == app.tasks.len(),
        app.after_stops(indices).next_id == app.next_id,
        forall|i: int|
            0 <= i < app.tasks.len() ==> (#[trigger] app.after_stops(indices).tasks[i]).id
                == app.tasks[i].id,
        forall|i: int|
            #![trigger app.after_stops(indices).tasks[i]]
            0 <= i < app.tasks.len() && indices.contains(i as usize) && i <= usize::MAX
                ==> !app.after_stops(indices).tasks[i].downloading(),
    decreases indices.len(),
{
    if indices.len() > 0 {
        let front = indices.drop_last();
        stops_keep(app, front);
        assert forall|i: int|
            #![trigger app.after_stops(indices).tasks[i]]
            0 <= i < app.tasks.len() && indices.contains(i as usize) && i <= usize::MAX
            implies !app.after_stops(indices).tasks[i].downloading() by {
            if indices.last() != i {
                let k = choose|k: int| 0 <= k < indices.len() && indices[k] == i as usize;
                assert(front[k] == i as usize);
                assert(front.contains(i as usize));
            }
            assert(app.after_stops(front).tasks[i].id == app.tasks[i].id);
        }
    }
}

/// Stopping tasks leaves the others as they are.
proof fn stops_spare(app: MtorrentAppView, indices: Seq<usize>, i: int)
    requires
        0 <= i < app.tasks.len(),
        forall|j: int| 0 <= j < indices.len() ==> #[trigger] indices[j] != i,
    ensures
        app.after_stops(indices).tasks[i] == app.tasks[i],
    decreases indices.len(),
{
    if indices.len() > 0 {
        assert forall|j: int| 0 <= j < indices.drop_last().len() implies
            #[trigger] indices.drop_last()[j] != i by {
            assert(indices.drop_last()[j] == indices[j]);
        }
        stops_spare(app, indices.drop_last(), i);
        stops_keep(app, indices.drop_last());
        assert(indices[indices.len() - 1] != i);
    }
}

/// Starting tasks leaves the others as they are.
proof fn starts_spare(
    app: MtorrentAppView,
    requests: Seq<StartRequestView>,
    tokens: Seq<Token>,
    i: int,
)
    requires
        0 <= i < app.tasks.len(),
        forall|j: int| 0 <= j < requests.len() ==> (#[trigger] requests[j]).index != i,
    ensures
        app.after_starts(requests, tokens).tasks[i] == app.tasks[i],
    decreases requests.len(),
{
    if requests.len() > 0 {
        let front = requests.drop_last();
        assert forall|j: int| 0 <= j < front.len() implies (#[trigger] front[j]).index != i by {
            assert(front[j] == requests[j]);
        }
        assert(requests[requests.len() - 1].index != i);
        if requests.last().index < app.tasks.len() {
            starts_spare(app, front, tokens.drop_last(), i);
            starts_keep(app, front, tokens.drop_last());
        } else {
            starts_spare(app, front, tokens, i);
        }
    }
}

/// A task holds the token of the last start that was asked for it.
proof fn starts_hold(
    app: MtorrentAppView,
    requests: Seq<StartRequestView>,
    tokens: Seq<Token>,
    k: int,
)
    requires
        tokens.len() == app.launched(requests).len(),
        0 <= k < tokens.len(),
        forall|j: int|
            k < j < tokens.len() ==> (#[trigger] app.launched(requests)[j]).index
                != app.launched(requests)[k].index,
    ensures
        app.launched(requests)[k].index < app.tasks.len(),
        app.after_starts(requests, tokens).tasks[app.launched(requests)[k].index as int].canceller
            == Some(tokens[k]),
    decreases requests.len(),
{
    reveal(Seq::filter);
    let launched = app.launched(requests);
    if requests.len() > 0 {
        let front = requests.drop_last();
        let earlier = app.launched(front);
        if requests.last().index < app.tasks.len() {
            assert(launched == earlier.push(requests.last()));
            starts_keep(app, front, tokens.drop_last());
            if k < earlier.len() {
                assert forall|j: int| k < j < earlier.len() implies (#[trigger] earlier[j]).index
                    != earlier[k].index by {
                    assert(earlier[j] == launched[j]);
                }
                assert(launched[earlier.len() as int].index != launched[k].index);
                starts_hold(app, front, tokens.drop_last(), k);
            }
        } else {
            starts_hold(app, front, tokens, k);
        }
    }
}

/// Law: a frame in which nothing is asked for changes nothing.
pub proof fn quiet_frame_changes_nothing(app: MtorrentAppView)
    ensures
        app.after_frame(no_actions(), Seq::empty()) == app,
{
}

/// Law: a frame removes at most one task, and only if asked to; it adds none and uses up no
/// task number.
pub proof fn frame_removes_at_most_one(
    app: MtorrentAppView,
    actions: FrameActionsView,
    tokens: Seq<Token>,
)
    ensures
        app.after_frame(actions, tokens).next_id == app.next_id,
        app.after_frame(actions, tokens).tasks.len() == match actions.task_to_remove {
            Some(index) => if index < app.tasks.len() {
                app.tasks.len() - 1
            } else {
                app.tasks.len() as int
            },
            None => app.tasks.len() as int,
        },
{
    let removed = app.after_removal(actions.task_to_remove);
    starts_keep(removed, actions.tasks_to_start, tokens);
    stops_keep(removed.after_starts(actions.tasks_to_start, tokens), actions.tasks_to_stop);
}

/// Law: a task that a frame asks to stop is not downloading afterwards, even if the frame
/// asks to start it as well.
pub proof fn stopping_wins(
    app: MtorrentAppView,
    actions: FrameActionsView,
    tokens: Seq<Token>,
    index: usize,
)
    requires
        actions.tasks_to_stop.contains(index),
        index < app.after_frame(actions, tokens).tasks.len(),
    ensures
        !app.after_frame(actions, tokens).tasks[index as int].downloading(),
{
    let removed = app.after_removal(actions.task_to_remove);
    let started = removed.after_starts(actions.tasks_to_start, tokens);
    stops_keep(started, actions.tasks_to_stop);
    assert(index as int as usize == index);
}

/// Law: the tasks that remain keep their numbers and their order; those behind a removed
/// task move up by one.
pub proof fn remaining_tasks_move_up(
    app: MtorrentAppView,
    actions: FrameActionsView,
    tokens: Seq<Token>,
    i: int,
)
    requires
        0 <= i < app.after_frame(actions, tokens).tasks.len(),
    ensures
        app.after_frame(actions, tokens).tasks[i].id == app.tasks[match actions.task_to_remove {
            Some(index) => if index < app.tasks.len() && index <= i {
                i + 1
            } else {
                i
            },
            None => i,
        }].id,
{
    let removed = app.after_removal(actions.task_to_remove);
    let started = removed.after_starts(actions.tasks_to_start, tokens);
    starts_keep(removed, actions.tasks_to_start, tokens);
    stops_keep(started, actions.tasks_to_stop);
    assert(started.tasks[i].id == removed.tasks[i].id);
}

/// Law: a task that a frame asks neither to remove, nor to start, nor to stop is as it was,
/// and holds the token that it held.
pub proof fn other_tasks_pass_a_frame(
    app: MtorrentAppView,
    actions: FrameActionsView,
    tokens: Seq<Token>,
    i: int,
)
    requires
        0 <= i < app.after_frame(actions, tokens).tasks.len(),
        forall|j: int|
            0 <= j < actions.tasks_to_start.len() ==> (
            #[trigger] actions.tasks_to_start[j]).index != i,
        forall|j: int|
            0 <= j < actions.tasks_to_stop.len() ==> #[trigger] actions.tasks_to_stop[j] != i,
    ensures
        app.after_frame(actions, tokens).tasks[i] == app.tasks[match actions.task_to_remove {
            Some(index) => if index < app.tasks.len() && index <= i {
                i + 1
            } else {
                i
            },
            None => i,
        }],
{
    let removed = app.after_removal(actions.task_to_remove);
    let started = removed.after_starts(actions.tasks_to_start, tokens);
    starts_keep(removed, actions.tasks_to_start, tokens);
    stops_keep(started, actions.tasks_to_stop);
    starts_spare(removed, actions.tasks_to_start, tokens, i);
    stops_spare(started, actions.tasks_to_stop, i);
}

/// Law: a task that a frame starts shares the token of the download that is launched for it,
/// unless the same frame starts it once more or stops it.
pub proof fn started_task_shares_the_token(
    app: MtorrentAppView,
    actions: FrameActionsView,
    tokens: Seq<Token>,
    k: int,
)
    requires
        ({
            let launched = app.after_removal(actions.task_to_remove).launched(
                actions.tasks_to_start,
            );
            &&& tokens.len() == launched.len()
            &&& 0 <= k < launched.len()
            &&& forall|j: int|
                k < j < launched.len() ==> (#[trigger] launched[j]).index != launched[k].index
            &&& forall|j: int|
                0 <= j < actions.tasks_to_stop.len() ==> #[trigger] actions.tasks_to_stop[j]
                    != launched[k].index
        }),
    ensures
        ({
            let launched = app.after_removal(actions.task_to_remove).launched(
                actions.tasks_to_start,
            );
            app.after_frame(actions, tokens).tasks[launched[k].index as int].canceller == Some(
                tokens[k],
            )
        }),
{
    let removed = app.after_removal(actions.task_to_remove);
    let started = removed.after_starts(actions.tasks_to_start, tokens);
    let index = removed.launched(actions.tasks_to_start)[k].index as int;
    starts_keep(removed, actions.tasks_to_start, tokens);
    starts_hold(removed, actions.tasks_to_start, tokens, k);
    stops_spare(started, actions.tasks_to_stop, index);
}

/// Law: what a row is seen as is what its fields hold.
pub proof fn row_shows_its_fields(row: TaskRow, i: int)
    ensures
        row@.heading == row.heading@,
        row@.uri_input == row.uri_input@,
        row@.is_downloading == row.is_downloading,
        row@.share == (row.share.significand as nat, row.share.scale as nat),
        row@.share_text == row.share_text@,
        row@.status_line == row.status_line@,
        row@.peers_table == row.peers_table@,
        row@.peers.len() == row.peers@.len(),
        0 <= i < row.peers@.len() ==> {
            let shown = row@.peers[i];
            let peer = row.peers@[i];
            &&& shown.addr == peer.addr@
            &&& shown.client == peer.client@
            &&& shown.origin == peer.origin@
            &&& shown.downloaded == peer.downloaded@
            &&& shown.uploaded == peer.uploaded@
        },
{
}

/// Law: what the requests of a frame are seen as is what their fields hold.
pub proof fn actions_show_their_fields(actions: FrameActions, i: int)
    ensures
        actions@.task_to_remove == actions.task_to_remove,
        actions@.tasks_to_stop == actions.tasks_to_stop@,
        actions@.tasks_to_start.len() == actions.tasks_to_start@.len(),
        0 <= i < actions.tasks_to_start@.len() ==> {
            let shown = actions@.tasks_to_start[i];
            let request = actions.tasks_to_start@[i];
            &&& shown.index == request.index
            &&& shown.uri == request.uri@
            &&& shown.output_dir == path_bytes(request.output_dir)
        },
        no_actions().task_to_remove is None,
        no_actions().tasks_to_start.len() == 0,
        no_actions().tasks_to_stop.len() == 0,
{
}

/// Law: the row of a task has the name of the task as its heading, and what is typed in for
/// the task as its source. The task is shown as downloading if and only if it can be
/// cancelled. The share is that of what is downloaded in the total, as a value and as text.
pub proof fn row_tells_of_the_task(index: nat, task: DownloadTaskView)
    ensures
        task_row_of(index, task).heading == task.name,
        task_row_of(index, task).uri_input == task.new_uri_input,
        task_row_of(index, task).is_downloading <==> task.canceller is Some,
        task_row_of(index, task).share == percent_parts(
            task.progress.downloaded_bytes as nat,
            task.progress.total_bytes as nat,
        ),
        task_row_of(index, task).share_text == percent_chars(
            task_row_of(index, task).share.0,
            task_row_of(index, task).share.1,
        ),
{
}

/// Law: what was typed in for a task, or given on the command line, is what the row of the
/// task shows as its source, whatever the task was started with before.
pub proof fn typed_source_is_shown(
    app: MtorrentAppView,
    index: int,
    input: Seq<char>,
    peer_id: Seq<u8>,
    local_data_dir: Seq<u8>,
    net_if: Option<Seq<char>>,
)
    ensures
        0 <= index < app.tasks.len() ==> task_row_of(
            index as nat,
            app.with_uri_input(index, input).tasks[index],
        ).uri_input == input,
        task_row_of(
            0,
            initial_app(peer_id, local_data_dir, Some(input), net_if).tasks[0],
        ).uri_input == input,
{
}

/// Law: a task that was started and stopped is shown under the name of its torrent, and what
/// was typed in for it is still there.
pub proof fn stopped_task_is_shown_under_its_name(
    app: MtorrentAppView,
    index: int,
    uri: Seq<char>,
    output_dir: Seq<u8>,
    name: Seq<char>,
    token: Token,
)
    requires
        0 <= index < app.tasks.len(),
    ensures
        ({
            let stopped = app.with_task_started(
                index,
                uri,
                output_dir,
                Some(name),
                token,
            ).with_task_stopped(index);
            let row = task_row_of(index as nat, stopped.tasks[index]);
            &&& row.heading == name
            &&& row.uri_input == app.tasks[index].new_uri_input
            &&& !row.is_downloading
        }),
{
}

/// Law: the table of peers has one line for each peer, in the order of the peers, with the
/// address, the client, the origin, what was downloaded from the peer and what was uploaded
/// to it.
pub proof fn row_tells_of_each_peer(index: nat, task: DownloadTaskView, i: int)
    ensures
        task_row_of(index, task).peers.len() == task.progress.peers.len(),
        0 <= i < task.progress.peers.len() ==> {
            let line = task_row_of(index, task).peers[i];
            let peer = task.progress.peers[i];
            &&& line.addr == peer.addr
            &&& line.client == peer.client
            &&& line.origin == peer.origin
            &&& line.downloaded == size_chars(peer.downloaded as nat)
            &&& line.uploaded == size_chars(peer.uploaded as nat)
        },
{
}

/// Law: no two rows have tables of peers with the same name, whatever tasks they show.
pub proof fn tables_have_distinct_names(
    one: nat,
    one_task: DownloadTaskView,
    other: nat,
    other_task: DownloadTaskView,
)
    requires
        task_row_of(one, one_task).peers_table == task_row_of(other, other_task).peers_table,
    ensures
        one == other,
        task_row_of(one, one_task).peers_table == "peers_table_"@ + decimal(one),
{
    let prefix = "peers_table_"@;
    let table = task_row_of(one, one_task).peers_table;
    assert(table.skip(prefix.len() as int) =~= decimal(one));
    assert(table.skip(prefix.len() as int) =~= decimal(other));
    decimal_is_injective(one, other);
}

/// Law: the line below the share begins with the status, whatever that is. Behind it stand
/// what is downloaded, the total, and what is downloaded in KiB, and these depend on the
/// counters alone.
pub proof fn line_tells_status_and_amounts(index: nat, task: DownloadTaskView)
    ensures
        ({
            let line = task_row_of(index, task).status_line;
            let status = task.progress.status;
            let downloaded = size_chars(task.progress.downloaded_bytes as nat);
            let total = size_chars(task.progress.total_bytes as nat);
            let kib = kib_chars(task.progress.downloaded_bytes as nat);
            let amounts = line.skip(8 + status.len() as int);
            &&& line.len() >= 8 + status.len()
            &&& line.take(8) == "Status: "@
            &&& line.subrange(8, 8 + status.len() as int) == status
            &&& amounts == " | Downloaded: "@ + downloaded + " / "@ + total + " ("@ + kib + ")"@
        }),
{
    reveal_strlit("Status: ");
    let line = task_row_of(index, task).status_line;
    let status = task.progress.status;
    let downloaded = size_chars(task.progress.downloaded_bytes as nat);
    let total = size_chars(task.progress.total_bytes as nat);
    let kib = kib_chars(task.progress.downloaded_bytes as nat);
    let amounts = " | Downloaded: "@ + downloaded + " / "@ + total + " ("@ + kib + ")"@;
    assert(line =~= "Status: "@ + status + amounts);
    assert(line.take(8) =~= "Status: "@);
    assert(line.subrange(8, 8 + status.len() as int) =~= status);
    assert(line.skip(8 + status.len() as int) =~= amounts);
}

/// Law: one request more is one launch more, behind the others, if its task is on the list,
/// and none otherwise; without requests nothing is launched.
pub proof fn requests_are_launched_in_order(
    app: MtorrentAppView,
    requests: Seq<StartRequestView>,
    request: StartRequestView,
)
    ensures
        app.launched(Seq::empty()).len() == 0,
        request.index < app.tasks.len() ==> app.launched(requests.push(request)) == app.launched(
            requests,
        ).push(request),
        request.index >= app.tasks.len() ==> app.launched(requests.push(request)) == app.launched(
            requests,
        ),
{
    reveal(Seq::filter);
    assert(requests.push(request).drop_last() =~= requests);
}

/// Law: the tokens of downloads are those that their listeners hold, one for one.
pub proof fn tokens_are_those_of_the_listeners<F>(orders: Seq<DownloadOrder<F>>, i: int)
    ensures
        launch_tokens(orders).len() == orders.len(),
        0 <= i < orders.len() ==> launch_tokens(orders)[i] == orders[i].listener.token,
{
}

/// Law: a frame that asks for a removal alone is that removal.
pub proof fn frame_with_a_removal(app: MtorrentAppView, index: usize)
    ensures
        app.after_frame(
            FrameActionsView {
                task_to_remove: Some(index),
                tasks_to_start: Seq::empty(),
                tasks_to_stop: Seq::empty(),
            },
            Seq::empty(),
        ) == app.with_task_removed(index as int),
{
}

/// Law: what a frame asks to stop last is stopped last, on the list as it is by then.
pub proof fn frame_with_one_stop_more(
    app: MtorrentAppView,
    actions: FrameActionsView,
    tokens: Seq<Token>,
    index: usize,
)
    ensures
        app.after_frame(
            FrameActionsView {
                tasks_to_stop: actions.tasks_to_stop.push(index),
                ..actions
            },
            tokens,
        ) == app.after_frame(actions, tokens).with_task_stopped(index as int),
{
    assert(actions.tasks_to_stop.push(index).drop_last() =~= actions.tasks_to_stop);
}

/// Law: what a frame asks to start last is started behind the removal and the other starts,
/// on the list as it is by then, with the last of the tokens; a task that is not on the list
/// takes none.
pub proof fn frame_with_one_start_more(
    app: MtorrentAppView,
    actions: FrameActionsView,
    tokens: Seq<Token>,
    request: StartRequestView,
    token: Token,
)
    requires
        actions.tasks_to_stop.len() == 0,
    ensures
        ({
            let more = FrameActionsView {
                tasks_to_start: actions.tasks_to_start.push(request),
                ..actions
            };
            let before = app.after_frame(actions, tokens);
            &&& request.index < before.tasks.len() ==> app.after_frame(more, tokens.push(token))
                == before.with_task_started(
                request.index as int,
                request.uri,
                request.output_dir,
                torrent_name_of(request.uri),
                token,
            )
            &&& request.index >= before.tasks.len() ==> app.after_frame(more, tokens) == before
        }),
{
    assert(actions.tasks_to_start.push(request).drop_last() =~= actions.tasks_to_start);
    assert(tokens.push(token).drop_last() =~= tokens);
    starts_keep(
        app.after_removal(actions.task_to_remove),
        actions.tasks_to_start,
        tokens,
    );
}

/// Law: while a task is downloading, no click opens a dialog for it, and it cannot be started.
/// Otherwise a click on the button that selects a file opens a dialog, and one on the button
/// that starts the task opens one if something is typed in. Nothing opens without a click.
pub proof fn dialogs_open_for_idle_tasks(
    row: TaskRow,
    clicked: bool,
    input: &str,
    file: bool,
    folder: bool,
    startable: bool,
)
    requires
        call_ensures(TaskRow::asks_for_file, (&row, clicked), file),
        call_ensures(TaskRow::asks_for_folder, (&row, clicked, input), folder),
        call_ensures(TaskRow::can_start, (&row,), startable),
    ensures
        row.is_downloading ==> !file && !folder && !startable,
        !row.is_downloading ==> startable,
        !row.is_downloading ==> file == clicked,
        !row.is_downloading && input@.len() > 0 ==> folder == clicked,
        input@.len() == 0 ==> !folder,
        !clicked ==> !file && !folder,
{
}

/// Law: the table of peers is shown if there is a peer to show.
pub proof fn table_is_shown_for_peers(row: TaskRow, shown: bool)
    requires
        call_ensures(TaskRow::shows_peers, (&row,), shown),
    ensures
        shown <==> row.peers@.len() > 0,
{
}

/// Law: the rows are those of the tasks on the list, one for one and in the same order.
pub proof fn rows_are_those_of_the_tasks(app: MtorrentApp, rows: Vec<TaskRow>, i: int)
    requires
        call_ensures(MtorrentApp::rows, (&app,), rows),
    ensures
        rows@.len() == app.active_downloads@.len(),
        0 <= i < rows@.len() ==> {
            let task = app.active_downloads@[i];
            &&& rows@[i]@ == task_row_of(i as nat, task@)
            &&& rows@[i].heading@ == task.name@
            &&& rows@[i].uri_input@ == task.new_uri_input@
            &&& rows@[i].is_downloading <==> task.canceller is Some
        },
{
    if 0 <= i < rows@.len() {
        assert(rows@[i]@ == task_row_of(i as nat, app@.tasks[i]));
    }
}

/// Law: the removal that was asked for last counts, and nothing else that was asked for is
/// touched.
pub proof fn last_removal_counts(actions: &mut FrameActions, index: usize)
    requires
        call_ensures(FrameActions::remove, (actions, index), ()),
    ensures
        final(actions)@.task_to_remove == Some(index),
        final(actions)@.tasks_to_start == old(actions)@.tasks_to_start,
        final(actions)@.tasks_to_stop == old(actions)@.tasks_to_stop,
{
}

/// Law: a start is asked for behind the others, with the source and the directory that were
/// given, if a directory was chosen. Nothing else that was asked for is touched.
pub proof fn start_is_asked_for_with_a_folder(
    actions: &mut FrameActions,
    index: usize,
    uri: String,
    output_dir: Option<PathBuf>,
    i: int,
)
    requires
        call_ensures(FrameActions::start, (actions, index, uri, output_dir), ()),
    ensures
        ({
            let before = old(actions)@.tasks_to_start;
            let after = final(actions)@.tasks_to_start;
            &&& 0 <= i < before.len() ==> after[i] == before[i]
            &&& output_dir is None ==> after == before
            &&& output_dir matches Some(folder) ==> {
                &&& after.len() == before.len() + 1
                &&& after.last().index == index
                &&& after.last().uri == uri@
                &&& after.last().output_dir == path_bytes(folder)
            }
        }),
        final(actions)@.task_to_remove == old(actions)@.task_to_remove,
        final(actions)@.tasks_to_stop == old(actions)@.tasks_to_stop,
{
}

/// Law: a stop is asked for behind the others, and nothing else that was asked for is touched.
pub proof fn stop_is_asked_for(actions: &mut FrameActions, index: usize, i: int)
    requires
        call_ensures(FrameActions::stop, (actions, index), ()),
    ensures
        final(actions)@.tasks_to_stop.len() == old(actions)@.tasks_to_stop.len() + 1,
        final(actions)@.tasks_to_stop.last() == index,
        0 <= i < old(actions)@.tasks_to_stop.len() ==> final(actions)@.tasks_to_stop[i]
            == old(actions)@.tasks_to_stop[i],
        final(actions)@.task_to_remove == old(actions)@.task_to_remove,
        final(actions)@.tasks_to_start == old(actions)@.tasks_to_start,
{
}

/// Law: what a call types in for a task is what the row of the task shows from then on.
pub proof fn row_shows_what_was_typed_in(
    app: &mut MtorrentApp,
    index: usize,
    input: String,
    rows: Vec<TaskRow>,
)
    requires
        call_ensures(MtorrentApp::set_uri_input, (app, index, input), ()),
        call_ensures(MtorrentApp::rows, (&*final(app),), rows),
        index < old(app).active_downloads@.len(),
    ensures
        index < rows@.len(),
        rows@[index as int].uri_input@ == input@,
{
    rows_are_those_of_the_tasks(*final(app), rows, index as int);
}

/// Law: a call for a frame launches one download for each request whose task is on the list
/// once the removal is done, in the order of the requests, with the source and the directory
/// of the request. A task that the frame starts once and does not stop holds the token of its
/// download afterwards.
pub proof fn call_launches_what_was_asked_for<F, M: Fn(usize) -> F>(
    app: &mut MtorrentApp,
    actions: FrameActions,
    make_callback: M,
    dump_level: log::Level,
    dump_enabled: bool,
    orders: Vec<DownloadOrder<F>>,
    k: int,
)
    requires
        call_ensures(
            MtorrentApp::update::<F, M>,
            (app, &actions, &make_callback, dump_level, dump_enabled),
            orders,
        ),
        0 <= k < orders@.len(),
    ensures
        ({
            let removed = old(app)@.after_removal(actions.task_to_remove);
            let launched = removed.launched(actions@.tasks_to_start);
            let request = launched[k];
            &&& orders@.len() == launched.len()
            &&& orders@[k].metainfo_uri@ == request.uri
            &&& path_bytes(orders@[k].config.output_dir) == request.output_dir
            &&& orders@[k].config.local_peer_id@ == removed.peer_id
            &&& (forall|j: int|
                k < j < launched.len() ==> (#[trigger] launched[j]).index != request.index) && (
            forall|j: int|
                0 <= j < actions.tasks_to_stop@.len() ==> #[trigger] actions.tasks_to_stop@[j]
                    != request.index) ==> final(app)@.tasks[request.index as int].canceller == Some(
                orders@[k].listener.token,
            )
        }),
{
    let removed = old(app)@.after_removal(actions.task_to_remove);
    let launched = removed.launched(actions@.tasks_to_start);
    let request = launched[k];
    let tokens = launch_tokens(orders@);
    assert(orders@[k].is_for(
        removed,
        removed.tasks[request.index as int].id,
        request.uri,
        request.output_dir,
        make_callback,
    ));
    assert(orders@[k].config@.output_dir == request.output_dir);
    if (forall|j: int|
        k < j < launched.len() ==> (#[trigger] launched[j]).index != request.index) && (
    forall|j: int|
        0 <= j < actions.tasks_to_stop@.len() ==> #[trigger] actions.tasks_to_stop@[j]
            != request.index) {
        started_task_shares_the_token(old(app)@, actions@, tokens, k);
    }
}

} // verus!
