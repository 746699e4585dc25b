//! The list of download tasks.
use crate::decimal::{decimal, push_decimal};
use crate::listener::{listener_with_canceller, Canceller, DumpSnapshot, Listener, Token};
use crate::paths::path_bytes;
use crate::progress::{
    idle_progress, optional_chars, DownloadProgress, DownloadProgressView, SnapshotView,
};
use crate::snapshot::snapshot_of;
use std::path::PathBuf;
use vstd::prelude::*;

verus! {

/// Whether ports are mapped through UPnP.
pub const UPNP_ENABLED: bool = true;

/// One entry of the task list.
pub struct DownloadTask {
    pub id: usize,
    pub uri: String,
    pub name: String,
    pub output_dir: PathBuf,
    pub canceller: Option<Canceller>,
    pub progress: DownloadProgress,
    pub new_uri_input: String,
}

/// What a [`DownloadTask`] holds.
#[verifier::ext_equal]
pub struct DownloadTaskView {
    pub id: nat,
    pub uri: Seq<char>,
    pub name: Seq<char>,
    pub output_dir: Seq<u8>,
    pub canceller: Option<Token>,
    pub progress: DownloadProgressView,
    pub new_uri_input: Seq<char>,
}

impl View for DownloadTask {
    type V = DownloadTaskView;

    open spec fn view(&self) -> DownloadTaskView {
        DownloadTaskView {
            id: self.id as nat,
            uri: self.uri@,
            name: self.name@,
            output_dir: path_bytes(self.output_dir),
            canceller: match self.canceller {
                Some(canceller) => Some(canceller.token),
                None => None,
            },
            progress: self.progress@,
            new_uri_input: self.new_uri_input@,
        }
    }
}

/// A task that has not been started yet.
pub open spec fn new_task(id: nat) -> DownloadTaskView {
    DownloadTaskView {
        id,
        uri: Seq::empty(),
        name: "Task "@ + decimal(id),
        output_dir: Seq::empty(),
        canceller: None,
        progress: idle_progress(),
        new_uri_input: Seq::empty(),
    }
}

impl DownloadTaskView {
    /// The task after it was stopped.
    pub open spec fn stopped(self) -> DownloadTaskView {
        DownloadTaskView {
            canceller: None,
            progress: self.progress.with_status("Stopped"@),
            ..self
        }
    }

    /// A download runs for the task, which can be cancelled.
    pub open spec fn downloading(self) -> bool {
        self.canceller is Some
    }

    /// The task after it was started, with a share in `token` to keep its download running. It
    /// is named after the torrent, or, where the torrent has no name, after its number.
    pub open spec fn started(
        self,
        uri: Seq<char>,
        output_dir: Seq<u8>,
        torrent_name: Option<Seq<char>>,
        token: Token,
    ) -> DownloadTaskView {
        DownloadTaskView {
            uri,
            output_dir,
            name: match torrent_name {
                Some(name) => name,
                None => "Download "@ + decimal(self.id),
            },
            canceller: Some(token),
            progress: self.progress.with_status("Loading..."@),
            ..self
        }
    }

    /// The task after a snapshot of its download.
    pub open spec fn after(self, snapshot: SnapshotView) -> DownloadTaskView {
        DownloadTaskView { progress: self.progress.after(snapshot), ..self }
    }
}

/// The state of the application that does not depend on its runtimes.
pub struct MtorrentApp {
    pub peer_id: [u8; 20],
    pub local_data_dir: PathBuf,
    pub active_downloads: Vec<DownloadTask>,
    pub next_id: usize,
    pub cli_arg: Option<String>,
    pub net_if: Option<String>,
}

/// What a [`MtorrentApp`] holds.
#[verifier::ext_equal]
pub struct MtorrentAppView {
    pub peer_id: Seq<u8>,
    pub local_data_dir: Seq<u8>,
    pub tasks: Seq<DownloadTaskView>,
    pub next_id: nat,
    pub cli_arg: Option<Seq<char>>,
    pub net_if: Option<Seq<char>>,
}

impl View for MtorrentApp {
    type V = MtorrentAppView;

    open spec fn view(&self) -> MtorrentAppView {
        MtorrentAppView {
            peer_id: self.peer_id@,
            local_data_dir: path_bytes(self.local_data_dir),
            tasks: self.active_downloads@.map_values(|task: DownloadTask| task@),
            next_id: self.next_id as nat,
            cli_arg: optional_chars(self.cli_arg),
            net_if: optional_chars(self.net_if),
        }
    }
}

impl MtorrentAppView {
    /// Task numbers grow along the list, and all that were given out are below the next.
    pub open spec fn well_formed(self) -> bool {
        &&& self.next_id >= 1
        &&& forall|i: int|
            0 <= i < self.tasks.len() ==> 1 <= (#[trigger] self.tasks[i]).id < self.next_id
        &&& forall|i: int, j: int|
            0 <= i < j < self.tasks.len() ==> (#[trigger] self.tasks[i]).id < (
            #[trigger] self.tasks[j]).id
    }

    /// With task `index` replaced.
    pub open spec fn with_task(self, index: int, task: DownloadTaskView) -> MtorrentAppView {
        MtorrentAppView { tasks: self.tasks.update(index, task), ..self }
    }

    /// With one more task at the end.
    pub open spec fn with_new_task(self) -> MtorrentAppView {
        MtorrentAppView {
            tasks: self.tasks.push(new_task(self.next_id)),
            next_id: self.next_id + 1,
            ..self
        }
    }

    /// Without task `index`; unchanged if there is no such task.
    pub open spec fn with_task_removed(self, index: int) -> MtorrentAppView {
        if 0 <= index < self.tasks.len() {
            MtorrentAppView { tasks: self.tasks.remove(index), ..self }
        } else {
            self
        }
    }

    /// With task `index` stopped; unchanged if there is no such task.
    pub open spec fn with_task_stopped(self, index: int) -> MtorrentAppView {
        if 0 <= index < self.tasks.len() {
            self.with_task(index, self.tasks[index].stopped())
        } else {
            self
        }
    }

    /// With task `index` started; unchanged if there is no such task.
    pub open spec fn with_task_started(
        self,
        index: int,
        uri: Seq<char>,
        output_dir: Seq<u8>,
        torrent_name: Option<Seq<char>>,
        token: Token,
    ) -> MtorrentAppView {
        if 0 <= index < self.tasks.len() {
            self.with_task(index, self.tasks[index].started(uri, output_dir, torrent_name, token))
        } else {
            self
        }
    }

    /// With all tasks stopped.
    pub open spec fn with_all_stopped(self) -> MtorrentAppView {
        MtorrentAppView {
            tasks: self.tasks.map_values(|task: DownloadTaskView| task.stopped()),
            ..self
        }
    }

    /// With `input` typed in as the source of task `index`; unchanged if there is no such
    /// task.
    pub open spec fn with_uri_input(self, index: int, input: Seq<char>) -> MtorrentAppView {
        if 0 <= index < self.tasks.len() {
            self.with_task(
                index,
                DownloadTaskView { new_uri_input: input, ..self.tasks[index] },
            )
        } else {
            self
        }
    }

    /// With a snapshot taken over by the task that has the number `id`, if there is one.
    pub open spec fn with_snapshot(self, id: nat, snapshot: SnapshotView) -> MtorrentAppView {
        MtorrentAppView {
            tasks: self.tasks.map_values(
                |task: DownloadTaskView|
                    if task.id == id {
                        task.after(snapshot)
                    } else {
                        task
                    },
            ),
            ..self
        }
    }
}

impl MtorrentApp {
    /// Adds a task at the end of the list.
    pub fn add_new_task(&mut self)
        requires
            old(self).next_id < usize::MAX,
        ensures
            final(self)@ == old(self)@.with_new_task(),
            old(self)@.well_formed() ==> final(self)@.well_formed(),
    {
        let id: usize = self.next_id;
        self.next_id = self.next_id + 1;
        let mut name = "Task ".to_string();
        push_decimal(&mut name, id as u64);
        let task = DownloadTask {
            id,
            uri: String::new(),
            name,
            output_dir: PathBuf::new(),
            canceller: None,
            progress: DownloadProgress::default(),
            new_uri_input: String::new(),
        };
        assert(task@ =~= new_task(id as nat));
        self.active_downloads.push(task);
        assert(self@.tasks =~= old(self)@.with_new_task().tasks);
    }

    /// Stops a download; does nothing if there is no such task.
    pub fn stop_download(&mut self, index: usize)
        ensures
            final(self)@ == old(self)@.with_task_stopped(index as int),
            old(self)@.well_formed() ==> final(self)@.well_formed(),
            final(self).active_downloads@.len() == old(self).active_downloads@.len(),
            index < old(self).active_downloads@.len() ==> {
                let task = final(self).active_downloads@[index as int];
                let before = old(self).active_downloads@[index as int];
                &&& task.canceller is None
                &&& task.progress.status@ == "Stopped"@
                &&& task.id == before.id
                &&& task.name == before.name
                &&& task.uri == before.uri
                &&& task.output_dir == before.output_dir
                &&& task.new_uri_input == before.new_uri_input
                &&& task.progress.total_bytes == before.progress.total_bytes
                &&& task.progress.downloaded_bytes == before.progress.downloaded_bytes
                &&& task.progress.peers == before.progress.peers
            },
    {
        if index < self.active_downloads.len() {
            let task = &mut self.active_downloads[index];
            task.canceller = None;
            task.progress.set_status("Stopped");
        }
        assert(self@.tasks =~= old(self)@.with_task_stopped(index as int).tasks);
    }

    /// Stops a download and takes its task off the list; does nothing if there is no such
    /// task.
    pub fn remove_task(&mut self, index: usize)
        ensures
            final(self)@ == old(self)@.with_task_removed(index as int),
            old(self)@.well_formed() ==> final(self)@.well_formed(),
    {
        if index < self.active_downloads.len() {
            self.stop_download(index);
            let ghost stopped = self@;
            assert(stopped.tasks.len() == self.active_downloads@.len());
            self.active_downloads.remove(index);
            assert(self@.tasks =~= stopped.tasks.remove(index as int));
        }
        assert(self@.tasks =~= old(self)@.with_task_removed(index as int).tasks);
    }

    /// Stops all downloads, before the application exits.
    pub fn on_exit(&mut self)
        ensures
            final(self)@ == old(self)@.with_all_stopped(),
            old(self)@.well_formed() ==> final(self)@.well_formed(),
    {
        let count: usize = self.active_downloads.len();
        let mut index: usize = 0;
        while index < count
            invariant
                count == old(self)@.tasks.len(),
                self@.tasks.len() == count,
                self@ == (MtorrentAppView { tasks: self@.tasks, ..old(self)@ }),
                forall|i: int|
                    #![trigger self@.tasks[i]]
                    0 <= i < count ==> self@.tasks[i] == if i < index {
                        old(self)@.tasks[i].stopped()
                    } else {
                        old(self)@.tasks[i]
                    },
            decreases count - index,
        {
            self.stop_download(index);
            index = index + 1;
        }
        assert(self@.tasks =~= old(self)@.with_all_stopped().tasks);
        assert(self@ =~= old(self)@.with_all_stopped());
    }

    /// Replaces what is typed in as the source of a task; does nothing if there is no such
    /// task.
    pub fn set_uri_input(&mut self, index: usize, input: String)
        ensures
            final(self)@ == old(self)@.with_uri_input(index as int, input@),
            old(self)@.well_formed() ==> final(self)@.well_formed(),
            final(self).active_downloads@.len() == old(self).active_downloads@.len(),
            index < old(self).active_downloads@.len() ==> final(self).active_downloads@[index as int]
                == (DownloadTask {
                new_uri_input: input,
                ..old(self).active_downloads@[index as int]
            }),
    {
        if index < self.active_downloads.len() {
            let task = &mut self.active_downloads[index];
            task.new_uri_input = input;
            assert(self@.tasks =~= old(self)@.tasks.update(
                index as int,
                DownloadTaskView { new_uri_input: input@, ..old(self)@.tasks[index as int] },
            ));
        }
    }

    /// Takes over a snapshot of the download of the task with the number `id`; does nothing
    /// if that task is no longer on the list.
    pub fn apply_json(&mut self, id: usize, json_value: &serde_json::Value)
        ensures
            final(self)@ == old(self)@.with_snapshot(id as nat, snapshot_of(*json_value)),
            old(self)@.well_formed() ==> final(self)@.well_formed(),
    {
        let count: usize = self.active_downloads.len();
        let mut index: usize = 0;
        let ghost snapshot = snapshot_of(*json_value);
        while index < count
            invariant
                count == old(self)@.tasks.len(),
                self@.tasks.len() == count,
                snapshot == snapshot_of(*json_value),
                self@ == (MtorrentAppView { tasks: self@.tasks, ..old(self)@ }),
                forall|i: int|
                    #![trigger self@.tasks[i]]
                    0 <= i < count ==> self@.tasks[i] == if i < index
                        && old(self)@.tasks[i].id == id {
                        old(self)@.tasks[i].after(snapshot)
                    } else {
                        old(self)@.tasks[i]
                    },
            decreases count - index,
        {
            let ghost before = self@;
            assert(before.tasks[index as int] == self.active_downloads@[index as int]@);
            if self.active_downloads[index].id == id {
                let task = &mut self.active_downloads[index];
                task.progress.apply_json(json_value);
                assert(self@.tasks =~= before.tasks.update(
                    index as int,
                    before.tasks[index as int].after(snapshot),
                ));
            }
            index = index + 1;
        }
        assert(self@.tasks =~= old(self)@.with_snapshot(id as nat, snapshot).tasks);
        assert(self@ =~= old(self)@.with_snapshot(id as nat, snapshot));
    }

    /// The application at its start, for a given peer id. An argument of the command line
    /// becomes the source of a first task.
    pub fn with_peer_id(
        peer_id: [u8; 20],
        local_data_dir: PathBuf,
        cli_arg: Option<String>,
        net_if: Option<String>,
    ) -> (app: MtorrentApp)
        ensures
            app@ == initial_app(
                peer_id@,
                path_bytes(local_data_dir),
                optional_chars(cli_arg),
                optional_chars(net_if),
            ),
            app@.well_formed(),
    {
        let mut app = MtorrentApp {
            peer_id,
            local_data_dir,
            active_downloads: Vec::new(),
            next_id: 1,
            cli_arg,
            net_if,
        };
        assert(app@.tasks =~= Seq::empty());
        if let Some(arg) = app.cli_arg.take() {
            app.add_new_task();
            app.set_uri_input(0, arg);
            assert(app@.tasks =~= seq![
                DownloadTaskView { new_uri_input: arg@, ..new_task(1) },
            ]);
        }
        app
    }

    /// The application at its start, with a peer id of its own.
    pub fn new(
        local_data_dir: PathBuf,
        cli_arg: Option<String>,
        net_if: Option<String>,
    ) -> (app: MtorrentApp)
        ensures
            app@ == initial_app(
                app@.peer_id,
                path_bytes(local_data_dir),
                optional_chars(cli_arg),
                optional_chars(net_if),
            ),
            is_peer_id(app@.peer_id),
            app@.well_formed(),
    {
        MtorrentApp::with_peer_id(new_peer_id(), local_data_dir, cli_arg, net_if)
    }
}

/// How a download is to be run.
pub struct DownloadConfig {
    pub local_peer_id: [u8; 20],
    pub output_dir: PathBuf,
    pub config_dir: PathBuf,
    pub use_upnp: bool,
    pub pwp_port: Option<u16>,
    pub bind_interface: Option<String>,
}

/// What a [`DownloadConfig`] holds.
#[verifier::ext_equal]
pub struct DownloadConfigView {
    pub local_peer_id: Seq<u8>,
    pub output_dir: Seq<u8>,
    pub config_dir: Seq<u8>,
    pub use_upnp: bool,
    pub pwp_port: Option<u16>,
    pub bind_interface: Option<Seq<char>>,
}

impl View for DownloadConfig {
    type V = DownloadConfigView;

    open spec fn view(&self) -> DownloadConfigView {
        DownloadConfigView {
            local_peer_id: self.local_peer_id@,
            output_dir: path_bytes(self.output_dir),
            config_dir: path_bytes(self.config_dir),
            use_upnp: self.use_upnp,
            pwp_port: self.pwp_port,
            bind_interface: optional_chars(self.bind_interface),
        }
    }
}

/// A download that is to be launched.
pub struct DownloadOrder<F> {
    pub metainfo_uri: String,
    pub listener: Listener<F>,
    pub config: DownloadConfig,
}

impl MtorrentAppView {
    /// How a download into `output_dir` is to be run.
    pub open spec fn config_for(self, output_dir: Seq<u8>) -> DownloadConfigView {
        DownloadConfigView {
            local_peer_id: self.peer_id,
            output_dir,
            config_dir: self.local_data_dir,
            use_upnp: UPNP_ENABLED,
            pwp_port: None,
            bind_interface: self.net_if,
        }
    }
}

/// How the snapshots of a download are dumped to the log at first.
pub open spec fn fresh_dump(dump_level: log::Level, dump_enabled: bool) -> Option<DumpSnapshot> {
    if dump_enabled {
        Some(DumpSnapshot { level: dump_level, ticks: 0 })
    } else {
        None
    }
}

impl<F> DownloadOrder<F> {
    /// The order is to download `uri` into `output_dir` for the task with the number `id`,
    /// and to report to a callback made for that task.
    pub open spec fn is_for<M: Fn(usize) -> F>(
        self,
        app: MtorrentAppView,
        id: nat,
        uri: Seq<char>,
        output_dir: Seq<u8>,
        make_callback: M,
    ) -> bool {
        &&& self.metainfo_uri@ == uri
        &&& self.config@ == app.config_for(output_dir)
        &&& call_ensures(make_callback, (id as usize,), self.listener.callback)
    }
}

impl MtorrentApp {
    /// Starts the download of `uri` into `output_dir` for a task, given what the torrent is
    /// called. The canceller that the task then holds and the listener of the download share
    /// a token; the download that the task had before loses its canceller. There is nothing
    /// to launch if there is no such task.
    pub fn start_download_named<F, M: Fn(usize) -> F>(
        &mut self,
        index: usize,
        uri: String,
        output_dir: PathBuf,
        torrent_name: Option<String>,
        make_callback: &M,
        dump_level: log::Level,
        dump_enabled: bool,
    ) -> (order: Option<DownloadOrder<F>>)
        requires
            forall|id: usize| #[trigger] call_requires(*make_callback, (id,)),
        ensures
            old(self)@.well_formed() ==> final(self)@.well_formed(),
            order is Some <==> index < old(self)@.tasks.len(),
            order is None ==> final(self)@ == old(self)@,
            order matches Some(launch) ==> {
                &&& final(self)@ == old(self)@.with_task_started(
                    index as int,
                    uri@,
                    path_bytes(output_dir),
                    optional_chars(torrent_name),
                    launch.listener.token,
                )
                &&& final(self).active_downloads@[index as int].canceller == Some(
                    Canceller { token: launch.listener.token },
                )
                &&& final(self).active_downloads@[index as int].uri@ == uri@
                &&& launch.metainfo_uri@ == uri@
                &&& path_bytes(launch.config.output_dir) == path_bytes(output_dir)
                &&& launch.is_for(
                    old(self)@,
                    old(self)@.tasks[index as int].id,
                    uri@,
                    path_bytes(output_dir),
                    *make_callback,
                )
                &&& launch.listener.dump_cfg == fresh_dump(dump_level, dump_enabled)
            },
            order is Some && torrent_name is Some
                ==> final(self).active_downloads@[index as int].name@ == torrent_name->0@,
            order is Some && torrent_name is None
                ==> final(self).active_downloads@[index as int].name@ == "Download "@ + decimal(
                old(self).active_downloads@[index as int].id as nat,
            ),
    {
        if index >= self.active_downloads.len() {
            return None;
        }
        let config = DownloadConfig {
            local_peer_id: self.peer_id,
            output_dir: output_dir.clone(),
            config_dir: self.local_data_dir.clone(),
            use_upnp: UPNP_ENABLED,
            pwp_port: None,
            bind_interface: match &self.net_if {
                Some(name) => Some(name.clone()),
                None => None,
            },
        };
        assert(config@ =~= self@.config_for(path_bytes(output_dir)));
        let id: usize = self.active_downloads[index].id;
        let (listener, canceller) = listener_with_canceller(
            make_callback(id),
            dump_level,
            dump_enabled,
        );
        let name = match torrent_name {
            Some(name) => name,
            None => {
                let mut name = "Download ".to_string();
                push_decimal(&mut name, id as u64);
                name
            },
        };
        let metainfo_uri = uri.clone();
        let task = &mut self.active_downloads[index];
        task.uri = uri;
        task.output_dir = output_dir;
        task.progress.set_status("Loading...");
        task.name = name;
        task.canceller = Some(canceller);
        assert(self@.tasks =~= old(self)@.with_task_started(
            index as int,
            uri@,
            path_bytes(output_dir),
            optional_chars(torrent_name),
            listener.token,
        ).tasks);
        Some(DownloadOrder { metainfo_uri, listener, config })
    }

    /// Starts the download of `uri` into `output_dir` for a task. There is nothing to launch
    /// if there is no such task.
    pub fn start_download<F, M: Fn(usize) -> F>(
        &mut self,
        index: usize,
        uri: String,
        output_dir: PathBuf,
        make_callback: &M,
        dump_level: log::Level,
        dump_enabled: bool,
    ) -> (order: Option<DownloadOrder<F>>)
        requires
            forall|id: usize| #[trigger] call_requires(*make_callback, (id,)),
        ensures
            old(self)@.well_formed() ==> final(self)@.well_formed(),
            order is Some <==> index < old(self)@.tasks.len(),
            order is None ==> final(self)@ == old(self)@,
            order matches Some(launch) ==> {
                &&& final(self)@ == old(self)@.with_task_started(
                    index as int,
                    uri@,
                    path_bytes(output_dir),
                    torrent_name_of(uri@),
                    launch.listener.token,
                )
                &&& final(self).active_downloads@[index as int].canceller == Some(
                    Canceller { token: launch.listener.token },
                )
                &&& final(self).active_downloads@[index as int].uri@ == uri@
                &&& launch.metainfo_uri@ == uri@
                &&& path_bytes(launch.config.output_dir) == path_bytes(output_dir)
                &&& launch.is_for(
                    old(self)@,
                    old(self)@.tasks[index as int].id,
                    uri@,
                    path_bytes(output_dir),
                    *make_callback,
                )
                &&& launch.listener.dump_cfg == fresh_dump(dump_level, dump_enabled)
            },
    {
        if index >= self.active_downloads.len() {
            return None;
        }
        let name = torrent_name(uri.as_str());
        self.start_download_named(
            index,
            uri,
            output_dir,
            name,
            make_callback,
            dump_level,
            dump_enabled,
        )
    }
}

/// The application at its start.
pub open spec fn initial_app(
    peer_id: Seq<u8>,
    local_data_dir: Seq<u8>,
    cli_arg: Option<Seq<char>>,
    net_if: Option<Seq<char>>,
) -> MtorrentAppView {
    MtorrentAppView {
        peer_id,
        local_data_dir,
        tasks: match cli_arg {
            Some(arg) => seq![DownloadTaskView { new_uri_input: arg, ..new_task(1) }],
            None => Seq::empty(),
        },
        next_id: if cli_arg is Some {
            2
        } else {
            1
        },
        cli_arg: None,
        net_if,
    }
}

/// A peer id of this client: twenty printable characters without blanks, of which the
/// first seven are `-mt0056`, the client and its version.
pub open spec fn is_peer_id(peer_id: Seq<u8>) -> bool {
    &&& peer_id.len() == 20
    &&& peer_id.take(7) == seq![45u8, 109u8, 116u8, 48u8, 48u8, 53u8, 54u8]
    &&& forall|i: int| 0 <= i < 20 ==> 33 <= #[trigger] peer_id[i] <= 126
}

/// `mtorrent_utils::peer_id::PeerId::generate_new`: a fixed beginning, then characters
/// drawn at random.
#[verifier::external_body]
fn new_peer_id() -> (peer_id: [u8; 20])
    ensures
        is_peer_id(peer_id@),
{
    *mtorrent::utils::re_exports::mtorrent_utils::peer_id::PeerId::generate_new()
}

/// The name of the torrent that `uri` stands for, if it can be told from `uri` alone.
pub uninterp spec fn torrent_name_of(uri: Seq<char>) -> Option<Seq<char>>;

/// `mtorrent::utils::startup::get_torrent_name`: the name in a magnet link, or the name
/// of a file without its extension. Where directories end in a file path is a matter of
/// the system that the program is built for; the answer depends on nothing else but `uri`.
#[verifier::external_body]
fn torrent_name(uri: &str) -> (name: Option<String>)
    ensures
        optional_chars(name) == torrent_name_of(uri@),
{
    mtorrent::utils::startup::get_torrent_name(uri)
}

/// Law: no two tasks have the same number.
pub proof fn task_numbers_are_distinct(app: MtorrentAppView, i: int, j: int)
    requires
        app.well_formed(),
        0 <= i < app.tasks.len(),
        0 <= j < app.tasks.len(),
        app.tasks[i].id == app.tasks[j].id,
    ensures
        i == j,
{
}

/// Law: the number of a new task is not in use, also not if tasks were removed before.
pub proof fn new_number_is_fresh(app: MtorrentAppView, i: int)
    requires
        app.well_formed(),
        0 <= i < app.tasks.len(),
    ensures
        app.with_new_task().tasks.last().id != app.tasks[i].id,
        app.with_task_removed(i).with_new_task().tasks.last().id != app.tasks[i].id,
{
}

/// Law: removing a task that was just added gives the list back.
pub proof fn removing_undoes_adding(app: MtorrentAppView)
    ensures
        app.with_new_task().with_task_removed(app.tasks.len() as int).tasks == app.tasks,
{
    assert(app.with_new_task().tasks.remove(app.tasks.len() as int) =~= app.tasks);
}

/// Law: stopping a task twice is stopping it once.
pub proof fn stopping_is_idempotent(app: MtorrentAppView, index: int)
    ensures
        app.with_task_stopped(index).with_task_stopped(index) == app.with_task_stopped(index),
{
    if 0 <= index < app.tasks.len() {
        assert(app.with_task_stopped(index).with_task_stopped(index).tasks
            =~= app.with_task_stopped(index).tasks);
    }
}

/// Law: starting, stopping and removing a task leaves the other tasks as they are.
pub proof fn other_tasks_are_kept(
    app: MtorrentAppView,
    index: int,
    other: int,
    uri: Seq<char>,
    output_dir: Seq<u8>,
    torrent_name: Option<Seq<char>>,
    token: Token,
)
    requires
        0 <= index < app.tasks.len(),
        0 <= other < app.tasks.len(),
        other != index,
    ensures
        app.with_task_started(index, uri, output_dir, torrent_name, token).tasks[other]
            == app.tasks[other],
        app.with_task_stopped(index).tasks[other] == app.tasks[other],
        app.with_task_removed(index).tasks[if other < index { other } else { other - 1 }]
            == app.tasks[other],
{
}

/// Law: a task that is not on the list is neither started, nor stopped, nor removed.
pub proof fn absent_task_changes_nothing(
    app: MtorrentAppView,
    index: int,
    uri: Seq<char>,
    output_dir: Seq<u8>,
    torrent_name: Option<Seq<char>>,
    token: Token,
)
    requires
        index >= app.tasks.len(),
    ensures
        app.with_task_started(index, uri, output_dir, torrent_name, token) == app,
        app.with_task_stopped(index) == app,
        app.with_task_removed(index) == app,
{
}

/// Law: once everything is stopped, nothing is downloading any more, and every task says
/// so.
pub proof fn exit_stops_everything(app: MtorrentAppView, i: int)
    requires
        0 <= i < app.tasks.len(),
    ensures
        app.with_all_stopped().tasks.len() == app.tasks.len(),
        !app.with_all_stopped().tasks[i].downloading(),
        app.with_all_stopped().tasks[i].progress.status == "Stopped"@,
{
}

/// Law: a stopped task can be started again, and is then as if it had never been stopped.
pub proof fn restart_after_stop(
    app: MtorrentAppView,
    index: int,
    uri: Seq<char>,
    output_dir: Seq<u8>,
    torrent_name: Option<Seq<char>>,
    token: Token,
)
    ensures
        app.with_task_stopped(index).with_task_started(
            index,
            uri,
            output_dir,
            torrent_name,
            token,
        ) == app.with_task_started(index, uri, output_dir, torrent_name, token),
{
    if 0 <= index < app.tasks.len() {
        assert(app.with_task_stopped(index).with_task_started(
            index,
            uri,
            output_dir,
            torrent_name,
            token,
        ) =~= app.with_task_started(index, uri, output_dir, torrent_name, token));
    }
}

/// Law: a snapshot reaches the task that it is meant for and no other.
pub proof fn snapshot_reaches_its_task(
    app: MtorrentAppView,
    index: int,
    snapshot: SnapshotView,
)
    requires
        app.well_formed(),
        0 <= index < app.tasks.len(),
    ensures
        app.with_snapshot(app.tasks[index].id, snapshot) == app.with_task(
            index,
            app.tasks[index].after(snapshot),
        ),
{
    assert(app.with_snapshot(app.tasks[index].id, snapshot) =~= app.with_task(
        index,
        app.tasks[index].after(snapshot),
    ));
}

/// Law: a snapshot for a task that was removed changes nothing.
pub proof fn late_snapshot_is_lost(app: MtorrentAppView, index: int, snapshot: SnapshotView)
    requires
        app.well_formed(),
        0 <= index < app.tasks.len(),
    ensures
        app.with_task_removed(index).with_snapshot(app.tasks[index].id, snapshot)
            == app.with_task_removed(index),
{
    let rest = app.with_task_removed(index);
    assert forall|i: int| 0 <= i < rest.tasks.len() implies (#[trigger] rest.tasks[i]).id
        != app.tasks[index].id by {
        let j = if i < index { i } else { i + 1 };
        assert(rest.tasks[i] == app.tasks[j]);
    }
    assert(rest.with_snapshot(app.tasks[index].id, snapshot) =~= rest);
}

/// Law: what a task is seen as is what its fields hold.
pub proof fn task_shows_its_fields(task: DownloadTask)
    ensures
        task@.id == task.id,
        task@.uri == task.uri@,
        task@.name == task.name@,
        task@.output_dir == path_bytes(task.output_dir),
        task.canceller matches Some(canceller) ==> task@.canceller == Some(canceller.token),
        task.canceller is None ==> task@.canceller is None,
        task@.downloading() <==> task.canceller is Some,
        task@.progress == task.progress@,
        task@.new_uri_input == task.new_uri_input@,
{
}

/// Law: what the application is seen as is what its fields hold.
pub proof fn app_shows_its_fields(app: MtorrentApp, index: int)
    ensures
        app@.peer_id == app.peer_id@,
        app@.local_data_dir == path_bytes(app.local_data_dir),
        app@.next_id == app.next_id,
        app.cli_arg matches Some(arg) ==> app@.cli_arg == Some(arg@),
        app.cli_arg is None ==> app@.cli_arg is None,
        app.net_if matches Some(name) ==> app@.net_if == Some(name@),
        app.net_if is None ==> app@.net_if is None,
        app@.tasks.len() == app.active_downloads@.len(),
        0 <= index < app@.tasks.len() ==> app@.tasks[index] == app.active_downloads@[index]@,
{
}

/// Law: after a start the name of a task depends on the torrent and on the number of the task
/// alone. It is the name of the torrent that is started, or, where that has none,
/// `Download` with the number of the task; what the task was called before does not matter.
pub proof fn start_names_the_task(
    app: MtorrentAppView,
    other: MtorrentAppView,
    index: int,
    uri: Seq<char>,
    other_uri: Seq<char>,
    output_dir: Seq<u8>,
    other_dir: Seq<u8>,
    torrent_name: Option<Seq<char>>,
    token: Token,
    other_token: Token,
)
    requires
        0 <= index < app.tasks.len(),
        0 <= index < other.tasks.len(),
    ensures
        ({
            let name = app.with_task_started(
                index,
                uri,
                output_dir,
                torrent_name,
                token,
            ).tasks[index].name;
            &&& torrent_name matches Some(found) ==> name == found
            &&& torrent_name is None ==> name == "Download "@ + decimal(app.tasks[index].id)
            &&& other.tasks[index].id == app.tasks[index].id ==> other.with_task_started(
                index,
                other_uri,
                other_dir,
                torrent_name,
                other_token,
            ).tasks[index].name == name
        }),
{
}

/// Law: a task that is started has the source, the output directory and the token of that
/// start, whatever it had before, and says `Loading...`. Its number, what is typed in for it,
/// its counters and its peers are kept, and so is everything else of the application.
pub proof fn start_sets_the_task_up(
    app: MtorrentAppView,
    index: int,
    uri: Seq<char>,
    output_dir: Seq<u8>,
    torrent_name: Option<Seq<char>>,
    token: Token,
)
    requires
        0 <= index < app.tasks.len(),
    ensures
        ({
            let after = app.with_task_started(index, uri, output_dir, torrent_name, token);
            let task = after.tasks[index];
            let before = app.tasks[index];
            &&& task.uri == uri
            &&& task.output_dir == output_dir
            &&& task.canceller == Some(token)
            &&& task.progress.status == "Loading..."@
            &&& task.id == before.id
            &&& task.new_uri_input == before.new_uri_input
            &&& task.progress.total_bytes == before.progress.total_bytes
            &&& task.progress.downloaded_bytes == before.progress.downloaded_bytes
            &&& task.progress.peers == before.progress.peers
            &&& after.tasks.len() == app.tasks.len()
            &&& after.peer_id == app.peer_id
            &&& after.local_data_dir == app.local_data_dir
            &&& after.next_id == app.next_id
            &&& after.cli_arg == app.cli_arg
            &&& after.net_if == app.net_if
        }),
{
}

/// Law: stopping a task takes its canceller away and sets its status, and changes nothing
/// else: not its number, its name, its source, its output directory, what is typed in for it,
/// its counters or its peers, and nothing else of the application.
pub proof fn stop_keeps_the_rest(app: MtorrentAppView, index: int)
    requires
        0 <= index < app.tasks.len(),
    ensures
        ({
            let after = app.with_task_stopped(index);
            let task = after.tasks[index];
            let before = app.tasks[index];
            &&& task.canceller is None
            &&& task.progress.status == "Stopped"@
            &&& task.id == before.id
            &&& task.name == before.name
            &&& task.uri == before.uri
            &&& task.output_dir == before.output_dir
            &&& task.new_uri_input == before.new_uri_input
            &&& task.progress.total_bytes == before.progress.total_bytes
            &&& task.progress.downloaded_bytes == before.progress.downloaded_bytes
            &&& task.progress.peers == before.progress.peers
            &&& after.tasks.len() == app.tasks.len()
            &&& after.peer_id == app.peer_id
            &&& after.local_data_dir == app.local_data_dir
            &&& after.next_id == app.next_id
            &&& after.cli_arg == app.cli_arg
            &&& after.net_if == app.net_if
        }),
{
}

/// Law: on exit every task is stopped as it is stopped alone, and nothing else changes.
pub proof fn exit_is_stopping_each(app: MtorrentAppView, i: int)
    requires
        0 <= i < app.tasks.len(),
    ensures
        ({
            let after = app.with_all_stopped();
            &&& after.tasks[i] == app.with_task_stopped(i).tasks[i]
            &&& after.tasks.len() == app.tasks.len()
            &&& after.peer_id == app.peer_id
            &&& after.local_data_dir == app.local_data_dir
            &&& after.next_id == app.next_id
            &&& after.cli_arg == app.cli_arg
            &&& after.net_if == app.net_if
        }),
{
}

/// Law: a removal takes one task off the list. Those before it keep their places, those
/// behind it move up, all of them as they were, and nothing else changes.
pub proof fn removal_takes_one_task_off(app: MtorrentAppView, index: int, i: int)
    requires
        0 <= index < app.tasks.len(),
        0 <= i < app.tasks.len() - 1,
    ensures
        ({
            let after = app.with_task_removed(index);
            &&& after.tasks[i] == app.tasks[if i < index { i } else { i + 1 }]
            &&& after.tasks.len() == app.tasks.len() - 1
            &&& after.peer_id == app.peer_id
            &&& after.local_data_dir == app.local_data_dir
            &&& after.next_id == app.next_id
            &&& after.cli_arg == app.cli_arg
            &&& after.net_if == app.net_if
        }),
{
}

/// Law: removing the only task empties the list, and changes nothing else.
pub proof fn removal_can_empty_the_list(app: MtorrentAppView)
    requires
        app.tasks.len() == 1,
    ensures
        ({
            let after = app.with_task_removed(0);
            &&& after.tasks.len() == 0
            &&& after.peer_id == app.peer_id
            &&& after.local_data_dir == app.local_data_dir
            &&& after.next_id == app.next_id
            &&& after.cli_arg == app.cli_arg
            &&& after.net_if == app.net_if
        }),
{
}

/// Law: a task that is added comes last, takes the next number and is named after it. It has
/// no source, no output directory, nothing typed in and no download, and it is idle. The other
/// tasks, and everything else but the next number, are kept.
pub proof fn added_task_is_blank(app: MtorrentAppView, i: int)
    ensures
        ({
            let after = app.with_new_task();
            let task = after.tasks[app.tasks.len() as int];
            &&& after.tasks.len() == app.tasks.len() + 1
            &&& task.id == app.next_id
            &&& task.name == "Task "@ + decimal(app.next_id)
            &&& task.uri.len() == 0
            &&& task.output_dir.len() == 0
            &&& task.new_uri_input.len() == 0
            &&& task.canceller is None
            &&& task.progress.total_bytes == 0
            &&& task.progress.downloaded_bytes == 0
            &&& task.progress.peers.len() == 0
            &&& task.progress.status == "Idle"@
            &&& 0 <= i < app.tasks.len() ==> after.tasks[i] == app.tasks[i]
            &&& after.next_id == app.next_id + 1
            &&& after.peer_id == app.peer_id
            &&& after.local_data_dir == app.local_data_dir
            &&& after.cli_arg == app.cli_arg
            &&& after.net_if == app.net_if
        }),
{
}

/// Law: what is typed in for a task replaces what was typed in before, so that of two inputs
/// the last alone counts. Everything else of the task, the other tasks and everything else of
/// the application are kept.
pub proof fn typed_input_is_replaced(
    app: MtorrentAppView,
    index: int,
    other: int,
    first: Seq<char>,
    input: Seq<char>,
)
    requires
        0 <= index < app.tasks.len(),
    ensures
        ({
            let after = app.with_uri_input(index, input);
            let task = after.tasks[index];
            let before = app.tasks[index];
            &&& task.new_uri_input == input
            &&& app.with_uri_input(index, first).with_uri_input(index, input) == after
            &&& task.id == before.id
            &&& task.name == before.name
            &&& task.uri == before.uri
            &&& task.output_dir == before.output_dir
            &&& task.canceller == before.canceller
            &&& task.progress == before.progress
            &&& 0 <= other < app.tasks.len() && other != index ==> after.tasks[other]
                == app.tasks[other]
            &&& after.tasks.len() == app.tasks.len()
            &&& after.peer_id == app.peer_id
            &&& after.local_data_dir == app.local_data_dir
            &&& after.next_id == app.next_id
            &&& after.cli_arg == app.cli_arg
            &&& after.net_if == app.net_if
        }),
{
    assert(app.with_uri_input(index, first).with_uri_input(index, input)
        =~= app.with_uri_input(index, input));
}

/// Law: typing in something for a task that is not on the list changes nothing.
pub proof fn input_for_absent_task_changes_nothing(
    app: MtorrentAppView,
    index: int,
    input: Seq<char>,
)
    requires
        index >= app.tasks.len(),
    ensures
        app.with_uri_input(index, input) == app,
{
}

/// Law: a snapshot changes the progress of the task that it is for and nothing else of it; a
/// task with another number, and everything else of the application, is kept.
pub proof fn snapshot_changes_progress_only(
    app: MtorrentAppView,
    id: nat,
    snapshot: SnapshotView,
    i: int,
)
    requires
        0 <= i < app.tasks.len(),
    ensures
        ({
            let after = app.with_snapshot(id, snapshot);
            let task = after.tasks[i];
            let before = app.tasks[i];
            &&& before.id != id ==> task == before
            &&& before.id == id ==> task.progress == before.progress.after(snapshot)
            &&& task.id == before.id
            &&& task.name == before.name
            &&& task.uri == before.uri
            &&& task.output_dir == before.output_dir
            &&& task.canceller == before.canceller
            &&& task.new_uri_input == before.new_uri_input
            &&& after.tasks.len() == app.tasks.len()
            &&& after.peer_id == app.peer_id
            &&& after.local_data_dir == app.local_data_dir
            &&& after.next_id == app.next_id
            &&& after.cli_arg == app.cli_arg
            &&& after.net_if == app.net_if
        }),
{
}

/// Law: the application starts with what it is given. An argument of the command line is used
/// up: it is typed in for the only task, which is as if it had just been added. Without an
/// argument there is no task.
pub proof fn beginning_takes_the_argument(
    peer_id: Seq<u8>,
    local_data_dir: Seq<u8>,
    cli_arg: Option<Seq<char>>,
    net_if: Option<Seq<char>>,
)
    ensures
        ({
            let app = initial_app(peer_id, local_data_dir, cli_arg, net_if);
            let blank = initial_app(peer_id, local_data_dir, None, net_if);
            &&& app.peer_id == peer_id
            &&& app.local_data_dir == local_data_dir
            &&& app.net_if == net_if
            &&& app.cli_arg is None
            &&& cli_arg is None ==> app.tasks.len() == 0 && app.next_id == 1
            &&& cli_arg matches Some(arg) ==> {
                &&& app.tasks.len() == 1
                &&& app.tasks[0].new_uri_input == arg
                &&& app == blank.with_new_task().with_uri_input(0, arg)
            }
        }),
{
    if let Some(arg) = cli_arg {
        let blank = initial_app(peer_id, local_data_dir, None, net_if);
        assert(blank.with_new_task().with_uri_input(0, arg).tasks =~= seq![
            DownloadTaskView { new_uri_input: arg, ..new_task(1) },
        ]);
        assert(initial_app(peer_id, local_data_dir, cli_arg, net_if)
            =~= blank.with_new_task().with_uri_input(0, arg));
    }
}

/// Law: an order is to download the given source into the given directory, as the peer and
/// with the data directory and the network interface of the application, with ports mapped
/// and a port of any number, and its listener reports to a callback made for the task.
pub proof fn order_says_how_to_download<F, M: Fn(usize) -> F>(
    order: DownloadOrder<F>,
    app: MtorrentAppView,
    id: nat,
    uri: Seq<char>,
    output_dir: Seq<u8>,
    make_callback: M,
)
    requires
        order.is_for(app, id, uri, output_dir, make_callback),
    ensures
        order.metainfo_uri@ == uri,
        path_bytes(order.config.output_dir) == output_dir,
        path_bytes(order.config.config_dir) == app.local_data_dir,
        order.config.local_peer_id@ == app.peer_id,
        order.config.use_upnp,
        order.config.pwp_port is None,
        order.config.bind_interface matches Some(name) ==> app.net_if == Some(name@),
        order.config.bind_interface is None ==> app.net_if is None,
        call_ensures(make_callback, (id as usize,), order.listener.callback),
{
    assert(order.config@.output_dir == output_dir);
}

/// Law: a new listener dumps at the given level, from the beginning of its count, if the log
/// takes dumps, and does not dump otherwise.
pub proof fn dumps_start_counting(dump_level: log::Level, dump_enabled: bool)
    ensures
        dump_enabled ==> fresh_dump(dump_level, dump_enabled) == Some(
            DumpSnapshot { level: dump_level, ticks: 0 },
        ),
        !dump_enabled ==> fresh_dump(dump_level, dump_enabled) is None,
{
}

/// Law: a peer id has twenty printable characters without blanks and begins with the client
/// and its version.
pub proof fn peer_id_tells_the_client(peer_id: Seq<u8>, i: int)
    requires
        is_peer_id(peer_id),
        0 <= i < 20,
    ensures
        peer_id.len() == 20,
        33 <= peer_id[i] <= 126,
        peer_id[0] == 45 && peer_id[1] == 109 && peer_id[2] == 116 && peer_id[3] == 48,
        peer_id[4] == 48 && peer_id[5] == 53 && peer_id[6] == 54,
{
    let client = peer_id.take(7);
    assert(client[0] == peer_id[0] && client[1] == peer_id[1] && client[2] == peer_id[2]
        && client[3] == peer_id[3] && client[4] == peer_id[4] && client[5] == peer_id[5]
        && client[6] == peer_id[6]);
}

/// Law: the application starts with what it is given. An argument is typed in for the only
/// task, which has the number one; without an argument there is no task.
pub proof fn application_starts_as_asked(
    peer_id: [u8; 20],
    local_data_dir: PathBuf,
    cli_arg: Option<String>,
    net_if: Option<String>,
    app: MtorrentApp,
)
    requires
        call_ensures(MtorrentApp::with_peer_id, (peer_id, local_data_dir, cli_arg, net_if), app),
    ensures
        app.peer_id@ == peer_id@,
        path_bytes(app.local_data_dir) == path_bytes(local_data_dir),
        net_if matches Some(name) ==> app.net_if is Some && app.net_if->0@ == name@,
        net_if is None ==> app.net_if is None,
        app.cli_arg is None,
        cli_arg is None ==> app.active_downloads@.len() == 0 && app.next_id == 1,
        cli_arg matches Some(arg) ==> {
            let task = app.active_downloads@[0];
            &&& app.active_downloads@.len() == 1
            &&& app.next_id == 2
            &&& task.new_uri_input@ == arg@
            &&& task.id == 1
            &&& task.name@ == "Task "@ + decimal(1)
            &&& task.uri@.len() == 0
            &&& task.canceller is None
            &&& task.progress.status@ == "Idle"@
        },
{
    app_shows_its_fields(app, 0);
    if let Some(arg) = cli_arg {
        assert(app@.tasks.len() == 1);
        assert(app@.tasks[0] == app.active_downloads@[0]@);
        task_shows_its_fields(app.active_downloads@[0]);
    }
}

/// Law: what a call types in for a task is what is typed in for it from then on, whatever was
/// typed in before; of two calls one after the other the last alone counts. Everything else of
/// the task and the other tasks are kept.
pub proof fn call_replaces_what_is_typed_in(
    first: &mut MtorrentApp,
    second: &mut MtorrentApp,
    index: usize,
    earlier: String,
    input: String,
    other: int,
)
    requires
        call_ensures(MtorrentApp::set_uri_input, (first, index, earlier), ()),
        *old(second) == *final(first),
        call_ensures(MtorrentApp::set_uri_input, (second, index, input), ()),
        index < old(first).active_downloads@.len(),
    ensures
        ({
            let task = final(second).active_downloads@[index as int];
            let before = old(first).active_downloads@[index as int];
            &&& final(second).active_downloads@.len() == old(first).active_downloads@.len()
            &&& task.new_uri_input@ == input@
            &&& task.id == before.id
            &&& task.name@ == before.name@
            &&& task.uri@ == before.uri@
            &&& task.canceller == before.canceller
            &&& 0 <= other < old(first).active_downloads@.len() && other != index
                ==> final(second).active_downloads@[other]@ == old(first).active_downloads@[other]@
        }),
{
    app_shows_its_fields(*final(second), other);
    app_shows_its_fields(*old(first), other);
}

/// Law: after a call that stops a task, the task is on the list as it was, but for its
/// canceller, which is gone, and its status. The other tasks are kept.
pub proof fn call_stops_the_task(app: &mut MtorrentApp, index: usize, other: int)
    requires
        call_ensures(MtorrentApp::stop_download, (app, index), ()),
        index < old(app).active_downloads@.len(),
    ensures
        ({
            let task = final(app).active_downloads@[index as int];
            let before = old(app).active_downloads@[index as int];
            &&& final(app).active_downloads@.len() == old(app).active_downloads@.len()
            &&& task.canceller is None
            &&& task.progress.status@ == "Stopped"@
            &&& task.id == before.id
            &&& task.name@ == before.name@
            &&& task.uri@ == before.uri@
            &&& path_bytes(task.output_dir) == path_bytes(before.output_dir)
            &&& task.new_uri_input@ == before.new_uri_input@
            &&& task.progress.total_bytes == before.progress.total_bytes
            &&& task.progress.downloaded_bytes == before.progress.downloaded_bytes
            &&& task.progress@.peers == before.progress@.peers
            &&& 0 <= other < old(app).active_downloads@.len() && other != index
                ==> final(app).active_downloads@[other]@ == old(app).active_downloads@[other]@
        }),
{
    app_shows_its_fields(*final(app), other);
    app_shows_its_fields(*old(app), other);
}

/// Law: after a call that starts a task, the task is named after the torrent, or, where that
/// has no name, after its number, whatever it was called before. It has the source, the
/// directory and the token that the download is launched with, and says `Loading...`; what it
/// has downloaded, its peers and what is typed in for it are kept, and so are the other tasks.
pub proof fn call_starts_the_task<F, M: Fn(usize) -> F>(
    app: &mut MtorrentApp,
    index: usize,
    uri: String,
    output_dir: PathBuf,
    torrent_name: Option<String>,
    make_callback: M,
    dump_level: log::Level,
    dump_enabled: bool,
    order: Option<DownloadOrder<F>>,
    other: int,
)
    requires
        call_ensures(
            MtorrentApp::start_download_named::<F, M>,
            (
                app,
                index,
                uri,
                output_dir,
                torrent_name,
                &make_callback,
                dump_level,
                dump_enabled,
            ),
            order,
        ),
        index < old(app).active_downloads@.len(),
    ensures
        ({
            let task = final(app).active_downloads@[index as int];
            let before = old(app).active_downloads@[index as int];
            &&& order is Some
            &&& final(app).active_downloads@.len() == old(app).active_downloads@.len()
            &&& torrent_name matches Some(name) ==> task.name@ == name@
            &&& torrent_name is None ==> task.name@ == "Download "@ + decimal(before.id as nat)
            &&& task.uri@ == uri@
            &&& order->0.metainfo_uri@ == uri@
            &&& path_bytes(task.output_dir) == path_bytes(output_dir)
            &&& path_bytes(order->0.config.output_dir) == path_bytes(output_dir)
            &&& task.canceller is Some
            &&& task.canceller->0.token == order->0.listener.token
            &&& call_ensures(make_callback, (before.id,), order->0.listener.callback)
            &&& task.progress.status@ == "Loading..."@
            &&& task.id == before.id
            &&& task.new_uri_input@ == before.new_uri_input@
            &&& task.progress.total_bytes == before.progress.total_bytes
            &&& task.progress.downloaded_bytes == before.progress.downloaded_bytes
            &&& task.progress@.peers == before.progress@.peers
            &&& 0 <= other < old(app).active_downloads@.len() && other != index
                ==> final(app).active_downloads@[other]@ == old(app).active_downloads@[other]@
        }),
{
    app_shows_its_fields(*final(app), other);
    app_shows_its_fields(*old(app), other);
    app_shows_its_fields(*final(app), index as int);
    app_shows_its_fields(*old(app), index as int);
    task_shows_its_fields(final(app).active_downloads@[index as int]);
}

/// Law: after a call that adds a task, the task comes last, under the next number, and the
/// others are kept.
pub proof fn call_adds_a_task(app: &mut MtorrentApp, other: int)
    requires
        call_ensures(MtorrentApp::add_new_task, (app,), ()),
    ensures
        ({
            let task = final(app).active_downloads@.last();
            &&& final(app).active_downloads@.len() == old(app).active_downloads@.len() + 1
            &&& task.id == old(app).next_id
            &&& task.name@ == "Task "@ + decimal(old(app).next_id as nat)
            &&& task.new_uri_input@.len() == 0
            &&& task.canceller is None
            &&& task.progress.status@ == "Idle"@
            &&& final(app).next_id == old(app).next_id + 1
            &&& 0 <= other < old(app).active_downloads@.len()
                ==> final(app).active_downloads@[other]@ == old(app).active_downloads@[other]@
        }),
{
    app_shows_its_fields(*final(app), other);
    app_shows_its_fields(*old(app), other);
    app_shows_its_fields(*final(app), final(app).active_downloads@.len() - 1);
}

/// Law: after a call that removes a task, the tasks before it keep their places and those
/// behind it move up, all of them as they were.
pub proof fn call_removes_the_task(app: &mut MtorrentApp, index: usize, i: int)
    requires
        call_ensures(MtorrentApp::remove_task, (app, index), ()),
        index < old(app).active_downloads@.len(),
    ensures
        final(app).active_downloads@.len() == old(app).active_downloads@.len() - 1,
        0 <= i < index ==> final(app).active_downloads@[i]@ == old(app).active_downloads@[i]@,
        index <= i < final(app).active_downloads@.len() ==> final(app).active_downloads@[i]@
            == old(app).active_downloads@[i + 1]@,
        final(app).next_id == old(app).next_id,
{
    app_shows_its_fields(*final(app), i);
    app_shows_its_fields(*old(app), i);
    app_shows_its_fields(*old(app), i + 1);
}

/// Law: after the call on exit, every task is on the list as it was, without its canceller and
/// stopped.
pub proof fn call_on_exit_stops_all(app: &mut MtorrentApp, i: int)
    requires
        call_ensures(MtorrentApp::on_exit, (app,), ()),
        0 <= i < old(app).active_downloads@.len(),
    ensures
        ({
            let task = final(app).active_downloads@[i];
            let before = old(app).active_downloads@[i];
            &&& final(app).active_downloads@.len() == old(app).active_downloads@.len()
            &&& task.canceller is None
            &&& task.progress.status@ == "Stopped"@
            &&& task.id == before.id
            &&& task.name@ == before.name@
            &&& task.uri@ == before.uri@
            &&& task.new_uri_input@ == before.new_uri_input@
            &&& task.progress.total_bytes == before.progress.total_bytes
            &&& task.progress.downloaded_bytes == before.progress.downloaded_bytes
        }),
{
    app_shows_its_fields(*final(app), i);
    app_shows_its_fields(*old(app), i);
    task_shows_its_fields(final(app).active_downloads@[i]);
}

/// Law: after a call with a snapshot for a number, the tasks with that number have taken it
/// over, and the others are kept.
pub proof fn call_hands_the_snapshot_on(
    app: &mut MtorrentApp,
    id: usize,
    value: serde_json::Value,
    i: int,
)
    requires
        call_ensures(MtorrentApp::apply_json, (app, id, &value), ()),
        0 <= i < old(app).active_downloads@.len(),
    ensures
        ({
            let task = final(app).active_downloads@[i];
            let before = old(app).active_downloads@[i];
            &&& final(app).active_downloads@.len() == old(app).active_downloads@.len()
            &&& before.id != id ==> task@ == before@
            &&& before.id == id ==> {
                &&& task.progress@ == before.progress@.after(snapshot_of(value))
                &&& task.progress.status@ == "Downloading"@
            }
            &&& task.id == before.id
            &&& task.name@ == before.name@
            &&& task.uri@ == before.uri@
            &&& task@.canceller == before@.canceller
            &&& task.new_uri_input@ == before.new_uri_input@
        }),
{
    app_shows_its_fields(*final(app), i);
    app_shows_its_fields(*old(app), i);
    task_shows_its_fields(final(app).active_downloads@[i]);
}

/// Law: a call that starts a source names the task after the torrent that the source stands
/// for, or, where none can be told from it, after the number of the task. Two starts of one
/// source give tasks with the same number the same name, whatever they were called before.
pub proof fn call_names_the_task_after_its_source<F, M: Fn(usize) -> F>(
    app: &mut MtorrentApp,
    other: &mut MtorrentApp,
    index: usize,
    uri: String,
    output_dir: PathBuf,
    other_dir: PathBuf,
    make_callback: M,
    dump_level: log::Level,
    dump_enabled: bool,
    order: Option<DownloadOrder<F>>,
    other_order: Option<DownloadOrder<F>>,
)
    requires
        call_ensures(
            MtorrentApp::start_download::<F, M>,
            (app, index, uri, output_dir, &make_callback, dump_level, dump_enabled),
            order,
        ),
        call_ensures(
            MtorrentApp::start_download::<F, M>,
            (other, index, uri, other_dir, &make_callback, dump_level, dump_enabled),
            other_order,
        ),
        index < old(app).active_downloads@.len(),
        index < old(other).active_downloads@.len(),
        old(app).active_downloads@[index as int].id == old(other).active_downloads@[index as int].id,
    ensures
        ({
            let name = final(app).active_downloads@[index as int].name@;
            let id = old(app).active_downloads@[index as int].id as nat;
            &&& torrent_name_of(uri@) matches Some(found) ==> name == found
            &&& torrent_name_of(uri@) is None ==> name == "Download "@ + decimal(id)
            &&& final(other).active_downloads@[index as int].name@ == name
            &&& final(app).active_downloads@[index as int].uri@ == uri@
        }),
{
    app_shows_its_fields(*final(app), index as int);
    app_shows_its_fields(*old(app), index as int);
    app_shows_its_fields(*final(other), index as int);
    app_shows_its_fields(*old(other), index as int);
    task_shows_its_fields(final(app).active_downloads@[index as int]);
    task_shows_its_fields(final(other).active_downloads@[index as int]);
}

} // verus!
