//! Settings that the application starts with.
use crate::paths::path_bytes;
use crate::progress::optional_chars;
use crate::tasks::UPNP_ENABLED;
use std::path::PathBuf;
use vstd::prelude::*;
use vstd::string::to_string_from_display_ensures;

verus! {

/// The first of three places that there is: for data of this machine, for data, or for
/// configuration.
pub fn choose_data_dir(
    data_local_dir: Option<PathBuf>,
    data_dir: Option<PathBuf>,
    config_dir: Option<PathBuf>,
) -> (dir: Option<PathBuf>)
    ensures
        dir == if data_local_dir is Some {
            data_local_dir
        } else if data_dir is Some {
            data_dir
        } else {
            config_dir
        },
{
    match data_local_dir {
        Some(dir) => Some(dir),
        None => match data_dir {
            Some(dir) => Some(dir),
            None => config_dir,
        },
    }
}

/// The threads that the application runs besides its window.
#[derive(Clone, Copy, Debug)]
pub enum Worker {
    App,
    Storage,
    Pwp,
}

/// How a worker thread is set up.
#[derive(Debug)]
pub struct WorkerConfig {
    pub name: String,
    pub io_enabled: bool,
    pub time_enabled: bool,
}

impl Worker {
    /// The name of the thread.
    pub open spec fn name(self) -> Seq<char> {
        match self {
            Worker::App => "app"@,
            Worker::Storage => "storage"@,
            Worker::Pwp => "pwp"@,
        }
    }

    /// How the thread is set up: the storage thread needs neither the network nor timers.
    pub fn config(self) -> (config: WorkerConfig)
        ensures
            config.name@ == self.name(),
            match self {
                Worker::App => config.name@ == "app"@,
                Worker::Storage => config.name@ == "storage"@,
                Worker::Pwp => config.name@ == "pwp"@,
            },
            config.io_enabled == !(self is Storage),
            config.time_enabled == !(self is Storage),
    {
        match self {
            Worker::App => WorkerConfig {
                name: "app".to_string(),
                io_enabled: true,
                time_enabled: true,
            },
            Worker::Storage => WorkerConfig {
                name: "storage".to_string(),
                io_enabled: false,
                time_enabled: false,
            },
            Worker::Pwp => WorkerConfig {
                name: "pwp".to_string(),
                io_enabled: true,
                time_enabled: true,
            },
        }
    }
}

/// How the node of the distributed hash table is set up.
#[derive(Debug)]
pub struct DhtConfig {
    pub local_port: u16,
    pub max_concurrent_queries: Option<usize>,
    pub config_dir: PathBuf,
    pub use_upnp: bool,
    pub bind_interface: Option<String>,
}

/// The node of the distributed hash table, with its data in `local_data_dir`.
pub fn dht_config(local_data_dir: &PathBuf, net_if: &Option<String>) -> (config: DhtConfig)
    ensures
        config.local_port == 6881,
        config.max_concurrent_queries is None,
        path_bytes(config.config_dir) == path_bytes(*local_data_dir),
        config.use_upnp == UPNP_ENABLED,
        config.use_upnp,
        config.bind_interface is Some <==> net_if is Some,
        net_if matches Some(name) ==> config.bind_interface->0@ == name@,
        optional_chars(config.bind_interface) == optional_chars(*net_if),
{
    DhtConfig {
        local_port: 6881,
        max_concurrent_queries: None,
        config_dir: local_data_dir.clone(),
        use_upnp: UPNP_ENABLED,
        bind_interface: match net_if {
            Some(name) => Some(name.clone()),
            None => None,
        },
    }
}

/// How the log is kept.
#[derive(Debug)]
pub struct LogConfig {
    pub file_name: String,
    pub max_files: usize,
    pub max_file_size: usize,
    pub buffer_capacity: usize,
}

/// The log: three files of up to 10 MiB, written through a buffer of 32 KiB.
pub fn log_config() -> (config: LogConfig)
    ensures
        config.file_name@ == "mtorrent.log"@,
        config.max_files == 3,
        config.max_file_size == 10 * 1024 * 1024,
        config.buffer_capacity == 32 * 1024,
{
    LogConfig {
        file_name: "mtorrent.log".to_string(),
        max_files: 3,
        max_file_size: 10 * 1024 * 1024,
        buffer_capacity: 32 * 1024,
    }
}

/// The icon of the window: four bytes for each pixel, red, green, blue and opacity.
#[derive(Debug)]
pub struct Icon {
    pub rgba: Vec<u8>,
    pub width: u32,
    pub height: u32,
}

/// A file that is no picture that can be shown, and why.
#[derive(Debug)]
pub struct InvalidIcon {
    pub reason: String,
}

/// `image::ImageError`, the reason why a picture could not be decoded.
#[verifier::external_type_specification]
#[verifier::external_body]
pub struct ExImageError(image::ImageError);

/// The pixels, the width and the height of the picture that a file holds, if it can be
/// decoded.
pub uninterp spec fn decoded_picture(file: Seq<u8>) -> Option<(Seq<u8>, u32, u32)>;

/// `image::load_from_memory`, with the picture in the form that `to_rgba8` gives it: the
/// answer depends on the bytes of the file alone, as long as the program adds no decoders of
/// its own to those of `image`.
#[verifier::external_body]
fn decode_picture(file: &[u8]) -> (picture: Result<(Vec<u8>, u32, u32), image::ImageError>)
    ensures
        match picture {
            Ok(found) => decoded_picture(file@) == Some((found.0@, found.1, found.2)),
            Err(error) => decoded_picture(file@) is None,
        },
{
    let pixels = image::load_from_memory(file)?.to_rgba8();
    let (width, height) = pixels.dimensions();
    Ok((pixels.into_raw(), width, height))
}

/// Decoding `file` has failed with `error`.
pub closed spec fn decoding_failed(file: &[u8], error: image::ImageError) -> bool {
    call_ensures(decode_picture, (file,), Err(error))
}

/// The icon for a picture, or the text of the reason why there is none.
pub fn icon_from(
    picture: Result<(Vec<u8>, u32, u32), image::ImageError>,
) -> (icon: Result<Icon, InvalidIcon>)
    ensures
        match picture {
            Ok(found) => icon == Ok::<Icon, InvalidIcon>(
                Icon { rgba: found.0, width: found.1, height: found.2 },
            ),
            Err(error) => icon is Err && to_string_from_display_ensures(
                &error,
                icon->Err_0.reason,
            ),
        },
{
    match picture {
        Ok((rgba, width, height)) => Ok(Icon { rgba, width, height }),
        Err(error) => Err(InvalidIcon { reason: error.to_string() }),
    }
}

/// Decodes the icon of the window. Where the file is no picture, the reason is the text of
/// the error that decoding it has failed with.
pub fn read_icon(file: &[u8]) -> (icon: Result<Icon, InvalidIcon>)
    ensures
        match icon {
            Ok(found) => decoded_picture(file@) == Some((found.rgba@, found.width, found.height)),
            Err(invalid) => decoded_picture(file@) is None && exists|error: image::ImageError|
                #[trigger] decoding_failed(file, error) && to_string_from_display_ensures(
                    &error,
                    invalid.reason,
                ),
        },
{
    let picture = decode_picture(file);
    assert(picture matches Err(error) ==> decoding_failed(file, error));
    icon_from(picture)
}

/// Law: no two workers have the same name.
pub proof fn workers_have_distinct_names(one: Worker, other: Worker)
    requires
        one.name() == other.name(),
    ensures
        one == other,
{
    reveal_strlit("app");
    reveal_strlit("storage");
    reveal_strlit("pwp");
    assert("app"@[0] == 'a' && "storage"@[0] == 's' && "pwp"@[0] == 'p');
}

/// Law: the place for local data comes first, then that for data, then that for configuration.
/// A place that there is is never passed over, and none is made up.
pub proof fn first_place_is_taken(
    data_local_dir: Option<PathBuf>,
    data_dir: Option<PathBuf>,
    config_dir: Option<PathBuf>,
    dir: Option<PathBuf>,
)
    requires
        call_ensures(choose_data_dir, (data_local_dir, data_dir, config_dir), dir),
    ensures
        data_local_dir is Some ==> dir == data_local_dir,
        data_local_dir is None && data_dir is Some ==> dir == data_dir,
        data_local_dir is None && data_dir is None ==> dir == config_dir,
{
}

/// Law: the storage thread alone goes without the network and without timers, and each thread
/// is called by its name.
pub proof fn storage_needs_no_network(worker: Worker, config: WorkerConfig)
    requires
        call_ensures(Worker::config, (worker,), config),
    ensures
        config.io_enabled <==> config.name@ != "storage"@,
        config.time_enabled <==> config.name@ != "storage"@,
        worker is Storage <==> config.name@ == "storage"@,
        worker is App <==> config.name@ == "app"@,
        worker is Pwp <==> config.name@ == "pwp"@,
{
    reveal_strlit("app");
    reveal_strlit("storage");
    reveal_strlit("pwp");
    assert("app"@[0] == 'a' && "storage"@[0] == 's' && "pwp"@[0] == 'p');
}

/// Law: the node keeps its data in the directory of the application and uses the network
/// interface of the application, if there is one; nothing else depends on what it is given.
pub proof fn node_uses_what_it_is_given(
    local_data_dir: PathBuf,
    net_if: Option<String>,
    config: DhtConfig,
)
    requires
        call_ensures(dht_config, (&local_data_dir, &net_if), config),
    ensures
        path_bytes(config.config_dir) == path_bytes(local_data_dir),
        net_if matches Some(name) ==> config.bind_interface is Some
            && config.bind_interface->0@ == name@,
        net_if is None ==> config.bind_interface is None,
        config.local_port == 6881,
        config.max_concurrent_queries is None,
        config.use_upnp,
{
}

/// Law: the icon has the pixels and the size of the picture, and there is one if and only if
/// the picture could be decoded.
pub proof fn icon_is_the_picture(
    picture: Result<(Vec<u8>, u32, u32), image::ImageError>,
    icon: Result<Icon, InvalidIcon>,
)
    requires
        call_ensures(icon_from, (picture,), icon),
    ensures
        icon is Ok <==> picture is Ok,
        picture matches Ok(found) ==> {
            &&& icon->Ok_0.rgba == found.0
            &&& icon->Ok_0.width == found.1
            &&& icon->Ok_0.height == found.2
        },
        picture matches Err(error) ==> to_string_from_display_ensures(&error, icon->Err_0.reason),
{
}

} // verus!
