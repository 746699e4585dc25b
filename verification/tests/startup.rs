use mtorrent_gui::startup::{choose_data_dir, dht_config, log_config, read_icon, Worker};
use std::io::Cursor;
use std::path::PathBuf;

#[test]
fn first_place_is_chosen() {
    let local = Some(PathBuf::from("local"));
    let data = Some(PathBuf::from("data"));
    let config = Some(PathBuf::from("config"));
    assert_eq!(choose_data_dir(local.clone(), data.clone(), config.clone()), local);
    assert_eq!(choose_data_dir(None, data.clone(), config.clone()), data);
    assert_eq!(choose_data_dir(None, None, config.clone()), config);
    assert_eq!(choose_data_dir(None, None, None), None);
}

#[test]
fn workers_are_set_up() {
    let app = Worker::App.config();
    assert_eq!((app.name.as_str(), app.io_enabled, app.time_enabled), ("app", true, true));
    let storage = Worker::Storage.config();
    assert_eq!(
        (storage.name.as_str(), storage.io_enabled, storage.time_enabled),
        ("storage", false, false)
    );
    let pwp = Worker::Pwp.config();
    assert_eq!((pwp.name.as_str(), pwp.io_enabled, pwp.time_enabled), ("pwp", true, true));
}

#[test]
fn hash_table_node_is_set_up() {
    let config = dht_config(&PathBuf::from("/data"), &Some("lo".to_string()));
    assert_eq!(config.local_port, 6881);
    assert_eq!(config.max_concurrent_queries, None);
    assert_eq!(config.config_dir, PathBuf::from("/data"));
    assert!(config.use_upnp);
    assert_eq!(config.bind_interface, Some("lo".to_string()));
}

#[test]
fn log_is_set_up() {
    let config = log_config();
    assert_eq!(config.file_name, "mtorrent.log");
    assert_eq!(config.max_files, 3);
    assert_eq!(config.max_file_size, 10_485_760);
    assert_eq!(config.buffer_capacity, 32_768);
}

#[test]
fn icon_is_decoded() {
    let mut pixels = image::RgbaImage::new(3, 2);
    pixels.put_pixel(2, 1, image::Rgba([9, 8, 7, 6]));
    let mut file = Cursor::new(Vec::new());
    pixels.write_to(&mut file, image::ImageFormat::Png).unwrap();
    let icon = read_icon(&file.into_inner()).unwrap();
    assert_eq!((icon.width, icon.height), (3, 2));
    assert_eq!(icon.rgba.len(), 24);
    assert_eq!(icon.rgba[20..], [9, 8, 7, 6]);
}

#[test]
fn broken_icon_is_refused() {
    let error = image::load_from_memory(b"no picture").unwrap_err();
    assert_eq!(read_icon(b"no picture").unwrap_err().reason, error.to_string());
    assert!(read_icon(&[]).is_err());
}
