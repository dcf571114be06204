//! The server lifecycle state machine, address selection, and directory
//! resolution.

use images_manage::config::{get_images_dir, get_thumbnails_dir, AppConfig};
use images_manage::errors::LifecycleError;
use images_manage::server::{
    get_local_ip, get_server_status, ServerLifecycle, StartOutcome, StopOutcome,
};

#[test]
fn start_twice_succeeds_twice_with_one_listener() {
    let mut life = ServerLifecycle::new(3000);
    assert!(life.needs_bind());
    assert_eq!(life.start(true), Ok(StartOutcome::Started));
    assert!(life.status());
    // The second start needs no bind: the one listener stays.
    assert!(!life.needs_bind());
    assert_eq!(life.start(true), Ok(StartOutcome::AlreadyRunning));
    assert!(life.status());
    assert_eq!(life.port(), 3000);
}

#[test]
fn bind_failure_leaves_the_machine_stopped() {
    let mut life = ServerLifecycle::new(3000);
    assert_eq!(life.start(false), Err(LifecycleError::BindFailure));
    assert!(!life.status());
    assert_eq!(get_server_status(&life), Ok(false));
}

#[test]
fn stop_when_stopped_still_succeeds() {
    let mut life = ServerLifecycle::new(3000);
    assert_eq!(life.stop(), StopOutcome::ReapStrays);
    assert!(!life.status());
    assert_eq!(life.stop(), StopOutcome::ReapStrays);
    assert!(!life.status());
}

#[test]
fn stop_when_running_signals_shutdown() {
    let mut life = ServerLifecycle::new(3000);
    life.start(true).expect("start");
    assert_eq!(get_server_status(&life), Ok(true));
    assert_eq!(life.stop(), StopOutcome::SignalledShutdown);
    assert_eq!(get_server_status(&life), Ok(false));
}

#[test]
fn local_ip_prefers_routable_addresses() {
    let addrs = vec!["127.0.0.1".to_string(), "192.168.1.5".to_string()];
    assert_eq!(get_local_ip(&addrs), "192.168.1.5");
    let only_local = vec!["127.0.0.1".to_string()];
    assert_eq!(get_local_ip(&only_local), "127.0.0.1");
    let none: Vec<String> = vec![];
    assert_eq!(get_local_ip(&none), "localhost");
    let link_local = vec!["fe80:abc".to_string(), "127.0.0.1".to_string()];
    assert_eq!(get_local_ip(&link_local), "fe80:abc");
}

#[test]
fn default_config_values() {
    let c = AppConfig::default();
    assert_eq!(c.images_dir, None);
    assert_eq!(c.thumbnails_dir, None);
    assert!(c.auto_generate_thumbnails);
    assert_eq!(c.thumbnail_max_width, 400);
    assert_eq!(c.thumbnail_max_height, 400);
}

#[test]
fn directories_resolve_against_the_config_directory() {
    let base = "/home/u/.config/app".to_string();
    let mut c = AppConfig::default();
    assert_eq!(get_images_dir(&c, &base), "/home/u/.config/app/images");
    assert_eq!(
        get_thumbnails_dir(&c, &base),
        "/home/u/.config/app/images/thumbnails"
    );

    c.images_dir = Some("/data/pics".to_string());
    assert_eq!(get_images_dir(&c, &base), "/data/pics");
    assert_eq!(
        get_thumbnails_dir(&c, &base),
        "/data/pics/thumbnails"
    );

    c.images_dir = Some("pics".to_string());
    assert_eq!(get_images_dir(&c, &base), "/home/u/.config/app/pics");

    c.thumbnails_dir = Some("thumbs".to_string());
    assert_eq!(
        get_thumbnails_dir(&c, &base),
        "/home/u/.config/app/thumbs"
    );
    c.thumbnails_dir = Some("/fast/thumbs".to_string());
    assert_eq!(get_thumbnails_dir(&c, &base), "/fast/thumbs");
}
