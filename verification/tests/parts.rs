use unirun::app_info::AppInfo;
use unirun::constants::{DOMAIN, MAIN_APP_ID, SOCKET_BUFFER_SIZE};
use unirun::ghit::GHit;
use unirun::package::{Hit, Uuid};
use unirun::path::{icon_is_file, is_plugin_binary, runtime, socket};
use unirun::registry::{is_process, Registry};
use unirun::socket::Credentials;

fn peer(pid: u32) -> Credentials {
    Credentials { uid: 1000, gid: pid as i32, pid: Some(pid) }
}

#[test]
fn the_shared_constants_have_their_values() {
    assert_eq!(DOMAIN, "com.bzglve");
    assert_eq!(MAIN_APP_ID, "com.bzglve.unirun");
    assert_eq!(SOCKET_BUFFER_SIZE, 4096);
}

#[test]
fn the_socket_lies_below_the_runtime_directory() {
    assert_eq!(runtime("/run/user/1000"), "/run/user/1000/com.bzglve");
    assert_eq!(socket("/run/user/1000"), "/run/user/1000/com.bzglve/com.bzglve.unirun.sock");
}

#[test]
fn a_directory_that_ends_in_a_slash_gets_no_second_one() {
    assert_eq!(runtime("/run/user/1000/"), "/run/user/1000/com.bzglve");
    assert_eq!(socket("/"), "/com.bzglve/com.bzglve.unirun.sock");
}

#[test]
fn an_empty_directory_gives_a_relative_path() {
    assert_eq!(runtime(""), "com.bzglve");
    assert_eq!(socket(""), "com.bzglve/com.bzglve.unirun.sock");
}

#[test]
fn plugins_are_executable_files_with_the_plugin_prefix() {
    assert!(is_plugin_binary("unirun-plugin-applications", 0o755));
    assert!(is_plugin_binary("unirun-plugin", 0o100));
    assert!(is_plugin_binary("unirun-plugin-x", 0o001));
    assert!(!is_plugin_binary("unirun-plugin-applications", 0o644));
    assert!(!is_plugin_binary("unirun", 0o755));
    assert!(!is_plugin_binary("unirun-plugi", 0o755));
    assert!(!is_plugin_binary("my-unirun-plugin", 0o755));
    assert!(!is_plugin_binary("", 0o755));
}

#[test]
fn an_icon_with_an_absolute_path_is_a_file() {
    assert!(icon_is_file("/usr/share/icons/firefox.png"));
    assert!(!icon_is_file("firefox"));
    assert!(!icon_is_file("icons/firefox.png"));
    assert!(!icon_is_file(""));
}

#[test]
fn credentials_keep_what_the_socket_reports() {
    assert_eq!(
        Credentials::from_unix(1000, 100, 4242),
        Credentials { uid: 1000, gid: 100, pid: Some(4242) }
    );
    assert_eq!(Credentials::default(), Credentials { uid: 0, gid: 0, pid: None });
    assert_eq!(Credentials::from_unix(0, 0, -1).pid, Some(u32::MAX));
}

#[test]
fn a_process_is_named_by_its_number() {
    assert!(is_process(&peer(7), 7));
    assert!(!is_process(&peer(7), 8));
    assert!(!is_process(&Credentials::default(), 0));
}

#[test]
fn the_registry_finds_connections_by_process() {
    let mut registry: Registry<&'static str> = Registry::new();
    assert_eq!(registry.len(), 0);
    assert_eq!(registry.find(1), None);
    registry.register(peer(1), "one");
    registry.register(peer(2), "two");
    registry.register(peer(3), "three");
    assert_eq!(registry.len(), 3);
    assert_eq!(registry.find(2), Some(&"two"));
    assert_eq!(registry.position(3), Some(2));
    assert_eq!(registry.position(4), None);
    assert_eq!(registry.identity(0), peer(1));
    assert_eq!(registry.all(), vec![peer(1), peer(2), peer(3)]);
}

#[test]
fn the_older_of_two_connections_answers_to_a_process() {
    let mut registry: Registry<&'static str> = Registry::new();
    registry.register(peer(1), "old");
    registry.register(peer(2), "other");
    registry.register(peer(1), "new");
    assert_eq!(registry.find(1), Some(&"old"));
    assert_eq!(registry.position(1), Some(0));
}

#[test]
fn removing_drops_every_connection_of_the_process() {
    let mut registry: Registry<&'static str> = Registry::new();
    registry.register(peer(1), "a");
    registry.register(peer(2), "b");
    registry.register(peer(1), "c");
    registry.register(peer(3), "d");
    assert_eq!(registry.remove(1), 2);
    assert_eq!(registry.all(), vec![peer(2), peer(3)]);
    assert_eq!(registry.find(1), None);
    assert_eq!(registry.find(3), Some(&"d"));
    assert_eq!(registry.remove(9), 0);
    assert_eq!(registry.len(), 2);
    assert_eq!(registry.remove(3), 1);
    assert_eq!(registry.remove(2), 1);
    assert_eq!(registry.len(), 0);
}

fn firefox() -> Hit {
    Hit {
        id: Uuid::from("h1"),
        title: "Firefox".to_string(),
        description: Some("Web Browser".to_string()),
        icon: Some("firefox".to_string()),
        use_pango: true,
    }
}

#[test]
fn a_new_entry_is_blank() {
    let entry = GHit::new();
    assert_eq!(entry.get_id(), "");
    assert_eq!(entry.get_title(), "");
    assert_eq!(entry.get_description(), None);
    assert_eq!(entry.get_icon(), None);
    assert!(!entry.get_use_pango());
    assert_eq!(entry.get_plugin_pid(), 0);
    assert_eq!(GHit::default(), entry);
}

#[test]
fn an_entry_keeps_what_is_set() {
    let mut entry = GHit::new();
    entry.set_id("h1");
    entry.set_title("Firefox");
    entry.set_description(Some("Web Browser"));
    entry.set_icon(Some("firefox"));
    entry.set_use_pango(true);
    entry.set_plugin_pid(4242);
    assert_eq!(entry.get_id(), "h1");
    assert_eq!(entry.get_title(), "Firefox");
    assert_eq!(entry.get_description().as_deref(), Some("Web Browser"));
    assert_eq!(entry.get_icon().as_deref(), Some("firefox"));
    assert!(entry.get_use_pango());
    assert_eq!(entry.get_plugin_pid(), 4242);
    entry.set_description(None);
    entry.set_icon(None);
    assert_eq!(entry.get_description(), None);
    assert_eq!(entry.get_icon(), None);
    assert_eq!(entry.get_title(), "Firefox");
}

#[test]
fn an_entry_is_made_of_a_hit_and_gives_it_back() {
    let mut entry = GHit::from(firefox());
    assert_eq!(entry.get_id(), "h1");
    assert_eq!(entry.get_title(), "Firefox");
    assert_eq!(entry.get_plugin_pid(), 0);
    entry.set_plugin_pid(7);
    assert_eq!(entry.clone(), entry);
    assert_eq!(entry.into_hit(), firefox());
}

fn application() -> AppInfo {
    AppInfo::new(
        Some("/usr/bin/firefox %u".to_string()),
        Some("Web Browser".to_string()),
        "Firefox".to_string(),
        "/usr/bin/firefox".to_string(),
        Some("firefox".to_string()),
        Some("firefox.desktop".to_string()),
        "firefox".to_string(),
        vec!["text/html".to_string()],
    )
}

#[test]
fn an_application_is_offered_under_its_display_name() {
    let app = application();
    let hit = app.to_hit();
    assert_eq!(hit.title, "Firefox");
    assert_eq!(hit.description.as_deref(), Some("Web Browser"));
    assert_eq!(hit.icon.as_deref(), Some("firefox"));
    assert!(!hit.use_pango);
    assert_eq!(hit.id.as_str().len(), 36);
    assert_ne!(app.to_hit().id, hit.id);
    assert_eq!(app.id.as_deref(), Some("firefox.desktop"));
}

#[test]
fn an_application_is_shown_by_name_and_executable() {
    assert_eq!(application().to_string(), "(Firefox, /usr/bin/firefox, firefox)");
}
