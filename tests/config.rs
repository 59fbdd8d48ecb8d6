use flick::config::{
    default_ui_config, delete_server, dedup_bookmark, from_ui, load_server, save_server, to_ui, AppConfig, Bookmark,
    ConfigRepository, ServerConfig, ServerConfigUI,
};
use std::cell::RefCell;

#[test]
fn config_test_server_config_default() {
    let cfg = ServerConfig::default();
    assert_eq!(cfg.port, 22);
    assert_eq!(cfg.auth_type, "password");
    assert!(cfg.password.is_some());
    assert!(cfg.key_path.is_none());
}

#[test]
fn config_test_app_config_default() {
    let cfg = AppConfig::default();
    assert_eq!(cfg.servers.len(), 1);
    assert_eq!(cfg.last_selected_index, 0);
}

struct MemoryStore {
    fail: bool,
    saved: RefCell<Vec<usize>>,
}

impl ConfigRepository for MemoryStore {
    fn load(&self) -> Result<AppConfig, String> {
        Ok(AppConfig::default())
    }

    fn save(&self, config: &AppConfig) -> Result<(), String> {
        self.saved.borrow_mut().push(config.servers.len());
        if self.fail {
            Err("disk full".to_string())
        } else {
            Ok(())
        }
    }
}

fn server(name: &str, is_default: bool) -> ServerConfig {
    let mut s = ServerConfig::default();
    s.name = name.to_string();
    s.is_default = is_default;
    s
}

#[test]
fn save_server_appends_and_moves_default_mark() {
    let mut cfg = AppConfig::default();
    cfg.servers[0].is_default = true;
    let store = MemoryStore { fail: false, saved: RefCell::new(Vec::new()) };
    let out = save_server(&mut cfg, &store, -1, server("b", true)).unwrap();
    assert_eq!(out.servers.len(), 2);
    assert!(!out.servers[0].is_default);
    assert!(out.servers[1].is_default);
    assert_eq!(out.servers[1].name, "b");
    assert_eq!(*store.saved.borrow(), vec![2]);
}

#[test]
fn save_server_replaces_at_index_and_ignores_bad_index() {
    let mut cfg = AppConfig::default();
    let store = MemoryStore { fail: false, saved: RefCell::new(Vec::new()) };
    save_server(&mut cfg, &store, 0, server("x", false)).unwrap();
    assert_eq!(cfg.servers.len(), 1);
    assert_eq!(cfg.servers[0].name, "x");
    save_server(&mut cfg, &store, 5, server("y", false)).unwrap();
    assert_eq!(cfg.servers.len(), 1);
    assert_eq!(cfg.servers[0].name, "x");
}

#[test]
fn save_server_reports_store_failure() {
    let mut cfg = AppConfig::default();
    let store = MemoryStore { fail: true, saved: RefCell::new(Vec::new()) };
    let r = save_server(&mut cfg, &store, -1, server("b", false));
    assert_eq!(r.unwrap_err(), "disk full");
    assert_eq!(cfg.servers.len(), 2);
}

#[test]
fn delete_server_removes_valid_index_only() {
    let mut cfg = AppConfig::default();
    cfg.servers.push(server("b", false));
    let store = MemoryStore { fail: false, saved: RefCell::new(Vec::new()) };
    let out = delete_server(&mut cfg, &store, 0).unwrap();
    assert_eq!(out.servers.len(), 1);
    assert_eq!(out.servers[0].name, "b");
    let out = delete_server(&mut cfg, &store, 3).unwrap();
    assert_eq!(out.servers.len(), 1);
    assert_eq!(store.saved.borrow().len(), 1);
}

#[test]
fn load_server_by_index() {
    let cfg = AppConfig::default();
    assert_eq!(load_server(&cfg, 0).unwrap().host, "127.0.0.1");
    assert!(load_server(&cfg, 1).is_none());
    assert!(load_server(&cfg, -1).is_none());
}

#[test]
fn dedup_bookmark_matches_path_and_side() {
    let b = vec![Bookmark { name: "home".into(), path: "/home/a".into(), side: "remote".into() }];
    assert!(dedup_bookmark(&b, "/home/a", "remote"));
    assert!(!dedup_bookmark(&b, "/home/a", "local"));
    assert!(!dedup_bookmark(&b, "/home", "remote"));
    assert!(!dedup_bookmark(&[], "/home/a", "remote"));
}

fn form(port: &str, password: &str, key: &str) -> ServerConfigUI {
    ServerConfigUI {
        name: "n".into(),
        host: "h".into(),
        port: port.into(),
        user: "u".into(),
        auth_type: "key".into(),
        password: password.into(),
        key_path: key.into(),
        default_target_dir: "/srv".into(),
    }
}

#[test]
fn from_ui_reads_port_and_optional_fields() {
    let c = from_ui(&form("2222", "", "/k/id"));
    assert_eq!(c.port, 2222);
    assert!(c.password.is_none());
    assert_eq!(c.key_path.as_deref(), Some("/k/id"));
    assert_eq!(c.default_target_dir, "/srv");
    assert_eq!(from_ui(&form("0", "p", "")).port, 22);
    assert_eq!(from_ui(&form("70000", "p", "")).port, 22);
    assert_eq!(from_ui(&form("abc", "p", "")).port, 22);
    assert_eq!(from_ui(&form("+80", "p", "")).port, 80);
    assert_eq!(from_ui(&form("65535", "p", "")).port, 65535);
    assert_eq!(from_ui(&form("", "p", "")).password.as_deref(), Some("p"));
}

#[test]
fn default_ui_config_values() {
    let f = default_ui_config();
    assert_eq!(f.name, "New Server");
    assert_eq!(f.port, "22");
    assert_eq!(f.user, "root");
    assert_eq!(f.auth_type, "password");
    assert_eq!(f.default_target_dir, "/tmp");
    assert!(f.host.is_empty());
}

#[test]
fn to_ui_shows_unset_fields_as_empty() {
    let mut s = ServerConfig::default();
    s.port = 2022;
    s.password = None;
    s.key_path = Some("/k".into());
    let f = to_ui(&s);
    assert_eq!(f.port, "2022");
    assert_eq!(f.password, "");
    assert_eq!(f.key_path, "/k");
    assert_eq!(f.host, "127.0.0.1");
    let back = from_ui(&f);
    assert_eq!(back.port, 2022);
    assert!(back.password.is_none());
}
