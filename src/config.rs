use vstd::prelude::*;
use vstd::string::*;

use crate::listing::{parse_u64, parse_u64_spec};
use crate::shell::{decimal, decimal_text};
use crate::text::same_text;

verus! {

/// One remote host that the user can connect to.
#[derive(Debug, Clone)]
pub struct ServerConfig {
    /// Display name.
    pub name: String,
    /// Host name or address.
    pub host: String,
    /// SSH port.
    pub port: u16,
    /// Login user.
    pub user: String,
    /// `"password"` or `"key"`.
    pub auth_type: String,
    /// The password, for password authentication.
    pub password: Option<String>,
    /// A private key file, for key authentication.
    pub key_path: Option<String>,
    /// Remote directory that uploads go to by default.
    pub default_target_dir: String,
    /// Whether this server is selected at startup.
    pub is_default: bool,
}

/// A saved local or remote location.
#[derive(Debug, Clone)]
pub struct Bookmark {
    pub name: String,
    pub path: String,
    /// `"local"` or `"remote"`.
    pub side: String,
}

/// Everything the application persists.
#[derive(Debug, Clone)]
pub struct AppConfig {
    pub servers: Vec<ServerConfig>,
    pub last_selected_index: usize,
    pub bookmarks: Vec<Bookmark>,
}

fn copy_opt_string(s: &Option<String>) -> (r: Option<String>)
    ensures
        r == *s,
{
    match s {
        Some(v) => Some(v.clone()),
        None => None,
    }
}

impl ServerConfig {
    /// A copy of this record.
    pub fn duplicate(&self) -> (r: ServerConfig)
        ensures
            r == *self,
    {
        ServerConfig {
            name: self.name.clone(),
            host: self.host.clone(),
            port: self.port,
            user: self.user.clone(),
            auth_type: self.auth_type.clone(),
            password: copy_opt_string(&self.password),
            key_path: copy_opt_string(&self.key_path),
            default_target_dir: self.default_target_dir.clone(),
            is_default: self.is_default,
        }
    }
}

impl Default for ServerConfig {
    fn default() -> (r: ServerConfig)
        ensures
            r.name@ == "本地测试服务器"@,
            r.host@ == "127.0.0.1"@,
            r.port == 22,
            r.user@ == "root"@,
            r.auth_type@ == "password"@,
            r.password is Some && r.password->0@ == "123456"@,
            r.key_path is None,
            r.default_target_dir@ == "/tmp"@,
            !r.is_default,
    {
        ServerConfig {
            name: String::from_str("本地测试服务器"),
            host: String::from_str("127.0.0.1"),
            port: 22,
            user: String::from_str("root"),
            auth_type: String::from_str("password"),
            password: Some(String::from_str("123456")),
            key_path: None,
            default_target_dir: String::from_str("/tmp"),
            is_default: false,
        }
    }
}

impl Default for AppConfig {
    fn default() -> (r: AppConfig)
        ensures
            r.servers@.len() == 1,
            r.servers@[0].port == 22,
            r.servers@[0].host@ == "127.0.0.1"@,
            r.servers@[0].auth_type@ == "password"@,
            r.last_selected_index == 0,
            r.bookmarks@.len() == 0,
    {
        let mut servers: Vec<ServerConfig> = Vec::new();
        servers.push(ServerConfig::default());
        AppConfig { servers, last_selected_index: 0, bookmarks: Vec::new() }
    }
}

impl Bookmark {
    /// A copy of this bookmark.
    pub fn duplicate(&self) -> (r: Bookmark)
        ensures
            r == *self,
    {
        Bookmark { name: self.name.clone(), path: self.path.clone(), side: self.side.clone() }
    }
}

impl AppConfig {
    /// A copy of this configuration.
    pub fn duplicate(&self) -> (r: AppConfig)
        ensures
            r.servers@ == self.servers@,
            r.last_selected_index == self.last_selected_index,
            r.bookmarks@ == self.bookmarks@,
    {
        let mut servers: Vec<ServerConfig> = Vec::new();
        let mut i: usize = 0;
        while i < self.servers.len()
            invariant
                i <= self.servers@.len(),
                servers@ == self.servers@.take(i as int),
            decreases self.servers@.len() - i,
        {
            servers.push(self.servers[i].duplicate());
            proof {
                assert(servers@ =~= self.servers@.take(i as int + 1));
            }
            i = i + 1;
        }
        let mut bookmarks: Vec<Bookmark> = Vec::new();
        let mut j: usize = 0;
        while j < self.bookmarks.len()
            invariant
                j <= self.bookmarks@.len(),
                bookmarks@ == self.bookmarks@.take(j as int),
            decreases self.bookmarks@.len() - j,
        {
            bookmarks.push(self.bookmarks[j].duplicate());
            proof {
                assert(bookmarks@ =~= self.bookmarks@.take(j as int + 1));
            }
            j = j + 1;
        }
        proof {
            assert(servers@ =~= self.servers@);
            assert(bookmarks@ =~= self.bookmarks@);
        }
        AppConfig { servers, last_selected_index: self.last_selected_index, bookmarks }
    }
}

/// Where the configuration is kept between runs.
pub trait ConfigRepository {
    /// The stored configuration.
    fn load(&self) -> Result<AppConfig, String>;

    /// Stores `config`.
    fn save(&self, config: &AppConfig) -> Result<(), String>;
}

/// The servers with none marked default.
pub open spec fn without_default(servers: Seq<ServerConfig>) -> Seq<ServerConfig> {
    servers.map_values(|s: ServerConfig| ServerConfig { is_default: false, ..s })
}

/// The server list after saving `new` at `index`: `-1` appends, a valid
/// index replaces, any other index changes nothing.  A new default server
/// takes the default mark from every other server.
pub open spec fn servers_after_save(old: Seq<ServerConfig>, index: i32, new: ServerConfig) -> Seq<ServerConfig> {
    let base = if new.is_default {
        without_default(old)
    } else {
        old
    };
    if index == -1 {
        base.push(new)
    } else if 0 <= index < old.len() {
        base.update(index as int, new)
    } else {
        old
    }
}

/// The server list after deleting the one at `index`, if it is valid.
pub open spec fn servers_after_delete(old: Seq<ServerConfig>, index: i32) -> Seq<ServerConfig> {
    if 0 <= index < old.len() {
        old.remove(index as int)
    } else {
        old
    }
}

fn clear_default(servers: &mut Vec<ServerConfig>)
    ensures
        final(servers)@ == without_default(old(servers)@),
{
    let mut i: usize = 0;
    while i < servers.len()
        invariant
            i <= servers@.len(),
            servers@.len() == old(servers)@.len(),
            forall|j: int| 0 <= j < i ==> #[trigger] servers@[j] == (ServerConfig { is_default: false, ..old(servers)@[j] }),
            forall|j: int| i <= j < servers@.len() ==> #[trigger] servers@[j] == old(servers)@[j],
        decreases servers@.len() - i,
    {
        servers[i].is_default = false;
        i = i + 1;
    }
    proof {
        assert(servers@ =~= without_default(old(servers)@));
    }
}

/// Saves `new_server` at `index` (`-1` appends) and stores the result
/// through `repo`; returns a copy of the configuration, or the store's error.
/// The list changes as `servers_after_save` says whether or not storing works.
pub fn save_server<R: ConfigRepository>(
    config: &mut AppConfig,
    repo: &R,
    index: i32,
    new_server: ServerConfig,
) -> (r: Result<AppConfig, String>)
    requires
        index == -1 ==> old(config).servers@.len() < usize::MAX,
    ensures
        final(config).servers@ == servers_after_save(old(config).servers@, index, new_server),
        final(config).last_selected_index == old(config).last_selected_index,
        final(config).bookmarks@ == old(config).bookmarks@,
        r is Ok ==> r->Ok_0.servers@ == final(config).servers@,
        r is Ok ==> r->Ok_0.bookmarks@ == final(config).bookmarks@,
        r is Ok ==> r->Ok_0.last_selected_index == final(config).last_selected_index,
{
    let ghost before = config.servers@;
    if index == -1 {
        if new_server.is_default {
            clear_default(&mut config.servers);
        }
        config.servers.push(new_server);
    } else if index >= 0 && (index as usize) < config.servers.len() {
        if new_server.is_default {
            clear_default(&mut config.servers);
        }
        config.servers.set(index as usize, new_server);
    }
    proof {
        assert(config.servers@ =~= servers_after_save(before, index, new_server));
    }
    match repo.save(config) {
        Ok(()) => Ok(config.duplicate()),
        Err(e) => Err(e),
    }
}

/// Deletes the server at `index`, if it is valid, and then stores the result
/// through `repo`; returns a copy of the configuration, or the store's error.
pub fn delete_server<R: ConfigRepository>(
    config: &mut AppConfig,
    repo: &R,
    index: i32,
) -> (r: Result<AppConfig, String>)
    ensures
        final(config).servers@ == servers_after_delete(old(config).servers@, index),
        final(config).last_selected_index == old(config).last_selected_index,
        final(config).bookmarks@ == old(config).bookmarks@,
        !(0 <= index < old(config).servers@.len()) ==> r is Ok,
        r is Ok ==> r->Ok_0.servers@ == final(config).servers@,
        r is Ok ==> r->Ok_0.bookmarks@ == final(config).bookmarks@,
        r is Ok ==> r->Ok_0.last_selected_index == final(config).last_selected_index,
{
    if index >= 0 && (index as usize) < config.servers.len() {
        config.servers.remove(index as usize);
        if let Err(e) = repo.save(config) {
            return Err(e);
        }
    }
    Ok(config.duplicate())
}

/// A copy of the server at `index`, or `None` when the index is not valid.
pub fn load_server(config: &AppConfig, index: i32) -> (r: Option<ServerConfig>)
    ensures
        0 <= index < config.servers@.len() ==> r == Some(config.servers@[index as int]),
        !(0 <= index < config.servers@.len()) ==> r is None,
{
    if index >= 0 && (index as usize) < config.servers.len() {
        Some(config.servers[index as usize].duplicate())
    } else {
        None
    }
}

/// Whether a bookmark for `path` on `side` exists already.
pub fn dedup_bookmark(bookmarks: &[Bookmark], path: &str, side: &str) -> (r: bool)
    ensures
        r == exists|i: int|
            0 <= i < bookmarks@.len() && #[trigger] bookmarks@[i].path@ == path@ && bookmarks@[i].side@
                == side@,
{
    let mut i: usize = 0;
    while i < bookmarks.len()
        invariant
            i <= bookmarks@.len(),
            forall|j: int| 0 <= j < i ==> !(#[trigger] bookmarks@[j].path@ == path@ && bookmarks@[j].side@ == side@),
        decreases bookmarks@.len() - i,
    {
        if same_text(bookmarks[i].path.as_str(), path) && same_text(bookmarks[i].side.as_str(), side) {
            return true;
        }
        i = i + 1;
    }
    false
}

/// The server form as the user typed it: every field is text.
#[derive(Debug, Clone)]
pub struct ServerConfigUI {
    pub name: String,
    pub host: String,
    pub port: String,
    pub user: String,
    pub auth_type: String,
    pub password: String,
    pub key_path: String,
    pub default_target_dir: String,
}

/// A port as `str::parse::<u16>` reads it.
pub open spec fn parse_u16_spec(s: Seq<char>) -> Option<u16> {
    match parse_u64_spec(s) {
        Some(v) => if v <= u16::MAX {
            Some(v as u16)
        } else {
            None
        },
        None => None,
    }
}

/// The port that the form's text gives: a valid non-zero port, else 22.
pub open spec fn form_port(s: Seq<char>) -> u16 {
    match parse_u16_spec(s) {
        Some(p) => if p >= 1 {
            p
        } else {
            22
        },
        None => 22,
    }
}

/// Empty text means "not set".
pub open spec fn optional_text(s: Seq<char>) -> Option<Seq<char>> {
    if s.len() == 0 {
        None
    } else {
        Some(s)
    }
}

fn optional(s: &String) -> (r: Option<String>)
    ensures
        match optional_text(s@) {
            Some(t) => r is Some && r->0@ == t,
            None => r is None,
        },
{
    if s.unicode_len() == 0 {
        None
    } else {
        Some(s.clone())
    }
}

/// The server record that a filled-in form describes.
pub fn from_ui(ui_config: &ServerConfigUI) -> (r: ServerConfig)
    ensures
        r.name@ == ui_config.name@,
        r.host@ == ui_config.host@,
        r.port == form_port(ui_config.port@),
        r.user@ == ui_config.user@,
        r.auth_type@ == ui_config.auth_type@,
        match optional_text(ui_config.password@) {
            Some(t) => r.password is Some && r.password->0@ == t,
            None => r.password is None,
        },
        match optional_text(ui_config.key_path@) {
            Some(t) => r.key_path is Some && r.key_path->0@ == t,
            None => r.key_path is None,
        },
        r.default_target_dir@ == ui_config.default_target_dir@,
        !r.is_default,
{
    let port = match parse_u64(ui_config.port.as_str()) {
        Some(v) => if v >= 1 && v <= 65535 {
            v as u16
        } else {
            22
        },
        None => 22,
    };
    ServerConfig {
        name: ui_config.name.clone(),
        host: ui_config.host.clone(),
        port,
        user: ui_config.user.clone(),
        auth_type: ui_config.auth_type.clone(),
        password: optional(&ui_config.password),
        key_path: optional(&ui_config.key_path),
        default_target_dir: ui_config.default_target_dir.clone(),
        is_default: false,
    }
}

/// The form shown for a new server.
pub fn default_ui_config() -> (r: ServerConfigUI)
    ensures
        r.name@ == "New Server"@,
        r.host@.len() == 0,
        r.port@ == "22"@,
        r.user@ == "root"@,
        r.auth_type@ == "password"@,
        r.password@.len() == 0,
        r.key_path@.len() == 0,
        r.default_target_dir@ == "/tmp"@,
{
    ServerConfigUI {
        name: String::from_str("New Server"),
        host: String::new(),
        port: String::from_str("22"),
        user: String::from_str("root"),
        auth_type: String::from_str("password"),
        password: String::new(),
        key_path: String::new(),
        default_target_dir: String::from_str("/tmp"),
    }
}

fn text_or_empty(s: &Option<String>) -> (r: String)
    ensures
        s is Some ==> r@ == s->0@,
        s is None ==> r@.len() == 0,
{
    match s {
        Some(t) => t.clone(),
        None => String::new(),
    }
}

/// The form that shows a server record: unset fields are empty text.
pub fn to_ui(server: &ServerConfig) -> (r: ServerConfigUI)
    ensures
        r.name@ == server.name@,
        r.host@ == server.host@,
        r.port@ == decimal(server.port as nat),
        r.user@ == server.user@,
        r.auth_type@ == server.auth_type@,
        server.password is Some ==> r.password@ == server.password->0@,
        server.password is None ==> r.password@.len() == 0,
        server.key_path is Some ==> r.key_path@ == server.key_path->0@,
        server.key_path is None ==> r.key_path@.len() == 0,
        r.default_target_dir@ == server.default_target_dir@,
{
    ServerConfigUI {
        name: server.name.clone(),
        host: server.host.clone(),
        port: decimal_text(server.port as u64),
        user: server.user.clone(),
        auth_type: server.auth_type.clone(),
        password: text_or_empty(&server.password),
        key_path: text_or_empty(&server.key_path),
        default_target_dir: server.default_target_dir.clone(),
    }
}

} // verus!
