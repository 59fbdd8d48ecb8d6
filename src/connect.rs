use vstd::prelude::*;
use vstd::string::*;

use crate::config::ServerConfig;
use crate::shell::{decimal, decimal_text};
use crate::text::{ends_with, is_prefix, is_suffix, same_text, starts_with, str_debug, str_debug_of};

verus! {

/// How a connection's remote operations are carried out.
#[derive(Debug, Clone, Copy, PartialEq, Eq, Structural)]
pub enum AuthMode {
    /// The in-process SSH library authenticated; its session serves every operation.
    LibSsh2,
    /// The library failed, but the system `ssh` client proved the credential works;
    /// operations shell out to `ssh` / `scp`.
    NativeSsh,
}

/// Why a connection could not be made.
#[derive(Debug, Clone, Copy, PartialEq, Eq, Structural)]
pub enum ConnectErrorKind {
    /// Name resolution, the TCP connection or the session's creation failed.
    Connect,
    /// The SSH handshake failed.
    Handshake,
    /// Every authentication method failed, the external probe included.
    Auth,
}

/// Where the connection attempt stands.
#[derive(Debug, Clone, Copy, PartialEq, Eq, Structural)]
pub enum Stage {
    OpenTcp,
    CreateSession,
    Handshake,
    Password,
    ExplicitKey,
    Agent,
    ListKeyDir,
    DirKey,
    CheckSession,
    Probe,
    Connected(AuthMode),
    Failed(ConnectErrorKind),
}

/// One entry of the user's default key directory.
#[derive(Debug, Clone)]
pub struct KeyDirEntry {
    pub name: String,
    pub is_dir: bool,
}

/// What the driver observed after performing the last requested step.
#[derive(Debug)]
pub enum ConnectEvent {
    Succeeded,
    Failed(String),
    KeyDirListed(Vec<KeyDirEntry>),
}

/// What the driver must do next.
#[derive(Debug, PartialEq, Eq)]
pub enum ConnectStep {
    /// Resolve the host and open a TCP connection to it.
    OpenTcp,
    /// Create the SSH session and give it the socket.
    CreateSession,
    /// Run the SSH handshake on the socket.
    Handshake,
    /// Authenticate the user with this password.
    AuthPassword(String),
    /// Authenticate the user with this private key file.
    AuthKeyFile(String),
    /// Authenticate the user through the local SSH agent.
    AuthAgent,
    /// List the user's default key directory.
    ListKeyDir,
    /// Authenticate with the file of this name in the default key directory.
    AuthDirKey(String),
    /// Ask the session whether it is authenticated.
    CheckSession,
    /// Run the system `ssh` client in batch mode with a no-op command.
    Probe,
    /// Nothing is left to do: see `Connector::outcome`.
    Finished,
}

/// A connection error with its message.
#[derive(Debug)]
pub enum ConnectError {
    Connect(String),
    Handshake(String),
    Auth(String),
}

/// The event as plain values.
pub enum EventView {
    Succeeded,
    Failed(Seq<char>),
    KeyDirListed(Seq<(Seq<char>, bool)>),
}

impl View for KeyDirEntry {
    type V = (Seq<char>, bool);

    open spec fn view(&self) -> (Seq<char>, bool) {
        (self.name@, self.is_dir)
    }
}

impl View for ConnectEvent {
    type V = EventView;

    open spec fn view(&self) -> EventView {
        match self {
            ConnectEvent::Succeeded => EventView::Succeeded,
            ConnectEvent::Failed(m) => EventView::Failed(m@),
            ConnectEvent::KeyDirListed(es) => EventView::KeyDirListed(es@.map_values(|e: KeyDirEntry| e@)),
        }
    }
}

/// The state of a connection attempt as plain values.
pub struct ConnState {
    pub stage: Stage,
    /// Files of the default key directory that will be tried, in order.
    pub candidates: Seq<Seq<char>>,
    /// The index of the candidate being tried.
    pub next: int,
    /// The native authentication error, reported if the probe fails too.
    pub auth_error: Seq<char>,
    /// The message of a terminal error.
    pub error: Seq<char>,
}

/// A key-directory file name that is not a private key by convention.
pub open spec fn is_skipped_key_name(name: Seq<char>) -> bool {
    ||| is_suffix(".pub"@, name)
    ||| is_prefix("known_hosts"@, name)
    ||| name == "config"@
    ||| name == "authorized_keys"@
}

/// The names that the default-key probe tries, in directory order: the
/// entries that are files and not skipped by name.
pub open spec fn candidate_names(entries: Seq<(Seq<char>, bool)>) -> Seq<Seq<char>>
    decreases entries.len(),
{
    if entries.len() == 0 {
        Seq::empty()
    } else {
        let rest = candidate_names(entries.drop_last());
        let e = entries.last();
        if !e.1 && !is_skipped_key_name(e.0) {
            rest.push(e.0)
        } else {
            rest
        }
    }
}

pub open spec fn message_of(ev: EventView) -> Seq<char> {
    match ev {
        EventView::Failed(m) => m,
        _ => "意外的结果"@,
    }
}

pub open spec fn no_key_accepted() -> Seq<char> {
    "密钥认证全数失败"@
}

/// The state of a fresh attempt.
pub open spec fn initial_state() -> ConnState {
    ConnState {
        stage: Stage::OpenTcp,
        candidates: Seq::empty(),
        next: 0,
        auth_error: Seq::empty(),
        error: Seq::empty(),
    }
}

/// A password that can be tried: set and not empty.
pub open spec fn has_password(cred: ServerConfig) -> bool {
    cred.password is Some && cred.password->0@.len() > 0
}

/// A key file that is configured: set and not empty.
pub open spec fn has_key_path(cred: ServerConfig) -> bool {
    cred.key_path is Some && cred.key_path->0@.len() > 0
}

/// Where authentication starts once the handshake is done.
pub open spec fn auth_start(cred: ServerConfig, s: ConnState) -> ConnState {
    if cred.auth_type@ == "password"@ {
        if has_password(cred) {
            ConnState { stage: Stage::Password, ..s }
        } else {
            ConnState { stage: Stage::Probe, auth_error: "密码为空"@, ..s }
        }
    } else if cred.auth_type@ == "key"@ {
        if has_key_path(cred) {
            ConnState { stage: Stage::ExplicitKey, ..s }
        } else {
            ConnState { stage: Stage::Agent, ..s }
        }
    } else {
        ConnState { stage: Stage::Probe, auth_error: "不支持的认证类型"@, ..s }
    }
}

/// The state after `ev` was observed in state `s`.
pub open spec fn next_state(cred: ServerConfig, s: ConnState, ev: EventView) -> ConnState {
    let ok = ev is Succeeded;
    match s.stage {
        Stage::OpenTcp => if ok {
            ConnState { stage: Stage::CreateSession, ..s }
        } else {
            ConnState {
                stage: Stage::Failed(ConnectErrorKind::Connect),
                error: "TCP 连接失败: "@ + message_of(ev),
                ..s
            }
        },
        Stage::CreateSession => if ok {
            ConnState { stage: Stage::Handshake, ..s }
        } else {
            ConnState {
                stage: Stage::Failed(ConnectErrorKind::Connect),
                error: "Session 创建失败: "@ + message_of(ev),
                ..s
            }
        },
        Stage::Handshake => if ok {
            auth_start(cred, s)
        } else {
            ConnState {
                stage: Stage::Failed(ConnectErrorKind::Handshake),
                error: "SSH 握手失败: "@ + message_of(ev),
                ..s
            }
        },
        Stage::Password => if ok {
            ConnState { stage: Stage::CheckSession, ..s }
        } else {
            ConnState { stage: Stage::Probe, auth_error: message_of(ev), ..s }
        },
        Stage::ExplicitKey => if ok {
            ConnState { stage: Stage::CheckSession, ..s }
        } else {
            ConnState { stage: Stage::Agent, ..s }
        },
        Stage::Agent => if ok {
            ConnState { stage: Stage::CheckSession, ..s }
        } else {
            ConnState { stage: Stage::ListKeyDir, ..s }
        },
        Stage::ListKeyDir => {
            let cands = match ev {
                EventView::KeyDirListed(es) => candidate_names(es),
                _ => Seq::empty(),
            };
            if cands.len() > 0 {
                ConnState { stage: Stage::DirKey, candidates: cands, next: 0, ..s }
            } else {
                ConnState {
                    stage: Stage::Probe,
                    candidates: cands,
                    next: 0,
                    auth_error: no_key_accepted(),
                    ..s
                }
            }
        },
        Stage::DirKey => if ok {
            ConnState { stage: Stage::CheckSession, ..s }
        } else if s.next + 1 < s.candidates.len() {
            ConnState { next: s.next + 1, ..s }
        } else {
            ConnState { stage: Stage::Probe, auth_error: no_key_accepted(), ..s }
        },
        Stage::CheckSession => if ok {
            ConnState { stage: Stage::Connected(AuthMode::LibSsh2), ..s }
        } else {
            ConnState { stage: Stage::Probe, auth_error: "认证未通过"@, ..s }
        },
        Stage::Probe => if ok {
            ConnState { stage: Stage::Connected(AuthMode::NativeSsh), ..s }
        } else {
            ConnState { stage: Stage::Failed(ConnectErrorKind::Auth), error: s.auth_error, ..s }
        },
        Stage::Connected(_) => s,
        Stage::Failed(_) => s,
    }
}

/// The first transcript line: where and as whom the attempt connects.
pub open spec fn opening_line(cred: ServerConfig) -> Seq<char> {
    "开始连接到 "@ + cred.host@ + ":"@ + decimal(cred.port as nat) + " (User: "@ + cred.user@ + ")..."@
}

/// The lines that record the end of native authentication with error `e` and
/// the start of the external probe.
pub open spec fn fallback_lines(e: Seq<char>) -> Seq<Seq<char>> {
    seq!["认证流程结束: "@ + e, "--------------------------------"@, "尝试系统原生 SSH 命令..."@]
}

/// The line that records trying the default-directory key file `name`.
pub open spec fn trying_key_line(name: Seq<char>) -> Seq<char> {
    "尝试密钥文件: "@ + str_debug_of(name)
}

/// The lines that record where authentication starts.
pub open spec fn auth_start_lines(cred: ServerConfig) -> Seq<Seq<char>> {
    if cred.auth_type@ == "password"@ {
        if has_password(cred) {
            seq!["尝试密码认证..."@]
        } else {
            seq!["尝试密码认证..."@, "密码为空"@] + fallback_lines("密码为空"@)
        }
    } else if cred.auth_type@ == "key"@ {
        if has_key_path(cred) {
            seq!["尝试密钥认证..."@, "尝试指定密钥: "@ + cred.key_path->0@]
        } else {
            seq!["尝试密钥认证..."@, "尝试 SSH Agent..."@]
        }
    } else {
        fallback_lines("不支持的认证类型"@)
    }
}

/// The lines that observing `ev` in state `s` adds to the transcript.
pub open spec fn log_lines(cred: ServerConfig, s: ConnState, ev: EventView) -> Seq<Seq<char>> {
    let ok = ev is Succeeded;
    let m = message_of(ev);
    match s.stage {
        Stage::OpenTcp => if ok {
            seq!["TCP 连接成功"@]
        } else {
            seq!["TCP 连接失败: "@ + m]
        },
        Stage::CreateSession => if ok {
            Seq::empty()
        } else {
            seq!["Session 创建失败: "@ + m]
        },
        Stage::Handshake => if ok {
            seq!["SSH 握手成功"@] + auth_start_lines(cred)
        } else {
            seq!["SSH 握手失败: "@ + m]
        },
        Stage::Password => if ok {
            seq!["密码认证成功"@]
        } else {
            seq!["密码认证失败: "@ + m] + fallback_lines(m)
        },
        Stage::ExplicitKey => if ok {
            seq!["指定密钥认证成功"@]
        } else {
            seq!["指定密钥认证失败: "@ + m, "尝试 SSH Agent..."@]
        },
        Stage::Agent => if ok {
            seq!["SSH Agent 认证成功"@]
        } else {
            seq!["SSH Agent 认证失败/跳过: "@ + m, "尝试自动探测 .ssh 目录..."@]
        },
        Stage::ListKeyDir => {
            let cands = next_state(cred, s, ev).candidates;
            if cands.len() > 0 {
                seq![trying_key_line(cands[0])]
            } else if ev is KeyDirListed {
                seq!["所有密钥尝试均失败"@] + fallback_lines(no_key_accepted())
            } else {
                seq![m, "所有密钥尝试均失败"@] + fallback_lines(no_key_accepted())
            }
        },
        Stage::DirKey => if ok {
            seq!["认证成功!"@]
        } else if s.next + 1 < s.candidates.len() {
            seq!["密钥文件不匹配: "@ + m, trying_key_line(s.candidates[s.next + 1])]
        } else {
            seq!["密钥文件不匹配: "@ + m, "所有密钥尝试均失败"@] + fallback_lines(no_key_accepted())
        },
        Stage::CheckSession => if ok {
            seq!["最终认证状态: 已连接"@]
        } else {
            seq!["Session 标记为未认证"@] + fallback_lines("认证未通过"@)
        },
        Stage::Probe => if ok {
            seq![
                "✅ 原生 SSH 测试成功: 连接成功 (Exit 0)"@,
                "📌 诊断: 服务器可达,密钥有效,但 Flick 内置库不支持您的密钥格式"@,
                "💡 当前可以正常使用文件上传功能(将使用系统 scp 命令)"@,
            ]
        } else {
            seq!["❌ 原生 SSH 也失败: "@ + m, "诊断: 网络不通或配置错误,请检查 IP、端口、用户名"@]
        },
        Stage::Connected(_) => Seq::empty(),
        Stage::Failed(_) => Seq::empty(),
    }
}

/// The states that the attempt can be in.
pub open spec fn state_wf(cred: ServerConfig, s: ConnState) -> bool {
    &&& (s.stage == Stage::Password ==> cred.password is Some)
    &&& (s.stage == Stage::ExplicitKey ==> cred.key_path is Some)
    &&& (s.stage == Stage::DirKey ==> 0 <= s.next < s.candidates.len())
}

/// The step that the driver is asked to perform in state `s`.
pub open spec fn step_matches(cred: ServerConfig, s: ConnState, r: ConnectStep) -> bool {
    match s.stage {
        Stage::OpenTcp => r is OpenTcp,
        Stage::CreateSession => r is CreateSession,
        Stage::Handshake => r is Handshake,
        Stage::Password => r is AuthPassword && r->AuthPassword_0@ == cred.password->0@,
        Stage::ExplicitKey => r is AuthKeyFile && r->AuthKeyFile_0@ == cred.key_path->0@,
        Stage::Agent => r is AuthAgent,
        Stage::ListKeyDir => r is ListKeyDir,
        Stage::DirKey => r is AuthDirKey && r->AuthDirKey_0@ == s.candidates[s.next],
        Stage::CheckSession => r is CheckSession,
        Stage::Probe => r is Probe,
        Stage::Connected(_) => r is Finished,
        Stage::Failed(_) => r is Finished,
    }
}

/// `e` is an error of kind `k` with message `m`.
pub open spec fn error_matches(e: ConnectError, k: ConnectErrorKind, m: Seq<char>) -> bool {
    match e {
        ConnectError::Connect(s) => k == ConnectErrorKind::Connect && s@ == m,
        ConnectError::Handshake(s) => k == ConnectErrorKind::Handshake && s@ == m,
        ConnectError::Auth(s) => k == ConnectErrorKind::Auth && s@ == m,
    }
}

/// Every name that the default-key probe tries is a file of the listing
/// whose name is not skipped.
pub proof fn lemma_candidates_are_unskipped_files(entries: Seq<(Seq<char>, bool)>)
    ensures
        forall|i: int|
            0 <= i < candidate_names(entries).len() ==> {
                &&& !is_skipped_key_name(#[trigger] candidate_names(entries)[i])
                &&& entries.contains((candidate_names(entries)[i], false))
            },
    decreases entries.len(),
{
    if entries.len() > 0 {
        let init = entries.drop_last();
        lemma_candidates_are_unskipped_files(init);
        assert forall|i: int| 0 <= i < candidate_names(entries).len() implies {
            &&& !is_skipped_key_name(#[trigger] candidate_names(entries)[i])
            &&& entries.contains((candidate_names(entries)[i], false))
        } by {
            let rest = candidate_names(init);
            if i < rest.len() {
                assert(candidate_names(entries)[i] == rest[i]);
                let j = choose|j: int| 0 <= j < init.len() && init[j] == (rest[i], false);
                assert(entries[j] == init[j]);
            } else {
                assert(entries[entries.len() - 1] == entries.last());
            }
        }
    }
}

/// A listing in which every entry is a directory or a skipped name yields
/// no name to try.
pub proof fn lemma_no_candidates(entries: Seq<(Seq<char>, bool)>)
    requires
        forall|i: int| 0 <= i < entries.len() ==> #[trigger] entries[i].1 || is_skipped_key_name(entries[i].0),
    ensures
        candidate_names(entries).len() == 0,
    decreases entries.len(),
{
    if entries.len() > 0 {
        let init = entries.drop_last();
        assert forall|i: int| 0 <= i < init.len() implies #[trigger] init[i].1 || is_skipped_key_name(
            init[i].0,
        ) by {
            assert(init[i] == entries[i]);
        }
        lemma_no_candidates(init);
        assert(entries.last() == entries[entries.len() - 1]);
    }
}

/// Key authentication with no configured key: when the agent fails and the
/// default key directory holds only directories and skipped names (public
/// keys, `known_hosts*`, `config`, `authorized_keys`), no file of it is tried,
/// and when the external probe fails too the attempt ends in an
/// authentication error.  The stages visited are exactly: TCP, session,
/// handshake, agent, key-directory listing, probe.
pub proof fn lemma_skipped_key_files_never_tried(
    cred: ServerConfig,
    entries: Seq<(Seq<char>, bool)>,
    agent_error: Seq<char>,
    probe_error: Seq<char>,
)
    requires
        cred.auth_type@ == "key"@,
        cred.key_path is None || cred.key_path->0@.len() == 0,
        forall|i: int| 0 <= i < entries.len() ==> #[trigger] entries[i].1 || is_skipped_key_name(entries[i].0),
    ensures
        ({
            let s0 = next_state(cred, initial_state(), EventView::Succeeded);
            let s1 = next_state(cred, s0, EventView::Succeeded);
            let s2 = next_state(cred, s1, EventView::Succeeded);
            let s3 = next_state(cred, s2, EventView::Failed(agent_error));
            let s4 = next_state(cred, s3, EventView::KeyDirListed(entries));
            let s5 = next_state(cred, s4, EventView::Failed(probe_error));
            &&& s0.stage == Stage::CreateSession
            &&& s1.stage == Stage::Handshake
            &&& s2.stage == Stage::Agent
            &&& s3.stage == Stage::ListKeyDir
            &&& s4.stage == Stage::Probe
            &&& s4.candidates.len() == 0
            &&& s5.stage == Stage::Failed(ConnectErrorKind::Auth)
            &&& s5.error == no_key_accepted()
        }),
{
    reveal_strlit("key");
    reveal_strlit("password");
    assert("key"@ != "password"@) by {
        assert("key"@.len() != "password"@.len());
    }
    lemma_no_candidates(entries);
}

/// Only the key-directory listing sets the names to try, and they are the
/// listing's candidates; every `AuthDirKey` step, from any state, names a
/// file of that listing that is not skipped by name.
pub proof fn lemma_dir_keys_come_from_listing(
    cred: ServerConfig,
    s: ConnState,
    ev: EventView,
    entries: Seq<(Seq<char>, bool)>,
    r: ConnectStep,
)
    requires
        state_wf(cred, s),
        step_matches(cred, s, r),
        s.stage == Stage::ListKeyDir ==> ev == EventView::KeyDirListed(entries),
        s.stage != Stage::ListKeyDir ==> s.candidates == candidate_names(entries),
    ensures
        s.stage != Stage::ListKeyDir ==> next_state(cred, s, ev).candidates == s.candidates,
        s.stage == Stage::ListKeyDir ==> next_state(cred, s, ev).candidates == candidate_names(entries),
        r is AuthDirKey ==> !is_skipped_key_name(r->AuthDirKey_0@) && entries.contains(
            (r->AuthDirKey_0@, false),
        ),
{
    lemma_candidates_are_unskipped_files(entries);
    if r is AuthDirKey {
        assert(s.candidates[s.next] == r->AuthDirKey_0@);
    }
}

/// Drives one connection attempt: the password, explicit key, agent and
/// default-key-directory methods in turn, then the external probe.
pub struct Connector {
    credential: ServerConfig,
    stage: Stage,
    candidates: Vec<String>,
    next: usize,
    auth_error: String,
    error: String,
    transcript: Vec<String>,
}

pub fn is_probe_candidate(name: &str) -> (r: bool)
    ensures
        r == !is_skipped_key_name(name@),
{
    proof {
        reveal_strlit("config");
        reveal_strlit("authorized_keys");
    }
    !(ends_with(name, ".pub") || starts_with(name, "known_hosts") || same_text(name, "config")
        || same_text(name, "authorized_keys"))
}

/// The entries of a key directory that the default-key probe tries.
pub fn probe_candidates(entries: &Vec<KeyDirEntry>) -> (r: Vec<String>)
    ensures
        r@.map_values(|s: String| s@) == candidate_names(entries@.map_values(|e: KeyDirEntry| e@)),
{
    let mut out: Vec<String> = Vec::new();
    let mut i: usize = 0;
    while i < entries.len()
        invariant
            i <= entries@.len(),
            out@.map_values(|s: String| s@) == candidate_names(
                entries@.take(i as int).map_values(|e: KeyDirEntry| e@),
            ),
        decreases entries@.len() - i,
    {
        let e = &entries[i];
        proof {
            let es = entries@.take(i as int + 1).map_values(|e: KeyDirEntry| e@);
            assert(es.drop_last() == entries@.take(i as int).map_values(|e: KeyDirEntry| e@));
            assert(es.last() == entries@[i as int]@);
        }
        if !e.is_dir && is_probe_candidate(e.name.as_str()) {
            out.push(e.name.clone());
            proof {
                assert(out@.map_values(|s: String| s@) =~= candidate_names(
                    entries@.take(i as int).map_values(|e: KeyDirEntry| e@),
                ).push(e.name@));
            }
        }
        i = i + 1;
    }
    proof {
        assert(entries@.take(entries@.len() as int) == entries@);
    }
    out
}

fn text(s: &str) -> (r: String)
    ensures
        r@ == s@,
{
    String::from_str(s)
}

fn line(head: &str, detail: &String) -> (r: String)
    ensures
        r@ == head@ + detail@,
{
    let mut r = String::from_str(head);
    r.append(detail.as_str());
    r
}

impl Connector {
    /// The attempt as plain values.
    pub closed spec fn state(&self) -> ConnState {
        ConnState {
            stage: self.stage,
            candidates: self.candidates@.map_values(|s: String| s@),
            next: self.next as int,
            auth_error: self.auth_error@,
            error: self.error@,
        }
    }

    pub closed spec fn cred(&self) -> ServerConfig {
        self.credential
    }

    pub closed spec fn log(&self) -> Seq<Seq<char>> {
        self.transcript@.map_values(|s: String| s@)
    }

    pub open spec fn wf(&self) -> bool {
        state_wf(self.cred(), self.state())
    }

    /// A fresh attempt to connect with `credential`.
    pub fn new(credential: ServerConfig) -> (r: Connector)
        ensures
            r.wf(),
            r.state() == initial_state(),
            r.cred() == credential,
            r.log() == seq![opening_line(credential)],
    {
        let mut transcript: Vec<String> = Vec::new();
        let mut head = String::from_str("开始连接到 ");
        head.append(credential.host.as_str());
        head.append(":");
        let port = decimal_text(credential.port as u64);
        head.append(port.as_str());
        head.append(" (User: ");
        head.append(credential.user.as_str());
        head.append(")...");
        let ghost h = head@;
        transcript.push(head);
        let r = Connector {
            credential,
            stage: Stage::OpenTcp,
            candidates: Vec::new(),
            next: 0,
            auth_error: String::new(),
            error: String::new(),
            transcript,
        };
        proof {
            assert(r.state().candidates =~= Seq::<Seq<char>>::empty());
            assert(r.log() =~= seq![h]);
        }
        r
    }

    /// Where the attempt stands.
    pub fn stage(&self) -> (r: Stage)
        ensures
            r == self.state().stage,
    {
        self.stage
    }

    /// The credential being tried.
    pub fn credential(&self) -> (r: &ServerConfig)
        ensures
            *r == self.cred(),
    {
        &self.credential
    }

    /// Every step taken so far and its outcome, one line each, in order.
    pub fn transcript(&self) -> (r: &Vec<String>)
        ensures
            r@.map_values(|s: String| s@) == self.log(),
    {
        &self.transcript
    }

    /// What the driver must do next.
    pub fn next_step(&self) -> (r: ConnectStep)
        requires
            self.wf(),
        ensures
            step_matches(self.cred(), self.state(), r),
    {
        match self.stage {
            Stage::OpenTcp => ConnectStep::OpenTcp,
            Stage::CreateSession => ConnectStep::CreateSession,
            Stage::Handshake => ConnectStep::Handshake,
            Stage::Password => {
                let p = self.credential.password.as_ref().unwrap();
                ConnectStep::AuthPassword(p.clone())
            },
            Stage::ExplicitKey => {
                let k = self.credential.key_path.as_ref().unwrap();
                ConnectStep::AuthKeyFile(k.clone())
            },
            Stage::Agent => ConnectStep::AuthAgent,
            Stage::ListKeyDir => ConnectStep::ListKeyDir,
            Stage::DirKey => ConnectStep::AuthDirKey(self.candidates[self.next].clone()),
            Stage::CheckSession => ConnectStep::CheckSession,
            Stage::Probe => ConnectStep::Probe,
            Stage::Connected(_) => ConnectStep::Finished,
            Stage::Failed(_) => ConnectStep::Finished,
        }
    }

    /// How the attempt ended, once it has.
    pub fn outcome(&self) -> (r: Option<Result<AuthMode, ConnectError>>)
        ensures
            match self.state().stage {
                Stage::Connected(m) => r == Some(Ok::<AuthMode, ConnectError>(m)),
                Stage::Failed(k) => r is Some && r->0 is Err && error_matches(
                    r->0->Err_0,
                    k,
                    self.state().error,
                ),
                _ => r is None,
            },
    {
        match self.stage {
            Stage::Connected(m) => Some(Ok(m)),
            Stage::Failed(ConnectErrorKind::Connect) => Some(Err(ConnectError::Connect(self.error.clone()))),
            Stage::Failed(ConnectErrorKind::Handshake) => Some(
                Err(ConnectError::Handshake(self.error.clone())),
            ),
            Stage::Failed(ConnectErrorKind::Auth) => Some(Err(ConnectError::Auth(self.error.clone()))),
            _ => None,
        }
    }

    /// The message carried by a failure event.
    fn event_message(ev: &ConnectEvent) -> (r: String)
        ensures
            r@ == message_of(ev@),
    {
        match ev {
            ConnectEvent::Failed(m) => m.clone(),
            _ => text("意外的结果"),
        }
    }

    /// Records what the driver observed and moves the attempt on.
    pub fn advance(&mut self, ev: ConnectEvent)
        requires
            old(self).wf(),
        ensures
            final(self).wf(),
            final(self).state() == next_state(old(self).cred(), old(self).state(), ev@),
            final(self).cred() == old(self).cred(),
            final(self).log() == old(self).log() + log_lines(old(self).cred(), old(self).state(), ev@),
    {
        let ghost old_log = self.log();
        let ghost s0 = self.state();
        let ok = match &ev {
            ConnectEvent::Succeeded => true,
            _ => false,
        };
        let msg = Self::event_message(&ev);
        proof {
            reveal_strlit("意外的结果");
        }
        match self.stage {
            Stage::OpenTcp => {
                if ok {
                    self.stage = Stage::CreateSession;
                    self.note(text("TCP 连接成功"));
                } else {
                    self.stage = Stage::Failed(ConnectErrorKind::Connect);
                    let l = line("TCP 连接失败: ", &msg);
                    self.error = l.clone();
                    self.note(l);
                }
            },
            Stage::CreateSession => {
                if ok {
                    self.stage = Stage::Handshake;
                } else {
                    self.stage = Stage::Failed(ConnectErrorKind::Connect);
                    let l = line("Session 创建失败: ", &msg);
                    self.error = l.clone();
                    self.note(l);
                }
            },
            Stage::Handshake => {
                if ok {
                    self.note(text("SSH 握手成功"));
                    self.start_auth();
                } else {
                    self.stage = Stage::Failed(ConnectErrorKind::Handshake);
                    let l = line("SSH 握手失败: ", &msg);
                    self.error = l.clone();
                    self.note(l);
                }
            },
            Stage::Password => {
                if ok {
                    self.stage = Stage::CheckSession;
                    self.note(text("密码认证成功"));
                } else {
                    self.note(line("密码认证失败: ", &msg));
                    self.fall_back(msg);
                }
            },
            Stage::ExplicitKey => {
                if ok {
                    self.stage = Stage::CheckSession;
                    self.note(text("指定密钥认证成功"));
                } else {
                    self.stage = Stage::Agent;
                    self.note(line("指定密钥认证失败: ", &msg));
                    self.note(text("尝试 SSH Agent..."));
                }
            },
            Stage::Agent => {
                if ok {
                    self.stage = Stage::CheckSession;
                    self.note(text("SSH Agent 认证成功"));
                } else {
                    self.stage = Stage::ListKeyDir;
                    self.note(line("SSH Agent 认证失败/跳过: ", &msg));
                    self.note(text("尝试自动探测 .ssh 目录..."));
                }
            },
            Stage::ListKeyDir => {
                let listed = match &ev {
                    ConnectEvent::KeyDirListed(_) => true,
                    _ => false,
                };
                let cands = match &ev {
                    ConnectEvent::KeyDirListed(es) => probe_candidates(es),
                    _ => Vec::new(),
                };
                proof {
                    if !(ev is KeyDirListed) {
                        assert(cands@.map_values(|s: String| s@) =~= Seq::<Seq<char>>::empty());
                    }
                }
                self.candidates = cands;
                self.next = 0;
                if self.candidates.len() > 0 {
                    self.stage = Stage::DirKey;
                    let d = str_debug(self.candidates[0].as_str());
                    self.note(line("尝试密钥文件: ", &d));
                } else {
                    if !listed {
                        self.note(msg);
                    }
                    self.note(text("所有密钥尝试均失败"));
                    self.fall_back(text("密钥认证全数失败"));
                }
            },
            Stage::DirKey => {
                assert(self.candidates@.map_values(|s: String| s@).len() == self.candidates@.len());
                if ok {
                    self.stage = Stage::CheckSession;
                    self.note(text("认证成功!"));
                } else if self.next < self.candidates.len() - 1 {
                    self.note(line("密钥文件不匹配: ", &msg));
                    self.next = self.next + 1;
                    let d = str_debug(self.candidates[self.next].as_str());
                    self.note(line("尝试密钥文件: ", &d));
                } else {
                    self.note(line("密钥文件不匹配: ", &msg));
                    self.note(text("所有密钥尝试均失败"));
                    self.fall_back(text("密钥认证全数失败"));
                }
            },
            Stage::CheckSession => {
                if ok {
                    self.stage = Stage::Connected(AuthMode::LibSsh2);
                    self.note(text("最终认证状态: 已连接"));
                } else {
                    self.note(text("Session 标记为未认证"));
                    self.fall_back(text("认证未通过"));
                }
            },
            Stage::Probe => {
                if ok {
                    self.stage = Stage::Connected(AuthMode::NativeSsh);
                    self.note(text("✅ 原生 SSH 测试成功: 连接成功 (Exit 0)"));
                    self.note(text("📌 诊断: 服务器可达,密钥有效,但 Flick 内置库不支持您的密钥格式"));
                    self.note(text("💡 当前可以正常使用文件上传功能(将使用系统 scp 命令)"));
                } else {
                    self.stage = Stage::Failed(ConnectErrorKind::Auth);
                    self.note(line("❌ 原生 SSH 也失败: ", &msg));
                    self.note(text("诊断: 网络不通或配置错误,请检查 IP、端口、用户名"));
                    self.error = self.auth_error.clone();
                }
            },
            Stage::Connected(_) => {},
            Stage::Failed(_) => {},
        }
        proof {
            assert(self.log() =~= old_log + log_lines(self.credential, s0, ev@));
        }
    }

    /// Native authentication ended with `e`: the probe comes next.
    fn fall_back(&mut self, e: String)
        ensures
            final(self).log() == old(self).log() + fallback_lines(e@),
            final(self).state() == (ConnState { stage: Stage::Probe, auth_error: e@, ..old(self).state() }),
            final(self).credential == old(self).credential,
            final(self).candidates == old(self).candidates,
            final(self).next == old(self).next,
    {
        let ghost old_log = self.log();
        self.note(line("认证流程结束: ", &e));
        self.note(text("--------------------------------"));
        self.note(text("尝试系统原生 SSH 命令..."));
        self.stage = Stage::Probe;
        self.auth_error = e;
        proof {
            assert(self.log() =~= old_log + fallback_lines(e@));
        }
    }

    fn start_auth(&mut self)
        requires
            old(self).wf(),
            old(self).stage == Stage::Handshake,
        ensures
            final(self).wf(),
            final(self).state() == auth_start(old(self).credential, old(self).state()),
            final(self).credential == old(self).credential,
            final(self).candidates == old(self).candidates,
            final(self).log() == old(self).log() + auth_start_lines(old(self).credential),
    {
        let ghost old_log = self.log();
        proof {
            reveal_strlit("password");
            reveal_strlit("key");
        }
        if same_text(self.credential.auth_type.as_str(), "password") {
            self.note(text("尝试密码认证..."));
            let usable = match &self.credential.password {
                Some(p) => p.unicode_len() > 0,
                None => false,
            };
            if usable {
                self.stage = Stage::Password;
            } else {
                self.note(text("密码为空"));
                self.fall_back(text("密码为空"));
            }
        } else if same_text(self.credential.auth_type.as_str(), "key") {
            self.note(text("尝试密钥认证..."));
            let usable = match &self.credential.key_path {
                Some(k) => k.unicode_len() > 0,
                None => false,
            };
            if usable {
                self.stage = Stage::ExplicitKey;
                let k = self.credential.key_path.as_ref().unwrap();
                let l = line("尝试指定密钥: ", k);
                self.note(l);
            } else {
                self.stage = Stage::Agent;
                self.note(text("尝试 SSH Agent..."));
            }
        } else {
            self.fall_back(text("不支持的认证类型"));
        }
        proof {
            assert(self.log() =~= old_log + auth_start_lines(self.credential));
        }
    }

    fn note(&mut self, l: String)
        ensures
            final(self).log() == old(self).log().push(l@),
            final(self).state() == old(self).state(),
            final(self).credential == old(self).credential,
            final(self).candidates == old(self).candidates,
    {
        self.transcript.push(l);
        proof {
            assert(final(self).log() =~= old(self).log().push(l@));
        }
    }
}

} // verus!
