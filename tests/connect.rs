use flick::config::ServerConfig;
use flick::connect::{
    is_probe_candidate, probe_candidates, AuthMode, ConnectError, ConnectEvent, ConnectStep, Connector,
    KeyDirEntry, Stage,
};

fn key_cred(key: Option<&str>) -> ServerConfig {
    let mut c = ServerConfig::default();
    c.auth_type = "key".into();
    c.password = None;
    c.key_path = key.map(|k| k.to_string());
    c
}

fn entry(name: &str, is_dir: bool) -> KeyDirEntry {
    KeyDirEntry { name: name.into(), is_dir }
}

fn connected(c: &mut Connector) {
    c.advance(ConnectEvent::Succeeded);
    c.advance(ConnectEvent::Succeeded);
    c.advance(ConnectEvent::Succeeded);
}

#[test]
fn skipped_key_files_are_never_tried() {
    let mut c = Connector::new(key_cred(None));
    let mut steps = Vec::new();
    let mut events = vec![
        ConnectEvent::Succeeded,
        ConnectEvent::Succeeded,
        ConnectEvent::Succeeded,
        ConnectEvent::Failed("no agent".into()),
        ConnectEvent::KeyDirListed(vec![entry("id_rsa.pub", false), entry("known_hosts", false), entry("config", false)]),
        ConnectEvent::Failed("probe failed".into()),
    ]
    .into_iter();
    loop {
        let s = c.next_step();
        if s == ConnectStep::Finished {
            break;
        }
        steps.push(s);
        c.advance(events.next().unwrap());
    }
    assert_eq!(
        steps,
        vec![
            ConnectStep::OpenTcp,
            ConnectStep::CreateSession,
            ConnectStep::Handshake,
            ConnectStep::AuthAgent,
            ConnectStep::ListKeyDir,
            ConnectStep::Probe
        ]
    );
    match c.outcome() {
        Some(Err(ConnectError::Auth(m))) => assert_eq!(m, "密钥认证全数失败"),
        other => panic!("unexpected outcome {:?}", other),
    }
    assert!(!c.transcript().iter().any(|l| l.starts_with("尝试密钥文件")));
}

#[test]
fn key_files_tried_in_order_then_probe_succeeds() {
    let mut c = Connector::new(key_cred(Some("/my/key")));
    connected(&mut c);
    assert_eq!(c.next_step(), ConnectStep::AuthKeyFile("/my/key".into()));
    c.advance(ConnectEvent::Failed("bad key".into()));
    assert_eq!(c.next_step(), ConnectStep::AuthAgent);
    c.advance(ConnectEvent::Failed("no agent".into()));
    c.advance(ConnectEvent::KeyDirListed(vec![
        entry("id_ed25519", false),
        entry("id_ed25519.pub", false),
        entry("keys", true),
        entry("known_hosts.old", false),
        entry("authorized_keys", false),
        entry("work", false),
    ]));
    assert_eq!(c.next_step(), ConnectStep::AuthDirKey("id_ed25519".into()));
    assert_eq!(c.transcript().last().unwrap(), "尝试密钥文件: \"id_ed25519\"");
    c.advance(ConnectEvent::Failed("rejected".into()));
    assert_eq!(c.next_step(), ConnectStep::AuthDirKey("work".into()));
    c.advance(ConnectEvent::Failed("rejected".into()));
    assert_eq!(c.next_step(), ConnectStep::Probe);
    c.advance(ConnectEvent::Succeeded);
    assert_eq!(c.stage(), Stage::Connected(AuthMode::NativeSsh));
    assert!(matches!(c.outcome(), Some(Ok(AuthMode::NativeSsh))));
}

#[test]
fn password_flow_and_terminal_errors() {
    let mut c = Connector::new(ServerConfig::default());
    connected(&mut c);
    assert_eq!(c.next_step(), ConnectStep::AuthPassword("123456".into()));
    c.advance(ConnectEvent::Succeeded);
    assert_eq!(c.next_step(), ConnectStep::CheckSession);
    c.advance(ConnectEvent::Succeeded);
    assert!(matches!(c.outcome(), Some(Ok(AuthMode::LibSsh2))));

    let mut t = Connector::new(ServerConfig::default());
    t.advance(ConnectEvent::Failed("refused".into()));
    assert!(matches!(t.outcome(), Some(Err(ConnectError::Connect(ref m))) if m == "TCP 连接失败: refused"));
    assert_eq!(t.next_step(), ConnectStep::Finished);

    let mut n = Connector::new(ServerConfig::default());
    n.advance(ConnectEvent::Succeeded);
    n.advance(ConnectEvent::Failed("out of memory".into()));
    assert!(matches!(n.outcome(), Some(Err(ConnectError::Connect(ref m))) if m == "Session 创建失败: out of memory"));

    let mut h = Connector::new(ServerConfig::default());
    h.advance(ConnectEvent::Succeeded);
    h.advance(ConnectEvent::Succeeded);
    h.advance(ConnectEvent::Failed("bad banner".into()));
    assert!(matches!(h.outcome(), Some(Err(ConnectError::Handshake(ref m))) if m == "SSH 握手失败: bad banner"));
}

#[test]
fn empty_password_goes_straight_to_probe_and_keeps_native_error() {
    let mut cred = ServerConfig::default();
    cred.password = Some(String::new());
    let mut c = Connector::new(cred);
    connected(&mut c);
    assert_eq!(c.next_step(), ConnectStep::Probe);
    c.advance(ConnectEvent::Failed("Exit code 255: denied".into()));
    assert!(matches!(c.outcome(), Some(Err(ConnectError::Auth(ref m))) if m == "密码为空"));
}

#[test]
fn probe_candidate_names() {
    assert!(is_probe_candidate("id_rsa"));
    assert!(!is_probe_candidate("id_rsa.pub"));
    assert!(!is_probe_candidate("known_hosts"));
    assert!(!is_probe_candidate("known_hosts2"));
    assert!(!is_probe_candidate("config"));
    assert!(!is_probe_candidate("authorized_keys"));
    assert!(is_probe_candidate("config.bak"));
    let c = probe_candidates(&vec![entry("a", false), entry("b", true), entry("c.pub", false), entry("d", false)]);
    assert_eq!(c, vec!["a".to_string(), "d".to_string()]);
}

#[test]
fn transcript_follows_each_step() {
    let mut cred = ServerConfig::default();
    cred.host = "example.org".into();
    cred.port = 2222;
    cred.user = "ann".into();
    let mut c = Connector::new(cred);
    assert_eq!(c.transcript(), &vec!["开始连接到 example.org:2222 (User: ann)...".to_string()]);
    connected(&mut c);
    c.advance(ConnectEvent::Failed("Authentication failed".into()));
    c.advance(ConnectEvent::Failed("Exit code 255: denied".into()));
    let expected: Vec<&str> = vec![
        "开始连接到 example.org:2222 (User: ann)...",
        "TCP 连接成功",
        "SSH 握手成功",
        "尝试密码认证...",
        "密码认证失败: Authentication failed",
        "认证流程结束: Authentication failed",
        "--------------------------------",
        "尝试系统原生 SSH 命令...",
        "❌ 原生 SSH 也失败: Exit code 255: denied",
        "诊断: 网络不通或配置错误,请检查 IP、端口、用户名",
    ];
    assert_eq!(c.transcript(), &expected);
    let n = c.transcript().len();
    c.advance(ConnectEvent::Failed("late".into()));
    assert_eq!(c.transcript().len(), n);
    assert!(matches!(c.outcome(), Some(Err(ConnectError::Auth(ref m))) if m == "Authentication failed"));
}

#[test]
fn probe_success_transcript() {
    let mut c = Connector::new(key_cred(None));
    connected(&mut c);
    c.advance(ConnectEvent::Failed("no agent".into()));
    c.advance(ConnectEvent::Failed("无法获取用户主目录".into()));
    c.advance(ConnectEvent::Succeeded);
    let t = c.transcript();
    let tail: Vec<&str> = t[t.len() - 10..].iter().map(|s| s.as_str()).collect();
    assert_eq!(
        tail,
        vec![
            "SSH Agent 认证失败/跳过: no agent",
            "尝试自动探测 .ssh 目录...",
            "无法获取用户主目录",
            "所有密钥尝试均失败",
            "认证流程结束: 密钥认证全数失败",
            "--------------------------------",
            "尝试系统原生 SSH 命令...",
            "✅ 原生 SSH 测试成功: 连接成功 (Exit 0)",
            "📌 诊断: 服务器可达,密钥有效,但 Flick 内置库不支持您的密钥格式",
            "💡 当前可以正常使用文件上传功能(将使用系统 scp 命令)",
        ]
    );
}
