use std::collections::HashMap;
use teemux_core::ssh_manager::DEFAULT_SSH_PORT;
use teemux_core::{
    AppError, AuthMethod, AuthType, Host, LoopbackStream, SSHKey, SSHKeyType, SSHManager,
    SnippetManager, Snippet, TerminalManager,
};

fn host(auth_type: AuthType) -> Host {
    Host {
        id: "test-host".to_string(),
        label: "Test Host".to_string(),
        hostname: "localhost".to_string(),
        port: Some(22),
        username: Some("test".to_string()),
        password: Some("password".to_string()),
        private_key: None,
        private_key_path: None,
        passphrase: None,
        private_key_passphrase: None,
        tags: Some(Vec::new()),
        created_at: "2024-01-01T00:00:00+00:00".to_string(),
        updated_at: "2024-01-01T00:00:00+00:00".to_string(),
        last_connected: None,
        jump_host: None,
        use_jump_host: Some(false),
        ssh_options: HashMap::new(),
        keep_alive_interval: None,
        connection_timeout: Some(30000),
        description: None,
        color: None,
        group: None,
        favorite: Some(false),
        groups: Some(Vec::new()),
        auth_type,
        snippets: Vec::new(),
        connection_count: 0,
        is_pro_feature: false,
    }
}

fn key(path: &str, passphrase: Option<&str>) -> SSHKey {
    SSHKey {
        id: "k1".to_string(),
        name: "work".to_string(),
        key_type: SSHKeyType::Ed25519,
        bits: None,
        private_key_path: path.to_string(),
        public_key_path: format!("{}.pub", path),
        passphrase: passphrase.map(|p| p.to_string()),
        host_ids: Vec::new(),
        created_at: 0,
        updated_at: 0,
    }
}

#[test]
fn empty_hostname_is_a_validation_error() {
    let mut h = host(AuthType::Password);
    h.hostname = String::new();
    assert!(matches!(
        SSHManager::validate_target(&h),
        Err(AppError::ValidationError(m)) if m == "Missing hostname"
    ));
}

#[test]
fn missing_or_empty_username_is_a_validation_error() {
    let mut h = host(AuthType::Password);
    h.username = None;
    assert!(matches!(
        SSHManager::validate_target(&h),
        Err(AppError::ValidationError(m)) if m == "Missing username"
    ));
    h.username = Some(String::new());
    assert!(matches!(
        SSHManager::validate_target(&h),
        Err(AppError::ValidationError(m)) if m == "Missing username"
    ));
}

#[test]
fn target_address_uses_default_port() {
    let mut h = host(AuthType::Agent);
    h.hostname = "example.com".to_string();
    h.port = None;
    let t = SSHManager::validate_target(&h).unwrap();
    assert_eq!(t.address, "example.com:22");
    assert_eq!(t.username, "test");
    assert_eq!(DEFAULT_SSH_PORT, 22);
    h.port = Some(2222);
    assert_eq!(SSHManager::validate_target(&h).unwrap().address, "example.com:2222");
    h.port = Some(0);
    assert_eq!(SSHManager::validate_target(&h).unwrap().address, "example.com:0");
}

#[test]
fn password_auth_needs_a_password() {
    let h = host(AuthType::Password);
    assert!(matches!(
        SSHManager::select_auth(&h, None),
        Ok(AuthMethod::Password { password }) if password == "password"
    ));
    let mut empty = host(AuthType::Password);
    empty.password = Some(String::new());
    assert!(matches!(
        SSHManager::select_auth(&empty, None),
        Err(AppError::ValidationError(m)) if m == "Missing password"
    ));
    empty.password = None;
    assert!(matches!(
        SSHManager::select_auth(&empty, None),
        Err(AppError::ValidationError(m)) if m == "Missing password"
    ));
}

#[test]
fn key_auth_without_any_path_is_a_validation_error() {
    let h = host(AuthType::Key);
    assert!(matches!(
        SSHManager::select_auth(&h, None),
        Err(AppError::ValidationError(m)) if m == "Missing private key"
    ));
}

#[test]
fn key_auth_without_path_fails_before_any_exchange() {
    let transport = ssh2::Session::new().unwrap();
    let h = host(AuthType::Key);
    assert!(matches!(
        SSHManager::authenticate(&transport, &h, None),
        Err(AppError::ValidationError(m)) if m == "Missing private key"
    ));
    let mut nobody = host(AuthType::Agent);
    nobody.username = None;
    assert!(matches!(
        SSHManager::authenticate(&transport, &nobody, None),
        Err(AppError::ValidationError(m)) if m == "Missing username"
    ));
}

#[test]
fn explicit_key_takes_precedence_over_host_path() {
    let mut h = host(AuthType::Key);
    h.private_key_path = Some("/home/u/.ssh/id_host".to_string());
    h.private_key_passphrase = Some("host-secret".to_string());
    match SSHManager::select_auth(&h, None) {
        Ok(AuthMethod::Key { private_key_path, passphrase }) => {
            assert_eq!(private_key_path, "/home/u/.ssh/id_host");
            assert_eq!(passphrase, Some("host-secret".to_string()));
        }
        _ => panic!("expected key authentication"),
    }
    let k = key("/keys/id_ed25519", Some("key-secret"));
    match SSHManager::select_auth(&h, Some(&k)) {
        Ok(AuthMethod::Key { private_key_path, passphrase }) => {
            assert_eq!(private_key_path, "/keys/id_ed25519");
            assert_eq!(passphrase, Some("key-secret".to_string()));
        }
        _ => panic!("expected key authentication"),
    }
    let bare = key("/keys/id_rsa", None);
    match SSHManager::select_auth(&h, Some(&bare)) {
        Ok(AuthMethod::Key { private_key_path, passphrase }) => {
            assert_eq!(private_key_path, "/keys/id_rsa");
            assert_eq!(passphrase, Some("host-secret".to_string()));
        }
        _ => panic!("expected key authentication"),
    }
}

#[test]
fn agent_auth_needs_nothing() {
    let mut h = host(AuthType::Agent);
    h.password = None;
    assert!(matches!(SSHManager::select_auth(&h, None), Ok(AuthMethod::Agent)));
}

#[test]
fn session_id_format() {
    assert_eq!(SSHManager::session_id_for(1700000000, "abc"), "session-1700000000-abc");
    assert_eq!(SSHManager::session_id_for(0, "x"), "session-0-x");
}

#[test]
fn empty_manager_lookups() {
    let mut m = SSHManager::new();
    assert!(m.get_session("s").is_none());
    assert!(m.get_all_sessions().is_empty());
    assert!(!m.remove_session("s"));
    assert!(matches!(
        m.setup_sftp("s"),
        Err(AppError::SessionError(msg)) if msg == "Session not found"
    ));
}

#[test]
fn disconnect_unknown_session_is_a_session_error() {
    let mut m = SSHManager::new();
    let mut terminals: TerminalManager<LoopbackStream> = TerminalManager::new();
    let id = terminals.create_terminal("other");
    terminals.take_events();
    assert_eq!(
        m.disconnect(&mut terminals, "session-1-x"),
        Err(AppError::SessionError("Session not found".to_string()))
    );
    assert!(terminals.has_terminal(&id));
    assert!(terminals.take_events().is_empty());
}

#[test]
fn error_texts() {
    assert_eq!(
        AppError::ValidationError("Missing hostname".to_string()).to_string(),
        "Validation error: Missing hostname"
    );
    assert_eq!(AppError::SshError("x".to_string()).to_string(), "SSH error: x");
    assert_eq!(AppError::NotFoundError("t".to_string()).to_string(), "Not found: t");
    assert_eq!(AppError::PermissionError("p".to_string()).to_string(), "Permission denied: p");
    assert_eq!(AppError::IOError("e".to_string()).to_string(), "IO error: e");
}

#[test]
fn snippet_input_ends_with_newline() {
    let s = Snippet {
        id: "sn1".to_string(),
        name: "list".to_string(),
        description: None,
        command: "ls -la".to_string(),
        tags: Vec::new(),
        created_at: 0,
        updated_at: 0,
    };
    assert_eq!(SnippetManager::snippet_input(&s), "ls -la\n");
    let m = SnippetManager::new();
    assert!(m.inputs_on_connect(&vec!["sn1".to_string()]).is_empty());
}

#[test]
fn refused_password_auth_is_an_ssh_error() {
    let transport = ssh2::Session::new().unwrap();
    let h = host(AuthType::Password);
    match SSHManager::authenticate(&transport, &h, None) {
        Err(AppError::SshError(m)) => assert!(m.starts_with("Password auth failed: ")),
        other => panic!("unexpected {:?}", other),
    }
}

#[test]
fn shell_on_unconnected_transport_is_an_ssh_error() {
    let transport = ssh2::Session::new().unwrap();
    match SSHManager::open_shell(&transport) {
        Err(AppError::SshError(m)) => assert!(m.starts_with("Channel creation failed: ")),
        Err(other) => panic!("unexpected {:?}", other),
        Ok(_) => panic!("a shell opened without a connection"),
    }
}

#[test]
fn auth_reply_maps_the_remote_answer() {
    let password = AuthMethod::Password { password: "p".to_string() };
    assert_eq!(SSHManager::auth_reply(&password, Ok(())), Ok(()));
    assert_eq!(
        SSHManager::auth_reply(&password, Err("denied".to_string())),
        Err(AppError::SshError("Password auth failed: denied".to_string()))
    );
    let key = AuthMethod::Key { private_key_path: "/k".to_string(), passphrase: None };
    assert_eq!(
        SSHManager::auth_reply(&key, Err("bad key".to_string())),
        Err(AppError::SshError("Key auth failed: bad key".to_string()))
    );
    assert_eq!(
        SSHManager::auth_reply(&AuthMethod::Agent, Err("no agent".to_string())),
        Err(AppError::SshError("Agent auth failed: no agent".to_string()))
    );
}

#[test]
fn pty_size_request_in_cells_and_pixels() {
    assert_eq!(teemux_core::ssh_manager::pty_size_request(24, 80), (80, 24, 640, 192));
    assert_eq!(
        teemux_core::ssh_manager::pty_size_request(u16::MAX, 1),
        (1, 65535, 8, 65535 * 8)
    );
}
