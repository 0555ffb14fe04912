//! Sessions over SSH: checking a target, choosing how to authenticate,
//! opening a shell bound to a terminal of the registry, and ending a session.
//!
//! The transport handles and the session records are kept by session id; the
//! byte stream of each shell is handed to the terminal registry.
use crate::error::{prefixed, starts_with, AppError};
use crate::keyed::{
    keyed_map, keys_unique, lemma_keyed_contains, lemma_keyed_index, lemma_keyed_push, lemma_keyed_remove,
    lemma_keyed_update,
};
use crate::models::{copy_text, text_view, AuthType, Host, SSHKey, Session, SessionStatus, SessionType, SessionView};
use crate::terminal_manager::{
    after_destroy, destroy_accepted, random_uuid_text, EventView, TerminalManager, TerminalState,
    TerminalStream,
};
use ssh2::Session as SshTransport;
use std::io::{Read, Write};
use vstd::prelude::*;
use vstd::string::*;

verus! {

broadcast use vstd::string::to_string_from_display_ensures_for_str;

#[verifier::external_type_specification]
#[verifier::external_body]
pub struct ExTransport(SshTransport);

#[verifier::external_type_specification]
#[verifier::external_body]
pub struct ExChannel(ssh2::Channel);

/// The port of SSH, used when a host names none.
pub const DEFAULT_SSH_PORT: u16 = 22;

/// The character of a decimal digit.
pub open spec fn digit_char(d: nat) -> char {
    if d == 0 {
        '0'
    } else if d == 1 {
        '1'
    } else if d == 2 {
        '2'
    } else if d == 3 {
        '3'
    } else if d == 4 {
        '4'
    } else if d == 5 {
        '5'
    } else if d == 6 {
        '6'
    } else if d == 7 {
        '7'
    } else if d == 8 {
        '8'
    } else {
        '9'
    }
}

/// The decimal digits of `n`, without leading zeros.
pub open spec fn decimal_text(n: nat) -> Seq<char>
    decreases n,
{
    if n < 10 {
        seq![digit_char(n)]
    } else {
        decimal_text(n / 10) + seq![digit_char(n % 10)]
    }
}

/// Relies on the `Display` of `u64`: its decimal digits, without leading zeros.
#[verifier::external_body]
fn decimal(n: u64) -> (r: String)
    ensures
        r@ == decimal_text(n as nat),
{
    n.to_string()
}

/// Relies on `chrono::Utc::now` and `DateTime::to_rfc3339`: the time now, as text.
#[verifier::external_body]
fn utc_now_text() -> (r: String) {
    chrono::Utc::now().to_rfc3339()
}

/// Relies on `chrono::Utc::now` and `DateTime::timestamp`: seconds since 1970.
#[verifier::external_body]
fn unix_seconds() -> (r: i64) {
    chrono::Utc::now().timestamp()
}

/// Relies on `ssh2::Session::userauth_password`.
#[verifier::external_body]
fn ssh_userauth_password(t: &SshTransport, username: &str, password: &str) -> (r: Result<(), String>) {
    t.userauth_password(username, password).map_err(|e| e.to_string())
}

/// Relies on `ssh2::Session::userauth_pubkey_file`, with no public key file.
#[verifier::external_body]
fn ssh_userauth_pubkey_file(
    t: &SshTransport,
    username: &str,
    private_key_path: &str,
    passphrase: Option<&str>,
) -> (r: Result<(), String>) {
    t.userauth_pubkey_file(username, None, std::path::Path::new(private_key_path), passphrase).map_err(
        |e| e.to_string(),
    )
}

/// Relies on `ssh2::Session::userauth_agent`.
#[verifier::external_body]
fn ssh_userauth_agent(t: &SshTransport, username: &str) -> (r: Result<(), String>) {
    t.userauth_agent(username).map_err(|e| e.to_string())
}

/// Relies on `ssh2::Session::channel_session`.
#[verifier::external_body]
fn ssh_channel_session(t: &SshTransport) -> (r: Result<ssh2::Channel, String>) {
    t.channel_session().map_err(|e| e.to_string())
}

/// Relies on `ssh2::Channel::request_pty`, with default modes and size.
#[verifier::external_body]
fn ssh_request_pty(c: &mut ssh2::Channel, term: &str) -> (r: Result<(), String>) {
    c.request_pty(term, None, None).map_err(|e| e.to_string())
}

/// Relies on `ssh2::Channel::shell`.
#[verifier::external_body]
fn ssh_shell(c: &mut ssh2::Channel) -> (r: Result<(), String>) {
    c.shell().map_err(|e| e.to_string())
}

/// Relies on `ssh2::Channel::request_pty_size`.
#[verifier::external_body]
fn ssh_request_pty_size(
    c: &mut ssh2::Channel,
    width: u32,
    height: u32,
    width_px: u32,
    height_px: u32,
) -> (r: Result<(), String>) {
    c.request_pty_size(width, height, Some(width_px), Some(height_px)).map_err(|e| e.to_string())
}

/// Relies on `Read::read` of `ssh2::Channel`, which fills at most the buffer
/// it is given.
#[verifier::external_body]
fn ssh_channel_read(c: &mut ssh2::Channel, max: usize) -> (r: Result<Vec<u8>, String>)
    ensures
        r matches Ok(v) ==> v@.len() <= max,
{
    let mut buf = vec![0u8; max];
    c.read(&mut buf).map(|n| buf[..n].to_vec()).map_err(|e| e.to_string())
}

/// Relies on `Write::write_all` of `ssh2::Channel`.
#[verifier::external_body]
fn ssh_channel_write_all(c: &mut ssh2::Channel, data: &[u8]) -> (r: Result<(), String>) {
    c.write_all(data).map_err(|e| e.to_string())
}

/// Relies on `Write::flush` of `ssh2::Channel`.
#[verifier::external_body]
fn ssh_channel_flush(c: &mut ssh2::Channel) -> (r: Result<(), String>) {
    c.flush().map_err(|e| e.to_string())
}

/// Relies on `ssh2::Session::disconnect`, with the default reason and language.
#[verifier::external_body]
fn ssh_disconnect(t: &SshTransport, description: &str) -> (r: Result<(), String>) {
    t.disconnect(None, description, None).map_err(|e| e.to_string())
}

/// Relies on `ssh2::Session::sftp`; the subsystem handle is let go.
#[verifier::external_body]
fn ssh_sftp(t: &SshTransport) -> (r: Result<(), String>) {
    t.sftp().map(|_| ()).map_err(|e| e.to_string())
}

/// A shell channel of an SSH transport, as a terminal stream, with the
/// record of what passed through it.
pub struct SSHChannelWrapper {
    channel: ssh2::Channel,
    sent: Ghost<Seq<u8>>,
    flushed_len: Ghost<nat>,
    taken: Ghost<Seq<u8>>,
    window: Ghost<Option<(u16, u16)>>,
    term: Ghost<Option<Seq<char>>>,
}

impl SSHChannelWrapper {
    pub fn new(channel: ssh2::Channel) -> (r: Self)
        ensures
            r.records(),
            r.written() == Seq::<u8>::empty(),
            r.flushed() == 0,
            r.received() == Seq::<u8>::empty(),
            r.window_asked() == None::<(u16, u16)>,
            r.pty_terminal() == None::<Seq<char>>,
    {
        SSHChannelWrapper {
            channel,
            sent: Ghost(Seq::empty()),
            flushed_len: Ghost(0),
            taken: Ghost(Seq::empty()),
            window: Ghost(None),
            term: Ghost(None),
        }
    }

    /// The terminal type of the pseudo-terminal asked for on the channel.
    pub closed spec fn pty_terminal(&self) -> Option<Seq<char>> {
        self.term@
    }
}

/// Pixels that one character cell is taken to span, across and down.
pub const CELL_PIXELS: u32 = 8;

/// The size request for a window of `rows` by `cols` cells: width and height
/// in cells, then in pixels.
pub fn pty_size_request(rows: u16, cols: u16) -> (r: (u32, u32, u32, u32))
    ensures
        r == (cols as u32, rows as u32, (cols as u32 * CELL_PIXELS) as u32, (rows as u32
            * CELL_PIXELS) as u32),
{
    let width = cols as u32;
    let height = rows as u32;
    (width, height, width * CELL_PIXELS, height * CELL_PIXELS)
}

impl TerminalStream for SSHChannelWrapper {
    open spec fn records(&self) -> bool {
        true
    }

    closed spec fn written(&self) -> Seq<u8> {
        self.sent@
    }

    closed spec fn flushed(&self) -> nat {
        self.flushed_len@
    }

    closed spec fn received(&self) -> Seq<u8> {
        self.taken@
    }

    closed spec fn window_asked(&self) -> Option<(u16, u16)> {
        self.window@
    }

    fn read_chunk(&mut self, max: usize) -> (r: Result<Vec<u8>, String>) {
        let r = ssh_channel_read(&mut self.channel, max);
        if let Ok(v) = &r {
            self.taken = Ghost(self.taken@ + v@);
        }
        r
    }

    fn write_all(&mut self, data: &[u8]) -> (r: Result<(), String>) {
        let r = ssh_channel_write_all(&mut self.channel, data);
        if r.is_ok() {
            self.sent = Ghost(self.sent@ + data@);
        }
        r
    }

    fn flush(&mut self) -> (r: Result<(), String>) {
        let r = ssh_channel_flush(&mut self.channel);
        if r.is_ok() {
            self.flushed_len = Ghost(self.sent@.len());
        }
        r
    }

    /// Asks for `cols` by `rows` cells, of `CELL_PIXELS` pixels each way; the
    /// result is the channel's answer.
    fn set_window_size(&mut self, rows: u16, cols: u16) -> (r: Result<(), String>) {
        let (width, height, width_px, height_px) = pty_size_request(rows, cols);
        self.window = Ghost(Some((rows, cols)));
        ssh_request_pty_size(&mut self.channel, width, height, width_px, height_px)
    }
}

/// Where to connect and as whom.
pub struct ConnectTarget {
    pub address: String,
    pub username: String,
}

/// The login name of a host; empty when it has none.
pub open spec fn login_name(host: Host) -> Seq<char> {
    match host.username {
        Some(u) => u@,
        None => Seq::empty(),
    }
}

/// The `host:port` address of a host.
pub open spec fn target_address(host: Host) -> Seq<char> {
    host.hostname@ + ":"@ + decimal_text(
        match host.port {
            Some(p) => p as nat,
            None => DEFAULT_SSH_PORT as nat,
        },
    )
}

/// How to prove who we are to the remote end.
pub enum AuthMethod {
    Password { password: String },
    Key { private_key_path: String, passphrase: Option<String> },
    Agent,
}

/// An authentication method, with its texts as sequences of characters.
pub enum AuthChoice {
    Password(Seq<char>),
    Key(Seq<char>, Option<Seq<char>>),
    Agent,
}

impl View for AuthMethod {
    type V = AuthChoice;

    open spec fn view(&self) -> AuthChoice {
        match self {
            AuthMethod::Password { password } => AuthChoice::Password(password@),
            AuthMethod::Key { private_key_path, passphrase } => AuthChoice::Key(
                private_key_path@,
                text_view(*passphrase),
            ),
            AuthMethod::Agent => AuthChoice::Agent,
        }
    }
}

/// How a refusal of each authentication method is reported.
pub open spec fn auth_failure_prefix(c: AuthChoice) -> Seq<char> {
    match c {
        AuthChoice::Password(_) => "Password auth failed: "@,
        AuthChoice::Key(_, _) => "Key auth failed: "@,
        AuthChoice::Agent => "Agent auth failed: "@,
    }
}

/// Whether `r` is what authenticating by `c` gives back when the remote end
/// answers `outcome`.
pub open spec fn auth_replied(c: AuthChoice, outcome: Result<(), String>, r: Result<(), AppError>) -> bool {
    match outcome {
        Ok(()) => r is Ok,
        Err(e) => r matches Err(AppError::SshError(m)) && m@ == auth_failure_prefix(c) + e@,
    }
}

/// Whether `s` is the record of a session just opened for the host `host_id`.
pub open spec fn fresh_session(s: SessionView, host_id: Seq<char>) -> bool {
    &&& s.status == SessionStatus::Connected
    &&& s.host_id == host_id
    &&& s.session_type == SessionType::SSH
    &&& s.start_time == s.created_at
    &&& s.last_activity == Some(s.created_at)
    &&& s.end_time is None
    &&& s.error is None
    &&& s.sftp_enabled == Some(false)
    &&& s.port_forwardings == Some(0nat)
}

/// Whether `after` is the record `before` once its session has ended: a
/// record already disconnected stays as it is; any other becomes
/// `Disconnected`, with an end time and nothing else changed.
pub open spec fn ended(before: SessionView, after: SessionView) -> bool {
    if before.status == SessionStatus::Disconnected {
        after == before
    } else {
        &&& after.end_time is Some
        &&& after == SessionView { status: SessionStatus::Disconnected, end_time: after.end_time, ..before }
    }
}

/// What ending session `id` at time `now` does to the session records and
/// the terminal registry, and what it gives back.
pub open spec fn disconnected(
    sessions: Map<Seq<char>, SessionView>,
    sessions_after: Map<Seq<char>, SessionView>,
    terms: Map<Seq<char>, TerminalState>,
    terms_after: Map<Seq<char>, TerminalState>,
    id: Seq<char>,
    now: u64,
    r: Result<(), AppError>,
) -> bool {
    if !sessions.contains_key(id) {
        &&& r matches Err(AppError::SessionError(m)) && m@ == "Session not found"@
        &&& sessions_after == sessions
        &&& terms_after == terms
    } else {
        let tid = sessions[id].terminal_id;
        &&& sessions_after.contains_key(id)
        &&& sessions_after == sessions.insert(id, sessions_after[id])
        &&& ended(sessions[id], sessions_after[id])
        &&& terms_after == after_destroy(terms, tid, now)
        &&& (r is Ok) == (!terms.contains_key(tid) || destroy_accepted(terms, tid, now))
        &&& r is Err ==> (r matches Err(AppError::SessionError(m)) && m@ == "Terminal destroy failed"@)
    }
}

/// The private key file to use: that of the key given, else the host's own.
pub open spec fn key_path_of(host: Host, key: Option<&SSHKey>) -> Option<Seq<char>> {
    match key {
        Some(k) => Some(k.private_key_path@),
        None => text_view(host.private_key_path),
    }
}

/// The passphrase to use: that of the key given if it has one, else the host's.
pub open spec fn passphrase_of(host: Host, key: Option<&SSHKey>) -> Option<Seq<char>> {
    match key {
        Some(k) => match k.passphrase {
            Some(p) => Some(p@),
            None => text_view(host.private_key_passphrase),
        },
        None => text_view(host.private_key_passphrase),
    }
}

/// The method that a host's authentication type selects, or the message of
/// what is missing for it.
pub open spec fn auth_choice(host: Host, key: Option<&SSHKey>) -> Result<AuthChoice, Seq<char>> {
    match host.auth_type {
        AuthType::Password => match host.password {
            Some(p) => if p@.len() > 0 {
                Ok(AuthChoice::Password(p@))
            } else {
                Err("Missing password"@)
            },
            None => Err("Missing password"@),
        },
        AuthType::Key => match key_path_of(host, key) {
            Some(path) => Ok(AuthChoice::Key(path, passphrase_of(host, key))),
            None => Err("Missing private key"@),
        },
        AuthType::Agent => Ok(AuthChoice::Agent),
    }
}

/// The id of a session started `secs` seconds after 1970 with random part `uuid`.
pub open spec fn session_id_text(secs: u64, uuid: Seq<char>) -> Seq<char> {
    "session-"@ + decimal_text(secs as nat) + "-"@ + uuid
}

/// A transport handle kept for a session.
struct Connection {
    session_id: String,
    transport: SshTransport,
}

/// The session manager: session records and transport handles, by session id.
pub struct SSHManager {
    connections: Vec<Connection>,
    sessions: Vec<Session>,
}

impl View for SSHManager {
    type V = Map<Seq<char>, SessionView>;

    closed spec fn view(&self) -> Map<Seq<char>, SessionView> {
        keyed_map(self.session_entries())
    }
}

impl SSHManager {
    pub closed spec fn session_entries(&self) -> Seq<(Seq<char>, SessionView)> {
        self.sessions@.map_values(|s: Session| (s.id@, s@))
    }

    pub closed spec fn connection_entries(&self) -> Seq<(Seq<char>, ())> {
        self.connections@.map_values(|c: Connection| (c.session_id@, ()))
    }

    /// The ids of the sessions whose transport is held.
    pub closed spec fn connected(&self) -> Set<Seq<char>> {
        keyed_map(self.connection_entries()).dom()
    }

    /// No session id occurs twice among the records or among the transports.
    pub closed spec fn wf(&self) -> bool {
        keys_unique(self.session_entries()) && keys_unique(self.connection_entries())
    }

    pub fn new() -> (r: Self)
        ensures
            r.wf(),
            r@ == Map::<Seq<char>, SessionView>::empty(),
            r.connected() == Set::<Seq<char>>::empty(),
    {
        let r = SSHManager { connections: Vec::new(), sessions: Vec::new() };
        assert(r.session_entries() =~= Seq::empty());
        assert(r.connection_entries() =~= Seq::empty());
        assert(r.connected() =~= Set::empty());
        r
    }

    /// Checks that a host names where to connect and as whom, before any
    /// connection is tried, and gives its `host:port` address (port 22 when
    /// it names none) and login name.
    pub fn validate_target(host: &Host) -> (r: Result<ConnectTarget, AppError>)
        ensures
            host.hostname@.len() == 0 ==> (r matches Err(AppError::ValidationError(m)) && m@
                == "Missing hostname"@),
            host.hostname@.len() > 0 && login_name(*host).len() == 0 ==> (r matches Err(
                AppError::ValidationError(m),
            ) && m@ == "Missing username"@),
            host.hostname@.len() > 0 && login_name(*host).len() > 0 ==> (r matches Ok(t)
                && t.address@ == target_address(*host) && t.username@ == login_name(*host)),
    {
        if host.hostname.as_str().is_empty() {
            return Err(AppError::ValidationError("Missing hostname".to_string()));
        }
        let username = match &host.username {
            Some(u) => u,
            None => {
                return Err(AppError::ValidationError("Missing username".to_string()));
            },
        };
        if username.as_str().is_empty() {
            return Err(AppError::ValidationError("Missing username".to_string()));
        }
        let port = match host.port {
            Some(p) => p,
            None => DEFAULT_SSH_PORT,
        };
        let address = host.hostname.clone().concat(":").concat(decimal(port as u64).as_str());
        Ok(ConnectTarget { address, username: username.clone() })
    }

    /// Chooses how to authenticate from the host's authentication type: a
    /// non-empty password; a private key file (that of `ssh_key` if given,
    /// else the host's) with its passphrase if any; or the local agent.
    pub fn select_auth(host: &Host, ssh_key: Option<&SSHKey>) -> (r: Result<AuthMethod, AppError>)
        ensures
            match auth_choice(*host, ssh_key) {
                Ok(c) => r matches Ok(m) && m@ == c,
                Err(msg) => r matches Err(AppError::ValidationError(m)) && m@ == msg,
            },
    {
        match host.auth_type {
            AuthType::Password => match &host.password {
                Some(p) => {
                    if p.as_str().is_empty() {
                        Err(AppError::ValidationError("Missing password".to_string()))
                    } else {
                        Ok(AuthMethod::Password { password: p.clone() })
                    }
                },
                None => Err(AppError::ValidationError("Missing password".to_string())),
            },
            AuthType::Key => {
                let path = match ssh_key {
                    Some(k) => k.private_key_path.clone(),
                    None => match &host.private_key_path {
                        Some(p) => p.clone(),
                        None => {
                            return Err(AppError::ValidationError("Missing private key".to_string()));
                        },
                    },
                };
                let passphrase = match ssh_key {
                    Some(k) => match &k.passphrase {
                        Some(p) => Some(p.clone()),
                        None => copy_text(&host.private_key_passphrase),
                    },
                    None => copy_text(&host.private_key_passphrase),
                };
                Ok(AuthMethod::Key { private_key_path: path, passphrase })
            },
            AuthType::Agent => Ok(AuthMethod::Agent),
        }
    }

    /// Authenticates on a transport whose handshake is done, by the method
    /// that the host selects. What is missing for that method is reported
    /// before anything is sent; a refusal by the remote end is an SSH error.
    pub fn authenticate(transport: &SshTransport, host: &Host, ssh_key: Option<&SSHKey>) -> (r: Result<
        (),
        AppError,
    >)
        ensures
            login_name(*host).len() == 0 ==> (r matches Err(AppError::ValidationError(m)) && m@
                == "Missing username"@),
            login_name(*host).len() > 0 ==> match auth_choice(*host, ssh_key) {
                Ok(c) => exists|outcome: Result<(), String>| auth_replied(c, outcome, r),
                Err(msg) => r matches Err(AppError::ValidationError(m)) && m@ == msg,
            },
    {
        let username = match &host.username {
            Some(u) => u,
            None => {
                return Err(AppError::ValidationError("Missing username".to_string()));
            },
        };
        if username.as_str().is_empty() {
            return Err(AppError::ValidationError("Missing username".to_string()));
        }
        let method = Self::select_auth(host, ssh_key)?;
        let outcome = match &method {
            AuthMethod::Password { password } => ssh_userauth_password(
                transport,
                username.as_str(),
                password.as_str(),
            ),
            AuthMethod::Key { private_key_path, passphrase } => {
                let phrase = match passphrase {
                    Some(p) => Some(p.as_str()),
                    None => None,
                };
                ssh_userauth_pubkey_file(transport, username.as_str(), private_key_path.as_str(), phrase)
            },
            AuthMethod::Agent => ssh_userauth_agent(transport, username.as_str()),
        };
        let ghost g = outcome;
        let r = Self::auth_reply(&method, outcome);
        assert(auth_replied(method@, g, r));
        r
    }

    /// What authenticating by `method` gives back when the remote end answers
    /// `outcome`: success, or an SSH error that names the method and carries
    /// the remote end's message.
    pub fn auth_reply(method: &AuthMethod, outcome: Result<(), String>) -> (r: Result<(), AppError>)
        ensures
            auth_replied(method@, outcome, r),
    {
        match outcome {
            Ok(()) => Ok(()),
            Err(e) => {
                let prefix = match method {
                    AuthMethod::Password { .. } => "Password auth failed: ",
                    AuthMethod::Key { .. } => "Key auth failed: ",
                    AuthMethod::Agent => "Agent auth failed: ",
                };
                Err(AppError::SshError(prefixed(prefix, e.as_str())))
            },
        }
    }

    /// Opens a session channel on an authenticated transport, asks for an
    /// `xterm` pseudo-terminal and starts the shell.
    pub fn open_shell(transport: &SshTransport) -> (r: Result<SSHChannelWrapper, AppError>)
        ensures
            r is Ok || (r matches Err(AppError::SshError(m)) && (starts_with(
                m@,
                "Channel creation failed: "@,
            ) || starts_with(m@, "PTY request failed: "@) || starts_with(
                m@,
                "Shell request failed: "@,
            ))),
            r matches Ok(w) ==> {
                &&& w.pty_terminal() == Some("xterm"@)
                &&& w.records()
                &&& w.written() == Seq::<u8>::empty()
                &&& w.received() == Seq::<u8>::empty()
                &&& w.flushed() == 0
            },
    {
        let mut channel = match ssh_channel_session(transport) {
            Ok(c) => c,
            Err(e) => {
                return Err(AppError::SshError(prefixed("Channel creation failed: ", e.as_str())));
            },
        };
        match ssh_request_pty(&mut channel, "xterm") {
            Ok(()) => {},
            Err(e) => {
                return Err(AppError::SshError(prefixed("PTY request failed: ", e.as_str())));
            },
        }
        match ssh_shell(&mut channel) {
            Ok(()) => {},
            Err(e) => {
                return Err(AppError::SshError(prefixed("Shell request failed: ", e.as_str())));
            },
        }
        let mut shell = SSHChannelWrapper::new(channel);
        shell.term = Ghost(Some("xterm"@));
        Ok(shell)
    }

    /// The id `session-<secs>-<uuid>` of a session started `secs` seconds
    /// after 1970, with random part `uuid`.
    pub fn session_id_for(secs: u64, uuid: &str) -> (r: String)
        ensures
            r@ == session_id_text(secs, uuid@),
    {
        prefixed("session-", decimal(secs).as_str()).concat("-").concat(uuid)
    }

    fn new_session_id() -> (r: String)
        ensures
            exists|secs: u64, u: Seq<char>| r@ == session_id_text(secs, u),
    {
        let now = unix_seconds();
        let secs: u64 = if now < 0 {
            0
        } else {
            now as u64
        };
        let uuid = random_uuid_text();
        Self::session_id_for(secs, uuid.as_str())
    }

    fn find_session(&self, id: &String) -> (r: Option<usize>)
        requires
            self.wf(),
        ensures
            match r {
                Some(i) => {
                    &&& i < self.sessions@.len()
                    &&& self.sessions@[i as int].id@ == id@
                    &&& self@.contains_key(id@)
                    &&& self@[id@] == self.sessions@[i as int]@
                },
                None => !self@.contains_key(id@),
            },
    {
        let mut i: usize = 0;
        while i < self.sessions.len()
            invariant
                self.wf(),
                i <= self.sessions@.len(),
                forall|j: int| 0 <= j < i ==> self.sessions@[j].id@ != id@,
            decreases self.sessions@.len() - i,
        {
            if self.sessions[i].id == *id {
                proof {
                    lemma_keyed_index(self.session_entries(), i as int);
                }
                return Some(i);
            }
            i = i + 1;
        }
        proof {
            lemma_keyed_contains(self.session_entries(), id@);
            if self@.contains_key(id@) {
                let j = choose|j: int|
                    0 <= j < self.session_entries().len() && #[trigger] self.session_entries()[j].0
                        == id@;
                assert(self.sessions@[j].id@ == id@);
            }
        }
        None
    }

    fn find_connection(&self, id: &String) -> (r: Option<usize>)
        requires
            self.wf(),
        ensures
            match r {
                Some(i) => {
                    &&& i < self.connections@.len()
                    &&& self.connections@[i as int].session_id@ == id@
                    &&& self.connected().contains(id@)
                },
                None => !self.connected().contains(id@),
            },
    {
        let mut i: usize = 0;
        while i < self.connections.len()
            invariant
                self.wf(),
                i <= self.connections@.len(),
                forall|j: int| 0 <= j < i ==> self.connections@[j].session_id@ != id@,
            decreases self.connections@.len() - i,
        {
            if self.connections[i].session_id == *id {
                proof {
                    lemma_keyed_index(self.connection_entries(), i as int);
                }
                return Some(i);
            }
            i = i + 1;
        }
        proof {
            lemma_keyed_contains(self.connection_entries(), id@);
            if self.connected().contains(id@) {
                let j = choose|j: int|
                    0 <= j < self.connection_entries().len() && #[trigger] self.connection_entries()[j].0
                        == id@;
                assert(self.connections@[j].session_id@ == id@);
            }
        }
        None
    }

    /// Stores a session record, replacing one of the same id.
    fn put_session(&mut self, s: Session)
        requires
            old(self).wf(),
        ensures
            final(self).wf(),
            final(self)@ == old(self)@.insert(s@.id, s@),
            final(self).connected() == old(self).connected(),
    {
        let ghost v = s@;
        match self.find_session(&s.id) {
            Some(i) => {
                proof {
                    lemma_keyed_update(self.session_entries(), i as int, v);
                }
                self.sessions.set(i, s);
                assert(self.session_entries() =~= old(self).session_entries().update(
                    i as int,
                    (v.id, v),
                ));
            },
            None => {
                proof {
                    lemma_keyed_push(self.session_entries(), v.id, v);
                }
                self.sessions.push(s);
                assert(self.session_entries() =~= old(self).session_entries().push((v.id, v)));
            },
        }
        assert(self.connection_entries() =~= old(self).connection_entries());
    }

    /// Stores the transport of a session, replacing one of the same id.
    fn put_connection(&mut self, session_id: String, transport: SshTransport)
        requires
            old(self).wf(),
        ensures
            final(self).wf(),
            final(self)@ == old(self)@,
            final(self).connected() == old(self).connected().insert(session_id@),
    {
        let ghost k = session_id@;
        match self.find_connection(&session_id) {
            Some(i) => {
                proof {
                    lemma_keyed_update(self.connection_entries(), i as int, ());
                }
                self.connections.set(i, Connection { session_id, transport });
                assert(self.connection_entries() =~= old(self).connection_entries().update(
                    i as int,
                    (k, ()),
                ));
            },
            None => {
                proof {
                    lemma_keyed_push(self.connection_entries(), k, ());
                }
                self.connections.push(Connection { session_id, transport });
                assert(self.connection_entries() =~= old(self).connection_entries().push((k, ())));
            },
        }
        assert(self.session_entries() =~= old(self).session_entries());
        assert(self.connected() =~= old(self).connected().insert(k));
    }

    /// Takes the transport of a session out, if it is held.
    fn take_connection(&mut self, session_id: &String) -> (r: Option<SshTransport>)
        requires
            old(self).wf(),
        ensures
            final(self).wf(),
            final(self)@ == old(self)@,
            final(self).connected() == old(self).connected().remove(session_id@),
            r is Some <==> old(self).connected().contains(session_id@),
    {
        match self.find_connection(session_id) {
            Some(i) => {
                proof {
                    lemma_keyed_remove(self.connection_entries(), i as int);
                }
                let c = self.connections.remove(i);
                assert(self.connection_entries() =~= old(self).connection_entries().remove(i as int));
                assert(self.session_entries() =~= old(self).session_entries());
                assert(self.connected() =~= old(self).connected().remove(session_id@));
                Some(c.transport)
            },
            None => {
                assert(self.connected() =~= old(self).connected().remove(session_id@));
                None
            },
        }
    }

    /// Binds an open shell to a new session: makes a terminal in `terminals`
    /// with the shell (as `as_stream` wraps it) as its stream, and keeps the
    /// `Connected` session record, with `session_id`, and its transport.
    pub fn bind_shell<S: TerminalStream, F: FnOnce(SSHChannelWrapper) -> S>(
        &mut self,
        terminals: &mut TerminalManager<S>,
        host: &Host,
        transport: SshTransport,
        channel: SSHChannelWrapper,
        session_id: String,
        as_stream: F,
    ) -> (s: Session)
        requires
            old(self).wf(),
            old(terminals).wf(),
            !old(self)@.contains_key(session_id@),
            !old(self).connected().contains(session_id@),
            as_stream.requires((channel,)),
        ensures
            final(self).wf(),
            final(terminals).wf(),
            fresh_session(s@, host.id@),
            s@.id == session_id@,
            final(self)@ == old(self)@.insert(s@.id, s@),
            final(self).connected() == old(self).connected().insert(s@.id),
            final(terminals)@.dom() == old(terminals)@.dom().insert(s@.terminal_id),
            final(terminals)@[s@.terminal_id].attached,
            forall|k: Seq<char>|
                k != s@.terminal_id && old(terminals)@.contains_key(k) ==> final(terminals)@[k]
                    == old(terminals)@[k],
            exists|st: S|
                as_stream.ensures((channel,), st) && final(terminals).streams() == old(
                    terminals,
                ).streams().insert(s@.terminal_id, Some(st)),
            final(terminals).log() == old(terminals).log().push(
                EventView::Created(s@.terminal_id, s@.id),
            ),
    {
        let stream = as_stream(channel);
        let terminal_id = terminals.create_terminal(session_id.as_str());
        let attached = terminals.attach_stream(terminal_id.as_str(), stream);
        assert(attached is Ok);
        let now = utc_now_text();
        let session = Session {
            id: session_id.clone(),
            host_id: host.id.clone(),
            terminal_id,
            created_at: now.clone(),
            start_time: now.clone(),
            end_time: None,
            status: SessionStatus::Connected,
            error: None,
            last_activity: Some(now),
            session_type: SessionType::SSH,
            sftp_enabled: Some(false),
            port_forwardings: Some(Vec::new()),
        };
        let result = session.clone();
        self.put_session(session);
        self.put_connection(session_id, transport);
        proof {
            assert(final(terminals)@.dom() =~= old(terminals)@.dom().insert(result@.terminal_id));
            assert(final(terminals).streams() =~= old(terminals).streams().insert(
                result@.terminal_id,
                Some(stream),
            ));
        }
        result
    }

    /// Starts a session on an open shell under a new session id, as
    /// `bind_shell` does. An id that is already in use (a clash of random
    /// ids) is refused as a session error, and nothing changes.
    pub fn start_session<S: TerminalStream, F: FnOnce(SSHChannelWrapper) -> S>(
        &mut self,
        terminals: &mut TerminalManager<S>,
        host: &Host,
        transport: SshTransport,
        channel: SSHChannelWrapper,
        as_stream: F,
    ) -> (r: Result<Session, AppError>)
        requires
            old(self).wf(),
            old(terminals).wf(),
            as_stream.requires((channel,)),
        ensures
            final(self).wf(),
            final(terminals).wf(),
            r is Err ==> {
                &&& r matches Err(AppError::SessionError(m)) && m@ == "Session id already in use"@
                &&& final(self)@ == old(self)@
                &&& final(self).connected() == old(self).connected()
                &&& final(terminals)@ == old(terminals)@
                &&& final(terminals).streams() == old(terminals).streams()
                &&& final(terminals).log() == old(terminals).log()
            },
            r matches Ok(s) ==> {
                &&& fresh_session(s@, host.id@)
                &&& exists|secs: u64, u: Seq<char>| s@.id == session_id_text(secs, u)
                &&& !old(self)@.contains_key(s@.id)
                &&& final(self)@ == old(self)@.insert(s@.id, s@)
                &&& final(self).connected() == old(self).connected().insert(s@.id)
                &&& final(terminals)@.dom() == old(terminals)@.dom().insert(s@.terminal_id)
                &&& final(terminals)@[s@.terminal_id].attached
                &&& forall|k: Seq<char>|
                    k != s@.terminal_id && old(terminals)@.contains_key(k) ==> final(terminals)@[k]
                        == old(terminals)@[k]
                &&& exists|st: S|
                    as_stream.ensures((channel,), st) && final(terminals).streams() == old(
                        terminals,
                    ).streams().insert(s@.terminal_id, Some(st))
                &&& final(terminals).log() == old(terminals).log().push(
                    EventView::Created(s@.terminal_id, s@.id),
                )
            },
    {
        let session_id = Self::new_session_id();
        if self.find_session(&session_id).is_some() || self.find_connection(&session_id).is_some() {
            return Err(AppError::SessionError("Session id already in use".to_string()));
        }
        Ok(self.bind_shell(terminals, host, transport, channel, session_id, as_stream))
    }

    /// On a transport that has been authenticated, opens a shell and starts
    /// a session on it (see `start_session`). The terminal is made only once
    /// the shell is open, so a failure leaves nothing behind.
    pub fn open_session<S: TerminalStream, F: FnOnce(SSHChannelWrapper) -> S>(
        &mut self,
        terminals: &mut TerminalManager<S>,
        host: &Host,
        transport: SshTransport,
        as_stream: F,
    ) -> (r: Result<Session, AppError>)
        requires
            old(self).wf(),
            old(terminals).wf(),
            forall|c: SSHChannelWrapper| as_stream.requires((c,)),
        ensures
            final(self).wf(),
            final(terminals).wf(),
            r is Err ==> {
                &&& (r matches Err(AppError::SshError(_))) || (r matches Err(AppError::SessionError(_)))
                &&& final(self)@ == old(self)@
                &&& final(self).connected() == old(self).connected()
                &&& final(terminals)@ == old(terminals)@
                &&& final(terminals).streams() == old(terminals).streams()
                &&& final(terminals).log() == old(terminals).log()
            },
            r matches Ok(s) ==> {
                &&& fresh_session(s@, host.id@)
                &&& !old(self)@.contains_key(s@.id)
                &&& final(self)@ == old(self)@.insert(s@.id, s@)
                &&& final(self).connected() == old(self).connected().insert(s@.id)
                &&& final(terminals)@.dom() == old(terminals)@.dom().insert(s@.terminal_id)
                &&& final(terminals)@[s@.terminal_id].attached
                &&& forall|k: Seq<char>|
                    k != s@.terminal_id && old(terminals)@.contains_key(k) ==> final(terminals)@[k]
                        == old(terminals)@[k]
                &&& final(terminals).log() == old(terminals).log().push(
                    EventView::Created(s@.terminal_id, s@.id),
                )
            },
    {
        let channel = Self::open_shell(&transport)?;
        self.start_session(terminals, host, transport, channel, as_stream)
    }

    /// Ends a session, reading the registry's clock: see `disconnect_at`.
    pub fn disconnect<S: TerminalStream>(&mut self, terminals: &mut TerminalManager<S>, session_id: &str) -> (r:
        Result<(), AppError>)
        requires
            old(self).wf(),
            old(terminals).wf(),
        ensures
            final(self).wf(),
            final(terminals).wf(),
            exists|now: u64|
                disconnected(
                    old(self)@,
                    final(self)@,
                    old(terminals)@,
                    final(terminals)@,
                    session_id@,
                    now,
                    r,
                ),
            final(self).connected() == old(self).connected().remove(session_id@),
            final(terminals).streams() == if final(terminals)@ == old(terminals)@ {
                old(terminals).streams()
            } else {
                old(terminals).streams().remove(old(self)@[session_id@].terminal_id)
            },
    {
        let now = terminals.clock_ms();
        self.disconnect_at(terminals, session_id, now)
    }

    /// Ends a session at time `now` (on the registry's clock): lets go of its
    /// transport after a best-effort disconnect message, marks the record
    /// `Disconnected` with an end time (a record already disconnected is
    /// left as it is), and destroys its terminal. A terminal too young to be
    /// destroyed stays, and the call fails with a session error so that the
    /// caller can retry; a terminal already gone is no failure. An unknown
    /// session id is a session error.
    pub fn disconnect_at<S: TerminalStream>(
        &mut self,
        terminals: &mut TerminalManager<S>,
        session_id: &str,
        now: u64,
    ) -> (r: Result<(), AppError>)
        requires
            old(self).wf(),
            old(terminals).wf(),
        ensures
            final(self).wf(),
            final(terminals).wf(),
            disconnected(
                old(self)@,
                final(self)@,
                old(terminals)@,
                final(terminals)@,
                session_id@,
                now,
                r,
            ),
            final(self).connected() == old(self).connected().remove(session_id@),
            final(terminals).streams() == if final(terminals)@ == old(terminals)@ {
                old(terminals).streams()
            } else {
                old(terminals).streams().remove(old(self)@[session_id@].terminal_id)
            },
            final(terminals).log() == if final(terminals)@ == old(terminals)@ {
                old(terminals).log()
            } else {
                old(terminals).log().push(EventView::Destroyed(old(self)@[session_id@].terminal_id))
            },
    {
        let id = session_id.to_string();
        if let Some(transport) = self.take_connection(&id) {
            let _ = ssh_disconnect(&transport, "Disconnecting");
        }
        match self.find_session(&id) {
            None => Err(AppError::SessionError("Session not found".to_string())),
            Some(i) => {
                let ghost before = self.sessions@[i as int]@;
                let ghost pre = self.session_entries();
                if self.sessions[i].status != SessionStatus::Disconnected {
                    let end = utc_now_text();
                    let ghost after = SessionView {
                        status: SessionStatus::Disconnected,
                        end_time: Some(end@),
                        ..before
                    };
                    proof {
                        lemma_keyed_update(self.session_entries(), i as int, after);
                    }
                    self.sessions[i].status = SessionStatus::Disconnected;
                    self.sessions[i].end_time = Some(end);
                    assert(self.sessions@[i as int]@ == after);
                    assert(self.session_entries() =~= pre.update(i as int, (session_id@, after)));
                } else {
                    assert(self@ =~= old(self)@.insert(session_id@, before));
                }
                let terminal_id = self.sessions[i].terminal_id.clone();
                if !terminals.has_terminal(terminal_id.as_str()) {
                    Ok(())
                } else if terminals.destroy_terminal_at(terminal_id.as_str(), now) {
                    Ok(())
                } else {
                    Err(AppError::SessionError("Terminal destroy failed".to_string()))
                }
            },
        }
    }

    /// Opens the file-transfer subsystem on a session's transport and marks
    /// the session as having it.
    pub fn setup_sftp(&mut self, session_id: &str) -> (r: Result<bool, AppError>)
        requires
            old(self).wf(),
        ensures
            final(self).wf(),
            final(self).connected() == old(self).connected(),
            !old(self).connected().contains(session_id@) ==> {
                &&& r matches Err(AppError::SessionError(m)) && m@ == "Session not found"@
                &&& final(self)@ == old(self)@
            },
            old(self).connected().contains(session_id@) ==> {
                ||| {
                    &&& r matches Ok(b) && b
                    &&& final(self)@ == if old(self)@.contains_key(session_id@) {
                        old(self)@.insert(
                            session_id@,
                            SessionView { sftp_enabled: Some(true), ..old(self)@[session_id@] },
                        )
                    } else {
                        old(self)@
                    }
                }
                ||| r matches Err(AppError::SshError(_)) && final(self)@ == old(self)@
            },
    {
        let id = session_id.to_string();
        let c = match self.find_connection(&id) {
            Some(c) => c,
            None => {
                return Err(AppError::SessionError("Session not found".to_string()));
            },
        };
        match ssh_sftp(&self.connections[c].transport) {
            Ok(()) => {},
            Err(e) => {
                return Err(AppError::SshError(prefixed("SFTP setup failed: ", e.as_str())));
            },
        }
        if let Some(i) = self.find_session(&id) {
            let ghost after = SessionView { sftp_enabled: Some(true), ..self.sessions@[i as int]@ };
            proof {
                lemma_keyed_update(self.session_entries(), i as int, after);
            }
            self.sessions[i].sftp_enabled = Some(true);
            assert(self.session_entries() =~= old(self).session_entries().update(
                i as int,
                (session_id@, after),
            ));
            assert(self.connection_entries() =~= old(self).connection_entries());
        }
        Ok(true)
    }

    /// The record of a session, if there is one.
    pub fn get_session(&self, session_id: &str) -> (r: Option<Session>)
        requires
            self.wf(),
        ensures
            r is Some <==> self@.contains_key(session_id@),
            r matches Some(s) ==> s@ == self@[session_id@],
    {
        let id = session_id.to_string();
        match self.find_session(&id) {
            Some(i) => Some(self.sessions[i].clone()),
            None => None,
        }
    }

    /// All session records, each once.
    pub fn get_all_sessions(&self) -> (r: Vec<Session>)
        requires
            self.wf(),
        ensures
            forall|i: int|
                0 <= i < r@.len() ==> self@.contains_key(#[trigger] r@[i]@.id) && self@[r@[i]@.id]
                    == r@[i]@,
            forall|k: Seq<char>|
                #[trigger] self@.contains_key(k) ==> exists|i: int| 0 <= i < r@.len() && r@[i]@.id == k,
            forall|i: int, j: int|
                0 <= i < r@.len() && 0 <= j < r@.len() && i != j ==> #[trigger] r@[i]@.id
                    != #[trigger] r@[j]@.id,
    {
        let mut out: Vec<Session> = Vec::new();
        let mut i: usize = 0;
        while i < self.sessions.len()
            invariant
                self.wf(),
                i <= self.sessions@.len(),
                out@.len() == i,
                forall|j: int| 0 <= j < i ==> #[trigger] out@[j]@ == self.sessions@[j]@,
            decreases self.sessions@.len() - i,
        {
            out.push(self.sessions[i].clone());
            i = i + 1;
        }
        proof {
            assert forall|j: int|
                0 <= j < out@.len() implies self@.contains_key(#[trigger] out@[j]@.id)
                && self@[out@[j]@.id] == out@[j]@ by {
                lemma_keyed_index(self.session_entries(), j);
            }
            assert forall|k: Seq<char>| #[trigger] self@.contains_key(k) implies exists|j: int|
                0 <= j < out@.len() && out@[j]@.id == k by {
                lemma_keyed_contains(self.session_entries(), k);
                let j = choose|j: int|
                    0 <= j < self.session_entries().len() && #[trigger] self.session_entries()[j].0
                        == k;
                assert(out@[j]@.id == k);
            }
            assert forall|a: int, b: int|
                0 <= a < out@.len() && 0 <= b < out@.len() && a != b implies #[trigger] out@[a]@.id
                != #[trigger] out@[b]@.id by {
                assert(self.session_entries()[a].0 != self.session_entries()[b].0);
            }
        }
        out
    }

    /// Forgets the record of a session; returns whether there was one.
    pub fn remove_session(&mut self, session_id: &str) -> (r: bool)
        requires
            old(self).wf(),
        ensures
            final(self).wf(),
            r == old(self)@.contains_key(session_id@),
            final(self)@ == old(self)@.remove(session_id@),
            final(self).connected() == old(self).connected(),
    {
        let id = session_id.to_string();
        match self.find_session(&id) {
            Some(i) => {
                proof {
                    lemma_keyed_remove(self.session_entries(), i as int);
                }
                let _gone = self.sessions.remove(i);
                assert(self.session_entries() =~= old(self).session_entries().remove(i as int));
                assert(self.connection_entries() =~= old(self).connection_entries());
                true
            },
            None => {
                assert(self@ =~= old(self)@.remove(session_id@));
                false
            },
        }
    }
}

/// Key authentication with no key given and no key path stored for the host
/// is refused as a validation error, before anything is sent.
pub proof fn lemma_key_auth_needs_path(host: Host)
    requires
        host.auth_type == AuthType::Key,
        host.private_key_path is None,
    ensures
        auth_choice(host, None) == Err::<AuthChoice, Seq<char>>("Missing private key"@),
{
}

} // verus!
