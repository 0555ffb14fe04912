//! Plain data records: connection targets, keys, snippets, sessions.
use std::collections::HashMap;
use vstd::prelude::*;

verus! {

#[derive(Clone, Copy, Debug, PartialEq, Eq, Structural)]
pub enum AuthType {
    Password,
    Key,
    Agent,
}

/// A connection target and its credentials.
#[derive(Clone, Debug)]
pub struct Host {
    pub id: String,
    pub label: String,
    pub hostname: String,
    pub port: Option<u16>,
    pub username: Option<String>,
    pub password: Option<String>,
    pub private_key: Option<String>,
    pub private_key_path: Option<String>,
    pub passphrase: Option<String>,
    pub private_key_passphrase: Option<String>,
    pub tags: Option<Vec<String>>,
    pub created_at: String,
    pub updated_at: String,
    pub last_connected: Option<String>,
    pub jump_host: Option<String>,
    pub use_jump_host: Option<bool>,
    pub ssh_options: HashMap<String, String>,
    pub keep_alive_interval: Option<u32>,
    pub connection_timeout: Option<u32>,
    pub description: Option<String>,
    pub color: Option<String>,
    pub group: Option<String>,
    pub favorite: Option<bool>,
    pub groups: Option<Vec<String>>,
    pub auth_type: AuthType,
    pub snippets: Vec<Snippet>,
    pub connection_count: u32,
    pub is_pro_feature: bool,
}

#[derive(Clone, Debug)]
pub struct HostGroup {
    pub id: String,
    pub name: String,
    pub color: Option<String>,
    pub hosts: Vec<String>,
    pub parent_group: Option<String>,
    pub created_at: i64,
    pub updated_at: i64,
}

#[derive(Clone, Copy, Debug, PartialEq, Eq, Structural)]
pub enum PortForwardingType {
    Local,
    Remote,
    Dynamic,
}

#[derive(Clone, Debug)]
pub struct PortForwarding {
    pub id: String,
    pub host_id: String,
    pub forwarding_type: PortForwardingType,
    pub local_port: u16,
    pub remote_host: Option<String>,
    pub remote_port: Option<u16>,
    pub description: Option<String>,
    pub enabled: bool,
    pub created_at: i64,
    pub updated_at: i64,
    pub is_pro_feature: bool,
}

#[derive(Clone, Copy, Debug, PartialEq, Eq, Structural)]
pub enum SessionStatus {
    Connecting,
    Connected,
    Disconnected,
    Error,
}

#[derive(Clone, Copy, Debug, PartialEq, Eq, Structural)]
pub enum SessionType {
    SSH,
    Serial,
    Telnet,
}

/// The record of one remote session, bound to one terminal.
#[derive(Debug)]
pub struct Session {
    pub id: String,
    pub host_id: String,
    pub terminal_id: String,
    pub created_at: String,
    pub start_time: String,
    pub end_time: Option<String>,
    pub status: SessionStatus,
    pub error: Option<String>,
    pub last_activity: Option<String>,
    pub session_type: SessionType,
    pub sftp_enabled: Option<bool>,
    pub port_forwardings: Option<Vec<PortForwarding>>,
}

/// A session record, with its texts as sequences of characters.
pub struct SessionView {
    pub id: Seq<char>,
    pub host_id: Seq<char>,
    pub terminal_id: Seq<char>,
    pub created_at: Seq<char>,
    pub start_time: Seq<char>,
    pub end_time: Option<Seq<char>>,
    pub status: SessionStatus,
    pub error: Option<Seq<char>>,
    pub last_activity: Option<Seq<char>>,
    pub session_type: SessionType,
    pub sftp_enabled: Option<bool>,
    /// How many port forwardings the record lists, if it has a list.
    pub port_forwardings: Option<nat>,
}

/// An optional text as an optional sequence of characters.
pub open spec fn text_view(o: Option<String>) -> Option<Seq<char>> {
    match o {
        Some(s) => Some(s@),
        None => None,
    }
}

/// A copy of an optional text.
pub(crate) fn copy_text(o: &Option<String>) -> (r: Option<String>)
    ensures
        text_view(r) == text_view(*o),
{
    match o {
        Some(s) => Some(s.clone()),
        None => None,
    }
}

impl View for Session {
    type V = SessionView;

    open spec fn view(&self) -> SessionView {
        SessionView {
            id: self.id@,
            host_id: self.host_id@,
            terminal_id: self.terminal_id@,
            created_at: self.created_at@,
            start_time: self.start_time@,
            end_time: text_view(self.end_time),
            status: self.status,
            error: text_view(self.error),
            last_activity: text_view(self.last_activity),
            session_type: self.session_type,
            sftp_enabled: self.sftp_enabled,
            port_forwardings: match self.port_forwardings {
                Some(v) => Some(v@.len()),
                None => None,
            },
        }
    }
}

impl Clone for Session {
    fn clone(&self) -> (r: Self)
        ensures
            r@ == self@,
    {
        Session {
            id: self.id.clone(),
            host_id: self.host_id.clone(),
            terminal_id: self.terminal_id.clone(),
            created_at: self.created_at.clone(),
            start_time: self.start_time.clone(),
            end_time: copy_text(&self.end_time),
            status: self.status,
            error: copy_text(&self.error),
            last_activity: copy_text(&self.last_activity),
            session_type: self.session_type,
            sftp_enabled: self.sftp_enabled,
            port_forwardings: match &self.port_forwardings {
                Some(v) => Some(v.clone()),
                None => None,
            },
        }
    }
}

#[derive(Clone, Debug)]
pub struct Snippet {
    pub id: String,
    pub name: String,
    pub description: Option<String>,
    pub command: String,
    pub tags: Vec<String>,
    pub created_at: i64,
    pub updated_at: i64,
}

#[derive(Clone, Copy, Debug, PartialEq, Eq, Structural)]
pub enum SSHKeyType {
    RSA,
    DSA,
    ECDSA,
    Ed25519,
}

/// A private key on disk, with its passphrase if it has one.
#[derive(Clone, Debug)]
pub struct SSHKey {
    pub id: String,
    pub name: String,
    pub key_type: SSHKeyType,
    pub bits: Option<u32>,
    pub private_key_path: String,
    pub public_key_path: String,
    pub passphrase: Option<String>,
    pub host_ids: Vec<String>,
    pub created_at: i64,
    pub updated_at: i64,
}

} // verus!
