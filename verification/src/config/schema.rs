//! Versioned configuration schema: profiles, the saved-session tree and
//! inheritance of document defaults.
use vstd::prelude::*;

use crate::config::profile_table::ProfileTable;
use crate::ssh::auth::clone_opt_string;
use crate::text::{index_in, lemma_index_in, str_eq};

verus! {

/// Schema version of newly created documents.
pub const SCHEMA_VERSION: u32 = 1;

/// Port used when a profile names none.
pub const DEFAULT_SSH_PORT: u16 = 22;

/// Transcript format a logging profile uses unless it names another.
pub const DEFAULT_LOG_FORMAT: &'static str = "text";

/// The default SSH port.
pub fn default_ssh_port() -> (p: u16)
    ensures
        p == DEFAULT_SSH_PORT,
{
    DEFAULT_SSH_PORT
}

/// The default for flags that are on unless switched off.
pub fn default_true() -> (b: bool)
    ensures
        b,
{
    true
}

/// The default transcript format.
pub fn default_log_format() -> (s: String)
    ensures
        s@ == DEFAULT_LOG_FORMAT@,
{
    DEFAULT_LOG_FORMAT.to_owned()
}

/// How an auth profile authenticates; secrets are referenced by key only.
#[derive(Debug, PartialEq, Eq)]
pub enum AuthMethod {
    Password { secret_key: String },
    PrivateKey { path: String, passphrase_secret_key: Option<String> },
    Agent,
}

impl Clone for AuthMethod {
    fn clone(&self) -> (c: AuthMethod)
        ensures
            c == *self,
    {
        match self {
            AuthMethod::Password { secret_key } => AuthMethod::Password {
                secret_key: secret_key.clone(),
            },
            AuthMethod::PrivateKey { path, passphrase_secret_key } => AuthMethod::PrivateKey {
                path: path.clone(),
                passphrase_secret_key: clone_opt_string(passphrase_secret_key),
            },
            AuthMethod::Agent => AuthMethod::Agent,
        }
    }
}

/// A saved way to authenticate.
#[derive(Debug, PartialEq, Eq)]
pub struct AuthProfile {
    pub id: String,
    pub name: String,
    pub method: AuthMethod,
}

impl Clone for AuthProfile {
    fn clone(&self) -> (c: AuthProfile)
        ensures
            c == *self,
    {
        AuthProfile { id: self.id.clone(), name: self.name.clone(), method: self.method.clone() }
    }
}

/// A saved SSH proxy or jump host.
#[derive(Debug, PartialEq, Eq)]
pub struct ProxyProfile {
    pub id: String,
    pub name: String,
    pub host: String,
    pub port: u16,
    pub username: Option<String>,
}

impl Clone for ProxyProfile {
    fn clone(&self) -> (c: ProxyProfile)
        ensures
            c == *self,
    {
        ProxyProfile {
            id: self.id.clone(),
            name: self.name.clone(),
            host: self.host.clone(),
            port: self.port,
            username: clone_opt_string(&self.username),
        }
    }
}

/// SFTP defaults, or a session's override of them.
#[derive(Debug, PartialEq, Eq)]
pub struct SftpProfile {
    pub enabled: bool,
    pub initial_directory: Option<String>,
}

impl Default for SftpProfile {
    /// Enabled, no initial directory.
    fn default() -> (p: SftpProfile)
        ensures
            p == (SftpProfile { enabled: true, initial_directory: None }),
    {
        SftpProfile { enabled: true, initial_directory: None }
    }
}

impl Clone for SftpProfile {
    fn clone(&self) -> (c: SftpProfile)
        ensures
            c == *self,
    {
        SftpProfile {
            enabled: self.enabled,
            initial_directory: clone_opt_string(&self.initial_directory),
        }
    }
}

/// Direction of a configured port forward.
#[derive(Debug, Clone, Copy, PartialEq, Eq, Structural)]
pub enum TunnelForwardKind {
    Local,
    Remote,
    Dynamic,
}

/// One configured port forward.
#[derive(Debug, PartialEq, Eq)]
pub struct TunnelForward {
    pub kind: TunnelForwardKind,
    pub bind_host: String,
    pub bind_port: u16,
    pub target_host: String,
    pub target_port: u16,
}

impl Clone for TunnelForward {
    fn clone(&self) -> (c: TunnelForward)
        ensures
            c == *self,
    {
        TunnelForward {
            kind: self.kind,
            bind_host: self.bind_host.clone(),
            bind_port: self.bind_port,
            target_host: self.target_host.clone(),
            target_port: self.target_port,
        }
    }
}

/// Tunnel defaults, or a session's override of them.
#[derive(Debug, PartialEq, Eq)]
pub struct TunnelProfile {
    pub forwards: Vec<TunnelForward>,
}

impl Default for TunnelProfile {
    /// No forwards.
    fn default() -> (p: TunnelProfile)
        ensures
            p.forwards@.len() == 0,
    {
        TunnelProfile { forwards: Vec::new() }
    }
}

impl Clone for TunnelProfile {
    fn clone(&self) -> (c: TunnelProfile)
        ensures
            c.forwards@ == self.forwards@,
    {
        let mut forwards: Vec<TunnelForward> = Vec::new();
        let mut i: usize = 0;
        while i < self.forwards.len()
            invariant
                i <= self.forwards@.len(),
                forwards@ == self.forwards@.take(i as int),
            decreases self.forwards.len() - i,
        {
            forwards.push(self.forwards[i].clone());
            assert(forwards@ =~= self.forwards@.take(i + 1));
            i = i + 1;
        }
        assert(forwards@ =~= self.forwards@);
        TunnelProfile { forwards }
    }
}

/// Appearance defaults, or a session's override of them.
#[derive(Debug, PartialEq, Eq)]
pub struct AppearanceProfile {
    pub theme: String,
    pub font_family: String,
    pub font_size: u16,
}

impl Default for AppearanceProfile {
    /// The system theme in a 13-point monospace font.
    fn default() -> (p: AppearanceProfile)
        ensures
            p.theme@ == "system"@,
            p.font_family@ == "monospace"@,
            p.font_size == 13,
    {
        AppearanceProfile {
            theme: "system".to_owned(),
            font_family: "monospace".to_owned(),
            font_size: 13,
        }
    }
}

impl Clone for AppearanceProfile {
    fn clone(&self) -> (c: AppearanceProfile)
        ensures
            c == *self,
    {
        AppearanceProfile {
            theme: self.theme.clone(),
            font_family: self.font_family.clone(),
            font_size: self.font_size,
        }
    }
}

/// Logging defaults, or a session's override of them.
#[derive(Debug, PartialEq, Eq)]
pub struct LoggingProfile {
    pub enabled: bool,
    pub directory: Option<String>,
    pub format: String,
}

impl Default for LoggingProfile {
    /// Off, no directory, the default format.
    fn default() -> (p: LoggingProfile)
        ensures
            !p.enabled,
            p.directory is None,
            p.format@ == DEFAULT_LOG_FORMAT@,
    {
        LoggingProfile { enabled: false, directory: None, format: default_log_format() }
    }
}

impl Clone for LoggingProfile {
    fn clone(&self) -> (c: LoggingProfile)
        ensures
            c == *self,
    {
        LoggingProfile {
            enabled: self.enabled,
            directory: clone_opt_string(&self.directory),
            format: self.format.clone(),
        }
    }
}

/// A saved SSH/SFTP session.
#[derive(Debug, PartialEq, Eq)]
pub struct SessionProfile {
    pub id: String,
    pub name: String,
    pub host: String,
    pub port: u16,
    pub username: Option<String>,
    pub auth_profile_id: Option<String>,
    pub proxy_profile_id: Option<String>,
    pub sftp: Option<SftpProfile>,
    pub tunnel: Option<TunnelProfile>,
    pub appearance: Option<AppearanceProfile>,
    pub logging: Option<LoggingProfile>,
    pub tags: Vec<String>,
}

pub open spec fn same_opt_tunnel(a: Option<TunnelProfile>, b: Option<TunnelProfile>) -> bool {
    match (a, b) {
        (Some(x), Some(y)) => x.forwards@ == y.forwards@,
        (None, None) => true,
        _ => false,
    }
}

/// Two sessions hold the same values (lists compared by contents).
pub open spec fn same_session(a: SessionProfile, b: SessionProfile) -> bool {
    &&& a.id == b.id
    &&& a.name == b.name
    &&& a.host == b.host
    &&& a.port == b.port
    &&& a.username == b.username
    &&& a.auth_profile_id == b.auth_profile_id
    &&& a.proxy_profile_id == b.proxy_profile_id
    &&& a.sftp == b.sftp
    &&& same_opt_tunnel(a.tunnel, b.tunnel)
    &&& a.appearance == b.appearance
    &&& a.logging == b.logging
    &&& a.tags@ == b.tags@
}

pub open spec fn same_opt_session(a: Option<SessionProfile>, b: Option<SessionProfile>) -> bool {
    match (a, b) {
        (Some(x), Some(y)) => same_session(x, y),
        (None, None) => true,
        _ => false,
    }
}

fn clone_tags(tags: &Vec<String>) -> (c: Vec<String>)
    ensures
        c@ == tags@,
{
    let mut out: Vec<String> = Vec::new();
    let mut i: usize = 0;
    while i < tags.len()
        invariant
            i <= tags@.len(),
            out@ == tags@.take(i as int),
        decreases tags.len() - i,
    {
        out.push(tags[i].clone());
        assert(out@ =~= tags@.take(i + 1));
        i = i + 1;
    }
    assert(out@ =~= tags@);
    out
}

impl Clone for SessionProfile {
    fn clone(&self) -> (c: SessionProfile)
        ensures
            same_session(c, *self),
    {
        SessionProfile {
            id: self.id.clone(),
            name: self.name.clone(),
            host: self.host.clone(),
            port: self.port,
            username: clone_opt_string(&self.username),
            auth_profile_id: clone_opt_string(&self.auth_profile_id),
            proxy_profile_id: clone_opt_string(&self.proxy_profile_id),
            sftp: match &self.sftp {
                Some(p) => Some(p.clone()),
                None => None,
            },
            tunnel: match &self.tunnel {
                Some(p) => Some(p.clone()),
                None => None,
            },
            appearance: match &self.appearance {
                Some(p) => Some(p.clone()),
                None => None,
            },
            logging: match &self.logging {
                Some(p) => Some(p.clone()),
                None => None,
            },
            tags: clone_tags(&self.tags),
        }
    }
}

/// A partial edit of a session's basic fields: each field that is given
/// replaces the session's (the user name when `username_set`).
#[derive(Debug, Default, PartialEq, Eq)]
pub struct SessionBasicEdit {
    pub name: Option<String>,
    pub host: Option<String>,
    pub port: Option<u16>,
    pub username: Option<String>,
    pub username_set: bool,
    pub tags: Option<Vec<String>>,
}

/// A session after an edit.
pub open spec fn edited(s: SessionProfile, e: SessionBasicEdit) -> SessionProfile {
    SessionProfile {
        name: match e.name {
            Some(n) => n,
            None => s.name,
        },
        host: match e.host {
            Some(h) => h,
            None => s.host,
        },
        port: match e.port {
            Some(p) => p,
            None => s.port,
        },
        username: if e.username_set {
            e.username
        } else {
            s.username
        },
        tags: match e.tags {
            Some(t) => t,
            None => s.tags,
        },
        ..s
    }
}

impl SessionProfile {
    /// A session on the default port with no user, references, overrides or tags.
    pub fn new(id: &str, name: &str, host: &str) -> (s: SessionProfile)
        ensures
            s.id@ == id@,
            s.name@ == name@,
            s.host@ == host@,
            s.port == DEFAULT_SSH_PORT,
            s.username is None,
            s.auth_profile_id is None,
            s.proxy_profile_id is None,
            s.sftp is None,
            s.tunnel is None,
            s.appearance is None,
            s.logging is None,
            s.tags@.len() == 0,
    {
        SessionProfile {
            id: id.to_owned(),
            name: name.to_owned(),
            host: host.to_owned(),
            port: default_ssh_port(),
            username: None,
            auth_profile_id: None,
            proxy_profile_id: None,
            sftp: None,
            tunnel: None,
            appearance: None,
            logging: None,
            tags: Vec::new(),
        }
    }

    /// Applies the fields an edit gives (see `edited`).
    pub fn apply_basic_edit(&mut self, edit: &SessionBasicEdit)
        ensures
            same_session(*final(self), edited(*old(self), *edit)),
            edit.host matches Some(h) ==> final(self).host == h,
            edit.host is None ==> final(self).host == old(self).host,
            edit.name matches Some(n) ==> final(self).name == n,
            edit.name is None ==> final(self).name == old(self).name,
            edit.port matches Some(p) ==> final(self).port == p,
            edit.port is None ==> final(self).port == old(self).port,
            edit.username_set ==> final(self).username == edit.username,
            !edit.username_set ==> final(self).username == old(self).username,
            edit.tags matches Some(t) ==> final(self).tags@ == t@,
            edit.tags is None ==> final(self).tags == old(self).tags,
            final(self).id == old(self).id,
    {
        match &edit.name {
            Some(name) => {
                self.name = name.clone();
            },
            None => {},
        }
        match &edit.host {
            Some(host) => {
                self.host = host.clone();
            },
            None => {},
        }
        match edit.port {
            Some(port) => {
                self.port = port;
            },
            None => {},
        }
        if edit.username_set {
            self.username = clone_opt_string(&edit.username);
        }
        match &edit.tags {
            Some(tags) => {
                self.tags = clone_tags(tags);
            },
            None => {},
        }
    }
}

pub open spec fn session_ids(s: Seq<SessionProfile>) -> Seq<Seq<char>> {
    s.map_values(|p: SessionProfile| p.id@)
}

/// The first session with id `id` in a list.
pub open spec fn find_in_list(s: Seq<SessionProfile>, id: Seq<char>) -> Option<SessionProfile> {
    match index_in(session_ids(s), id) {
        Some(i) => Some(s[i as int]),
        None => None,
    }
}

/// A folder node of the saved-session tree.
#[derive(Debug, PartialEq, Eq)]
pub struct FolderProfile {
    pub id: String,
    pub name: String,
    pub sessions: Vec<SessionProfile>,
    pub folders: Vec<FolderProfile>,
}

/// The first session with id `id` in a folder: its own sessions first, then
/// its sub-folders in order, depth first.
pub open spec fn find_in_folder(f: FolderProfile, id: Seq<char>) -> Option<SessionProfile>
    decreases f,
{
    match find_in_list(f.sessions@, id) {
        Some(s) => Some(s),
        None => find_in_folders(f.folders@, id),
    }
}

/// The first session with id `id` in a list of folders.
pub open spec fn find_in_folders(fs: Seq<FolderProfile>, id: Seq<char>) -> Option<SessionProfile>
    decreases fs,
{
    if fs.len() == 0 {
        None
    } else {
        match find_in_folder(fs[0], id) {
            Some(s) => Some(s),
            None => find_in_folders(fs.drop_first(), id),
        }
    }
}


/// An edit sets exactly the fields it gives: the name, host, port and tags
/// it carries, and the user when it says the user is set; every other field
/// of the session stays as it was.
pub proof fn law_edit_sets_given_fields(s: SessionProfile, e: SessionBasicEdit)
    ensures
        ({
            let r = edited(s, e);
            &&& (e.name matches Some(n) ==> r.name == n) && (e.name is None ==> r.name == s.name)
            &&& (e.host matches Some(h) ==> r.host == h) && (e.host is None ==> r.host == s.host)
            &&& (e.port matches Some(p) ==> r.port == p) && (e.port is None ==> r.port == s.port)
            &&& (e.username_set ==> r.username == e.username) && (!e.username_set ==> r.username
                == s.username)
            &&& (e.tags matches Some(t) ==> r.tags == t) && (e.tags is None ==> r.tags == s.tags)
            &&& r.id == s.id
            &&& r.auth_profile_id == s.auth_profile_id
            &&& r.proxy_profile_id == s.proxy_profile_id
            &&& r.sftp == s.sftp
            &&& r.tunnel == s.tunnel
            &&& r.appearance == s.appearance
            &&& r.logging == s.logging
        }),
{
}

/// A session found in a list carries the id asked for, and comes before every
/// other session with that id; nothing is found when no session has the id.
pub proof fn law_found_in_list_has_id(l: Seq<SessionProfile>, id: Seq<char>)
    ensures
        find_in_list(l, id) matches Some(s) ==> s.id@ == id && exists|i: int| 0 <= i < l.len() && l[i]
            == s && forall|j: int| 0 <= j < i ==> l[j].id@ != id,
        find_in_list(l, id) is None ==> forall|j: int| 0 <= j < l.len() ==> l[j].id@ != id,
{
    crate::text::lemma_index_in(session_ids(l), id);
    match index_in(session_ids(l), id) {
        Some(i) => {
            assert(session_ids(l)[i as int] == l[i as int].id@);
            assert forall|j: int| 0 <= j < i implies l[j].id@ != id by {
                assert(session_ids(l)[j] == l[j].id@);
            }
        },
        None => {
            assert forall|j: int| 0 <= j < l.len() implies l[j].id@ != id by {
                assert(session_ids(l)[j] == l[j].id@);
            }
        },
    }
}

/// A session found in a folder tree carries the id asked for.
pub proof fn law_found_in_folder_has_id(f: FolderProfile, id: Seq<char>)
    ensures
        find_in_folder(f, id) matches Some(s) ==> s.id@ == id,
    decreases f,
{
    law_found_in_list_has_id(f.sessions@, id);
    lemma_found_in_folders_has_id(f, f.folders@, id);
}

proof fn lemma_found_in_folders_has_id(parent: FolderProfile, fs: Seq<FolderProfile>, id: Seq<char>)
    requires
        forall|k: int| 0 <= k < fs.len() ==> decreases_to!(parent => #[trigger] fs[k]),
    ensures
        find_in_folders(fs, id) matches Some(s) ==> s.id@ == id,
    decreases parent, fs.len(),
{
    if fs.len() > 0 {
        assert(decreases_to!(parent => fs[0]));
        law_found_in_folder_has_id(fs[0], id);
        assert forall|k: int| 0 <= k < fs.drop_first().len() implies decreases_to!(parent => #[trigger] fs.drop_first()[k]) by {
            assert(fs.drop_first()[k] == fs[k + 1]);
        }
        lemma_found_in_folders_has_id(parent, fs.drop_first(), id);
    }
}

/// A session found in a document carries the id asked for.
pub proof fn law_found_session_has_id(d: ConfigDocument, id: Seq<char>)
    ensures
        find_in_document(d, id) matches Some(s) ==> s.id@ == id,
{
    law_found_in_list_has_id(d.sessions@, id);
    lemma_folders_have_id(d.folders@, id);
}

proof fn lemma_folders_have_id(fs: Seq<FolderProfile>, id: Seq<char>)
    ensures
        find_in_folders(fs, id) matches Some(s) ==> s.id@ == id,
    decreases fs.len(),
{
    if fs.len() > 0 {
        law_found_in_folder_has_id(fs[0], id);
        lemma_folders_have_id(fs.drop_first(), id);
    }
}

/// An optional session after an edit.
pub open spec fn edited_opt(o: Option<SessionProfile>, e: SessionBasicEdit) -> Option<SessionProfile> {
    match o {
        Some(s) => Some(edited(s, e)),
        None => None,
    }
}

/// What looking up `id2` should give after editing the first session with id
/// `id`: the edited session for `id`, the old answer for every other id.
pub open spec fn after_edit(
    before: Option<SessionProfile>,
    id: Seq<char>,
    id2: Seq<char>,
    e: SessionBasicEdit,
) -> Option<SessionProfile> {
    if id2 == id {
        edited_opt(before, e)
    } else {
        before
    }
}

proof fn lemma_same_session_equiv(a: SessionProfile, b: SessionProfile, c: SessionProfile)
    ensures
        same_session(a, a),
        same_session(a, b) ==> same_session(b, a),
        same_session(a, b) && same_session(b, c) ==> same_session(a, c),
{
}

/// Position of the first session with id `id` in a list.
fn session_position(v: &Vec<SessionProfile>, id: &str) -> (r: Option<usize>)
    ensures
        match r {
            Some(i) => index_in(session_ids(v@), id@) == Some(i as nat) && i < v@.len(),
            None => index_in(session_ids(v@), id@) is None,
        },
{
    proof {
        lemma_index_in(session_ids(v@), id@);
    }
    let mut i: usize = 0;
    while i < v.len()
        invariant
            i <= v@.len(),
            forall|j: int| 0 <= j < i ==> session_ids(v@)[j] != id@,
            index_in(session_ids(v@), id@) matches Some(k) ==> k >= i,
        decreases v.len() - i,
    {
        if str_eq(v[i].id.as_str(), id) {
            proof {
                lemma_index_in(session_ids(v@), id@);
                assert(session_ids(v@)[i as int] == id@);
            }
            return Some(i);
        }
        proof {
            lemma_index_in(session_ids(v@), id@);
            assert(session_ids(v@)[i as int] == v@[i as int].id@);
        }
        i = i + 1;
    }
    proof {
        if session_ids(v@).contains(id@) {
            let k = choose|k: int| 0 <= k < session_ids(v@).len() && session_ids(v@)[k] == id@;
            assert(session_ids(v@)[k] != id@);
        }
    }
    None
}

proof fn lemma_find_folders_skip(fs: Seq<FolderProfile>, k: int, id: Seq<char>)
    requires
        0 <= k < fs.len(),
        find_in_folder(fs[k], id) is None,
    ensures
        find_in_folders(fs.skip(k), id) == find_in_folders(fs.skip(k + 1), id),
{
    assert(fs.skip(k)[0] == fs[k]);
    assert(fs.skip(k).drop_first() =~= fs.skip(k + 1));
}

proof fn lemma_find_folders_at(fs: Seq<FolderProfile>, k: int, id: Seq<char>)
    requires
        0 <= k < fs.len(),
    ensures
        find_in_folder(fs[k], id) is Some ==> find_in_folders(fs.skip(k), id) == find_in_folder(
            fs[k],
            id,
        ),
{
    assert(fs.skip(k)[0] == fs[k]);
}

/// Position of the first folder holding a session with id `id`.
fn folder_position(fs: &Vec<FolderProfile>, id: &str) -> (r: Option<usize>)
    ensures
        match r {
            Some(k) => k < fs@.len() && find_in_folder(fs@[k as int], id@) is Some && (forall|j: int|
                0 <= j < k ==> find_in_folder(#[trigger] fs@[j], id@) is None) && find_in_folders(
                fs@,
                id@,
            ) == find_in_folder(fs@[k as int], id@),
            None => find_in_folders(fs@, id@) is None,
        },
{
    let mut k: usize = 0;
    assert(fs@.skip(0) =~= fs@);
    while k < fs.len()
        invariant
            k <= fs@.len(),
            forall|j: int| 0 <= j < k ==> find_in_folder(#[trigger] fs@[j], id@) is None,
            find_in_folders(fs@, id@) == find_in_folders(fs@.skip(k as int), id@),
        decreases fs.len() - k,
    {
        if fs[k].find_session(id).is_some() {
            proof {
                lemma_find_folders_at(fs@, k as int, id@);
            }
            return Some(k);
        }
        proof {
            lemma_find_folders_skip(fs@, k as int, id@);
        }
        k = k + 1;
    }
    assert(fs@.skip(k as int) =~= Seq::<FolderProfile>::empty());
    None
}

/// Lookups in two folder lists agree when they agree folder by folder.
proof fn lemma_folders_pointwise(a: Seq<FolderProfile>, b: Seq<FolderProfile>, id: Seq<char>)
    requires
        a.len() == b.len(),
        forall|j: int| 0 <= j < a.len() ==> same_opt_session(
            find_in_folder(#[trigger] a[j], id),
            find_in_folder(b[j], id),
        ),
    ensures
        same_opt_session(find_in_folders(a, id), find_in_folders(b, id)),
    decreases a.len(),
{
    if a.len() > 0 {
        assert(same_opt_session(find_in_folder(a[0], id), find_in_folder(b[0], id)));
        assert forall|j: int| 0 <= j < a.drop_first().len() implies same_opt_session(
            find_in_folder(#[trigger] a.drop_first()[j], id),
            find_in_folder(b.drop_first()[j], id),
        ) by {
            assert(a.drop_first()[j] == a[j + 1]);
            assert(b.drop_first()[j] == b[j + 1]);
        }
        lemma_folders_pointwise(a.drop_first(), b.drop_first(), id);
    } else {
    }
}

/// With no match before `k`, a folder list's answer is folder `k`'s (if any).
proof fn lemma_folders_first(fs: Seq<FolderProfile>, k: int, id: Seq<char>)
    requires
        0 <= k < fs.len(),
        forall|j: int| 0 <= j < k ==> find_in_folder(#[trigger] fs[j], id) is None,
        find_in_folder(fs[k], id) is Some,
    ensures
        find_in_folders(fs, id) == find_in_folder(fs[k], id),
    decreases k,
{
    if k > 0 {
        assert forall|j: int| 0 <= j < k - 1 implies find_in_folder(#[trigger] fs.drop_first()[j], id)
            is None by {
            assert(fs.drop_first()[j] == fs[j + 1]);
        }
        assert(fs.drop_first()[k - 1] == fs[k]);
        assert(find_in_folder(fs[0], id) is None);
        lemma_folders_first(fs.drop_first(), k - 1, id);
    }
}

/// The position of the first folder in `fs` holding a session with id `id`.
pub open spec fn first_folder(fs: Seq<FolderProfile>, id: Seq<char>) -> Option<nat>
    decreases fs.len(),
{
    if fs.len() == 0 {
        None
    } else if find_in_folder(fs[0], id) is Some {
        Some(0)
    } else {
        match first_folder(fs.drop_first(), id) {
            Some(k) => Some(k + 1),
            None => None,
        }
    }
}

proof fn lemma_first_folder_bound(fs: Seq<FolderProfile>, id: Seq<char>)
    ensures
        first_folder(fs, id) matches Some(k) ==> k < fs.len(),
    decreases fs.len(),
{
    if fs.len() > 0 {
        lemma_first_folder_bound(fs.drop_first(), id);
    }
}

/// The first folder that holds `id` is the one `folder_position` finds.
proof fn lemma_first_folder_at(fs: Seq<FolderProfile>, k: int, id: Seq<char>)
    requires
        0 <= k < fs.len(),
        find_in_folder(fs[k], id) is Some,
        forall|j: int| 0 <= j < k ==> find_in_folder(#[trigger] fs[j], id) is None,
    ensures
        first_folder(fs, id) == Some(k as nat),
    decreases k,
{
    if k > 0 {
        assert(find_in_folder(fs[0], id) is None);
        assert forall|j: int| 0 <= j < k - 1 implies find_in_folder(#[trigger] fs.drop_first()[j], id)
            is None by {
            assert(fs.drop_first()[j] == fs[j + 1]);
        }
        assert(fs.drop_first()[k - 1] == fs[k]);
        lemma_first_folder_at(fs.drop_first(), k - 1, id);
    }
}

/// `b` is folder `a` with its first session with id `id` (its own sessions
/// first, then its sub-folders depth first) replaced by `s`.
pub open spec fn folder_replaced(a: FolderProfile, b: FolderProfile, id: Seq<char>, s: SessionProfile) -> bool
    decreases a,
{
    &&& b.id == a.id
    &&& b.name == a.name
    &&& match index_in(session_ids(a.sessions@), id) {
        Some(i) => b.sessions@ == a.sessions@.update(i as int, s) && b.folders@ == a.folders@,
        None => match first_folder(a.folders@, id) {
            Some(k) => {
                &&& k < a.folders@.len()
                &&& b.sessions@ == a.sessions@
                &&& b.folders@.len() == a.folders@.len()
                &&& forall|j: int| 0 <= j < a.folders@.len() && j != k ==> #[trigger] b.folders@[j] == a.folders@[j]
                &&& folder_replaced(a.folders@[k as int], b.folders@[k as int], id, s)
            },
            None => false,
        },
    }
}

impl FolderProfile {
    /// An empty folder.
    pub fn new(id: &str, name: &str) -> (f: FolderProfile)
        ensures
            f.id@ == id@,
            f.name@ == name@,
            f.sessions@.len() == 0,
            f.folders@.len() == 0,
    {
        FolderProfile { id: id.to_owned(), name: name.to_owned(), sessions: Vec::new(), folders: Vec::new() }
    }

    /// The first session with id `id` in this folder (see `find_in_folder`).
    pub fn find_session(&self, id: &str) -> (r: Option<&SessionProfile>)
        ensures
            match r {
                Some(s) => find_in_folder(*self, id@) == Some(*s),
                None => find_in_folder(*self, id@) is None,
            },
        decreases self,
    {
        match session_position(&self.sessions, id) {
            Some(i) => {
                return Some(&self.sessions[i]);
            },
            None => {},
        }
        let mut k: usize = 0;
        assert(self.folders@.skip(0) =~= self.folders@);
        while k < self.folders.len()
            invariant
                k <= self.folders@.len(),
                find_in_list(self.sessions@, id@) is None,
                find_in_folders(self.folders@, id@) == find_in_folders(self.folders@.skip(k as int), id@),
            decreases self.folders.len() - k,
        {
            assert(decreases_to!(*self => self.folders@[k as int]));
            match self.folders[k].find_session(id) {
                Some(s) => {
                    proof {
                        lemma_find_folders_at(self.folders@, k as int, id@);
                    }
                    return Some(s);
                },
                None => {},
            }
            proof {
                lemma_find_folders_skip(self.folders@, k as int, id@);
            }
            k = k + 1;
        }
        assert(self.folders@.skip(k as int) =~= Seq::<FolderProfile>::empty());
        None
    }

    /// The first session with id `id` in this folder, for changes.
    pub fn find_session_mut(&mut self, id: &str) -> (r: Option<&mut SessionProfile>)
        ensures
            match r {
                Some(s) => find_in_folder(*old(self), id@) == Some(*s) && folder_replaced(
                    *old(self),
                    *final(self),
                    id@,
                    *final(s),
                ),
                None => find_in_folder(*old(self), id@) is None && *final(self) == *old(self),
            },
        decreases *old(self),
    {
        match session_position(&self.sessions, id) {
            Some(i) => {
                return Some(&mut self.sessions[i]);
            },
            None => {},
        }
        match folder_position(&self.folders, id) {
            Some(k) => {
                assert(decreases_to!(*old(self) => old(self).folders@[k as int]));
                proof {
                    lemma_first_folder_at(self.folders@, k as int, id@);
                }
                self.folders[k].find_session_mut(id)
            },
            None => None,
        }
    }

    /// Edits the first session with id `id`; whether there was one.
    fn edit_first(&mut self, id: &str, edit: &SessionBasicEdit) -> (hit: bool)
        ensures
            hit == find_in_folder(*old(self), id@) is Some,
            forall|id2: Seq<char>|
                same_opt_session(
                    #[trigger] find_in_folder(*final(self), id2),
                    after_edit(find_in_folder(*old(self), id2), id@, id2, *edit),
                ),
        decreases *old(self),
    {
        let ghost before = *self;
        match session_position(&self.sessions, id) {
            Some(i) => {
                let mut s = self.sessions.remove(i);
                s.apply_basic_edit(edit);
                let ghost sv = s;
                self.sessions.insert(i, s);
                proof {
                    let old_list = before.sessions@;
                    let new_list = self.sessions@;
                    assert(new_list =~= old_list.update(i as int, sv));
                    assert(session_ids(new_list) =~= session_ids(old_list));
                    lemma_index_in(session_ids(old_list), id@);
                    assert forall|id2: Seq<char>|
                        same_opt_session(
                            #[trigger] find_in_folder(*self, id2),
                            after_edit(find_in_folder(before, id2), id@, id2, *edit),
                        ) by {
                        lemma_index_in(session_ids(old_list), id2);
                        match index_in(session_ids(old_list), id2) {
                            Some(j) => {
                                if j == i {
                                    assert(id2 == id@);
                                } else {
                                    assert(new_list[j as int] == old_list[j as int]);
                                    assert(id2 != id@);
                                }
                                lemma_same_session_equiv(new_list[j as int], new_list[j as int], new_list[j as int]);
                            },
                            None => {
                                if id2 == id@ {
                                    assert(session_ids(old_list)[i as int] == id@);
                                }
                                if find_in_folders(self.folders@, id2) is Some {
                                    let x = find_in_folders(self.folders@, id2).unwrap();
                                    lemma_same_session_equiv(x, x, x);
                                }
                            },
                        }
                    }
                }
                return true;
            },
            None => {},
        }
        match folder_position(&self.folders, id) {
            Some(k) => {
                let mut f = self.folders.remove(k);
                assert(decreases_to!(*old(self) => f));
                let hit = f.edit_first(id, edit);
                let ghost fv = f;
                self.folders.insert(k, f);
                proof {
                    let old_fs = before.folders@;
                    let new_fs = self.folders@;
                    assert(new_fs =~= old_fs.update(k as int, fv));
                    assert forall|id2: Seq<char>|
                        same_opt_session(
                            #[trigger] find_in_folder(*self, id2),
                            after_edit(find_in_folder(before, id2), id@, id2, *edit),
                        ) by {
                        assert(self.sessions@ == before.sessions@);
                        match find_in_list(before.sessions@, id2) {
                            Some(x) => {
                                lemma_same_session_equiv(x, x, x);
                                if id2 == id@ {
                                    lemma_index_in(session_ids(before.sessions@), id2);
                                }
                            },
                            None => {
                                if id2 == id@ {
                                    assert forall|j: int| 0 <= j < k implies find_in_folder(
                                        #[trigger] new_fs[j],
                                        id2,
                                    ) is None by {
                                        assert(new_fs[j] == old_fs[j]);
                                    }
                                    lemma_folders_first(new_fs, k as int, id2);
                                } else {
                                    assert forall|j: int| 0 <= j < new_fs.len() implies same_opt_session(
                                        find_in_folder(#[trigger] new_fs[j], id2),
                                        find_in_folder(old_fs[j], id2),
                                    ) by {
                                        if j != k {
                                            assert(new_fs[j] == old_fs[j]);
                                            if find_in_folder(new_fs[j], id2) is Some {
                                                let x = find_in_folder(new_fs[j], id2).unwrap();
                                                lemma_same_session_equiv(x, x, x);
                                            }
                                        }
                                    }
                                    lemma_folders_pointwise(new_fs, old_fs, id2);
                                }
                            },
                        }
                    }
                }
                hit
            },
            None => false,
        }
    }
}


/// A session with every inheritable setting resolved.
#[derive(Debug, PartialEq, Eq)]
pub struct ResolvedSessionProfile {
    pub session: SessionProfile,
    pub auth: Option<AuthProfile>,
    pub proxy: Option<ProxyProfile>,
    pub sftp: SftpProfile,
    pub tunnel: TunnelProfile,
    pub appearance: AppearanceProfile,
    pub logging: LoggingProfile,
}

/// The root document the configuration store persists.
#[derive(Debug, PartialEq, Eq)]
pub struct ConfigDocument {
    /// Schema version, used to decide on migrations.
    pub schema_version: u32,
    /// Saved sessions outside any folder.
    pub sessions: Vec<SessionProfile>,
    /// The saved-session folder tree.
    pub folders: Vec<FolderProfile>,
    /// Auth profiles by id.
    pub auth_profiles: ProfileTable<AuthProfile>,
    /// Proxy profiles by id.
    pub proxy_profiles: ProfileTable<ProxyProfile>,
    /// SFTP defaults sessions inherit.
    pub sftp: SftpProfile,
    /// Tunnel defaults sessions inherit.
    pub tunnel: TunnelProfile,
    /// Appearance defaults sessions inherit.
    pub appearance: AppearanceProfile,
    /// Logging defaults sessions inherit.
    pub logging: LoggingProfile,
}

/// `b` is document `a` with its first session with id `id` (top-level
/// sessions first, then the folders depth first) replaced by `s`.
pub open spec fn document_replaced(a: ConfigDocument, b: ConfigDocument, id: Seq<char>, s: SessionProfile) -> bool {
    &&& b == ConfigDocument { sessions: b.sessions, folders: b.folders, ..a }
    &&& match index_in(session_ids(a.sessions@), id) {
        Some(i) => b.sessions@ == a.sessions@.update(i as int, s) && b.folders@ == a.folders@,
        None => match first_folder(a.folders@, id) {
            Some(k) => {
                &&& k < a.folders@.len()
                &&& b.sessions@ == a.sessions@
                &&& b.folders@.len() == a.folders@.len()
                &&& forall|j: int| 0 <= j < a.folders@.len() && j != k ==> #[trigger] b.folders@[j] == a.folders@[j]
                &&& folder_replaced(a.folders@[k as int], b.folders@[k as int], id, s)
            },
            None => false,
        },
    }
}

/// The first session with id `id` in a document: loose sessions first, then
/// the folder tree.
pub open spec fn find_in_document(d: ConfigDocument, id: Seq<char>) -> Option<SessionProfile> {
    match find_in_list(d.sessions@, id) {
        Some(s) => Some(s),
        None => find_in_folders(d.folders@, id),
    }
}

/// A referenced profile, if the reference is set and names one.
pub open spec fn referenced<T>(table: Map<Seq<char>, T>, r: Option<String>) -> Option<T> {
    match r {
        Some(k) => if table.contains_key(k@) {
            Some(table[k@])
        } else {
            None
        },
        None => None,
    }
}

/// `r` is session `s` resolved against document `d`: the session's own
/// overrides where it has them, the document's defaults elsewhere, and its
/// auth and proxy references looked up.
pub open spec fn resolves_to(d: ConfigDocument, s: SessionProfile, r: ResolvedSessionProfile) -> bool {
    &&& same_session(r.session, s)
    &&& r.auth == referenced(d.auth_profiles@, s.auth_profile_id)
    &&& r.proxy == referenced(d.proxy_profiles@, s.proxy_profile_id)
    &&& r.sftp == match s.sftp {
        Some(p) => p,
        None => d.sftp,
    }
    &&& r.tunnel.forwards@ == match s.tunnel {
        Some(t) => t.forwards@,
        None => d.tunnel.forwards@,
    }
    &&& r.appearance == match s.appearance {
        Some(p) => p,
        None => d.appearance,
    }
    &&& r.logging == match s.logging {
        Some(p) => p,
        None => d.logging,
    }
}

/// `r` is what resolving session `id` against `d` gives: the resolution of the
/// session that `find_in_document` finds, or nothing.
pub open spec fn resolution_of(d: ConfigDocument, id: Seq<char>, r: Option<ResolvedSessionProfile>) -> bool {
    match find_in_document(d, id) {
        Some(s) => r matches Some(res) && resolves_to(d, s, res),
        None => r is None,
    }
}

/// Resolving a session succeeds exactly when looking it up does, and then
/// gives the session found, the auth and proxy profiles it references (where
/// the document has them), and for each of sftp, tunnel, appearance and
/// logging the session's own setting where it has one, the document's
/// otherwise.
pub proof fn law_resolve_session_follows_lookup(
    d: ConfigDocument,
    id: Seq<char>,
    found: Option<SessionProfile>,
    resolved: Option<ResolvedSessionProfile>,
)
    requires
        found == find_in_document(d, id),
        resolution_of(d, id, resolved),
    ensures
        resolved is Some <==> found is Some,
        resolved matches Some(res) ==> (found matches Some(s) ==> {
            &&& same_session(res.session, s)
            &&& res.auth == referenced(d.auth_profiles@, s.auth_profile_id)
            &&& res.proxy == referenced(d.proxy_profiles@, s.proxy_profile_id)
            &&& res.sftp == (match s.sftp {
                Some(p) => p,
                None => d.sftp,
            })
            &&& res.tunnel.forwards@ == (match s.tunnel {
                Some(t) => t.forwards@,
                None => d.tunnel.forwards@,
            })
            &&& res.appearance == (match s.appearance {
                Some(p) => p,
                None => d.appearance,
            })
            &&& res.logging == (match s.logging {
                Some(p) => p,
                None => d.logging,
            })
        }),
{
}

/// How many of `ids` name a session in document `d`.
pub open spec fn count_found(d: ConfigDocument, ids: Seq<Seq<char>>) -> nat
    decreases ids.len(),
{
    if ids.len() == 0 {
        0
    } else {
        count_found(d, ids.drop_last()) + if find_in_document(d, ids.last()) is Some {
            1nat
        } else {
            0nat
        }
    }
}

pub open spec fn str_views(ids: Seq<&str>) -> Seq<Seq<char>> {
    ids.map_values(|s: &str| s@)
}

impl Default for ConfigDocument {
    /// The current schema version, nothing saved, default settings.
    fn default() -> (d: ConfigDocument)
        ensures
            d.schema_version == SCHEMA_VERSION,
            d.sessions@.len() == 0,
            d.folders@.len() == 0,
            d.auth_profiles@ == Map::<Seq<char>, AuthProfile>::empty(),
            d.proxy_profiles@ == Map::<Seq<char>, ProxyProfile>::empty(),
            d.sftp == (SftpProfile { enabled: true, initial_directory: None }),
            d.tunnel.forwards@.len() == 0,
            d.appearance.theme@ == "system"@,
            d.appearance.font_family@ == "monospace"@,
            d.appearance.font_size == 13,
            !d.logging.enabled,
            d.logging.directory is None,
            d.logging.format@ == DEFAULT_LOG_FORMAT@,
    {
        ConfigDocument {
            schema_version: SCHEMA_VERSION,
            sessions: Vec::new(),
            folders: Vec::new(),
            auth_profiles: ProfileTable::new(),
            proxy_profiles: ProfileTable::new(),
            sftp: SftpProfile::default(),
            tunnel: TunnelProfile::default(),
            appearance: AppearanceProfile::default(),
            logging: LoggingProfile::default(),
        }
    }
}

impl ConfigDocument {
    /// The first session with id `id` (see `find_in_document`).
    pub fn find_session(&self, id: &str) -> (r: Option<&SessionProfile>)
        ensures
            match r {
                Some(s) => find_in_document(*self, id@) == Some(*s),
                None => find_in_document(*self, id@) is None,
            },
    {
        match session_position(&self.sessions, id) {
            Some(i) => {
                return Some(&self.sessions[i]);
            },
            None => {},
        }
        match folder_position(&self.folders, id) {
            Some(k) => self.folders[k].find_session(id),
            None => None,
        }
    }

    /// The first session with id `id`, for changes.
    pub fn find_session_mut(&mut self, id: &str) -> (r: Option<&mut SessionProfile>)
        ensures
            match r {
                Some(s) => find_in_document(*old(self), id@) == Some(*s) && document_replaced(
                    *old(self),
                    *final(self),
                    id@,
                    *final(s),
                ),
                None => find_in_document(*old(self), id@) is None && *final(self) == *old(self),
            },
    {
        match session_position(&self.sessions, id) {
            Some(i) => {
                return Some(&mut self.sessions[i]);
            },
            None => {},
        }
        match folder_position(&self.folders, id) {
            Some(k) => {
                proof {
                    lemma_first_folder_at(self.folders@, k as int, id@);
                }
                self.folders[k].find_session_mut(id)
            },
            None => None,
        }
    }

    /// Edits the first session with id `id`; whether there was one.
    fn edit_first(&mut self, id: &str, edit: &SessionBasicEdit) -> (hit: bool)
        ensures
            hit == find_in_document(*old(self), id@) is Some,
            forall|id2: Seq<char>|
                same_opt_session(
                    #[trigger] find_in_document(*final(self), id2),
                    after_edit(find_in_document(*old(self), id2), id@, id2, *edit),
                ),
            final(self).auth_profiles == old(self).auth_profiles,
            final(self).proxy_profiles == old(self).proxy_profiles,
            final(self).sftp == old(self).sftp,
            final(self).tunnel == old(self).tunnel,
            final(self).appearance == old(self).appearance,
            final(self).logging == old(self).logging,
            final(self).schema_version == old(self).schema_version,
    {
        let ghost before = *self;
        match session_position(&self.sessions, id) {
            Some(i) => {
                let mut s = self.sessions.remove(i);
                s.apply_basic_edit(edit);
                let ghost sv = s;
                self.sessions.insert(i, s);
                proof {
                    let old_list = before.sessions@;
                    let new_list = self.sessions@;
                    assert(new_list =~= old_list.update(i as int, sv));
                    assert(session_ids(new_list) =~= session_ids(old_list));
                    assert forall|id2: Seq<char>|
                        same_opt_session(
                            #[trigger] find_in_document(*self, id2),
                            after_edit(find_in_document(before, id2), id@, id2, *edit),
                        ) by {
                        lemma_index_in(session_ids(old_list), id2);
                        lemma_index_in(session_ids(old_list), id@);
                        match index_in(session_ids(old_list), id2) {
                            Some(j) => {
                                if j != i {
                                    assert(new_list[j as int] == old_list[j as int]);
                                    assert(id2 != id@);
                                } else {
                                    assert(id2 == id@);
                                }
                                lemma_same_session_equiv(new_list[j as int], new_list[j as int], new_list[j as int]);
                            },
                            None => {
                                lemma_index_in(session_ids(old_list), id@);
                                if id2 == id@ {
                                    assert(session_ids(old_list)[i as int] == id@);
                                }
                                if find_in_folders(self.folders@, id2) is Some {
                                    let x = find_in_folders(self.folders@, id2).unwrap();
                                    lemma_same_session_equiv(x, x, x);
                                }
                            },
                        }
                    }
                }
                return true;
            },
            None => {},
        }
        match folder_position(&self.folders, id) {
            Some(k) => {
                let mut f = self.folders.remove(k);
                let hit = f.edit_first(id, edit);
                let ghost fv = f;
                self.folders.insert(k, f);
                proof {
                    let old_fs = before.folders@;
                    let new_fs = self.folders@;
                    assert(new_fs =~= old_fs.update(k as int, fv));
                    assert forall|id2: Seq<char>|
                        same_opt_session(
                            #[trigger] find_in_document(*self, id2),
                            after_edit(find_in_document(before, id2), id@, id2, *edit),
                        ) by {
                        assert(self.sessions@ == before.sessions@);
                        match find_in_list(before.sessions@, id2) {
                            Some(x) => {
                                lemma_same_session_equiv(x, x, x);
                                if id2 == id@ {
                                    lemma_index_in(session_ids(before.sessions@), id2);
                                }
                            },
                            None => {
                                if id2 == id@ {
                                    assert forall|j: int| 0 <= j < k implies find_in_folder(
                                        #[trigger] new_fs[j],
                                        id2,
                                    ) is None by {
                                        assert(new_fs[j] == old_fs[j]);
                                    }
                                    lemma_folders_first(new_fs, k as int, id2);
                                } else {
                                    assert forall|j: int| 0 <= j < new_fs.len() implies same_opt_session(
                                        find_in_folder(#[trigger] new_fs[j], id2),
                                        find_in_folder(old_fs[j], id2),
                                    ) by {
                                        if j != k {
                                            assert(new_fs[j] == old_fs[j]);
                                            if find_in_folder(new_fs[j], id2) is Some {
                                                let x = find_in_folder(new_fs[j], id2).unwrap();
                                                lemma_same_session_equiv(x, x, x);
                                            }
                                        }
                                    }
                                    lemma_folders_pointwise(new_fs, old_fs, id2);
                                }
                            },
                        }
                    }
                }
                hit
            },
            None => false,
        }
    }

    /// Applies `edit` to the first session of each id in `ids`, and returns how
    /// many ids named a session.
    pub fn batch_edit_basic(&mut self, ids: &[&str], edit: &SessionBasicEdit) -> (count: usize)
        ensures
            count == count_found(*old(self), str_views(ids@)),
            forall|id2: Seq<char>|
                same_opt_session(
                    #[trigger] find_in_document(*final(self), id2),
                    if str_views(ids@).contains(id2) {
                        edited_opt(find_in_document(*old(self), id2), *edit)
                    } else {
                        find_in_document(*old(self), id2)
                    },
                ),
    {
        let ghost start = *self;
        let mut count: usize = 0;
        let mut i: usize = 0;
        while i < ids.len()
            invariant
                i <= ids@.len(),
                count == count_found(start, str_views(ids@).take(i as int)),
                count <= i,
                forall|id2: Seq<char>| (find_in_document(*self, id2) is Some) == (find_in_document(start, id2) is Some),
                forall|id2: Seq<char>|
                    same_opt_session(
                        #[trigger] find_in_document(*self, id2),
                        if str_views(ids@).take(i as int).contains(id2) {
                            edited_opt(find_in_document(start, id2), *edit)
                        } else {
                            find_in_document(start, id2)
                        },
                    ),
            decreases ids.len() - i,
        {
            let ghost mid = *self;
            let id = ids[i];
            let hit = self.edit_first(id, edit);
            proof {
                let prefix = str_views(ids@).take(i as int);
                let next = str_views(ids@).take(i + 1);
                assert(next =~= prefix.push(id@));
                assert(next.drop_last() =~= prefix);
                assert forall|id2: Seq<char>| (find_in_document(*self, id2) is Some) == (find_in_document(start, id2) is Some) by {
                    assert(same_opt_session(find_in_document(*self, id2), after_edit(find_in_document(mid, id2), id@, id2, *edit)));
                }
                assert forall|id2: Seq<char>|
                    same_opt_session(
                        #[trigger] find_in_document(*self, id2),
                        if next.contains(id2) {
                            edited_opt(find_in_document(start, id2), *edit)
                        } else {
                            find_in_document(start, id2)
                        },
                    ) by {
                    assert(same_opt_session(find_in_document(*self, id2), after_edit(find_in_document(mid, id2), id@, id2, *edit)));
                    assert(same_opt_session(find_in_document(mid, id2), if prefix.contains(id2) {
                            edited_opt(find_in_document(start, id2), *edit)
                        } else {
                            find_in_document(start, id2)
                        }));
                    if id2 == id@ {
                        assert(next.contains(id2)) by {
                            assert(next[i as int] == id2);
                        }
                    } else {
                        if next.contains(id2) {
                            let q = choose|q: int| 0 <= q < next.len() && next[q] == id2;
                            assert(q < i);
                            assert(prefix[q] == id2);
                        }
                        if prefix.contains(id2) {
                            let q = choose|q: int| 0 <= q < prefix.len() && prefix[q] == id2;
                            assert(next[q] == id2);
                        }
                    }
                }
            }
            if hit {
                count = count + 1;
            }
            i = i + 1;
        }
        assert(str_views(ids@).take(ids@.len() as int) =~= str_views(ids@));
        count
    }

    /// Session `id` resolved against the document (see `resolves_to`); `None`
    /// when no session has that id.
    pub fn resolve_session(&self, id: &str) -> (r: Option<ResolvedSessionProfile>)
        ensures
            resolution_of(*self, id@, r),
    {
        let session = match self.find_session(id) {
            Some(s) => s.clone(),
            None => {
                return None;
            },
        };
        let auth = match &session.auth_profile_id {
            Some(key) => match self.auth_profiles.get(key.as_str()) {
                Some(p) => Some(p.clone()),
                None => None,
            },
            None => None,
        };
        let proxy = match &session.proxy_profile_id {
            Some(key) => match self.proxy_profiles.get(key.as_str()) {
                Some(p) => Some(p.clone()),
                None => None,
            },
            None => None,
        };
        let sftp = match &session.sftp {
            Some(p) => p.clone(),
            None => self.sftp.clone(),
        };
        let tunnel = match &session.tunnel {
            Some(p) => p.clone(),
            None => self.tunnel.clone(),
        };
        let appearance = match &session.appearance {
            Some(p) => p.clone(),
            None => self.appearance.clone(),
        };
        let logging = match &session.logging {
            Some(p) => p.clone(),
            None => self.logging.clone(),
        };
        Some(ResolvedSessionProfile { session, auth, proxy, sftp, tunnel, appearance, logging })
    }
}


/// Why a stored document's version cannot be used.
#[derive(Debug, Clone, Copy, PartialEq, Eq, Structural)]
pub enum SchemaVersionError {
    /// The version is negative or newer than this program knows.
    UnsupportedVersion(u32),
    /// The document has no integer `schema_version`.
    MissingVersion,
}

/// What loading a stored document of a given version takes.
#[derive(Debug, Clone, Copy, PartialEq, Eq, Structural)]
pub enum Migration {
    /// The document is current and is read as is.
    Current,
    /// A version 0 document: its version is set to the current one, then it
    /// is read.
    FromZero,
}

/// The migration for a stored `schema_version` (`None` when absent or not an
/// integer). A non-negative version is compared after truncation to 32 bits;
/// a negative one is reported truncated.
pub open spec fn migration_for(version: Option<i64>) -> Result<Migration, SchemaVersionError> {
    match version {
        None => Err(SchemaVersionError::MissingVersion),
        Some(v) => if v < 0 {
            Err(SchemaVersionError::UnsupportedVersion(v as u32))
        } else if v as u32 == SCHEMA_VERSION {
            Ok(Migration::Current)
        } else if v as u32 == 0 {
            Ok(Migration::FromZero)
        } else {
            Err(SchemaVersionError::UnsupportedVersion(v as u32))
        },
    }
}

/// Decides how a stored document of `version` is migrated.
pub fn plan_migration(version: Option<i64>) -> (r: Result<Migration, SchemaVersionError>)
    ensures
        r == migration_for(version),
{
    match version {
        None => Err(SchemaVersionError::MissingVersion),
        Some(v) => {
            let t = v as u32;
            if v < 0 {
                Err(SchemaVersionError::UnsupportedVersion(t))
            } else if t == SCHEMA_VERSION {
                Ok(Migration::Current)
            } else if t == 0 {
                Ok(Migration::FromZero)
            } else {
                Err(SchemaVersionError::UnsupportedVersion(t))
            }
        },
    }
}

/// Every version this program writes is read back as is, version 0 is
/// always upgraded, and newer versions within 32 bits are refused.
pub proof fn law_current_and_zero_load(v: i64)
    ensures
        v == SCHEMA_VERSION ==> migration_for(Some(v)) == Ok::<Migration, SchemaVersionError>(
            Migration::Current,
        ),
        v == 0 ==> migration_for(Some(v)) == Ok::<Migration, SchemaVersionError>(Migration::FromZero),
        SCHEMA_VERSION < v <= u32::MAX ==> migration_for(Some(v)) is Err,
{
}

} // verus!
