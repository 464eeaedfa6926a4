//! Configuration: command-line options merged over the configuration file,
//! and the SSH connection target derived from it.
use vstd::prelude::*;

use crate::text::{chars_of, str_eq};

verus! {

/// Default SSH user and port when not overridden by the ssh config.
pub const DEFAULT_SSH_USER: &'static str = "root";

pub const DEFAULT_SSH_PORT: u16 = 22;

/// Key file used when nothing else names one.
pub const DEFAULT_KEY_PATH: &'static str = "rm-key";

/// Default palm rejection grace period in milliseconds.
pub const DEFAULT_PALM_GRACE_MS: u64 = 500;

/// Command-line options.
pub struct Cli {
    pub command: Option<Command>,
    /// reMarkable host (IP or hostname)
    pub host: Option<String>,
    /// SSH key path for authentication
    pub key_path: Option<String>,
    /// SSH password (if set, key_path is ignored)
    pub password: Option<String>,
    /// Pen input device path on reMarkable
    pub pen_device: Option<String>,
    /// Touch input device path on reMarkable
    pub touch_device: Option<String>,
    /// Run touch input only (no pen)
    pub touch_only: bool,
    /// Run pen input only (no touch)
    pub pen_only: bool,
    /// Grab input exclusively [default: true]
    pub grab_input: bool,
    /// Don't grab input (tablet UI will also see input)
    pub no_grab_input: bool,
    /// Apply the user's ssh config to the host
    pub ssh_config: bool,
    /// Don't apply the user's ssh config
    pub no_ssh_config: bool,
    /// Disable palm rejection
    pub no_palm_rejection: bool,
    /// Palm rejection grace period in milliseconds
    pub palm_grace_ms: Option<u64>,
    /// Screen orientation (portrait, landscape-right, landscape-left, inverted)
    pub orientation: Option<Orientation>,
    /// Path to config file
    pub config: Option<String>,
}

/// Subcommands.
pub enum Command {
    /// Dump raw input events for debugging
    Dump {
        /// Device to dump: "touch" or "pen"
        device: String,
    },
}

/// Screen orientation of the tablet, which decides how pen coordinates are
/// turned before they reach the desktop.
#[derive(Debug, Clone, Copy, PartialEq, Eq, Structural)]
pub enum Orientation {
    Portrait,
    LandscapeRight,
    LandscapeLeft,
    Inverted,
}

impl Default for Orientation {
    fn default() -> (r: Self)
        ensures
            r == Orientation::Portrait,
    {
        Orientation::Portrait
    }
}

/// Settings read from the configuration file; absent settings take the
/// default: empty host, unset options, input grabbed exclusively, portrait
/// orientation, and the other flags `false`.
pub struct FileConfig {
    pub host: String,
    pub key_path: Option<String>,
    pub password: Option<String>,
    pub pen_device: Option<String>,
    pub touch_device: Option<String>,
    pub touch_only: bool,
    pub pen_only: bool,
    pub grab_input: bool,
    pub ssh_config: bool,
    pub no_palm_rejection: bool,
    pub palm_grace_ms: Option<u64>,
    pub orientation: Orientation,
}

impl Default for FileConfig {
    fn default() -> (r: Self)
        ensures
            r.host@ == Seq::<char>::empty(),
            r.key_path is None,
            r.password is None,
            r.pen_device is None,
            r.touch_device is None,
            !r.touch_only,
            !r.pen_only,
            r.grab_input,
            !r.ssh_config,
            !r.no_palm_rejection,
            r.palm_grace_ms is None,
            r.orientation == Orientation::Portrait,
    {
        FileConfig {
            host: String::new(),
            key_path: None,
            password: None,
            pen_device: None,
            touch_device: None,
            touch_only: false,
            pen_only: false,
            grab_input: true,
            ssh_config: false,
            no_palm_rejection: false,
            palm_grace_ms: None,
            orientation: Orientation::Portrait,
        }
    }
}

/// The input device paths of the tablet model.
pub struct DeviceProfile {
    pub pen_device: String,
    pub touch_device: String,
}

/// Authentication method for SSH connection.
#[derive(Clone)]
pub enum Auth {
    /// A private key file, by path.
    Key(String),
    Password(String),
}

/// Fully resolved SSH connection target, after applying the ssh config.
#[derive(Clone)]
pub struct SshTarget {
    pub host: String,
    pub port: u16,
    pub user: String,
    pub auth: Auth,
}

/// The settings of the ssh config entry that matches the host.
pub struct SshHostParams {
    pub host_name: Option<String>,
    pub port: Option<u16>,
    pub user: Option<String>,
    pub identity_file: Option<Vec<String>>,
}

/// Merged configuration from CLI args and the configuration file.
#[derive(Debug, Clone)]
pub struct Config {
    pub host: String,
    pub key_path: Option<String>,
    pub password: Option<String>,
    pub pen_device: String,
    pub touch_device: String,
    pub touch_only: bool,
    pub pen_only: bool,
    pub grab_input: bool,
    pub ssh_config: bool,
    pub no_palm_rejection: bool,
    pub palm_grace_ms: u64,
    pub orientation: Orientation,
}

/// `a` if present, else `b`.
pub open spec fn or_else<T>(a: Option<T>, b: T) -> T {
    match a {
        Some(v) => v,
        None => b,
    }
}

/// `a` if present, else `b`, for optional values.
pub open spec fn or_option<T>(a: Option<T>, b: Option<T>) -> Option<T> {
    match a {
        Some(v) => Some(v),
        None => b,
    }
}

/// `Path::join` on Unix: an absolute `rest` replaces `base`; otherwise `rest`
/// is appended, with a `/` in between unless `base` is empty or already
/// ends with one.
pub open spec fn path_join(base: Seq<char>, rest: Seq<char>) -> Seq<char> {
    if rest.len() > 0 && rest[0] == '/' {
        rest
    } else if base.len() == 0 || base.last() == '/' {
        base + rest
    } else {
        base + seq!['/'] + rest
    }
}

/// A leading `~` or `~/` replaced by the home directory, when it is known.
pub open spec fn tilde_expanded(path: Seq<char>, home: Option<Seq<char>>) -> Seq<char> {
    if path == seq!['~'] {
        match home {
            Some(h) => h,
            None => path,
        }
    } else if path.len() >= 2 && path[0] == '~' && path[1] == '/' {
        match home {
            Some(h) => path_join(h, path.skip(2)),
            None => path,
        }
    } else {
        path
    }
}

/// The home directory as characters.
pub open spec fn home_view(home: Option<String>) -> Option<Seq<char>> {
    match home {
        Some(h) => Some(h@),
        None => None,
    }
}

/// An authentication method as plain values: `(is_password, text)`.
pub open spec fn auth_view(a: Auth) -> (bool, Seq<char>) {
    match a {
        Auth::Key(p) => (false, p@),
        Auth::Password(p) => (true, p@),
    }
}

/// The first file of an optional list.
pub open spec fn first_file(files: Option<Vec<String>>) -> Option<Seq<char>> {
    match files {
        Some(v) => if v@.len() > 0 {
            Some(v@[0]@)
        } else {
            None
        },
        None => None,
    }
}

/// `base` joined with `rest` as `Path::join` does on Unix.
fn join_path(base: String, rest: String) -> (r: String)
    ensures
        r@ == path_join(base@, rest@),
{
    let rc = chars_of(rest.as_str());
    if rc.len() > 0 && rc[0] == '/' {
        return rest;
    }
    let bc = chars_of(base.as_str());
    if bc.len() == 0 || bc[bc.len() - 1] == '/' {
        let mut r = base;
        r.append(rest.as_str());
        r
    } else {
        let mut r = base;
        proof {
            reveal_strlit("/");
        }
        r.append("/");
        r.append(rest.as_str());
        r
    }
}

/// Expand a leading `~` or `~/` to the home directory `home`, when known.
pub fn expand_tilde(path: &str, home: Option<String>) -> (r: String)
    ensures
        r@ == tilde_expanded(path@, home_view(home)),
{
    let pc = chars_of(path);
    proof {
        reveal_strlit("~");
        assert("~"@ =~= seq!['~']);
    }
    if str_eq(path, "~") {
        if let Some(h) = home {
            return h;
        }
    } else if pc.len() >= 2 && pc[0] == '~' && pc[1] == '/' {
        if let Some(h) = home {
            let rest = String::from_str(path.substring_char(2, pc.len()));
            return join_path(h, rest);
        }
    }
    String::from_str(path)
}

impl Config {
    /// Merge the configuration file (or its defaults when there is none)
    /// with CLI overrides; the tablet model supplies the default device paths.
    pub fn load(cli: &Cli, file_config: Option<FileConfig>, device: &DeviceProfile) -> (r: Self)
        ensures
            r.host@ == match cli.host {
                Some(h) => h@,
                None => match file_config {
                    Some(f) => f.host@,
                    None => Seq::<char>::empty(),
                },
            },
            r.key_path == or_option(
                cli.key_path,
                match file_config {
                    Some(f) => f.key_path,
                    None => None,
                },
            ),
            r.password == or_option(
                cli.password,
                match file_config {
                    Some(f) => f.password,
                    None => None,
                },
            ),
            r.pen_device == or_else(
                cli.pen_device,
                or_else(
                    match file_config {
                        Some(f) => f.pen_device,
                        None => None,
                    },
                    device.pen_device,
                ),
            ),
            r.touch_device == or_else(
                cli.touch_device,
                or_else(
                    match file_config {
                        Some(f) => f.touch_device,
                        None => None,
                    },
                    device.touch_device,
                ),
            ),
            r.touch_only == (cli.touch_only || (file_config matches Some(f) && f.touch_only)),
            r.pen_only == (cli.pen_only || (file_config matches Some(f) && f.pen_only)),
            r.grab_input == (!cli.no_grab_input && (cli.grab_input || match file_config {
                Some(f) => f.grab_input,
                None => true,
            })),
            r.orientation == or_else(
                cli.orientation,
                match file_config {
                    Some(f) => f.orientation,
                    None => Orientation::Portrait,
                },
            ),
            r.ssh_config == (!cli.no_ssh_config && (cli.ssh_config || (file_config matches Some(f)
                && f.ssh_config))),
            r.no_palm_rejection == (cli.no_palm_rejection || (file_config matches Some(f)
                && f.no_palm_rejection)),
            r.palm_grace_ms == or_else(
                cli.palm_grace_ms,
                or_else(
                    match file_config {
                        Some(f) => f.palm_grace_ms,
                        None => None,
                    },
                    DEFAULT_PALM_GRACE_MS,
                ),
            ),
    {
        let file_config = match file_config {
            Some(f) => f,
            None => FileConfig::default(),
        };
        let host = match &cli.host {
            Some(h) => h.clone(),
            None => file_config.host,
        };
        let key_path = match &cli.key_path {
            Some(k) => Some(k.clone()),
            None => file_config.key_path,
        };
        let password = match &cli.password {
            Some(p) => Some(p.clone()),
            None => file_config.password,
        };
        let pen_device = match &cli.pen_device {
            Some(p) => p.clone(),
            None => match file_config.pen_device {
                Some(p) => p,
                None => device.pen_device.clone(),
            },
        };
        let touch_device = match &cli.touch_device {
            Some(t) => t.clone(),
            None => match file_config.touch_device {
                Some(t) => t,
                None => device.touch_device.clone(),
            },
        };
        let palm_grace_ms = match cli.palm_grace_ms {
            Some(ms) => ms,
            None => match file_config.palm_grace_ms {
                Some(ms) => ms,
                None => DEFAULT_PALM_GRACE_MS,
            },
        };
        Self {
            host,
            key_path,
            password,
            pen_device,
            touch_device,
            touch_only: cli.touch_only || file_config.touch_only,
            pen_only: cli.pen_only || file_config.pen_only,
            grab_input: if cli.no_grab_input {
                false
            } else {
                cli.grab_input || file_config.grab_input
            },
            ssh_config: if cli.no_ssh_config {
                false
            } else {
                cli.ssh_config || file_config.ssh_config
            },
            no_palm_rejection: cli.no_palm_rejection || file_config.no_palm_rejection,
            palm_grace_ms,
            orientation: match cli.orientation {
                Some(o) => o,
                None => file_config.orientation,
            },
        }
    }

    /// Resolve the SSH connection target. `params` is the ssh config entry
    /// for the user-supplied host, used only when `ssh_config` is enabled;
    /// `home` is the home directory, for expanding `~` in key paths.
    ///
    /// `HostName`, `Port`, `User`, and `IdentityFile` from the entry override
    /// the hardcoded defaults, but explicit CLI/file values (password, key
    /// path) always win.
    pub fn ssh_target(&self, params: Option<SshHostParams>, home: Option<String>) -> (r: SshTarget)
        ensures
            ({
                let p = if self.ssh_config {
                    params
                } else {
                    None
                };
                &&& r.host == match p {
                    Some(q) => or_else(q.host_name, self.host),
                    None => self.host,
                }
                &&& r.port == match p {
                    Some(q) => or_else(q.port, DEFAULT_SSH_PORT),
                    None => DEFAULT_SSH_PORT,
                }
                &&& r.user@ == match p {
                    Some(q) => match q.user {
                        Some(u) => u@,
                        None => DEFAULT_SSH_USER@,
                    },
                    None => DEFAULT_SSH_USER@,
                }
                &&& auth_view(r.auth) == self.auth_for(
                    match p {
                        Some(q) => first_file(q.identity_file),
                        None => None,
                    },
                    home_view(home),
                )
            }),
    {
        let params = if self.ssh_config {
            params
        } else {
            None
        };
        let (host, port, user, identity) = match params {
            Some(p) => {
                let host = match p.host_name {
                    Some(h) => h,
                    None => self.host.clone(),
                };
                let port = match p.port {
                    Some(n) => n,
                    None => DEFAULT_SSH_PORT,
                };
                let user = match p.user {
                    Some(u) => u,
                    None => String::from_str(DEFAULT_SSH_USER),
                };
                let identity = match p.identity_file {
                    Some(files) => if files.len() > 0 {
                        Some(files[0].clone())
                    } else {
                        None
                    },
                    None => None,
                };
                (host, port, user, identity)
            },
            None => (self.host.clone(), DEFAULT_SSH_PORT, String::from_str(DEFAULT_SSH_USER), None),
        };
        SshTarget { host, port, user, auth: self.resolve_auth(identity, home) }
    }

    /// The authentication that [`Config::resolve_auth`] chooses: the
    /// password, else the configured key path, else the ssh config identity,
    /// else the default key file.
    pub open spec fn auth_for(self, identity: Option<Seq<char>>, home: Option<Seq<char>>) -> (
        bool,
        Seq<char>,
    ) {
        match self.password {
            Some(p) => (true, p@),
            None => match self.key_path {
                Some(k) => (false, tilde_expanded(k@, home)),
                None => match identity {
                    Some(i) => (false, i),
                    None => (false, tilde_expanded(DEFAULT_KEY_PATH@, home)),
                },
            },
        }
    }

    /// Choose the authentication method: the password, else the configured
    /// key path, else the ssh config identity, else the default key file.
    pub fn resolve_auth(&self, ssh_identity: Option<String>, home: Option<String>) -> (r: Auth)
        ensures
            auth_view(r) == self.auth_for(
                match ssh_identity {
                    Some(i) => Some(i@),
                    None => None,
                },
                home_view(home),
            ),
    {
        if let Some(password) = &self.password {
            return Auth::Password(password.clone());
        }
        if let Some(path) = &self.key_path {
            return Auth::Key(expand_tilde(path.as_str(), home));
        }
        if let Some(identity) = ssh_identity {
            return Auth::Key(identity);
        }
        Auth::Key(expand_tilde(DEFAULT_KEY_PATH, home))
    }

    pub fn run_pen(&self) -> (r: bool)
        ensures
            r == !self.touch_only,
    {
        !self.touch_only
    }

    pub fn run_touch(&self) -> (r: bool)
        ensures
            r == !self.pen_only,
    {
        !self.pen_only
    }

    /// Rejects contradictory options: `touch_only` together with `pen_only`.
    pub fn validate(&self) -> (r: Result<(), &'static str>)
        ensures
            r is Ok <==> !(self.touch_only && self.pen_only),
            r matches Err(m) ==> m@ == "Cannot use both --touch-only and --pen-only"@,
    {
        if self.touch_only && self.pen_only {
            return Err("Cannot use both --touch-only and --pen-only");
        }
        if !self.run_pen() && !self.run_touch() {
            return Err("No input device enabled");
        }
        Ok(())
    }
}

/// Whenever options validate, at least one input device runs.
pub proof fn lemma_valid_config_runs_something(c: Config)
    requires
        !(c.touch_only && c.pen_only),
    ensures
        !c.touch_only || !c.pen_only,
{
}


/// Explicit credentials always win: a configured password decides the
/// authentication, and otherwise a configured key path beats whatever the ssh
/// config names.
pub proof fn lemma_explicit_credentials_win(
    c: Config,
    identity: Option<Seq<char>>,
    home: Option<Seq<char>>,
)
    ensures
        c.password matches Some(p) ==> c.auth_for(identity, home) == (true, p@),
        c.password is None && c.key_path is Some ==> c.auth_for(identity, home) == (
            false,
            tilde_expanded(c.key_path->0@, home),
        ),
{
}

/// Paths that do not start with `~` are used as they are.
pub proof fn lemma_plain_path_unchanged(path: Seq<char>, home: Option<Seq<char>>)
    requires
        path.len() == 0 || path[0] != '~',
    ensures
        tilde_expanded(path, home) == path,
{
}

} // verus!
