//! The configuration of the daemon: its defaults, what the environment changes of it, and whether
//! it can be used.
use crate::guard::ApiPolicy;
use crate::path;
use crate::path::join_path;
use crate::text;
use crate::text::{chars_of, parse_uint, split_text, string_of};
use vstd::prelude::*;
use vstd::string::*;

verus! {

/// The configuration of the daemon.
#[derive(Debug)]
pub struct Config {
    pub firecracker_bin: String,
    pub data_dir: String,
    pub default_kernel: String,
    pub api_token: Option<String>,
    pub api_max_request_bytes: usize,
    pub api_max_file_read_bytes: usize,
    pub api_max_file_write_bytes: usize,
    pub api_sensitive_rate_limit_per_minute: u32,
    pub allowed_read_paths: Vec<String>,
    pub allowed_write_paths: Vec<String>,
    pub exec_timeout_secs: u64,
    pub exec_allowlist: Vec<String>,
    pub exec_denylist: Vec<String>,
    pub exec_env_allowlist: Vec<String>,
    pub host_interface: String,
    pub bridge_name: String,
    pub bridge_subnet: String,
    pub dns_servers: Vec<String>,
}

/// The configuration, over sequences.
#[verifier::ext_equal]
pub struct ConfigView {
    pub firecracker_bin: Seq<char>,
    pub data_dir: Seq<char>,
    pub default_kernel: Seq<char>,
    pub api_token: Option<Seq<char>>,
    pub api_max_request_bytes: usize,
    pub api_max_file_read_bytes: usize,
    pub api_max_file_write_bytes: usize,
    pub api_sensitive_rate_limit_per_minute: u32,
    pub allowed_read_paths: Seq<Seq<char>>,
    pub allowed_write_paths: Seq<Seq<char>>,
    pub exec_timeout_secs: u64,
    pub exec_allowlist: Seq<Seq<char>>,
    pub exec_denylist: Seq<Seq<char>>,
    pub exec_env_allowlist: Seq<Seq<char>>,
    pub host_interface: Seq<char>,
    pub bridge_name: Seq<char>,
    pub bridge_subnet: Seq<char>,
    pub dns_servers: Seq<Seq<char>>,
}

impl View for Config {
    type V = ConfigView;

    open spec fn view(&self) -> ConfigView {
        ConfigView {
            firecracker_bin: self.firecracker_bin@,
            data_dir: self.data_dir@,
            default_kernel: self.default_kernel@,
            api_token: text::opt_text(self.api_token),
            api_max_request_bytes: self.api_max_request_bytes,
            api_max_file_read_bytes: self.api_max_file_read_bytes,
            api_max_file_write_bytes: self.api_max_file_write_bytes,
            api_sensitive_rate_limit_per_minute: self.api_sensitive_rate_limit_per_minute,
            allowed_read_paths: text::texts(self.allowed_read_paths@),
            allowed_write_paths: text::texts(self.allowed_write_paths@),
            exec_timeout_secs: self.exec_timeout_secs,
            exec_allowlist: text::texts(self.exec_allowlist@),
            exec_denylist: text::texts(self.exec_denylist@),
            exec_env_allowlist: text::texts(self.exec_env_allowlist@),
            host_interface: self.host_interface@,
            bridge_name: self.bridge_name@,
            bridge_subnet: self.bridge_subnet@,
            dns_servers: text::texts(self.dns_servers@),
        }
    }
}

/// Where data is kept by default: on macOS below the home directory, if there is one.
pub open spec fn default_data_dir_of(macos: bool, home: Option<Seq<char>>) -> Seq<char> {
    match home {
        Some(h) => if macos {
            path::joined(h, ".local/share/husk"@)
        } else {
            "/var/lib/husk"@
        },
        None => "/var/lib/husk"@,
    }
}

/// The kernel that is booted by default.
pub open spec fn default_kernel_of(macos: bool, home: Option<Seq<char>>) -> Seq<char> {
    let kernel = if macos {
        "kernels/Image-virt"@
    } else {
        "kernels/vmlinux"@
    };
    path::joined(default_data_dir_of(macos, home), kernel)
}

/// The characters of an optional text.
pub open spec fn opt_str(s: Option<&str>) -> Option<Seq<char>> {
    match s {
        Some(s) => Some(s@),
        None => None,
    }
}

/// Where data is kept by default.
pub fn default_data_dir(macos: bool, home: Option<&str>) -> (s: String)
    ensures
        s@ == default_data_dir_of(macos, opt_str(home)),
{
    match home {
        Some(h) if macos => join_path(h, ".local/share/husk"),
        _ => "/var/lib/husk".to_owned(),
    }
}

/// The kernel that is booted by default.
pub fn default_kernel_path(macos: bool, home: Option<&str>) -> (s: String)
    ensures
        s@ == default_kernel_of(macos, opt_str(home)),
{
    let dir = default_data_dir(macos, home);
    if macos {
        join_path(dir.as_str(), "kernels/Image-virt")
    } else {
        join_path(dir.as_str(), "kernels/vmlinux")
    }
}

/// The configuration where none is given.
pub open spec fn default_config(macos: bool, home: Option<Seq<char>>) -> ConfigView {
    ConfigView {
        firecracker_bin: "firecracker"@,
        data_dir: default_data_dir_of(macos, home),
        default_kernel: default_kernel_of(macos, home),
        api_token: None,
        api_max_request_bytes: 2_097_152,
        api_max_file_read_bytes: 1_048_576,
        api_max_file_write_bytes: 1_048_576,
        api_sensitive_rate_limit_per_minute: 120,
        allowed_read_paths: seq![],
        allowed_write_paths: seq![],
        exec_timeout_secs: 30,
        exec_allowlist: seq![],
        exec_denylist: seq![],
        exec_env_allowlist: seq![],
        host_interface: "eth0"@,
        bridge_name: "husk0"@,
        bridge_subnet: "172.20.0.0/24"@,
        dns_servers: seq!["8.8.8.8"@, "1.1.1.1"@],
    }
}

impl Config {
    /// The configuration where none is given.
    pub fn defaults(macos: bool, home: Option<&str>) -> (c: Config)
        ensures
            c@ == default_config(macos, opt_str(home)),
    {
        let mut dns_servers: Vec<String> = Vec::new();
        dns_servers.push("8.8.8.8".to_owned());
        dns_servers.push("1.1.1.1".to_owned());
        let c = Config {
            firecracker_bin: "firecracker".to_owned(),
            data_dir: default_data_dir(macos, home),
            default_kernel: default_kernel_path(macos, home),
            api_token: None,
            api_max_request_bytes: 2_097_152,
            api_max_file_read_bytes: 1_048_576,
            api_max_file_write_bytes: 1_048_576,
            api_sensitive_rate_limit_per_minute: 120,
            allowed_read_paths: Vec::new(),
            allowed_write_paths: Vec::new(),
            exec_timeout_secs: 30,
            exec_allowlist: Vec::new(),
            exec_denylist: Vec::new(),
            exec_env_allowlist: Vec::new(),
            host_interface: "eth0".to_owned(),
            bridge_name: "husk0".to_owned(),
            bridge_subnet: "172.20.0.0/24".to_owned(),
            dns_servers,
        };
        proof {
            assert(c@ =~= default_config(macos, opt_str(home)));
        }
        c
    }

    /// The limits under which the API serves requests.
    pub fn api_policy(&self) -> (p: ApiPolicy)
        ensures
            p.max_request_bytes == self.api_max_request_bytes,
            p.max_file_read_bytes == self.api_max_file_read_bytes,
            p.max_file_write_bytes == self.api_max_file_write_bytes,
            p.sensitive_rate_limit_per_minute == self.api_sensitive_rate_limit_per_minute,
            p.exec_timeout_secs == self.exec_timeout_secs,
            text::texts(p.allowed_read_paths@) == self@.allowed_read_paths,
            text::texts(p.allowed_write_paths@) == self@.allowed_write_paths,
            text::texts(p.exec_allowlist@) == self@.exec_allowlist,
            text::texts(p.exec_denylist@) == self@.exec_denylist,
            text::texts(p.exec_env_allowlist@) == self@.exec_env_allowlist,
    {
        ApiPolicy {
            max_request_bytes: self.api_max_request_bytes,
            max_file_read_bytes: self.api_max_file_read_bytes,
            max_file_write_bytes: self.api_max_file_write_bytes,
            sensitive_rate_limit_per_minute: self.api_sensitive_rate_limit_per_minute,
            allowed_read_paths: copy_texts(&self.allowed_read_paths),
            allowed_write_paths: copy_texts(&self.allowed_write_paths),
            exec_timeout_secs: self.exec_timeout_secs,
            exec_allowlist: copy_texts(&self.exec_allowlist),
            exec_denylist: copy_texts(&self.exec_denylist),
            exec_env_allowlist: copy_texts(&self.exec_env_allowlist),
        }
    }
}

fn copy_texts(v: &Vec<String>) -> (w: Vec<String>)
    ensures
        text::texts(w@) == text::texts(v@),
{
    let mut w: Vec<String> = Vec::new();
    let mut i: usize = 0;
    while i < v.len()
        invariant
            i <= v@.len(),
            w@.len() == i,
            forall|k: int| 0 <= k < i ==> (#[trigger] w@[k])@ == v@[k]@,
        decreases v.len() - i,
    {
        w.push(v[i].clone());
        i += 1;
    }
    proof {
        assert(text::texts(w@) =~= text::texts(v@));
    }
    w
}

/// The file that the user's configuration is in.
pub fn user_config_path(home: &str) -> (s: String)
    ensures
        s@ == path::joined(home@, ".config/husk/config.toml"@),
{
    join_path(home, ".config/husk/config.toml")
}

/// The file that the configuration is read from: the one that is named, else that of the user if
/// it exists, else that of the system.
pub fn resolve_config_path(explicit: Option<&str>, user_config: Option<&str>) -> (s: String)
    ensures
        s@ == (match explicit {
            Some(p) => p@,
            None => match user_config {
                Some(p) => p@,
                None => "/etc/husk/config.toml"@,
            },
        }),
{
    match explicit {
        Some(p) => p.to_owned(),
        None => match user_config {
            Some(p) => p.to_owned(),
            None => "/etc/husk/config.toml".to_owned(),
        },
    }
}

/// Whether a character is white space.
pub open spec fn is_space(c: char) -> bool {
    ||| '\u{9}' <= c <= '\u{d}'
    ||| c == ' '
    ||| c == '\u{85}'
    ||| c == '\u{a0}'
    ||| c == '\u{1680}'
    ||| '\u{2000}' <= c <= '\u{200a}'
    ||| c == '\u{2028}'
    ||| c == '\u{2029}'
    ||| c == '\u{202f}'
    ||| c == '\u{205f}'
    ||| c == '\u{3000}'
}

fn space(c: char) -> (r: bool)
    ensures
        r == is_space(c),
{
    ('\u{9}' <= c && c <= '\u{d}') || c == ' ' || c == '\u{85}' || c == '\u{a0}' || c == '\u{1680}'
        || ('\u{2000}' <= c && c <= '\u{200a}') || c == '\u{2028}' || c == '\u{2029}' || c
        == '\u{202f}' || c == '\u{205f}' || c == '\u{3000}'
}

/// A text without the white space that it begins and ends with.
pub open spec fn trimmed(s: Seq<char>) -> Seq<char>
    decreases s.len(),
{
    if s.len() > 0 && is_space(s[0]) {
        trimmed(s.skip(1))
    } else if s.len() > 0 && is_space(s.last()) {
        trimmed(s.drop_last())
    } else {
        s
    }
}

fn trim(s: &str) -> (r: String)
    ensures
        r@ == trimmed(s@),
{
    let v = chars_of(s);
    let mut start: usize = 0;
    let mut end: usize = v.len();
    proof {
        assert(v@.subrange(0, end as int) =~= v@);
    }
    while start < end && space(v[start])
        invariant
            start <= end <= v@.len(),
            v@ == s@,
            trimmed(s@) == trimmed(v@.subrange(start as int, end as int)),
        decreases end - start,
    {
        proof {
            let w = v@.subrange(start as int, end as int);
            assert(w[0] == v@[start as int]);
            assert(w.skip(1) =~= v@.subrange(start + 1, end as int));
        }
        start += 1;
    }
    while start < end && space(v[end - 1])
        invariant
            start <= end <= v@.len(),
            start < end ==> !is_space(v@[start as int]),
            trimmed(s@) == trimmed(v@.subrange(start as int, end as int)),
        decreases end - start,
    {
        proof {
            let w = v@.subrange(start as int, end as int);
            assert(w[0] == v@[start as int]);
            assert(w.last() == v@[end - 1]);
            assert(w.drop_last() =~= v@.subrange(start as int, end - 1));
        }
        end -= 1;
    }
    let kept = vstd::slice::slice_subrange(v.as_slice(), start, end);
    proof {
        let w = v@.subrange(start as int, end as int);
        if w.len() > 0 {
            assert(w[0] == v@[start as int]);
            assert(w.last() == v@[end - 1]);
        }
        assert(kept@ == w);
    }
    string_of(kept)
}

/// Each of the texts without the white space around it.
pub open spec fn all_trimmed(parts: Seq<Seq<char>>) -> Seq<Seq<char>> {
    parts.map_values(|s: Seq<char>| trimmed(s))
}

/// Those of the texts that are not empty.
pub open spec fn nonempty(parts: Seq<Seq<char>>) -> Seq<Seq<char>>
    decreases parts.len(),
{
    if parts.len() == 0 {
        seq![]
    } else if parts.last().len() > 0 {
        nonempty(parts.drop_last()).push(parts.last())
    } else {
        nonempty(parts.drop_last())
    }
}

/// The items of a list with commas between them.
pub open spec fn list_in(s: Seq<char>) -> Seq<Seq<char>> {
    nonempty(all_trimmed(text::split(s, ',')))
}

fn trim_parts(s: &str) -> (parts: Vec<String>)
    ensures
        text::texts(parts@) == all_trimmed(text::split(s@, ',')),
{
    let raw = split_text(s, ',');
    let ghost whole = text::split(s@, ',');
    let mut parts: Vec<String> = Vec::new();
    let mut i: usize = 0;
    while i < raw.len()
        invariant
            i <= raw@.len(),
            text::texts(raw@) == whole,
            parts@.len() == i,
            forall|k: int| 0 <= k < i ==> (#[trigger] parts@[k])@ == trimmed(whole[k]),
        decreases raw.len() - i,
    {
        proof {
            assert(whole[i as int] == raw@[i as int]@);
        }
        parts.push(trim(raw[i].as_str()));
        i += 1;
    }
    proof {
        assert(text::texts(parts@) =~= all_trimmed(whole));
    }
    parts
}

fn parse_list(s: &str) -> (items: Vec<String>)
    ensures
        text::texts(items@) == list_in(s@),
{
    let parts = trim_parts(s);
    let ghost whole = text::texts(parts@);
    let mut items: Vec<String> = Vec::new();
    let mut i: usize = 0;
    proof {
        assert(text::texts(items@) =~= nonempty(whole.take(0)));
    }
    while i < parts.len()
        invariant
            i <= parts@.len(),
            whole == text::texts(parts@),
            text::texts(items@) == nonempty(whole.take(i as int)),
        decreases parts.len() - i,
    {
        proof {
            assert(whole.take(i + 1).drop_last() =~= whole.take(i as int));
            assert(whole.take(i + 1).last() == parts@[i as int]@);
        }
        let ghost before = text::texts(items@);
        if chars_of(parts[i].as_str()).len() > 0 {
            items.push(parts[i].clone());
            proof {
                assert(text::texts(items@) =~= before.push(parts@[i as int]@));
            }
        }
        i += 1;
    }
    proof {
        assert(whole.take(i as int) =~= whole);
    }
    items
}

/// What the environment says of the configuration: the variables whose names begin with `HUSK_`.
#[derive(Debug)]
pub struct EnvOverrides {
    pub data_dir: Option<String>,
    pub default_kernel: Option<String>,
    pub api_token: Option<String>,
    pub api_max_request_bytes: Option<String>,
    pub api_max_file_read_bytes: Option<String>,
    pub api_max_file_write_bytes: Option<String>,
    pub api_sensitive_rate_limit_per_minute: Option<String>,
    pub allowed_read_paths: Option<String>,
    pub allowed_write_paths: Option<String>,
    pub exec_timeout_secs: Option<String>,
    pub exec_allowlist: Option<String>,
    pub exec_denylist: Option<String>,
    pub exec_env_allowlist: Option<String>,
    pub firecracker_bin: Option<String>,
    pub host_interface: Option<String>,
    pub bridge_name: Option<String>,
    pub bridge_subnet: Option<String>,
    pub dns_servers: Option<String>,
}

/// The text that holds: that of the environment where it has one.
pub open spec fn text_or(value: Option<String>, current: Seq<char>) -> Seq<char> {
    match value {
        Some(s) => s@,
        None => current,
    }
}

/// The number that holds: that of the environment where it has one of at most `max`.
pub open spec fn number_or(value: Option<String>, max: nat, current: nat) -> nat {
    match value {
        Some(s) => match text::uint_value(s@, 10, max) {
            Ok(n) => n,
            Err(_) => current,
        },
        None => current,
    }
}

/// The list that holds: that of the environment where it has one.
pub open spec fn list_or(value: Option<String>, current: Seq<Seq<char>>) -> Seq<Seq<char>> {
    match value {
        Some(s) => list_in(s@),
        None => current,
    }
}

/// The configuration with what the environment changes of it. A number that cannot be read
/// changes nothing. The list of name servers keeps its empty items.
pub open spec fn overridden(c: ConfigView, env: EnvOverrides) -> ConfigView {
    ConfigView {
        data_dir: text_or(env.data_dir, c.data_dir),
        default_kernel: text_or(env.default_kernel, c.default_kernel),
        api_token: match env.api_token {
            Some(s) => Some(s@),
            None => c.api_token,
        },
        api_max_request_bytes: number_or(
            env.api_max_request_bytes,
            usize::MAX as nat,
            c.api_max_request_bytes as nat,
        ) as usize,
        api_max_file_read_bytes: number_or(
            env.api_max_file_read_bytes,
            usize::MAX as nat,
            c.api_max_file_read_bytes as nat,
        ) as usize,
        api_max_file_write_bytes: number_or(
            env.api_max_file_write_bytes,
            usize::MAX as nat,
            c.api_max_file_write_bytes as nat,
        ) as usize,
        api_sensitive_rate_limit_per_minute: number_or(
            env.api_sensitive_rate_limit_per_minute,
            u32::MAX as nat,
            c.api_sensitive_rate_limit_per_minute as nat,
        ) as u32,
        allowed_read_paths: list_or(env.allowed_read_paths, c.allowed_read_paths),
        allowed_write_paths: list_or(env.allowed_write_paths, c.allowed_write_paths),
        exec_timeout_secs: number_or(
            env.exec_timeout_secs,
            u64::MAX as nat,
            c.exec_timeout_secs as nat,
        ) as u64,
        exec_allowlist: list_or(env.exec_allowlist, c.exec_allowlist),
        exec_denylist: list_or(env.exec_denylist, c.exec_denylist),
        exec_env_allowlist: list_or(env.exec_env_allowlist, c.exec_env_allowlist),
        firecracker_bin: text_or(env.firecracker_bin, c.firecracker_bin),
        host_interface: text_or(env.host_interface, c.host_interface),
        bridge_name: text_or(env.bridge_name, c.bridge_name),
        bridge_subnet: text_or(env.bridge_subnet, c.bridge_subnet),
        dns_servers: match env.dns_servers {
            Some(s) => all_trimmed(text::split(s@, ',')),
            None => c.dns_servers,
        },
    }
}

fn override_text(field: &mut String, value: Option<String>)
    ensures
        final(field)@ == text_or(value, old(field)@),
{
    if let Some(s) = value {
        *field = s;
    }
}

fn override_list(field: &mut Vec<String>, value: Option<String>)
    ensures
        text::texts(final(field)@) == list_or(value, text::texts(old(field)@)),
{
    if let Some(s) = value {
        *field = parse_list(s.as_str());
    }
}

fn override_number(current: u64, max: u64, value: Option<String>) -> (n: u64)
    requires
        current <= max,
    ensures
        n == number_or(value, max as nat, current as nat),
        n <= max,
{
    match value {
        Some(s) => match parse_uint(s.as_str(), 10, max) {
            Ok(n) => {
                proof {
                    text::lemma_uint_max(s@, 10, max as nat);
                }
                n
            },
            Err(_) => current,
        },
        None => current,
    }
}

/// Changes the configuration as the environment says.
pub fn apply_env_overrides(config: &mut Config, env: EnvOverrides)
    ensures
        final(config)@ == overridden(old(config)@, env),
{
    override_text(&mut config.data_dir, env.data_dir);
    override_text(&mut config.default_kernel, env.default_kernel);
    if let Some(token) = env.api_token {
        config.api_token = Some(token);
    }
    let size_max: u64 = usize::MAX as u64;
    config.api_max_request_bytes = override_number(
        config.api_max_request_bytes as u64,
        size_max,
        env.api_max_request_bytes,
    ) as usize;
    config.api_max_file_read_bytes = override_number(
        config.api_max_file_read_bytes as u64,
        size_max,
        env.api_max_file_read_bytes,
    ) as usize;
    config.api_max_file_write_bytes = override_number(
        config.api_max_file_write_bytes as u64,
        size_max,
        env.api_max_file_write_bytes,
    ) as usize;
    config.api_sensitive_rate_limit_per_minute = override_number(
        config.api_sensitive_rate_limit_per_minute as u64,
        u32::MAX as u64,
        env.api_sensitive_rate_limit_per_minute,
    ) as u32;
    override_list(&mut config.allowed_read_paths, env.allowed_read_paths);
    override_list(&mut config.allowed_write_paths, env.allowed_write_paths);
    config.exec_timeout_secs = override_number(
        config.exec_timeout_secs,
        u64::MAX,
        env.exec_timeout_secs,
    );
    override_list(&mut config.exec_allowlist, env.exec_allowlist);
    override_list(&mut config.exec_denylist, env.exec_denylist);
    override_list(&mut config.exec_env_allowlist, env.exec_env_allowlist);
    override_text(&mut config.firecracker_bin, env.firecracker_bin);
    override_text(&mut config.host_interface, env.host_interface);
    override_text(&mut config.bridge_name, env.bridge_name);
    override_text(&mut config.bridge_subnet, env.bridge_subnet);
    if let Some(s) = env.dns_servers {
        config.dns_servers = trim_parts(s.as_str());
    }
}

/// Nothing of the configuration is changed by an environment that says nothing of it.
pub proof fn empty_environment_changes_nothing(c: ConfigView, env: EnvOverrides)
    requires
        env == (EnvOverrides {
            data_dir: None,
            default_kernel: None,
            api_token: None,
            api_max_request_bytes: None,
            api_max_file_read_bytes: None,
            api_max_file_write_bytes: None,
            api_sensitive_rate_limit_per_minute: None,
            allowed_read_paths: None,
            allowed_write_paths: None,
            exec_timeout_secs: None,
            exec_allowlist: None,
            exec_denylist: None,
            exec_env_allowlist: None,
            firecracker_bin: None,
            host_interface: None,
            bridge_name: None,
            bridge_subnet: None,
            dns_servers: None,
        }),
    ensures
        overridden(c, env) == c,
{
}

/// Changing the configuration twice as the environment says is changing it once.
pub proof fn overriding_twice_changes_nothing(c: ConfigView, env: EnvOverrides)
    ensures
        overridden(overridden(c, env), env) == overridden(c, env),
{
    if let Some(s) = env.api_max_request_bytes {
        text::lemma_uint_max(s@, 10, usize::MAX as nat);
    }
    if let Some(s) = env.api_max_file_read_bytes {
        text::lemma_uint_max(s@, 10, usize::MAX as nat);
    }
    if let Some(s) = env.api_max_file_write_bytes {
        text::lemma_uint_max(s@, 10, usize::MAX as nat);
    }
    if let Some(s) = env.api_sensitive_rate_limit_per_minute {
        text::lemma_uint_max(s@, 10, u32::MAX as nat);
    }
    if let Some(s) = env.exec_timeout_secs {
        text::lemma_uint_max(s@, 10, u64::MAX as nat);
    }
}

/// Each variable that is set decides its own setting: a text is taken as it is, a list by its items,
/// and a number `n` that is written in decimal is read as `n`.
pub proof fn environment_decides(c: ConfigView, env: EnvOverrides, n: nat)
    ensures
        env.data_dir matches Some(s) ==> overridden(c, env).data_dir == s@,
        env.default_kernel matches Some(s) ==> overridden(c, env).default_kernel == s@,
        env.firecracker_bin matches Some(s) ==> overridden(c, env).firecracker_bin == s@,
        env.host_interface matches Some(s) ==> overridden(c, env).host_interface == s@,
        env.bridge_name matches Some(s) ==> overridden(c, env).bridge_name == s@,
        env.bridge_subnet matches Some(s) ==> overridden(c, env).bridge_subnet == s@,
        env.api_token matches Some(s) ==> overridden(c, env).api_token == Some(s@),
        env.allowed_read_paths matches Some(s) ==> overridden(c, env).allowed_read_paths == list_in(
            s@,
        ),
        env.allowed_write_paths matches Some(s) ==> overridden(c, env).allowed_write_paths
            == list_in(s@),
        env.exec_allowlist matches Some(s) ==> overridden(c, env).exec_allowlist == list_in(s@),
        env.exec_denylist matches Some(s) ==> overridden(c, env).exec_denylist == list_in(s@),
        env.exec_env_allowlist matches Some(s) ==> overridden(c, env).exec_env_allowlist == list_in(
            s@,
        ),
        env.api_max_request_bytes matches Some(s) && s@ == text::decimal(n) && n <= usize::MAX
            ==> overridden(c, env).api_max_request_bytes == n,
        env.api_max_file_read_bytes matches Some(s) && s@ == text::decimal(n) && n <= usize::MAX
            ==> overridden(c, env).api_max_file_read_bytes == n,
        env.api_max_file_write_bytes matches Some(s) && s@ == text::decimal(n) && n <= usize::MAX
            ==> overridden(c, env).api_max_file_write_bytes == n,
        env.api_sensitive_rate_limit_per_minute matches Some(s) && s@ == text::decimal(n) && n
            <= u32::MAX ==> overridden(c, env).api_sensitive_rate_limit_per_minute == n,
        env.exec_timeout_secs matches Some(s) && s@ == text::decimal(n) && n <= u64::MAX
            ==> overridden(c, env).exec_timeout_secs == n,
{
    if n <= usize::MAX {
        text::decimal_is_read_back(n, usize::MAX as nat);
    }
    if n <= u32::MAX {
        text::decimal_is_read_back(n, u32::MAX as nat);
    }
    if n <= u64::MAX {
        text::decimal_is_read_back(n, u64::MAX as nat);
    }
}

/// Where what is left of a text after trimming begins and ends.
proof fn lemma_trimmed(s: Seq<char>) -> (ends: (int, int))
    ensures
        0 <= ends.0 <= ends.1 <= s.len(),
        trimmed(s) == s.subrange(ends.0, ends.1),
        forall|k: int| 0 <= k < ends.0 || ends.1 <= k < s.len() ==> is_space(#[trigger] s[k]),
        trimmed(s).len() > 0 ==> !is_space(trimmed(s)[0]) && !is_space(trimmed(s).last()),
    decreases s.len(),
{
    if s.len() > 0 && is_space(s[0]) {
        let t = s.skip(1);
        let (i, j) = lemma_trimmed(t);
        assert(trimmed(s) == trimmed(t));
        assert(s.subrange(i + 1, j + 1) =~= t.subrange(i, j));
        assert forall|k: int| 0 <= k < i + 1 || j + 1 <= k < s.len() implies is_space(
            #[trigger] s[k],
        ) by {
            if k > 0 {
                assert(s[k] == t[k - 1]);
            }
        }
        (i + 1, j + 1)
    } else if s.len() > 0 && is_space(s.last()) {
        let t = s.drop_last();
        let (i, j) = lemma_trimmed(t);
        assert(trimmed(s) == trimmed(t));
        assert(s.subrange(i, j) =~= t.subrange(i, j));
        assert forall|k: int| 0 <= k < i || j <= k < s.len() implies is_space(#[trigger] s[k]) by {
            if k < s.len() - 1 {
                assert(s[k] == t[k]);
            }
        }
        (i, j)
    } else {
        assert(trimmed(s) == s);
        assert(s.subrange(0, s.len() as int) =~= s);
        (0, s.len() as int)
    }
}

/// Trimming takes white space away from the two ends of a text, all of it, and nothing else.
pub proof fn trimming_takes_the_space_around(s: Seq<char>)
    ensures
        trimmed(s).len() > 0 ==> !is_space(trimmed(s)[0]) && !is_space(trimmed(s).last()),
        exists|i: int, j: int|
            0 <= i <= j <= s.len() && trimmed(s) == #[trigger] s.subrange(i, j) && (forall|k: int|
                0 <= k < i || j <= k < s.len() ==> is_space(#[trigger] s[k])),
{
    let (i, j) = lemma_trimmed(s);
    assert(trimmed(s) == s.subrange(i, j));
}

proof fn lemma_split_at(a: Seq<char>, b: Seq<char>, c: char)
    ensures
        text::split(a.push(c) + b, c) == text::split(a, c) + text::split(b, c),
    decreases b.len(),
{
    let s = a.push(c) + b;
    text::lemma_split_nonempty(a, c);
    text::lemma_split_nonempty(b, c);
    if b.len() == 0 {
        assert(s =~= a.push(c));
        assert(s.drop_last() =~= a);
        assert(text::split(s, c) =~= text::split(a, c) + text::split(b, c));
    } else {
        let t = b.drop_last();
        lemma_split_at(a, t, c);
        text::lemma_split_nonempty(t, c);
        assert(s.drop_last() =~= a.push(c) + t);
        assert(s.last() == b.last());
        assert(text::split(s, c) =~= text::split(a, c) + text::split(b, c));
    }
}

proof fn lemma_nonempty_of_both(a: Seq<Seq<char>>, b: Seq<Seq<char>>)
    ensures
        nonempty(a + b) == nonempty(a) + nonempty(b),
    decreases b.len(),
{
    if b.len() == 0 {
        assert(a + b =~= a);
        assert(nonempty(a + b) =~= nonempty(a) + nonempty(b));
    } else {
        lemma_nonempty_of_both(a, b.drop_last());
        assert((a + b).drop_last() =~= a + b.drop_last());
        assert((a + b).last() == b.last());
        assert(nonempty(a + b) =~= nonempty(a) + nonempty(b));
    }
}

/// A comma stands between items: the items of a list are those before the comma and then those
/// after it. What has no comma in it is one item, without the white space around it; what holds
/// white space alone is none.
pub proof fn commas_part_the_items(a: Seq<char>, b: Seq<char>)
    ensures
        list_in(a + ","@ + b) == list_in(a) + list_in(b),
        !a.contains(',') ==> list_in(a) == (if trimmed(a).len() > 0 {
            seq![trimmed(a)]
        } else {
            seq![]
        }),
{
    reveal_strlit(",");
    assert(a + ","@ + b =~= a.push(',') + b);
    lemma_split_at(a, b, ',');
    let x = text::split(a, ',');
    let y = text::split(b, ',');
    assert(all_trimmed(x + y) =~= all_trimmed(x) + all_trimmed(y));
    lemma_nonempty_of_both(all_trimmed(x), all_trimmed(y));
    if !a.contains(',') {
        text::lemma_split_whole(a, ',');
        assert(x =~= seq![a]);
        assert(all_trimmed(x) =~= seq![trimmed(a)]);
        let one = seq![trimmed(a)];
        assert(one.drop_last() =~= seq![]);
        assert(nonempty(one.drop_last()) =~= seq![]);
        assert(one.last() == trimmed(a));
        if trimmed(a).len() > 0 {
            assert(nonempty(one) =~= one);
        } else {
            assert(nonempty(one) =~= seq![]);
        }
    }
}

/// Without a configuration nothing is asked of a client and nothing is refused that the limits
/// allow: there is no token, every path and every command is allowed, and a file as long as may be
/// written fits, in Base64, into a request.
pub proof fn defaults_are_open(macos: bool, home: Option<Seq<char>>, data: Seq<u8>)
    requires
        data.len() <= default_config(macos, home).api_max_file_write_bytes,
    ensures
        default_config(macos, home).api_token is None,
        default_config(macos, home).allowed_read_paths.len() == 0,
        default_config(macos, home).allowed_write_paths.len() == 0,
        default_config(macos, home).exec_allowlist.len() == 0,
        default_config(macos, home).exec_denylist.len() == 0,
        default_config(macos, home).exec_env_allowlist.len() == 0,
        crate::base64::encoded(data).len() < default_config(macos, home).api_max_request_bytes,
        default_config(macos, home).api_max_file_read_bytes > 0,
        default_config(macos, home).api_sensitive_rate_limit_per_minute > 0,
        default_config(macos, home).exec_timeout_secs > 0,
        text::starts_with(
            default_config(macos, home).default_kernel,
            default_config(macos, home).data_dir,
        ),
{
    crate::base64::encoded_length(data);
    reveal_strlit("kernels/Image-virt");
    reveal_strlit("kernels/vmlinux");
    path::names_stay_apart(
        default_data_dir_of(macos, home),
        "kernels/Image-virt"@,
        "kernels/vmlinux"@,
    );
    path::names_stay_apart(
        default_data_dir_of(macos, home),
        "kernels/vmlinux"@,
        "kernels/vmlinux"@,
    );
}

} // verus!
