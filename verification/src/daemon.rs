//! Before the daemon starts: where it may listen, which addresses it hands out, and whether its
//! configuration can be used.
use crate::config::Config;
use crate::ip;
use crate::ip::{format_ip, parse_ip};
use crate::net;
use crate::path;
use crate::path::join_path;
use crate::text;
use crate::text::{decimal_of, has_prefix, parse_uint, part, split_text};
use vstd::prelude::*;
use vstd::string::*;

verus! {

/// An address of a host.
#[derive(Debug, Clone, Copy)]
pub enum HostAddr {
    V4(u32),
    V6(u128),
}

/// Whether an address leads back to the host itself.
pub open spec fn leads_back(addr: HostAddr) -> bool {
    match addr {
        HostAddr::V4(a) => a / 0x100_0000 == 127,
        HostAddr::V6(a) => a == 1,
    }
}

/// Refuses to serve on an address that others can reach, unless this is asked for. `listen` is
/// the address as it is shown, with the port.
pub fn validate_daemon_bind(addr: HostAddr, listen: &str, allow_remote: bool) -> (r: Result<
    (),
    String,
>)
    ensures
        match r {
            Ok(_) => leads_back(addr) || allow_remote,
            Err(m) => {
                &&& !leads_back(addr) && !allow_remote
                &&& m@ == "refusing to bind daemon to non-loopback address "@ + listen@
                    + " without --allow-remote"@
            },
        },
{
    let back = match addr {
        HostAddr::V4(a) => a / 0x100_0000 == 127,
        HostAddr::V6(a) => a == 1,
    };
    if back || allow_remote {
        return Ok(());
    }
    let mut m = "refusing to bind daemon to non-loopback address ".to_owned();
    m.append(listen);
    m.append(" without --allow-remote");
    Err(m)
}

/// How many addresses a network of the given prefix length has.
pub open spec fn network_size(prefix_len: int) -> nat {
    net::pow2((32 - prefix_len) as nat)
}

/// The first address of the network that an address is in.
pub open spec fn network_of(addr: u32, prefix_len: int) -> u32 {
    (addr - addr as nat % network_size(prefix_len)) as u32
}

/// The network that a text stands for, by its first address and its prefix length, or what is
/// wrong with the text.
pub open spec fn network_in(cidr: Seq<char>) -> Result<(u32, u8), Seq<char>> {
    match text::parted(cidr, '/') {
        None => Err("invalid CIDR: missing '/'"@),
        Some((base_text, prefix_text)) => match ip::ip_value(base_text) {
            None => Err("invalid CIDR base address"@),
            Some(base) => match text::uint_value(prefix_text, 10, 255) {
                Err(_) => Err("invalid CIDR prefix length"@),
                Ok(n) => if !(1 <= n <= 30) {
                    Err("prefix length must be 1..=30 (got "@ + text::decimal(n) + ")"@)
                } else if network_of(base, n as int) != base {
                    Err(
                        "base address "@ + ip::ip_text(base) + " is not network-aligned for /"@
                            + text::decimal(n) + " (did you mean "@ + ip::ip_text(
                            network_of(base, n as int),
                        ) + "/"@ + text::decimal(n) + "?)"@,
                    )
                } else {
                    Ok((base, n as u8))
                },
            },
        },
    }
}

/// The network that a text like "172.20.0.0/24" stands for.
pub fn parse_cidr(cidr: &str) -> (r: Result<(u32, u8), String>)
    ensures
        match r {
            Ok(network) => network_in(cidr@) == Ok::<(u32, u8), Seq<char>>(network),
            Err(m) => network_in(cidr@) == Err::<(u32, u8), Seq<char>>(m@),
        },
{
    let (base_text, prefix_text) = match part(cidr, '/') {
        Some(parts) => parts,
        None => return Err("invalid CIDR: missing '/'".to_owned()),
    };
    let base = match parse_ip(base_text.as_str()) {
        Some(base) => base,
        None => return Err("invalid CIDR base address".to_owned()),
    };
    let n = match parse_uint(prefix_text.as_str(), 10, 255) {
        Ok(n) => n,
        Err(_) => return Err("invalid CIDR prefix length".to_owned()),
    };
    if n < 1 || n > 30 {
        let mut m = "prefix length must be 1..=30 (got ".to_owned();
        m.append(decimal_of(n).as_str());
        m.append(")");
        return Err(m);
    }
    let host_bits: u32 = 32 - n as u32;
    proof {
        net::lemma_pow2_values(host_bits as nat);
    }
    let size: u32 = 1u32 << host_bits;
    proof {
        assert(base as int % size as int <= base) by (nonlinear_arith)
            requires
                size > 0,
        ;
    }
    let network: u32 = base - base % size;
    if network != base {
        let mut m = "base address ".to_owned();
        m.append(format_ip(base).as_str());
        m.append(" is not network-aligned for /");
        m.append(decimal_of(n).as_str());
        m.append(" (did you mean ");
        m.append(format_ip(network).as_str());
        m.append("/");
        m.append(decimal_of(n).as_str());
        m.append("?)");
        return Err(m);
    }
    Ok((base, n as u8))
}

/// Addresses can be handed out of every network that is accepted.
pub proof fn accepted_network_can_be_used(cidr: Seq<char>)
    requires
        network_in(cidr) is Ok,
    ensures
        1 <= (network_in(cidr)->Ok_0).1 <= 30,
        (network_in(cidr)->Ok_0).0 as nat % net::pow2((32 - (network_in(cidr)->Ok_0).1) as nat) == 0,
{
    let (base, n) = network_in(cidr)->Ok_0;
    net::lemma_pow2_values((32 - n) as nat);
    let size = network_size(n as int);
    let rest = base as nat % size;
    assert(0 <= rest <= base) by (nonlinear_arith)
        requires
            rest == base as nat % size,
            size > 0,
    ;
}

/// A network that was suggested in place of one that is not aligned is aligned itself.
pub proof fn suggested_network_is_aligned(base: u32, prefix_len: int)
    requires
        1 <= prefix_len <= 30,
    ensures
        network_of(network_of(base, prefix_len), prefix_len) == network_of(base, prefix_len),
{
    net::lemma_pow2_values((32 - prefix_len) as nat);
    let size = network_size(prefix_len) as int;
    let rest = base as int % size;
    assert(0 <= rest <= base && rest < size) by (nonlinear_arith)
        requires
            rest == base as int % size,
            size > 0,
            base >= 0,
    ;
    assert((base - rest) % size == 0) by {
        vstd::arithmetic::div_mod::lemma_fundamental_div_mod(base as int, size);
        vstd::arithmetic::div_mod::lemma_mod_multiples_basic(base as int / size, size);
        assert(size * (base as int / size) == (base as int / size) * size) by (nonlinear_arith);
    }
}

/// The files that a program may be: it alone where its path is absolute, else one of that name
/// in each directory of the search path.
pub open spec fn program_files(name: Seq<char>, dirs: Option<Seq<char>>) -> Seq<Seq<char>> {
    if text::starts_with(name, "/"@) {
        seq![name]
    } else {
        match dirs {
            Some(d) => text::split(d, ':').map_values(|dir: Seq<char>| path::joined(dir, name)),
            None => seq![],
        }
    }
}

/// The files that a program may be, the first that exists is the one.
pub fn find_in_path(name: &str, dirs: Option<&str>) -> (files: Vec<String>)
    ensures
        text::texts(files@) == program_files(name@, crate::config::opt_str(dirs)),
{
    let mut files: Vec<String> = Vec::new();
    if has_prefix(name, "/") {
        files.push(name.to_owned());
        proof {
            assert(text::texts(files@) =~= seq![name@]);
        }
        return files;
    }
    match dirs {
        None => {
            proof {
                assert(text::texts(files@) =~= seq![]);
            }
            files
        },
        Some(d) => {
            let parts = split_text(d, ':');
            let ghost whole = text::split(d@, ':');
            let mut i: usize = 0;
            while i < parts.len()
                invariant
                    i <= parts@.len(),
                    text::texts(parts@) == whole,
                    files@.len() == i,
                    forall|k: int|
                        0 <= k < i ==> (#[trigger] files@[k])@ == path::joined(whole[k], name@),
                decreases parts.len() - i,
            {
                proof {
                    assert(whole[i as int] == parts@[i as int]@);
                }
                files.push(join_path(parts[i].as_str(), name));
                i += 1;
            }
            proof {
                assert(text::texts(files@) =~= whole.map_values(
                    |dir: Seq<char>| path::joined(dir, name@),
                ));
            }
            files
        },
    }
}

/// What became of the data directory.
#[derive(Debug)]
pub enum DirOutcome {
    Present,
    Created,
    Failed(String),
}

/// What the path of the kernel leads to.
#[derive(Debug, Clone, Copy, PartialEq, Eq, Structural)]
pub enum KernelOutcome {
    File,
    NotFile,
    Missing,
}

/// What was found out about the things that a configuration names, and which of them were named
/// by the environment.
#[derive(Debug)]
pub struct ConfigFacts {
    pub data_dir: DirOutcome,
    pub data_dir_from_env: bool,
    pub kernel: KernelOutcome,
    pub kernel_from_env: bool,
    /// The file that the monitor's program is.
    pub firecracker: Option<String>,
    pub firecracker_from_env: bool,
    pub interface_exists: bool,
    pub interface_from_env: bool,
    pub subnet_from_env: bool,
}

/// A line of the report.
pub open spec fn report_line(label: Seq<char>, value: Seq<char>, verdict: Seq<char>, hint: Seq<char>) -> Seq<char> {
    "  "@ + label + " ("@ + value + ") ... "@ + verdict + hint
}

fn report(label: &str, value: &str, verdict: &str, hint: &str) -> (s: String)
    ensures
        s@ == report_line(label@, value@, verdict@, hint@),
{
    let mut s = "  ".to_owned();
    s.append(label);
    s.append(" (");
    s.append(value);
    s.append(") ... ");
    s.append(verdict);
    s.append(hint);
    s
}

/// Says which variable of the environment named something, if one did.
pub open spec fn env_hint(from_env: bool, hint: Seq<char>) -> Seq<char> {
    if from_env {
        hint
    } else {
        ""@
    }
}

/// "FAIL", with the reason.
pub open spec fn failure(reason: Seq<char>) -> Seq<char> {
    "FAIL ("@ + reason + ")"@
}

fn failed(reason: &str) -> (s: String)
    ensures
        s@ == failure(reason@),
{
    let mut s = "FAIL (".to_owned();
    s.append(reason);
    s.append(")");
    s
}

/// What is said of the data directory.
pub open spec fn data_dir_verdict(o: DirOutcome) -> Seq<char> {
    match o {
        DirOutcome::Present => "OK"@,
        DirOutcome::Created => "OK (created)"@,
        DirOutcome::Failed(e) => failure(e@),
    }
}

/// What is said of the kernel.
pub open spec fn kernel_verdict(o: KernelOutcome) -> Seq<char> {
    match o {
        KernelOutcome::File => "OK"@,
        KernelOutcome::NotFile => failure("not a regular file"@),
        KernelOutcome::Missing => failure("not found"@),
    }
}

/// What is said of the monitor's program: which file it is, where its path does not say so.
pub open spec fn program_verdict(name: Seq<char>, found: Option<String>) -> Seq<char> {
    match found {
        Some(file) => if text::starts_with(name, "/"@) {
            "OK"@
        } else {
            "OK ("@ + file@ + ")"@
        },
        None => failure("not found"@),
    }
}

/// What is said of the interface that guests reach the outside by.
pub open spec fn interface_verdict(exists: bool) -> Seq<char> {
    if exists {
        "OK"@
    } else {
        failure("not found"@)
    }
}

/// What is said of the network that addresses are handed out of.
pub open spec fn subnet_verdict(subnet: Seq<char>) -> Seq<char> {
    match network_in(subnet) {
        Ok(_) => "OK"@,
        Err(m) => failure(m),
    }
}

/// The line on the data directory.
pub open spec fn data_dir_line(c: Config, f: ConfigFacts) -> Seq<char> {
    report_line(
        "data_dir"@,
        c.data_dir@,
        data_dir_verdict(f.data_dir),
        env_hint(f.data_dir_from_env, " (from HUSK_DATA_DIR)"@),
    )
}

/// The line on the kernel.
pub open spec fn kernel_line(c: Config, f: ConfigFacts) -> Seq<char> {
    report_line(
        "default_kernel"@,
        c.default_kernel@,
        kernel_verdict(f.kernel),
        env_hint(f.kernel_from_env, " (from HUSK_DEFAULT_KERNEL)"@),
    )
}

/// The line on the monitor's program.
pub open spec fn program_line(c: Config, f: ConfigFacts) -> Seq<char> {
    report_line(
        "firecracker_bin"@,
        c.firecracker_bin@,
        program_verdict(c.firecracker_bin@, f.firecracker),
        env_hint(f.firecracker_from_env, " (from HUSK_FIRECRACKER_BIN)"@),
    )
}

/// The line on the interface.
pub open spec fn interface_line(c: Config, f: ConfigFacts) -> Seq<char> {
    report_line(
        "host_interface"@,
        c.host_interface@,
        interface_verdict(f.interface_exists),
        env_hint(f.interface_from_env, " (from HUSK_HOST_INTERFACE)"@),
    )
}

/// The line on the network.
pub open spec fn subnet_line(c: Config, f: ConfigFacts) -> Seq<char> {
    report_line(
        "bridge_subnet"@,
        c.bridge_subnet@,
        subnet_verdict(c.bridge_subnet@),
        env_hint(f.subnet_from_env, " (from HUSK_BRIDGE_SUBNET)"@),
    )
}

/// The report on a configuration. The host's network matters only where the monitor needs it.
pub open spec fn report_of(c: Config, f: ConfigFacts, host_network: bool) -> Seq<Seq<char>> {
    if host_network {
        seq![
            data_dir_line(c, f),
            kernel_line(c, f),
            program_line(c, f),
            interface_line(c, f),
            subnet_line(c, f),
        ]
    } else {
        seq![data_dir_line(c, f), kernel_line(c, f)]
    }
}

/// Whether a configuration can be used.
pub open spec fn usable(c: Config, f: ConfigFacts, host_network: bool) -> bool {
    &&& !(f.data_dir is Failed)
    &&& f.kernel == KernelOutcome::File
    &&& host_network ==> f.firecracker is Some && f.interface_exists && network_in(
        c.bridge_subnet@,
    ) is Ok
}

fn hint_if(from_env: bool, hint: &'static str) -> (s: &'static str)
    ensures
        s@ == env_hint(from_env, hint@),
{
    if from_env {
        hint
    } else {
        ""
    }
}

fn check_data_dir(config: &Config, facts: &ConfigFacts) -> (s: String)
    ensures
        s@ == data_dir_line(*config, *facts),
{
    let verdict = match &facts.data_dir {
        DirOutcome::Present => "OK".to_owned(),
        DirOutcome::Created => "OK (created)".to_owned(),
        DirOutcome::Failed(e) => failed(e.as_str()),
    };
    let hint = hint_if(facts.data_dir_from_env, " (from HUSK_DATA_DIR)");
    report("data_dir", config.data_dir.as_str(), verdict.as_str(), hint)
}

fn check_kernel(config: &Config, facts: &ConfigFacts) -> (s: String)
    ensures
        s@ == kernel_line(*config, *facts),
{
    let verdict = match facts.kernel {
        KernelOutcome::File => "OK".to_owned(),
        KernelOutcome::NotFile => failed("not a regular file"),
        KernelOutcome::Missing => failed("not found"),
    };
    let hint = hint_if(facts.kernel_from_env, " (from HUSK_DEFAULT_KERNEL)");
    report("default_kernel", config.default_kernel.as_str(), verdict.as_str(), hint)
}

fn check_program(config: &Config, facts: &ConfigFacts) -> (s: String)
    ensures
        s@ == program_line(*config, *facts),
{
    let name = config.firecracker_bin.as_str();
    let verdict = match &facts.firecracker {
        Some(file) => if has_prefix(name, "/") {
            "OK".to_owned()
        } else {
            let mut s = "OK (".to_owned();
            s.append(file.as_str());
            s.append(")");
            s
        },
        None => failed("not found"),
    };
    let hint = hint_if(facts.firecracker_from_env, " (from HUSK_FIRECRACKER_BIN)");
    report("firecracker_bin", name, verdict.as_str(), hint)
}

fn check_interface(config: &Config, facts: &ConfigFacts) -> (s: String)
    ensures
        s@ == interface_line(*config, *facts),
{
    let verdict = if facts.interface_exists {
        "OK".to_owned()
    } else {
        failed("not found")
    };
    let hint = hint_if(facts.interface_from_env, " (from HUSK_HOST_INTERFACE)");
    report("host_interface", config.host_interface.as_str(), verdict.as_str(), hint)
}

fn check_subnet(config: &Config, facts: &ConfigFacts) -> (r: (String, bool))
    ensures
        r.0@ == subnet_line(*config, *facts),
        r.1 == (network_in(config.bridge_subnet@) is Ok),
{
    let (verdict, ok) = match parse_cidr(config.bridge_subnet.as_str()) {
        Ok(_) => ("OK".to_owned(), true),
        Err(m) => (failed(m.as_str()), false),
    };
    let hint = hint_if(facts.subnet_from_env, " (from HUSK_BRIDGE_SUBNET)");
    (report("bridge_subnet", config.bridge_subnet.as_str(), verdict.as_str(), hint), ok)
}

/// Reports on a configuration, and says whether it can be used.
pub fn check_config(config: &Config, facts: &ConfigFacts, host_network: bool) -> (r: (
    Vec<String>,
    bool,
))
    ensures
        text::texts(r.0@) == report_of(*config, *facts, host_network),
        r.1 == usable(*config, *facts, host_network),
{
    let mut lines: Vec<String> = Vec::new();
    lines.push(check_data_dir(config, facts));
    lines.push(check_kernel(config, facts));
    let dir_ok = match facts.data_dir {
        DirOutcome::Failed(_) => false,
        _ => true,
    };
    let mut all_ok = dir_ok && facts.kernel == KernelOutcome::File;
    if host_network {
        lines.push(check_program(config, facts));
        lines.push(check_interface(config, facts));
        let (line, subnet_ok) = check_subnet(config, facts);
        lines.push(line);
        all_ok = all_ok && facts.firecracker.is_some() && facts.interface_exists && subnet_ok;
    }
    proof {
        assert(text::texts(lines@) =~= report_of(*config, *facts, host_network));
    }
    (lines, all_ok)
}

/// The addresses that lead back are the network 127.0.0.0/8, and the one such address of IPv6.
pub proof fn loopback_network_leads_back(addr: u32)
    ensures
        leads_back(HostAddr::V4(addr)) <==> crate::traffic::in_network(
            addr as int,
            ip::ip_of(127, 0, 0, 1) as u32,
            8,
        ),
        leads_back(HostAddr::V6(1)),
        !leads_back(HostAddr::V4(0)),
        forall|a: u128| a != 1 ==> !leads_back(HostAddr::V6(a)),
{
    reveal(crate::traffic::in_network);
    let size = net::pow2((32 - 8nat) as nat) as int;
    assert(size == 0x100_0000) by {
        reveal_with_fuel(net::pow2, 25);
    }
    let x = addr as int;
    let back = ip::ip_of(127, 0, 0, 1) as u32;
    assert(back == 0x7f00_0001);
    assert(x / size == x / 0x100_0000);
    assert(back as int / size == back as int / 0x100_0000);
    assert(back as int / 0x100_0000 == 127);
    assert(crate::traffic::in_network(x, back, 8) <==> x / size == back as int / size);
}

/// A network that is written down is read as that network.
pub proof fn network_is_read_back(base: u32, prefix_len: u8)
    requires
        1 <= prefix_len <= 30,
        base as nat % network_size(prefix_len as int) == 0,
    ensures
        network_in(ip::ip_text(base) + "/"@ + text::decimal(prefix_len as nat)) == Ok::<
            (u32, u8),
            Seq<char>,
        >((base, prefix_len)),
{
    reveal_strlit("/");
    let s = ip::ip_text(base) + "/"@ + text::decimal(prefix_len as nat);
    assert(s =~= ip::ip_text(base) + seq!['/'] + text::decimal(prefix_len as nat));
    crate::traffic::lemma_parted(base, '/', s, prefix_len as nat);
    ip::parse_inverts_format(base);
    text::decimal_is_read_back(prefix_len as nat, 255);
}

/// Every address that is handed out is in the network that was configured.
pub proof fn handed_out_addresses_are_in_the_network(
    a: net::IpAllocatorView,
    prefix_len: u8,
    i: u32,
)
    requires
        1 <= prefix_len <= 30,
        a.base as nat % network_size(prefix_len as int) == 0,
        a.max_index == net::subnets_in(prefix_len as nat),
        i < a.max_index,
    ensures
        crate::traffic::in_network(a.host_ip(i as int), a.base, prefix_len as nat),
        crate::traffic::in_network(a.guest_ip(i as int), a.base, prefix_len as nat),
        a.base % 4 == 0,
{
    reveal(crate::traffic::in_network);
    let bits = (32 - prefix_len) as nat;
    let size = net::pow2(bits) as int;
    let base = a.base as int;
    net::lemma_pow2_values(bits);
    assert(size % 4 == 0) by {
        assert(net::pow2(bits) == 2 * net::pow2((bits - 1) as nat));
        assert(net::pow2((bits - 1) as nat) == 2 * net::pow2((bits - 2) as nat));
    }
    let q = base / size;
    vstd::arithmetic::div_mod::lemma_fundamental_div_mod(base, size);
    assert(size * q == base);
    assert(base % 4 == 0) by {
        let m = size / 4;
        assert(base == 4 * (m * q)) by (nonlinear_arith)
            requires
                size == 4 * m,
                size * q == base,
        ;
    }
    let host = a.host_ip(i as int) - base;
    let guest = a.guest_ip(i as int) - base;
    assert(0 <= host < size && 0 <= guest < size);
    assert(size * q == q * size) by (nonlinear_arith);
    vstd::arithmetic::div_mod::lemma_fundamental_div_mod_converse(base + host, size, q, host);
    vstd::arithmetic::div_mod::lemma_fundamental_div_mod_converse(base + guest, size, q, guest);
}

/// The report says "OK" of everything exactly where the configuration can be used.
pub proof fn report_and_verdict_agree(c: Config, f: ConfigFacts, host_network: bool)
    ensures
        usable(c, f, host_network) <==> {
            &&& text::starts_with(data_dir_verdict(f.data_dir), "OK"@)
            &&& text::starts_with(kernel_verdict(f.kernel), "OK"@)
            &&& host_network ==> text::starts_with(
                program_verdict(c.firecracker_bin@, f.firecracker),
                "OK"@,
            ) && text::starts_with(interface_verdict(f.interface_exists), "OK"@)
                && text::starts_with(subnet_verdict(c.bridge_subnet@), "OK"@)
        },
{
    reveal_strlit("OK");
    reveal_strlit("OK (created)");
    reveal_strlit("OK (");
    reveal_strlit("FAIL (");
    assert("OK"@.take(2) =~= "OK"@);
    assert("OK (created)"@.take(2) =~= "OK"@);
    if let Some(file) = f.firecracker {
        assert(("OK ("@ + file@ + ")"@).take(2) =~= "OK"@);
    }
    assert forall|m: Seq<char>| !text::starts_with(#[trigger] failure(m), "OK"@) by {
        assert(failure(m)[0] == 'F');
        assert(failure(m).take(2)[0] == 'F');
    }
}

proof fn lemma_report_line(
    label: Seq<char>,
    value: Seq<char>,
    verdict: Seq<char>,
    hint: Seq<char>,
)
    ensures
        text::occurs_in(label + " ("@ + value + ")"@, report_line(label, value, verdict, hint)),
        text::ends_with(report_line(label, value, verdict, hint), verdict + hint),
{
    reveal_strlit("  ");
    reveal_strlit(" (");
    reveal_strlit(")");
    reveal_strlit(") ... ");
    let line = report_line(label, value, verdict, hint);
    text::lemma_occurs(label + " ("@ + value + ")"@, line, 2);
    let front = "  "@ + label + " ("@ + value + ") ... "@;
    assert(line =~= front + (verdict + hint));
    text::lemma_ends_with(front, verdict + hint);
}

/// Each line of the report names a setting with its value and ends with what is said of it, and,
/// where the environment has set it, with the name of the variable.
pub proof fn report_names_the_settings(c: Config, f: ConfigFacts)
    ensures
        text::occurs_in("data_dir ("@ + c.data_dir@ + ")"@, data_dir_line(c, f)),
        text::occurs_in("default_kernel ("@ + c.default_kernel@ + ")"@, kernel_line(c, f)),
        text::occurs_in("firecracker_bin ("@ + c.firecracker_bin@ + ")"@, program_line(c, f)),
        text::occurs_in("host_interface ("@ + c.host_interface@ + ")"@, interface_line(c, f)),
        text::occurs_in("bridge_subnet ("@ + c.bridge_subnet@ + ")"@, subnet_line(c, f)),
        !f.data_dir_from_env ==> text::ends_with(data_dir_line(c, f), data_dir_verdict(f.data_dir)),
        f.data_dir_from_env ==> text::ends_with(data_dir_line(c, f), "(from HUSK_DATA_DIR)"@),
        f.kernel_from_env ==> text::ends_with(kernel_line(c, f), "(from HUSK_DEFAULT_KERNEL)"@),
        f.firecracker_from_env ==> text::ends_with(
            program_line(c, f),
            "(from HUSK_FIRECRACKER_BIN)"@,
        ),
        f.interface_from_env ==> text::ends_with(
            interface_line(c, f),
            "(from HUSK_HOST_INTERFACE)"@,
        ),
        f.subnet_from_env ==> text::ends_with(subnet_line(c, f), "(from HUSK_BRIDGE_SUBNET)"@),
{
    reveal_strlit(" (");
    reveal_strlit("data_dir");
    reveal_strlit("data_dir (");
    reveal_strlit(" (from HUSK_DATA_DIR)");
    reveal_strlit("(from HUSK_DATA_DIR)");
    assert("data_dir ("@ =~= "data_dir"@ + " ("@);
    assert("(from HUSK_DATA_DIR)"@ =~= " (from HUSK_DATA_DIR)"@.skip(1));
    reveal_strlit("default_kernel");
    reveal_strlit("default_kernel (");
    reveal_strlit(" (from HUSK_DEFAULT_KERNEL)");
    reveal_strlit("(from HUSK_DEFAULT_KERNEL)");
    assert("default_kernel ("@ =~= "default_kernel"@ + " ("@);
    assert("(from HUSK_DEFAULT_KERNEL)"@ =~= " (from HUSK_DEFAULT_KERNEL)"@.skip(1));
    reveal_strlit("firecracker_bin");
    reveal_strlit("firecracker_bin (");
    reveal_strlit(" (from HUSK_FIRECRACKER_BIN)");
    reveal_strlit("(from HUSK_FIRECRACKER_BIN)");
    assert("firecracker_bin ("@ =~= "firecracker_bin"@ + " ("@);
    assert("(from HUSK_FIRECRACKER_BIN)"@ =~= " (from HUSK_FIRECRACKER_BIN)"@.skip(1));
    reveal_strlit("host_interface");
    reveal_strlit("host_interface (");
    reveal_strlit(" (from HUSK_HOST_INTERFACE)");
    reveal_strlit("(from HUSK_HOST_INTERFACE)");
    assert("host_interface ("@ =~= "host_interface"@ + " ("@);
    assert("(from HUSK_HOST_INTERFACE)"@ =~= " (from HUSK_HOST_INTERFACE)"@.skip(1));
    reveal_strlit("bridge_subnet");
    reveal_strlit("bridge_subnet (");
    reveal_strlit(" (from HUSK_BRIDGE_SUBNET)");
    reveal_strlit("(from HUSK_BRIDGE_SUBNET)");
    assert("bridge_subnet ("@ =~= "bridge_subnet"@ + " ("@);
    assert("(from HUSK_BRIDGE_SUBNET)"@ =~= " (from HUSK_BRIDGE_SUBNET)"@.skip(1));
    lemma_setting(
        "data_dir"@,
        "data_dir ("@,
        c.data_dir@,
        data_dir_verdict(f.data_dir),
        f.data_dir_from_env,
        " (from HUSK_DATA_DIR)"@,
        "(from HUSK_DATA_DIR)"@,
    );
    lemma_setting(
        "default_kernel"@,
        "default_kernel ("@,
        c.default_kernel@,
        kernel_verdict(f.kernel),
        f.kernel_from_env,
        " (from HUSK_DEFAULT_KERNEL)"@,
        "(from HUSK_DEFAULT_KERNEL)"@,
    );
    lemma_setting(
        "firecracker_bin"@,
        "firecracker_bin ("@,
        c.firecracker_bin@,
        program_verdict(c.firecracker_bin@, f.firecracker),
        f.firecracker_from_env,
        " (from HUSK_FIRECRACKER_BIN)"@,
        "(from HUSK_FIRECRACKER_BIN)"@,
    );
    lemma_setting(
        "host_interface"@,
        "host_interface ("@,
        c.host_interface@,
        interface_verdict(f.interface_exists),
        f.interface_from_env,
        " (from HUSK_HOST_INTERFACE)"@,
        "(from HUSK_HOST_INTERFACE)"@,
    );
    lemma_setting(
        "bridge_subnet"@,
        "bridge_subnet ("@,
        c.bridge_subnet@,
        subnet_verdict(c.bridge_subnet@),
        f.subnet_from_env,
        " (from HUSK_BRIDGE_SUBNET)"@,
        "(from HUSK_BRIDGE_SUBNET)"@,
    );
}

proof fn lemma_setting(
    label: Seq<char>,
    opened: Seq<char>,
    value: Seq<char>,
    verdict: Seq<char>,
    from_env: bool,
    hint: Seq<char>,
    variable: Seq<char>,
)
    requires
        opened == label + " ("@,
        hint.len() > 0,
        variable == hint.skip(1),
    ensures
        ({
            let line = report_line(label, value, verdict, env_hint(from_env, hint));
            &&& text::occurs_in(opened + value + ")"@, line)
            &&& !from_env ==> text::ends_with(line, verdict)
            &&& from_env ==> text::ends_with(line, variable)
        }),
{
    let line = report_line(label, value, verdict, env_hint(from_env, hint));
    lemma_report_line(label, value, verdict, env_hint(from_env, hint));
    reveal_strlit("");
    if from_env {
        assert(line.skip(line.len() - variable.len()) =~= variable);
    } else {
        assert(verdict + ""@ =~= verdict);
    }
}

} // verus!
