//! Host networking: addresses for the VMs, TAP devices, NAT rules and port forwards.
//!
//! The functions that change the host's network say which commands to run. Running them, and
//! telling whether they succeeded, is left to the caller.
use crate::ip;
use crate::ip::format_ip;
use crate::json;
use crate::json::{parse, Json, JsonView};
use crate::sorted::{put, take_lowest};
use crate::text;
use crate::text::{
    decimal_of, has_prefix, join_texts, owned_texts, push_hex_byte, same_text, text_of_bytes,
    IntFault,
};
use crate::traffic;
use std::collections::BTreeSet;
use vstd::prelude::*;
use vstd::string::*;

verus! {

/// Longest name of a network interface that Linux accepts, in bytes.
pub const TAP_NAME_MAX_LEN: usize = 15;

/// What can go wrong with the host's network.
#[derive(Debug)]
pub enum NetError {
    PoolExhausted,
    NotAllocated(u32),
    CommandFailed { cmd: String, message: String },
    /// A command could not be run; in the words of the operating system.
    Io(String),
    InvalidTapName { name: String, reason: String },
}

/// A network error, with its texts as characters.
pub enum NetErrorView {
    PoolExhausted,
    NotAllocated(u32),
    CommandFailed { cmd: Seq<char>, message: Seq<char> },
    Io(Seq<char>),
    InvalidTapName { name: Seq<char>, reason: Seq<char> },
}

impl View for NetError {
    type V = NetErrorView;

    open spec fn view(&self) -> NetErrorView {
        match self {
            NetError::PoolExhausted => NetErrorView::PoolExhausted,
            NetError::NotAllocated(ip) => NetErrorView::NotAllocated(*ip),
            NetError::CommandFailed { cmd, message } => NetErrorView::CommandFailed {
                cmd: cmd@,
                message: message@,
            },
            NetError::Io(m) => NetErrorView::Io(m@),
            NetError::InvalidTapName { name, reason } => NetErrorView::InvalidTapName {
                name: name@,
                reason: reason@,
            },
        }
    }
}

impl NetErrorView {
    /// The error in words.
    pub open spec fn text(self) -> Seq<char> {
        match self {
            NetErrorView::PoolExhausted => "no addresses available in pool"@,
            NetErrorView::NotAllocated(ip) => "address not owned by this allocator: "@ + ip::ip_text(
                ip,
            ),
            NetErrorView::CommandFailed { cmd, message } => "command failed: "@ + cmd + ": "@
                + message,
            NetErrorView::Io(m) => "IO error: "@ + m,
            NetErrorView::InvalidTapName { name, reason } => "invalid TAP name '"@ + name + "': "@
                + reason,
        }
    }
}

impl NetError {
    /// The error in words.
    pub fn message(&self) -> (s: String)
        ensures
            s@ == self@.text(),
    {
        match self {
            NetError::PoolExhausted => "no addresses available in pool".to_owned(),
            NetError::NotAllocated(ip) => {
                let mut s = "address not owned by this allocator: ".to_owned();
                s.append(format_ip(*ip).as_str());
                s
            },
            NetError::CommandFailed { cmd, message } => {
                let mut s = "command failed: ".to_owned();
                s.append(cmd.as_str());
                s.append(": ");
                s.append(message.as_str());
                s
            },
            NetError::Io(m) => {
                let mut s = "IO error: ".to_owned();
                s.append(m.as_str());
                s
            },
            NetError::InvalidTapName { name, reason } => {
                let mut s = "invalid TAP name '".to_owned();
                s.append(name.as_str());
                s.append("': ");
                s.append(reason.as_str());
                s
            },
        }
    }
}

/// The power of two `2^n` for `n` below 32.
pub open spec fn pow2(n: nat) -> nat
    decreases n,
{
    if n == 0 {
        1
    } else {
        2 * pow2((n - 1) as nat)
    }
}

/// How many /30 subnets a network of the given prefix length holds.
pub open spec fn subnets_in(prefix_len: nat) -> nat {
    pow2((32 - prefix_len) as nat) / 4
}

/// Hands out /30 subnets from a range of addresses.
///
/// Each subnet has an address for the host (the first after its base) and one for the guest (the
/// second). Released subnets are handed out again before fresh ones, the lowest first.
#[derive(Debug)]
pub struct IpAllocator {
    pub base: u32,
    pub max_index: u32,
    pub next_index: u32,
    pub freed: BTreeSet<u32>,
}

/// The state of an allocator: subnets from `next_index` on were never handed out, those in
/// `freed` were and came back, the other ones are in use.
pub struct IpAllocatorView {
    pub base: u32,
    pub max_index: u32,
    pub next_index: u32,
    pub freed: Set<u32>,
}

impl View for IpAllocator {
    type V = IpAllocatorView;

    open spec fn view(&self) -> IpAllocatorView {
        IpAllocatorView {
            base: self.base,
            max_index: self.max_index,
            next_index: self.next_index,
            freed: self.freed@,
        }
    }
}

impl IpAllocatorView {
    /// Only subnets of the range were ever handed out, and only those can have come back.
    pub open spec fn wf(self) -> bool {
        &&& self.next_index <= self.max_index
        &&& self.max_index <= 0x2000_0000
        &&& forall|i: u32| #[trigger] self.freed.contains(i) ==> i < self.next_index
    }

    /// Whether subnet `i` is handed out.
    pub open spec fn in_use(self, i: u32) -> bool {
        i < self.next_index && !self.freed.contains(i)
    }

    /// Whether `i` is the subnet that is handed out next: the lowest that came back, or else
    /// the first that was never handed out.
    pub open spec fn is_next(self, i: u32) -> bool {
        if exists|j: u32| self.freed.contains(j) {
            self.freed.contains(i) && forall|j: u32| self.freed.contains(j) ==> i <= j
        } else {
            i == self.next_index && i < self.max_index
        }
    }

    /// The state after subnet `i` was handed out.
    pub open spec fn after_allocate(self, i: u32) -> IpAllocatorView {
        IpAllocatorView {
            next_index: if i == self.next_index {
                (i + 1) as u32
            } else {
                self.next_index
            },
            freed: self.freed.remove(i),
            ..self
        }
    }

    /// The state after subnet `i` was given back.
    pub open spec fn after_release(self, i: u32) -> IpAllocatorView {
        IpAllocatorView { freed: self.freed.insert(i), ..self }
    }

    /// The host's address in subnet `i`.
    pub open spec fn host_ip(self, i: int) -> int {
        self.base + 4 * i + 1
    }

    /// The guest's address in subnet `i`.
    pub open spec fn guest_ip(self, i: int) -> int {
        self.base + 4 * i + 2
    }

    /// The subnet in use whose host address is `ip`.
    pub open spec fn releases(self, ip: u32, i: u32) -> bool {
        self.in_use(i) && self.host_ip(i as int) == ip
    }

    /// Every address that can be handed out is a 32-bit address.
    pub open spec fn fits(self) -> bool {
        self.base + 4 * self.max_index <= 0x1_0000_0000
    }
}

pub proof fn lemma_pow2_values(n: nat)
    requires
        n < 32,
    ensures
        pow2(n) == 1u32 << n,
        1 <= pow2(n) <= 0x8000_0000,
    decreases n,
{
    if n == 0 {
        assert(1u32 << 0u32 == 1u32) by (bit_vector);
    } else {
        let m = (n - 1) as u32;
        let k = n as u32;
        lemma_pow2_values((n - 1) as nat);
        assert(1u32 << k == 2 * (1u32 << m)) by (bit_vector)
            requires
                k < 32,
                k >= 1,
                m == k - 1,
        ;
        assert((1u32 << k) <= 0x8000_0000u32) by (bit_vector)
            requires
                k < 32,
        ;
    }
}

proof fn lemma_pow2_sum(m: nat, n: nat)
    ensures
        pow2(m) * pow2(n) == pow2(m + n),
    decreases m,
{
    if m == 0 {
        assert(1 * pow2(n) == pow2(n));
    } else {
        lemma_pow2_sum((m - 1) as nat, n);
        assert(2 * pow2((m - 1) as nat) * pow2(n) == 2 * (pow2((m - 1) as nat) * pow2(n)))
            by (nonlinear_arith);
    }
}

impl IpAllocator {
    /// An allocator for the network that begins at `base` and has the given prefix length.
    pub fn new(base: u32, prefix_len: u8) -> (a: IpAllocator)
        requires
            1 <= prefix_len <= 32,
        ensures
            a@.wf(),
            a@.base == base,
            a@.max_index == subnets_in(prefix_len as nat),
            a@.next_index == 0,
            a@.freed == Set::<u32>::empty(),
            base as nat % pow2((32 - prefix_len) as nat) == 0 ==> a@.fits(),
            a.wf(),
    {
        let host_bits: u32 = 32 - prefix_len as u32;
        proof {
            lemma_pow2_values(host_bits as nat);
            if base as nat % pow2(host_bits as nat) == 0 {
                lemma_aligned_base_fits(base, host_bits as nat);
            }
        }
        let total_ips: u32 = 1u32 << host_bits;
        IpAllocator { base, max_index: total_ips / 4, next_index: 0, freed: BTreeSet::new() }
    }

    /// The allocator's state is valid.
    pub open spec fn wf(&self) -> bool {
        self@.wf()
    }

    /// Hands out a subnet: its host address and its guest address. Subnets that came back come
    /// first, the lowest before the others.
    pub fn allocate(&mut self) -> (r: Result<(u32, u32), NetError>)
        requires
            old(self).wf(),
            forall|i: u32| #[trigger] old(self)@.is_next(i) ==> old(self)@.guest_ip(i as int) <= u32::MAX,
        ensures
            final(self).wf(),
            match r {
                Ok((host, guest)) => exists|i: u32| #[trigger]
                    old(self)@.is_next(i) && host == old(self)@.host_ip(i as int) && guest == old(self)@.guest_ip(i as int) && final(self)@ == old(self)@.after_allocate(i),
                Err(e) => {
                    &&& e == NetError::PoolExhausted
                    &&& old(self)@.next_index == old(self)@.max_index
                    &&& old(self)@.freed == Set::<u32>::empty()
                    &&& final(self)@ == old(self)@
                },
            },
    {
        let index: u32 = match take_lowest(&mut self.freed) {
            Some(idx) => {
                proof {
                    assert(old(self)@.freed.contains(idx));
                    assert(old(self)@.is_next(idx));
                    assert(self@.freed =~= old(self)@.after_allocate(idx).freed);
                }
                idx
            },
            None => {
                if self.next_index >= self.max_index {
                    return Err(NetError::PoolExhausted);
                }
                let idx = self.next_index;
                self.next_index = self.next_index + 1;
                proof {
                    assert(old(self)@.is_next(idx));
                    assert(self@.freed =~= old(self)@.after_allocate(idx).freed);
                }
                idx
            },
        };
        let subnet_base: u32 = self.base + index * 4;
        Ok((subnet_base + 1, subnet_base + 2))
    }

    /// Takes a subnet back, named by its host address. An address that is not the host address
    /// of a subnet in use is refused.
    pub fn release(&mut self, host_ip: u32) -> (r: Result<(), NetError>)
        requires
            old(self).wf(),
        ensures
            final(self).wf(),
            match r {
                Ok(_) => exists|i: u32| #[trigger]
                    old(self)@.releases(host_ip, i) && final(self)@ == old(self)@.after_release(i),
                Err(e) => {
                    &&& e == NetError::NotAllocated(host_ip)
                    &&& forall|i: u32| !(#[trigger] old(self)@.releases(host_ip, i))
                    &&& final(self)@ == old(self)@
                },
            },
    {
        if host_ip == 0 {
            return Err(NetError::NotAllocated(host_ip));
        }
        let subnet_base: u32 = host_ip - 1;
        if subnet_base < self.base {
            return Err(NetError::NotAllocated(host_ip));
        }
        let offset: u32 = subnet_base - self.base;
        if offset % 4 != 0 {
            return Err(NetError::NotAllocated(host_ip));
        }
        let index: u32 = offset / 4;
        if index >= self.next_index || index >= self.max_index {
            return Err(NetError::NotAllocated(host_ip));
        }
        let ghost before = self@;
        if !put(&mut self.freed, index) {
            proof {
                assert(before.freed.insert(index) =~= before.freed);
            }
            return Err(NetError::NotAllocated(host_ip));
        }
        proof {
            assert(before.releases(host_ip, index));
        }
        Ok(())
    }
}

/// A network whose base is aligned to its size ends within the address space.
proof fn lemma_aligned_base_fits(base: u32, host_bits: nat)
    requires
        host_bits < 32,
        base as nat % pow2(host_bits) == 0,
    ensures
        base + 4 * (pow2(host_bits) / 4) <= 0x1_0000_0000,
{
    let p = pow2(host_bits) as int;
    let m = pow2((32 - host_bits) as nat) as int;
    let q = base as int / p;
    lemma_pow2_values(host_bits);
    lemma_pow2_sum(host_bits, (32 - host_bits) as nat);
    assert(pow2(32) == 0x1_0000_0000) by {
        lemma_pow2_values(31);
        assert(1u32 << 31u32 == 0x8000_0000u32) by (bit_vector);
        assert(pow2(32) == 2 * pow2(31));
    }
    assert(p > 0) by {
        lemma_pow2_positive(host_bits);
    }
    vstd::arithmetic::div_mod::lemma_fundamental_div_mod(base as int, p);
    assert(q < m) by (nonlinear_arith)
        requires
            p * q < p * m,
            p > 0,
    ;
    assert(p * q + p <= p * m) by (nonlinear_arith)
        requires
            q + 1 <= m,
            p > 0,
    ;
}

proof fn lemma_pow2_positive(n: nat)
    ensures
        pow2(n) > 0,
    decreases n,
{
    if n > 0 {
        lemma_pow2_positive((n - 1) as nat);
    }
}

/// Handing out a subnet takes one that was free, and changes nothing for the other ones.
pub proof fn allocate_takes_a_free_subnet(a: IpAllocatorView, i: u32)
    requires
        a.wf(),
        a.is_next(i),
    ensures
        !a.in_use(i),
        i < a.max_index,
        a.after_allocate(i).wf(),
        a.after_allocate(i).in_use(i),
        forall|j: u32| j != i ==> a.after_allocate(i).in_use(j) == a.in_use(j),
{
    if exists|j: u32| a.freed.contains(j) {
        assert(a.freed.contains(i));
    }
}

/// The addresses of two different subnets are at least four apart, so none is handed out twice.
pub proof fn subnets_do_not_overlap(a: IpAllocatorView, i: u32, j: u32)
    requires
        i < j,
    ensures
        a.guest_ip(i as int) + 2 < a.host_ip(j as int),
{
}

/// A subnet that was handed out can be given back once. After that it is free again, and giving
/// it back a second time is refused.
pub proof fn release_frees_once(a: IpAllocatorView, ip: u32, i: u32)
    requires
        a.wf(),
        a.releases(ip, i),
    ensures
        ({
            let b = a.after_release(i);
            &&& b.wf()
            &&& !b.in_use(i)
            &&& forall|j: u32| j != i ==> b.in_use(j) == a.in_use(j)
            &&& forall|j: u32| !(#[trigger] b.releases(ip, j))
        }),
{
}

/// A subnet that was just given back is handed out again before any fresh one; of several, the
/// lowest first.
pub proof fn released_subnet_is_reused_first(a: IpAllocatorView, i: u32, next: u32)
    requires
        a.wf(),
        a.in_use(i),
        a.after_release(i).is_next(next),
    ensures
        next <= i,
        next != a.next_index,
        a.freed == Set::<u32>::empty() ==> next == i,
{
    let b = a.after_release(i);
    assert(b.freed.contains(i));
    assert(b.freed.contains(next));
}

/// Handing out a subnet and giving it back frees exactly that subnet again, and it comes next as
/// before.
pub proof fn release_undoes_allocate(a: IpAllocatorView, i: u32)
    requires
        a.wf(),
        a.is_next(i),
        a.host_ip(i as int) <= u32::MAX,
    ensures
        a.after_allocate(i).releases(a.host_ip(i as int) as u32, i),
        forall|j: u32| a.after_allocate(i).after_release(i).in_use(j) == a.in_use(j),
        forall|j: u32| a.after_allocate(i).after_release(i).is_next(j) == a.is_next(j),
{
    allocate_takes_a_free_subnet(a, i);
    let b = a.after_allocate(i).after_release(i);
    assert(b.freed.contains(i));
    if exists|j: u32| a.freed.contains(j) {
        assert(a.freed.contains(i));
        assert(b.freed =~= a.freed);
    } else {
        assert forall|j: u32| #[trigger] b.freed.contains(j) implies j == i by {}
    }
}

/// The MAC address for an index: a locally administered prefix and the lower 24 bits.
pub open spec fn mac_text(index: u32) -> Seq<char> {
    "AA:FC:00:"@ + text::hex_byte((index / 65536 % 256) as nat) + ":"@ + text::hex_byte(
        (index / 256 % 256) as nat,
    ) + ":"@ + text::hex_byte((index % 256) as nat)
}

/// The MAC address for an index.
pub fn generate_mac(index: u32) -> (mac: String)
    ensures
        mac@ == mac_text(index),
{
    let mut mac = "AA:FC:00:".to_owned();
    push_hex_byte(&mut mac, (index / 65536 % 256) as u8);
    mac.append(":");
    push_hex_byte(&mut mac, (index / 256 % 256) as u8);
    mac.append(":");
    push_hex_byte(&mut mac, (index % 256) as u8);
    mac
}

proof fn lemma_hex_byte_injective(a: nat, b: nat)
    requires
        a < 256,
        b < 256,
        text::hex_byte(a) == text::hex_byte(b),
    ensures
        a == b,
{
    assert(text::hex_byte(a)[0] == text::hex_byte(b)[0]);
    assert(text::hex_byte(a)[1] == text::hex_byte(b)[1]);
}

/// Where the three encoded bytes stand in a MAC address.
proof fn lemma_mac_bytes(i: u32)
    ensures
        mac_text(i).subrange(9, 11) == text::hex_byte((i / 65536 % 256) as nat),
        mac_text(i).subrange(12, 14) == text::hex_byte((i / 256 % 256) as nat),
        mac_text(i).subrange(15, 17) == text::hex_byte((i % 256) as nat),
{
    reveal_strlit("AA:FC:00:");
    reveal_strlit(":");
    assert(mac_text(i).subrange(9, 11) =~= text::hex_byte((i / 65536 % 256) as nat));
    assert(mac_text(i).subrange(12, 14) =~= text::hex_byte((i / 256 % 256) as nat));
    assert(mac_text(i).subrange(15, 17) =~= text::hex_byte((i % 256) as nat));
}

/// The lower 24 bits are the lower three bytes.
proof fn lemma_low_bytes(i: u32, j: u32)
    by (bit_vector)
    ensures
        (i / 65536 % 256 == j / 65536 % 256 && i / 256 % 256 == j / 256 % 256 && i % 256 == j % 256)
            <==> i % 0x100_0000 == j % 0x100_0000,
{
}

/// Two indices have the same MAC address exactly when they agree in their lower 24 bits.
pub proof fn mac_is_injective_on_24_bits(i: u32, j: u32)
    ensures
        mac_text(i) == mac_text(j) <==> i % 0x100_0000 == j % 0x100_0000,
{
    lemma_low_bytes(i, j);
    if mac_text(i) == mac_text(j) {
        lemma_mac_bytes(i);
        lemma_mac_bytes(j);
        lemma_hex_byte_injective((i / 65536 % 256) as nat, (j / 65536 % 256) as nat);
        lemma_hex_byte_injective((i / 256 % 256) as nat, (j / 256 % 256) as nat);
        lemma_hex_byte_injective((i % 256) as nat, (j % 256) as nat);
    }
}

/// Whether a byte may stand in the name of a TAP device: an ASCII letter or digit, `_` or `-`.
pub open spec fn tap_byte(b: u8) -> bool {
    48 <= b <= 57 || 65 <= b <= 90 || 97 <= b <= 122 || b == 95 || b == 45
}

/// Why a text cannot be the name of a TAP device, if there is a reason.
pub open spec fn tap_name_fault(name: Seq<char>) -> Option<Seq<char>> {
    let bytes = vstd::utf8::encode_utf8(name);
    if name.len() == 0 {
        Some("name cannot be empty"@)
    } else if bytes.len() > TAP_NAME_MAX_LEN {
        Some("exceeds "@ + text::decimal(TAP_NAME_MAX_LEN as nat) + " character limit"@)
    } else if exists|i: int| 0 <= i < bytes.len() && !tap_byte(#[trigger] bytes[i]) {
        Some("contains invalid characters (only alphanumeric, underscore, hyphen allowed)"@)
    } else {
        None
    }
}

/// Checks the name of a TAP device: not empty, at most 15 bytes, only ASCII letters and digits,
/// underscores and hyphens.
pub fn validate_tap_name(name: &str) -> (r: Result<(), NetError>)
    ensures
        match r {
            Ok(_) => tap_name_fault(name@) is None,
            Err(e) => tap_name_fault(name@) matches Some(reason) && e@
                == (NetErrorView::InvalidTapName { name: name@, reason }),
        },
{
    if name.is_empty() {
        return Err(
            NetError::InvalidTapName {
                name: name.to_owned(),
                reason: "name cannot be empty".to_owned(),
            },
        );
    }
    let bytes = name.as_bytes();
    if bytes.len() > TAP_NAME_MAX_LEN {
        let mut reason = "exceeds ".to_owned();
        reason.append(decimal_of(TAP_NAME_MAX_LEN as u64).as_str());
        reason.append(" character limit");
        return Err(NetError::InvalidTapName { name: name.to_owned(), reason });
    }
    let mut i: usize = 0;
    while i < bytes.len()
        invariant
            i <= bytes.len(),
            bytes@ == name.spec_bytes(),
            name@.len() > 0,
            bytes@.len() <= TAP_NAME_MAX_LEN,
            forall|k: int| 0 <= k < i ==> tap_byte(#[trigger] bytes@[k]),
        decreases bytes.len() - i,
    {
        let b = bytes[i];
        if !((48 <= b && b <= 57) || (65 <= b && b <= 90) || (97 <= b && b <= 122) || b == 95 || b
            == 45) {
            assert(!tap_byte(bytes@[i as int]));
            return Err(
                NetError::InvalidTapName {
                    name: name.to_owned(),
                    reason:
                        "contains invalid characters (only alphanumeric, underscore, hyphen allowed)".to_owned(),
                },
            );
        }
        i = i + 1;
    }
    Ok(())
}

/// A command to run on the host.
#[derive(Debug)]
pub struct Command {
    pub program: String,
    pub args: Vec<String>,
}

/// A command, with its texts as characters.
pub struct CommandView {
    pub program: Seq<char>,
    pub args: Seq<Seq<char>>,
}

impl View for Command {
    type V = CommandView;

    open spec fn view(&self) -> CommandView {
        CommandView { program: self.program@, args: text::texts(self.args@) }
    }
}

/// A command of a plan. Where a command that is not required fails, the plan goes on.
#[derive(Debug)]
pub struct PlannedCommand {
    pub command: Command,
    pub required: bool,
}

/// A planned command, with its texts as characters.
pub struct PlannedCommandView {
    pub command: CommandView,
    pub required: bool,
}

impl View for PlannedCommand {
    type V = PlannedCommandView;

    open spec fn view(&self) -> PlannedCommandView {
        PlannedCommandView { command: self.command@, required: self.required }
    }
}

/// The commands of a plan, in order.
pub open spec fn plan_of(plan: Seq<PlannedCommand>) -> Seq<PlannedCommandView> {
    plan.map_values(|c: PlannedCommand| c@)
}

/// The command `ip` with the given arguments, which has to succeed.
pub open spec fn ip_command(args: Seq<Seq<char>>) -> PlannedCommandView {
    PlannedCommandView { command: CommandView { program: "ip"@, args }, required: true }
}

/// The command `nft` with the given arguments.
pub open spec fn nft_command(args: Seq<Seq<char>>, required: bool) -> PlannedCommandView {
    PlannedCommandView { command: CommandView { program: "nft"@, args }, required }
}

fn planned(program: &str, args: &[&str], required: bool) -> (c: PlannedCommand)
    ensures
        c@.command.program == program@,
        c@.command.args == args@.map_values(|s: &str| s@),
        c@.required == required,
{
    PlannedCommand {
        command: Command { program: program.to_owned(), args: owned_texts(args) },
        required,
    }
}

/// The command as one line: the program and its arguments with spaces between them.
pub open spec fn line_of(c: CommandView) -> Seq<char> {
    c.program + " "@ + text::join(c.args, " "@)
}

/// The command as one line.
pub fn command_line(c: &Command) -> (s: String)
    ensures
        s@ == line_of(c@),
{
    let mut s = c.program.clone();
    s.append(" ");
    s.append(join_texts(c.args.as_slice(), " ").as_str());
    s
}

/// What a command that has ended comes to, given what it printed: its output, or an error in the
/// words that it failed with.
pub fn command_result(c: &Command, success: bool, stdout: String, stderr: String) -> (r: Result<
    String,
    NetError,
>)
    ensures
        match r {
            Ok(out) => success && out@ == stdout@,
            Err(e) => !success && e@ == (NetErrorView::CommandFailed {
                cmd: line_of(c@),
                message: stderr@,
            }),
        },
{
    if success {
        Ok(stdout)
    } else {
        Err(NetError::CommandFailed { cmd: command_line(c), message: stderr })
    }
}

/// What became of an attempt to run a command.
pub enum CommandRun {
    /// It could not be run; in the words of the operating system.
    NotRun(String),
    /// It has ended.
    Ended { success: bool, stdout: Vec<u8>, stderr: Vec<u8> },
}

/// What a command comes to that was run.
pub open spec fn run_value(c: CommandView, run: CommandRun) -> Result<Seq<char>, NetErrorView> {
    match run {
        CommandRun::NotRun(m) => Err(NetErrorView::Io(m@)),
        CommandRun::Ended { success, stdout, stderr } => if success {
            Ok(text::lossy_text(stdout@))
        } else {
            Err(
                NetErrorView::CommandFailed {
                    cmd: line_of(c),
                    message: text::lossy_text(stderr@),
                },
            )
        },
    }
}

/// What a command comes to that was run: its output, or why there is none.
pub fn run_cmd(c: &Command, run: CommandRun) -> (r: Result<String, NetError>)
    ensures
        match r {
            Ok(out) => run_value(c@, run) == Ok::<Seq<char>, NetErrorView>(out@),
            Err(e) => run_value(c@, run) == Err::<Seq<char>, NetErrorView>(e@),
        },
{
    match run {
        CommandRun::NotRun(m) => Err(NetError::Io(m)),
        CommandRun::Ended { success, stdout, stderr } => command_result(
            c,
            success,
            text_of_bytes(stdout.as_slice()),
            text_of_bytes(stderr.as_slice()),
        ),
    }
}

/// What becomes of a plan after one of its commands was run: `Some` error stops it. A command
/// that was not required never stops it.
pub fn command_outcome(c: &PlannedCommand, run: CommandRun) -> (r: Option<NetError>)
    ensures
        match r {
            None => !c.required || run_value(c.command@, run) is Ok,
            Some(e) => c.required && run_value(c.command@, run) == Err::<Seq<char>, NetErrorView>(
                e@,
            ),
        },
{
    match run_cmd(&c.command, run) {
        Ok(_) => None,
        Err(e) => if c.required {
            Some(e)
        } else {
            None
        },
    }
}

/// The plan that makes a TAP device, gives it the host's address and brings it up.
pub open spec fn create_tap_plan(name: Seq<char>, host_ip: u32) -> Seq<PlannedCommandView> {
    seq![
        ip_command(seq!["tuntap"@, "add"@, "dev"@, name, "mode"@, "tap"@]),
        ip_command(seq!["addr"@, "add"@, ip::ip_text(host_ip) + "/30"@, "dev"@, name]),
        ip_command(seq!["link"@, "set"@, "dev"@, name, "up"@]),
    ]
}

/// Plans the creation of a TAP device. A name that cannot be an interface name is refused.
pub fn create_tap(name: &str, host_ip: u32) -> (r: Result<Vec<PlannedCommand>, NetError>)
    ensures
        match r {
            Ok(plan) => tap_name_fault(name@) is None && plan_of(plan@) == create_tap_plan(
                name@,
                host_ip,
            ),
            Err(e) => tap_name_fault(name@) matches Some(reason) && e@
                == (NetErrorView::InvalidTapName { name: name@, reason }),
        },
{
    match validate_tap_name(name) {
        Ok(_) => {},
        Err(e) => return Err(e),
    }
    let mut address = format_ip(host_ip);
    address.append("/30");
    let mut plan: Vec<PlannedCommand> = Vec::new();
    plan.push(planned("ip", &["tuntap", "add", "dev", name, "mode", "tap"], true));
    plan.push(planned("ip", &["addr", "add", address.as_str(), "dev", name], true));
    plan.push(planned("ip", &["link", "set", "dev", name, "up"], true));
    proof {
        let want = create_tap_plan(name@, host_ip);
        assert(plan@[0]@.command.args =~= want[0].command.args);
        assert(plan@[1]@.command.args =~= want[1].command.args);
        assert(plan@[2]@.command.args =~= want[2].command.args);
        assert(plan_of(plan@) =~= want);
    }
    Ok(plan)
}

/// The plan that removes a TAP device.
pub open spec fn delete_tap_plan(name: Seq<char>) -> Seq<PlannedCommandView> {
    seq![ip_command(seq!["tuntap"@, "del"@, "dev"@, name, "mode"@, "tap"@])]
}

/// Plans the removal of a TAP device.
pub fn delete_tap(name: &str) -> (plan: Vec<PlannedCommand>)
    ensures
        plan_of(plan@) == delete_tap_plan(name@),
{
    let mut plan: Vec<PlannedCommand> = Vec::new();
    plan.push(planned("ip", &["tuntap", "del", "dev", name, "mode", "tap"], true));
    proof {
        assert(plan@[0]@.command.args =~= delete_tap_plan(name@)[0].command.args);
        assert(plan_of(plan@) =~= delete_tap_plan(name@));
    }
    plan
}

/// The plan that sets up the nftables table with its three chains. A table that is left from
/// before is removed first; that there is none is no failure.
pub open spec fn init_nat_plan() -> Seq<PlannedCommandView> {
    seq![
        nft_command(seq!["delete"@, "table"@, "ip"@, "husk"@], false),
        nft_command(seq!["add"@, "table"@, "ip"@, "husk"@], true),
        nft_command(
            seq![
                "add"@,
                "chain"@,
                "ip"@,
                "husk"@,
                "postrouting"@,
                "{ type nat hook postrouting priority srcnat; policy accept; }"@,
            ],
            true,
        ),
        nft_command(
            seq![
                "add"@,
                "chain"@,
                "ip"@,
                "husk"@,
                "forward"@,
                "{ type filter hook forward priority filter; policy accept; }"@,
            ],
            true,
        ),
        nft_command(
            seq![
                "add"@,
                "chain"@,
                "ip"@,
                "husk"@,
                "prerouting"@,
                "{ type nat hook prerouting priority dstnat; policy accept; }"@,
            ],
            true,
        ),
    ]
}

/// Plans the set-up of the nftables table.
pub fn init_nat() -> (plan: Vec<PlannedCommand>)
    ensures
        plan_of(plan@) == init_nat_plan(),
{
    let mut plan: Vec<PlannedCommand> = Vec::new();
    plan.push(planned("nft", &["delete", "table", "ip", "husk"], false));
    plan.push(planned("nft", &["add", "table", "ip", "husk"], true));
    plan.push(
        planned(
            "nft",
            &[
                "add",
                "chain",
                "ip",
                "husk",
                "postrouting",
                "{ type nat hook postrouting priority srcnat; policy accept; }",
            ],
            true,
        ),
    );
    plan.push(
        planned(
            "nft",
            &[
                "add",
                "chain",
                "ip",
                "husk",
                "forward",
                "{ type filter hook forward priority filter; policy accept; }",
            ],
            true,
        ),
    );
    plan.push(
        planned(
            "nft",
            &[
                "add",
                "chain",
                "ip",
                "husk",
                "prerouting",
                "{ type nat hook prerouting priority dstnat; policy accept; }",
            ],
            true,
        ),
    );
    proof {
        let want = init_nat_plan();
        assert(plan@[0]@.command.args =~= want[0].command.args);
        assert(plan@[1]@.command.args =~= want[1].command.args);
        assert(plan@[2]@.command.args =~= want[2].command.args);
        assert(plan@[3]@.command.args =~= want[3].command.args);
        assert(plan@[4]@.command.args =~= want[4].command.args);
        assert(plan_of(plan@) =~= want);
    }
    plan
}

/// The comment that marks the NAT rules of a VM.
pub open spec fn nat_tag(tap_name: Seq<char>) -> Seq<char> {
    "husk:"@ + tap_name
}

/// The comment that marks the rules of one port forward.
pub open spec fn forward_tag(tap_name: Seq<char>, host_port: u16) -> Seq<char> {
    "husk-pf:"@ + tap_name + ":"@ + text::decimal(host_port as nat)
}

/// What the comments of all port forwards of a VM begin with.
pub open spec fn forward_tag_prefix(tap_name: Seq<char>) -> Seq<char> {
    "husk-pf:"@ + tap_name + ":"@
}

/// A comment as an argument of `nft`, in quotation marks.
pub open spec fn quoted(tag: Seq<char>) -> Seq<char> {
    "\""@ + tag + "\""@
}

fn nat_tag_of(tap_name: &str) -> (s: String)
    ensures
        s@ == nat_tag(tap_name@),
{
    let mut s = "husk:".to_owned();
    s.append(tap_name);
    s
}

/// The comment that marks the rules of one port forward.
pub fn forward_tag_of(tap_name: &str, host_port: u16) -> (s: String)
    ensures
        s@ == forward_tag(tap_name@, host_port),
{
    let mut s = forward_tag_prefix_of(tap_name);
    s.append(decimal_of(host_port as u64).as_str());
    s
}

fn forward_tag_prefix_of(tap_name: &str) -> (s: String)
    ensures
        s@ == forward_tag_prefix(tap_name@),
{
    let mut s = "husk-pf:".to_owned();
    s.append(tap_name);
    s.append(":");
    s
}

fn quote(tag: &str) -> (s: String)
    ensures
        s@ == quoted(tag@),
{
    let mut s = "\"".to_owned();
    s.append(tag);
    s.append("\"");
    s
}

/// The plan that lets a VM reach the outside: masquerade what leaves its subnet, and forward
/// from and to its TAP device.
pub open spec fn add_vm_nat_plan(
    tap_name: Seq<char>,
    host_ip: u32,
    host_interface: Seq<char>,
) -> Seq<PlannedCommandView> {
    let comment = quoted(nat_tag(tap_name));
    seq![
        nft_command(
            seq![
                "add"@,
                "rule"@,
                "ip"@,
                "husk"@,
                "postrouting"@,
                "ip"@,
                "saddr"@,
                ip::ip_text((host_ip - 1) as u32) + "/30"@,
                "oifname"@,
                host_interface,
                "masquerade"@,
                "comment"@,
                comment,
            ],
            true,
        ),
        nft_command(
            seq![
                "add"@,
                "rule"@,
                "ip"@,
                "husk"@,
                "forward"@,
                "iifname"@,
                tap_name,
                "accept"@,
                "comment"@,
                comment,
            ],
            true,
        ),
        nft_command(
            seq![
                "add"@,
                "rule"@,
                "ip"@,
                "husk"@,
                "forward"@,
                "oifname"@,
                tap_name,
                "accept"@,
                "comment"@,
                comment,
            ],
            true,
        ),
    ]
}

/// Plans the NAT rules for a VM. The host's address is the one after the base of its subnet.
pub fn add_vm_nat(tap_name: &str, host_ip: u32, host_interface: &str) -> (plan: Vec<PlannedCommand>)
    requires
        host_ip >= 1,
    ensures
        plan_of(plan@) == add_vm_nat_plan(tap_name@, host_ip, host_interface@),
        ({
            let rule = plan_of(plan@)[0].command.args;
            &&& plan@.len() == 3
            &&& text::argument(rule, "saddr"@) matches Some(s) && traffic::cidr_value(s) == Some(
                ((host_ip - 1) as u32, 30nat),
            )
            &&& text::argument(rule, "oifname"@) == Some(host_interface@)
        }),
{
    let mut subnet = format_ip(host_ip - 1);
    subnet.append("/30");
    let tag = nat_tag_of(tap_name);
    let comment = quote(tag.as_str());
    let mut plan: Vec<PlannedCommand> = Vec::new();
    plan.push(
        planned(
            "nft",
            &[
                "add",
                "rule",
                "ip",
                "husk",
                "postrouting",
                "ip",
                "saddr",
                subnet.as_str(),
                "oifname",
                host_interface,
                "masquerade",
                "comment",
                comment.as_str(),
            ],
            true,
        ),
    );
    plan.push(
        planned(
            "nft",
            &[
                "add",
                "rule",
                "ip",
                "husk",
                "forward",
                "iifname",
                tap_name,
                "accept",
                "comment",
                comment.as_str(),
            ],
            true,
        ),
    );
    plan.push(
        planned(
            "nft",
            &[
                "add",
                "rule",
                "ip",
                "husk",
                "forward",
                "oifname",
                tap_name,
                "accept",
                "comment",
                comment.as_str(),
            ],
            true,
        ),
    );
    proof {
        let want = add_vm_nat_plan(tap_name@, host_ip, host_interface@);
        traffic::rules_name_the_subnet(tap_name@, host_ip, host_interface@);
        assert(plan@[0]@.command.args =~= want[0].command.args);
        assert(plan@[1]@.command.args =~= want[1].command.args);
        assert(plan@[2]@.command.args =~= want[2].command.args);
        assert(plan_of(plan@) =~= want);
    }
    plan
}

/// The plan that forwards a port of the host to a port of a guest: rewrite the destination, and
/// let the traffic through to the guest.
pub open spec fn add_port_forward_plan(
    host_port: u16,
    guest_ip: u32,
    guest_port: u16,
    tap_name: Seq<char>,
) -> Seq<PlannedCommandView> {
    let comment = quoted(forward_tag(tap_name, host_port));
    seq![
        nft_command(
            seq![
                "add"@,
                "rule"@,
                "ip"@,
                "husk"@,
                "prerouting"@,
                "tcp"@,
                "dport"@,
                text::decimal(host_port as nat),
                "dnat"@,
                "to"@,
                ip::ip_text(guest_ip) + ":"@ + text::decimal(guest_port as nat),
                "comment"@,
                comment,
            ],
            true,
        ),
        nft_command(
            seq![
                "add"@,
                "rule"@,
                "ip"@,
                "husk"@,
                "forward"@,
                "ip"@,
                "daddr"@,
                ip::ip_text(guest_ip),
                "tcp"@,
                "dport"@,
                text::decimal(guest_port as nat),
                "accept"@,
                "comment"@,
                comment,
            ],
            true,
        ),
    ]
}

/// Plans a port forward from `host_port` of the host to `guest_port` of the guest.
pub fn add_port_forward(host_port: u16, guest_ip: u32, guest_port: u16, tap_name: &str) -> (plan:
    Vec<PlannedCommand>)
    ensures
        plan_of(plan@) == add_port_forward_plan(host_port, guest_ip, guest_port, tap_name@),
        ({
            let dnat = plan_of(plan@)[0].command.args;
            let accept = plan_of(plan@)[1].command.args;
            &&& plan@.len() == 2
            &&& text::argument(dnat, "dport"@) matches Some(port) && text::uint_value(
                port,
                10,
                65535,
            ) == Ok::<nat, IntFault>(host_port as nat)
            &&& text::argument(dnat, "to"@) matches Some(target) && traffic::endpoint_value(target)
                == Some((guest_ip, guest_port))
            &&& text::argument(accept, "daddr"@) matches Some(address) && ip::ip_value(address)
                == Some(guest_ip)
            &&& text::argument(accept, "dport"@) matches Some(port) && text::uint_value(
                port,
                10,
                65535,
            ) == Ok::<nat, IntFault>(guest_port as nat)
        }),
{
    let tag = forward_tag_of(tap_name, host_port);
    let comment = quote(tag.as_str());
    let guest = format_ip(guest_ip);
    let guest_port_text = decimal_of(guest_port as u64);
    let host_port_text = decimal_of(host_port as u64);
    let mut target = format_ip(guest_ip);
    target.append(":");
    target.append(guest_port_text.as_str());
    let mut plan: Vec<PlannedCommand> = Vec::new();
    plan.push(
        planned(
            "nft",
            &[
                "add",
                "rule",
                "ip",
                "husk",
                "prerouting",
                "tcp",
                "dport",
                host_port_text.as_str(),
                "dnat",
                "to",
                target.as_str(),
                "comment",
                comment.as_str(),
            ],
            true,
        ),
    );
    plan.push(
        planned(
            "nft",
            &[
                "add",
                "rule",
                "ip",
                "husk",
                "forward",
                "ip",
                "daddr",
                guest.as_str(),
                "tcp",
                "dport",
                guest_port_text.as_str(),
                "accept",
                "comment",
                comment.as_str(),
            ],
            true,
        ),
    );
    proof {
        let want = add_port_forward_plan(host_port, guest_ip, guest_port, tap_name@);
        assert(plan@[0]@.command.args =~= want[0].command.args);
        assert(plan@[1]@.command.args =~= want[1].command.args);
        assert(plan_of(plan@) =~= want);
        traffic::forward_reaches_the_guest(host_port, guest_ip, guest_port, tap_name@);
    }
    plan
}

/// The command that lists the table with the handles of its rules, as JSON.
pub open spec fn list_rules_command() -> PlannedCommandView {
    nft_command(seq!["-j"@, "list"@, "table"@, "ip"@, "husk"@], true)
}

/// The command that lists the table with the handles of its rules, as JSON.
pub fn list_rules() -> (c: PlannedCommand)
    ensures
        c@ == list_rules_command(),
{
    let c = planned("nft", &["-j", "list", "table", "ip", "husk"], true);
    assert(c@.command.args =~= list_rules_command().command.args);
    c
}

/// The plan that removes the whole table.
pub open spec fn cleanup_nat_plan() -> Seq<PlannedCommandView> {
    seq![nft_command(seq!["delete"@, "table"@, "ip"@, "husk"@], true)]
}

/// Plans the removal of the whole table.
pub fn cleanup_nat() -> (plan: Vec<PlannedCommand>)
    ensures
        plan_of(plan@) == cleanup_nat_plan(),
{
    let mut plan: Vec<PlannedCommand> = Vec::new();
    plan.push(planned("nft", &["delete", "table", "ip", "husk"], true));
    proof {
        assert(plan@[0]@.command.args =~= cleanup_nat_plan()[0].command.args);
        assert(plan_of(plan@) =~= cleanup_nat_plan());
    }
    plan
}

/// Which comments are looked for: one comment, or all that begin alike.
#[derive(Debug, Clone, Copy, PartialEq, Eq, Structural)]
pub enum TagMatch {
    Whole,
    Prefix,
}

/// Whether a comment is looked for.
pub open spec fn tag_matches(comment: Seq<char>, tag: Seq<char>, how: TagMatch) -> bool {
    match how {
        TagMatch::Whole => comment == tag,
        TagMatch::Prefix => text::starts_with(comment, tag),
    }
}

/// The chain and the handle of a listed entry, if it is a rule whose comment is looked for and
/// which can be named: its chain has a name, and its handle is not zero.
pub open spec fn rule_in(entry: JsonView, tag: Seq<char>, how: TagMatch) -> Option<
    (Seq<char>, u64),
> {
    match entry.member("rule"@) {
        None => None,
        Some(rule) => match (
            rule.text_member("comment"@),
            rule.text_member("chain"@),
            rule.uint_member("handle"@),
        ) {
            (Some(comment), Some(chain), Some(handle)) => if tag_matches(comment, tag, how)
                && chain.len() > 0 && handle > 0 {
                Some((chain, handle))
            } else {
                None
            },
            _ => None,
        },
    }
}

/// The rules among the listed entries whose comment is looked for, in the order of the list.
pub open spec fn rules_in(entries: Seq<JsonView>, tag: Seq<char>, how: TagMatch) -> Seq<
    (Seq<char>, u64),
>
    decreases entries.len(),
{
    if entries.len() == 0 {
        seq![]
    } else {
        let before = rules_in(entries.drop_last(), tag, how);
        match rule_in(entries.last(), tag, how) {
            Some(rule) => before.push(rule),
            None => before,
        }
    }
}

/// The rules of a listing whose comment is looked for.
pub open spec fn listed_rules(listing: JsonView, tag: Seq<char>, how: TagMatch) -> Seq<
    (Seq<char>, u64),
> {
    match listing.member("nftables"@) {
        Some(JsonView::Array(entries)) => rules_in(entries, tag, how),
        _ => seq![],
    }
}

/// The rules of a listing as text; none where the text is no JSON.
pub open spec fn rules_in_text(nft_json: Seq<char>, tag: Seq<char>, how: TagMatch) -> Seq<
    (Seq<char>, u64),
> {
    match json::json_in(nft_json) {
        Some(listing) => listed_rules(listing, tag, how),
        None => seq![],
    }
}

/// Chains and handles, with the chains' names as characters.
pub open spec fn rule_handles(rules: Seq<(String, u64)>) -> Seq<(Seq<char>, u64)> {
    rules.map_values(|r: (String, u64)| (r.0@, r.1))
}

fn read_rule(entry: &Json, tag: &str, how: TagMatch) -> (r: Option<(String, u64)>)
    ensures
        match r {
            Some(rule) => rule_in(entry@, tag@, how) == Some((rule.0@, rule.1)),
            None => rule_in(entry@, tag@, how) is None,
        },
{
    let rule = match entry.member("rule") {
        Some(rule) => rule,
        None => return None,
    };
    let comment = match rule.text_member("comment") {
        Some(comment) => comment,
        None => return None,
    };
    let wanted = match how {
        TagMatch::Whole => same_text(comment.as_str(), tag),
        TagMatch::Prefix => has_prefix(comment.as_str(), tag),
    };
    if !wanted {
        return None;
    }
    match (rule.text_member("chain"), rule.uint_member("handle")) {
        (Some(chain), Some(handle)) => {
            if !chain.as_str().is_empty() && handle > 0 {
                Some((chain.clone(), handle))
            } else {
                None
            }
        },
        _ => None,
    }
}

/// The rules of a listing whose comment is looked for: the chain and the handle of each.
pub fn find_rules(listing: &Json, tag: &str, how: TagMatch) -> (rules: Vec<(String, u64)>)
    ensures
        rule_handles(rules@) == listed_rules(listing@, tag@, how),
{
    let mut rules: Vec<(String, u64)> = Vec::new();
    if let Some(Json::Array(entries)) = listing.member("nftables") {
        let ghost model = listing@.member("nftables"@)->0->Array_0;
        let mut i: usize = 0;
        proof {
            assert(model.take(0) =~= seq![]);
            assert(rule_handles(rules@) =~= seq![]);
        }
        while i < entries.len()
            invariant
                i <= entries.len(),
                listing@.member("nftables"@) == Some(JsonView::Array(model)),
                model.len() == entries@.len(),
                forall|k: int| 0 <= k < model.len() ==> #[trigger] model[k] == entries@[k]@,
                rule_handles(rules@) == rules_in(model.take(i as int), tag@, how),
            decreases entries.len() - i,
        {
            let ghost before = rule_handles(rules@);
            proof {
                assert(model.take(i + 1).drop_last() =~= model.take(i as int));
                assert(model.take(i + 1).last() == entries@[i as int]@);
            }
            if let Some(rule) = read_rule(&entries[i], tag, how) {
                rules.push(rule);
                proof {
                    assert(rule_handles(rules@) =~= before.push((rule.0@, rule.1)));
                }
            }
            i = i + 1;
        }
        proof {
            assert(model.take(i as int) =~= model);
        }
    }
    proof {
        assert(rules@.len() == 0 ==> rule_handles(rules@) =~= seq![]);
    }
    rules
}

/// The rules in the JSON output of `nft` whose comment is the given one.
pub fn find_rules_by_comment(nft_json: &str, comment_tag: &str) -> (rules: Vec<(String, u64)>)
    ensures
        rule_handles(rules@) == rules_in_text(nft_json@, comment_tag@, TagMatch::Whole),
{
    match parse(nft_json) {
        Some(listing) => find_rules(&listing, comment_tag, TagMatch::Whole),
        None => {
            let rules: Vec<(String, u64)> = Vec::new();
            assert(rule_handles(rules@) =~= seq![]);
            rules
        },
    }
}

/// The rules in the JSON output of `nft` whose comment begins with the given text.
pub fn find_rules_by_comment_prefix(nft_json: &str, prefix: &str) -> (rules: Vec<(String, u64)>)
    ensures
        rule_handles(rules@) == rules_in_text(nft_json@, prefix@, TagMatch::Prefix),
{
    match parse(nft_json) {
        Some(listing) => find_rules(&listing, prefix, TagMatch::Prefix),
        None => {
            let rules: Vec<(String, u64)> = Vec::new();
            assert(rule_handles(rules@) =~= seq![]);
            rules
        },
    }
}

/// The command that deletes one rule. That it is gone already is no failure.
pub open spec fn delete_rule_command(rule: (Seq<char>, u64)) -> PlannedCommandView {
    nft_command(
        seq!["delete"@, "rule"@, "ip"@, "husk"@, rule.0, "handle"@, text::decimal(rule.1 as nat)],
        false,
    )
}

/// The plan that deletes the given rules, in order.
pub open spec fn delete_rules_plan(rules: Seq<(Seq<char>, u64)>) -> Seq<PlannedCommandView> {
    rules.map_values(|r: (Seq<char>, u64)| delete_rule_command(r))
}

/// Plans the deletion of the given rules, in order.
pub fn delete_rules(rules: &[(String, u64)]) -> (plan: Vec<PlannedCommand>)
    ensures
        plan_of(plan@) == delete_rules_plan(rule_handles(rules@)),
{
    let mut plan: Vec<PlannedCommand> = Vec::new();
    let mut i: usize = 0;
    while i < rules.len()
        invariant
            i <= rules.len(),
            plan@.len() == i,
            forall|k: int|
                0 <= k < i ==> (#[trigger] plan@[k])@ == delete_rule_command(
                    (rules@[k].0@, rules@[k].1),
                ),
        decreases rules.len() - i,
    {
        let handle = decimal_of(rules[i].1);
        let c = planned(
            "nft",
            &["delete", "rule", "ip", "husk", rules[i].0.as_str(), "handle", handle.as_str()],
            false,
        );
        proof {
            let want = delete_rule_command((rules@[i as int].0@, rules@[i as int].1));
            assert(c@.command.args =~= want.command.args);
        }
        plan.push(c);
        i = i + 1;
    }
    assert(plan_of(plan@) =~= delete_rules_plan(rule_handles(rules@)));
    plan
}

/// The plan that removes all rules of a VM, given the listing of the table: those of its port
/// forwards, then its NAT and forwarding rules. Nothing to do where the table could not be listed.
pub open spec fn remove_vm_nat_plan(tap_name: Seq<char>, listing: Option<Seq<char>>) -> Seq<
    PlannedCommandView,
> {
    match listing {
        Some(text) => delete_rules_plan(
            rules_in_text(text, forward_tag_prefix(tap_name), TagMatch::Prefix),
        ) + delete_rules_plan(rules_in_text(text, nat_tag(tap_name), TagMatch::Whole)),
        None => seq![],
    }
}

/// The characters of a listing.
pub open spec fn listing_text(listing: Option<&str>) -> Option<Seq<char>> {
    match listing {
        Some(text) => Some(text@),
        None => None,
    }
}

/// Plans the removal of all NAT and forwarding rules of a VM, given the listing of the table. The
/// rules of its port forwards are removed too.
pub fn remove_vm_nat(tap_name: &str, listing: Option<&str>) -> (plan: Vec<PlannedCommand>)
    ensures
        plan_of(plan@) == remove_vm_nat_plan(tap_name@, listing_text(listing)),
{
    let mut plan = remove_all_port_forwards(tap_name, listing);
    if let Some(text) = listing {
        let ghost before = plan_of(plan@);
        let tag = nat_tag_of(tap_name);
        let rules = find_rules_by_comment(text, tag.as_str());
        let mut more = delete_rules(rules.as_slice());
        let ghost added = plan_of(more@);
        plan.append(&mut more);
        assert(plan_of(plan@) =~= before + added);
    }
    plan
}

/// The plan that removes the network of a VM: all its rules, then its TAP device.
pub open spec fn remove_network_plan(tap_name: Seq<char>, listing: Option<Seq<char>>) -> Seq<
    PlannedCommandView,
> {
    remove_vm_nat_plan(tap_name, listing) + delete_tap_plan(tap_name)
}

/// Plans the removal of the network of a VM, given the listing of the table.
pub fn remove_network(tap_name: &str, listing: Option<&str>) -> (plan: Vec<PlannedCommand>)
    ensures
        plan_of(plan@) == remove_network_plan(tap_name@, listing_text(listing)),
{
    let mut plan = remove_vm_nat(tap_name, listing);
    let ghost before = plan_of(plan@);
    let mut more = delete_tap(tap_name);
    let ghost added = plan_of(more@);
    plan.append(&mut more);
    assert(plan_of(plan@) =~= before + added);
    plan
}

/// The plan that removes the rules of one port forward, given the listing of the table.
pub open spec fn remove_port_forward_plan(
    host_port: u16,
    tap_name: Seq<char>,
    listing: Option<Seq<char>>,
) -> Seq<PlannedCommandView> {
    match listing {
        Some(text) => delete_rules_plan(
            rules_in_text(text, forward_tag(tap_name, host_port), TagMatch::Whole),
        ),
        None => seq![],
    }
}

/// Plans the removal of one port forward, given the listing of the table.
pub fn remove_port_forward(host_port: u16, tap_name: &str, listing: Option<&str>) -> (plan: Vec<
    PlannedCommand,
>)
    ensures
        plan_of(plan@) == (match listing {
            Some(text) => delete_rules_plan(
                rules_in_text(text@, forward_tag(tap_name@, host_port), TagMatch::Whole),
            ),
            None => seq![],
        }),
        plan_of(plan@) == remove_port_forward_plan(host_port, tap_name@, listing_text(listing)),
{
    match listing {
        Some(text) => {
            let tag = forward_tag_of(tap_name, host_port);
            let rules = find_rules_by_comment(text, tag.as_str());
            delete_rules(rules.as_slice())
        },
        None => {
            let plan: Vec<PlannedCommand> = Vec::new();
            assert(plan_of(plan@) =~= seq![]);
            plan
        },
    }
}

/// Plans the removal of all port forwards of a VM, given the listing of the table.
pub fn remove_all_port_forwards(tap_name: &str, listing: Option<&str>) -> (plan: Vec<
    PlannedCommand,
>)
    ensures
        plan_of(plan@) == (match listing {
            Some(text) => delete_rules_plan(
                rules_in_text(text@, forward_tag_prefix(tap_name@), TagMatch::Prefix),
            ),
            None => seq![],
        }),
{
    match listing {
        Some(text) => {
            let prefix = forward_tag_prefix_of(tap_name);
            let rules = find_rules_by_comment_prefix(text, prefix.as_str());
            delete_rules(rules.as_slice())
        },
        None => {
            let plan: Vec<PlannedCommand> = Vec::new();
            assert(plan_of(plan@) =~= seq![]);
            plan
        },
    }
}

/// The rules of every port forward of a VM are found by the prefix for the VM, so removing all
/// port forwards leaves none behind.
pub proof fn prefix_finds_every_forward(tap_name: Seq<char>, host_port: u16)
    ensures
        tag_matches(
            forward_tag(tap_name, host_port),
            forward_tag_prefix(tap_name),
            TagMatch::Prefix,
        ),
{
    let prefix = forward_tag_prefix(tap_name);
    assert(forward_tag(tap_name, host_port) =~= prefix + text::decimal(host_port as nat));
    assert(forward_tag(tap_name, host_port).take(prefix.len() as int) =~= prefix);
}

/// Port forwards of one VM on different ports have different comments, so removing one leaves the
/// other ones.
pub proof fn forward_tags_differ_by_port(tap_name: Seq<char>, p: u16, q: u16)
    requires
        p != q,
    ensures
        forward_tag(tap_name, p) != forward_tag(tap_name, q),
{
    let prefix = forward_tag_prefix(tap_name);
    crate::text::decimal_is_injective(p as nat, q as nat);
    assert(forward_tag(tap_name, p) =~= prefix + text::decimal(p as nat));
    assert(forward_tag(tap_name, q) =~= prefix + text::decimal(q as nat));
    assert(forward_tag(tap_name, p).skip(prefix.len() as int) =~= text::decimal(p as nat));
    assert(forward_tag(tap_name, q).skip(prefix.len() as int) =~= text::decimal(q as nat));
}

/// The prefix for a VM finds no port forward of another VM: a name with which a TAP device can
/// be made holds no colon.
pub proof fn prefix_finds_no_other_vm(a: Seq<char>, b: Seq<char>, host_port: u16)
    requires
        a != b,
        !a.contains(':'),
        !b.contains(':'),
    ensures
        !tag_matches(forward_tag(b, host_port), forward_tag_prefix(a), TagMatch::Prefix),
{
    reveal_strlit("husk-pf:");
    reveal_strlit(":");
    let prefix = forward_tag_prefix(a);
    let tag = forward_tag(b, host_port);
    if text::starts_with(tag, prefix) {
        let n = "husk-pf:"@.len() as int;
        assert forall|i: int| 0 <= i < prefix.len() implies prefix[i] == tag[i] by {
            assert(tag.take(prefix.len() as int)[i] == tag[i]);
        }
        assert(prefix[n + a.len()] == ':');
        assert(tag[n + b.len()] == ':');
        if a.len() < b.len() {
            assert(tag[n + a.len()] == b[a.len() as int]);
            assert(b.contains(b[a.len() as int]));
        } else if b.len() < a.len() {
            assert(prefix[n + b.len()] == a[b.len() as int]);
            assert(a.contains(a[b.len() as int]));
        } else {
            assert forall|i: int| 0 <= i < a.len() implies a[i] == b[i] by {
                assert(prefix[n + i] == a[i]);
                assert(tag[n + i] == b[i]);
            }
            assert(a =~= b);
        }
    }
}

/// The entries of a listing as text; none where the text is no listing.
pub open spec fn entries_in(nft_json: Seq<char>) -> Seq<JsonView> {
    match json::json_in(nft_json) {
        Some(listing) => match listing.member("nftables"@) {
            Some(JsonView::Array(entries)) => entries,
            _ => seq![],
        },
        None => seq![],
    }
}

/// Whether a listed entry is a rule of the VM with the given TAP device: a NAT or forwarding rule
/// of it, or a rule of one of its port forwards.
pub open spec fn is_rule_of(entry: JsonView, tap_name: Seq<char>, rule: (Seq<char>, u64)) -> bool {
    ||| rule_in(entry, nat_tag(tap_name), TagMatch::Whole) == Some(rule)
    ||| rule_in(entry, forward_tag_prefix(tap_name), TagMatch::Prefix) == Some(rule)
}

/// Exactly the rules whose comment is looked for are found.
pub proof fn lemma_rules_in(entries: Seq<JsonView>, tag: Seq<char>, how: TagMatch)
    ensures
        forall|k: int, rule: (Seq<char>, u64)|
            0 <= k < entries.len() && #[trigger] rule_in(entries[k], tag, how) == Some(rule)
                ==> #[trigger] rules_in(entries, tag, how).contains(rule),
        forall|rule: (Seq<char>, u64)| #[trigger]
            rules_in(entries, tag, how).contains(rule) ==> exists|k: int|
                0 <= k < entries.len() && #[trigger] rule_in(entries[k], tag, how) == Some(rule),
    decreases entries.len(),
{
    if entries.len() > 0 {
        let init = entries.drop_last();
        let before = rules_in(init, tag, how);
        let all = rules_in(entries, tag, how);
        lemma_rules_in(init, tag, how);
        assert forall|k: int, rule: (Seq<char>, u64)|
            0 <= k < entries.len() && #[trigger] rule_in(entries[k], tag, how) == Some(
                rule,
            ) implies #[trigger] all.contains(rule) by {
            if k < init.len() {
                assert(rule_in(init[k], tag, how) == Some(rule));
                assert(before.contains(rule));
                let m = choose|m: int| 0 <= m < before.len() && before[m] == rule;
                assert(all[m] == rule);
            } else {
                assert(all[before.len() as int] == rule);
            }
        }
        assert forall|rule: (Seq<char>, u64)| #[trigger] all.contains(rule) implies exists|k: int|
            0 <= k < entries.len() && #[trigger] rule_in(entries[k], tag, how) == Some(rule) by {
            let m = choose|m: int| 0 <= m < all.len() && all[m] == rule;
            if m < before.len() {
                assert(before[m] == rule);
                assert(before.contains(rule));
                let k = choose|k: int|
                    0 <= k < init.len() && #[trigger] rule_in(init[k], tag, how) == Some(rule);
                assert(rule_in(entries[k], tag, how) == Some(rule));
            } else {
                assert(rule_in(entries[entries.len() - 1], tag, how) == Some(rule));
            }
        }
    }
}

/// Removing the network of a VM leaves none of its rules: every listed rule with a tag of the VM,
/// also that of a port forward, is deleted.
pub proof fn removed_network_leaves_no_rule(
    tap_name: Seq<char>,
    listing: Seq<char>,
    entry: JsonView,
    rule: (Seq<char>, u64),
)
    requires
        entries_in(listing).contains(entry),
        is_rule_of(entry, tap_name, rule),
    ensures
        remove_network_plan(tap_name, Some(listing)).contains(delete_rule_command(rule)),
{
    let entries = entries_in(listing);
    let k = choose|k: int| 0 <= k < entries.len() && entries[k] == entry;
    let prefix = forward_tag_prefix(tap_name);
    let forwards = rules_in_text(listing, prefix, TagMatch::Prefix);
    let own = rules_in_text(listing, nat_tag(tap_name), TagMatch::Whole);
    let plan = remove_network_plan(tap_name, Some(listing));
    lemma_rules_in(entries, prefix, TagMatch::Prefix);
    lemma_rules_in(entries, nat_tag(tap_name), TagMatch::Whole);
    if rule_in(entries[k], prefix, TagMatch::Prefix) == Some(rule) {
        assert(forwards.contains(rule));
        let m = choose|m: int| 0 <= m < forwards.len() && forwards[m] == rule;
        assert(plan[m] == delete_rule_command(rule));
    } else {
        assert(rule_in(entries[k], nat_tag(tap_name), TagMatch::Whole) == Some(rule));
        assert(own.contains(rule));
        let m = choose|m: int| 0 <= m < own.len() && own[m] == rule;
        assert(plan[forwards.len() + m] == delete_rule_command(rule));
    }
}

/// Removing the network of a VM deletes no rule but its own.
pub proof fn removed_network_leaves_other_rules(
    tap_name: Seq<char>,
    listing: Seq<char>,
    command: PlannedCommandView,
)
    requires
        remove_vm_nat_plan(tap_name, Some(listing)).contains(command),
    ensures
        exists|entry: JsonView, rule: (Seq<char>, u64)|
            entries_in(listing).contains(entry) && #[trigger] is_rule_of(entry, tap_name, rule)
                && command == delete_rule_command(rule),
{
    let entries = entries_in(listing);
    let prefix = forward_tag_prefix(tap_name);
    let forwards = rules_in_text(listing, prefix, TagMatch::Prefix);
    let own = rules_in_text(listing, nat_tag(tap_name), TagMatch::Whole);
    let plan = remove_vm_nat_plan(tap_name, Some(listing));
    lemma_rules_in(entries, prefix, TagMatch::Prefix);
    lemma_rules_in(entries, nat_tag(tap_name), TagMatch::Whole);
    let m = choose|m: int| 0 <= m < plan.len() && plan[m] == command;
    if m < forwards.len() {
        let rule = forwards[m];
        assert(forwards.contains(rule));
        let k = choose|k: int|
            0 <= k < entries.len() && #[trigger] rule_in(entries[k], prefix, TagMatch::Prefix)
                == Some(rule);
        assert(entries.contains(entries[k]));
        assert(is_rule_of(entries[k], tap_name, rule));
    } else {
        let rule = own[m - forwards.len()];
        assert(own.contains(rule));
        let k = choose|k: int|
            0 <= k < entries.len() && #[trigger] rule_in(
                entries[k],
                nat_tag(tap_name),
                TagMatch::Whole,
            ) == Some(rule);
        assert(entries.contains(entries[k]));
        assert(is_rule_of(entries[k], tap_name, rule));
    }
}

/// The tag of NAT rules is no tag of a port forward: no rule is deleted on account of both.
pub proof fn nat_tag_is_no_forward_tag(a: Seq<char>, b: Seq<char>, host_port: u16)
    ensures
        nat_tag(a) != forward_tag(b, host_port),
{
    reveal_strlit("husk:");
    reveal_strlit("husk-pf:");
    assert(nat_tag(a)[4] == ':');
    assert(forward_tag(b, host_port)[4] == '-');
}

/// A colon is among the bytes of a text that holds one.
proof fn lemma_colon_in_bytes(s: Seq<char>, i: int)
    requires
        0 <= i < s.len(),
        s[i] == ':',
    ensures
        vstd::utf8::encode_utf8(s).contains(58u8),
    decreases s.len(),
{
    let first = vstd::utf8::encode_scalar(s[0] as u32);
    let rest = vstd::utf8::encode_utf8(s.drop_first());
    assert(vstd::utf8::encode_utf8(s) == first + rest);
    if i == 0 {
        assert(58u32 & 0x7f == 58u32) by (bit_vector);
        assert((first + rest)[0] == 58u8);
    } else {
        lemma_colon_in_bytes(s.drop_first(), i - 1);
        let k = choose|k: int| 0 <= k < rest.len() && rest[k] == 58u8;
        assert((first + rest)[first.len() + k] == 58u8);
    }
}

/// A name with which a TAP device can be made holds no colon, so that port forwards of two VMs
/// are never mixed up.
pub proof fn valid_tap_name_has_no_colon(name: Seq<char>)
    requires
        tap_name_fault(name) is None,
    ensures
        !name.contains(':'),
{
    if name.contains(':') {
        let i = choose|i: int| 0 <= i < name.len() && name[i] == ':';
        lemma_colon_in_bytes(name, i);
        let bytes = vstd::utf8::encode_utf8(name);
        let k = choose|k: int| 0 <= k < bytes.len() && bytes[k] == 58u8;
        assert(!tap_byte(bytes[k]));
    }
}

/// The value of a hexadecimal digit.
pub open spec fn hex_value(c: char) -> int {
    if '0' <= c <= '9' {
        c as int - 48
    } else {
        c as int - 55
    }
}

/// The byte whose two hexadecimal digits stand at position `i`.
pub open spec fn byte_at(s: Seq<char>, i: int) -> int {
    16 * hex_value(s[i]) + hex_value(s[i + 1])
}

/// The digits of a byte are read back as the byte.
proof fn lemma_byte_at(s: Seq<char>, i: int, b: nat)
    requires
        b < 256,
        0 <= i,
        i + 2 <= s.len(),
        s.subrange(i, i + 2) == text::hex_byte(b),
    ensures
        byte_at(s, i) == b,
{
    let digits = s.subrange(i, i + 2);
    assert(s[i] == digits[0] && s[i + 1] == digits[1]);
    assert(hex_value(text::hex_char(b / 16)) == b / 16);
    assert(hex_value(text::hex_char(b % 16)) == b % 16);
}

/// The lower three bytes make up the lower 24 bits.
proof fn lemma_low_bytes_sum(i: u32)
    by (bit_vector)
    ensures
        (i / 65536 % 256) * 65536 + (i / 256 % 256) * 256 + i % 256 == i % 0x100_0000,
{
}

/// A MAC address has six bytes with colons between them. It is one that belongs to no manufacturer
/// and to one device alone, and its last three bytes are the lower 24 bits of the index.
pub proof fn mac_carries_the_index(index: u32)
    ensures
        mac_text(index).len() == 17,
        mac_text(index)[2] == ':' && mac_text(index)[5] == ':' && mac_text(index)[8] == ':'
            && mac_text(index)[11] == ':' && mac_text(index)[14] == ':',
        0 <= byte_at(mac_text(index), 0) < 256,
        byte_at(mac_text(index), 0) % 4 == 2,
        byte_at(mac_text(index), 9) * 65536 + byte_at(mac_text(index), 12) * 256 + byte_at(
            mac_text(index),
            15,
        ) == index % 0x100_0000,
{
    reveal_strlit("AA:FC:00:");
    reveal_strlit(":");
    let mac = mac_text(index);
    lemma_mac_bytes(index);
    lemma_byte_at(mac, 9, (index / 65536 % 256) as nat);
    lemma_byte_at(mac, 12, (index / 256 % 256) as nat);
    lemma_byte_at(mac, 15, (index % 256) as nat);
    lemma_low_bytes_sum(index);
}

/// Whether a character may stand in the name of a device.
pub open spec fn tap_char(c: char) -> bool {
    '0' <= c <= '9' || 'a' <= c <= 'z' || 'A' <= c <= 'Z' || c == '_' || c == '-'
}

proof fn lemma_ascii_bytes(s: Seq<char>)
    requires
        forall|i: int|
            0 <= i < vstd::utf8::encode_utf8(s).len() ==> #[trigger] vstd::utf8::encode_utf8(s)[i]
                < 128,
    ensures
        vstd::utf8::is_ascii_chars(s),
    decreases s.len(),
{
    if s.len() > 0 {
        let bytes = vstd::utf8::encode_utf8(s);
        let rest = s.drop_first();
        let tail = vstd::utf8::encode_utf8(rest);
        vstd::utf8::encode_utf8_first_scalar(s);
        let first = bytes[0];
        assert(first < 128);
        assert((first & 0x7fu8) as u32 <= 127) by (bit_vector);
        assert(vstd::utf8::decode_first_scalar(bytes) <= 127);
        assert(bytes.len() == 1 + tail.len());
        assert forall|i: int| 0 <= i < tail.len() implies #[trigger] tail[i] < 128 by {
            assert(tail[i] == bytes[i + 1]);
        }
        lemma_ascii_bytes(rest);
        assert forall|i: int| 0 <= i < s.len() implies '\0' <= #[trigger] s[i] <= '\u{7f}' by {
            if i > 0 {
                assert(s[i] == rest[i - 1]);
            } else {
                vstd::utf8::char_u32_cast(s[0], s[0] as u32);
                assert(s[0] as u32 <= 127);
            }
        }
    }
}

/// A name can be that of a device exactly if it has one to fifteen characters and each of them is an
/// ASCII letter or digit, an underscore or a hyphen.
pub proof fn device_names_are_plain(name: Seq<char>)
    ensures
        tap_name_fault(name) is None <==> (1 <= name.len() <= 15 && forall|i: int|
            0 <= i < name.len() ==> tap_char(#[trigger] name[i])),
{
    let bytes = vstd::utf8::encode_utf8(name);
    if tap_name_fault(name) is None {
        assert forall|i: int| 0 <= i < bytes.len() implies #[trigger] bytes[i] < 128 by {
            assert(tap_byte(bytes[i]));
        }
        lemma_ascii_bytes(name);
        vstd::utf8::is_ascii_chars_encode_utf8(name);
        assert forall|i: int| 0 <= i < name.len() implies tap_char(#[trigger] name[i]) by {
            assert(tap_byte(bytes[i]));
            assert(name[i] as u8 == bytes[i]);
        }
    }
    if 1 <= name.len() <= 15 && forall|i: int| 0 <= i < name.len() ==> tap_char(#[trigger] name[i]) {
        assert(vstd::utf8::is_ascii_chars(name));
        vstd::utf8::is_ascii_chars_encode_utf8(name);
        assert forall|i: int| 0 <= i < bytes.len() implies tap_byte(#[trigger] bytes[i]) by {
            assert(tap_char(name[i]));
            assert(name[i] as u8 == bytes[i]);
        }
    }
}

/// An error of the network tells what it is about.
pub proof fn errors_tell_what_it_is(e: NetErrorView)
    ensures
        match e {
            NetErrorView::PoolExhausted => true,
            NetErrorView::NotAllocated(ip) => text::ends_with(e.text(), ip::ip_text(ip)),
            NetErrorView::CommandFailed { cmd, message } => text::ends_with(
                e.text(),
                cmd + ": "@ + message,
            ),
            NetErrorView::Io(m) => text::ends_with(e.text(), m),
            NetErrorView::InvalidTapName { name, reason } => text::ends_with(
                e.text(),
                "'"@ + name + "': "@ + reason,
            ),
        },
{
    match e {
        NetErrorView::PoolExhausted => {},
        NetErrorView::NotAllocated(ip) => text::lemma_ends_with(
            "address not owned by this allocator: "@,
            ip::ip_text(ip),
        ),
        NetErrorView::CommandFailed { cmd, message } => {
            text::lemma_ends_with("command failed: "@, cmd + ": "@ + message);
            assert(e.text() =~= "command failed: "@ + (cmd + ": "@ + message));
        },
        NetErrorView::Io(m) => text::lemma_ends_with("IO error: "@, m),
        NetErrorView::InvalidTapName { name, reason } => {
            reveal_strlit("invalid TAP name '");
            reveal_strlit("'");
            let end = "'"@ + name + "': "@ + reason;
            assert(e.text().skip(e.text().len() - end.len()) =~= end);
        },
    }
}

} // verus!
