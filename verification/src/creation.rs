//! What the creation of a VM amounts to: that the VM which is booted is the one that was asked
//! for, with the disk, the device and the addresses that its steps have made.
use crate::firecracker;
use crate::firecracker::FcChange;
use crate::forwards;
use crate::ip;
use crate::json::JsonView;
use crate::net;
use crate::orchestrator;
use crate::orchestrator::{CreateEvent, CreateStage, CreateStepView, Creation, UndoView, VmOp};
use crate::path;
use crate::storage;
use crate::text;
use crate::vmm::VmInfoView;
use vstd::prelude::*;
use vstd::string::*;

verus! {

/// The guest is told, in the last of the kernel's arguments, to take an address by itself: the
/// guest's address, the gateway, the network mask and the device, in the order in which the kernel
/// reads them. `None` where the last argument is no such one.
#[verifier::opaque]
pub open spec fn guest_network(args: Seq<char>) -> Option<(u32, u32, u32, Seq<char>)> {
    let word = text::split(args, ' ').last();
    let fields = text::split(word.skip(3), ':');
    if text::starts_with(word, "ip="@) && fields.len() == 7 {
        match (ip::ip_value(fields[0]), ip::ip_value(fields[2]), ip::ip_value(fields[3])) {
            (Some(guest), Some(gateway), Some(mask)) => Some((guest, gateway, mask, fields[5])),
            _ => None,
        }
    } else {
        None
    }
}

proof fn lemma_ip_plain(ip: u32)
    ensures
        !ip::ip_text(ip).contains(':'),
        !ip::ip_text(ip).contains(' '),
{
    crate::traffic::lemma_ip_chars(ip);
}

/// The fields of the address argument.
proof fn lemma_address_fields(guest: u32, host: u32)
    ensures
        text::split(
            ip::ip_text(guest) + "::"@ + ip::ip_text(host) + ":255.255.255.252::eth0:off"@,
            ':',
        ) == seq![
            ip::ip_text(guest),
            seq![],
            ip::ip_text(host),
            "255.255.255.252"@,
            seq![],
            "eth0"@,
            "off"@,
        ],
{
    reveal_strlit("::");
    reveal_strlit(":255.255.255.252::eth0:off");
    reveal_strlit("255.255.255.252");
    reveal_strlit("eth0");
    reveal_strlit("off");
    lemma_ip_plain(guest);
    lemma_ip_plain(host);
    let none: Seq<char> = seq![];
    let s0 = ip::ip_text(guest);
    let s1 = s0.push(':') + none;
    let s2 = s1.push(':') + ip::ip_text(host);
    let s3 = s2.push(':') + "255.255.255.252"@;
    let s4 = s3.push(':') + none;
    let s5 = s4.push(':') + "eth0"@;
    let s6 = s5.push(':') + "off"@;
    text::lemma_split_whole(s0, ':');
    text::lemma_split_last(s0, ':', none);
    text::lemma_split_last(s1, ':', ip::ip_text(host));
    text::lemma_split_last(s2, ':', "255.255.255.252"@);
    text::lemma_split_last(s3, ':', none);
    text::lemma_split_last(s4, ':', "eth0"@);
    text::lemma_split_last(s5, ':', "off"@);
    assert(s6 =~= ip::ip_text(guest) + "::"@ + ip::ip_text(host) + ":255.255.255.252::eth0:off"@);
    assert(text::split(s6, ':') =~= seq![
        s0,
        none,
        ip::ip_text(host),
        "255.255.255.252"@,
        none,
        "eth0"@,
        "off"@,
    ]);
}

/// The text of the network mask of a /30.
proof fn lemma_mask()
    ensures
        ip::ip_value("255.255.255.252"@) == Some(0xffff_fffcu32),
{
    reveal_strlit("255.255.255.252");
    reveal_strlit(".");
    let ip = 0xffff_fffcu32;
    assert(text::decimal(255) =~= seq!['2', '5', '5']) by {
        reveal_with_fuel(text::decimal, 4);
    }
    assert(text::decimal(252) =~= seq!['2', '5', '2']) by {
        reveal_with_fuel(text::decimal, 4);
    }
    assert(ip / 16777216 == 255 && ip / 65536 % 256 == 255 && ip / 256 % 256 == 255 && ip % 256
        == 252);
    assert(ip::ip_text(ip) =~= "255.255.255.252"@);
    ip::parse_inverts_format(ip);
}

/// A guest whose network the host brings is told its own address as its address and the host's as
/// the gateway, in a network of four addresses, on the device that Firecracker gives it.
pub proof fn guest_learns_its_address(host: u32, guest: u32)
    ensures
        guest_network(orchestrator::kernel_args_for(Some((host, guest)))) == Some(
            (guest, host, 0xffff_fffcu32, "eth0"@),
        ),
{
    reveal(guest_network);
    reveal_strlit("console=ttyS0 reboot=k panic=1 pci=off ip=");
    reveal_strlit("ip=");
    reveal_strlit("::");
    reveal_strlit(":255.255.255.252::eth0:off");
    let args = orchestrator::kernel_args_for(Some((host, guest)));
    let address = ip::ip_text(guest) + "::"@ + ip::ip_text(host) + ":255.255.255.252::eth0:off"@;
    let word = "ip="@ + address;
    let front = args.take(38);
    lemma_ip_plain(guest);
    lemma_ip_plain(host);
    assert(!address.contains(' ')) by {
        assert forall|i: int| 0 <= i < address.len() implies address[i] != ' ' by {
            let a = ip::ip_text(guest);
            let b = ip::ip_text(host);
            if i < a.len() {
                assert(a.contains(a[i]));
            } else if i >= a.len() + 2 && i < a.len() + 2 + b.len() {
                assert(b.contains(b[i - a.len() - 2]));
                assert(address[i] == b[i - a.len() - 2]);
            }
        }
    }
    assert(!word.contains(' ')) by {
        assert forall|i: int| 0 <= i < word.len() implies word[i] != ' ' by {
            if i >= 3 {
                assert(word[i] == address[i - 3]);
                assert(address.contains(address[i - 3]));
            }
        }
    }
    assert(args =~= front.push(' ') + word);
    text::lemma_split_last(front, ' ', word);
    assert(word.take(3) =~= "ip="@);
    assert(word.skip(3) =~= address);
    lemma_address_fields(guest, host);
    lemma_mask();
    ip::parse_inverts_format(guest);
    ip::parse_inverts_format(host);
}

/// The VM that is booted is the one that was asked for: its name, its vCPUs and its memory, its
/// kernel, and, with a network of the host, a guest that knows its addresses. Where nothing is said
/// of them it has one vCPU and 128 MiB. Its disk is the copy that was made for it of the disk that
/// was asked for.
pub proof fn booted_vm_is_the_requested_one(c: Creation, data_dir: Seq<char>)
    ensures
        ({
            let config = c.config(data_dir);
            &&& config.name == c.request.name@
            &&& c.request.vcpu_count matches Some(n) ==> config.vcpu_count == n
            &&& c.request.mem_size_mib matches Some(n) ==> config.mem_size_mib == n
            &&& c.request.vcpu_count is None ==> config.vcpu_count == 1
            &&& c.request.mem_size_mib is None ==> config.mem_size_mib == 128
            &&& config.kernel_path == c.request.kernel_path@
            &&& config.initrd_path == text::opt_text(c.initrd_path)
            &&& config.vsock_cid == c.cid
            &&& orchestrator::copy_step(c, data_dir) == (CreateStepView::Copy {
                source: c.request.rootfs_path@,
                dest: config.rootfs_path,
            })
            &&& c.ips matches Some((host, guest)) ==> (config.kernel_args matches Some(args)
                && guest_network(args) == Some((guest, host, 0xffff_fffcu32, "eth0"@)))
            &&& c.ips is Some <==> config.tap_device is Some
            &&& c.ips is Some <==> config.guest_mac is Some
        }),
{
    if let Some((host, guest)) = c.ips {
        guest_learns_its_address(host, guest);
    }
}

/// One TAP device serves a VM throughout: the one that is made first is the one whose traffic is
/// let through, that the monitor attaches, that is recorded, and that is removed again. The device
/// has the host's address, and the record holds the addresses that were allocated.
pub proof fn one_device_serves_the_vm(
    c: Creation,
    data_dir: Seq<char>,
    host_interface: Seq<char>,
    info: VmInfoView,
    now: Seq<char>,
)
    requires
        c.ips matches Some((host, _)) && host >= 1,
        c.stage == CreateStage::MakingTap,
    ensures
        ({
            let (host, guest) = c.ips->0;
            let tap = orchestrator::tap_name_for(c.cid);
            let made = orchestrator::first_step(c, data_dir)->Run_0;
            let opened = orchestrator::step_after(c, CreateEvent::Done, data_dir, host_interface);
            let rules = opened.1->Run_0;
            let record = c.record(info, now);
            &&& orchestrator::first_step(c, data_dir) is Run && opened.1 is Run && opened.0
                == CreateStage::AddingNat
            &&& text::argument(made[0].command.args, "dev"@) == Some(tap)
            &&& text::argument(made[1].command.args, "dev"@) == Some(tap)
            &&& text::argument(made[1].command.args, "add"@) matches Some(s)
                && crate::traffic::cidr_value(s) == Some((host, 30nat))
            &&& text::argument(rules[0].command.args, "saddr"@) matches Some(s)
                && crate::traffic::cidr_value(s) == Some(((host - 1) as u32, 30nat))
            &&& text::argument(rules[0].command.args, "oifname"@) == Some(host_interface)
            &&& text::argument(rules[1].command.args, "iifname"@) == Some(tap)
            &&& text::argument(rules[2].command.args, "oifname"@) == Some(tap)
            &&& c.config(data_dir).tap_device == Some(tap)
            &&& record.tap_device == Some(tap)
            &&& orchestrator::resources_after(c, CreateEvent::Done, data_dir).tap_name == Some(tap)
            &&& record.host_ip matches Some(s) && ip::ip_value(s) == Some(host)
            &&& record.guest_ip matches Some(s) && ip::ip_value(s) == Some(guest)
        }),
{
    let (host, guest) = c.ips->0;
    let tap = orchestrator::tap_name_for(c.cid);
    crate::traffic::rules_name_the_subnet(tap, host, host_interface);
    crate::traffic::lemma_nat_words(tap, host, host_interface);
    crate::traffic::lemma_tap_words(tap, host);
    ip::parse_inverts_format(host);
    ip::parse_inverts_format(guest);
}

/// Different VMs have different TAP devices and, below a number of context ids that no host
/// reaches, different MAC addresses.
pub proof fn devices_stay_apart(a: u32, b: u32)
    requires
        a != b,
    ensures
        orchestrator::tap_name_for(a) != orchestrator::tap_name_for(b),
        a < 0x100_0000 && b < 0x100_0000 ==> net::mac_text(a) != net::mac_text(b),
{
    let x = orchestrator::tap_name_for(a);
    let y = orchestrator::tap_name_for(b);
    reveal_strlit("husk");
    text::decimal_is_injective(a as nat, b as nat);
    assert(x.skip(4) =~= text::decimal(a as nat));
    assert(y.skip(4) =~= text::decimal(b as nat));
    net::mac_is_injective_on_24_bits(a, b);
}

/// The disk of a VM is in the directory of the VM, so that it goes with the directory; and the
/// directories of two VMs, and their disks, are different ones.
pub proof fn disks_stay_apart(data_dir: Seq<char>, a: Seq<char>, b: Seq<char>)
    requires
        a.len() > 0 && a[0] != '/',
        b.len() > 0 && b[0] != '/',
    ensures
        text::starts_with(
            orchestrator::disk_path(data_dir, a),
            storage::vm_dir_of(data_dir, a),
        ),
        orchestrator::disk_path(data_dir, a) != storage::vm_dir_of(data_dir, a),
        a != b ==> storage::vm_dir_of(data_dir, a) != storage::vm_dir_of(data_dir, b),
        a != b && !a.contains('/') && !b.contains('/') ==> orchestrator::disk_path(data_dir, a)
            != orchestrator::disk_path(data_dir, b),
{
    let vms = path::joined(data_dir, "vms"@);
    let x = storage::vm_dir_of(data_dir, a);
    let y = storage::vm_dir_of(data_dir, b);
    reveal_strlit("vms");
    reveal_strlit("rootfs.ext4");
    reveal_strlit("/");
    path::names_stay_apart(vms, a, b);
    path::names_stay_apart(vms, b, a);
    path::names_stay_apart(x, "rootfs.ext4"@, "rootfs.ext4"@);
    if a != b && !a.contains('/') && !b.contains('/') {
        assert(x.last() == a.last());
        assert(y.last() == b.last());
        assert(a.contains(a.last()) && b.contains(b.last()));
        let p = orchestrator::disk_path(data_dir, a);
        let q = orchestrator::disk_path(data_dir, b);
        assert(p.take(p.len() - 12) =~= x);
        assert(q.take(q.len() - 12) =~= y);
    }
}

/// The change that the monitor is asked for by an operation.
pub open spec fn change_for(op: VmOp) -> FcChange {
    match op {
        VmOp::Stop => FcChange::Stop,
        VmOp::Pause => FcChange::Pause,
        VmOp::Resume => FcChange::Resume,
    }
}

/// The state that is recorded after an operation is the state in which the monitor leaves the VM
/// by the request for it.
pub proof fn record_follows_the_monitor(op: VmOp)
    ensures
        firecracker::requested_state(firecracker::change_request(change_for(op))) matches Some(
            state,
        ) && state.text() == orchestrator::op_target(op),
{
    firecracker::change_leads_to_the_noted_state(change_for(op), change_for(op));
}

/// A VM that is destroyed takes its device and its directory along, and those are the ones that
/// its creation has made.
pub proof fn destruction_removes_what_was_made(
    c: Creation,
    data_dir: Seq<char>,
    info: VmInfoView,
    now: Seq<char>,
    d: orchestrator::Destruction,
)
    requires
        text::opt_text(d.tap_device) == c.record(info, now).tap_device,
        d.vm_dir@ == storage::vm_dir_of(data_dir, c.record(info, now).name),
    ensures
        c.ips is Some ==> d.belongings().contains(
            UndoView::RemoveNetwork(c.config(data_dir).tap_device->0),
        ),
        d.belongings().contains(UndoView::RemoveDir(d.vm_dir@)),
        c.request.name@.len() > 0 ==> text::starts_with(c.config(data_dir).rootfs_path, d.vm_dir@),
{
    let all = d.belongings();
    if c.ips is Some {
        assert(all[0] == UndoView::RemoveNetwork(c.config(data_dir).tap_device->0));
        assert(all[1] == UndoView::RemoveDir(d.vm_dir@));
    } else {
        assert(all[0] == UndoView::RemoveDir(d.vm_dir@));
    }
    reveal_strlit("rootfs.ext4");
    path::names_stay_apart(d.vm_dir@, "rootfs.ext4"@, "rootfs.ext4"@);
}

/// Firecracker is asked for the VM that was asked for: with as many vCPUs and as much memory as the
/// request says, from its kernel, on the copy of its disk, and with the context id and the device
/// that were allocated for it.
pub proof fn created_vm_is_configured(c: Creation, data_dir: Seq<char>, vsock_path: Seq<char>)
    ensures
        ({
            let sent = firecracker::configure_plan(c.config(data_dir), vsock_path);
            let disk = orchestrator::copy_step(c, data_dir)->dest;
            let cid = JsonView::Number(Some(c.cid as u64));
            &&& c.request.vcpu_count matches Some(n) ==> firecracker::asks(
                sent,
                "/machine-config"@,
                "vcpu_count"@,
                Some(JsonView::Number(Some(n as u64))),
            )
            &&& c.request.mem_size_mib matches Some(n) ==> firecracker::asks(
                sent,
                "/machine-config"@,
                "mem_size_mib"@,
                Some(JsonView::Number(Some(n as u64))),
            )
            &&& firecracker::asks(
                sent,
                "/boot-source"@,
                "kernel_image_path"@,
                Some(JsonView::Text(c.request.kernel_path@)),
            )
            &&& firecracker::asks(
                sent,
                "/drives/rootfs"@,
                "path_on_host"@,
                Some(JsonView::Text(disk)),
            )
            &&& firecracker::asks(sent, "/vsock"@, "guest_cid"@, Some(cid))
            &&& c.ips is Some ==> firecracker::asks(
                sent,
                "/network-interfaces/eth0"@,
                "host_dev_name"@,
                Some(JsonView::Text(orchestrator::tap_name_for(c.cid))),
            )
        }),
{
    firecracker::configured_vm_is_asked_for(c.config(data_dir), vsock_path);
}

/// The port forwards of a VM that was created lead to its guest, by its device.
pub proof fn forwards_lead_to_the_guest(c: Creation, info: VmInfoView, now: Seq<char>)
    requires
        c.ips is Some,
    ensures
        forwards::forward_target(c.record(info, now)) == Ok::<(u32, Seq<char>), Seq<char>>(
            ((c.ips->0).1, c.config(seq![]).tap_device->0),
        ),
{
    ip::parse_inverts_format((c.ips->0).1);
}

/// What is recorded of a VM is what is known of it and what it was made of.
pub proof fn record_tells_what_runs(c: Creation, data_dir: Seq<char>, id: u128, pid: Option<u32>, now: Seq<char>)
    ensures
        ({
            let config = c.config(data_dir);
            let record = c.record(firecracker::running_info(id, config, pid), now);
            &&& record.id == id
            &&& record.pid == pid
            &&& record.name == config.name
            &&& record.state == "running"@
            &&& record.vcpu_count == config.vcpu_count
            &&& record.mem_size_mib == config.mem_size_mib
            &&& record.vsock_cid == config.vsock_cid
            &&& record.tap_device == config.tap_device
            &&& record.kernel_path == config.kernel_path
            &&& record.rootfs_path == c.request.rootfs_path@
            &&& record.created_at == now && record.updated_at == now
            &&& record.userdata == text::opt_text(c.request.userdata)
            &&& record.userdata is Some <==> record.userdata_status == Some("pending"@)
            &&& record.userdata is None <==> record.userdata_status is None
        }),
{
}

/// A snapshot of a VM is a copy of the disk that the VM booted from.
pub proof fn snapshots_hold_the_disk_of_the_vm(c: Creation, data_dir: Seq<char>)
    ensures
        c.config(data_dir).rootfs_path == orchestrator::disk_path(data_dir, c.request.name@),
{
}

/// The kernel arguments of a VM that has none configured are those of a VM in the first subnet: the
/// guest has the address 172.20.0.2 and the host 172.20.0.1.
pub proof fn default_arguments_are_those_of_the_first_subnet()
    ensures
        firecracker::default_kernel_args() == orchestrator::kernel_args_for(
            Some((0xac14_0001u32, 0xac14_0002u32)),
        ),
        guest_network(firecracker::default_kernel_args()) == Some(
            (0xac14_0002u32, 0xac14_0001u32, 0xffff_fffcu32, "eth0"@),
        ),
{
    reveal_with_fuel(text::decimal, 4);
    reveal_strlit("console=ttyS0 reboot=k panic=1 pci=off ip=");
    reveal_strlit("::");
    reveal_strlit(":255.255.255.252::eth0:off");
    reveal_strlit(".");
    reveal_strlit(
        "console=ttyS0 reboot=k panic=1 pci=off ip=172.20.0.2::172.20.0.1:255.255.255.252::eth0:off",
    );
    assert(text::decimal(172) =~= seq!['1', '7', '2']);
    assert(text::decimal(20) =~= seq!['2', '0']);
    assert(text::decimal(0) =~= seq!['0']);
    assert(text::decimal(1) =~= seq!['1']);
    assert(text::decimal(2) =~= seq!['2']);
    let args = orchestrator::kernel_args_for(Some((0xac14_0001u32, 0xac14_0002u32)));
    assert(firecracker::default_kernel_args() =~= args);
    guest_learns_its_address(0xac14_0001u32, 0xac14_0002u32);
}

} // verus!
