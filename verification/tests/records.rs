use husk::state::{
    forward_to_row, row_to_port_forward, row_to_vm_record, vm_to_row, PortForwardRecord,
    PortForwardRow, StateError, StateStore, VmRecord,
};
use husk::tables::Tables;
use husk::unread::UnreadRows;

const NOW: &str = "2026-01-02T03:04:05+00:00";
const LATER: &str = "2026-01-02T03:04:06+00:00";

fn make_record(id: u128, name: &str) -> VmRecord {
    VmRecord {
        id,
        name: name.into(),
        state: "running".into(),
        pid: Some(1234),
        vcpu_count: 2,
        mem_size_mib: 256,
        vsock_cid: 3,
        tap_device: Some("tap0".into()),
        host_ip: Some("172.20.0.1".into()),
        guest_ip: Some("172.20.0.2".into()),
        kernel_path: "/boot/vmlinux".into(),
        rootfs_path: "/images/rootfs.ext4".into(),
        created_at: NOW.into(),
        updated_at: NOW.into(),
        userdata: None,
        userdata_status: None,
        userdata_env: None,
    }
}

fn make_port_forward(vm_id: u128, host_port: u16, guest_port: u16) -> PortForwardRecord {
    PortForwardRecord {
        id: 0,
        vm_id,
        host_port,
        guest_port,
        protocol: "tcp".into(),
        created_at: NOW.into(),
    }
}

#[test]
fn insert_and_get() {
    let mut store = StateStore::open_memory();
    store.insert_vm(make_record(1, "test-vm")).unwrap();

    let fetched = store.get_vm(1).unwrap();
    assert_eq!(fetched.name, "test-vm");
    assert_eq!(fetched.vcpu_count, 2);
}

#[test]
fn get_by_name() {
    let mut store = StateStore::open_memory();
    store.insert_vm(make_record(7, "my-vm")).unwrap();
    let fetched = store.get_vm_by_name("my-vm").unwrap();
    assert_eq!(fetched.id, 7);
}

#[test]
fn list_vms() {
    let mut store = StateStore::open_memory();
    store.insert_vm(make_record(1, "vm-a")).unwrap();
    store.insert_vm(make_record(2, "vm-b")).unwrap();
    let list = store.list_vms();
    assert_eq!(list.len(), 2);
}

#[test]
fn vms_are_listed_by_creation_time() {
    let mut store = StateStore::open_memory();
    let mut young = make_record(1, "young");
    young.created_at = LATER.into();
    store.insert_vm(young).unwrap();
    store.insert_vm(make_record(2, "old")).unwrap();
    let names: Vec<&str> = store.list_vms().iter().map(|r| r.name.as_str()).collect();
    assert_eq!(names, ["old", "young"]);
}

#[test]
fn update_state() {
    let mut store = StateStore::open_memory();
    store.insert_vm(make_record(1, "state-test")).unwrap();
    store.update_vm_state(1, "stopped").unwrap();
    let fetched = store.get_vm(1).unwrap();
    assert_eq!(fetched.state, "stopped");
}

#[test]
fn delete_vm() {
    let mut store = StateStore::open_memory();
    store.insert_vm(make_record(1, "delete-me")).unwrap();
    store.delete_vm(1).unwrap();
    assert!(store.get_vm(1).is_err());
}

#[test]
fn cid_allocation() {
    let mut store = StateStore::open_memory();
    assert_eq!(store.allocate_cid().unwrap(), 3);
    assert_eq!(store.allocate_cid().unwrap(), 4);
    assert_eq!(store.allocate_cid().unwrap(), 5);
}

#[test]
fn lib_vm_not_found() {
    let store = StateStore::open_memory();
    assert!(matches!(store.get_vm(9), Err(StateError::VmNotFound(_))));
}

#[test]
fn roundtrip_preserves_timestamps() {
    let mut store = StateStore::open_memory();
    store.insert_vm(make_record(1, "ts-test")).unwrap();
    assert_eq!(store.get_vm(1).unwrap().created_at, NOW);
    let row = vm_to_row(store.get_vm(1).unwrap());
    assert_eq!(row_to_vm_record(&row).unwrap().created_at, NOW);
}

#[test]
fn vm_not_found_by_name() {
    let store = StateStore::open_memory();
    let result = store.get_vm_by_name("nonexistent");
    assert!(matches!(result, Err(StateError::VmNotFoundByName(_))));
}

#[test]
fn cid_release_and_reuse() {
    let mut store = StateStore::open_memory();
    let cid1 = store.allocate_cid().unwrap();
    let cid2 = store.allocate_cid().unwrap();
    assert_eq!(cid1, 3);
    assert_eq!(cid2, 4);

    store.release_cid(cid1);
    let reused = store.allocate_cid().unwrap();
    assert_eq!(reused, 3);
    let fresh = store.allocate_cid().unwrap();
    assert_eq!(fresh, 5);
}

#[test]
fn cid_release_reuses_lowest() {
    let mut store = StateStore::open_memory();
    let cid3 = store.allocate_cid().unwrap();
    let _cid4 = store.allocate_cid().unwrap();
    let cid5 = store.allocate_cid().unwrap();

    store.release_cid(cid5);
    store.release_cid(cid3);

    assert_eq!(store.allocate_cid().unwrap(), 3);
    assert_eq!(store.allocate_cid().unwrap(), 5);
    assert_eq!(store.allocate_cid().unwrap(), 6);
}

#[test]
fn cid_double_release_is_idempotent() {
    let mut store = StateStore::open_memory();
    let cid = store.allocate_cid().unwrap();

    store.release_cid(cid);
    store.release_cid(cid);

    assert_eq!(store.allocate_cid().unwrap(), cid);
    assert_eq!(store.allocate_cid().unwrap(), 4);
}

#[test]
fn lib_duplicate_name_rejected() {
    let mut store = StateStore::open_memory();
    store.insert_vm(make_record(1, "dup")).unwrap();
    let err = store.insert_vm(make_record(2, "dup")).unwrap_err();
    assert!(
        matches!(err, StateError::VmAlreadyExists(ref name) if name == "dup"),
        "expected VmAlreadyExists, got: {}",
        err.message()
    );
}

#[test]
fn update_state_nonexistent_vm() {
    let mut store = StateStore::open_memory();
    let result = store.update_vm_state(9, "stopped");
    assert!(matches!(result, Err(StateError::VmNotFound(_))));
}

#[test]
fn delete_nonexistent_vm() {
    let mut store = StateStore::open_memory();
    let result = store.delete_vm(9);
    assert!(matches!(result, Err(StateError::VmNotFound(_))));
}

#[test]
fn update_state_updates_timestamp() {
    let mut store = StateStore::open_memory();
    store.insert_vm(make_record(1, "ts-update")).unwrap();
    let before = store.get_vm(1).unwrap().updated_at.clone();
    store.update_vm_state(1, "stopped").unwrap();
    let after = store.get_vm(1).unwrap().updated_at.clone();
    assert!(after >= before);
    assert_ne!(after, before);
    store.update_vm_state_at(1, "running", LATER).unwrap();
    assert_eq!(store.get_vm(1).unwrap().updated_at, LATER);
    assert!(store.update_vm_state_at(9, "running", LATER).is_err());
}

#[test]
fn insert_and_list_port_forwards() {
    let mut store = StateStore::open_memory();
    store.insert_vm(make_record(1, "pf-vm")).unwrap();

    store.insert_port_forward(make_port_forward(1, 8080, 80)).unwrap();
    store.insert_port_forward(make_port_forward(1, 8443, 443)).unwrap();

    let forwards = store.list_port_forwards_for_vm(1);
    assert_eq!(forwards.len(), 2);
    assert_eq!(forwards[0].host_port, 8080);
    assert_eq!(forwards[0].guest_port, 80);
    assert_eq!(forwards[1].host_port, 8443);
    assert_eq!(forwards[1].guest_port, 443);
}

#[test]
fn duplicate_host_port_rejected() {
    let mut store = StateStore::open_memory();
    store.insert_vm(make_record(1, "pf-dup")).unwrap();
    store.insert_port_forward(make_port_forward(1, 8080, 80)).unwrap();
    let err = store.insert_port_forward(make_port_forward(1, 8080, 8080)).unwrap_err();
    assert!(
        matches!(err, StateError::PortAlreadyForwarded(8080)),
        "expected PortAlreadyForwarded(8080), got: {}",
        err.message()
    );
}

#[test]
fn delete_port_forward() {
    let mut store = StateStore::open_memory();
    store.insert_vm(make_record(1, "pf-del")).unwrap();
    store.insert_port_forward(make_port_forward(1, 8080, 80)).unwrap();
    store.insert_port_forward(make_port_forward(1, 9090, 90)).unwrap();

    store.delete_port_forward(8080);

    let forwards = store.list_port_forwards_for_vm(1);
    assert_eq!(forwards.len(), 1);
    assert_eq!(forwards[0].host_port, 9090);
}

#[test]
fn delete_port_forwards_for_vm() {
    let mut store = StateStore::open_memory();
    store.insert_vm(make_record(1, "pf-vm1")).unwrap();
    store.insert_vm(make_record(2, "pf-vm2")).unwrap();

    store.insert_port_forward(make_port_forward(1, 8080, 80)).unwrap();
    store.insert_port_forward(make_port_forward(1, 8443, 443)).unwrap();
    store.insert_port_forward(make_port_forward(2, 9090, 90)).unwrap();

    store.delete_port_forwards_for_vm(1);

    assert!(store.list_port_forwards_for_vm(1).is_empty());
    assert_eq!(store.list_port_forwards_for_vm(2).len(), 1);
}

#[test]
fn cascade_delete_removes_port_forwards() {
    let mut store = StateStore::open_memory();
    store.insert_vm(make_record(1, "pf-cascade")).unwrap();
    store.insert_port_forward(make_port_forward(1, 8080, 80)).unwrap();
    store.insert_port_forward(make_port_forward(1, 8443, 443)).unwrap();

    store.delete_vm(1).unwrap();
    assert!(store.list_port_forwards_for_vm(1).is_empty());
}

#[test]
fn list_port_forwards_empty() {
    let mut store = StateStore::open_memory();
    store.insert_vm(make_record(1, "pf-empty")).unwrap();
    assert!(store.list_port_forwards_for_vm(1).is_empty());
}

#[test]
fn forwards_are_listed_by_host_port_and_numbered() {
    let mut store = StateStore::open_memory();
    store.insert_vm(make_record(1, "pf")).unwrap();
    store.insert_port_forward(make_port_forward(1, 9000, 1)).unwrap();
    store.insert_port_forward(make_port_forward(1, 8000, 2)).unwrap();
    let list = store.list_port_forwards_for_vm(1);
    assert_eq!((list[0].host_port, list[0].id), (8000, 2));
    assert_eq!((list[1].host_port, list[1].id), (9000, 1));
    assert!(matches!(
        store.insert_port_forward(make_port_forward(5, 7000, 1)),
        Err(StateError::VmNotFound(5))
    ));
}

#[test]
fn large_dataset() {
    let mut store = StateStore::open_memory();
    for i in 0..1000u128 {
        store.insert_vm(make_record(i, &format!("vm-{i:04}"))).unwrap();
    }
    assert_eq!(store.list_vms().len(), 1000);
}

#[test]
fn full_roundtrip_with_cid() {
    let mut store = StateStore::open_memory();
    let cid = store.allocate_cid().unwrap();
    let mut rec = make_record(1, "roundtrip-vm");
    rec.vsock_cid = cid;
    store.insert_vm(rec).unwrap();
    let _ = store.allocate_cid().unwrap();

    let row = vm_to_row(store.get_vm(1).unwrap());
    let fetched = row_to_vm_record(&row).unwrap();
    assert_eq!(fetched.name, "roundtrip-vm");
    assert_eq!(fetched.vsock_cid, cid);

    let next_cid = store.allocate_cid().unwrap();
    assert!(
        next_cid > cid,
        "CID counter should have advanced: got {next_cid}, expected > {cid}"
    );
}

#[test]
fn row_holds_the_id_as_text() {
    let row = vm_to_row(&make_record(0x0123_4567_89ab_cdef_0123_4567_89ab_cdef, "uuid"));
    assert_eq!(row.id, "01234567-89ab-cdef-0123-456789abcdef");
    assert_eq!(row_to_vm_record(&row).unwrap().id, 0x0123_4567_89ab_cdef_0123_4567_89ab_cdef);
}

#[test]
fn row_with_a_time_of_another_zone_is_read_in_utc() {
    let mut row = vm_to_row(&make_record(1, "zone"));
    row.created_at = "2026-01-02T04:04:05+01:00".to_string();
    assert_eq!(row_to_vm_record(&row).unwrap().created_at, NOW);
}

#[test]
fn row_that_cannot_be_read_is_refused() {
    let mut row = vm_to_row(&make_record(1, "bad"));
    row.id = "not an id".to_string();
    assert!(matches!(row_to_vm_record(&row), Err(StateError::Database(_))));
    let mut row = vm_to_row(&make_record(1, "bad"));
    row.updated_at = "yesterday".to_string();
    assert!(matches!(row_to_vm_record(&row), Err(StateError::Database(_))));
    let row = PortForwardRow {
        id: 1,
        vm_id: "nope".to_string(),
        host_port: 80,
        guest_port: 80,
        protocol: "tcp".to_string(),
        created_at: NOW.to_string(),
    };
    assert!(row_to_port_forward(&row).is_err());
}

#[test]
fn forward_row_is_read() {
    let row = PortForwardRow {
        id: 4,
        vm_id: "00000000-0000-0000-0000-000000000007".to_string(),
        host_port: 8080,
        guest_port: 80,
        protocol: "tcp".to_string(),
        created_at: NOW.to_string(),
    };
    let f = row_to_port_forward(&row).unwrap();
    assert_eq!((f.id, f.vm_id, f.host_port, f.guest_port), (4, 7, 8080, 80));
}

#[test]
fn userdata_status_is_kept() {
    let mut store = StateStore::open_memory();
    store.insert_vm(make_record(1, "ud")).unwrap();
    store.update_userdata_status(1, "completed").unwrap();
    assert_eq!(store.get_vm(1).unwrap().userdata_status.as_deref(), Some("completed"));
    assert!(store.update_userdata_status(2, "completed").is_err());
}

#[test]
fn stale_vms_are_marked_stopped() {
    let mut store = StateStore::open_memory();
    for (i, state) in ["running", "paused", "stopped", "failed"].iter().enumerate() {
        let mut r = make_record(i as u128, &format!("vm{i}"));
        r.state = state.to_string();
        store.insert_vm(r).unwrap();
    }
    assert_eq!(store.live_vms(), [0, 1]);
    assert_eq!(store.mark_stale_vms_stopped(), 2);
    assert_eq!(store.get_vm(0).unwrap().state, "stopped");
    assert_eq!(store.get_vm(1).unwrap().state, "stopped");
    assert_eq!(store.get_vm(3).unwrap().state, "failed");
    assert_eq!(store.mark_stale_vms_stopped(), 0);
}

#[test]
fn state_errors_in_words() {
    assert_eq!(
        StateError::VmNotFound(7).message(),
        "VM not found: 00000000-0000-0000-0000-000000000007"
    );
    assert!(StateError::VmNotFoundByName("x".into()).message().contains("x"));
    assert!(StateError::VmAlreadyExists("x".into()).message().contains("x"));
    assert!(StateError::PortAlreadyForwarded(80).message().contains("80"));
    assert!(StateError::Database("full".into()).message().contains("full"));
}

#[test]
fn rows_are_read_back() {
    let record = make_record(0xfedc_ba98, "kept");
    let read = row_to_vm_record(&vm_to_row(&record)).unwrap();
    assert_eq!((read.id, read.name.as_str(), read.pid), (0xfedc_ba98, "kept", Some(1234)));
    assert_eq!((read.created_at.as_str(), read.updated_at.as_str()), (NOW, NOW));
    assert_eq!(read.tap_device.as_deref(), Some("tap0"));

    let forward = make_port_forward(9, 65535, 80);
    let row = forward_to_row(&forward);
    assert_eq!(row.vm_id, "00000000-0000-0000-0000-000000000009");
    let read = row_to_port_forward(&row).unwrap();
    assert_eq!((read.vm_id, read.host_port, read.guest_port), (9, 65535, 80));
    assert_eq!(read.created_at, NOW);
}

#[test]
fn time_that_was_read_is_read_again_as_the_same() {
    for text in [
        "2026-01-02T03:04:05Z",
        "2026-01-02 03:04:05.5 +02:30",
        "2016-12-31T23:59:60Z",
        "2016-12-31T23:59:60.123456789+00:00",
        "-0044-03-15T12:00:00Z",
        "+12026-01-02T03:04:05.000001Z",
    ] {
        let mut row = vm_to_row(&make_record(1, "time"));
        row.created_at = text.to_string();
        let first = row_to_vm_record(&row).unwrap();
        let again = row_to_vm_record(&vm_to_row(&first)).unwrap();
        assert_eq!(first.created_at, again.created_at, "{text}");
    }
}

fn stored() -> StateStore {
    let mut store = StateStore::open_memory();
    store.insert_vm(make_record(1, "one")).unwrap();
    store.insert_vm(make_record(2, "two")).unwrap();
    store.insert_port_forward(make_port_forward(1, 8080, 80)).unwrap();
    store.insert_port_forward(make_port_forward(2, 9090, 90)).unwrap();
    store.delete_port_forward(8080);
    for _ in 0..4 {
        store.allocate_cid().unwrap();
    }
    store.release_cid(5);
    store.release_cid(3);
    store
}

#[test]
fn tables_are_read_back() {
    let store = stored();
    let tables = store.to_tables(&UnreadRows::none());
    assert_eq!((tables.next_cid, tables.last_forward_id), (7, 2));
    assert_eq!(tables.freed_cids, vec![3, 5]);
    let (mut read, unread) = StateStore::from_tables(&tables);
    assert!(unread.vms.is_empty() && unread.forwards.is_empty());
    assert_eq!(read.get_vm_by_name("two").unwrap().id, 2);
    assert_eq!(read.list_port_forwards_for_vm(2)[0].id, 2);
    assert!(read.list_port_forwards_for_vm(1).is_empty());
    assert_eq!(read.allocate_cid().unwrap(), 3);
    assert_eq!(read.allocate_cid().unwrap(), 5);
    assert_eq!(read.allocate_cid().unwrap(), 7);
    read.insert_port_forward(make_port_forward(1, 8080, 80)).unwrap();
    assert_eq!(read.list_port_forwards_for_vm(1)[0].id, 3);
}

#[test]
fn file_backed_persistence() {
    let mut store = StateStore::open_memory();
    store.insert_vm(make_record(7, "persistent")).unwrap();
    let (reopened, _) = StateStore::from_tables(&store.to_tables(&UnreadRows::none()));
    assert_eq!(reopened.get_vm(7).unwrap().name, "persistent");
}

#[test]
fn port_forward_persistence() {
    let mut store = StateStore::open_memory();
    store.insert_vm(make_record(7, "pf-persist-vm")).unwrap();
    store.insert_port_forward(make_port_forward(7, 8080, 80)).unwrap();
    let (reopened, _) = StateStore::from_tables(&store.to_tables(&UnreadRows::none()));
    let forwards = reopened.list_port_forwards_for_vm(7);
    assert_eq!(forwards.len(), 1);
    assert_eq!(forwards[0].host_port, 8080);
    assert_eq!(forwards[0].guest_port, 80);
}

#[test]
fn rows_that_do_not_fit_are_left_unread() {
    let broken = |change: fn(&mut Tables)| {
        let mut t = stored().to_tables(&UnreadRows::none());
        change(&mut t);
        StateStore::from_tables(&t)
    };
    let vm = |change| {
        let (store, mut unread) = broken(change);
        assert_eq!((store.vms.len(), unread.vms.len()), (1, 1));
        unread.vms.remove(0).error
    };
    assert!(matches!(
        vm(|t| t.vms[1].name = "one".to_string()),
        StateError::VmAlreadyExists(n) if n == "one"
    ));
    assert!(matches!(vm(|t| t.vms[1].id = t.vms[0].id.clone()), StateError::VmAlreadyExists(_)));
    assert!(matches!(vm(|t| t.vms[0].id = "x".to_string()), StateError::Database(_)));
    assert_eq!(
        vm(|t| t.vms[0].vcpu_count = -1).message(),
        "database error: Integer -1 out of range at index 4"
    );
    assert_eq!(
        vm(|t| t.vms[0].pid = Some(0x1_0000_0000)).message(),
        "database error: Integer 4294967296 out of range at index 3"
    );
    let forward = |change| {
        let (store, mut unread) = broken(change);
        assert_eq!((store.vms.len(), unread.forwards.len()), (2, 1));
        unread.forwards.remove(0).error
    };
    assert!(matches!(
        forward(|t| t.forwards.push(t.forwards[0].clone())),
        StateError::PortAlreadyForwarded(9090)
    ));
    assert!(matches!(
        forward(|t| t.forwards[0].vm_id = "00000000-0000-0000-0000-000000000009".to_string()),
        StateError::VmNotFound(9)
    ));
    assert_eq!(
        forward(|t| t.forwards[0].guest_port = -80).message(),
        "database error: Integer -80 out of range at index 3"
    );
    assert_eq!(
        forward(|t| t.forwards[0].id = 0).message(),
        "corrupt data in column id: out of range"
    );
}

#[test]
fn unread_rows_are_kept() {
    let mut t = stored().to_tables(&UnreadRows::none());
    t.vms[0].created_at = "then".to_string();
    t.forwards[0].created_at = "then".to_string();
    let (store, unread) = StateStore::from_tables(&t);
    let (store, unread) = StateStore::from_tables(&store.to_tables(&unread));
    assert_eq!(store.get_vm_by_name("two").unwrap().id, 2);
    assert_eq!(unread.vms[0].row.name, "one");
    assert_eq!(unread.vms[0].row.created_at, "then");
    assert_eq!(unread.forwards[0].row.host_port, 9090);
}

#[test]
fn bad_context_id_concerns_only_its_allocation() {
    for (next_cid, shown) in [(-5, "-5"), (0x1_0000_0000, "4294967296")] {
        let mut t = stored().to_tables(&UnreadRows::none());
        t.next_cid = next_cid;
        t.last_forward_id = -1;
        let (mut store, _) = StateStore::from_tables(&t);
        assert_eq!(store.list_vms().len(), 2);
        assert_eq!(store.allocate_cid().unwrap(), 3);
        assert_eq!(store.allocate_cid().unwrap(), 5);
        assert_eq!(
            store.allocate_cid().unwrap_err().message(),
            format!("database error: Integer {shown} out of range at index 0")
        );
    }
}

#[test]
fn changed_record_is_read_back() {
    let mut store = stored();
    store.update_vm_state(2, "paused").unwrap();
    let changed = store.get_vm(2).unwrap().updated_at.clone();
    let (read, _) = StateStore::from_tables(&store.to_tables(&UnreadRows::none()));
    assert_eq!(read.get_vm(2).unwrap().state, "paused");
    assert_eq!(read.get_vm(2).unwrap().updated_at, changed);
}
