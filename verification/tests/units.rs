use std::collections::HashMap;
use vmm::config::{
    add_to_config, BalloonConfig, ConsoleConfig, ConsoleOutputMode, CpuFeatures, CpusConfig,
    Device, DiskConfig, HotplugMethod, MemoryConfig, MemoryZoneConfig, NetConfig,
    RestoredNetConfig, RngConfig, VmConfig,
};
use vmm::device::{encoded_reply, PciDeviceInfo};
use vmm::dispatch::{interest, EpollDispatch, Interest};
use vmm::endpoint::{endpoint, socket_url_to_path, Endpoint};
use vmm::error::{Cause, Context, Error, Failure, MigratableError, VmError};
use vmm::features::{feature_list, Build, Features, VmmVersionInfo};
use vmm::migration::{add_file, read_slot_number};
use vmm::plan::{wrap_fault, Notice, Wrap};
use vmm::signals::{
    handled_signals, plan_last_resort, requests_exit, LastResort, Terminal,
};
use vmm::vmm::Vmm;

fn no_features() -> Features {
    Features {
        dbus_api: false,
        dhat_heap: false,
        guest_debug: false,
        igvm: false,
        io_uring: false,
        kvm: false,
        mshv: false,
        sev_snp: false,
        tdx: false,
        tracing: false,
    }
}

fn plain_config() -> VmConfig {
    VmConfig {
        cpus: CpusConfig {
            boot_vcpus: 1,
            max_vcpus: 4,
            topology: None,
            kvm_hyperv: false,
            max_phys_bits: 46,
            features: CpuFeatures { amx: false },
        },
        memory: MemoryConfig {
            size: 1 << 29,
            mergeable: false,
            hotplug_method: HotplugMethod::Acpi,
            hotplug_size: None,
            hotplugged_size: None,
            shared: false,
            hugepages: false,
            hugepage_size: None,
            prefault: false,
            zones: None,
            thp: true,
        },
        payload: None,
        disks: None,
        net: None,
        rng: RngConfig { src: "/dev/urandom".to_string(), iommu: false },
        balloon: None,
        fs: None,
        pmem: None,
        serial: ConsoleConfig {
            file: None,
            mode: ConsoleOutputMode::Null,
            iommu: false,
            socket: None,
        },
        console: ConsoleConfig {
            file: None,
            mode: ConsoleOutputMode::Tty,
            iommu: false,
            socket: None,
        },
        devices: None,
        user_devices: None,
        vdpa: None,
        vsock: None,
        pvpanic: false,
        iommu: false,
        watchdog: false,
        tdx: false,
        landlock_enable: false,
        options: String::new(),
    }
}

fn zone(id: &str, size: u64) -> MemoryZoneConfig {
    MemoryZoneConfig { id: id.to_string(), size, options: "shared=on".to_string() }
}

fn net(id: Option<&str>, fds: Option<Vec<i32>>) -> NetConfig {
    NetConfig {
        id: id.map(|s| s.to_string()),
        mac: None,
        host_mac: None,
        vhost_user: false,
        vhost_socket: None,
        fds,
        options: String::new(),
    }
}

#[test]
fn numbers_come_back_as_their_events() {
    let all = [
        (EpollDispatch::Exit, 0),
        (EpollDispatch::Reset, 1),
        (EpollDispatch::Api, 2),
        (EpollDispatch::ActivateVirtioDevices, 3),
        (EpollDispatch::Debug, 4),
    ];
    for (event, number) in all {
        assert_eq!(event.index(), number);
        assert_eq!(EpollDispatch::from(number), event);
    }
}

#[test]
fn other_numbers_are_unknown() {
    assert_eq!(EpollDispatch::from(5), EpollDispatch::Unknown);
    assert_eq!(EpollDispatch::from(u64::MAX), EpollDispatch::Unknown);
    assert_eq!(EpollDispatch::Unknown.index(), 5);
}

#[test]
fn descriptors_are_watched_for_reading() {
    assert_eq!(
        interest(EpollDispatch::ActivateVirtioDevices),
        Interest { events: epoll::Events::EPOLLIN.bits(), data: 3 }
    );
    assert_eq!(interest(EpollDispatch::Exit), Interest { events: 1, data: 0 });
}

#[test]
fn features_are_listed_in_order() {
    assert_eq!(feature_list(&no_features()), Vec::<String>::new());
    let some = Features { kvm: true, dhat_heap: true, io_uring: true, ..no_features() };
    assert_eq!(feature_list(&some), vec!["dhat-heap", "io_uring", "kvm"]);
    let all = Features {
        dbus_api: true,
        dhat_heap: true,
        guest_debug: true,
        igvm: true,
        io_uring: true,
        kvm: true,
        mshv: true,
        sev_snp: true,
        tdx: true,
        tracing: true,
    };
    assert_eq!(
        feature_list(&all),
        vec![
            "dbus_api",
            "dhat-heap",
            "guest_debug",
            "igvm",
            "io_uring",
            "kvm",
            "mshv",
            "sev_snp",
            "tdx",
            "tracing",
        ]
    );
}

#[test]
fn ping_is_answered_with_version_and_features() {
    let build = Build { features: Features { mshv: true, ..no_features() }, x86_64: true };
    let vmm = Vmm::new(VmmVersionInfo::new("v50.0-12-gabcdef", "50.0.0"), build);
    let response = vmm.vmm_ping(4321);
    assert_eq!(response.build_version, "v50.0-12-gabcdef");
    assert_eq!(response.version, "50.0.0");
    assert_eq!(response.pid, 4321);
    assert_eq!(response.features, vec!["mshv"]);
}

#[test]
fn cpuid_is_compared_under_kvm_on_x86_64() {
    let kvm = Features { kvm: true, ..no_features() };
    assert!(Build { features: kvm, x86_64: true }.compares_cpuid());
    assert!(!Build { features: kvm, x86_64: false }.compares_cpuid());
    assert!(!Build { features: no_features(), x86_64: true }.compares_cpuid());
}

#[test]
fn urls_name_sockets() {
    let tcp = endpoint(&"tcp:192.168.0.1:4444".to_string());
    assert_eq!(tcp, Ok(Endpoint::Tcp("192.168.0.1:4444".to_string())));
    let unix = endpoint(&"unix:/run/vmm.sock".to_string());
    assert_eq!(unix, Ok(Endpoint::Unix("/run/vmm.sock".to_string())));
    let empty = endpoint(&"unix:".to_string());
    assert_eq!(empty, Ok(Endpoint::Unix(String::new())));
}

#[test]
fn other_urls_name_none() {
    let error = MigratableError::MigrateSend(Cause {
        context: Context::ExtractPath,
        detail: Some("http://host".to_string()),
    });
    assert_eq!(endpoint(&"http://host".to_string()), Err(error));
    match socket_url_to_path(&"tcp:host:1".to_string()) {
        Err(MigratableError::MigrateSend(cause)) => {
            assert_eq!(cause.message(), "Could not extract path from URL: tcp:host:1")
        }
        _ => unreachable!(),
    }
    assert_eq!(
        socket_url_to_path(&"unix:unix:".to_string()),
        Ok("unix:".to_string())
    );
}

#[test]
fn devices_are_written_in_json() {
    let info = PciDeviceInfo { id: "_disk2".to_string(), bdf: "0000:00:05.0".to_string() };
    assert_eq!(
        String::from_utf8(info.to_json().unwrap()).unwrap(),
        "{\"id\":\"_disk2\",\"bdf\":\"0000:00:05.0\"}"
    );
    let odd = PciDeviceInfo { id: "a\"b\n".to_string(), bdf: String::new() };
    assert_eq!(
        String::from_utf8(odd.to_json().unwrap()).unwrap(),
        "{\"id\":\"a\\\"b\\n\",\"bdf\":\"\"}"
    );
}

#[test]
fn failed_encodings_are_reported() {
    assert_eq!(encoded_reply(Ok(vec![1, 2])), Ok(Some(vec![1, 2])));
    assert_eq!(
        encoded_reply(Err("deep".to_string())),
        Err(VmError::SerializeJson("deep".to_string()))
    );
}

#[test]
fn ending_signals_are_handled() {
    assert_eq!(handled_signals(), [libc::SIGTERM, libc::SIGINT]);
    assert!(requests_exit(libc::SIGTERM));
    assert!(requests_exit(libc::SIGINT));
    assert!(!requests_exit(libc::SIGHUP));
    assert!(!requests_exit(0));
}

#[test]
fn the_terminal_is_restored_before_the_end() {
    assert_eq!(
        plan_last_resort(Terminal::Saved),
        vec![LastResort::RestoreTerminal, LastResort::Terminate(1)]
    );
    assert_eq!(plan_last_resort(Terminal::Untouched), vec![LastResort::Terminate(1)]);
    assert_eq!(
        plan_last_resort(Terminal::Unavailable),
        vec![LastResort::WarnTerminal, LastResort::Terminate(1)]
    );
}

#[test]
fn slots_are_read_from_the_lowest_byte() {
    assert_eq!(read_slot_number(&[1, 0, 0, 0]), 1);
    assert_eq!(read_slot_number(&[0x78, 0x56, 0x34, 0x12]), 0x1234_5678);
    assert_eq!(read_slot_number(&[255, 255, 255, 255]), u32::MAX);
    assert_eq!(read_slot_number(&[1, 2, 3, 4]), u32::from_le_bytes([1, 2, 3, 4]));
}

#[test]
fn slots_have_one_file() {
    let mut received = None;
    add_file(&mut received, 7, 20);
    add_file(&mut received, 3, 21);
    add_file(&mut received, 7, 22);
    assert_eq!(received, Some(HashMap::from([(3, 21), (7, 22)])));
}

#[test]
fn items_are_added_at_the_end() {
    let mut list: Option<Vec<u32>> = None;
    add_to_config(&mut list, 1);
    add_to_config(&mut list, 2);
    assert_eq!(list, Some(vec![1, 2]));
}

#[test]
fn devices_join_their_kind() {
    let mut config = plain_config();
    let disk = |path: &str| DiskConfig { path: Some(path.to_string()), options: String::new() };
    config.add_device(Device::Disk(disk("/a")));
    config.add_device(Device::Net(net(Some("n"), None)));
    config.add_device(Device::Disk(disk("/b")));
    assert_eq!(config.disks, Some(vec![disk("/a"), disk("/b")]));
    assert_eq!(config.net, Some(vec![net(Some("n"), None)]));
}

#[test]
fn only_desired_sizes_change() {
    let mut config = plain_config();
    config.resize(None, None, Some(5));
    assert_eq!(config, plain_config());
    config.balloon = Some(BalloonConfig { size: 1, options: "deflate".to_string() });
    config.resize(Some(2), None, Some(5));
    assert_eq!(config.cpus.boot_vcpus, 2);
    assert_eq!(config.memory.size, 1 << 29);
    assert_eq!(
        config.balloon,
        Some(BalloonConfig { size: 5, options: "deflate".to_string() })
    );
    config.resize(None, Some(1 << 30), None);
    assert_eq!(config.memory.size, 1 << 30);
    assert_eq!(config.cpus.boot_vcpus, 2);
}

#[test]
fn the_first_zone_of_a_name_is_resized() {
    let mut config = plain_config();
    assert!(!config.names_zone(&"a".to_string()));
    assert!(!config.resize_zone(&"a".to_string(), 9));
    config.memory.zones = Some(vec![zone("b", 1), zone("a", 2), zone("a", 3)]);
    assert!(config.names_zone(&"a".to_string()));
    assert!(config.resize_zone(&"a".to_string(), 9));
    assert_eq!(
        config.memory.zones,
        Some(vec![zone("b", 1), zone("a", 9), zone("a", 3)])
    );
    assert!(!config.resize_zone(&"c".to_string(), 9));
}

#[test]
fn new_descriptors_go_to_devices_that_had_some() {
    let mut config = plain_config();
    config.net = Some(vec![
        net(Some("a"), Some(vec![3])),
        net(Some("b"), None),
        net(None, Some(vec![4])),
        net(Some("c"), Some(vec![5])),
    ]);
    let restored = Some(vec![
        RestoredNetConfig { id: "a".to_string(), fds: Some(vec![10, 11]) },
        RestoredNetConfig { id: "b".to_string(), fds: Some(vec![12]) },
        RestoredNetConfig { id: "a".to_string(), fds: Some(vec![13]) },
    ]);
    config.adopt_net_fds(&restored);
    assert_eq!(
        config.net,
        Some(vec![
            net(Some("a"), Some(vec![13])),
            net(Some("b"), None),
            net(None, Some(vec![4])),
            net(Some("c"), Some(vec![5])),
        ])
    );
    let before = config.clone();
    config.adopt_net_fds(&None);
    assert_eq!(config, before);
}

#[test]
fn causes_quote_their_detail() {
    let bare = Cause { context: Context::LocalOverTcp, detail: None };
    assert_eq!(bare.message(), "--local option is not supported with TCP sockets");
    let quoting =
        Cause { context: Context::CloneDebug, detail: Some("too many files".to_string()) };
    assert_eq!(quoting.message(), "Error cloning debug EventFd: too many files");
    let odd = Cause { context: Context::SourceCpuid, detail: Some("Unsupported".to_string()) };
    assert_eq!(odd.message(), "Error generating common cpuid': Unsupported");
}

#[test]
fn errors_have_their_messages() {
    let s = || "why".to_string();
    let all = [
        (Error::ApiRequestRecv(s()), "Error receiving API request"),
        (Error::ApiResponseSend(s()), "Error sending API request"),
        (Error::Bind(s()), "Error binding to UNIX domain socket"),
        (Error::EventFdClone(s()), "Error cloning EventFd"),
        (Error::EventFdCreate(s()), "Error creating EventFd"),
        (Error::EventFdRead(s()), "Error reading from EventFd"),
        (Error::Epoll(s()), "Error creating epoll context"),
        (Error::HttpThreadSpawn(s()), "Error spawning HTTP thread"),
        (Error::DBusThreadSpawn(s()), "Error spawning D-Bus thread"),
        (Error::CreateDBusSession(s()), "Error starting D-Bus session"),
        (Error::EventMonitorThreadSpawn(s()), "Error spawning `event-monitor` thread"),
        (Error::Stdin(VmError::VmNotRunning), "Error handling VM stdin"),
        (Error::Pty(VmError::VmNotRunning), "Error handling VM pty"),
        (Error::VmReboot(VmError::VmNotCreated), "Error rebooting VM"),
        (Error::VmmThreadSpawn(s()), "Error spawning VMM thread"),
        (Error::VmmShutdown(VmError::VmNotRunning), "Error shutting down VMM"),
        (Error::CreateSeccompFilter(s()), "Error creating seccomp filter"),
        (Error::ApplySeccompFilter(s()), "Error applying seccomp filter"),
        (Error::ActivateVirtioDevices(VmError::VmNotRunning), "Error activating virtio devices"),
        (Error::CreateApiServer(s()), "Error creating API server: why"),
        (Error::CreateApiServerSocket(s()), "Error creation API server's socket"),
        (Error::GdbThreadSpawn(s()), "Failed to start the GDB thread"),
        (Error::GdbRequestRecv(s()), "Error receiving GDB request"),
        (Error::GdbResponseSend(s()), "Error sending GDB request"),
        (Error::SignalHandlerSpawn(s()), "Cannot spawn a signal handler thread"),
        (Error::ThreadCleanup(s()), "Failed to join on threads: why"),
        (Error::CreateLandlock(s()), "Error creating landlock object"),
        (Error::ApplyLandlock(s()), "Error applying landlock"),
    ];
    for (error, message) in all {
        assert_eq!(error.message(), message);
    }
}

#[test]
fn faults_are_wrapped_in_their_errors() {
    let f = || "fault".to_string();
    let machine = || MigratableError::Machine(f());
    let cause = |context| Cause { context, detail: Some(f()) };
    let all = [
        (Wrap::CreateConsoleDevices, Failure::Vm(VmError::CreateConsoleDevices(f()))),
        (Wrap::ApplyLandlock, Failure::Vm(VmError::ApplyLandlock(f()))),
        (Wrap::EventFdClone, Failure::Vm(VmError::EventFdClone(f()))),
        (Wrap::Machine, Failure::Vm(VmError::Machine(f()))),
        (Wrap::Pause, Failure::Vm(VmError::Pause(machine()))),
        (Wrap::Resume, Failure::Vm(VmError::Resume(machine()))),
        (Wrap::Snapshot, Failure::Vm(VmError::Snapshot(machine()))),
        (Wrap::SnapshotSend, Failure::Vm(VmError::SnapshotSend(machine()))),
        (Wrap::Restore, Failure::Vm(VmError::Restore(machine()))),
        (
            Wrap::RestoreReceive(Context::CompareCpuid),
            Failure::Vm(VmError::Restore(MigratableError::MigrateReceive(cause(
                Context::CompareCpuid,
            )))),
        ),
        (Wrap::ConfigValidation, Failure::Vm(VmError::ConfigValidation(f()))),
        (Wrap::Coredump, Failure::Vm(VmError::Coredump(f()))),
        (Wrap::SerializeJson, Failure::Vm(VmError::SerializeJson(f()))),
        (Wrap::Socket, Failure::Migration(MigratableError::MigrateSocket(f()))),
        (
            Wrap::Receive(Context::BindTcp),
            Failure::Migration(MigratableError::MigrateReceive(cause(Context::BindTcp))),
        ),
        (
            Wrap::Send(Context::ConnectUnix),
            Failure::Migration(MigratableError::MigrateSend(cause(Context::ConnectUnix))),
        ),
        (Wrap::Unlock, Failure::Migration(MigratableError::UnlockError(f()))),
        (Wrap::Migration, Failure::Migration(machine())),
    ];
    for (wrap, failure) in all {
        assert_eq!(wrap_fault(wrap, f()), failure);
    }
}

#[test]
fn notices_have_source_and_name() {
    assert_eq!(Notice::Booting.text(), ("vm", "booting"));
    assert_eq!(Notice::Booted.text(), ("vm", "booted"));
    assert_eq!(Notice::Shutdown.text(), ("vm", "shutdown"));
    assert_eq!(Notice::Rebooting.text(), ("vm", "rebooting"));
    assert_eq!(Notice::Rebooted.text(), ("vm", "rebooted"));
    assert_eq!(Notice::Deleted.text(), ("vm", "deleted"));
    assert_eq!(Notice::MonitorShutdown.text(), ("vmm", "shutdown"));
}
