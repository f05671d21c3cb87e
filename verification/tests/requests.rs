use vmm::config::{
    ConsoleConfig, ConsoleOutputMode, CpuFeatures, CpusConfig, DeviceConfig, DiskConfig, FsConfig,
    HotplugMethod, MemoryConfig, NetConfig, PayloadConfig, PmemConfig, RngConfig, UserDeviceConfig,
    VdpaConfig, VmConfig, VsockConfig,
};
use vmm::device::PciDeviceInfo;
use vmm::error::{Failure, VmError};
use vmm::features::{Build, Features, VmmVersionInfo};
use vmm::plan::{Action, Outcome, Reply, Step, VmState};
use vmm::vmm::Vmm;

fn build() -> Build {
    Build {
        features: Features {
            dbus_api: false,
            dhat_heap: false,
            guest_debug: false,
            igvm: false,
            io_uring: true,
            kvm: true,
            mshv: false,
            sev_snp: false,
            tdx: false,
            tracing: false,
        },
        x86_64: true,
    }
}

fn create_dummy_vmm() -> Vmm {
    Vmm::new(VmmVersionInfo::new("dummy", "dummy"), build())
}

fn create_dummy_vm_config() -> VmConfig {
    VmConfig {
        cpus: CpusConfig {
            boot_vcpus: 1,
            max_vcpus: 1,
            topology: None,
            kvm_hyperv: false,
            max_phys_bits: 46,
            features: CpuFeatures { amx: false },
        },
        memory: MemoryConfig {
            size: 536_870_912,
            mergeable: false,
            hotplug_method: HotplugMethod::Acpi,
            hotplug_size: None,
            hotplugged_size: None,
            shared: true,
            hugepages: false,
            hugepage_size: None,
            prefault: false,
            zones: None,
            thp: true,
        },
        payload: Some(PayloadConfig {
            kernel: Some("/path/to/kernel".to_string()),
            firmware: None,
            cmdline: None,
            initramfs: None,
        }),
        disks: None,
        net: None,
        rng: RngConfig { src: "/dev/urandom".to_string(), iommu: false },
        balloon: None,
        fs: None,
        pmem: None,
        serial: ConsoleConfig {
            file: None,
            mode: ConsoleOutputMode::Null,
            iommu: false,
            socket: None,
        },
        console: ConsoleConfig {
            file: None,
            mode: ConsoleOutputMode::Tty,
            iommu: false,
            socket: None,
        },
        devices: None,
        user_devices: None,
        vdpa: None,
        vsock: None,
        pvpanic: false,
        iommu: false,
        watchdog: false,
        tdx: false,
        landlock_enable: false,
        options: String::new(),
    }
}

/// What a host reports that succeeds in everything.
fn success(action: &Action) -> Outcome {
    match action {
        Action::ReadState => Outcome::State(VmState::Running),
        Action::MeasureMemory => Outcome::Number(536_870_912),
        Action::ReadBalloon => Outcome::Number(0),
        Action::ReadDeviceTree => Outcome::Text("{}".to_string()),
        Action::AddDevice(_) => Outcome::Device(PciDeviceInfo {
            id: "_disk0".to_string(),
            bdf: "0000:00:04.0".to_string(),
        }),
        Action::EncodeCounters => Outcome::Bytes(b"{}".to_vec()),
        _ => Outcome::Done,
    }
}

/// Runs a request with that host.
fn finish(vmm: &mut Vmm, first: Step) -> Result<Reply, Failure> {
    let mut step = first;
    loop {
        match step {
            Step::Perform(action) => {
                let outcome = success(&action);
                assert!(vmm.accepts(&outcome));
                step = vmm.resume(outcome);
            }
            Step::Done(result) => return result,
        }
    }
}

fn create(vmm: &mut Vmm, config: VmConfig) -> Result<Reply, Failure> {
    let step = vmm.vm_create(config);
    finish(vmm, step)
}

#[test]
fn test_vmm_vm_create() {
    let mut vmm = create_dummy_vmm();
    let config = create_dummy_vm_config();

    assert!(matches!(create(&mut vmm, config.clone()), Ok(Reply::Done)));
    assert!(matches!(
        create(&mut vmm, config),
        Err(Failure::Vm(VmError::VmAlreadyCreated))
    ));
}

#[test]
fn test_vmm_vm_cold_add_device() {
    let mut vmm = create_dummy_vmm();
    let device_config = DeviceConfig {
        path: "/path/to/device".to_string(),
        options: "path=/path/to/device".to_string(),
    };

    let step = vmm.vm_add_device(device_config.clone());
    assert!(matches!(
        finish(&mut vmm, step),
        Err(Failure::Vm(VmError::VmNotCreated))
    ));

    let _ = create(&mut vmm, create_dummy_vm_config());
    assert!(vmm.vm_config.as_ref().unwrap().devices.is_none());

    let step = vmm.vm_add_device(device_config.clone());
    assert_eq!(finish(&mut vmm, step).unwrap(), Reply::Data(None));
    assert_eq!(
        vmm.vm_config.as_ref().unwrap().devices.as_ref().unwrap().len(),
        1
    );
    assert_eq!(
        vmm.vm_config.as_ref().unwrap().devices.as_ref().unwrap()[0],
        device_config
    );
}

#[test]
fn test_vmm_vm_cold_add_user_device() {
    let mut vmm = create_dummy_vmm();
    let user_device_config = UserDeviceConfig {
        socket: "/path/to/socket".to_string(),
        id: Some("8".to_string()),
        pci_segment: 2,
        options: "socket=/path/to/socket,id=8,pci_segment=2".to_string(),
    };

    let step = vmm.vm_add_user_device(user_device_config.clone());
    assert!(matches!(
        finish(&mut vmm, step),
        Err(Failure::Vm(VmError::VmNotCreated))
    ));

    let _ = create(&mut vmm, create_dummy_vm_config());
    assert!(vmm.vm_config.as_ref().unwrap().user_devices.is_none());

    let step = vmm.vm_add_user_device(user_device_config.clone());
    assert_eq!(finish(&mut vmm, step).unwrap(), Reply::Data(None));
    assert_eq!(
        vmm.vm_config.as_ref().unwrap().user_devices.as_ref().unwrap().len(),
        1
    );
    assert_eq!(
        vmm.vm_config.as_ref().unwrap().user_devices.as_ref().unwrap()[0],
        user_device_config
    );
}

#[test]
fn test_vmm_vm_cold_add_disk() {
    let mut vmm = create_dummy_vmm();
    let disk_config = DiskConfig {
        path: Some("/path/to_file".to_string()),
        options: "path=/path/to_file".to_string(),
    };

    let step = vmm.vm_add_disk(disk_config.clone());
    assert!(matches!(
        finish(&mut vmm, step),
        Err(Failure::Vm(VmError::VmNotCreated))
    ));

    let _ = create(&mut vmm, create_dummy_vm_config());
    assert!(vmm.vm_config.as_ref().unwrap().disks.is_none());

    let step = vmm.vm_add_disk(disk_config.clone());
    assert_eq!(finish(&mut vmm, step).unwrap(), Reply::Data(None));
    assert_eq!(
        vmm.vm_config.as_ref().unwrap().disks.as_ref().unwrap().len(),
        1
    );
    assert_eq!(
        vmm.vm_config.as_ref().unwrap().disks.as_ref().unwrap()[0],
        disk_config
    );
}

#[test]
fn test_vmm_vm_cold_add_fs() {
    let mut vmm = create_dummy_vmm();
    let fs_config = FsConfig {
        tag: "mytag".to_string(),
        socket: "/tmp/sock".to_string(),
        options: "tag=mytag,socket=/tmp/sock".to_string(),
    };

    let step = vmm.vm_add_fs(fs_config.clone());
    assert!(matches!(
        finish(&mut vmm, step),
        Err(Failure::Vm(VmError::VmNotCreated))
    ));

    let _ = create(&mut vmm, create_dummy_vm_config());
    assert!(vmm.vm_config.as_ref().unwrap().fs.is_none());

    let step = vmm.vm_add_fs(fs_config.clone());
    assert_eq!(finish(&mut vmm, step).unwrap(), Reply::Data(None));
    assert_eq!(vmm.vm_config.as_ref().unwrap().fs.as_ref().unwrap().len(), 1);
    assert_eq!(
        vmm.vm_config.as_ref().unwrap().fs.as_ref().unwrap()[0],
        fs_config
    );
}

#[test]
fn test_vmm_vm_cold_add_pmem() {
    let mut vmm = create_dummy_vmm();
    let pmem_config = PmemConfig {
        file: "/tmp/pmem".to_string(),
        size: Some(128 << 20),
        options: "file=/tmp/pmem,size=128M".to_string(),
    };

    let step = vmm.vm_add_pmem(pmem_config.clone());
    assert!(matches!(
        finish(&mut vmm, step),
        Err(Failure::Vm(VmError::VmNotCreated))
    ));

    let _ = create(&mut vmm, create_dummy_vm_config());
    assert!(vmm.vm_config.as_ref().unwrap().pmem.is_none());

    let step = vmm.vm_add_pmem(pmem_config.clone());
    assert_eq!(finish(&mut vmm, step).unwrap(), Reply::Data(None));
    assert_eq!(
        vmm.vm_config.as_ref().unwrap().pmem.as_ref().unwrap().len(),
        1
    );
    assert_eq!(
        vmm.vm_config.as_ref().unwrap().pmem.as_ref().unwrap()[0],
        pmem_config
    );
}

#[test]
fn test_vmm_vm_cold_add_net() {
    let mut vmm = create_dummy_vmm();
    let net_config = NetConfig {
        id: None,
        mac: Some("de:ad:be:ef:12:34".to_string()),
        host_mac: Some("12:34:de:ad:be:ef".to_string()),
        vhost_user: true,
        vhost_socket: Some("/tmp/sock".to_string()),
        fds: None,
        options:
            "mac=de:ad:be:ef:12:34,host_mac=12:34:de:ad:be:ef,vhost_user=true,socket=/tmp/sock"
                .to_string(),
    };

    let step = vmm.vm_add_net(net_config.clone());
    assert!(matches!(
        finish(&mut vmm, step),
        Err(Failure::Vm(VmError::VmNotCreated))
    ));

    let _ = create(&mut vmm, create_dummy_vm_config());
    assert!(vmm.vm_config.as_ref().unwrap().net.is_none());

    let step = vmm.vm_add_net(net_config.clone());
    assert_eq!(finish(&mut vmm, step).unwrap(), Reply::Data(None));
    assert_eq!(vmm.vm_config.as_ref().unwrap().net.as_ref().unwrap().len(), 1);
    assert_eq!(
        vmm.vm_config.as_ref().unwrap().net.as_ref().unwrap()[0],
        net_config
    );
}

#[test]
fn test_vmm_vm_cold_add_vdpa() {
    let mut vmm = create_dummy_vmm();
    let vdpa_config = VdpaConfig {
        path: "/dev/vhost-vdpa".to_string(),
        num_queues: 2,
        options: "path=/dev/vhost-vdpa,num_queues=2".to_string(),
    };

    let step = vmm.vm_add_vdpa(vdpa_config.clone());
    assert!(matches!(
        finish(&mut vmm, step),
        Err(Failure::Vm(VmError::VmNotCreated))
    ));

    let _ = create(&mut vmm, create_dummy_vm_config());
    assert!(vmm.vm_config.as_ref().unwrap().vdpa.is_none());

    let step = vmm.vm_add_vdpa(vdpa_config.clone());
    assert_eq!(finish(&mut vmm, step).unwrap(), Reply::Data(None));
    assert_eq!(
        vmm.vm_config.as_ref().unwrap().vdpa.as_ref().unwrap().len(),
        1
    );
    assert_eq!(
        vmm.vm_config.as_ref().unwrap().vdpa.as_ref().unwrap()[0],
        vdpa_config
    );
}

#[test]
fn test_vmm_vm_cold_add_vsock() {
    let mut vmm = create_dummy_vmm();
    let vsock_config = VsockConfig {
        cid: 3,
        socket: "/tmp/sock".to_string(),
        iommu: true,
        options: "socket=/tmp/sock,cid=3,iommu=on".to_string(),
    };

    let step = vmm.vm_add_vsock(vsock_config.clone());
    assert!(matches!(
        finish(&mut vmm, step),
        Err(Failure::Vm(VmError::VmNotCreated))
    ));

    let _ = create(&mut vmm, create_dummy_vm_config());
    assert!(vmm.vm_config.as_ref().unwrap().vsock.is_none());

    let step = vmm.vm_add_vsock(vsock_config.clone());
    assert_eq!(finish(&mut vmm, step).unwrap(), Reply::Data(None));
    assert_eq!(
        vmm.vm_config.as_ref().unwrap().vsock.clone().unwrap(),
        vsock_config
    );
}
