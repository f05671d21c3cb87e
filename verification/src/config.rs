//! The configuration of a virtual machine, as far as the monitor reads it.
//! What it only hands on to the machine stands in the `options` of each part.

use vstd::prelude::*;

verus! {

/// How the processors are laid out.
#[derive(Debug, Clone, Copy, PartialEq, Eq, Structural)]
pub struct CpuTopology {
    /// Threads of a core.
    pub threads_per_core: u16,
    /// Cores of a die.
    pub cores_per_die: u16,
    /// Dies of a package.
    pub dies_per_package: u16,
    /// Packages.
    pub packages: u16,
}

/// Optional processor features.
#[derive(Debug, Clone, Copy, PartialEq, Eq, Structural)]
pub struct CpuFeatures {
    /// Advanced matrix extensions.
    pub amx: bool,
}

/// The processors.
#[derive(Debug, Clone, Copy, PartialEq, Eq, Structural)]
pub struct CpusConfig {
    /// How many processors the machine boots with.
    pub boot_vcpus: u32,
    /// How many it may grow to.
    pub max_vcpus: u32,
    /// How they are laid out.
    pub topology: Option<CpuTopology>,
    /// Whether Hyper-V is emulated.
    pub kvm_hyperv: bool,
    /// The widest physical address.
    pub max_phys_bits: u8,
    /// Optional features.
    pub features: CpuFeatures,
}

/// How memory is added to a running machine.
#[derive(Debug, Clone, Copy, PartialEq, Eq, Structural)]
pub enum HotplugMethod {
    /// By ACPI.
    Acpi,
    /// By virtio-mem.
    VirtioMem,
}

/// A zone of memory.
#[derive(Debug, PartialEq, Eq)]
pub struct MemoryZoneConfig {
    /// The name of the zone.
    pub id: String,
    /// Its size in bytes.
    pub size: u64,
    /// Settings that the monitor hands on.
    pub options: String,
}

impl Clone for MemoryZoneConfig {
    fn clone(&self) -> (r: Self)
        ensures
            r == *self,
    {
        MemoryZoneConfig {
            id: self.id.clone(),
            size: self.size,
            options: self.options.clone(),
        }
    }
}

/// The memory.
#[derive(Debug, PartialEq, Eq)]
pub struct MemoryConfig {
    /// Its size in bytes.
    pub size: u64,
    /// Whether equal pages may be merged.
    pub mergeable: bool,
    /// How memory is added later.
    pub hotplug_method: HotplugMethod,
    /// How much may be added later.
    pub hotplug_size: Option<u64>,
    /// How much has been added.
    pub hotplugged_size: Option<u64>,
    /// Whether the memory is shared.
    pub shared: bool,
    /// Whether huge pages are used.
    pub hugepages: bool,
    /// Their size.
    pub hugepage_size: Option<u64>,
    /// Whether pages are touched before they are needed.
    pub prefault: bool,
    /// The zones, where memory is divided into zones.
    pub zones: Option<Vec<MemoryZoneConfig>>,
    /// Whether transparent huge pages are used.
    pub thp: bool,
}

/// What the machine boots.
#[derive(Debug, PartialEq, Eq)]
pub struct PayloadConfig {
    /// The firmware.
    pub firmware: Option<String>,
    /// The kernel.
    pub kernel: Option<String>,
    /// The kernel's command line.
    pub cmdline: Option<String>,
    /// The initial file system.
    pub initramfs: Option<String>,
}

impl Clone for PayloadConfig {
    fn clone(&self) -> (r: Self)
        ensures
            r == *self,
    {
        PayloadConfig {
            firmware: clone_text(&self.firmware),
            kernel: clone_text(&self.kernel),
            cmdline: clone_text(&self.cmdline),
            initramfs: clone_text(&self.initramfs),
        }
    }
}

/// A passed-through device.
#[derive(Debug, PartialEq, Eq)]
pub struct DeviceConfig {
    /// Where the host keeps the device.
    pub path: String,
    /// Settings that the monitor hands on.
    pub options: String,
}

impl Clone for DeviceConfig {
    fn clone(&self) -> (r: Self)
        ensures
            r == *self,
    {
        DeviceConfig { path: self.path.clone(), options: self.options.clone() }
    }
}

/// A device that another process provides.
#[derive(Debug, PartialEq, Eq)]
pub struct UserDeviceConfig {
    /// The socket of that process.
    pub socket: String,
    /// The name of the device.
    pub id: Option<String>,
    /// The PCI segment to put it in.
    pub pci_segment: u16,
    /// Settings that the monitor hands on.
    pub options: String,
}

impl Clone for UserDeviceConfig {
    fn clone(&self) -> (r: Self)
        ensures
            r == *self,
    {
        UserDeviceConfig {
            socket: self.socket.clone(),
            id: clone_text(&self.id),
            pci_segment: self.pci_segment,
            options: self.options.clone(),
        }
    }
}

/// A disk.
#[derive(Debug, PartialEq, Eq)]
pub struct DiskConfig {
    /// The image.
    pub path: Option<String>,
    /// Settings that the monitor hands on.
    pub options: String,
}

impl Clone for DiskConfig {
    fn clone(&self) -> (r: Self)
        ensures
            r == *self,
    {
        DiskConfig { path: clone_text(&self.path), options: self.options.clone() }
    }
}

/// A shared file system.
#[derive(Debug, PartialEq, Eq)]
pub struct FsConfig {
    /// The name under which the guest mounts it.
    pub tag: String,
    /// The socket of the process that serves it.
    pub socket: String,
    /// Settings that the monitor hands on.
    pub options: String,
}

impl Clone for FsConfig {
    fn clone(&self) -> (r: Self)
        ensures
            r == *self,
    {
        FsConfig {
            tag: self.tag.clone(),
            socket: self.socket.clone(),
            options: self.options.clone(),
        }
    }
}

/// Persistent memory.
#[derive(Debug, PartialEq, Eq)]
pub struct PmemConfig {
    /// The file behind it.
    pub file: String,
    /// Its size in bytes.
    pub size: Option<u64>,
    /// Settings that the monitor hands on.
    pub options: String,
}

impl Clone for PmemConfig {
    fn clone(&self) -> (r: Self)
        ensures
            r == *self,
    {
        PmemConfig { file: self.file.clone(), size: self.size, options: self.options.clone() }
    }
}

/// A network device.
#[derive(Debug, PartialEq, Eq)]
pub struct NetConfig {
    /// The name of the device.
    pub id: Option<String>,
    /// The guest's address.
    pub mac: Option<String>,
    /// The host's address.
    pub host_mac: Option<String>,
    /// Whether another process serves it.
    pub vhost_user: bool,
    /// The socket of that process.
    pub vhost_socket: Option<String>,
    /// The descriptors behind the device, where descriptors back it.
    pub fds: Option<Vec<i32>>,
    /// Settings that the monitor hands on.
    pub options: String,
}

/// The model of a network device.
#[verifier::ext_equal]
pub struct NetConfigView {
    pub id: Option<String>,
    pub mac: Option<String>,
    pub host_mac: Option<String>,
    pub vhost_user: bool,
    pub vhost_socket: Option<String>,
    pub fds: Option<Seq<i32>>,
    pub options: String,
}

impl View for NetConfig {
    type V = NetConfigView;

    open spec fn view(&self) -> NetConfigView {
        NetConfigView {
            id: self.id,
            mac: self.mac,
            host_mac: self.host_mac,
            vhost_user: self.vhost_user,
            vhost_socket: self.vhost_socket,
            fds: items(self.fds),
            options: self.options,
        }
    }
}

impl Clone for NetConfig {
    fn clone(&self) -> (r: Self)
        ensures
            r@ == self@,
    {
        NetConfig {
            id: clone_text(&self.id),
            mac: clone_text(&self.mac),
            host_mac: clone_text(&self.host_mac),
            vhost_user: self.vhost_user,
            vhost_socket: clone_text(&self.vhost_socket),
            fds: clone_fds(&self.fds),
            options: self.options.clone(),
        }
    }
}

/// A vDPA device.
#[derive(Debug, PartialEq, Eq)]
pub struct VdpaConfig {
    /// Where the host keeps the device.
    pub path: String,
    /// How many queues it has.
    pub num_queues: u64,
    /// Settings that the monitor hands on.
    pub options: String,
}

impl Clone for VdpaConfig {
    fn clone(&self) -> (r: Self)
        ensures
            r == *self,
    {
        VdpaConfig {
            path: self.path.clone(),
            num_queues: self.num_queues,
            options: self.options.clone(),
        }
    }
}

/// A vsock device.
#[derive(Debug, PartialEq, Eq)]
pub struct VsockConfig {
    /// The guest's number.
    pub cid: u32,
    /// The host's socket.
    pub socket: String,
    /// Whether it stands behind the virtual IOMMU.
    pub iommu: bool,
    /// Settings that the monitor hands on.
    pub options: String,
}

impl Clone for VsockConfig {
    fn clone(&self) -> (r: Self)
        ensures
            r == *self,
    {
        VsockConfig {
            cid: self.cid,
            socket: self.socket.clone(),
            iommu: self.iommu,
            options: self.options.clone(),
        }
    }
}

/// The memory balloon.
#[derive(Debug, PartialEq, Eq)]
pub struct BalloonConfig {
    /// Its size in bytes.
    pub size: u64,
    /// Settings that the monitor hands on.
    pub options: String,
}

impl Clone for BalloonConfig {
    fn clone(&self) -> (r: Self)
        ensures
            r == *self,
    {
        BalloonConfig { size: self.size, options: self.options.clone() }
    }
}

/// The source of random numbers.
#[derive(Debug, PartialEq, Eq)]
pub struct RngConfig {
    /// Where the host has them from.
    pub src: String,
    /// Whether it stands behind the virtual IOMMU.
    pub iommu: bool,
}

impl Clone for RngConfig {
    fn clone(&self) -> (r: Self)
        ensures
            r == *self,
    {
        RngConfig { src: self.src.clone(), iommu: self.iommu }
    }
}

/// Where the output of a console goes.
#[derive(Debug, Clone, Copy, PartialEq, Eq, Structural)]
pub enum ConsoleOutputMode {
    /// There is no console.
    Off,
    /// To a pseudoterminal.
    Pty,
    /// To the terminal.
    Tty,
    /// To a file.
    File,
    /// To a socket.
    Socket,
    /// Nowhere.
    Null,
}

/// A console.
#[derive(Debug, PartialEq, Eq)]
pub struct ConsoleConfig {
    /// The file it writes to.
    pub file: Option<String>,
    /// Where its output goes.
    pub mode: ConsoleOutputMode,
    /// Whether it stands behind the virtual IOMMU.
    pub iommu: bool,
    /// The socket it writes to.
    pub socket: Option<String>,
}

impl Clone for ConsoleConfig {
    fn clone(&self) -> (r: Self)
        ensures
            r == *self,
    {
        ConsoleConfig {
            file: clone_text(&self.file),
            mode: self.mode,
            iommu: self.iommu,
            socket: clone_text(&self.socket),
        }
    }
}

/// The configuration of a virtual machine.
#[derive(Debug, PartialEq, Eq)]
pub struct VmConfig {
    /// The processors.
    pub cpus: CpusConfig,
    /// The memory.
    pub memory: MemoryConfig,
    /// What the machine boots.
    pub payload: Option<PayloadConfig>,
    /// The disks.
    pub disks: Option<Vec<DiskConfig>>,
    /// The network devices.
    pub net: Option<Vec<NetConfig>>,
    /// The source of random numbers.
    pub rng: RngConfig,
    /// The memory balloon.
    pub balloon: Option<BalloonConfig>,
    /// The shared file systems.
    pub fs: Option<Vec<FsConfig>>,
    /// The persistent memory.
    pub pmem: Option<Vec<PmemConfig>>,
    /// The serial console.
    pub serial: ConsoleConfig,
    /// The virtio console.
    pub console: ConsoleConfig,
    /// The passed-through devices.
    pub devices: Option<Vec<DeviceConfig>>,
    /// The devices that other processes provide.
    pub user_devices: Option<Vec<UserDeviceConfig>>,
    /// The vDPA devices.
    pub vdpa: Option<Vec<VdpaConfig>>,
    /// The vsock device.
    pub vsock: Option<VsockConfig>,
    /// Whether the guest can report a panic.
    pub pvpanic: bool,
    /// Whether there is a virtual IOMMU.
    pub iommu: bool,
    /// Whether there is a watchdog.
    pub watchdog: bool,
    /// Whether the machine is a TDX guest.
    pub tdx: bool,
    /// Whether the monitor confines itself by Landlock.
    pub landlock_enable: bool,
    /// Settings that the monitor hands on.
    pub options: String,
}

/// The model of the memory.
#[verifier::ext_equal]
pub struct MemoryConfigView {
    pub size: u64,
    pub mergeable: bool,
    pub hotplug_method: HotplugMethod,
    pub hotplug_size: Option<u64>,
    pub hotplugged_size: Option<u64>,
    pub shared: bool,
    pub hugepages: bool,
    pub hugepage_size: Option<u64>,
    pub prefault: bool,
    pub zones: Option<Seq<MemoryZoneConfig>>,
    pub thp: bool,
}

/// The model of a configuration: its lists are sequences.
#[verifier::ext_equal]
pub struct VmConfigView {
    pub cpus: CpusConfig,
    pub memory: MemoryConfigView,
    pub payload: Option<PayloadConfig>,
    pub disks: Option<Seq<DiskConfig>>,
    pub net: Option<Seq<NetConfigView>>,
    pub rng: RngConfig,
    pub balloon: Option<BalloonConfig>,
    pub fs: Option<Seq<FsConfig>>,
    pub pmem: Option<Seq<PmemConfig>>,
    pub serial: ConsoleConfig,
    pub console: ConsoleConfig,
    pub devices: Option<Seq<DeviceConfig>>,
    pub user_devices: Option<Seq<UserDeviceConfig>>,
    pub vdpa: Option<Seq<VdpaConfig>>,
    pub vsock: Option<VsockConfig>,
    pub pvpanic: bool,
    pub iommu: bool,
    pub watchdog: bool,
    pub tdx: bool,
    pub landlock_enable: bool,
    pub options: String,
}

/// The items of a list that may be missing.
pub open spec fn items<T>(list: Option<Vec<T>>) -> Option<Seq<T>> {
    match list {
        Some(list) => Some(list@),
        None => None,
    }
}

/// The models of some network devices.
pub open spec fn net_views(list: Seq<NetConfig>) -> Seq<NetConfigView> {
    list.map_values(|n: NetConfig| n@)
}

/// The models of the network devices of a list that may be missing.
pub open spec fn net_items(list: Option<Vec<NetConfig>>) -> Option<Seq<NetConfigView>> {
    match list {
        Some(list) => Some(net_views(list@)),
        None => None,
    }
}

impl View for MemoryConfig {
    type V = MemoryConfigView;

    open spec fn view(&self) -> MemoryConfigView {
        MemoryConfigView {
            size: self.size,
            mergeable: self.mergeable,
            hotplug_method: self.hotplug_method,
            hotplug_size: self.hotplug_size,
            hotplugged_size: self.hotplugged_size,
            shared: self.shared,
            hugepages: self.hugepages,
            hugepage_size: self.hugepage_size,
            prefault: self.prefault,
            zones: items(self.zones),
            thp: self.thp,
        }
    }
}

impl View for VmConfig {
    type V = VmConfigView;

    open spec fn view(&self) -> VmConfigView {
        VmConfigView {
            cpus: self.cpus,
            memory: self.memory@,
            payload: self.payload,
            disks: items(self.disks),
            net: net_items(self.net),
            rng: self.rng,
            balloon: self.balloon,
            fs: items(self.fs),
            pmem: items(self.pmem),
            serial: self.serial,
            console: self.console,
            devices: items(self.devices),
            user_devices: items(self.user_devices),
            vdpa: items(self.vdpa),
            vsock: self.vsock,
            pvpanic: self.pvpanic,
            iommu: self.iommu,
            watchdog: self.watchdog,
            tdx: self.tdx,
            landlock_enable: self.landlock_enable,
            options: self.options,
        }
    }
}

/// A copy of a text that may be missing.
fn clone_text(text: &Option<String>) -> (r: Option<String>)
    ensures
        r == *text,
{
    match text {
        Some(text) => Some(text.clone()),
        None => None,
    }
}

/// A copy of a list of descriptors that may be missing.
fn clone_fds(fds: &Option<Vec<i32>>) -> (r: Option<Vec<i32>>)
    ensures
        items(r) == items(*fds),
{
    match fds {
        Some(fds) => {
            let copy: Vec<i32> = fds.clone();
            assert(copy@ =~= fds@);
            Some(copy)
        },
        None => None,
    }
}

/// A copy of a list that may be missing.
fn clone_items<T: Clone>(list: &Option<Vec<T>>) -> (r: Option<Vec<T>>)
    requires
        forall|a: T, b: T| #[trigger] cloned::<T>(a, b) ==> a == b,
    ensures
        items(r) == items(*list),
{
    match list {
        Some(list) => {
            let copy: Vec<T> = list.clone();
            assert(copy@ =~= list@) by {
                assert forall|i: int| 0 <= i < list@.len() implies copy@[i] == list@[i] by {
                    assert(cloned::<T>(list[i], copy[i]));
                }
            }
            Some(copy)
        },
        None => None,
    }
}

/// A copy of a list of network devices that may be missing.
fn clone_net(list: &Option<Vec<NetConfig>>) -> (r: Option<Vec<NetConfig>>)
    ensures
        net_items(r) == net_items(*list),
{
    match list {
        Some(list) => {
            let copy: Vec<NetConfig> = list.clone();
            assert(net_views(copy@) =~= net_views(list@)) by {
                assert forall|i: int| 0 <= i < list@.len() implies copy@[i]@ == list@[i]@ by {
                    assert(cloned::<NetConfig>(list[i], copy[i]));
                }
            }
            Some(copy)
        },
        None => None,
    }
}

impl Clone for MemoryConfig {
    fn clone(&self) -> (r: Self)
        ensures
            r@ == self@,
    {
        MemoryConfig {
            size: self.size,
            mergeable: self.mergeable,
            hotplug_method: self.hotplug_method,
            hotplug_size: self.hotplug_size,
            hotplugged_size: self.hotplugged_size,
            shared: self.shared,
            hugepages: self.hugepages,
            hugepage_size: self.hugepage_size,
            prefault: self.prefault,
            zones: clone_items(&self.zones),
            thp: self.thp,
        }
    }
}

impl Clone for VmConfig {
    fn clone(&self) -> (r: Self)
        ensures
            r@ == self@,
    {
        VmConfig {
            cpus: self.cpus,
            memory: self.memory.clone(),
            payload: match &self.payload {
                Some(payload) => Some(payload.clone()),
                None => None,
            },
            disks: clone_items(&self.disks),
            net: clone_net(&self.net),
            rng: self.rng.clone(),
            balloon: match &self.balloon {
                Some(balloon) => Some(balloon.clone()),
                None => None,
            },
            fs: clone_items(&self.fs),
            pmem: clone_items(&self.pmem),
            serial: self.serial.clone(),
            console: self.console.clone(),
            devices: clone_items(&self.devices),
            user_devices: clone_items(&self.user_devices),
            vdpa: clone_items(&self.vdpa),
            vsock: match &self.vsock {
                Some(vsock) => Some(vsock.clone()),
                None => None,
            },
            pvpanic: self.pvpanic,
            iommu: self.iommu,
            watchdog: self.watchdog,
            tdx: self.tdx,
            landlock_enable: self.landlock_enable,
            options: self.options.clone(),
        }
    }
}

/// A list with one more item at its end. A missing list counts as empty.
pub open spec fn appended<T>(list: Option<Seq<T>>, item: T) -> Option<Seq<T>> {
    match list {
        Some(list) => Some(list.push(item)),
        None => Some(seq![item]),
    }
}

/// Puts `item` at the end of `list`, which comes to be where it was missing.
pub fn add_to_config<T>(list: &mut Option<Vec<T>>, item: T)
    ensures
        items(*final(list)) == appended(items(*old(list)), item),
{
    match list.take() {
        Some(mut present) => {
            present.push(item);
            *list = Some(present);
        },
        None => {
            let mut fresh: Vec<T> = Vec::new();
            fresh.push(item);
            assert(fresh@ =~= seq![item]);
            *list = Some(fresh);
        },
    }
}

/// A device to add to a machine.
#[derive(Debug, PartialEq, Eq)]
pub enum Device {
    /// A passed-through device.
    Vfio(DeviceConfig),
    /// A device that another process provides.
    User(UserDeviceConfig),
    /// A disk.
    Disk(DiskConfig),
    /// A shared file system.
    Fs(FsConfig),
    /// Persistent memory.
    Pmem(PmemConfig),
    /// A network device.
    Net(NetConfig),
    /// A vDPA device.
    Vdpa(VdpaConfig),
    /// A vsock device.
    Vsock(VsockConfig),
}

/// `config` with `device` added: at the end of the list of its kind, or as the
/// machine's one vsock device.
pub open spec fn with_device(config: VmConfigView, device: Device) -> VmConfigView {
    match device {
        Device::Vfio(d) => VmConfigView { devices: appended(config.devices, d), ..config },
        Device::User(d) => VmConfigView { user_devices: appended(config.user_devices, d), ..config },
        Device::Disk(d) => VmConfigView { disks: appended(config.disks, d), ..config },
        Device::Fs(d) => VmConfigView { fs: appended(config.fs, d), ..config },
        Device::Pmem(d) => VmConfigView { pmem: appended(config.pmem, d), ..config },
        Device::Net(d) => VmConfigView { net: appended(config.net, d@), ..config },
        Device::Vdpa(d) => VmConfigView { vdpa: appended(config.vdpa, d), ..config },
        Device::Vsock(d) => VmConfigView { vsock: Some(d), ..config },
    }
}

/// Whether two devices have the same model.
pub open spec fn same_device(a: Device, b: Device) -> bool {
    match (a, b) {
        (Device::Net(a), Device::Net(b)) => a@ == b@,
        _ => a == b,
    }
}

impl Clone for Device {
    fn clone(&self) -> (r: Self)
        ensures
            same_device(r, *self),
    {
        match self {
            Device::Vfio(d) => Device::Vfio(d.clone()),
            Device::User(d) => Device::User(d.clone()),
            Device::Disk(d) => Device::Disk(d.clone()),
            Device::Fs(d) => Device::Fs(d.clone()),
            Device::Pmem(d) => Device::Pmem(d.clone()),
            Device::Net(d) => Device::Net(d.clone()),
            Device::Vdpa(d) => Device::Vdpa(d.clone()),
            Device::Vsock(d) => Device::Vsock(d.clone()),
        }
    }
}

/// `config` with other sizes, where others are desired. A balloon that the
/// machine does not have is not made.
pub open spec fn resized(
    config: VmConfigView,
    desired_vcpus: Option<u32>,
    desired_ram: Option<u64>,
    desired_balloon: Option<u64>,
) -> VmConfigView {
    VmConfigView {
        cpus: match desired_vcpus {
            Some(vcpus) => CpusConfig { boot_vcpus: vcpus, ..config.cpus },
            None => config.cpus,
        },
        memory: match desired_ram {
            Some(ram) => MemoryConfigView { size: ram, ..config.memory },
            None => config.memory,
        },
        balloon: match (desired_balloon, config.balloon) {
            (Some(size), Some(balloon)) => Some(BalloonConfig { size, ..balloon }),
            _ => config.balloon,
        },
        ..config
    }
}

/// Whether `i` is the first of the zones that is named `id`.
pub open spec fn is_first_zone(zones: Seq<MemoryZoneConfig>, id: Seq<char>, i: int) -> bool {
    &&& 0 <= i < zones.len()
    &&& zones[i].id@ == id
    &&& forall|j: int| 0 <= j < i ==> (#[trigger] zones[j]).id@ != id
}

/// Whether `config` has a zone named `id`.
pub open spec fn has_zone(config: VmConfigView, id: Seq<char>) -> bool {
    config.memory.zones matches Some(zones) && exists|i: int| is_first_zone(zones, id, i)
}

/// `config` with another size of its first zone named `id`, where there is
/// one.
pub open spec fn zone_resized(config: VmConfigView, id: Seq<char>, ram: u64) -> VmConfigView {
    if has_zone(config, id) {
        let zones = config.memory.zones->0;
        let i = choose|i: int| is_first_zone(zones, id, i);
        VmConfigView {
            memory: MemoryConfigView {
                zones: Some(zones.update(i, MemoryZoneConfig { size: ram, ..zones[i] })),
                ..config.memory
            },
            ..config
        }
    } else {
        config
    }
}

impl VmConfig {
    /// Adds `device`.
    pub fn add_device(&mut self, device: Device)
        ensures
            final(self)@ == with_device(old(self)@, device),
    {
        match device {
            Device::Vfio(d) => add_to_config(&mut self.devices, d),
            Device::User(d) => add_to_config(&mut self.user_devices, d),
            Device::Disk(d) => add_to_config(&mut self.disks, d),
            Device::Fs(d) => add_to_config(&mut self.fs, d),
            Device::Pmem(d) => add_to_config(&mut self.pmem, d),
            Device::Net(d) => {
                let ghost before = items(self.net);
                add_to_config(&mut self.net, d);
                proof {
                    assert(net_items(self.net) == appended(net_items(old(self).net), d@)) by {
                        match before {
                            Some(list) => {
                                assert(net_views(list.push(d)) =~= net_views(list).push(d@));
                            },
                            None => {
                                assert(net_views(seq![d]) =~= seq![d@]);
                            },
                        }
                    }
                }
            },
            Device::Vdpa(d) => add_to_config(&mut self.vdpa, d),
            Device::Vsock(d) => {
                self.vsock = Some(d);
            },
        }
    }

    /// Sets the sizes that are desired.
    pub fn resize(
        &mut self,
        desired_vcpus: Option<u32>,
        desired_ram: Option<u64>,
        desired_balloon: Option<u64>,
    )
        ensures
            final(self)@ == resized(old(self)@, desired_vcpus, desired_ram, desired_balloon),
    {
        let cpus = match desired_vcpus {
            Some(boot_vcpus) => CpusConfig { boot_vcpus, ..self.cpus },
            None => self.cpus,
        };
        let ram: u64 = match desired_ram {
            Some(ram) => ram,
            None => self.memory.size,
        };
        let balloon = match self.balloon.take() {
            Some(balloon) => match desired_balloon {
                Some(size) => Some(BalloonConfig { size, ..balloon }),
                None => Some(balloon),
            },
            None => None,
        };
        self.cpus = cpus;
        self.memory.size = ram;
        self.balloon = balloon;
    }

    /// Whether there is a memory zone named `id`.
    pub fn names_zone(&self, id: &String) -> (found: bool)
        ensures
            found == has_zone(self@, id@),
    {
        match &self.memory.zones {
            Some(zones) => {
                let mut i: usize = 0;
                while i < zones.len()
                    invariant
                        i <= zones.len(),
                        forall|j: int| 0 <= j < i ==> (#[trigger] zones@[j]).id@ != id@,
                        self@.memory.zones == Some(zones@),
                    decreases zones.len() - i,
                {
                    if zones[i].id == *id {
                        assert(is_first_zone(self@.memory.zones->0, id@, i as int));
                        return true;
                    }
                    i = i + 1;
                }
                assert(forall|k: int| !is_first_zone(zones@, id@, k));
                false
            },
            None => false,
        }
    }

    /// Sets the size of the first memory zone named `id`, and says whether
    /// there is one.
    pub fn resize_zone(&mut self, id: &String, ram: u64) -> (found: bool)
        ensures
            found == has_zone(old(self)@, id@),
            final(self)@ == zone_resized(old(self)@, id@, ram),
    {
        let ghost before = self@;
        match self.memory.zones.take() {
            Some(mut zones) => {
                let ghost all = zones@;
                let mut i: usize = 0;
                while i < zones.len()
                    invariant
                        zones@ == all,
                        forall|j: int| 0 <= j < i ==> (#[trigger] all[j]).id@ != id@,
                        i <= zones.len(),
                        self@ == (VmConfigView {
                            memory: MemoryConfigView { zones: None, ..before.memory },
                            ..before
                        }),
                        before.memory.zones == Some(all),
                        before == old(self)@,
                    decreases zones.len() - i,
                {
                    if zones[i].id == *id {
                        assert(is_first_zone(all, id@, i as int));
                        assert forall|k: int| is_first_zone(all, id@, k) implies k == i by {
                            if k < i {
                                assert(all[k].id@ != id@);
                            } else if i < k {
                                assert(all[i as int].id@ != id@);
                            }
                        }
                        let zone = MemoryZoneConfig {
                            id: zones[i].id.clone(),
                            size: ram,
                            options: zones[i].options.clone(),
                        };
                        zones.set(i, zone);
                        self.memory.zones = Some(zones);
                        return true;
                    }
                    i = i + 1;
                }
                assert(forall|k: int| !is_first_zone(all, id@, k));
                self.memory.zones = Some(zones);
                false
            },
            None => false,
        }
    }
}

/// New descriptors for a network device of a restored machine.
#[derive(Debug, PartialEq, Eq)]
pub struct RestoredNetConfig {
    /// The name of the device.
    pub id: String,
    /// Its descriptors.
    pub fds: Option<Vec<i32>>,
}

/// Where and how a machine is restored.
#[derive(Debug, PartialEq, Eq)]
pub struct RestoreConfig {
    /// The URL to restore from; `None` where the path is no text.
    pub source_url: Option<String>,
    /// Whether memory is read before it is needed.
    pub prefault: bool,
    /// New descriptors of network devices.
    pub net_fds: Option<Vec<RestoredNetConfig>>,
}

/// A network device under new descriptors: it takes them where they bear its
/// name and descriptors back it.
pub open spec fn with_fds(net: NetConfigView, restored: RestoredNetConfig) -> NetConfigView {
    if net.fds is Some && (net.id matches Some(id) && id@ == restored.id@) {
        NetConfigView { fds: items(restored.fds), ..net }
    } else {
        net
    }
}

/// Network devices under some new descriptors, one after the other.
pub open spec fn with_all_fds(
    nets: Seq<NetConfigView>,
    restored: Seq<RestoredNetConfig>,
) -> Seq<NetConfigView>
    decreases restored.len(),
{
    if restored.len() == 0 {
        nets
    } else {
        with_all_fds(nets, restored.drop_last()).map_values(
            |n: NetConfigView| with_fds(n, restored.last()),
        )
    }
}

/// A configuration under some new descriptors of network devices.
pub open spec fn with_net_fds(
    config: VmConfigView,
    restored: Option<Seq<RestoredNetConfig>>,
) -> VmConfigView {
    match (restored, config.net) {
        (Some(restored), Some(nets)) => VmConfigView {
            net: Some(with_all_fds(nets, restored)),
            ..config
        },
        _ => config,
    }
}

/// Gives every network device that bears the name of `restored`, and that
/// descriptors back, the descriptors of `restored`.
fn adopt_fds(nets: &mut Vec<NetConfig>, restored: &RestoredNetConfig)
    ensures
        net_views(final(nets)@) == net_views(old(nets)@).map_values(
            |n: NetConfigView| with_fds(n, *restored),
        ),
{
    let ghost before = nets@;
    let mut i: usize = 0;
    while i < nets.len()
        invariant
            i <= nets.len(),
            nets@.len() == before.len(),
            forall|j: int| 0 <= j < i ==> (#[trigger] nets@[j])@ == with_fds(before[j]@, *restored),
            forall|j: int| i <= j < nets@.len() ==> #[trigger] nets@[j] == before[j],
        decreases nets.len() - i,
    {
        let named = match &nets[i].id {
            Some(id) => *id == restored.id,
            None => false,
        };
        if named && nets[i].fds.is_some() {
            let net = NetConfig {
                id: clone_text(&nets[i].id),
                mac: clone_text(&nets[i].mac),
                host_mac: clone_text(&nets[i].host_mac),
                vhost_user: nets[i].vhost_user,
                vhost_socket: clone_text(&nets[i].vhost_socket),
                fds: clone_fds(&restored.fds),
                options: nets[i].options.clone(),
            };
            assert(net@ == with_fds(before[i as int]@, *restored));
            nets.set(i, net);
        } else {
            assert(nets@[i as int]@ == with_fds(before[i as int]@, *restored));
        }
        i = i + 1;
    }
    assert(net_views(nets@) =~= net_views(before).map_values(
        |n: NetConfigView| with_fds(n, *restored),
    ));
}

impl VmConfig {
    /// Gives the network devices their new descriptors, where there are any.
    pub fn adopt_net_fds(&mut self, restored: &Option<Vec<RestoredNetConfig>>)
        ensures
            final(self)@ == with_net_fds(old(self)@, items(*restored)),
    {
        if let Some(restored) = restored {
            if let Some(mut nets) = self.net.take() {
                let ghost before = net_views(nets@);
                let mut i: usize = 0;
                assert(restored@.take(0) =~= Seq::<RestoredNetConfig>::empty());
                while i < restored.len()
                    invariant
                        i <= restored.len(),
                        net_views(nets@) == with_all_fds(before, restored@.take(i as int)),
                    decreases restored.len() - i,
                {
                    adopt_fds(&mut nets, &restored[i]);
                    assert(restored@.take(i + 1).drop_last() =~= restored@.take(i as int));
                    i = i + 1;
                }
                assert(restored@.take(i as int) =~= restored@);
                self.net = Some(nets);
            }
        }
    }
}

} // verus!
