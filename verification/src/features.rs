//! What the monitor was built with.

use vstd::prelude::*;

verus! {

/// The optional parts of the monitor, and whether they are built in.
#[derive(Debug, Clone, Copy, PartialEq, Eq, Structural)]
pub struct Features {
    /// The D-Bus API.
    pub dbus_api: bool,
    /// Heap profiling.
    pub dhat_heap: bool,
    /// Debugging of the guest.
    pub guest_debug: bool,
    /// IGVM images.
    pub igvm: bool,
    /// Block devices over io_uring.
    pub io_uring: bool,
    /// The KVM hypervisor.
    pub kvm: bool,
    /// The Microsoft hypervisor.
    pub mshv: bool,
    /// AMD SEV-SNP guests.
    pub sev_snp: bool,
    /// Intel TDX guests.
    pub tdx: bool,
    /// Tracing.
    pub tracing: bool,
}

/// What the monitor was built for.
#[derive(Debug, Clone, Copy, PartialEq, Eq, Structural)]
pub struct Build {
    /// The optional parts that are built in.
    pub features: Features,
    /// Whether the target is x86-64.
    pub x86_64: bool,
}

impl Build {
    /// Whether CPUID is compared when a machine moves between hosts: under
    /// KVM, on x86-64.
    pub open spec fn spec_compares_cpuid(self) -> bool {
        self.features.kvm && self.x86_64
    }

    /// Whether CPUID is compared when a machine moves between hosts.
    pub fn compares_cpuid(&self) -> (r: bool)
        ensures
            r == self.spec_compares_cpuid(),
    {
        self.features.kvm && self.x86_64
    }
}

/// `name` alone where it is `on`, and nothing otherwise.
pub open spec fn listed(on: bool, name: Seq<char>) -> Seq<Seq<char>> {
    if on {
        seq![name]
    } else {
        Seq::empty()
    }
}

/// The names of the parts that are built in, in alphabetical order.
pub open spec fn feature_names(f: Features) -> Seq<Seq<char>> {
    listed(f.dbus_api, "dbus_api"@) + listed(f.dhat_heap, "dhat-heap"@) + listed(
        f.guest_debug,
        "guest_debug"@,
    ) + listed(f.igvm, "igvm"@) + listed(f.io_uring, "io_uring"@) + listed(f.kvm, "kvm"@) + listed(
        f.mshv,
        "mshv"@,
    ) + listed(f.sev_snp, "sev_snp"@) + listed(f.tdx, "tdx"@) + listed(f.tracing, "tracing"@)
}

/// The texts of some strings.
pub open spec fn texts(strings: Seq<String>) -> Seq<Seq<char>> {
    strings.map_values(|s: String| s@)
}

/// Puts `name` at the end of `list` where it is `on`.
fn list(list: &mut Vec<String>, on: bool, name: &str)
    ensures
        texts(final(list)@) == texts(old(list)@) + listed(on, name@),
{
    if on {
        list.push(name.to_owned());
    }
    assert(texts(list@) =~= texts(old(list)@) + listed(on, name@));
}

/// The names of the parts that are built in, in alphabetical order.
pub fn feature_list(features: &Features) -> (names: Vec<String>)
    ensures
        texts(names@) == feature_names(*features),
{
    let mut names: Vec<String> = Vec::new();
    assert(texts(names@) =~= Seq::<Seq<char>>::empty());
    list(&mut names, features.dbus_api, "dbus_api");
    assert(texts(names@) =~= listed(features.dbus_api, "dbus_api"@));
    list(&mut names, features.dhat_heap, "dhat-heap");
    list(&mut names, features.guest_debug, "guest_debug");
    list(&mut names, features.igvm, "igvm");
    list(&mut names, features.io_uring, "io_uring");
    list(&mut names, features.kvm, "kvm");
    list(&mut names, features.mshv, "mshv");
    list(&mut names, features.sev_snp, "sev_snp");
    list(&mut names, features.tdx, "tdx");
    list(&mut names, features.tracing, "tracing");
    names
}

/// The version of the monitor.
#[derive(Debug, PartialEq, Eq)]
pub struct VmmVersionInfo {
    /// The version that the build system gave.
    pub build_version: String,
    /// The version of the release.
    pub version: String,
}

impl VmmVersionInfo {
    /// A version from its two texts.
    pub fn new(build_version: &str, version: &str) -> (info: Self)
        ensures
            info.build_version@ == build_version@,
            info.version@ == version@,
    {
        VmmVersionInfo { build_version: build_version.to_owned(), version: version.to_owned() }
    }
}

impl Clone for VmmVersionInfo {
    fn clone(&self) -> (r: Self)
        ensures
            r == *self,
    {
        VmmVersionInfo { build_version: self.build_version.clone(), version: self.version.clone() }
    }
}

/// The answer to a ping.
#[derive(Debug, PartialEq, Eq)]
pub struct VmmPingResponse {
    /// The version that the build system gave.
    pub build_version: String,
    /// The version of the release.
    pub version: String,
    /// The process that answers.
    pub pid: i64,
    /// The parts that are built in.
    pub features: Vec<String>,
}

} // verus!
