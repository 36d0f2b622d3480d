//! Drivers that start a guest: a QEMU VM or a namespaced process.

use vstd::prelude::*;

use crate::text::strs_view;

verus! {

/// Boots a QEMU VM from a kernel and an initrd.
#[derive(Clone, Debug, PartialEq, Eq)]
pub struct QemuDriver {
    pub vmlinux: String,
    pub initrd: String,
}

/// Runs the guest as a process in fresh namespaces under a root directory.
#[derive(Clone, Debug, PartialEq, Eq)]
pub struct ContainerDriver {
    pub root_path: String,
}

/// The program a QEMU guest is started with.
pub const QEMU_PROGRAM: &'static str = "qemu-system-x86_64";

/// The arguments of `qemu-system-x86_64` for a guest with this kernel and
/// initrd: KVM on, 512 MiB of memory.
pub open spec fn qemu_args_spec(vmlinux: Seq<char>, initrd: Seq<char>) -> Seq<Seq<char>> {
    seq!["-enable-kvm"@, "-m"@, "512"@, "-kernel"@, vmlinux, "-initrd"@, initrd]
}

impl QemuDriver {
    /// The command line that boots this driver's guest.
    pub fn qemu_args(&self) -> (r: Vec<String>)
        ensures
            strs_view(r@) == qemu_args_spec(self.vmlinux@, self.initrd@),
    {
        let mut v: Vec<String> = Vec::new();
        v.push(String::from_str("-enable-kvm"));
        v.push(String::from_str("-m"));
        v.push(String::from_str("512"));
        v.push(String::from_str("-kernel"));
        v.push(self.vmlinux.clone());
        v.push(String::from_str("-initrd"));
        v.push(self.initrd.clone());
        proof {
            assert(strs_view(v@) =~= qemu_args_spec(self.vmlinux@, self.initrd@));
        }
        v
    }
}

} // verus!
