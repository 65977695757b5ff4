//! Where kernels, images and the disks of VMs are kept, and what makes a kernel usable.
use crate::ident;
use crate::path;
use crate::path::join_path;
use crate::text;
use crate::text::decimal_of;
use vstd::prelude::*;
use vstd::string::*;

verus! {

/// What can go wrong with kernels and disks.
#[derive(Debug)]
pub enum StorageError {
    RootfsNotFound(String),
    KernelNotFound(String),
    InvalidKernel(String),
    /// Input or output failed; in the words of the operating system.
    Io(String),
    CommandFailed(String),
}

/// A storage error, with its texts as characters.
pub enum StorageErrorView {
    RootfsNotFound(Seq<char>),
    KernelNotFound(Seq<char>),
    InvalidKernel(Seq<char>),
    Io(Seq<char>),
    CommandFailed(Seq<char>),
}

impl View for StorageError {
    type V = StorageErrorView;

    open spec fn view(&self) -> StorageErrorView {
        match self {
            StorageError::RootfsNotFound(p) => StorageErrorView::RootfsNotFound(p@),
            StorageError::KernelNotFound(p) => StorageErrorView::KernelNotFound(p@),
            StorageError::InvalidKernel(m) => StorageErrorView::InvalidKernel(m@),
            StorageError::Io(m) => StorageErrorView::Io(m@),
            StorageError::CommandFailed(m) => StorageErrorView::CommandFailed(m@),
        }
    }
}

impl StorageErrorView {
    /// The error in words.
    pub open spec fn text(self) -> Seq<char> {
        match self {
            StorageErrorView::RootfsNotFound(p) => "rootfs not found: "@ + p,
            StorageErrorView::KernelNotFound(p) => "kernel not found: "@ + p,
            StorageErrorView::InvalidKernel(m) => m,
            StorageErrorView::Io(m) => "IO error: "@ + m,
            StorageErrorView::CommandFailed(m) => "command failed: "@ + m,
        }
    }
}

impl StorageError {
    /// The error in words.
    pub fn message(&self) -> (s: String)
        ensures
            s@ == self@.text(),
    {
        match self {
            StorageError::RootfsNotFound(p) => {
                let mut s = "rootfs not found: ".to_owned();
                s.append(p.as_str());
                s
            },
            StorageError::KernelNotFound(p) => {
                let mut s = "kernel not found: ".to_owned();
                s.append(p.as_str());
                s
            },
            StorageError::InvalidKernel(m) => m.clone(),
            StorageError::Io(m) => {
                let mut s = "IO error: ".to_owned();
                s.append(m.as_str());
                s
            },
            StorageError::CommandFailed(m) => {
                let mut s = "command failed: ".to_owned();
                s.append(m.as_str());
                s
            },
        }
    }
}

/// Where images, kernels and the directories of VMs are.
#[derive(Debug, Clone)]
pub struct StorageConfig {
    /// Base directory.
    pub data_dir: String,
}

impl Default for StorageConfig {
    fn default() -> (c: StorageConfig)
        ensures
            c.data_dir@ == "/var/lib/husk"@,
    {
        StorageConfig { data_dir: "/var/lib/husk".to_owned() }
    }
}

/// The directory of a VM below a data directory.
pub open spec fn vm_dir_of(data_dir: Seq<char>, vm_name: Seq<char>) -> Seq<char> {
    path::joined(path::joined(data_dir, "vms"@), vm_name)
}

impl StorageConfig {
    /// The directory of images.
    pub fn images_dir(&self) -> (p: String)
        ensures
            p@ == path::joined(self.data_dir@, "images"@),
    {
        join_path(self.data_dir.as_str(), "images")
    }

    /// The directory of kernels.
    pub fn kernels_dir(&self) -> (p: String)
        ensures
            p@ == path::joined(self.data_dir@, "kernels"@),
    {
        join_path(self.data_dir.as_str(), "kernels")
    }

    /// The directory of a VM.
    pub fn vm_dir(&self, vm_name: &str) -> (p: String)
        ensures
            p@ == vm_dir_of(self.data_dir@, vm_name@),
    {
        let vms = join_path(self.data_dir.as_str(), "vms");
        join_path(vms.as_str(), vm_name)
    }
}

/// Copies disks on the local file system, sharing blocks where the file system can.
#[derive(Debug, Clone, Copy)]
pub struct LocalStorageDriver;

impl LocalStorageDriver {
    /// The driver's name.
    pub fn name(&self) -> (s: &'static str)
        ensures
            s@ == "local-reflink"@,
    {
        "local-reflink"
    }
}

/// The driver that is used where none is configured.
pub fn default_storage_driver() -> (d: LocalStorageDriver)
    ensures
        d == LocalStorageDriver,
{
    LocalStorageDriver
}

/// Checks that there is a kernel at `path`.
pub fn validate_kernel(path: &str, exists: bool) -> (r: Result<(), StorageError>)
    ensures
        match r {
            Ok(_) => exists,
            Err(e) => !exists && e@ == StorageErrorView::KernelNotFound(path@),
        },
{
    if exists {
        Ok(())
    } else {
        Err(StorageError::KernelNotFound(path.to_owned()))
    }
}

/// Checks that there is a root disk at `path`.
pub fn validate_rootfs(path: &str, exists: bool) -> (r: Result<(), StorageError>)
    ensures
        match r {
            Ok(_) => exists,
            Err(e) => !exists && e@ == StorageErrorView::RootfsNotFound(path@),
        },
{
    if exists {
        Ok(())
    } else {
        Err(StorageError::RootfsNotFound(path.to_owned()))
    }
}

/// The number that the four bytes from `at` on stand for, the least significant first.
pub open spec fn le32(b: Seq<u8>, at: int) -> u32 {
    (b[at] + b[at + 1] * 256 + b[at + 2] * 65536 + b[at + 3] * 16777216) as u32
}

/// The mark of an uncompressed ARM64 kernel image.
pub const ARM64_MAGIC: u32 = 0x644d_5241;

/// Why a kernel that begins with `header` cannot be booted, if there is a reason.
pub open spec fn kernel_fault(path: Seq<char>, header: Seq<u8>) -> Option<Seq<char>> {
    if header.len() < 64 {
        Some("kernel too small ("@ + text::decimal(header.len()) + " bytes): "@ + path)
    } else if le32(header, 56) == ARM64_MAGIC {
        None
    } else if header[0] == 77 && header[1] == 90 {
        Some(
            "kernel is a compressed vmlinuz (PE32+/EFI stub): "@ + path
                + "\nApple Virtualization.framework requires an uncompressed ARM64 Image.\nUse the uncompressed 'Image' file instead of 'vmlinuz'."@,
        )
    } else {
        Some(
            "kernel does not appear to be an ARM64 Image (magic: 0x"@ + ident::hex_text(
                le32(header, 56) as nat,
                8,
            ) + "): "@ + path
                + "\nApple Virtualization.framework requires an uncompressed ARM64 kernel Image."@,
        )
    }
}

/// What was found at the path of a kernel.
pub enum KernelFile {
    Missing,
    /// It is there, and the monitor takes any kernel.
    Present,
    /// It is there, and begins with these bytes, at most 64 of them. The monitor takes only an
    /// uncompressed ARM64 image.
    Header(Vec<u8>),
    /// It is there, but could not be read.
    Unreadable(String),
}

/// Why a kernel cannot be used, if there is a reason.
pub open spec fn kernel_file_fault(path: Seq<char>, found: KernelFile) -> Option<StorageErrorView> {
    match found {
        KernelFile::Missing => Some(StorageErrorView::KernelNotFound(path)),
        KernelFile::Present => None,
        KernelFile::Unreadable(m) => Some(StorageErrorView::Io(m@)),
        KernelFile::Header(header) => match kernel_fault(path, header@) {
            Some(m) => Some(StorageErrorView::InvalidKernel(m)),
            None => None,
        },
    }
}

/// What was found of the files that a VM is to boot from.
pub struct BootFiles {
    pub kernel: KernelFile,
    pub rootfs_exists: bool,
    /// Whether the conventional initial RAM disk is there.
    pub initrd_exists: bool,
}

/// Why a VM cannot boot from its files, if there is a reason: the kernel comes first.
pub open spec fn boot_fault(kernel_path: Seq<char>, rootfs_path: Seq<char>, files: BootFiles) -> Option<
    StorageErrorView,
> {
    match kernel_file_fault(kernel_path, files.kernel) {
        Some(e) => Some(e),
        None => if files.rootfs_exists {
            None
        } else {
            Some(StorageErrorView::RootfsNotFound(rootfs_path))
        },
    }
}

/// Appends the lowest `len` hexadecimal digits of `n`.
fn push_hex(s: &mut String, n: u32, len: u32)
    ensures
        final(s)@ == old(s)@ + ident::hex_text(n as nat, len as nat),
    decreases len,
{
    if len > 0 {
        push_hex(s, n / 16, len - 1);
        let d: u8 = (n % 16) as u8;
        let c = if d < 10 {
            (48 + d) as char
        } else {
            (87 + d) as char
        };
        s.push(c);
    }
    proof {
        assert(s@ =~= old(s)@ + ident::hex_text(n as nat, len as nat));
    }
}

/// Checks that a kernel, of which the first bytes are given, is an uncompressed ARM64 image. A
/// compressed one cannot be booted by Apple's Virtualization.framework.
pub fn validate_kernel_format(path: &str, header: &[u8]) -> (r: Result<(), StorageError>)
    ensures
        match r {
            Ok(_) => kernel_fault(path@, header@) is None,
            Err(e) => kernel_fault(path@, header@) matches Some(m) && e@
                == StorageErrorView::InvalidKernel(m),
        },
{
    if header.len() < 64 {
        let mut m = "kernel too small (".to_owned();
        m.append(decimal_of(header.len() as u64).as_str());
        m.append(" bytes): ");
        m.append(path);
        return Err(StorageError::InvalidKernel(m));
    }
    let magic: u32 = header[56] as u32 + header[57] as u32 * 256 + header[58] as u32 * 65536
        + header[59] as u32 * 16777216;
    if magic == ARM64_MAGIC {
        return Ok(());
    }
    if header[0] == 77 && header[1] == 90 {
        let mut m = "kernel is a compressed vmlinuz (PE32+/EFI stub): ".to_owned();
        m.append(path);
        m.append(
            "\nApple Virtualization.framework requires an uncompressed ARM64 Image.\nUse the uncompressed 'Image' file instead of 'vmlinuz'.",
        );
        return Err(StorageError::InvalidKernel(m));
    }
    let mut m = "kernel does not appear to be an ARM64 Image (magic: 0x".to_owned();
    push_hex(&mut m, magic, 8);
    m.append("): ");
    m.append(path);
    m.append("\nApple Virtualization.framework requires an uncompressed ARM64 kernel Image.");
    Err(StorageError::InvalidKernel(m))
}

/// Checks the files that a VM is to boot from.
pub fn validate_boot_files(kernel_path: &str, rootfs_path: &str, files: &BootFiles) -> (r: Result<
    (),
    StorageError,
>)
    ensures
        match r {
            Ok(_) => boot_fault(kernel_path@, rootfs_path@, *files) is None,
            Err(e) => boot_fault(kernel_path@, rootfs_path@, *files) == Some(e@),
        },
{
    let kernel = match &files.kernel {
        KernelFile::Missing => validate_kernel(kernel_path, false),
        KernelFile::Present => validate_kernel(kernel_path, true),
        KernelFile::Unreadable(m) => Err(StorageError::Io(m.clone())),
        KernelFile::Header(header) => validate_kernel_format(kernel_path, header.as_slice()),
    };
    match kernel {
        Ok(_) => validate_rootfs(rootfs_path, files.rootfs_exists),
        Err(e) => Err(e),
    }
}

/// A kernel can be booted exactly if its header is long enough and bears the mark of an ARM64 image,
/// the letters "ARM" and "d", at its place.
pub proof fn bootable_kernels_bear_the_mark(path: Seq<char>, header: Seq<u8>)
    ensures
        kernel_fault(path, header) is None <==> header.len() >= 64 && header[56] == 65 && header[57]
            == 82 && header[58] == 77 && header[59] == 100,
{
}

/// A VM can boot exactly if its kernel can be used and its disk is there.
pub proof fn boot_needs_kernel_and_disk(kernel: Seq<char>, rootfs: Seq<char>, files: BootFiles)
    ensures
        boot_fault(kernel, rootfs, files) is None <==> kernel_file_fault(kernel, files.kernel)
            is None && files.rootfs_exists,
        files.kernel is Missing ==> boot_fault(kernel, rootfs, files) == Some(
            StorageErrorView::KernelNotFound(kernel),
        ),
        files.kernel is Present && !files.rootfs_exists ==> boot_fault(kernel, rootfs, files)
            == Some(StorageErrorView::RootfsNotFound(rootfs)),
{
}

/// An error of the files tells which file, or what went wrong.
pub proof fn errors_tell_what_it_is(e: StorageErrorView)
    ensures
        match e {
            StorageErrorView::RootfsNotFound(p) => text::ends_with(e.text(), p),
            StorageErrorView::KernelNotFound(p) => text::ends_with(e.text(), p),
            StorageErrorView::InvalidKernel(m) => e.text() == m,
            StorageErrorView::Io(m) => text::ends_with(e.text(), m),
            StorageErrorView::CommandFailed(m) => text::ends_with(e.text(), m),
        },
{
    match e {
        StorageErrorView::RootfsNotFound(p) => text::lemma_ends_with("rootfs not found: "@, p),
        StorageErrorView::KernelNotFound(p) => text::lemma_ends_with("kernel not found: "@, p),
        StorageErrorView::InvalidKernel(_) => {},
        StorageErrorView::Io(m) => text::lemma_ends_with("IO error: "@, m),
        StorageErrorView::CommandFailed(m) => text::lemma_ends_with("command failed: "@, m),
    }
}

} // verus!
