use husk::path::join_path;
use husk::storage::{
    default_storage_driver, validate_kernel, validate_kernel_format, validate_rootfs,
    StorageConfig, StorageError, ARM64_MAGIC,
};

#[test]
fn validate_kernel_missing_file() {
    let result = validate_kernel("/nonexistent/vmlinux", false);
    assert!(matches!(result, Err(StorageError::KernelNotFound(_))));
    assert!(validate_kernel("/boot/vmlinux", true).is_ok());
}

#[test]
fn validate_rootfs_missing_file() {
    let result = validate_rootfs("/nonexistent/rootfs.ext4", false);
    assert!(matches!(result, Err(StorageError::RootfsNotFound(_))));
    assert!(validate_rootfs("/images/rootfs.ext4", true).is_ok());
}

#[test]
fn accepts_valid_arm64_image() {
    let mut header = [0u8; 64];
    let magic = 0x644d_5241u32.to_le_bytes();
    header[56..60].copy_from_slice(&magic);
    assert_eq!(ARM64_MAGIC, 0x644d_5241);
    assert!(validate_kernel_format("/k", &header).is_ok());
}

#[test]
fn rejects_compressed_vmlinuz() {
    let mut header = [0u8; 64];
    header[0] = b'M';
    header[1] = b'Z';
    let msg = validate_kernel_format("/k", &header).unwrap_err().message();
    assert!(msg.contains("compressed vmlinuz"), "expected vmlinuz error, got: {msg}");
    assert!(msg.contains("uncompressed"));
}

#[test]
fn rejects_unknown_kernel_format() {
    let header = [0xFFu8; 64];
    let msg = validate_kernel_format("/k", &header).unwrap_err().message();
    assert!(
        msg.contains("does not appear to be an ARM64 Image"),
        "expected format error, got: {msg}"
    );
}

#[test]
fn rejects_too_small_kernel() {
    let msg = validate_kernel_format("/k", &[0u8; 32]).unwrap_err().message();
    assert!(msg.contains("too small"), "expected size error, got: {msg}");
}

#[test]
fn images_dir_returns_expected_path() {
    let config = StorageConfig { data_dir: "/var/lib/husk".into() };
    assert_eq!(config.images_dir(), "/var/lib/husk/images");
}

#[test]
fn kernels_dir_returns_expected_path() {
    let config = StorageConfig { data_dir: "/var/lib/husk".into() };
    assert_eq!(config.kernels_dir(), "/var/lib/husk/kernels");
}

#[test]
fn vm_dir_returns_expected_path() {
    let config = StorageConfig { data_dir: "/data".into() };
    assert_eq!(config.vm_dir("my-vm"), "/data/vms/my-vm");
}

#[test]
fn default_storage_driver_name_is_stable() {
    assert_eq!(default_storage_driver().name(), "local-reflink");
}

#[test]
fn default_data_directory() {
    assert_eq!(StorageConfig::default().data_dir, "/var/lib/husk");
}

#[test]
fn paths_are_joined() {
    assert_eq!(join_path("/a", "b"), "/a/b");
    assert_eq!(join_path("/a/", "b"), "/a/b");
    assert_eq!(join_path("", "b"), "b");
    assert_eq!(join_path("/a", "/b"), "/b");
}

#[test]
fn storage_errors_in_words() {
    assert!(StorageError::RootfsNotFound("/r".into()).message().contains("/r"));
    assert!(StorageError::KernelNotFound("/k".into()).message().contains("/k"));
    assert!(StorageError::Io("gone".into()).message().contains("gone"));
    assert!(StorageError::CommandFailed("cp".into()).message().contains("cp"));
}
