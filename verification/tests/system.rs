use easyto_init::rdev::{find_block_device, find_block_device_in_dir, FileStat, SearchStep};
use easyto_init::system::{
    block_size_of, device_has_fs, disk_sectors, executable_candidates, find_executable_in_path,
    has_digit_suffix, int_from_file, is_dot_entry, is_partition_entry, last_usable_sector,
    link_device_name, link_nvme_device, logical_block_size, partition_of, proc_path_from_dotted,
    sysctl,
    resize_root_volume, BlockSize, DeviceInfo, LinkOutcome, Partition, Resize, SystemError,
};

fn part(number: u32, name: &str, first_lba: u64, last_lba: u64) -> Partition {
    Partition { number, name: name.to_string(), first_lba, last_lba }
}

#[test]
fn test_has_digit_suffix() {
    assert_eq!(has_digit_suffix(""), false);
    assert_eq!(has_digit_suffix("sda"), false);
    assert_eq!(has_digit_suffix("sda1"), true);
    assert_eq!(has_digit_suffix("sda10"), true);
}

#[test]
fn last_usable_sector_is_aligned_below_the_backup_table() {
    assert_eq!(last_usable_sector(2_097_152, 34, 2048), 2_095_104);
    assert_eq!(last_usable_sector(2_097_152, 34, 1), 2_097_119);
    assert_eq!(last_usable_sector(2_097_152, 2048, 2048), 2_095_104);
    assert_eq!(last_usable_sector(2_097_152, 4098, 2048), 2_091_008);
    assert_eq!(last_usable_sector(33, 34, 8), 0);
    assert_eq!(last_usable_sector(4096 + 33, 34, 4096), 4096);
    assert_eq!(last_usable_sector(4096 + 32, 34, 4096), 0);
}

#[test]
fn root_partition_grows_to_the_end_of_the_disk() {
    let partitions = vec![part(1, "efi", 2048, 4095), part(2, "root", 4096, 500_000), part(3, "root", 1, 2)];
    assert_eq!(
        resize_root_volume(512, 2_097_152, 34, 2048, &partitions),
        Ok(Some(Resize { part_num: 2, first_lba: 4096, last_lba: 2_095_104, block_size: BlockSize::Lb512 }))
    );
    assert_eq!(
        resize_root_volume(4096, 2_097_152, 34, 2048, &partitions),
        Ok(Some(Resize { part_num: 2, first_lba: 4096, last_lba: 2_095_104, block_size: BlockSize::Lb4096 }))
    );
    let full = vec![part(1, "root", 4096, 2_097_000)];
    assert_eq!(resize_root_volume(512, 2_097_152, 34, 2048, &full), Ok(None));
}

#[test]
fn root_partition_is_left_alone_within_one_mebibyte() {
    let grown = |last_lba: u64, block_size: BlockSize| {
        Ok(Some(Resize { part_num: 1, first_lba: 4096, last_lba, block_size }))
    };
    // 2048 sectors of 512 bytes are one mebibyte.
    let close = vec![part(1, "root", 4096, 2_095_104 - 2048)];
    assert_eq!(resize_root_volume(512, 2_097_152, 34, 2048, &close), Ok(None));
    let just = vec![part(1, "root", 4096, 2_095_104 - 2049)];
    assert_eq!(resize_root_volume(512, 2_097_152, 34, 2048, &just), grown(2_095_104, BlockSize::Lb512));
    let two_mebibytes = vec![part(1, "root", 4096, 2_091_008)];
    assert_eq!(
        resize_root_volume(512, 2_097_152, 34, 2048, &two_mebibytes),
        grown(2_095_104, BlockSize::Lb512)
    );
    // 256 sectors of 4096 bytes are one mebibyte.
    let close = vec![part(1, "root", 4096, 2_095_104 - 256)];
    assert_eq!(resize_root_volume(4096, 2_097_152, 34, 2048, &close), Ok(None));
    let just = vec![part(1, "root", 4096, 2_095_104 - 257)];
    assert_eq!(resize_root_volume(4096, 2_097_152, 34, 2048, &just), grown(2_095_104, BlockSize::Lb4096));
    let same = vec![part(1, "root", 4096, 2_095_104)];
    assert_eq!(resize_root_volume(512, 2_097_152, 34, 2048, &same), Ok(None));
}

#[test]
fn resize_rejects_what_it_cannot_handle() {
    let partitions = vec![part(1, "root", 4096, 500_000)];
    assert_eq!(
        resize_root_volume(1024, 2_097_152, 34, 2048, &partitions),
        Err(SystemError::UnsupportedSectorSize(1024))
    );
    assert_eq!(
        resize_root_volume(512, 2_097_152, 34, 0, &partitions),
        Err(SystemError::InvalidGeometry)
    );
    assert_eq!(
        resize_root_volume(512, 2_097_152, 1, 2048, &partitions),
        Err(SystemError::InvalidGeometry)
    );
    assert_eq!(resize_root_volume(512, 10, 34, 2048, &partitions), Err(SystemError::InvalidGeometry));
    assert_eq!(resize_root_volume(512, -1, 34, 2048, &partitions), Err(SystemError::InvalidGeometry));
    assert_eq!(
        resize_root_volume(512, 2_097_152, 34, 2048, &vec![part(1, "boot", 1, 2)]),
        Err(SystemError::RootPartitionNotFound)
    );
    assert_eq!(block_size_of(512), Ok(BlockSize::Lb512));
    assert_eq!(block_size_of(4096), Ok(BlockSize::Lb4096));
    assert_eq!(block_size_of(0), Err(SystemError::UnsupportedSectorSize(0)));
}

#[test]
fn numbers_are_read_from_the_block_device_tree() {
    assert_eq!(logical_block_size("512\n"), Ok(512));
    assert_eq!(disk_sectors(" 2097152 \n"), Ok(2_097_152));
    assert_eq!(int_from_file("-7"), Ok(-7));
    assert_eq!(int_from_file("+7"), Ok(7));
    assert_eq!(int_from_file("9223372036854775807"), Ok(i64::MAX));
    assert_eq!(int_from_file("-9223372036854775808"), Ok(i64::MIN));
    assert_eq!(int_from_file("9223372036854775808"), Err(SystemError::NotANumber));
    assert_eq!(int_from_file("-9223372036854775809"), Err(SystemError::NotANumber));
    assert_eq!(int_from_file(""), Err(SystemError::NotANumber));
    assert_eq!(int_from_file("12 3"), Err(SystemError::NotANumber));
    assert_eq!(int_from_file("0x10"), Err(SystemError::NotANumber));
}

#[test]
fn kernel_parameter_lives_below_proc_sys() {
    assert_eq!(proc_path_from_dotted("net.ipv4.tcp_syncookies"), "/proc/sys/net/ipv4/tcp_syncookies");
    assert_eq!(proc_path_from_dotted("vm"), "/proc/sys/vm");
    assert_eq!(proc_path_from_dotted(""), "/proc/sys/");
    assert_eq!(proc_path_from_dotted("a..b"), "/proc/sys/a/b");
}

#[test]
fn executable_is_sought_along_the_search_path() {
    assert_eq!(
        executable_candidates("app", "/usr/bin:bin::/opt/"),
        vec!["/usr/bin/app", "/bin/app", "/app", "/opt/app"]
    );
    assert_eq!(
        find_executable_in_path("app", "/usr/bin:/bin:/opt", &vec![None, Some(0o644), Some(0o755)]),
        Some("/opt/app".to_string())
    );
    assert_eq!(
        find_executable_in_path("app", "/usr/bin:/bin", &vec![Some(0o100), Some(0o755)]),
        Some("/usr/bin/app".to_string())
    );
    assert_eq!(
        find_executable_in_path("app", "/usr/bin:/bin", &vec![Some(0o010), Some(0o001)]),
        Some("/usr/bin/app".to_string())
    );
    assert_eq!(find_executable_in_path("app", "/usr/bin:/bin", &vec![Some(0o666), None]), None);
    assert_eq!(find_executable_in_path("app", "/usr/bin:/bin", &vec![]), None);
    assert_eq!(
        find_executable_in_path("app", "/usr/bin", &vec![None, Some(0o755)]),
        None
    );
}

#[test]
fn filesystem_probe_is_read_by_its_exit_code() {
    assert_eq!(device_has_fs(Some(0)), Ok(true));
    assert_eq!(device_has_fs(Some(2)), Ok(false));
    assert_eq!(device_has_fs(Some(4)), Err(SystemError::ProbeFailed(4)));
    assert_eq!(device_has_fs(None), Err(SystemError::ProbeKilled));
}

#[test]
fn device_is_linked_under_its_cloud_name() {
    let disk = DeviceInfo { name: "nvme1n1".to_string(), part_num: None };
    let partition = DeviceInfo { name: "nvme1n1p2".to_string(), part_num: Some("2".to_string()) };
    assert_eq!(link_device_name(&disk, "sdf"), "sdf");
    assert_eq!(link_device_name(&partition, "sdf"), "sdf2");
    assert_eq!(link_device_name(&partition, "xvd1"), "xvd1p2");
    assert_eq!(link_nvme_device(LinkOutcome::Linked), Ok(()));
    assert_eq!(link_nvme_device(LinkOutcome::AlreadyExists), Ok(()));
    assert_eq!(link_nvme_device(LinkOutcome::Failed(13)), Err(SystemError::LinkFailed(13)));
}

#[test]
fn partitions_are_the_directories_named_after_the_disk() {
    assert!(is_partition_entry("nvme0n1", "nvme0n1p1", true));
    assert!(!is_partition_entry("nvme0n1", "nvme0n1p1", false));
    assert!(!is_partition_entry("nvme0n1", "queue", true));
    assert!(is_partition_entry("sda", "sda", true));
    assert_eq!(
        partition_of("nvme0n1p1".to_string(), "1\n"),
        DeviceInfo { name: "nvme0n1p1".to_string(), part_num: Some("1".to_string()) }
    );
    assert_eq!(partition_of("x".to_string(), " 12 \t\n").part_num, Some(" 12".to_string()));
    assert!(is_dot_entry("."));
    assert!(is_dot_entry(".."));
    assert!(!is_dot_entry("..."));
    assert!(!is_dot_entry("a"));
    assert!(!is_dot_entry(""));
}

#[test]
fn kernel_parameter_is_written_below_the_base() {
    assert_eq!(sysctl("/", "vm.swappiness"), "/proc/sys/vm/swappiness");
    assert_eq!(sysctl("/base", "vm.swappiness"), "/proc/sys/vm/swappiness");
    assert_eq!(sysctl("", "kernel.hostname"), "/proc/sys/kernel/hostname");
}

#[test]
fn device_file_is_found_by_its_number() {
    let file = FileStat { is_block_device: false, is_dir: false, dev: 7, rdev: 0 };
    let device = FileStat { is_block_device: true, is_dir: false, dev: 5, rdev: 66304 };
    let dir = FileStat { is_block_device: false, is_dir: true, dev: 5, rdev: 0 };
    assert_eq!(find_block_device(&file), 7);
    assert_eq!(find_block_device(&device), 66304);
    assert_eq!(find_block_device_in_dir("nvme0n1p1", Some(device), 66304), SearchStep::Found);
    assert_eq!(find_block_device_in_dir("nvme0n1p1", Some(device), 66305), SearchStep::Skip);
    assert_eq!(find_block_device_in_dir("disk", Some(dir), 66304), SearchStep::Descend);
    assert_eq!(find_block_device_in_dir(".", Some(dir), 66304), SearchStep::Skip);
    assert_eq!(find_block_device_in_dir("..", Some(dir), 66304), SearchStep::Skip);
    assert_eq!(find_block_device_in_dir("null", Some(file), 7), SearchStep::Skip);
    assert_eq!(find_block_device_in_dir("gone", None, 7), SearchStep::Skip);
}
