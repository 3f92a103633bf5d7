use mjventoy::executor::{
    calculate_offsets, get_part_name, layout_fits, log_info, options_from_command_line,
    parse_sector_count, sector_count_path, timestamped, tool_arch_dir, PartitionStyle,
    VENTOY_SECTOR_NUM,
};
use mjventoy::text::IntErrorKind;

#[test]
fn test_calculate_offsets_mbr_no_reserve() {
    // 16GB disk (31250000 sectors of 512B)
    let sector_num = 31250000;
    let (p1s, _p1e, p2s, p2e) = calculate_offsets(sector_num, 0, PartitionStyle::MBR).unwrap();

    assert_eq!(p1s, 2048);
    assert_eq!(p2e, sector_num - 1);
    assert_eq!(p2e - p2s + 1, VENTOY_SECTOR_NUM);
    assert_eq!(p2s % 8, 0); // Aligned
}

#[test]
fn test_calculate_offsets_gpt_with_reserve() {
    let sector_num = 31250000;
    let reserve_mb = 1024;
    let (p1s, _p1e, p2s, p2e) = calculate_offsets(sector_num, reserve_mb, PartitionStyle::GPT).unwrap();

    assert_eq!(p1s, 2048);
    assert!(p2e < sector_num - (reserve_mb * 2048));
    assert_eq!(p2e - p2s + 1, VENTOY_SECTOR_NUM);
    assert_eq!(p2s % 8, 0); // Aligned
}

#[test]
fn offsets_of_unaligned_disk_move_the_second_partition_down() {
    // 1000003 sectors: part1_end = 1000003 - 65537 = 934466, part2 start 934467 % 8 = 3
    let (p1s, p1e, p2s, p2e) = calculate_offsets(1000003, 0, PartitionStyle::MBR).unwrap();
    assert_eq!(p1s, 2048);
    assert_eq!(p1e, 934463);
    assert_eq!(p2s, 934464);
    assert_eq!(p2e, 1000000 - 1);
    assert_eq!(p1e + 1, p2s);
}

#[test]
fn offsets_of_gpt_disk_keep_the_table_sectors() {
    let (_, p1e, p2s, p2e) = calculate_offsets(31250000, 0, PartitionStyle::GPT).unwrap();
    // 31250000 - 65536 - 1 - 34 = 31184429; (31184430 % 8) = 6
    assert_eq!(p1e, 31184423);
    assert_eq!(p2s, 31184424);
    assert_eq!(p2e, 31249959);
    assert!(p2e + 1 + 34 <= 31250000);
}

#[test]
fn layout_fits_rejects_disks_too_small() {
    assert!(layout_fits(31250000, 0, PartitionStyle::MBR));
    assert!(!layout_fits(65536, 0, PartitionStyle::MBR));
    assert!(!layout_fits(65537 + 6, 0, PartitionStyle::MBR));
    assert!(layout_fits(65537 + 7, 0, PartitionStyle::MBR));
    assert!(!layout_fits(65537 + 7, 0, PartitionStyle::GPT));
    assert!(!layout_fits(31250000, u64::MAX / 1024, PartitionStyle::MBR));
    assert!(!layout_fits(66000, 1, PartitionStyle::MBR));
}

#[test]
fn smallest_fitting_disk_gets_a_layout() {
    let (_, p1e, p2s, p2e) = calculate_offsets(65537 + 7, 0, PartitionStyle::MBR).unwrap();
    assert_eq!(p1e, 7);
    assert_eq!(p2s, 8);
    assert_eq!(p2e, 65543);
}

#[test]
fn part_names_of_plain_disks_append_the_number() {
    assert_eq!(get_part_name("/dev/sdb", 1), "/dev/sdb1");
    assert_eq!(get_part_name("/dev/sdb", 2), "/dev/sdb2");
    assert_eq!(get_part_name("/dev/sda", 10), "/dev/sda10");
}

#[test]
fn part_names_of_nvme_mmc_and_loop_devices_use_p() {
    assert_eq!(get_part_name("/dev/nvme0n1", 1), "/dev/nvme0n1p1");
    assert_eq!(get_part_name("/dev/mmcblk0", 2), "/dev/mmcblk0p2");
    assert_eq!(get_part_name("/dev/loop3", 8), "/dev/loop3p8");
}

#[test]
fn sector_count_path_strips_every_dev_prefix() {
    assert_eq!(sector_count_path("/dev/sdb"), "/sys/block/sdb/size");
    assert_eq!(sector_count_path("sdc"), "/sys/block/sdc/size");
    assert_eq!(sector_count_path("/dev//dev/sdd"), "/sys/block/sdd/size");
}

#[test]
fn sector_count_is_read_after_trimming() {
    assert_eq!(parse_sector_count("31250000\n"), Ok(31250000));
    assert_eq!(parse_sector_count("  42 \t"), Ok(42));
    assert_eq!(parse_sector_count("\n"), Err(IntErrorKind::Empty));
    assert_eq!(parse_sector_count("12 34"), Err(IntErrorKind::InvalidDigit));
}

#[test]
fn tool_directory_follows_the_architecture() {
    assert_eq!(tool_arch_dir("x86_64"), "x86_64");
    assert_eq!(tool_arch_dir("x86"), "i386");
    assert_eq!(tool_arch_dir("aarch64"), "aarch64");
    assert_eq!(tool_arch_dir("mips64"), "mips64el");
    assert_eq!(tool_arch_dir("riscv64"), "i386");
}

#[test]
fn log_lines_carry_the_level_and_time() {
    assert_eq!(log_info("Creating partition table..."), "[INFO] Creating partition table...");
    assert_eq!(timestamped("2024-01-02 03:04:05", "[INFO] x"), "2024-01-02 03:04:05 - [INFO] x");
}

#[test]
fn command_line_options_map_flags() {
    let o = options_from_command_line("/dev/sdb".to_string(), true, true, 16, "/opt/v".to_string(), false);
    assert_eq!(o.device, "/dev/sdb");
    assert_eq!(o.part_style, PartitionStyle::GPT);
    assert!(!o.secure_boot);
    assert_eq!(o.reserve_space_mb, 16);
    assert_eq!(o.ventoy_path, "/opt/v");
    assert!(!o.dry_run);
    let o = options_from_command_line("/dev/sdc".to_string(), false, false, 0, String::new(), true);
    assert_eq!(o.part_style, PartitionStyle::MBR);
    assert!(o.secure_boot);
    assert!(o.dry_run);
}
