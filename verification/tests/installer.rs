use mjventoy::commands::CommandLine;
use mjventoy::executor::{InstallationOptions, PartitionStyle};
use mjventoy::installer::{install_ventoy, judge_outcome, Action, Expect, Installer, Op, Outcome, Verdict};

fn options(dry_run: bool, style: PartitionStyle) -> InstallationOptions {
    InstallationOptions {
        device: "/dev/sdb".to_string(),
        part_style: style,
        secure_boot: true,
        reserve_space_mb: 0,
        ventoy_path: "/opt/ventoy".to_string(),
        dry_run,
    }
}

fn words(c: &CommandLine) -> String {
    let mut s = c.program.clone();
    for a in &c.args {
        s.push(' ');
        s.push_str(a);
    }
    s
}

fn describe(op: &Op) -> String {
    match op {
        Op::Log(l) => format!("log {}", l),
        Op::CheckBlockDevice(p) => format!("block? {}", p),
        Op::Run(c) => format!("run {}", words(c)),
        Op::ReadSectorCount(p) => format!("read {}", p),
        Op::Sleep(s) => format!("sleep {}", s),
        Op::CheckToolExists(p) => format!("exists? {}", p),
    }
}

/// Drives the machine, answering each operation well, with `size` as the
/// size file, unless `fail` picks the operation to fail and its outcome.
fn drive(
    m: &mut Installer,
    size: &str,
    fail: &dyn Fn(&Op) -> Option<Outcome>,
) -> (Vec<String>, Result<(), String>) {
    let mut seen = Vec::new();
    let mut outcome = Outcome::Done;
    loop {
        assert!(m.accepts(&outcome));
        match m.advance(outcome) {
            Action::Finish(r) => return (seen, r),
            Action::Perform(op) => {
                seen.push(describe(&op));
                outcome = match fail(&op) {
                    Some(o) => o,
                    None => match &op {
                        Op::CheckBlockDevice(_) | Op::CheckToolExists(_) => Outcome::Flag(true),
                        Op::Run(_) => Outcome::Exited(true),
                        Op::ReadSectorCount(_) => Outcome::Text(size.to_string()),
                        _ => Outcome::Done,
                    },
                };
            }
        }
        assert!(seen.len() < 100);
    }
}

#[test]
fn dry_run_only_logs_checks_and_reads() {
    let mut m = install_ventoy(options(true, PartitionStyle::MBR), "x86_64");
    let (seen, r) = drive(&mut m, "31250000\n", &|_| None);
    assert_eq!(r, Ok(()));
    let expected = vec![
        "log [INFO] Starting MJVentoy installation...",
        "block? /dev/sdb",
        "log [INFO] Unmounting partitions on /dev/sdb...",
        "log [INFO] [DRY-RUN] Skipping unmount.",
        "read /sys/block/sdb/size",
        "log [INFO] Disk sector count: 31250000",
        "log [INFO] Offsets: P1(2048-31184463) P2(31184464-31249999)",
        "log [INFO] Creating partition table...",
        "log [INFO] [DRY-RUN] Skipping partition table creation.",
        "log [INFO] [DRY-RUN] Skipping formatting of /dev/sdb1 and /dev/sdb2.",
        "log [INFO] Writing bootloader and images...",
        "log [INFO] [DRY-RUN] Skipping image writing.",
        "log [INFO] Installation successfully completed.",
    ];
    assert_eq!(seen, expected);
    assert!(m.is_finished());
}

#[test]
fn full_installation_runs_every_command_in_order() {
    let mut m = install_ventoy(options(false, PartitionStyle::MBR), "x86");
    let (seen, r) = drive(&mut m, "31250000", &|_| None);
    assert_eq!(r, Ok(()));
    let mut expected: Vec<String> = vec![
        "log [INFO] Starting MJVentoy installation...".to_string(),
        "block? /dev/sdb".to_string(),
        "log [INFO] Unmounting partitions on /dev/sdb...".to_string(),
    ];
    for i in 1..9 {
        expected.push(format!("run umount /dev/sdb{}", i));
    }
    expected.extend(
        [
            "read /sys/block/sdb/size",
            "log [INFO] Disk sector count: 31250000",
            "log [INFO] Offsets: P1(2048-31184463) P2(31184464-31249999)",
            "log [INFO] Creating partition table...",
            "run dd if=/dev/zero of=/dev/sdb bs=512 count=100",
            "run parted -s /dev/sdb mklabel msdos unit s mkpart primary ntfs 2048 31184463 mkpart primary fat16 31184464 31249999",
            "run parted -s /dev/sdb set 1 boot on",
            "log [INFO] Waiting for device nodes...",
            "sleep 2",
            "log [INFO] Formatting /dev/sdb1 as exFAT...",
            "exists? /opt/ventoy/INSTALL/tool/i386/mkexfatfs",
            "run /opt/ventoy/INSTALL/tool/i386/mkexfatfs -n Ventoy /dev/sdb1",
            "log [INFO] Formatting /dev/sdb2 as FAT16...",
            "run mkfs.vfat -F 16 -n VTOYEFI /dev/sdb2",
            "log [INFO] Writing bootloader and images...",
            "run dd if=/opt/ventoy/INSTALL/boot/boot.img of=/dev/sdb bs=1 count=440 conv=fsync",
            "run sh -c xzcat /opt/ventoy/INSTALL/boot/core.img.xz | dd of=/dev/sdb bs=512 seek=1 conv=fsync",
            "run sh -c xzcat /opt/ventoy/INSTALL/ventoy/ventoy.disk.img.xz | dd of=/dev/sdb bs=512 seek=31184464 conv=fsync",
            "log [INFO] Installation successfully completed.",
        ]
        .iter()
        .map(|s| s.to_string()),
    );
    assert_eq!(seen, expected);
}

#[test]
fn gpt_installation_sets_no_boot_flag() {
    let mut m = install_ventoy(options(false, PartitionStyle::GPT), "x86_64");
    let (seen, r) = drive(&mut m, "31250000", &|_| None);
    assert_eq!(r, Ok(()));
    assert!(seen.iter().any(|s| s.starts_with("run parted -s /dev/sdb mklabel gpt")));
    assert!(!seen.iter().any(|s| s.contains("boot on")));
}

#[test]
fn device_that_is_not_a_block_device_fails_at_once() {
    let mut m = install_ventoy(options(false, PartitionStyle::MBR), "x86_64");
    let (seen, r) = drive(&mut m, "31250000", &|op| match op {
        Op::CheckBlockDevice(_) => Some(Outcome::Flag(false)),
        _ => None,
    });
    assert_eq!(r, Err("/dev/sdb is not a block device".to_string()));
    assert_eq!(seen.len(), 2);
    // a finished installation keeps its result
    match m.advance(Outcome::Done) {
        Action::Finish(r) => assert_eq!(r, Err("/dev/sdb is not a block device".to_string())),
        Action::Perform(_) => panic!("a finished installation handed out an operation"),
    }
}

#[test]
fn parted_failure_stops_the_installation() {
    let mut m = install_ventoy(options(false, PartitionStyle::MBR), "x86_64");
    let (seen, r) = drive(&mut m, "31250000", &|op| match op {
        Op::Run(c) if c.program == "parted" => Some(Outcome::Exited(false)),
        _ => None,
    });
    assert_eq!(r, Err("parted failed".to_string()));
    assert!(seen.last().unwrap().starts_with("run parted"));
}

#[test]
fn spawn_errors_propagate_and_umount_errors_do_not() {
    let mut m = install_ventoy(options(false, PartitionStyle::MBR), "x86_64");
    let (_, r) = drive(&mut m, "31250000", &|op| match op {
        Op::Run(c) if c.program == "umount" => Some(Outcome::Error("no umount".to_string())),
        Op::Run(c) if c.program == "dd" => Some(Outcome::Error("No such file or directory (os error 2)".to_string())),
        _ => None,
    });
    assert_eq!(r, Err("No such file or directory (os error 2)".to_string()));
}

#[test]
fn missing_tool_and_format_failures() {
    let mut m = install_ventoy(options(false, PartitionStyle::MBR), "aarch64");
    let (_, r) = drive(&mut m, "31250000", &|op| match op {
        Op::CheckToolExists(_) => Some(Outcome::Flag(false)),
        _ => None,
    });
    assert_eq!(r, Err("mkexfatfs tool not found at /opt/ventoy/INSTALL/tool/aarch64/mkexfatfs".to_string()));

    let mut m = install_ventoy(options(false, PartitionStyle::MBR), "aarch64");
    let (_, r) = drive(&mut m, "31250000", &|op| match op {
        Op::Run(c) if c.program == "mkfs.vfat" => Some(Outcome::Exited(false)),
        _ => None,
    });
    assert_eq!(r, Err("mkfs.vfat failed".to_string()));

    let mut m = install_ventoy(options(false, PartitionStyle::MBR), "aarch64");
    let (_, r) = drive(&mut m, "31250000", &|op| match op {
        Op::Run(c) if c.program.ends_with("mkexfatfs") => Some(Outcome::Exited(false)),
        _ => None,
    });
    assert_eq!(r, Err("mkexfatfs failed".to_string()));
}

#[test]
fn unreadable_size_fails_with_the_parse_message() {
    let mut m = install_ventoy(options(true, PartitionStyle::MBR), "x86_64");
    let (_, r) = drive(&mut m, "lots", &|_| None);
    assert_eq!(r, Err("invalid digit found in string".to_string()));
    let mut m = install_ventoy(options(true, PartitionStyle::MBR), "x86_64");
    let (_, r) = drive(&mut m, "\n", &|_| None);
    assert_eq!(r, Err("cannot parse integer from empty string".to_string()));
    let mut m = install_ventoy(options(true, PartitionStyle::MBR), "x86_64");
    let (_, r) = drive(&mut m, "x", &|op| match op {
        Op::ReadSectorCount(_) => Some(Outcome::Error("Permission denied (os error 13)".to_string())),
        _ => None,
    });
    assert_eq!(r, Err("Permission denied (os error 13)".to_string()));
}

#[test]
fn too_small_disk_is_not_accepted() {
    let mut m = install_ventoy(options(true, PartitionStyle::MBR), "x86_64");
    let mut outcome = Outcome::Done;
    loop {
        match m.advance(outcome) {
            Action::Perform(Op::ReadSectorCount(_)) => break,
            Action::Perform(_) => outcome = Outcome::Flag(true),
            Action::Finish(_) => panic!("finished early"),
        }
    }
    assert!(!m.accepts(&Outcome::Text("1000".to_string())));
    assert!(m.accepts(&Outcome::Text("31250000".to_string())));
    assert!(m.accepts(&Outcome::Text("garbage".to_string())));
}

#[test]
fn verdicts_on_each_kind_of_step() {
    let fail = |v: Verdict| match v {
        Verdict::Fail(m) => Some(m),
        _ => None,
    };
    assert!(matches!(judge_outcome(&Expect::Nothing, Outcome::Error("e".into())), Verdict::Proceed));
    assert_eq!(fail(judge_outcome(&Expect::NoSpawnError, Outcome::Error("e".into()))), Some("e".to_string()));
    assert!(matches!(judge_outcome(&Expect::NoSpawnError, Outcome::Exited(false)), Verdict::Proceed));
    let parted = || Expect::Succeeds("parted failed".to_string());
    assert_eq!(fail(judge_outcome(&parted(), Outcome::Exited(false))), Some("parted failed".to_string()));
    assert_eq!(fail(judge_outcome(&parted(), Outcome::Error("spawn".into()))), Some("spawn".to_string()));
    assert!(matches!(judge_outcome(&parted(), Outcome::Exited(true)), Verdict::Proceed));
    let check = || Expect::Confirmed("missing".to_string());
    assert!(matches!(judge_outcome(&check(), Outcome::Flag(true)), Verdict::Proceed));
    assert_eq!(fail(judge_outcome(&check(), Outcome::Flag(false))), Some("missing".to_string()));
    assert_eq!(fail(judge_outcome(&check(), Outcome::Done)), Some("missing".to_string()));
    assert!(matches!(judge_outcome(&Expect::SectorCount, Outcome::Text(" 77\n".into())), Verdict::Counted(77)));
    assert_eq!(
        fail(judge_outcome(&Expect::SectorCount, Outcome::Text("99999999999999999999".into()))),
        Some("number too large to fit in target type".to_string())
    );
    assert_eq!(
        fail(judge_outcome(&Expect::SectorCount, Outcome::Done)),
        Some("cannot parse integer from empty string".to_string())
    );
}

#[test]
fn copies_are_equal() {
    let c = mjventoy::commands::parted_command("/dev/sdb", PartitionStyle::GPT, 2048, 7, 8, 65543);
    let d = c.duplicate();
    assert_eq!(d.program, "parted");
    assert_eq!(d.args, c.args);
    assert_eq!(
        d.args,
        vec!["-s", "/dev/sdb", "mklabel", "gpt", "unit", "s", "mkpart", "primary", "ntfs", "2048", "7", "mkpart", "primary", "fat16", "8", "65543"]
    );
    let o = options(true, PartitionStyle::GPT).duplicate();
    assert_eq!(o.device, "/dev/sdb");
    assert_eq!(o.ventoy_path, "/opt/ventoy");
    assert!(o.dry_run);
    assert_eq!(o.part_style, PartitionStyle::GPT);
}
