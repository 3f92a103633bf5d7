//! The installation as a plan of operations and a state machine that walks it.
//! The caller performs each operation that the machine hands out (writing a
//! log line, checking a path, running a command, reading a file, sleeping) and
//! reports how it went; the machine decides what comes next and when the
//! installation has succeeded or failed.
use vstd::prelude::*;
use crate::commands::{
    boot_flag_command, boot_flag_spec, boot_image_command, boot_image_spec, core_image_path,
    exfat_tool, exfat_tool_path, mkexfatfs_command, mkexfatfs_spec, mkfs_vfat_command,
    mkfs_vfat_spec, parted_command, parted_spec, umount_command, umount_spec, ventoy_image_path,
    xz_image_command, xz_image_spec, zero_table_command, zero_table_spec, CommandLine, CommandSpec,
};
use crate::executor::{
    calculate_offsets, disk_layout, layout_fits, get_part_name, log_info, log_line, offsets_fit,
    parse_sector_count, part_name, sector_count, sector_count_file, sector_count_path,
    InstallationOptions, OptionsSpec, PartitionStyle,
};
use crate::text::{decimal, int_error_message, u64_to_decimal, IntErrorKind};

verus! {

impl CommandLine {
    /// A copy of the command.
    pub fn duplicate(&self) -> (c: CommandLine)
        ensures
            c@ == self@,
    {
        let mut args: Vec<String> = Vec::new();
        let mut i: usize = 0;
        while i < self.args.len()
            invariant
                i <= self.args@.len(),
                args@.len() == i,
                forall|j: int| 0 <= j < i ==> (#[trigger] args@[j])@ == self.args@[j]@,
            decreases self.args@.len() - i,
        {
            let s = self.args[i].clone();
            args.push(s);
            i = i + 1;
        }
        assert(args.deep_view() =~= self.args.deep_view());
        CommandLine { program: self.program.clone(), args }
    }
}

/// An operation that the caller performs for the installer.
#[derive(Debug)]
pub enum Op {
    /// Append this line, with the local time, to the log file.
    Log(String),
    /// Tell whether this path is a block device.
    CheckBlockDevice(String),
    /// Run this command and wait for it.
    Run(CommandLine),
    /// Read this file (the size in sectors of the disk).
    ReadSectorCount(String),
    /// Sleep this many seconds.
    Sleep(u64),
    /// Tell whether this path exists.
    CheckToolExists(String),
}

/// What an `Op` holds, as text.
pub enum OpSpec {
    Log(Seq<char>),
    CheckBlockDevice(Seq<char>),
    Run(CommandSpec),
    ReadSectorCount(Seq<char>),
    Sleep(u64),
    CheckToolExists(Seq<char>),
}

impl View for Op {
    type V = OpSpec;

    open spec fn view(&self) -> OpSpec {
        match self {
            Op::Log(s) => OpSpec::Log(s@),
            Op::CheckBlockDevice(s) => OpSpec::CheckBlockDevice(s@),
            Op::Run(c) => OpSpec::Run(c@),
            Op::ReadSectorCount(s) => OpSpec::ReadSectorCount(s@),
            Op::Sleep(n) => OpSpec::Sleep(*n),
            Op::CheckToolExists(s) => OpSpec::CheckToolExists(s@),
        }
    }
}

impl Op {
    /// A copy of the operation.
    pub fn duplicate(&self) -> (o: Op)
        ensures
            o@ == self@,
    {
        match self {
            Op::Log(s) => Op::Log(s.clone()),
            Op::CheckBlockDevice(s) => Op::CheckBlockDevice(s.clone()),
            Op::Run(c) => Op::Run(c.duplicate()),
            Op::ReadSectorCount(s) => Op::ReadSectorCount(s.clone()),
            Op::Sleep(n) => Op::Sleep(*n),
            Op::CheckToolExists(s) => Op::CheckToolExists(s.clone()),
        }
    }
}

/// How the outcome of an operation decides the installation.
#[derive(Debug)]
pub enum Expect {
    /// Whatever happens, go on.
    Nothing,
    /// Fail with the error if the command could not be started.
    NoSpawnError,
    /// Fail with the error if the command could not be started, and with the
    /// message if it exited with a failure.
    Succeeds(String),
    /// Fail with the message unless the answer is yes.
    Confirmed(String),
    /// The contents are the size of the disk in sectors.
    SectorCount,
}

/// What an `Expect` holds, as text.
pub enum ExpectSpec {
    Nothing,
    NoSpawnError,
    Succeeds(Seq<char>),
    Confirmed(Seq<char>),
    SectorCount,
}

impl View for Expect {
    type V = ExpectSpec;

    open spec fn view(&self) -> ExpectSpec {
        match self {
            Expect::Nothing => ExpectSpec::Nothing,
            Expect::NoSpawnError => ExpectSpec::NoSpawnError,
            Expect::Succeeds(s) => ExpectSpec::Succeeds(s@),
            Expect::Confirmed(s) => ExpectSpec::Confirmed(s@),
            Expect::SectorCount => ExpectSpec::SectorCount,
        }
    }
}

impl Expect {
    /// A copy of the expectation.
    pub fn duplicate(&self) -> (e: Expect)
        ensures
            e@ == self@,
    {
        match self {
            Expect::Nothing => Expect::Nothing,
            Expect::NoSpawnError => Expect::NoSpawnError,
            Expect::Succeeds(s) => Expect::Succeeds(s.clone()),
            Expect::Confirmed(s) => Expect::Confirmed(s.clone()),
            Expect::SectorCount => Expect::SectorCount,
        }
    }
}

/// An operation of the plan and how its outcome is judged.
#[derive(Debug)]
pub struct Step {
    pub op: Op,
    pub expect: Expect,
}

/// What a `Step` holds, as text.
pub struct StepSpec {
    pub op: OpSpec,
    pub expect: ExpectSpec,
}

impl View for Step {
    type V = StepSpec;

    open spec fn view(&self) -> StepSpec {
        StepSpec { op: self.op@, expect: self.expect@ }
    }
}

impl DeepView for Step {
    type V = StepSpec;

    open spec fn deep_view(&self) -> StepSpec {
        self@
    }
}

/// What the caller reports after performing an operation.
#[derive(Debug)]
pub enum Outcome {
    /// The operation was performed (or there was nothing to report).
    Done,
    /// The answer to a check.
    Flag(bool),
    /// The command ran; whether it exited with success.
    Exited(bool),
    /// The contents of the file that was read.
    Text(String),
    /// The operation failed with this error.
    Error(String),
}

/// What an `Outcome` holds, as text.
pub enum OutcomeSpec {
    Done,
    Flag(bool),
    Exited(bool),
    Text(Seq<char>),
    Error(Seq<char>),
}

impl View for Outcome {
    type V = OutcomeSpec;

    open spec fn view(&self) -> OutcomeSpec {
        match self {
            Outcome::Done => OutcomeSpec::Done,
            Outcome::Flag(b) => OutcomeSpec::Flag(*b),
            Outcome::Exited(b) => OutcomeSpec::Exited(*b),
            Outcome::Text(s) => OutcomeSpec::Text(s@),
            Outcome::Error(s) => OutcomeSpec::Error(s@),
        }
    }
}

/// What the machine asks of the caller next.
#[derive(Debug)]
pub enum Action {
    /// Perform this operation and report its outcome.
    Perform(Op),
    /// The installation is over, with this result.
    Finish(Result<(), String>),
}

/// What an `Action` holds, as text.
pub enum ActionSpec {
    Perform(OpSpec),
    Finish(Result<(), Seq<char>>),
}

/// A result with its message as text.
pub open spec fn result_spec(r: Result<(), String>) -> Result<(), Seq<char>> {
    match r {
        Ok(()) => Ok(()),
        Err(e) => Err(e@),
    }
}

impl View for Action {
    type V = ActionSpec;

    open spec fn view(&self) -> ActionSpec {
        match self {
            Action::Perform(op) => ActionSpec::Perform(op@),
            Action::Finish(r) => ActionSpec::Finish(result_spec(*r)),
        }
    }
}

/// A step that logs `msg`.
pub open spec fn log_step(msg: Seq<char>) -> StepSpec {
    StepSpec { op: OpSpec::Log(log_line(msg)), expect: ExpectSpec::Nothing }
}

/// A step that runs `c`, judged by `e`.
pub open spec fn run_step(c: CommandSpec, e: ExpectSpec) -> StepSpec {
    StepSpec { op: OpSpec::Run(c), expect: e }
}

/// `umount` of partitions 1 to 8 of `device`, whatever each gives.
pub open spec fn unmount_steps(device: Seq<char>) -> Seq<StepSpec> {
    Seq::new(8, |i: int| run_step(umount_spec(device, (i + 1) as nat), ExpectSpec::Nothing))
}

/// The plan up to the reading of the disk size.
pub open spec fn plan_before_count(o: OptionsSpec) -> Seq<StepSpec> {
    seq![
        log_step("Starting MJVentoy installation..."@),
        StepSpec {
            op: OpSpec::CheckBlockDevice(o.device),
            expect: ExpectSpec::Confirmed(o.device + " is not a block device"@),
        },
        log_step("Unmounting partitions on "@ + o.device + "..."@),
    ] + (if !o.dry_run {
        unmount_steps(o.device)
    } else {
        seq![log_step("[DRY-RUN] Skipping unmount."@)]
    }) + seq![
        StepSpec {
            op: OpSpec::ReadSectorCount(sector_count_file(o.device)),
            expect: ExpectSpec::SectorCount,
        },
    ]
}

/// Clearing the old table, writing the new one, and for MBR setting the boot flag.
pub open spec fn partition_steps(
    device: Seq<char>,
    style: PartitionStyle,
    layout: (u64, u64, u64, u64),
) -> Seq<StepSpec> {
    seq![
        run_step(zero_table_spec(device), ExpectSpec::NoSpawnError),
        run_step(
            parted_spec(device, style, layout.0 as nat, layout.1 as nat, layout.2 as nat, layout.3 as nat),
            ExpectSpec::Succeeds("parted failed"@),
        ),
    ] + (if style == PartitionStyle::MBR {
        seq![run_step(boot_flag_spec(device), ExpectSpec::NoSpawnError)]
    } else {
        seq![]
    })
}

/// Waiting for the device nodes, then formatting the first partition as exFAT
/// and the second as FAT16.
pub open spec fn format_steps(device: Seq<char>, ventoy_path: Seq<char>, arch: Seq<char>) -> Seq<
    StepSpec,
> {
    let part1 = part_name(device, 1);
    let part2 = part_name(device, 2);
    let tool = exfat_tool_path(ventoy_path, arch);
    seq![
        log_step("Waiting for device nodes..."@),
        StepSpec { op: OpSpec::Sleep(2), expect: ExpectSpec::Nothing },
        log_step("Formatting "@ + part1 + " as exFAT..."@),
        StepSpec {
            op: OpSpec::CheckToolExists(tool),
            expect: ExpectSpec::Confirmed("mkexfatfs tool not found at "@ + tool),
        },
        run_step(mkexfatfs_spec(tool, part1), ExpectSpec::Succeeds("mkexfatfs failed"@)),
        log_step("Formatting "@ + part2 + " as FAT16..."@),
        run_step(mkfs_vfat_spec(part2), ExpectSpec::Succeeds("mkfs.vfat failed"@)),
    ]
}

/// Writing the boot sector, the core image and the image of the second partition.
pub open spec fn image_steps(device: Seq<char>, ventoy_path: Seq<char>, part2_start: u64) -> Seq<
    StepSpec,
> {
    seq![
        run_step(boot_image_spec(device, ventoy_path), ExpectSpec::NoSpawnError),
        run_step(xz_image_spec(core_image_path(ventoy_path), device, 1), ExpectSpec::NoSpawnError),
        run_step(
            xz_image_spec(ventoy_image_path(ventoy_path), device, part2_start as nat),
            ExpectSpec::NoSpawnError,
        ),
    ]
}

/// The plan once the disk is known to have `sectors` sectors.
pub open spec fn plan_after_count(o: OptionsSpec, arch: Seq<char>, sectors: u64) -> Seq<StepSpec> {
    let layout = disk_layout(sectors, o.reserve_space_mb, o.part_style);
    let part1 = part_name(o.device, 1);
    let part2 = part_name(o.device, 2);
    seq![
        log_step("Disk sector count: "@ + decimal(sectors as nat)),
        log_step(
            "Offsets: P1("@ + decimal(layout.0 as nat) + "-"@ + decimal(layout.1 as nat) + ") P2("@
                + decimal(layout.2 as nat) + "-"@ + decimal(layout.3 as nat) + ")"@,
        ),
        log_step("Creating partition table..."@),
    ] + (if !o.dry_run {
        partition_steps(o.device, o.part_style, layout)
    } else {
        seq![log_step("[DRY-RUN] Skipping partition table creation."@)]
    }) + (if !o.dry_run {
        format_steps(o.device, o.ventoy_path, arch)
    } else {
        seq![log_step("[DRY-RUN] Skipping formatting of "@ + part1 + " and "@ + part2 + "."@)]
    }) + seq![log_step("Writing bootloader and images..."@)] + (if !o.dry_run {
        image_steps(o.device, o.ventoy_path, layout.2)
    } else {
        seq![log_step("[DRY-RUN] Skipping image writing."@)]
    }) + seq![log_step("Installation successfully completed."@)]
}

fn push_log(v: &mut Vec<Step>, msg: &str)
    ensures
        final(v).deep_view() == old(v).deep_view().push(log_step(msg@)),
{
    v.push(Step { op: Op::Log(log_info(msg)), expect: Expect::Nothing });
    assert(v.deep_view() =~= old(v).deep_view().push(log_step(msg@)));
}

fn push_step(v: &mut Vec<Step>, s: Step)
    ensures
        final(v).deep_view() == old(v).deep_view().push(s@),
{
    v.push(s);
    assert(v.deep_view() =~= old(v).deep_view().push(s@));
}

/// Builds `plan_before_count`.
pub fn build_plan_before_count(o: &InstallationOptions) -> (plan: Vec<Step>)
    ensures
        plan.deep_view() == plan_before_count(o@),
{
    let dev = o.device.as_str();
    let mut v: Vec<Step> = Vec::new();
    push_log(&mut v, "Starting MJVentoy installation...");
    let not_block = String::from_str(dev).concat(" is not a block device");
    push_step(&mut v, Step { op: Op::CheckBlockDevice(String::from_str(dev)), expect: Expect::Confirmed(not_block) });
    let unmounting = String::from_str("Unmounting partitions on ").concat(dev).concat("...");
    push_log(&mut v, unmounting.as_str());
    let ghost head = v.deep_view();
    if !o.dry_run {
        let mut i: u8 = 1;
        while i < 9
            invariant
                1 <= i <= 9,
                dev@ == o.device@,
                v.deep_view() == head + unmount_steps(dev@).take(i - 1),
            decreases 9 - i,
        {
            push_step(&mut v, Step { op: Op::Run(umount_command(dev, i)), expect: Expect::Nothing });
            assert(unmount_steps(dev@).take(i as int) =~= unmount_steps(dev@).take(i - 1).push(
                run_step(umount_spec(dev@, i as nat), ExpectSpec::Nothing),
            ));
            i = i + 1;
        }
        assert(unmount_steps(dev@).take(8) =~= unmount_steps(dev@));
    } else {
        push_log(&mut v, "[DRY-RUN] Skipping unmount.");
    }
    push_step(&mut v, Step { op: Op::ReadSectorCount(sector_count_path(dev)), expect: Expect::SectorCount });
    assert(v.deep_view() =~= plan_before_count(o@));
    v
}

fn push_partition_steps(
    v: &mut Vec<Step>,
    device: &str,
    style: PartitionStyle,
    layout: (u64, u64, u64, u64),
)
    ensures
        final(v).deep_view() == old(v).deep_view() + partition_steps(device@, style, layout),
{
    push_step(v, Step { op: Op::Run(zero_table_command(device)), expect: Expect::NoSpawnError });
    let (p1s, p1e, p2s, p2e) = layout;
    push_step(
        v,
        Step {
            op: Op::Run(parted_command(device, style, p1s, p1e, p2s, p2e)),
            expect: Expect::Succeeds(String::from_str("parted failed")),
        },
    );
    if style == PartitionStyle::MBR {
        push_step(v, Step { op: Op::Run(boot_flag_command(device)), expect: Expect::NoSpawnError });
    }
    assert(v.deep_view() =~= old(v).deep_view() + partition_steps(device@, style, layout));
}

fn push_format_steps(v: &mut Vec<Step>, device: &str, ventoy_path: &str, arch: &str)
    ensures
        final(v).deep_view() == old(v).deep_view() + format_steps(device@, ventoy_path@, arch@),
{
    let part1 = get_part_name(device, 1);
    let part2 = get_part_name(device, 2);
    let tool = exfat_tool(ventoy_path, arch);
    push_log(v, "Waiting for device nodes...");
    push_step(v, Step { op: Op::Sleep(2), expect: Expect::Nothing });
    let m1 = String::from_str("Formatting ").concat(part1.as_str()).concat(" as exFAT...");
    push_log(v, m1.as_str());
    let missing = String::from_str("mkexfatfs tool not found at ").concat(tool.as_str());
    push_step(
        v,
        Step { op: Op::CheckToolExists(tool.clone()), expect: Expect::Confirmed(missing) },
    );
    push_step(
        v,
        Step {
            op: Op::Run(mkexfatfs_command(tool.as_str(), part1.as_str())),
            expect: Expect::Succeeds(String::from_str("mkexfatfs failed")),
        },
    );
    let m2 = String::from_str("Formatting ").concat(part2.as_str()).concat(" as FAT16...");
    push_log(v, m2.as_str());
    push_step(
        v,
        Step {
            op: Op::Run(mkfs_vfat_command(part2.as_str())),
            expect: Expect::Succeeds(String::from_str("mkfs.vfat failed")),
        },
    );
    assert(v.deep_view() =~= old(v).deep_view() + format_steps(device@, ventoy_path@, arch@));
}

fn push_image_steps(v: &mut Vec<Step>, device: &str, ventoy_path: &str, part2_start: u64)
    ensures
        final(v).deep_view() == old(v).deep_view() + image_steps(device@, ventoy_path@, part2_start),
{
    push_step(v, Step { op: Op::Run(boot_image_command(device, ventoy_path)), expect: Expect::NoSpawnError });
    let core = String::from_str(ventoy_path).concat("/INSTALL/boot/core.img.xz");
    push_step(
        v,
        Step { op: Op::Run(xz_image_command(core.as_str(), device, 1)), expect: Expect::NoSpawnError },
    );
    let image = String::from_str(ventoy_path).concat("/INSTALL/ventoy/ventoy.disk.img.xz");
    push_step(
        v,
        Step {
            op: Op::Run(xz_image_command(image.as_str(), device, part2_start)),
            expect: Expect::NoSpawnError,
        },
    );
    assert(v.deep_view() =~= old(v).deep_view() + image_steps(device@, ventoy_path@, part2_start));
}

/// Builds `plan_after_count`.
pub fn build_plan_after_count(o: &InstallationOptions, arch: &str, sectors: u64) -> (plan: Vec<Step>)
    requires
        offsets_fit(sectors, o.reserve_space_mb, o.part_style),
    ensures
        plan.deep_view() == plan_after_count(o@, arch@, sectors),
{
    let dev = o.device.as_str();
    let ventoy = o.ventoy_path.as_str();
    let layout = match calculate_offsets(sectors, o.reserve_space_mb, o.part_style) {
        Ok(l) => l,
        Err(_) => (0, 0, 0, 0),
    };
    let (p1s, p1e, p2s, p2e) = layout;
    let mut v: Vec<Step> = Vec::new();
    let count = String::from_str("Disk sector count: ").concat(u64_to_decimal(sectors).as_str());
    push_log(&mut v, count.as_str());
    let offsets = String::from_str("Offsets: P1(").concat(u64_to_decimal(p1s).as_str()).concat(
        "-",
    ).concat(u64_to_decimal(p1e).as_str()).concat(") P2(").concat(u64_to_decimal(p2s).as_str()).concat(
        "-",
    ).concat(u64_to_decimal(p2e).as_str()).concat(")");
    push_log(&mut v, offsets.as_str());
    push_log(&mut v, "Creating partition table...");
    if !o.dry_run {
        push_partition_steps(&mut v, dev, o.part_style, layout);
    } else {
        push_log(&mut v, "[DRY-RUN] Skipping partition table creation.");
    }
    if !o.dry_run {
        push_format_steps(&mut v, dev, ventoy, arch);
    } else {
        let part1 = get_part_name(dev, 1);
        let part2 = get_part_name(dev, 2);
        let skip = String::from_str("[DRY-RUN] Skipping formatting of ").concat(part1.as_str()).concat(
            " and ",
        ).concat(part2.as_str()).concat(".");
        push_log(&mut v, skip.as_str());
    }
    push_log(&mut v, "Writing bootloader and images...");
    if !o.dry_run {
        push_image_steps(&mut v, dev, ventoy, p2s);
    } else {
        push_log(&mut v, "[DRY-RUN] Skipping image writing.");
    }
    push_log(&mut v, "Installation successfully completed.");
    assert(v.deep_view() =~= plan_after_count(o@, arch@, sectors));
    v
}

/// How an outcome decides the installation.
#[derive(Debug)]
pub enum Verdict {
    /// Go on with the plan.
    Proceed,
    /// Go on; the disk has this many sectors.
    Counted(u64),
    /// Stop; the installation failed with this message.
    Fail(String),
}

/// What a `Verdict` holds, as text.
pub enum VerdictSpec {
    Proceed,
    Counted(u64),
    Fail(Seq<char>),
}

impl View for Verdict {
    type V = VerdictSpec;

    open spec fn view(&self) -> VerdictSpec {
        match self {
            Verdict::Proceed => VerdictSpec::Proceed,
            Verdict::Counted(n) => VerdictSpec::Counted(*n),
            Verdict::Fail(s) => VerdictSpec::Fail(s@),
        }
    }
}

/// The verdict on `outcome` for a step judged by `expect`. An outcome that
/// carries no contents, reported for the size file, reads as an empty file.
pub open spec fn judge(expect: ExpectSpec, outcome: OutcomeSpec) -> VerdictSpec {
    match expect {
        ExpectSpec::Nothing => VerdictSpec::Proceed,
        ExpectSpec::NoSpawnError => match outcome {
            OutcomeSpec::Error(e) => VerdictSpec::Fail(e),
            _ => VerdictSpec::Proceed,
        },
        ExpectSpec::Succeeds(msg) => match outcome {
            OutcomeSpec::Error(e) => VerdictSpec::Fail(e),
            OutcomeSpec::Exited(false) => VerdictSpec::Fail(msg),
            _ => VerdictSpec::Proceed,
        },
        ExpectSpec::Confirmed(msg) => match outcome {
            OutcomeSpec::Flag(true) => VerdictSpec::Proceed,
            _ => VerdictSpec::Fail(msg),
        },
        ExpectSpec::SectorCount => match outcome {
            OutcomeSpec::Error(e) => VerdictSpec::Fail(e),
            OutcomeSpec::Text(t) => match sector_count(t) {
                Ok(n) => VerdictSpec::Counted(n),
                Err(kind) => VerdictSpec::Fail(int_error_message(kind)),
            },
            _ => VerdictSpec::Fail(int_error_message(IntErrorKind::Empty)),
        },
    }
}

/// Decides `judge`.
pub fn judge_outcome(expect: &Expect, outcome: Outcome) -> (v: Verdict)
    ensures
        v@ == judge(expect@, outcome@),
{
    match expect {
        Expect::Nothing => Verdict::Proceed,
        Expect::NoSpawnError => match outcome {
            Outcome::Error(e) => Verdict::Fail(e),
            _ => Verdict::Proceed,
        },
        Expect::Succeeds(msg) => match outcome {
            Outcome::Error(e) => Verdict::Fail(e),
            Outcome::Exited(false) => Verdict::Fail(msg.clone()),
            _ => Verdict::Proceed,
        },
        Expect::Confirmed(msg) => match outcome {
            Outcome::Flag(true) => Verdict::Proceed,
            _ => Verdict::Fail(msg.clone()),
        },
        Expect::SectorCount => match outcome {
            Outcome::Error(e) => Verdict::Fail(e),
            Outcome::Text(t) => match parse_sector_count(t.as_str()) {
                Ok(n) => Verdict::Counted(n),
                Err(kind) => Verdict::Fail(String::from_str(kind.message())),
            },
            _ => Verdict::Fail(String::from_str(IntErrorKind::Empty.message())),
        },
    }
}

/// A running installation.
pub struct Installer {
    options: InstallationOptions,
    arch: String,
    steps: Vec<Step>,
    next: usize,
    expect: Expect,
    result: Option<Result<(), String>>,
}

/// The state of an installation: its options and machine architecture, the
/// steps still to hand out, how the outcome of the step handed out last is
/// judged, and the result once it is over.
pub struct InstallerSpec {
    pub options: OptionsSpec,
    pub arch: Seq<char>,
    pub pending: Seq<StepSpec>,
    pub expect: ExpectSpec,
    pub result: Option<Result<(), Seq<char>>>,
}

/// An optional result with its message as text.
pub open spec fn option_result_spec(r: Option<Result<(), String>>) -> Option<Result<(), Seq<char>>> {
    match r {
        Some(x) => Some(result_spec(x)),
        None => None,
    }
}

impl Installer {
    /// The position in the plan lies within it.
    pub closed spec fn wf(&self) -> bool {
        self.next <= self.steps@.len()
    }
}

impl View for Installer {
    type V = InstallerSpec;

    closed spec fn view(&self) -> InstallerSpec {
        InstallerSpec {
            options: self.options@,
            arch: self.arch@,
            pending: self.steps.deep_view().skip(self.next as int),
            expect: self.expect@,
            result: option_result_spec(self.result),
        }
    }
}

/// The installation that `install_ventoy` starts: nothing handed out yet.
pub open spec fn initial(options: OptionsSpec, arch: Seq<char>) -> InstallerSpec {
    InstallerSpec {
        options,
        arch,
        pending: plan_before_count(options),
        expect: ExpectSpec::Nothing,
        result: None,
    }
}

/// A reported disk size must leave room for the layout: on a smaller disk
/// the layout arithmetic would leave the range of `u64`.
pub open spec fn admissible(m: InstallerSpec, outcome: OutcomeSpec) -> bool {
    m.result is None ==> (judge(m.expect, outcome) matches VerdictSpec::Counted(n) ==> offsets_fit(
        n,
        m.options.reserve_space_mb,
        m.options.part_style,
    ))
}

/// One move of the installation on the outcome of the operation handed out
/// last: a finished installation stays as it is and repeats its result; a
/// failing verdict ends it with the failure; otherwise the next step of the
/// plan (extended, once the disk size is known, by the rest of the plan) is
/// handed out, or the installation succeeds when none is left.
pub open spec fn next_state(m: InstallerSpec, outcome: OutcomeSpec) -> (InstallerSpec, ActionSpec) {
    match m.result {
        Some(r) => (m, ActionSpec::Finish(r)),
        None => match judge(m.expect, outcome) {
            VerdictSpec::Fail(msg) => (
                InstallerSpec {
                    options: m.options,
                    arch: m.arch,
                    pending: m.pending,
                    expect: m.expect,
                    result: Some(Err(msg)),
                },
                ActionSpec::Finish(Err(msg)),
            ),
            verdict => {
                let queue = match verdict {
                    VerdictSpec::Counted(n) => m.pending + plan_after_count(m.options, m.arch, n),
                    _ => m.pending,
                };
                if queue.len() == 0 {
                    (
                        InstallerSpec {
                            options: m.options,
                            arch: m.arch,
                            pending: queue,
                            expect: m.expect,
                            result: Some(Ok(())),
                        },
                        ActionSpec::Finish(Ok(())),
                    )
                } else {
                    (
                        InstallerSpec {
                            options: m.options,
                            arch: m.arch,
                            pending: queue.drop_first(),
                            expect: queue[0].expect,
                            result: None,
                        },
                        ActionSpec::Perform(queue[0].op),
                    )
                }
            },
        },
    }
}

/// Starts an installation with `options` on a machine of architecture `arch`
/// (`std::env::consts::ARCH`). Report `Outcome::Done` to get the first operation.
pub fn install_ventoy(options: InstallationOptions, arch: &str) -> (m: Installer)
    ensures
        m.wf(),
        m@ == initial(options@, arch@),
{
    let steps = build_plan_before_count(&options);
    let m = Installer {
        options,
        arch: String::from_str(arch),
        steps,
        next: 0,
        expect: Expect::Nothing,
        result: None,
    };
    assert(m.steps.deep_view().skip(0) =~= m.steps.deep_view());
    m
}

impl Installer {
    /// Judges `outcome`, the result of the operation handed out last, and says
    /// what to do next.
    pub fn advance(&mut self, outcome: Outcome) -> (action: Action)
        requires
            old(self).wf(),
            admissible(old(self)@, outcome@),
        ensures
            final(self).wf(),
            (final(self)@, action@) == next_state(old(self)@, outcome@),
    {
        match &self.result {
            Some(Ok(())) => return Action::Finish(Ok(())),
            Some(Err(e)) => return Action::Finish(Err(e.clone())),
            None => {},
        }
        let ghost old_pending = self@.pending;
        let verdict = judge_outcome(&self.expect, outcome);
        match verdict {
            Verdict::Fail(msg) => {
                self.result = Some(Err(msg.clone()));
                return Action::Finish(Err(msg));
            },
            Verdict::Counted(n) => {
                let mut rest = build_plan_after_count(&self.options, self.arch.as_str(), n);
                let ghost before = self.steps.deep_view();
                let ghost added = rest.deep_view();
                self.steps.append(&mut rest);
                assert(self.steps.deep_view() =~= before + added);
                assert(self.steps.deep_view().skip(self.next as int) =~= old_pending + added);
            },
            Verdict::Proceed => {},
        }
        if self.next >= self.steps.len() {
            self.result = Some(Ok(()));
            return Action::Finish(Ok(()));
        }
        let op = self.steps[self.next].op.duplicate();
        let expect = self.steps[self.next].expect.duplicate();
        let ghost queue = self.steps.deep_view().skip(self.next as int);
        self.next = self.next + 1;
        self.expect = expect;
        assert(self.steps.deep_view().skip(self.next as int) =~= queue.drop_first());
        Action::Perform(op)
    }

    /// Whether `advance` may be given `outcome`: a reported disk size must
    /// leave room for the layout, or the layout arithmetic would leave `u64`.
    pub fn accepts(&self, outcome: &Outcome) -> (b: bool)
        ensures
            b == admissible(self@, outcome@),
    {
        if self.result.is_some() {
            return true;
        }
        match (&self.expect, outcome) {
            (Expect::SectorCount, Outcome::Text(t)) => match parse_sector_count(t.as_str()) {
                Ok(n) => layout_fits(n, self.options.reserve_space_mb, self.options.part_style),
                Err(_) => true,
            },
            _ => true,
        }
    }

    /// Whether the installation is over.
    pub fn is_finished(&self) -> (b: bool)
        ensures
            b == (self@.result is Some),
    {
        self.result.is_some()
    }
}

/// The outcome of a step that went well; `size_text` is what the size file holds.
pub open spec fn favourable(expect: ExpectSpec, size_text: Seq<char>) -> OutcomeSpec {
    match expect {
        ExpectSpec::Confirmed(_) => OutcomeSpec::Flag(true),
        ExpectSpec::Succeeds(_) => OutcomeSpec::Exited(true),
        ExpectSpec::SectorCount => OutcomeSpec::Text(size_text),
        _ => OutcomeSpec::Done,
    }
}

/// The states and actions of the installation on a sequence of outcomes.
pub open spec fn run(m: InstallerSpec, outcomes: Seq<OutcomeSpec>) -> (InstallerSpec, Seq<ActionSpec>)
    decreases outcomes.len(),
{
    if outcomes.len() == 0 {
        (m, seq![])
    } else {
        let (m2, a) = next_state(m, outcomes[0]);
        let (m3, rest) = run(m2, outcomes.drop_first());
        (m3, seq![a] + rest)
    }
}

/// The operations of a sequence of steps, handed out in order.
pub open spec fn performed(steps: Seq<StepSpec>) -> Seq<ActionSpec> {
    Seq::new(steps.len(), |i: int| ActionSpec::Perform(steps[i].op))
}

/// Whether `run` on `a` then on `b` is `run` on `a + b`.
proof fn lemma_run_concat(m: InstallerSpec, a: Seq<OutcomeSpec>, b: Seq<OutcomeSpec>)
    ensures
        run(m, a + b) == (run(run(m, a).0, b).0, run(m, a).1 + run(run(m, a).0, b).1),
    decreases a.len(),
{
    if a.len() == 0 {
        assert(a + b =~= b);
        assert(run(m, a).1 + run(run(m, a).0, b).1 =~= run(run(m, a).0, b).1);
    } else {
        let (m2, x) = next_state(m, a[0]);
        assert((a + b).drop_first() =~= a.drop_first() + b);
        lemma_run_concat(m2, a.drop_first(), b);
        assert(seq![x] + (run(m2, a.drop_first()).1 + run(run(m2, a.drop_first()).0, b).1) =~= (seq![x]
            + run(m2, a.drop_first()).1) + run(run(m2, a.drop_first()).0, b).1);
    }
}

/// Handing out every pending step while each outcome lets the plan go on.
proof fn lemma_walk(m: InstallerSpec, outcomes: Seq<OutcomeSpec>)
    requires
        m.result is None,
        outcomes.len() == m.pending.len(),
        outcomes.len() > 0 ==> judge(m.expect, outcomes[0]) is Proceed,
        forall|i: int|
            0 <= i < outcomes.len() - 1 ==> judge(m.pending[i].expect, #[trigger] outcomes[i + 1]) is Proceed,
    ensures
        run(m, outcomes).1 == performed(m.pending),
        run(m, outcomes).0.result is None,
        run(m, outcomes).0.pending.len() == 0,
        run(m, outcomes).0.options == m.options,
        run(m, outcomes).0.arch == m.arch,
        run(m, outcomes).0.expect == (if m.pending.len() > 0 { m.pending.last().expect } else { m.expect }),
    decreases outcomes.len(),
{
    if outcomes.len() == 0 {
        assert(performed(m.pending) =~= seq![]);
    } else {
        let (m2, a) = next_state(m, outcomes[0]);
        let rest = outcomes.drop_first();
        assert forall|i: int| 0 <= i < rest.len() - 1 implies judge(m2.pending[i].expect, #[trigger] rest[i + 1]) is Proceed by {
            assert(rest[i + 1] == outcomes[i + 2]);
            assert(m2.pending[i] == m.pending[i + 1]);
        }
        if rest.len() > 0 {
            assert(rest[0] == outcomes[1]);
        }
        lemma_walk(m2, rest);
        assert(performed(m.pending) =~= seq![a] + performed(m2.pending));
    }
}

/// The outcomes of an installation in which every step goes well: nothing to
/// report at the start, then the favourable outcome of each step of the plan.
pub open spec fn successful_outcomes(steps: Seq<StepSpec>, size_text: Seq<char>) -> Seq<OutcomeSpec> {
    seq![OutcomeSpec::Done] + Seq::new(steps.len(), |i: int| favourable(steps[i].expect, size_text))
}

/// An installation in which every step goes well hands out every operation of
/// the plan in order, the part after the size of the disk included, and then
/// succeeds. `size_text` is the content of the size file, naming `sectors`.
pub proof fn lemma_successful_installation(o: OptionsSpec, arch: Seq<char>, size_text: Seq<char>, sectors: u64)
    requires
        sector_count(size_text) == Ok::<u64, IntErrorKind>(sectors),
        offsets_fit(sectors, o.reserve_space_mb, o.part_style),
    ensures
        ({
            let plan = plan_before_count(o) + plan_after_count(o, arch, sectors);
            run(initial(o, arch), successful_outcomes(plan, size_text)).1 == performed(plan).push(
                ActionSpec::Finish(Ok(())),
            )
        }),
{
    let before = plan_before_count(o);
    let after = plan_after_count(o, arch, sectors);
    let plan = before + after;
    let outs = successful_outcomes(plan, size_text);
    let k = before.len() as int;
    lemma_plan_expectations(o, arch, sectors);
    let m0 = initial(o, arch);
    // first phase: the start and every step before the last one of `before`
    let first = outs.take(k);
    assert forall|i: int| 0 <= i < first.len() - 1 implies judge(m0.pending[i].expect, #[trigger] first[i + 1]) is Proceed by {
        assert(first[i + 1] == favourable(plan[i].expect, size_text));
        assert(plan[i] == before[i]);
        assert(before[i] == before.drop_last()[i]);
    }
    lemma_walk(m0, first);
    let m1 = run(m0, first).0;
    // second phase: the size is read, the rest of the plan is handed out
    let second = outs.skip(k);
    assert(second[0] == favourable(before[k - 1].expect, size_text)) by {
        assert(plan[k - 1] == before[k - 1]);
    }
    let (m2, a) = next_state(m1, second[0]);
    assert(a == ActionSpec::Perform(after[0].op));
    let third = second.drop_first();
    assert forall|i: int| 0 <= i < third.len() - 1 implies judge(m2.pending[i].expect, #[trigger] third[i + 1]) is Proceed by {
        assert(third[i + 1] == favourable(plan[k + i + 1].expect, size_text));
        assert(plan[k + i + 1] == after[i + 1]);
        assert(after[i + 1].expect != ExpectSpec::SectorCount);
    }
    let walked = third.take(third.len() - 1);
    assert forall|i: int| 0 <= i < walked.len() - 1 implies judge(m2.pending[i].expect, #[trigger] walked[i + 1]) is Proceed by {
        assert(walked[i + 1] == third[i + 1]);
    }
    if walked.len() > 0 {
        assert(walked[0] == third[0]);
        assert(third[0] == favourable(plan[k].expect, size_text));
        assert(plan[k] == after[0]);
    }
    lemma_walk(m2, walked);
    let m3 = run(m2, walked).0;
    let last = third.skip(third.len() - 1);
    assert(last[0] == favourable(after.last().expect, size_text)) by {
        assert(plan[plan.len() - 1] == after.last());
    }
    assert(run(m3, last).1 =~= seq![ActionSpec::Finish(Ok(()))]) by {
        assert(last.len() == 1);
        assert(last.drop_first() =~= Seq::<OutcomeSpec>::empty());
        assert(m3.expect == after.last().expect) by {
            if m2.pending.len() > 0 {
                assert(m2.pending.last() == after.last());
            }
        }
        assert(after.last() == after[after.len() - 1]);
        assert(judge(m3.expect, last[0]) is Proceed);
        assert(next_state(m3, last[0]).1 == ActionSpec::Finish(Ok(())));
        assert(run(next_state(m3, last[0]).0, last.drop_first()).1 =~= Seq::<ActionSpec>::empty());
    }
    assert(third =~= walked + last);
    lemma_run_concat(m2, walked, last);
    assert(second =~= seq![second[0]] + third);
    lemma_run_concat(m1, seq![second[0]], third);
    assert(outs =~= first + second);
    lemma_run_concat(m0, first, second);
    assert(performed(plan).push(ActionSpec::Finish(Ok(()))) =~= performed(before) + (seq![a]
        + (performed(m2.pending) + seq![ActionSpec::Finish(Ok(()))])));
}

/// No step of `steps` reads the disk size.
pub open spec fn counts_nothing(steps: Seq<StepSpec>) -> bool {
    forall|i: int| 0 <= i < steps.len() ==> #[trigger] steps[i].expect != ExpectSpec::SectorCount
}

proof fn lemma_counts_nothing_concat(a: Seq<StepSpec>, b: Seq<StepSpec>)
    requires
        counts_nothing(a),
        counts_nothing(b),
    ensures
        counts_nothing(a + b),
{
    assert forall|i: int| 0 <= i < (a + b).len() implies #[trigger] (a + b)[i].expect != ExpectSpec::SectorCount by {
        if i < a.len() {
            assert((a + b)[i] == a[i]);
        } else {
            assert((a + b)[i] == b[i - a.len()]);
        }
    }
}

/// Every step of the plan lets the installation go on when it goes well, but
/// the reading of the disk size, which ends the first part of the plan.
proof fn lemma_plan_expectations(o: OptionsSpec, arch: Seq<char>, sectors: u64)
    ensures
        plan_before_count(o).len() > 0,
        plan_after_count(o, arch, sectors).len() > 0,
        plan_before_count(o).last().expect == ExpectSpec::SectorCount,
        counts_nothing(plan_before_count(o).drop_last()),
        counts_nothing(plan_after_count(o, arch, sectors)),
{
    let dev = o.device;
    let head: Seq<StepSpec> = seq![
        log_step("Starting MJVentoy installation..."@),
        StepSpec {
            op: OpSpec::CheckBlockDevice(dev),
            expect: ExpectSpec::Confirmed(dev + " is not a block device"@),
        },
        log_step("Unmounting partitions on "@ + dev + "..."@),
    ];
    let unmount = if !o.dry_run {
        unmount_steps(dev)
    } else {
        seq![log_step("[DRY-RUN] Skipping unmount."@)]
    };
    assert(counts_nothing(head)) by {
        assert(head[0].expect == ExpectSpec::Nothing);
        assert(head[2].expect == ExpectSpec::Nothing);
    }
    assert(counts_nothing(unmount));
    lemma_counts_nothing_concat(head, unmount);
    assert(plan_before_count(o).drop_last() =~= head + unmount);

    let layout = disk_layout(sectors, o.reserve_space_mb, o.part_style);
    let part1 = part_name(dev, 1);
    let part2 = part_name(dev, 2);
    let logs: Seq<StepSpec> = seq![
        log_step("Disk sector count: "@ + decimal(sectors as nat)),
        log_step(
            "Offsets: P1("@ + decimal(layout.0 as nat) + "-"@ + decimal(layout.1 as nat) + ") P2("@
                + decimal(layout.2 as nat) + "-"@ + decimal(layout.3 as nat) + ")"@,
        ),
        log_step("Creating partition table..."@),
    ];
    assert(counts_nothing(logs)) by {
        assert(logs[0].expect == ExpectSpec::Nothing);
        assert(logs[1].expect == ExpectSpec::Nothing);
        assert(logs[2].expect == ExpectSpec::Nothing);
    }
    let parts = if !o.dry_run {
        partition_steps(dev, o.part_style, layout)
    } else {
        seq![log_step("[DRY-RUN] Skipping partition table creation."@)]
    };
    assert(counts_nothing(parts)) by {
        if !o.dry_run {
            let p = partition_steps(dev, o.part_style, layout);
            assert(p[0].expect == ExpectSpec::NoSpawnError);
            if o.part_style == PartitionStyle::MBR {
                assert(p[2].expect == ExpectSpec::NoSpawnError);
            }
        }
    }
    let formats = if !o.dry_run {
        format_steps(dev, o.ventoy_path, arch)
    } else {
        seq![log_step("[DRY-RUN] Skipping formatting of "@ + part1 + " and "@ + part2 + "."@)]
    };
    assert(counts_nothing(formats)) by {
        if !o.dry_run {
            let f = format_steps(dev, o.ventoy_path, arch);
            assert(f[0].expect == ExpectSpec::Nothing);
            assert(f[1].expect == ExpectSpec::Nothing);
            assert(f[2].expect == ExpectSpec::Nothing);
            assert(f[5].expect == ExpectSpec::Nothing);
        }
    }
    let writing: Seq<StepSpec> = seq![log_step("Writing bootloader and images..."@)];
    assert(counts_nothing(writing));
    let images = if !o.dry_run {
        image_steps(dev, o.ventoy_path, layout.2)
    } else {
        seq![log_step("[DRY-RUN] Skipping image writing."@)]
    };
    assert(counts_nothing(images)) by {
        if !o.dry_run {
            let g = image_steps(dev, o.ventoy_path, layout.2);
            assert(g[0].expect == ExpectSpec::NoSpawnError);
            assert(g[1].expect == ExpectSpec::NoSpawnError);
            assert(g[2].expect == ExpectSpec::NoSpawnError);
        }
    }
    let done: Seq<StepSpec> = seq![log_step("Installation successfully completed."@)];
    assert(counts_nothing(done));
    lemma_counts_nothing_concat(logs, parts);
    lemma_counts_nothing_concat(logs + parts, formats);
    lemma_counts_nothing_concat(logs + parts + formats, writing);
    lemma_counts_nothing_concat(logs + parts + formats + writing, images);
    lemma_counts_nothing_concat(logs + parts + formats + writing + images, done);
    assert(plan_after_count(o, arch, sectors) =~= logs + parts + formats + writing + images + done);
}

/// Whether an operation leaves the disk as it is: a log line, a check or a read.
pub open spec fn leaves_disk_untouched(op: OpSpec) -> bool {
    op is Log || op is CheckBlockDevice || op is ReadSectorCount
}

/// Whether every step of `steps` leaves the disk as it is.
pub open spec fn all_untouched(steps: Seq<StepSpec>) -> bool {
    forall|i: int| 0 <= i < steps.len() ==> leaves_disk_untouched(#[trigger] steps[i].op)
}

proof fn lemma_all_untouched_concat(a: Seq<StepSpec>, b: Seq<StepSpec>)
    requires
        all_untouched(a),
        all_untouched(b),
    ensures
        all_untouched(a + b),
{
    assert forall|i: int| 0 <= i < (a + b).len() implies leaves_disk_untouched(#[trigger] (a + b)[i].op) by {
        if i < a.len() {
            assert((a + b)[i] == a[i]);
        } else {
            assert((a + b)[i] == b[i - a.len()]);
        }
    }
}

/// A dry run runs no command, sleeps not and checks no tool: every operation
/// of its plan only logs, checks the device or reads its size.
pub proof fn lemma_dry_run_leaves_disk_untouched(o: OptionsSpec, arch: Seq<char>, sectors: u64)
    requires
        o.dry_run,
    ensures
        all_untouched(plan_before_count(o)),
        all_untouched(plan_after_count(o, arch, sectors)),
{
    let dev = o.device;
    let before = plan_before_count(o);
    assert(leaves_disk_untouched(before[0].op));
    assert(leaves_disk_untouched(before[1].op));
    assert(leaves_disk_untouched(before[2].op));
    assert(leaves_disk_untouched(before[3].op));
    assert(leaves_disk_untouched(before[4].op));
    assert(before.len() == 5);
    let after = plan_after_count(o, arch, sectors);
    assert(after.len() == 8);
    assert(leaves_disk_untouched(after[0].op));
    assert(leaves_disk_untouched(after[1].op));
    assert(leaves_disk_untouched(after[2].op));
    assert(leaves_disk_untouched(after[3].op));
    assert(leaves_disk_untouched(after[4].op));
    assert(leaves_disk_untouched(after[5].op));
    assert(leaves_disk_untouched(after[6].op));
    assert(leaves_disk_untouched(after[7].op));
}

/// A finished installation stays finished: whatever is reported afterwards,
/// its state does not change and it answers with the same result.
pub proof fn lemma_finished_installation_is_final(m: InstallerSpec, outcomes: Seq<OutcomeSpec>)
    requires
        m.result is Some,
    ensures
        run(m, outcomes).0 == m,
        run(m, outcomes).1 == Seq::new(outcomes.len(), |i: int| ActionSpec::Finish(m.result->0)),
    decreases outcomes.len(),
{
    if outcomes.len() > 0 {
        lemma_finished_installation_is_final(m, outcomes.drop_first());
        assert(run(m, outcomes).1 =~= Seq::new(outcomes.len(), |i: int| ActionSpec::Finish(m.result->0)));
    } else {
        assert(run(m, outcomes).1 =~= Seq::new(outcomes.len(), |i: int| ActionSpec::Finish(m.result->0)));
    }
}

/// A step that fails ends the installation: the failure is the result, and
/// nothing more is handed out.
pub proof fn lemma_failure_ends_installation(m: InstallerSpec, failing: OutcomeSpec, later: Seq<OutcomeSpec>)
    requires
        m.result is None,
        judge(m.expect, failing) is Fail,
    ensures
        ({
            let msg = judge(m.expect, failing)->Fail_0;
            &&& next_state(m, failing).1 == ActionSpec::Finish(Err(msg))
            &&& run(m, seq![failing] + later).1 == Seq::new(
                later.len() + 1,
                |i: int| ActionSpec::Finish(Err(msg)),
            )
        }),
{
    let msg = judge(m.expect, failing)->Fail_0;
    let m2 = next_state(m, failing).0;
    assert(m2.result == Some(Err::<(), Seq<char>>(msg)));
    lemma_finished_installation_is_final(m2, later);
    assert((seq![failing] + later).drop_first() =~= later);
    assert(run(m, seq![failing] + later).1 =~= Seq::new(later.len() + 1, |i: int| ActionSpec::Finish(Err(msg))));
}

/// The partition table and the image of the second partition follow the
/// layout of the requested partition style: `parted` gets the layout for
/// `o.part_style`, the image is written at its second partition, and that
/// layout starts the first partition at 2048, puts the second right after
/// it on a multiple of 8 with 65536 sectors, and keeps, for GPT, the 34 sectors
/// of the backup table free at the end of the disk (besides the reserve).
pub proof fn lemma_plan_uses_requested_layout(o: OptionsSpec, arch: Seq<char>, sectors: u64)
    requires
        !o.dry_run,
        offsets_fit(sectors, o.reserve_space_mb, o.part_style),
    ensures
        ({
            let plan = plan_after_count(o, arch, sectors);
            let l = disk_layout(sectors, o.reserve_space_mb, o.part_style);
            let kept = o.reserve_space_mb * 2048 + (if o.part_style == PartitionStyle::GPT { 34int } else { 0 });
            &&& plan.len() >= 6
            &&& plan[4] == run_step(
                parted_spec(o.device, o.part_style, l.0 as nat, l.1 as nat, l.2 as nat, l.3 as nat),
                ExpectSpec::Succeeds("parted failed"@),
            )
            &&& plan[plan.len() - 2] == run_step(
                xz_image_spec(ventoy_image_path(o.ventoy_path), o.device, l.2 as nat),
                ExpectSpec::NoSpawnError,
            )
            &&& l.0 == 2048
            &&& l.1 + 1 == l.2
            &&& l.2 % 8 == 0
            &&& l.3 == l.2 + 65535
            &&& l.3 + 1 + kept <= sectors < l.3 + 1 + kept + 8
        }),
{
    let plan = plan_after_count(o, arch, sectors);
    let l = disk_layout(sectors, o.reserve_space_mb, o.part_style);
    let dev = o.device;
    let logs: Seq<StepSpec> = seq![
        log_step("Disk sector count: "@ + decimal(sectors as nat)),
        log_step(
            "Offsets: P1("@ + decimal(l.0 as nat) + "-"@ + decimal(l.1 as nat) + ") P2("@
                + decimal(l.2 as nat) + "-"@ + decimal(l.3 as nat) + ")"@,
        ),
        log_step("Creating partition table..."@),
    ];
    let parts = partition_steps(dev, o.part_style, l);
    let formats = format_steps(dev, o.ventoy_path, arch);
    let writing: Seq<StepSpec> = seq![log_step("Writing bootloader and images..."@)];
    let images = image_steps(dev, o.ventoy_path, l.2);
    let done: Seq<StepSpec> = seq![log_step("Installation successfully completed."@)];
    assert(plan =~= logs + parts + formats + writing + images + done);
    assert(plan[4] == parts[1]);
    assert(plan[plan.len() - 2] == images[2]);
}

} // verus!
