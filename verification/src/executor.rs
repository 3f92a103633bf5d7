//! The installation: the disk layout, the commands that prepare the disk, the
//! plan that orders them, and the state machine that walks the plan while the
//! caller performs each operation.
use vstd::prelude::*;
pub use crate::installer::{install_ventoy, Installer};
use crate::text::{
    contains_seq, contains_str, decimal, parse_u64, parse_u64_str, strip_prefixes, strip_prefixes_str,
    lemma_parse_decimal, str_eq, trim, trim_end, trim_start, trim_str, u64_to_decimal, IntErrorKind,
};

verus! {

/// The partition table that the installer writes.
#[derive(Debug, Clone, Copy, PartialEq, Eq, Structural)]
pub enum PartitionStyle {
    MBR,
    GPT,
}

/// Sectors of the second (EFI) partition.
pub const VENTOY_SECTOR_NUM: u64 = 65536;

/// Sectors that a GPT table keeps at the end of the disk.
pub open spec fn table_overhead(style: PartitionStyle) -> int {
    if style == PartitionStyle::GPT { 34 } else { 0 }
}

/// The last sector of the first partition before it is shortened to align the second.
pub open spec fn unaligned_part1_end(sector_num: u64, reserve_mb: u64, style: PartitionStyle) -> int {
    sector_num - reserve_mb * 2048 - VENTOY_SECTOR_NUM - 1 - table_overhead(style)
}

/// Whether the layout arithmetic stays within `u64` for this disk: the
/// inputs on which `calculate_offsets` neither overflows nor underflows.
pub open spec fn offsets_fit(sector_num: u64, reserve_mb: u64, style: PartitionStyle) -> bool {
    let p1e = unaligned_part1_end(sector_num, reserve_mb, style);
    &&& reserve_mb * 2048 <= u64::MAX
    &&& p1e >= 0
    &&& p1e >= (p1e + 1) % 8
}

/// The layout `(part1_start, part1_end, part2_start, part2_end)`: the first
/// partition starts at sector 2048; the second, of `VENTOY_SECTOR_NUM`
/// sectors, follows it, moved down to a multiple of 8 sectors, before the
/// reserved space and the table's own sectors.
pub open spec fn disk_layout(sector_num: u64, reserve_mb: u64, style: PartitionStyle) -> (u64, u64, u64, u64) {
    let p1e = unaligned_part1_end(sector_num, reserve_mb, style);
    let end1 = p1e - (p1e + 1) % 8;
    (2048, end1 as u64, (end1 + 1) as u64, (end1 + VENTOY_SECTOR_NUM) as u64)
}

/// Decides `offsets_fit`.
pub fn layout_fits(sector_num: u64, reserve_mb: u64, style: PartitionStyle) -> (b: bool)
    ensures
        b == offsets_fit(sector_num, reserve_mb, style),
{
    if reserve_mb > u64::MAX / 2048 {
        return false;
    }
    let reserve_sectors = reserve_mb * 2048;
    let overhead: u64 = if style == PartitionStyle::GPT { 34 } else { 0 };
    if sector_num < reserve_sectors {
        return false;
    }
    let rest = sector_num - reserve_sectors;
    if rest < VENTOY_SECTOR_NUM + 1 + overhead {
        return false;
    }
    let p1e = rest - VENTOY_SECTOR_NUM - 1 - overhead;
    p1e >= (p1e + 1) % 8
}

/// Computes the partition layout of a disk of `sector_num` sectors that keeps
/// `reserve_mb` MiB free at its end.
pub fn calculate_offsets(sector_num: u64, reserve_mb: u64, style: PartitionStyle) -> (r: Result<
    (u64, u64, u64, u64),
    (),
>)
    requires
        offsets_fit(sector_num, reserve_mb, style),
    ensures
        r == Ok::<(u64, u64, u64, u64), ()>(disk_layout(sector_num, reserve_mb, style)),
        r matches Ok((p1s, p1e, p2s, p2e)) && {
            &&& p1s == 2048
            &&& p1e + 1 == p2s
            &&& p2s % 8 == 0
            &&& p2e - p2s + 1 == VENTOY_SECTOR_NUM
            &&& p2e + 1 + reserve_mb * 2048 + table_overhead(style) <= sector_num
            &&& sector_num < p2e + 1 + reserve_mb * 2048 + table_overhead(style) + 8
        },
{
    let part1_start: u64 = 2048;
    let reserve_sectors = reserve_mb * 2048;
    let overhead: u64 = if style == PartitionStyle::GPT { 34 } else { 0 };
    let part1_end = sector_num - reserve_sectors - VENTOY_SECTOR_NUM - 1 - overhead;
    let part2_start = part1_end + 1;
    let mod_sector = part2_start % 8;
    let final_part1_end = if mod_sector > 0 { part1_end - mod_sector } else { part1_end };
    let final_part2_start = final_part1_end + 1;
    let part2_end = final_part2_start + VENTOY_SECTOR_NUM - 1;
    Ok((part1_start, final_part1_end, final_part2_start, part2_end))
}

/// The device node of partition `index` of `device`: devices whose name holds
/// `nvme`, `mmcblk` or `loop` put a `p` before the number.
pub open spec fn part_name(device: Seq<char>, index: nat) -> Seq<char> {
    if contains_seq(device, "nvme"@) || contains_seq(device, "mmcblk"@) || contains_seq(device, "loop"@) {
        device + "p"@ + decimal(index)
    } else {
        device + decimal(index)
    }
}

/// Whether the text `pat` occurs somewhere in `s`, position by position.
pub open spec fn has_infix(s: Seq<char>, pat: Seq<char>) -> bool {
    exists|i: int| 0 <= i && i + pat.len() <= s.len() && #[trigger] s.subrange(i, i + pat.len()) == pat
}

proof fn lemma_has_infix_is_contains(s: Seq<char>, pat: Seq<char>)
    ensures
        has_infix(s, pat) == contains_seq(s, pat),
{
    if has_infix(s, pat) {
        let i = choose|i: int| 0 <= i && i + pat.len() <= s.len() && #[trigger] s.subrange(i, i + pat.len()) == pat;
        assert(crate::text::occurs_at(s, pat, i));
    }
    if contains_seq(s, pat) {
        let i = choose|i: int| crate::text::occurs_at(s, pat, i);
        assert(s.subrange(i, i + pat.len()) == pat);
    }
}

/// Partition names: a device whose name holds `nvme`, `mmcblk` or `loop`
/// takes `p` and the number (`/dev/nvme0n1p1`); any other device takes the
/// number right after its name (`/dev/sdc1`). Read back, the part after the
/// device and the separator is the partition number.
pub proof fn lemma_part_names(device: Seq<char>, index: u8)
    ensures
        !has_infix(device, "nvme"@) && !has_infix(device, "mmcblk"@) && !has_infix(device, "loop"@)
            ==> part_name(device, index as nat) == device + decimal(index as nat),
        has_infix(device, "nvme"@) || has_infix(device, "mmcblk"@) || has_infix(device, "loop"@)
            ==> part_name(device, index as nat) == device + "p"@ + decimal(index as nat),
        part_name(device, index as nat).subrange(0, device.len() as int) == device,
        parse_u64(part_name(device, index as nat).subrange(
            part_name(device, index as nat).len() - decimal(index as nat).len(),
            part_name(device, index as nat).len() as int,
        )) == Ok::<u64, IntErrorKind>(index as u64),
{
    let d = decimal(index as nat);
    let name = part_name(device, index as nat);
    lemma_parse_decimal(index as u64);
    lemma_has_infix_is_contains(device, "nvme"@);
    lemma_has_infix_is_contains(device, "mmcblk"@);
    lemma_has_infix_is_contains(device, "loop"@);
    if has_infix(device, "nvme"@) || has_infix(device, "mmcblk"@) || has_infix(device, "loop"@) {
        assert(name == device + "p"@ + d);
        assert(name.subrange(0, device.len() as int) =~= device);
        assert(name.subrange(name.len() - d.len(), name.len() as int) =~= d);
    } else {
        assert(name == device + d);
        assert(name.subrange(0, device.len() as int) =~= device);
        assert(name.subrange(name.len() - d.len(), name.len() as int) =~= d);
    }
}

/// Names the device node of partition `index` of `device`.
pub fn get_part_name(device: &str, index: u8) -> (name: String)
    ensures
        name@ == part_name(device@, index as nat),
        !has_infix(device@, "nvme"@) && !has_infix(device@, "mmcblk"@) && !has_infix(device@, "loop"@)
            ==> name@ == device@ + decimal(index as nat),
        has_infix(device@, "nvme"@) || has_infix(device@, "mmcblk"@) || has_infix(device@, "loop"@)
            ==> name@ == device@ + "p"@ + decimal(index as nat),
{
    proof {
        lemma_part_names(device@, index);
    }
    let number = u64_to_decimal(index as u64);
    if contains_str(device, "nvme") || contains_str(device, "mmcblk") || contains_str(device, "loop") {
        String::from_str(device).concat("p").concat(number.as_str())
    } else {
        String::from_str(device).concat(number.as_str())
    }
}

/// The sysfs file that holds the size in sectors of `device`.
pub open spec fn sector_count_file(device: Seq<char>) -> Seq<char> {
    "/sys/block/"@ + strip_prefixes(device, "/dev/"@) + "/size"@
}

/// Names the sysfs file that holds the size in sectors of `device`.
pub fn sector_count_path(device: &str) -> (path: String)
    ensures
        path@ == sector_count_file(device@),
{
    let dev_name = strip_prefixes_str(device, "/dev/");
    String::from_str("/sys/block/").concat(dev_name).concat("/size")
}

/// The directory of the formatting tool for each machine architecture.
pub open spec fn tool_arch(arch: Seq<char>) -> Seq<char> {
    if arch == "x86_64"@ {
        "x86_64"@
    } else if arch == "x86"@ {
        "i386"@
    } else if arch == "aarch64"@ {
        "aarch64"@
    } else if arch == "mips64"@ {
        "mips64el"@
    } else {
        "i386"@
    }
}

/// Names the directory of the formatting tool for the architecture `arch`.
pub fn tool_arch_dir(arch: &str) -> (dir: &'static str)
    ensures
        dir@ == tool_arch(arch@),
{
    if str_eq(arch, "x86_64") {
        "x86_64"
    } else if str_eq(arch, "x86") {
        "i386"
    } else if str_eq(arch, "aarch64") {
        "aarch64"
    } else if str_eq(arch, "mips64") {
        "mips64el"
    } else {
        "i386"
    }
}

/// What the user asked the installer to do.
#[derive(Debug)]
pub struct InstallationOptions {
    /// The device node, such as `/dev/sdb`.
    pub device: String,
    pub part_style: PartitionStyle,
    pub secure_boot: bool,
    pub reserve_space_mb: u64,
    /// The directory of the Ventoy release whose images are installed.
    pub ventoy_path: String,
    /// Log every step but change nothing on the disk.
    pub dry_run: bool,
}

/// What `InstallationOptions` holds, as text and numbers.
pub struct OptionsSpec {
    pub device: Seq<char>,
    pub part_style: PartitionStyle,
    pub secure_boot: bool,
    pub reserve_space_mb: u64,
    pub ventoy_path: Seq<char>,
    pub dry_run: bool,
}

impl View for InstallationOptions {
    type V = OptionsSpec;

    open spec fn view(&self) -> OptionsSpec {
        OptionsSpec {
            device: self.device@,
            part_style: self.part_style,
            secure_boot: self.secure_boot,
            reserve_space_mb: self.reserve_space_mb,
            ventoy_path: self.ventoy_path@,
            dry_run: self.dry_run,
        }
    }
}

impl InstallationOptions {
    /// A copy of the options.
    pub fn duplicate(&self) -> (o: InstallationOptions)
        ensures
            o@ == self@,
    {
        InstallationOptions {
            device: self.device.clone(),
            part_style: self.part_style,
            secure_boot: self.secure_boot,
            reserve_space_mb: self.reserve_space_mb,
            ventoy_path: self.ventoy_path.clone(),
            dry_run: self.dry_run,
        }
    }
}

/// The options of the `install` command: `--gpt` picks GPT over MBR, and
/// `--no-secure-boot` turns secure boot off.
pub fn options_from_command_line(
    device: String,
    gpt: bool,
    no_secure_boot: bool,
    reserve: u64,
    ventoy_path: String,
    dry_run: bool,
) -> (o: InstallationOptions)
    ensures
        o@ == (OptionsSpec {
            device: device@,
            part_style: if gpt { PartitionStyle::GPT } else { PartitionStyle::MBR },
            secure_boot: !no_secure_boot,
            reserve_space_mb: reserve,
            ventoy_path: ventoy_path@,
            dry_run,
        }),
{
    InstallationOptions {
        device,
        part_style: if gpt { PartitionStyle::GPT } else { PartitionStyle::MBR },
        secure_boot: !no_secure_boot,
        reserve_space_mb: reserve,
        ventoy_path,
        dry_run,
    }
}

/// The line that the installation log records for `msg`.
pub open spec fn log_line(msg: Seq<char>) -> Seq<char> {
    "[INFO] "@ + msg
}

/// Builds the line that the installation log records for `msg`.
pub fn log_info(msg: &str) -> (line: String)
    ensures
        line@ == log_line(msg@),
{
    String::from_str("[INFO] ").concat(msg)
}

/// A line of the log file: the local time, a dash, then the entry.
pub open spec fn timestamped_line(time: Seq<char>, entry: Seq<char>) -> Seq<char> {
    time + " - "@ + entry
}

/// Builds a line of the log file from the formatted local time and an entry.
pub fn timestamped(time: &str, entry: &str) -> (line: String)
    ensures
        line@ == timestamped_line(time@, entry@),
{
    String::from_str(time).concat(" - ").concat(entry)
}

/// The size in sectors that the contents of the sysfs size file give, trimmed.
pub open spec fn sector_count(content: Seq<char>) -> Result<u64, IntErrorKind> {
    parse_u64(trim(content))
}

/// Reads the size in sectors from the contents of the sysfs size file.
pub fn parse_sector_count(content: &str) -> (r: Result<u64, IntErrorKind>)
    ensures
        r == sector_count(content@),
{
    parse_u64_str(trim_str(content))
}

/// The size file of a disk, written by the kernel in decimal, is read back
/// as the number it was written from, trailing newline or not.
pub proof fn lemma_sector_count_reads_decimal(n: u64)
    ensures
        sector_count(decimal(n as nat)) == Ok::<u64, IntErrorKind>(n),
        sector_count(decimal(n as nat) + "\n"@) == Ok::<u64, IntErrorKind>(n),
{
    lemma_parse_decimal(n);
    let s = decimal(n as nat);
    let t = s + "\n"@;
    reveal_strlit("\n");
    assert(t.drop_last() =~= s);
    assert(t[0] == s[0]);
    assert(trim_start(t) == t);
    assert(trim_end(t) == trim_end(s));
}

} // verus!
