//! The external commands that the installer and the tool probes run, as
//! program names and argument lists.
use vstd::prelude::*;
use crate::executor::{part_name, PartitionStyle, tool_arch, get_part_name, tool_arch_dir};
use crate::text::{decimal, u64_to_decimal};

verus! {

/// A program and its arguments.
#[derive(Debug)]
pub struct CommandLine {
    pub program: String,
    pub args: Vec<String>,
}

/// What a `CommandLine` holds, as text.
pub struct CommandSpec {
    pub program: Seq<char>,
    pub args: Seq<Seq<char>>,
}

impl View for CommandLine {
    type V = CommandSpec;

    open spec fn view(&self) -> CommandSpec {
        CommandSpec { program: self.program@, args: self.args.deep_view() }
    }
}

/// A command with no arguments yet.
pub fn command(program: &str) -> (c: CommandLine)
    ensures
        c@ == (CommandSpec { program: program@, args: seq![] }),
{
    let c = CommandLine { program: String::from_str(program), args: Vec::new() };
    assert(c.args.deep_view() =~= Seq::<Seq<char>>::empty());
    c
}

impl CommandLine {
    /// Appends one argument.
    pub fn arg(&mut self, a: &str)
        ensures
            final(self)@ == (CommandSpec { program: old(self)@.program, args: old(self)@.args.push(a@) }),
    {
        self.args.push(String::from_str(a));
        assert(self.args.deep_view() =~= old(self).args.deep_view().push(a@));
    }
}

/// `umount <partition>`, for partition `index` of `device`.
pub open spec fn umount_spec(device: Seq<char>, index: nat) -> CommandSpec {
    CommandSpec { program: "umount"@, args: seq![part_name(device, index)] }
}

/// Builds `umount_spec`.
pub fn umount_command(device: &str, index: u8) -> (c: CommandLine)
    ensures
        c@ == umount_spec(device@, index as nat),
{
    let mut c = command("umount");
    let part = get_part_name(device, index);
    c.arg(part.as_str());
    c
}

/// `dd` that overwrites the first 100 sectors of `device` with zeros.
pub open spec fn zero_table_spec(device: Seq<char>) -> CommandSpec {
    CommandSpec {
        program: "dd"@,
        args: seq!["if=/dev/zero"@, "of="@ + device, "bs=512"@, "count=100"@],
    }
}

/// Builds `zero_table_spec`.
pub fn zero_table_command(device: &str) -> (c: CommandLine)
    ensures
        c@ == zero_table_spec(device@),
{
    let mut c = command("dd");
    c.arg("if=/dev/zero");
    let of = String::from_str("of=").concat(device);
    c.arg(of.as_str());
    c.arg("bs=512");
    c.arg("count=100");
    assert(c@.args =~= zero_table_spec(device@).args);
    c
}

/// The `parted` label of each partition style.
pub open spec fn table_label(style: PartitionStyle) -> Seq<char> {
    if style == PartitionStyle::GPT { "gpt"@ } else { "msdos"@ }
}

/// `parted` that writes the table and both partitions, in sectors.
pub open spec fn parted_spec(
    device: Seq<char>,
    style: PartitionStyle,
    p1s: nat,
    p1e: nat,
    p2s: nat,
    p2e: nat,
) -> CommandSpec {
    CommandSpec {
        program: "parted"@,
        args: seq![
            "-s"@, device, "mklabel"@, table_label(style), "unit"@, "s"@,
            "mkpart"@, "primary"@, "ntfs"@, decimal(p1s), decimal(p1e),
            "mkpart"@, "primary"@, "fat16"@, decimal(p2s), decimal(p2e),
        ],
    }
}

/// Builds `parted_spec`.
pub fn parted_command(
    device: &str,
    style: PartitionStyle,
    p1s: u64,
    p1e: u64,
    p2s: u64,
    p2e: u64,
) -> (c: CommandLine)
    ensures
        c@ == parted_spec(device@, style, p1s as nat, p1e as nat, p2s as nat, p2e as nat),
{
    let label = if style == PartitionStyle::GPT { "gpt" } else { "msdos" };
    let mut c = command("parted");
    c.arg("-s");
    c.arg(device);
    c.arg("mklabel");
    c.arg(label);
    c.arg("unit");
    c.arg("s");
    c.arg("mkpart");
    c.arg("primary");
    c.arg("ntfs");
    let a = u64_to_decimal(p1s);
    c.arg(a.as_str());
    let b = u64_to_decimal(p1e);
    c.arg(b.as_str());
    c.arg("mkpart");
    c.arg("primary");
    c.arg("fat16");
    let d = u64_to_decimal(p2s);
    c.arg(d.as_str());
    let e = u64_to_decimal(p2e);
    c.arg(e.as_str());
    assert(c@.args =~= parted_spec(device@, style, p1s as nat, p1e as nat, p2s as nat, p2e as nat).args);
    c
}

/// `parted` that sets the boot flag on the first partition.
pub open spec fn boot_flag_spec(device: Seq<char>) -> CommandSpec {
    CommandSpec {
        program: "parted"@,
        args: seq!["-s"@, device, "set"@, "1"@, "boot"@, "on"@],
    }
}

/// Builds `boot_flag_spec`.
pub fn boot_flag_command(device: &str) -> (c: CommandLine)
    ensures
        c@ == boot_flag_spec(device@),
{
    let mut c = command("parted");
    c.arg("-s");
    c.arg(device);
    c.arg("set");
    c.arg("1");
    c.arg("boot");
    c.arg("on");
    assert(c@.args =~= boot_flag_spec(device@).args);
    c
}

/// The path of the exFAT formatting tool inside the Ventoy directory.
pub open spec fn exfat_tool_path(ventoy_path: Seq<char>, arch: Seq<char>) -> Seq<char> {
    ventoy_path + "/INSTALL/tool/"@ + tool_arch(arch) + "/mkexfatfs"@
}

/// Names the exFAT formatting tool for `arch`.
pub fn exfat_tool(ventoy_path: &str, arch: &str) -> (path: String)
    ensures
        path@ == exfat_tool_path(ventoy_path@, arch@),
{
    String::from_str(ventoy_path).concat("/INSTALL/tool/").concat(tool_arch_dir(arch)).concat(
        "/mkexfatfs",
    )
}

/// The exFAT tool run on `part`, labelling it `Ventoy` (`-n Ventoy`), as the
/// Ventoy layout names its data partition.
pub open spec fn mkexfatfs_spec(tool: Seq<char>, part: Seq<char>) -> CommandSpec {
    CommandSpec { program: tool, args: seq!["-n"@, "Ventoy"@, part] }
}

/// Builds `mkexfatfs_spec`.
pub fn mkexfatfs_command(tool: &str, part: &str) -> (c: CommandLine)
    ensures
        c@ == mkexfatfs_spec(tool@, part@),
{
    let mut c = command(tool);
    c.arg("-n");
    c.arg("Ventoy");
    c.arg(part);
    assert(c@.args =~= mkexfatfs_spec(tool@, part@).args);
    c
}

/// `mkfs.vfat` that formats `part` as FAT16 labelled `VTOYEFI`.
pub open spec fn mkfs_vfat_spec(part: Seq<char>) -> CommandSpec {
    CommandSpec {
        program: "mkfs.vfat"@,
        args: seq!["-F"@, "16"@, "-n"@, "VTOYEFI"@, part],
    }
}

/// Builds `mkfs_vfat_spec`.
pub fn mkfs_vfat_command(part: &str) -> (c: CommandLine)
    ensures
        c@ == mkfs_vfat_spec(part@),
{
    let mut c = command("mkfs.vfat");
    c.arg("-F");
    c.arg("16");
    c.arg("-n");
    c.arg("VTOYEFI");
    c.arg(part);
    assert(c@.args =~= mkfs_vfat_spec(part@).args);
    c
}

/// `dd` that copies the first 440 bytes of `boot.img` onto `device`.
pub open spec fn boot_image_spec(device: Seq<char>, ventoy_path: Seq<char>) -> CommandSpec {
    CommandSpec {
        program: "dd"@,
        args: seq![
            "if="@ + ventoy_path + "/INSTALL/boot/boot.img"@,
            "of="@ + device,
            "bs=1"@,
            "count=440"@,
            "conv=fsync"@,
        ],
    }
}

/// Builds `boot_image_spec`.
pub fn boot_image_command(device: &str, ventoy_path: &str) -> (c: CommandLine)
    ensures
        c@ == boot_image_spec(device@, ventoy_path@),
{
    let mut c = command("dd");
    let input = String::from_str("if=").concat(ventoy_path).concat("/INSTALL/boot/boot.img");
    c.arg(input.as_str());
    let output = String::from_str("of=").concat(device);
    c.arg(output.as_str());
    c.arg("bs=1");
    c.arg("count=440");
    c.arg("conv=fsync");
    assert(c@.args =~= boot_image_spec(device@, ventoy_path@).args);
    c
}

/// A shell pipeline that unpacks `image` and writes it to `device` from sector `seek`.
pub open spec fn xz_image_spec(image: Seq<char>, device: Seq<char>, seek: nat) -> CommandSpec {
    CommandSpec {
        program: "sh"@,
        args: seq![
            "-c"@,
            "xzcat "@ + image + " | dd of="@ + device + " bs=512 seek="@ + decimal(seek)
                + " conv=fsync"@,
        ],
    }
}

/// Builds `xz_image_spec`.
pub fn xz_image_command(image: &str, device: &str, seek: u64) -> (c: CommandLine)
    ensures
        c@ == xz_image_spec(image@, device@, seek as nat),
{
    let mut c = command("sh");
    c.arg("-c");
    let s = u64_to_decimal(seek);
    let line = String::from_str("xzcat ").concat(image).concat(" | dd of=").concat(device).concat(
        " bs=512 seek=",
    ).concat(s.as_str()).concat(" conv=fsync");
    c.arg(line.as_str());
    assert(c@.args =~= xz_image_spec(image@, device@, seek as nat).args);
    c
}

/// The compressed core image inside the Ventoy directory.
pub open spec fn core_image_path(ventoy_path: Seq<char>) -> Seq<char> {
    ventoy_path + "/INSTALL/boot/core.img.xz"@
}

/// The compressed image of the second partition inside the Ventoy directory.
pub open spec fn ventoy_image_path(ventoy_path: Seq<char>) -> Seq<char> {
    ventoy_path + "/INSTALL/ventoy/ventoy.disk.img.xz"@
}

/// `lsblk` asked for the block devices as JSON.
pub open spec fn lsblk_spec() -> CommandSpec {
    CommandSpec {
        program: "lsblk"@,
        args: seq!["--json"@, "--output"@, "NAME,MODEL,SIZE,HOTPLUG,TYPE"@],
    }
}

/// Builds `lsblk_spec`.
pub fn lsblk_command() -> (c: CommandLine)
    ensures
        c@ == lsblk_spec(),
{
    let mut c = command("lsblk");
    c.arg("--json");
    c.arg("--output");
    c.arg("NAME,MODEL,SIZE,HOTPLUG,TYPE");
    assert(c@.args =~= lsblk_spec().args);
    c
}

} // verus!
