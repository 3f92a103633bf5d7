use mjventoy::auth::{get_available_tools, is_root, probe_command, AuthTool};
use mjventoy::commands::lsblk_command;
use mjventoy::discovery::{get_disks, BlockDevice, LsblkOutput};
use mjventoy::theme::{Rgb, SteelboreTheme};

fn device(name: &str, kind: &str) -> BlockDevice {
    BlockDevice {
        name: name.to_string(),
        model: None,
        size: "1G".to_string(),
        hotplug: false,
        device_type: kind.to_string(),
        children: None,
    }
}

#[test]
fn tool_names() {
    assert_eq!(AuthTool::Sudo.as_str(), "sudo");
    assert_eq!(AuthTool::Doas.as_str(), "doas");
    assert_eq!(AuthTool::SudoRs.as_str(), "sudo-rs");
}

#[test]
fn root_is_user_zero() {
    assert!(is_root(0));
    assert!(!is_root(1000));
}

#[test]
fn available_tools_keep_their_order() {
    assert_eq!(get_available_tools(true, true, true), vec![AuthTool::Sudo, AuthTool::Doas, AuthTool::SudoRs]);
    assert_eq!(get_available_tools(false, true, false), vec![AuthTool::Doas]);
    assert_eq!(get_available_tools(true, false, true), vec![AuthTool::Sudo, AuthTool::SudoRs]);
    assert!(get_available_tools(false, false, false).is_empty());
}

#[test]
fn probe_commands() {
    let c = probe_command(AuthTool::Doas);
    assert_eq!(c.program, "doas");
    assert_eq!(c.args, vec!["-C", "/bin/sh"]);
    let c = probe_command(AuthTool::SudoRs);
    assert_eq!(c.program, "sudo-rs");
    assert_eq!(c.args, vec!["-v"]);
    let c = lsblk_command();
    assert_eq!(c.program, "lsblk");
    assert_eq!(c.args, vec!["--json", "--output", "NAME,MODEL,SIZE,HOTPLUG,TYPE"]);
}

#[test]
fn only_whole_disks_are_kept_in_order() {
    let out = LsblkOutput {
        blockdevices: vec![
            device("loop0", "loop"),
            device("sda", "disk"),
            device("sr0", "rom"),
            device("sdb", "disk"),
            device("sdb1", "part"),
        ],
    };
    let disks = get_disks(out);
    let names: Vec<&str> = disks.iter().map(|d| d.name.as_str()).collect();
    assert_eq!(names, vec!["sda", "sdb"]);
    assert!(get_disks(LsblkOutput { blockdevices: vec![] }).is_empty());
}

#[test]
fn industrial_theme_colours() {
    let t = SteelboreTheme::industrial();
    let navy = Rgb { r: 14, g: 20, b: 29 };
    let orange = Rgb { r: 254, g: 107, b: 0 };
    assert_eq!(t.background.bg, Some(navy));
    assert_eq!(t.border_active.fg, Some(orange));
    assert!(t.border_active.bold);
    assert_eq!(t.border_inactive.fg, Some(Rgb { r: 20, g: 46, b: 70 }));
    assert_eq!(t.text_primary.fg, Some(Rgb { r: 192, g: 192, b: 192 }));
    assert!(t.text_header.bold);
    assert_eq!(t.highlight.bg, Some(orange));
    assert_eq!(t.highlight.fg, Some(navy));
}

#[test]
fn device_copies_keep_children() {
    let mut parent = device("sdb", "disk");
    parent.model = Some("SanDisk".to_string());
    parent.children = Some(vec![device("sdb1", "part"), device("sdb2", "part")]);
    let copy = parent.clone();
    assert_eq!(copy.name, "sdb");
    assert_eq!(copy.model.as_deref(), Some("SanDisk"));
    assert_eq!(copy.device_type, "disk");
    let kids = copy.children.unwrap();
    assert_eq!(kids.len(), 2);
    assert_eq!(kids[1].name, "sdb2");
    assert_eq!(kids[1].device_type, "part");
    assert!(kids[0].children.is_none());
}
