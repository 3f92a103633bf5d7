use mjventoy::auth::AuthTool;
use mjventoy::discovery::BlockDevice;
use mjventoy::executor::PartitionStyle;
use mjventoy::tui::app::{App, AppState};
use mjventoy::tui::input::{
    handle_auth_input, handle_config_input, handle_device_input, handle_key, is_quit_key, key_would_panic, Key,
};
use mjventoy::tui::ui::{config_lines, device_line, disk_summary, is_install_entry, recent_logs, row_border, row_style};

fn dev(name: &str, model: Option<&str>) -> BlockDevice {
    BlockDevice {
        name: name.to_string(),
        model: model.map(|m| m.to_string()),
        size: "14.9G".to_string(),
        hotplug: true,
        device_type: "disk".to_string(),
        children: None,
    }
}

#[test]
fn new_app_starts_safe() {
    let app = App::new();
    assert_eq!(app.state, AppState::AuthSelection);
    assert!(app.secure_boot);
    assert!(!app.use_gpt);
    assert!(app.dry_run);
    assert_eq!(app.reserve_space, 0);
    assert!(app.devices.is_empty() && app.logs.is_empty() && app.auth_tools.is_empty());
}

#[test]
fn auth_selection_moves_within_the_list() {
    let mut app = App::new();
    app.start(vec![AuthTool::Sudo, AuthTool::Doas], None);
    assert!(handle_key(Key::Char('j'), &mut app).is_none());
    assert_eq!(app.selected_auth_idx, 1);
    handle_key(Key::Down, &mut app);
    assert_eq!(app.selected_auth_idx, 1);
    handle_key(Key::Up, &mut app);
    handle_key(Key::Char('k'), &mut app);
    assert_eq!(app.selected_auth_idx, 0);
    handle_key(Key::Enter, &mut app);
    assert_eq!(app.state, AppState::DeviceSelection);
    assert!(app.needs_device_list());
}

#[test]
fn down_on_an_empty_tool_list_is_refused() {
    let app = App::new();
    assert!(key_would_panic(&app, Key::Down));
    assert!(key_would_panic(&app, Key::Char('j')));
    assert!(!key_would_panic(&app, Key::Enter));
}

#[test]
fn root_skips_to_the_device_list() {
    let mut app = App::new();
    app.start(vec![], Some(vec![dev("sdb", None)]));
    assert_eq!(app.state, AppState::DeviceSelection);
    assert_eq!(app.devices.len(), 1);
    assert!(!app.needs_device_list());
}

#[test]
fn device_selection_needs_a_device() {
    let mut app = App::new();
    handle_key(Key::Enter, &mut app);
    handle_key(Key::Enter, &mut app);
    assert_eq!(app.state, AppState::DeviceSelection);
    app.devices = vec![dev("sdb", None), dev("sdc", None)];
    handle_key(Key::Down, &mut app);
    handle_key(Key::Down, &mut app);
    assert_eq!(app.selected_device_idx, 1);
    handle_key(Key::Enter, &mut app);
    assert_eq!(app.state, AppState::Configuration);
}

#[test]
fn configuration_toggles_and_starts_the_installation() {
    let mut app = App::new();
    app.ventoy_path = "/opt/ventoy".to_string();
    app.start(vec![], Some(vec![dev("sdb", None), dev("/dev/nvme0n1", None)]));
    handle_key(Key::Down, &mut app);
    handle_key(Key::Enter, &mut app);
    assert_eq!(app.state, AppState::Configuration);
    handle_key(Key::Enter, &mut app); // secure boot
    assert!(!app.secure_boot);
    handle_key(Key::Down, &mut app);
    handle_key(Key::Enter, &mut app); // gpt
    assert!(app.use_gpt);
    handle_key(Key::Down, &mut app);
    handle_key(Key::Enter, &mut app); // reserve
    handle_key(Key::Enter, &mut app);
    assert_eq!(app.reserve_space, 2048);
    handle_key(Key::Down, &mut app);
    handle_key(Key::Enter, &mut app); // dry run
    assert!(!app.dry_run);
    handle_key(Key::Down, &mut app);
    handle_key(Key::Down, &mut app);
    assert_eq!(app.selected_config_idx, 4);
    let o = handle_key(Key::Enter, &mut app).expect("installation requested");
    assert_eq!(app.state, AppState::Installation);
    assert_eq!(o.device, "/dev/nvme0n1");
    assert_eq!(o.part_style, PartitionStyle::GPT);
    assert!(!o.secure_boot);
    assert_eq!(o.reserve_space_mb, 2048);
    assert_eq!(o.ventoy_path, "/opt/ventoy");
    assert!(!o.dry_run);
    // keys are ignored while installing
    assert!(handle_key(Key::Esc, &mut app).is_none());
    assert_eq!(app.state, AppState::Installation);
}

#[test]
fn lsblk_names_get_the_dev_prefix() {
    let mut app = App::new();
    app.start(vec![], Some(vec![dev("sdb", None)]));
    handle_key(Key::Enter, &mut app);
    for _ in 0..4 {
        handle_key(Key::Down, &mut app);
    }
    let o = handle_key(Key::Enter, &mut app).unwrap();
    assert_eq!(o.device, "/dev/sdb");
    assert_eq!(o.part_style, PartitionStyle::MBR);
    assert!(o.dry_run);
}

#[test]
fn escape_returns_to_the_device_list() {
    let mut app = App::new();
    app.start(vec![], Some(vec![dev("sdb", None)]));
    handle_key(Key::Enter, &mut app);
    handle_key(Key::Esc, &mut app);
    assert_eq!(app.state, AppState::DeviceSelection);
    handle_key(Key::Enter, &mut app);
    handle_key(Key::Backspace, &mut app);
    assert_eq!(app.state, AppState::DeviceSelection);
}

#[test]
fn reserve_overflow_is_refused() {
    let mut app = App::new();
    app.start(vec![], Some(vec![dev("sdb", None)]));
    handle_key(Key::Enter, &mut app);
    app.selected_config_idx = 2;
    app.reserve_space = u64::MAX - 1000;
    assert!(key_would_panic(&app, Key::Enter));
    app.reserve_space = u64::MAX - 1024;
    assert!(!key_would_panic(&app, Key::Enter));
}

#[test]
fn installation_results_are_logged() {
    let mut app = App::new();
    app.state = AppState::Installation;
    app.finish_installation(Ok(()));
    assert_eq!(app.logs, vec!["Installation finished successfully!".to_string()]);
    assert_eq!(app.state, AppState::Installation);
    app.finish_installation(Err("parted failed".to_string()));
    assert_eq!(app.logs[1], "Installation failed: parted failed");
    assert_eq!(app.state, AppState::Configuration);
}

#[test]
fn quit_key() {
    assert!(is_quit_key(Key::Char('q')));
    assert!(!is_quit_key(Key::Char('Q')));
    assert!(!is_quit_key(Key::Esc));
}

#[test]
fn screen_texts() {
    let d = dev("sdb", Some("SanDisk"));
    assert_eq!(device_line(&d), "sdb | SanDisk | 14.9G");
    assert_eq!(device_line(&dev("sdc", None)), "sdc | Unknown | 14.9G");
    assert_eq!(disk_summary(&d), "- sdb (SanDisk): 14.9G");
    assert_eq!(disk_summary(&dev("sdc", None)), "- sdc (Unknown): 14.9G");
    let mut app = App::new();
    assert_eq!(
        config_lines(&app),
        vec![
            " SECURE BOOT: ENABLED",
            " PARTITION STYLE: MBR",
            " RESERVE SPACE: 0 MiB",
            " DRY RUN: [X] (Safe testing)",
            " [ INSTALL VENTOY ] ",
        ]
    );
    app.secure_boot = false;
    app.use_gpt = true;
    app.reserve_space = 1024;
    app.dry_run = false;
    let lines = config_lines(&app);
    assert_eq!(lines[0], " SECURE BOOT: DISABLED");
    assert_eq!(lines[1], " PARTITION STYLE: GPT");
    assert_eq!(lines[2], " RESERVE SPACE: 1024 MiB");
    assert_eq!(lines[3], " DRY RUN: [ ] (Destructive)");
}

#[test]
fn log_view_shows_the_newest_ten_first() {
    let logs: Vec<String> = (0..12).map(|i| format!("line {}", i)).collect();
    let shown = recent_logs(&logs);
    let expected: Vec<String> = logs.iter().rev().take(10).cloned().collect();
    assert_eq!(shown, expected);
    assert_eq!(shown[0], "line 11");
    let few = vec!["a".to_string(), "b".to_string()];
    assert_eq!(recent_logs(&few), vec!["b".to_string(), "a".to_string()]);
    assert!(recent_logs(&Vec::new()).is_empty());
}

#[test]
fn switches_twice_and_down_then_up_restore() {
    let mut app = App::new();
    app.start(vec![AuthTool::Sudo, AuthTool::Doas], Some(vec![dev("sdb", None), dev("sdc", None)]));
    handle_key(Key::Enter, &mut app);
    for idx in [0usize, 1, 3] {
        app.selected_config_idx = idx;
        let before = (app.secure_boot, app.use_gpt, app.dry_run, app.state);
        handle_key(Key::Enter, &mut app);
        assert_ne!((app.secure_boot, app.use_gpt, app.dry_run, app.state), before);
        handle_key(Key::Enter, &mut app);
        assert_eq!((app.secure_boot, app.use_gpt, app.dry_run, app.state), before);
    }
    app.selected_config_idx = 1;
    handle_key(Key::Char('j'), &mut app);
    handle_key(Key::Char('k'), &mut app);
    assert_eq!(app.selected_config_idx, 1);
    handle_key(Key::Esc, &mut app);
    handle_key(Key::Down, &mut app);
    handle_key(Key::Up, &mut app);
    assert_eq!(app.selected_device_idx, 0);
}

#[test]
fn row_styles_follow_the_selection() {
    let theme = mjventoy::theme::SteelboreTheme::industrial();
    assert_eq!(row_style(&theme, 2, 2, false), theme.highlight);
    assert_eq!(row_style(&theme, 4, 4, true), theme.highlight);
    assert_eq!(row_style(&theme, 1, 2, false), theme.text_primary);
    assert_eq!(row_style(&theme, 4, 0, true), theme.text_header);
    assert_eq!(row_border(&theme, true), theme.border_active);
    assert_eq!(row_border(&theme, false), theme.border_inactive);
    assert!(is_install_entry(4));
    assert!(!is_install_entry(3));
}

#[test]
fn screen_handlers_can_be_called_directly() {
    let mut app = App::new();
    app.start(vec![AuthTool::Sudo], None);
    handle_auth_input(Key::Enter, &mut app);
    assert_eq!(app.state, AppState::DeviceSelection);
    handle_device_input(Key::Enter, &mut app);
    assert_eq!(app.state, AppState::DeviceSelection);
    app.devices = vec![dev("sdb", None)];
    handle_device_input(Key::Enter, &mut app);
    assert_eq!(app.state, AppState::Configuration);
    app.selected_config_idx = 3;
    assert!(handle_config_input(Key::Enter, &mut app).is_none());
    assert!(!app.dry_run);
    handle_config_input(Key::Enter, &mut app);
    assert!(app.dry_run);
    app.selected_config_idx = 4;
    assert!(handle_config_input(Key::Enter, &mut app).is_some());
    assert_eq!(app.state, AppState::Installation);
}
