//! How the keys change the interface.
use vstd::prelude::*;
use crate::executor::{InstallationOptions, OptionsSpec, PartitionStyle};
use crate::text::starts_with_char;
use crate::tui::app::{App, AppState};

verus! {

/// A key press, as far as the interface tells keys apart.
#[derive(Debug, Clone, Copy, PartialEq, Eq, Structural)]
pub enum Key {
    Char(char),
    Up,
    Down,
    Enter,
    Esc,
    Backspace,
    Tab,
    Other,
}

/// `j` or the down arrow.
pub open spec fn is_down(k: Key) -> bool {
    k == Key::Char('j') || k == Key::Down
}

/// `k` or the up arrow.
pub open spec fn is_up(k: Key) -> bool {
    k == Key::Char('k') || k == Key::Up
}

/// `q` ends the program.
pub fn is_quit_key(k: Key) -> (b: bool)
    ensures
        b == (k == Key::Char('q')),
{
    k == Key::Char('q')
}

/// The device node of a device that `lsblk` names `name`.
pub open spec fn full_device(name: Seq<char>) -> Seq<char> {
    if name.len() > 0 && name[0] == '/' {
        name
    } else {
        "/dev/"@ + name
    }
}

/// The installation that the configuration screen starts.
pub open spec fn install_request(app: App) -> OptionsSpec {
    OptionsSpec {
        device: full_device(app.devices@[app.selected_device_idx as int].name@),
        part_style: if app.use_gpt { PartitionStyle::GPT } else { PartitionStyle::MBR },
        secure_boot: app.secure_boot,
        reserve_space_mb: app.reserve_space,
        ventoy_path: app.ventoy_path@,
        dry_run: app.dry_run,
    }
}

/// The request installs on the device at the selection: its node is the name
/// that `lsblk` gives that device, with `/dev/` in front unless the name
/// already starts with `/`; style, switches, reserve and Ventoy directory are
/// those of the configuration screen.
pub open spec fn selected_device_request(app: App, o: OptionsSpec) -> bool {
    let name = app.devices@[app.selected_device_idx as int].name@;
    &&& o.device == (if name.len() > 0 && name[0] == '/' { name } else { "/dev/"@ + name })
    &&& o.device.subrange(o.device.len() - name.len(), o.device.len() as int) == name
    &&& o.part_style == (if app.use_gpt { PartitionStyle::GPT } else { PartitionStyle::MBR })
    &&& o.secure_boot == app.secure_boot
    &&& o.reserve_space_mb == app.reserve_space
    &&& o.ventoy_path == app.ventoy_path@
    &&& o.dry_run == app.dry_run
}

/// The installation that the install button starts is on the selected device.
pub proof fn lemma_install_request_is_the_selection(app: App)
    ensures
        selected_device_request(app, install_request(app)),
{
    let name = app.devices@[app.selected_device_idx as int].name@;
    let dev = install_request(app).device;
    assert(dev.subrange(dev.len() - name.len(), dev.len() as int) =~= name);
}

/// The inputs on which key handling would overflow or index out of bounds:
/// moving down an empty tool list,
/// reserving past `u64::MAX`, installing with no device at the selection.
pub open spec fn key_panics(app: App, key: Key) -> bool {
    match app.state {
        AppState::AuthSelection => is_down(key) && app.auth_tools@.len() == 0,
        AppState::Configuration => key == Key::Enter && ((app.selected_config_idx == 2
            && app.reserve_space + 1024 > u64::MAX) || (app.selected_config_idx == 4
            && app.selected_device_idx >= app.devices@.len())),
        _ => false,
    }
}

/// The interface after `key`.
pub open spec fn key_step(app: App, key: Key) -> App {
    match app.state {
        AppState::AuthSelection => if is_down(key) {
            if app.selected_auth_idx < app.auth_tools@.len() - 1 {
                App { selected_auth_idx: (app.selected_auth_idx + 1) as usize, ..app }
            } else {
                app
            }
        } else if is_up(key) {
            if app.selected_auth_idx > 0 {
                App { selected_auth_idx: (app.selected_auth_idx - 1) as usize, ..app }
            } else {
                app
            }
        } else if key == Key::Enter {
            App { state: AppState::DeviceSelection, ..app }
        } else {
            app
        },
        AppState::DeviceSelection => if is_down(key) {
            if app.devices@.len() > 0 && app.selected_device_idx < app.devices@.len() - 1 {
                App { selected_device_idx: (app.selected_device_idx + 1) as usize, ..app }
            } else {
                app
            }
        } else if is_up(key) {
            if app.selected_device_idx > 0 {
                App { selected_device_idx: (app.selected_device_idx - 1) as usize, ..app }
            } else {
                app
            }
        } else if key == Key::Enter {
            if app.devices@.len() > 0 {
                App { state: AppState::Configuration, ..app }
            } else {
                app
            }
        } else {
            app
        },
        AppState::Configuration => if is_down(key) {
            if app.selected_config_idx < 4 {
                App { selected_config_idx: (app.selected_config_idx + 1) as usize, ..app }
            } else {
                app
            }
        } else if is_up(key) {
            if app.selected_config_idx > 0 {
                App { selected_config_idx: (app.selected_config_idx - 1) as usize, ..app }
            } else {
                app
            }
        } else if key == Key::Enter {
            if app.selected_config_idx == 0 {
                App { secure_boot: !app.secure_boot, ..app }
            } else if app.selected_config_idx == 1 {
                App { use_gpt: !app.use_gpt, ..app }
            } else if app.selected_config_idx == 2 {
                App { reserve_space: (app.reserve_space + 1024) as u64, ..app }
            } else if app.selected_config_idx == 3 {
                App { dry_run: !app.dry_run, ..app }
            } else if app.selected_config_idx == 4 {
                App { state: AppState::Installation, ..app }
            } else {
                app
            }
        } else if key == Key::Esc || key == Key::Backspace {
            App { state: AppState::DeviceSelection, ..app }
        } else {
            app
        },
        AppState::Installation => app,
    }
}

/// Whether `key` starts the installation: Enter on the install button.
pub open spec fn starts_install(app: App, key: Key) -> bool {
    app.state == AppState::Configuration && key == Key::Enter && app.selected_config_idx == 4
}

/// Decides `key_panics`, so that a caller can refuse such a key first.
pub fn key_would_panic(app: &App, key: Key) -> (b: bool)
    ensures
        b == key_panics(*app, key),
{
    match app.state {
        AppState::AuthSelection => (key == Key::Char('j') || key == Key::Down) && app.auth_tools.len()
            == 0,
        AppState::Configuration => key == Key::Enter && ((app.selected_config_idx == 2
            && app.reserve_space > u64::MAX - 1024) || (app.selected_config_idx == 4
            && app.selected_device_idx >= app.devices.len())),
        _ => false,
    }
}

/// Applies `key` to the interface. When it starts the installation, returns
/// the options to install with; running it is the caller's work.
pub fn handle_key(key: Key, app: &mut App) -> (request: Option<InstallationOptions>)
    requires
        !key_panics(*old(app), key),
    ensures
        *final(app) == key_step(*old(app), key),
        request is Some <==> starts_install(*old(app), key),
        request matches Some(o) ==> o@ == install_request(*old(app)),
        request matches Some(o) ==> selected_device_request(*old(app), o@),
        old(app).wf() ==> final(app).wf(),
{
    match app.state {
        AppState::AuthSelection => {
            handle_auth_input(key, app);
            None
        },
        AppState::DeviceSelection => {
            handle_device_input(key, app);
            None
        },
        AppState::Configuration => {
            proof {
                lemma_install_request_is_the_selection(*old(app));
            }
            handle_config_input(key, app)
        },
        AppState::Installation => None,
    }
}

/// Keys on the tool selection: move the selection, or go on to the devices.
pub fn handle_auth_input(key: Key, app: &mut App)
    requires
        old(app).state == AppState::AuthSelection,
        !key_panics(*old(app), key),
    ensures
        *final(app) == key_step(*old(app), key),
        old(app).wf() ==> final(app).wf(),
{
    if key == Key::Char('j') || key == Key::Down {
        if app.selected_auth_idx < app.auth_tools.len() - 1 {
            app.selected_auth_idx = app.selected_auth_idx + 1;
        }
    } else if key == Key::Char('k') || key == Key::Up {
        if app.selected_auth_idx > 0 {
            app.selected_auth_idx = app.selected_auth_idx - 1;
        }
    } else if key == Key::Enter {
        app.state = AppState::DeviceSelection;
    }
}

/// Keys on the device list: move the selection, or go on to the
/// configuration when there is a device.
pub fn handle_device_input(key: Key, app: &mut App)
    requires
        old(app).state == AppState::DeviceSelection,
    ensures
        *final(app) == key_step(*old(app), key),
        old(app).wf() ==> final(app).wf(),
        old(app).devices@.len() > 0 ==> old(app).selected_device_idx < old(app).devices@.len()
            ==> (final(app).devices@.len() > 0 ==> final(app).selected_device_idx
            < final(app).devices@.len()) && (final(app).state == AppState::Configuration
            ==> final(app).selected_device_idx < final(app).devices@.len()),
{
    if key == Key::Char('j') || key == Key::Down {
        if app.devices.len() != 0 && app.selected_device_idx < app.devices.len() - 1 {
            app.selected_device_idx = app.selected_device_idx + 1;
        }
    } else if key == Key::Char('k') || key == Key::Up {
        if app.selected_device_idx > 0 {
            app.selected_device_idx = app.selected_device_idx - 1;
        }
    } else if key == Key::Enter {
        if app.devices.len() != 0 {
            app.state = AppState::Configuration;
        }
    }
}

/// Keys on the configuration screen: move the selection, flip a switch,
/// reserve 1024 MiB more, start the installation, or go back to the devices.
pub fn handle_config_input(key: Key, app: &mut App) -> (request: Option<InstallationOptions>)
    requires
        old(app).state == AppState::Configuration,
        !key_panics(*old(app), key),
    ensures
        *final(app) == key_step(*old(app), key),
        old(app).wf() ==> final(app).wf(),
        request is Some <==> starts_install(*old(app), key),
        request matches Some(o) ==> o@ == install_request(*old(app)),
        request matches Some(o) ==> selected_device_request(*old(app), o@),
{
    if key == Key::Char('j') || key == Key::Down {
        if app.selected_config_idx < 4 {
            app.selected_config_idx = app.selected_config_idx + 1;
        }
        None
    } else if key == Key::Char('k') || key == Key::Up {
        if app.selected_config_idx > 0 {
            app.selected_config_idx = app.selected_config_idx - 1;
        }
        None
    } else if key == Key::Enter {
        if app.selected_config_idx == 0 {
            app.secure_boot = !app.secure_boot;
            None
        } else if app.selected_config_idx == 1 {
            app.use_gpt = !app.use_gpt;
            None
        } else if app.selected_config_idx == 2 {
            app.reserve_space = app.reserve_space + 1024;
            None
        } else if app.selected_config_idx == 3 {
            app.dry_run = !app.dry_run;
            None
        } else if app.selected_config_idx == 4 {
            proof {
                lemma_install_request_is_the_selection(*old(app));
            }
            app.state = AppState::Installation;
            let device_name = app.devices[app.selected_device_idx].name.as_str();
            let full_device = if starts_with_char(device_name, '/') {
                String::from_str(device_name)
            } else {
                String::from_str("/dev/").concat(device_name)
            };
            Some(
                InstallationOptions {
                    device: full_device,
                    part_style: if app.use_gpt { PartitionStyle::GPT } else { PartitionStyle::MBR },
                    secure_boot: app.secure_boot,
                    reserve_space_mb: app.reserve_space,
                    ventoy_path: app.ventoy_path.clone(),
                    dry_run: app.dry_run,
                },
            )
        } else {
            None
        }
    } else if key == Key::Esc || key == Key::Backspace {
        app.state = AppState::DeviceSelection;
        None
    } else {
        None
    }
}

/// Enter on a switch of the configuration screen (secure boot, partition
/// style, dry run) twice leaves the interface as it was.
pub proof fn lemma_switch_twice_restores(app: App)
    requires
        app.state == AppState::Configuration,
        app.selected_config_idx == 0 || app.selected_config_idx == 1 || app.selected_config_idx == 3,
    ensures
        key_step(key_step(app, Key::Enter), Key::Enter) == app,
{
}

/// Moving down then up, where down moves, comes back to the same entry, on
/// every screen with a list.
pub proof fn lemma_down_then_up_restores(app: App, down: Key, up: Key)
    requires
        is_down(down),
        is_up(up),
        app.state != AppState::Installation,
        app.auth_tools@.len() <= usize::MAX,
        app.devices@.len() <= usize::MAX,
        key_step(app, down) != app,
    ensures
        key_step(key_step(app, down), up) == app,
{
    assert(!is_down(up));
    assert(!is_up(down));
    let mid = key_step(app, down);
    match app.state {
        AppState::AuthSelection => {
            assert(mid.selected_auth_idx == app.selected_auth_idx + 1);
        },
        AppState::DeviceSelection => {
            assert(mid.selected_device_idx == app.selected_device_idx + 1);
        },
        AppState::Configuration => {
            assert(mid.selected_config_idx == app.selected_config_idx + 1);
        },
        AppState::Installation => {},
    }
}

/// The screens follow one another in one order: the tool selection leads to
/// the devices (Enter), the devices to the configuration (Enter, with a
/// device), the configuration back to the devices (Esc or Backspace) or on to
/// the installation (Enter on the install button); any other key keeps the
/// screen. The installation screen is never left, and the tool selection is
/// never come back to.
pub proof fn lemma_screen_transitions(app: App, key: Key)
    ensures
        ({
            let before = app.state;
            let after = key_step(app, key).state;
            &&& after == before
                || (before == AppState::AuthSelection && after == AppState::DeviceSelection && key
                == Key::Enter)
                || (before == AppState::DeviceSelection && after == AppState::Configuration && key
                == Key::Enter && app.devices@.len() > 0)
                || (before == AppState::Configuration && after == AppState::DeviceSelection && (key
                == Key::Esc || key == Key::Backspace))
                || (before == AppState::Configuration && after == AppState::Installation && key
                == Key::Enter && app.selected_config_idx == 4)
            &&& before == AppState::Installation ==> after == AppState::Installation
            &&& after == AppState::AuthSelection ==> before == AppState::AuthSelection
        }),
{
}

} // verus!
