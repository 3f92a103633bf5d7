//! The state of the terminal interface.
use vstd::prelude::*;
use crate::auth::AuthTool;
use crate::discovery::BlockDevice;

verus! {

/// The screen that the interface shows.
#[derive(Debug, Clone, Copy, PartialEq, Eq, Structural)]
pub enum AppState {
    AuthSelection,
    DeviceSelection,
    Configuration,
    Installation,
}

/// What the interface knows and what the user chose.
pub struct App {
    pub state: AppState,
    pub devices: Vec<BlockDevice>,
    pub selected_device_idx: usize,
    pub auth_tools: Vec<AuthTool>,
    pub selected_auth_idx: usize,
    pub selected_config_idx: usize,
    pub secure_boot: bool,
    pub use_gpt: bool,
    pub reserve_space: u64,
    pub ventoy_path: String,
    pub logs: Vec<String>,
    pub dry_run: bool,
}

/// The number of entries of the configuration screen, the install button last.
pub const CONFIG_ENTRIES: usize = 5;

impl App {
    /// The selections point at entries that exist: the tool and the device
    /// selections lie in their lists (or are 0 while a list is empty), the
    /// configuration selection at one of its entries, and on the
    /// configuration and installation screens a device is selected.
    pub open spec fn wf(&self) -> bool {
        &&& self.selected_auth_idx == 0 || self.selected_auth_idx < self.auth_tools@.len()
        &&& self.selected_device_idx == 0 || self.selected_device_idx < self.devices@.len()
        &&& self.selected_config_idx < CONFIG_ENTRIES
        &&& (self.state == AppState::Configuration || self.state == AppState::Installation)
            ==> self.selected_device_idx < self.devices@.len()
    }

    /// The interface at start: the tool selection, nothing found yet, secure
    /// boot on, MBR, nothing reserved, and a dry run.
    pub fn new() -> (app: Self)
        ensures
            app.state == AppState::AuthSelection,
            app.devices@.len() == 0,
            app.selected_device_idx == 0,
            app.auth_tools@.len() == 0,
            app.selected_auth_idx == 0,
            app.selected_config_idx == 0,
            app.secure_boot,
            !app.use_gpt,
            app.reserve_space == 0,
            app.ventoy_path@.len() == 0,
            app.logs@.len() == 0,
            app.dry_run,
            app.wf(),
    {
        App {
            state: AppState::AuthSelection,
            devices: Vec::new(),
            selected_device_idx: 0,
            auth_tools: Vec::new(),
            selected_auth_idx: 0,
            selected_config_idx: 0,
            secure_boot: true,
            use_gpt: false,
            reserve_space: 0,
            ventoy_path: String::new(),
            logs: Vec::new(),
            dry_run: true,
        }
    }

    /// Records the end of an installation: success is logged; a failure is
    /// logged with its message and the configuration screen comes back.
    pub fn finish_installation(&mut self, result: Result<(), String>)
        ensures
            match result {
                Ok(()) => {
                    &&& final(self).logs@.len() == old(self).logs@.len() + 1
                    &&& final(self).logs@.drop_last() == old(self).logs@
                    &&& final(self).logs@.last()@ == "Installation finished successfully!"@
                    &&& final(self).state == old(self).state
                },
                Err(e) => {
                    &&& final(self).logs@.len() == old(self).logs@.len() + 1
                    &&& final(self).logs@.drop_last() == old(self).logs@
                    &&& final(self).logs@.last()@ == "Installation failed: "@ + e@
                    &&& final(self).state == AppState::Configuration
                },
            },
            final(self).devices == old(self).devices,
            final(self).selected_device_idx == old(self).selected_device_idx,
            final(self).auth_tools == old(self).auth_tools,
            final(self).selected_auth_idx == old(self).selected_auth_idx,
            final(self).selected_config_idx == old(self).selected_config_idx,
            final(self).secure_boot == old(self).secure_boot,
            final(self).use_gpt == old(self).use_gpt,
            final(self).reserve_space == old(self).reserve_space,
            final(self).ventoy_path == old(self).ventoy_path,
            final(self).dry_run == old(self).dry_run,
            old(self).wf() && (result is Err ==> old(self).selected_device_idx < old(self).devices@.len())
                ==> final(self).wf(),
    {
        match result {
            Ok(()) => {
                self.logs.push(String::from_str("Installation finished successfully!"));
            },
            Err(e) => {
                self.logs.push(String::from_str("Installation failed: ").concat(e.as_str()));
                self.state = AppState::Configuration;
            },
        }
        assert(self.logs@.drop_last() =~= old(self).logs@);
    }

    /// Whether the device list must be fetched: the device screen is shown
    /// and the list is empty.
    pub fn needs_device_list(&self) -> (b: bool)
        ensures
            b == (self.state == AppState::DeviceSelection && self.devices@.len() == 0),
    {
        self.state == AppState::DeviceSelection && self.devices.len() == 0
    }

    /// Sets up the interface once the tools are known. For root, the disks
    /// found are given: the tool selection is skipped and the device list shown.
    pub fn start(&mut self, auth_tools: Vec<AuthTool>, root_disks: Option<Vec<BlockDevice>>)
        ensures
            final(self).auth_tools == auth_tools,
            match root_disks {
                Some(disks) => final(self).state == AppState::DeviceSelection && final(self).devices
                    == disks,
                None => final(self).state == old(self).state && final(self).devices == old(self).devices,
            },
            final(self).selected_auth_idx == old(self).selected_auth_idx,
            final(self).selected_device_idx == old(self).selected_device_idx,
            final(self).selected_config_idx == old(self).selected_config_idx,
            final(self).logs == old(self).logs,
            final(self).secure_boot == old(self).secure_boot,
            final(self).use_gpt == old(self).use_gpt,
            final(self).reserve_space == old(self).reserve_space,
            final(self).ventoy_path == old(self).ventoy_path,
            final(self).dry_run == old(self).dry_run,
            old(self).wf() && old(self).selected_auth_idx == 0 && old(self).selected_device_idx == 0
                && old(self).state == AppState::AuthSelection ==> final(self).wf(),
    {
        self.auth_tools = auth_tools;
        match root_disks {
            Some(disks) => {
                self.state = AppState::DeviceSelection;
                self.devices = disks;
            },
            None => {},
        }
    }
}

} // verus!
