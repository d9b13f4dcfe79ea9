//! The requests of clients about device configurations, and what the
//! daemon answers to each.
//!
//! Reading and writing configuration files is done by the caller, who
//! hands in what the disk gave. A request that names an unknown device is
//! answered with the device-not-found outcome whatever the disk gave.

use crate::button::str_equal;
use crate::codec::{export_text, exported, import_text, imported};
use crate::device::{
    config_view, copy_config, is_brightness, is_refresh, reset_stack, sent_batches,
    set_brightness, shows_layout, stack_reset_to, DeviceConfig, SDCore,
};
use crate::panel::{is_unique_of, RawButtonPanel};
use crate::json::{json_member, json_string, member, string_of};
use crate::lookup::{first_index, known, lemma_first_index, lemma_first_index_is_first};
use crate::packet::{PacketView, SocketPacket};
use vstd::prelude::*;

verus! {

/// Why a configuration could not be read or written.
#[derive(Clone, Copy, Debug, PartialEq, Eq, Structural)]
pub enum ConfigError {
    IoError,
    ParseError,
    DeviceNotFound,
}

/// A configuration under the serial number it is kept for.
pub struct ConfigEntry {
    pub serial: String,
    pub config: DeviceConfig,
}

/// The configuration store: the configurations in memory.
pub struct Config {
    pub loaded_configs: Vec<ConfigEntry>,
}

/// A device that the daemon has added.
pub struct DeviceData {
    pub core: SDCore,
    pub vid: u16,
    pub pid: u16,
    pub serial: String,
}

/// The devices that the daemon has added.
pub struct CoreManager {
    pub devices: Vec<DeviceData>,
}

/// The state that request handlers share.
pub struct DaemonListener {
    pub config: Config,
    pub core_manager: CoreManager,
}

impl Config {
    /// The serial numbers of the configurations, in order.
    pub open spec fn serials(&self) -> Seq<Seq<char>> {
        self.loaded_configs@.map_values(|e: ConfigEntry| e.serial@)
    }

    /// The place of the configuration kept for `serial`.
    pub fn find(&self, serial: &str) -> (r: Option<usize>)
        ensures
            match r {
                Some(i) => i == first_index(self.serials(), serial@) && known(
                    self.serials(),
                    serial@,
                ),
                None => !known(self.serials(), serial@),
            },
    {
        let mut i: usize = 0;
        while i < self.loaded_configs.len()
            invariant
                i <= self.loaded_configs.len(),
                forall|j: int| 0 <= j < i ==> self.serials()[j] != serial@,
            decreases self.loaded_configs.len() - i,
        {
            if str_equal(self.loaded_configs[i].serial.as_str(), serial) {
                proof {
                    lemma_first_index(self.serials(), serial@, i as int);
                }
                return Some(i);
            }
            i = i + 1;
        }
        proof {
            lemma_first_index(self.serials(), serial@, i as int);
        }
        None
    }

    /// The configuration kept for `serial`.
    pub fn get_device_config(&self, serial: &str) -> (r: Option<&DeviceConfig>)
        ensures
            r.is_some() == known(self.serials(), serial@),
            r matches Some(c) ==> *c == self.loaded_configs@[first_index(
                self.serials(),
                serial@,
            )].config,
    {
        match self.find(serial) {
            Some(i) => Some(&self.loaded_configs[i].config),
            None => None,
        }
    }

    /// Keeps `config` for `serial`, in place of the one kept before.
    pub fn set_device_config(&mut self, serial: &str, config: DeviceConfig)
        ensures
            known(final(self).serials(), serial@),
            final(self).loaded_configs@[first_index(final(self).serials(), serial@)].config
                == config,
            known(old(self).serials(), serial@) ==> final(self).serials() == old(self).serials(),
            !known(old(self).serials(), serial@) ==> final(self).serials() == old(
                self,
            ).serials().push(serial@),
            forall|i: int|
                0 <= i < old(self).loaded_configs@.len() && i != first_index(
                    old(self).serials(),
                    serial@,
                ) ==> final(self).loaded_configs@[i] == old(self).loaded_configs@[i],
    {
        let entry = ConfigEntry { serial: serial.to_owned(), config };
        proof {
            lemma_first_index_is_first(old(self).serials(), serial@);
        }
        match self.find(serial) {
            Some(i) => {
                self.loaded_configs.set(i, entry);
                assert(self.serials() =~= old(self).serials());
            },
            None => {
                let ghost n = self.loaded_configs@.len() as int;
                self.loaded_configs.push(entry);
                assert(self.serials() =~= old(self).serials().push(serial@));
                proof {
                    assert forall|j: int| 0 <= j < n implies self.serials()[j] != serial@ by {
                        assert(old(self).serials()[j] != serial@);
                    }
                    lemma_first_index(self.serials(), serial@, n);
                }
            },
        }
    }
}

impl CoreManager {
    /// The serial numbers of the devices, in order.
    pub open spec fn serials(&self) -> Seq<Seq<char>> {
        self.devices@.map_values(|d: DeviceData| d.serial@)
    }

    /// The place of the device with the serial number `serial`.
    pub fn get_device(&self, serial: &str) -> (r: Option<usize>)
        ensures
            match r {
                Some(i) => i == first_index(self.serials(), serial@) && known(
                    self.serials(),
                    serial@,
                ),
                None => !known(self.serials(), serial@),
            },
    {
        let mut i: usize = 0;
        while i < self.devices.len()
            invariant
                i <= self.devices.len(),
                forall|j: int| 0 <= j < i ==> self.serials()[j] != serial@,
            decreases self.devices.len() - i,
        {
            if str_equal(self.devices[i].serial.as_str(), serial) {
                proof {
                    lemma_first_index(self.serials(), serial@, i as int);
                }
                return Some(i);
            }
            i = i + 1;
        }
        proof {
            lemma_first_index(self.serials(), serial@, i as int);
        }
        None
    }
}

/// What the disk gave when a configuration was written.
#[derive(Clone, Copy, Debug, PartialEq, Eq, Structural)]
pub enum DiskOutcome {
    Done,
    IoError,
    ParseError,
}

/// The serial number that a request for `name` names: the packet must be
/// of that name and carry data with a string member `serial_number`.
pub open spec fn request_serial(p: PacketView, name: Seq<char>) -> Option<Seq<char>> {
    request_text(p, name, "serial_number"@)
}

/// The string member `field` of the data of a request for `name`.
pub open spec fn request_text(p: PacketView, name: Seq<char>, field: Seq<char>) -> Option<
    Seq<char>,
> {
    if p.ty != name {
        None
    } else {
        match p.data {
            None => None,
            Some(v) => match json_member(v, field) {
                None => None,
                Some(m) => json_string(m),
            },
        }
    }
}

/// Reads the string member `field` out of a request for `name`.
pub fn text_of_request(packet: &SocketPacket, name: &str, field: &str) -> (r: Option<String>)
    ensures
        match r {
            Some(s) => request_text(packet@, name@, field@) == Some(s@),
            None => request_text(packet@, name@, field@).is_none(),
        },
{
    if !str_equal(packet.ty.as_str(), name) {
        return None;
    }
    match &packet.data {
        None => None,
        Some(v) => match member(v, field) {
            None => None,
            Some(m) => string_of(m),
        },
    }
}

/// Whether a packet is a request for `name`.
pub fn check_packet_for_data(packet: &SocketPacket, name: &str) -> (r: bool)
    ensures
        r == (packet@.ty == name@),
{
    str_equal(packet.ty.as_str(), name)
}

/// How an import leaves the core of its device: the layout is shown anew
/// as the only frame, in fresh cells above the ones kept; the brightness is
/// taken into the configuration; a bound worker was sent a redraw and then
/// the brightness.
pub open spec fn imported_into(
    before: &SDCore,
    after: &SDCore,
    layout: &RawButtonPanel,
    brightness: u8,
) -> bool {
    let s0 = sent_batches(before);
    let s1 = sent_batches(after);
    &&& after.wf()
    &&& shows_layout(after, layout)
    &&& after.buttons.panels@.drop_last() == before.buttons.panels@
    &&& is_unique_of(layout, before.buttons@, after.buttons@, &after.buttons.panels@.last())
    &&& after.handles.is_some() == before.handles.is_some()
    &&& before.handles.is_some() ==> {
        &&& s1.len() == s0.len() + 2
        &&& s1.take(s0.len() as int) == s0
        &&& is_refresh(s1[s0.len() as int])
        &&& is_brightness(s1[s0.len() as int + 1], brightness)
    }
    &&& after.device_config.brightness == brightness
    &&& after.device_config.vid == before.device_config.vid
    &&& after.device_config.pid == before.device_config.pid
    &&& after.device_config.serial == before.device_config.serial
    &&& after.device_config.layout == before.device_config.layout
    &&& after.device_config.plugin_data == before.device_config.plugin_data
    &&& after.should_close == before.should_close
    &&& after.serial_number == before.serial_number
    &&& after.socket_events == before.socket_events
    &&& after.image_size == before.image_size
    &&& after.kind == before.kind
    &&& after.key_count == before.key_count
    &&& after.pool_rate == before.pool_rate
}

/// How a reload leaves a device: an open device with a configuration
/// shows the layout of that configuration anew, in fresh cells, and its
/// worker is asked to redraw; any other device is untouched.
pub open spec fn device_reloaded(before: DeviceData, after: DeviceData, config: &Config) -> bool {
    &&& after.serial == before.serial
    &&& after.vid == before.vid
    &&& after.pid == before.pid
    &&& after.core.should_close == before.core.should_close
    &&& before.core.wf() ==> after.core.wf()
    &&& if !before.core.should_close && known(config.serials(), before.serial@) {
        stack_reset_to(
            &before.core,
            &after.core,
            &config.loaded_configs@[first_index(config.serials(), before.serial@)].config.layout,
        )
    } else {
        after.core == before.core
    }
}

/// Shows the device at `i` the layout that `config` keeps for it, where it
/// is open and has one.
pub fn reload_device(devices: &mut Vec<DeviceData>, i: usize, config: &Config)
    requires
        i < old(devices)@.len(),
    ensures
        final(devices)@.len() == old(devices)@.len(),
        device_reloaded(old(devices)@[i as int], final(devices)@[i as int], config),
        forall|j: int|
            0 <= j < old(devices)@.len() && j != i ==> final(devices)@[j] == old(devices)@[j],
{
    let mut device = devices.remove(i);
    if !device.core.is_closed() {
        match config.get_device_config(device.serial.as_str()) {
            Some(c) => {
                reset_stack(&mut device.core, &c.layout);
            },
            None => {},
        }
    }
    devices.insert(i, device);
}

/// Request to reload every device configuration, and its outcomes.
#[derive(Clone, Copy, Debug, PartialEq, Eq, Structural)]
pub enum ReloadDeviceConfigsResult {
    /// The configurations could not be read.
    ConfigError,
    /// Every configuration was reloaded.
    Reloaded,
}

impl ReloadDeviceConfigsResult {
    /// The name of the request.
    pub fn name() -> (n: &'static str)
        ensures
            n@ == "reload_device_configs"@,
    {
        "reload_device_configs"
    }

    /// Handles the request. `reloaded` is what reading the configurations
    /// gave. Read configurations replace the ones in memory, and every open
    /// device with a configuration shows its layout anew.
    pub fn process(
        listener: &mut DaemonListener,
        packet: &SocketPacket,
        reloaded: Result<Vec<ConfigEntry>, ConfigError>,
    ) -> (r: Option<ReloadDeviceConfigsResult>)
        ensures
            r.is_some() == (packet@.ty == "reload_device_configs"@),
            r.is_some() ==> (r == Some(ReloadDeviceConfigsResult::Reloaded)) == reloaded.is_ok(),
            r.is_some() ==> (r == Some(ReloadDeviceConfigsResult::ConfigError))
                == reloaded.is_err(),
            r != Some(ReloadDeviceConfigsResult::Reloaded) ==> *final(listener) == *old(listener),
            r == Some(ReloadDeviceConfigsResult::Reloaded) ==> {
                &&& final(listener).config.loaded_configs == reloaded.unwrap()
                &&& final(listener).core_manager.devices@.len() == old(
                    listener,
                ).core_manager.devices@.len()
                &&& forall|i: int|
                    0 <= i < old(listener).core_manager.devices@.len() ==> device_reloaded(
                        old(listener).core_manager.devices@[i],
                        #[trigger] final(listener).core_manager.devices@[i],
                        &final(listener).config,
                    )
            },
    {
        if !check_packet_for_data(packet, Self::name()) {
            return None;
        }
        match reloaded {
            Err(_) => Some(ReloadDeviceConfigsResult::ConfigError),
            Ok(configs) => {
                listener.config.loaded_configs = configs;
                let mut i: usize = 0;
                while i < listener.core_manager.devices.len()
                    invariant
                        i <= listener.core_manager.devices@.len(),
                        listener.config.loaded_configs == configs,
                        listener.core_manager.devices@.len() == old(
                            listener,
                        ).core_manager.devices@.len(),
                        forall|j: int|
                            0 <= j < i ==> device_reloaded(
                                old(listener).core_manager.devices@[j],
                                #[trigger] listener.core_manager.devices@[j],
                                &listener.config,
                            ),
                        forall|j: int|
                            i <= j < listener.core_manager.devices@.len()
                                ==> listener.core_manager.devices@[j] == old(
                                listener,
                            ).core_manager.devices@[j],
                    decreases listener.core_manager.devices@.len() - i,
                {
                    reload_device(&mut listener.core_manager.devices, i, &listener.config);
                    i = i + 1;
                }
                Some(ReloadDeviceConfigsResult::Reloaded)
            },
        }
    }
}

/// Request to reload the configuration of one device.
pub struct ReloadDeviceConfig {
    pub serial_number: String,
}

/// The outcomes of `ReloadDeviceConfig`.
#[derive(Clone, Copy, Debug, PartialEq, Eq, Structural)]
pub enum ReloadDeviceConfigResult {
    /// The configuration could not be read.
    ConfigError,
    /// No configuration is kept for the device.
    DeviceNotFound,
    /// The configuration was reloaded.
    Reloaded,
}

/// The outcome of reloading for `serial`, from what the disk gave.
pub open spec fn reload_outcome(
    serials: Seq<Seq<char>>,
    serial: Seq<char>,
    reloaded: Result<DeviceConfig, ConfigError>,
) -> ReloadDeviceConfigResult {
    if !known(serials, serial) {
        ReloadDeviceConfigResult::DeviceNotFound
    } else {
        match reloaded {
            Ok(_) => ReloadDeviceConfigResult::Reloaded,
            Err(ConfigError::DeviceNotFound) => ReloadDeviceConfigResult::DeviceNotFound,
            Err(_) => ReloadDeviceConfigResult::ConfigError,
        }
    }
}

impl ReloadDeviceConfig {
    /// The name of the request.
    pub fn name() -> (n: &'static str)
        ensures
            n@ == "reload_device_config"@,
    {
        "reload_device_config"
    }

    /// Reads the request out of a packet; `None` for a packet of another
    /// name or without a serial number.
    pub fn from_packet(packet: &SocketPacket) -> (r: Option<ReloadDeviceConfig>)
        ensures
            match r {
                Some(q) => request_serial(packet@, "reload_device_config"@) == Some(
                    q.serial_number@,
                ),
                None => request_serial(packet@, "reload_device_config"@).is_none(),
            },
    {
        match text_of_request(packet, Self::name(), "serial_number") {
            Some(serial_number) => Some(ReloadDeviceConfig { serial_number }),
            None => None,
        }
    }

    /// Handles the request. `reloaded` is what reading the configuration
    /// gave; it counts only where the device is known. A read configuration
    /// replaces the one in memory, and the device, where it is added and
    /// open, shows its layout anew.
    pub fn process(
        &self,
        listener: &mut DaemonListener,
        reloaded: Result<DeviceConfig, ConfigError>,
    ) -> (r: ReloadDeviceConfigResult)
        ensures
            r == reload_outcome(old(listener).config.serials(), self.serial_number@, reloaded),
            r != ReloadDeviceConfigResult::Reloaded ==> *final(listener) == *old(listener),
            r == ReloadDeviceConfigResult::Reloaded ==> {
                &&& final(listener).config.serials() == old(listener).config.serials()
                &&& final(listener).config.loaded_configs@[first_index(
                    old(listener).config.serials(),
                    self.serial_number@,
                )].config == reloaded.unwrap()
                &&& final(listener).core_manager.devices@.len() == old(
                    listener,
                ).core_manager.devices@.len()
                &&& forall|i: int|
                    0 <= i < old(listener).core_manager.devices@.len() ==> if i == first_index(
                        old(listener).core_manager.serials(),
                        self.serial_number@,
                    ) {
                        device_reloaded(
                            old(listener).core_manager.devices@[i],
                            final(listener).core_manager.devices@[i],
                            &final(listener).config,
                        )
                    } else {
                        #[trigger] final(listener).core_manager.devices@[i] == old(
                            listener,
                        ).core_manager.devices@[i]
                    }
            },
    {
        if listener.config.find(self.serial_number.as_str()).is_none() {
            return ReloadDeviceConfigResult::DeviceNotFound;
        }
        match reloaded {
            Err(ConfigError::DeviceNotFound) => ReloadDeviceConfigResult::DeviceNotFound,
            Err(_) => ReloadDeviceConfigResult::ConfigError,
            Ok(config) => {
                listener.config.set_device_config(self.serial_number.as_str(), config);
                match listener.core_manager.get_device(self.serial_number.as_str()) {
                    Some(i) => {
                        reload_device(&mut listener.core_manager.devices, i, &listener.config);
                    },
                    None => {},
                }
                ReloadDeviceConfigResult::Reloaded
            },
        }
    }
}

/// Request to save every device configuration, and its outcomes.
#[derive(Clone, Copy, Debug, PartialEq, Eq, Structural)]
pub enum SaveDeviceConfigsResult {
    /// The configurations could not be written.
    ConfigError,
    /// Every configuration was saved.
    Saved,
}

impl SaveDeviceConfigsResult {
    /// The name of the request.
    pub fn name() -> (n: &'static str)
        ensures
            n@ == "save_device_configs"@,
    {
        "save_device_configs"
    }

    /// Handles the request. `saved` is what writing the configurations
    /// gave.
    pub fn process(packet: &SocketPacket, saved: DiskOutcome) -> (r: Option<
        SaveDeviceConfigsResult,
    >)
        ensures
            r == (if packet@.ty != "save_device_configs"@ {
                None
            } else if saved == DiskOutcome::Done {
                Some(SaveDeviceConfigsResult::Saved)
            } else {
                Some(SaveDeviceConfigsResult::ConfigError)
            }),
    {
        if !check_packet_for_data(packet, Self::name()) {
            return None;
        }
        match saved {
            DiskOutcome::Done => Some(SaveDeviceConfigsResult::Saved),
            _ => Some(SaveDeviceConfigsResult::ConfigError),
        }
    }
}

/// Request to save the configuration of one device.
pub struct SaveDeviceConfig {
    pub serial_number: String,
}

/// The outcomes of `SaveDeviceConfig`.
#[derive(Clone, Copy, Debug, PartialEq, Eq, Structural)]
pub enum SaveDeviceConfigResult {
    /// The configuration could not be written.
    ConfigError,
    /// No configuration is kept for the device.
    DeviceNotFound,
    /// The configuration was saved.
    Saved,
}

/// The outcome of saving for `serial`, from what the disk gave.
pub open spec fn save_outcome(serials: Seq<Seq<char>>, serial: Seq<char>, saved: DiskOutcome)
    -> SaveDeviceConfigResult {
    if !known(serials, serial) {
        SaveDeviceConfigResult::DeviceNotFound
    } else if saved == DiskOutcome::Done {
        SaveDeviceConfigResult::Saved
    } else {
        SaveDeviceConfigResult::ConfigError
    }
}

impl SaveDeviceConfig {
    /// The name of the request.
    pub fn name() -> (n: &'static str)
        ensures
            n@ == "save_device_config"@,
    {
        "save_device_config"
    }

    /// Reads the request out of a packet; `None` for a packet of another
    /// name or without a serial number.
    pub fn from_packet(packet: &SocketPacket) -> (r: Option<SaveDeviceConfig>)
        ensures
            match r {
                Some(q) => request_serial(packet@, "save_device_config"@) == Some(q.serial_number@),
                None => request_serial(packet@, "save_device_config"@).is_none(),
            },
    {
        match text_of_request(packet, Self::name(), "serial_number") {
            Some(serial_number) => Some(SaveDeviceConfig { serial_number }),
            None => None,
        }
    }

    /// Handles the request. `saved` is what writing the configuration gave;
    /// it counts only where the device is known.
    pub fn process(&self, listener: &DaemonListener, saved: DiskOutcome) -> (r:
        SaveDeviceConfigResult)
        ensures
            r == save_outcome(listener.config.serials(), self.serial_number@, saved),
    {
        if listener.config.find(self.serial_number.as_str()).is_none() {
            return SaveDeviceConfigResult::DeviceNotFound;
        }
        match saved {
            DiskOutcome::Done => SaveDeviceConfigResult::Saved,
            _ => SaveDeviceConfigResult::ConfigError,
        }
    }
}

/// Request for the configuration of one device.
pub struct GetDeviceConfig {
    pub serial_number: String,
}

/// The outcomes of `GetDeviceConfig`.
pub enum GetDeviceConfigResult {
    /// No configuration is kept for the device.
    DeviceNotFound,
    /// The configuration.
    Config(DeviceConfig),
}

impl GetDeviceConfig {
    /// The name of the request.
    pub fn name() -> (n: &'static str)
        ensures
            n@ == "get_device_config"@,
    {
        "get_device_config"
    }

    /// Reads the request out of a packet; `None` for a packet of another
    /// name or without a serial number.
    pub fn from_packet(packet: &SocketPacket) -> (r: Option<GetDeviceConfig>)
        ensures
            match r {
                Some(q) => request_serial(packet@, "get_device_config"@) == Some(q.serial_number@),
                None => request_serial(packet@, "get_device_config"@).is_none(),
            },
    {
        match text_of_request(packet, Self::name(), "serial_number") {
            Some(serial_number) => Some(GetDeviceConfig { serial_number }),
            None => None,
        }
    }

    /// Handles the request: a copy of the configuration kept for the
    /// device.
    pub fn process(&self, listener: &DaemonListener) -> (r: GetDeviceConfigResult)
        ensures
            (r is DeviceNotFound) == !known(listener.config.serials(), self.serial_number@),
            r matches GetDeviceConfigResult::Config(c) ==> config_view(&c) == config_view(
                &listener.config.loaded_configs@[first_index(
                    listener.config.serials(),
                    self.serial_number@,
                )].config,
            ),
    {
        match listener.config.get_device_config(self.serial_number.as_str()) {
            Some(c) => GetDeviceConfigResult::Config(copy_config(c)),
            None => GetDeviceConfigResult::DeviceNotFound,
        }
    }
}

/// Request for the transfer form of the configuration of one device.
pub struct ExportDeviceConfig {
    pub serial_number: String,
}

/// The outcomes of `ExportDeviceConfig`.
pub enum ExportDeviceConfigResult {
    /// No configuration is kept for the device.
    DeviceNotFound,
    /// The configuration could not be compressed.
    FailedToCompress,
    /// The transfer form.
    Exported(String),
}

/// The value of an export outcome.
pub ghost enum ExportView {
    DeviceNotFound,
    FailedToCompress,
    Exported(Seq<char>),
}

impl View for ExportDeviceConfigResult {
    type V = ExportView;

    open spec fn view(&self) -> ExportView {
        match self {
            ExportDeviceConfigResult::DeviceNotFound => ExportView::DeviceNotFound,
            ExportDeviceConfigResult::FailedToCompress => ExportView::FailedToCompress,
            ExportDeviceConfigResult::Exported(s) => ExportView::Exported(s@),
        }
    }
}

/// The outcome of exporting for `serial`, where `text` is the serialized
/// configuration.
pub open spec fn export_outcome(serials: Seq<Seq<char>>, serial: Seq<char>, text: Seq<char>)
    -> ExportView {
    if !known(serials, serial) {
        ExportView::DeviceNotFound
    } else {
        match exported(text) {
            Some(form) => ExportView::Exported(form),
            None => ExportView::FailedToCompress,
        }
    }
}

impl ExportDeviceConfig {
    /// The name of the request.
    pub fn name() -> (n: &'static str)
        ensures
            n@ == "export_device_config"@,
    {
        "export_device_config"
    }

    /// Reads the request out of a packet; `None` for a packet of another
    /// name or without a serial number.
    pub fn from_packet(packet: &SocketPacket) -> (r: Option<ExportDeviceConfig>)
        ensures
            match r {
                Some(q) => request_serial(packet@, "export_device_config"@) == Some(
                    q.serial_number@,
                ),
                None => request_serial(packet@, "export_device_config"@).is_none(),
            },
    {
        match text_of_request(packet, Self::name(), "serial_number") {
            Some(serial_number) => Some(ExportDeviceConfig { serial_number }),
            None => None,
        }
    }

    /// Handles the request. `serialized` is the configuration of the device
    /// as text; it counts only where the device is known.
    pub fn process(&self, listener: &DaemonListener, serialized: &str) -> (r:
        ExportDeviceConfigResult)
        ensures
            r@ == export_outcome(listener.config.serials(), self.serial_number@, serialized@),
    {
        if listener.config.find(self.serial_number.as_str()).is_none() {
            return ExportDeviceConfigResult::DeviceNotFound;
        }
        match export_text(serialized) {
            Some(form) => ExportDeviceConfigResult::Exported(form),
            None => ExportDeviceConfigResult::FailedToCompress,
        }
    }
}

/// Request to take over a configuration in transfer form for one device.
pub struct ImportDeviceConfig {
    pub serial_number: String,
    pub config: String,
}

/// The outcomes of `ImportDeviceConfig`.
#[derive(Clone, Copy, Debug, PartialEq, Eq, Structural)]
pub enum ImportDeviceConfigResult {
    /// The device is not added.
    DeviceNotFound,
    /// The transfer form holds no configuration.
    InvalidConfig,
    /// The configuration could not be written.
    FailedToSave,
    /// The configuration was taken over.
    Imported,
}

/// The outcome of importing for `serial`: a device that is not added gives
/// device-not-found, whatever else holds; then `valid` says whether the
/// transfer form held a configuration, and `saved` what writing it gave.
pub open spec fn import_outcome(
    devices: Seq<Seq<char>>,
    serial: Seq<char>,
    valid: bool,
    saved: DiskOutcome,
) -> ImportDeviceConfigResult {
    if !known(devices, serial) {
        ImportDeviceConfigResult::DeviceNotFound
    } else if !valid {
        ImportDeviceConfigResult::InvalidConfig
    } else if saved == DiskOutcome::Done {
        ImportDeviceConfigResult::Imported
    } else {
        ImportDeviceConfigResult::FailedToSave
    }
}

impl ImportDeviceConfig {
    /// The name of the request.
    pub fn name() -> (n: &'static str)
        ensures
            n@ == "import_device_config"@,
    {
        "import_device_config"
    }

    /// Reads the request out of a packet; `None` for a packet of another
    /// name, without a serial number or without a transfer form.
    pub fn from_packet(packet: &SocketPacket) -> (r: Option<ImportDeviceConfig>)
        ensures
            r.is_some() == (request_serial(packet@, "import_device_config"@).is_some()
                && request_text(packet@, "import_device_config"@, "config"@).is_some()),
            r matches Some(q) ==> Some(q.serial_number@) == request_serial(
                packet@,
                "import_device_config"@,
            ) && Some(q.config@) == request_text(packet@, "import_device_config"@, "config"@),
    {
        match text_of_request(packet, Self::name(), "serial_number") {
            Some(serial_number) => match text_of_request(packet, Self::name(), "config") {
                Some(config) => Some(ImportDeviceConfig { serial_number, config }),
                None => None,
            },
            None => None,
        }
    }

    /// The configuration text that the transfer form of the request holds.
    pub fn config_text(&self) -> (r: Option<String>)
        ensures
            match r {
                Some(text) => imported(self.config@) == Some(text@),
                None => imported(self.config@).is_none(),
            },
    {
        import_text(self.config.as_str())
    }

    /// Handles the request. `parsed` is the configuration read from the
    /// transfer form, `None` where it held none; `saved` is what writing it
    /// gave, and counts only where the device is added. The configuration
    /// takes serial number and USB ids from the device and is kept for it;
    /// once saved, the device shows its layout in fresh cells and takes its
    /// brightness, and a bound worker is told both.
    pub fn process(
        &self,
        listener: &mut DaemonListener,
        parsed: Option<DeviceConfig>,
        saved: DiskOutcome,
    ) -> (r: ImportDeviceConfigResult)
        ensures
            r == import_outcome(
                old(listener).core_manager.serials(),
                self.serial_number@,
                parsed.is_some(),
                saved,
            ),
            (r == ImportDeviceConfigResult::InvalidConfig || r
                == ImportDeviceConfigResult::DeviceNotFound) ==> *final(listener) == *old(
                listener,
            ),
            (r == ImportDeviceConfigResult::Imported || r == ImportDeviceConfigResult::FailedToSave)
                ==> {
                let i = first_index(old(listener).core_manager.serials(), self.serial_number@);
                let device = old(listener).core_manager.devices@[i];
                let kept = final(listener).config.loaded_configs@[first_index(
                    final(listener).config.serials(),
                    self.serial_number@,
                )].config;
                &&& known(final(listener).config.serials(), self.serial_number@)
                &&& kept.serial@ == device.serial@
                &&& kept.vid == device.vid
                &&& kept.pid == device.pid
                &&& kept.brightness == parsed.unwrap().brightness
                &&& kept.layout == parsed.unwrap().layout
                &&& kept.plugin_data == parsed.unwrap().plugin_data
            },
            r == ImportDeviceConfigResult::FailedToSave ==> final(listener).core_manager == old(
                listener,
            ).core_manager,
            r == ImportDeviceConfigResult::Imported ==> {
                let i = first_index(old(listener).core_manager.serials(), self.serial_number@);
                let after = final(listener).core_manager.devices@[i];
                &&& final(listener).core_manager.devices@.len() == old(
                    listener,
                ).core_manager.devices@.len()
                &&& imported_into(
                    &old(listener).core_manager.devices@[i].core,
                    &after.core,
                    &parsed.unwrap().layout,
                    parsed.unwrap().brightness,
                )
                &&& after.serial == old(listener).core_manager.devices@[i].serial
                &&& after.vid == old(listener).core_manager.devices@[i].vid
                &&& after.pid == old(listener).core_manager.devices@[i].pid
                &&& forall|j: int|
                    0 <= j < old(listener).core_manager.devices@.len() && j != i ==> final(listener).core_manager.devices@[j] == old(listener).core_manager.devices@[j]
            },
    {
        let i = match listener.core_manager.get_device(self.serial_number.as_str()) {
            None => {
                return ImportDeviceConfigResult::DeviceNotFound;
            },
            Some(i) => i,
        };
        let mut config = match parsed {
            None => {
                return ImportDeviceConfigResult::InvalidConfig;
            },
            Some(c) => c,
        };
        config.serial = listener.core_manager.devices[i].serial.clone();
        config.vid = listener.core_manager.devices[i].vid;
        config.pid = listener.core_manager.devices[i].pid;
        let brightness = config.brightness;
        listener.config.set_device_config(self.serial_number.as_str(), config);
        match saved {
            DiskOutcome::Done => {
                let mut device = listener.core_manager.devices.remove(i);
                let ghost before = device.core;
                match listener.config.get_device_config(self.serial_number.as_str()) {
                    Some(c) => {
                        reset_stack(&mut device.core, &c.layout);
                    },
                    None => {},
                }
                let ghost shown_anew = device.core;
                set_brightness(&mut device.core, brightness);
                proof {
                    let s0 = sent_batches(&before);
                    let s1 = sent_batches(&shown_anew);
                    let s2 = sent_batches(&device.core);
                    if before.handles.is_some() {
                        assert(s1.drop_last() == s0);
                        assert(s2.take(s0.len() as int) =~= s0);
                        assert(s2[s0.len() as int] == s1.last());
                    }
                    assert(imported_into(
                        &before,
                        &device.core,
                        &parsed.unwrap().layout,
                        brightness,
                    ));
                }
                listener.core_manager.devices.insert(i, device);
                ImportDeviceConfigResult::Imported
            },
            _ => ImportDeviceConfigResult::FailedToSave,
        }
    }
}

/// A request that names an unknown device is answered with the
/// device-not-found outcome, whatever the disk gave and whatever the
/// request carries besides.
pub proof fn lemma_unknown_device(
    serials: Seq<Seq<char>>,
    serial: Seq<char>,
    reloaded: Result<DeviceConfig, ConfigError>,
    saved: DiskOutcome,
    text: Seq<char>,
    valid: bool,
)
    requires
        !known(serials, serial),
    ensures
        reload_outcome(serials, serial, reloaded) == ReloadDeviceConfigResult::DeviceNotFound,
        save_outcome(serials, serial, saved) == SaveDeviceConfigResult::DeviceNotFound,
        export_outcome(serials, serial, text) == ExportView::DeviceNotFound,
        import_outcome(serials, serial, valid, saved) == ImportDeviceConfigResult::DeviceNotFound,
{
}

} // verus!
