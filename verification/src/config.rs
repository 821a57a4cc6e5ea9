//! Settings of the companion.

use vstd::prelude::*;

verus! {

/// Espressif USB-Serial-JTAG vendor id.
pub const ESPRESSIF_VID: u16 = 0x303A;

/// Product id of the ESP32-S3's built-in interface.
pub const ESP32S3_JTAG_PID: u16 = 0x1001;

#[derive(Debug, PartialEq)]
pub struct Config {
    /// COM port override. Empty string = auto-detect by USB VID/PID.
    pub port: String,
    /// Volume change per encoder click, in percent (1-10).
    pub sensitivity_pct: u8,
    /// Register this executable for Windows auto-start on login.
    pub autostart: bool,
    /// Active backlight brightness (1-100).
    pub backlight_pct: u8,
    /// Idle seconds before the backlight dims. 0 disables.
    pub backlight_dim_after_secs: u16,
    /// Additional idle seconds (after dimming) before the backlight switches
    /// off. 0 disables: the screen stays at the dim level forever.
    pub backlight_off_after_secs: u16,
}

/// What a [`Config`] says.
pub struct Settings {
    pub port: Seq<char>,
    pub sensitivity_pct: u8,
    pub autostart: bool,
    pub backlight_pct: u8,
    pub dim_after_secs: u16,
    pub off_after_secs: u16,
}

impl View for Config {
    type V = Settings;

    open spec fn view(&self) -> Settings {
        Settings {
            port: self.port@,
            sensitivity_pct: self.sensitivity_pct,
            autostart: self.autostart,
            backlight_pct: self.backlight_pct,
            dim_after_secs: self.backlight_dim_after_secs,
            off_after_secs: self.backlight_off_after_secs,
        }
    }
}

pub fn default_sensitivity() -> (pct: u8)
    ensures
        pct == 2,
{
    2
}

pub fn default_backlight_pct() -> (pct: u8)
    ensures
        pct == 100,
{
    100
}

pub fn default_dim_after_secs() -> (secs: u16)
    ensures
        secs == 30,
{
    30
}

pub fn default_off_after_secs() -> (secs: u16)
    ensures
        secs == 90,
{
    90
}

impl Default for Config {
    fn default() -> (c: Self)
        ensures
            c@ == (Settings {
                port: Seq::empty(),
                sensitivity_pct: 2,
                autostart: false,
                backlight_pct: 100,
                dim_after_secs: 30,
                off_after_secs: 90,
            }),
    {
        let c = Config {
            port: String::new(),
            sensitivity_pct: default_sensitivity(),
            autostart: false,
            backlight_pct: default_backlight_pct(),
            backlight_dim_after_secs: default_dim_after_secs(),
            backlight_off_after_secs: default_off_after_secs(),
        };
        assert(c.port@ =~= Seq::<char>::empty());
        c
    }
}

impl Clone for Config {
    fn clone(&self) -> (c: Self)
        ensures
            c == *self,
    {
        Config {
            port: self.port.clone(),
            sensitivity_pct: self.sensitivity_pct,
            autostart: self.autostart,
            backlight_pct: self.backlight_pct,
            backlight_dim_after_secs: self.backlight_dim_after_secs,
            backlight_off_after_secs: self.backlight_off_after_secs,
        }
    }
}

/// The settings, given what was read from the file: the defaults where there is
/// no file or it makes no sense.
pub fn load(stored: Option<Config>) -> (c: Config)
    ensures
        match stored {
            Some(s) => c == s,
            None => c@ == (Settings {
                port: Seq::empty(),
                sensitivity_pct: 2,
                autostart: false,
                backlight_pct: 100,
                dim_after_secs: 30,
                off_after_secs: 90,
            }),
        },
{
    match stored {
        Some(s) => s,
        None => Config::default(),
    }
}

/// A serial port.
#[derive(Debug, PartialEq)]
pub struct PortInfo {
    pub name: String,
    /// Vendor and product id, where the port is on USB.
    pub usb: Option<(u16, u16)>,
}

/// The port is the device's.
pub open spec fn is_device(port: PortInfo) -> bool {
    port.usb == Some((ESPRESSIF_VID, ESP32S3_JTAG_PID))
}

/// Name of the first port that is the device's.
pub open spec fn device_port(ports: Seq<PortInfo>) -> Option<Seq<char>>
    decreases ports.len(),
{
    if ports.len() == 0 {
        None
    } else if is_device(ports[0]) {
        Some(ports[0].name@)
    } else {
        device_port(ports.skip(1))
    }
}

/// Scan the available serial ports and return the first one with the Espressif
/// USB-Serial-JTAG VID/PID (the ESP32-S3 built-in interface).
pub fn find_device_port(ports: &Vec<PortInfo>) -> (name: Option<String>)
    ensures
        match name {
            Some(n) => device_port(ports@) == Some(n@),
            None => device_port(ports@) is None,
        },
{
    let mut i: usize = 0;
    proof {
        assert(ports@.skip(0) =~= ports@);
    }
    while i < ports.len()
        invariant
            i <= ports@.len(),
            device_port(ports@) == device_port(ports@.skip(i as int)),
        decreases ports@.len() - i,
    {
        assert(ports@.skip(i as int).skip(1) =~= ports@.skip(i + 1));
        if let Some((vid, pid)) = ports[i].usb {
            if vid == ESPRESSIF_VID && pid == ESP32S3_JTAG_PID {
                return Some(ports[i].name.clone());
            }
        }
        i = i + 1;
    }
    None
}

/// A port is found exactly when there is one, and it is the first.
pub proof fn law_first_device_port(ports: Seq<PortInfo>)
    ensures
        device_port(ports) is None <==> forall|i: int|
            0 <= i < ports.len() ==> !is_device(#[trigger] ports[i]),
        forall|i: int|
            0 <= i < ports.len() && is_device(#[trigger] ports[i]) && (forall|j: int|
                0 <= j < i ==> !is_device(#[trigger] ports[j])) ==> device_port(ports) == Some(
                ports[i].name@,
            ),
    decreases ports.len(),
{
    if ports.len() > 0 {
        let rest = ports.skip(1);
        law_first_device_port(rest);
        assert(forall|i: int| 0 <= i < rest.len() ==> rest[i] == ports[i + 1]);
        assert(forall|i: int| 0 < i < ports.len() ==> ports[i] == rest[i - 1]);
        if !is_device(ports[0]) {
            if forall|i: int| 0 <= i < ports.len() ==> !is_device(#[trigger] ports[i]) {
                assert(forall|i: int| 0 <= i < rest.len() ==> !is_device(#[trigger] rest[i]));
            }
            assert forall|i: int|
                0 <= i < ports.len() && is_device(#[trigger] ports[i]) && (forall|j: int|
                    0 <= j < i ==> !is_device(#[trigger] ports[j])) implies device_port(ports)
                == Some(ports[i].name@) by {
                assert(is_device(rest[i - 1]));
                assert forall|j: int| 0 <= j < i - 1 implies !is_device(#[trigger] rest[j]) by {
                    assert(!is_device(ports[j + 1]));
                }
            }
        }
    }
}

/// The port to use: the command line's, or else the configured one, or else the
/// detected one. An empty name is none.
pub open spec fn chosen_port(
    command_line: Option<Seq<char>>,
    configured: Seq<char>,
    detected: Option<Seq<char>>,
) -> Option<Seq<char>> {
    if command_line is Some && command_line->0.len() > 0 {
        command_line
    } else if configured.len() > 0 {
        Some(configured)
    } else {
        detected
    }
}

/// What an optional text says.
pub open spec fn opt_view(s: Option<String>) -> Option<Seq<char>> {
    match s {
        Some(s) => Some(s@),
        None => None,
    }
}

/// Resolve the COM port: CLI argument, then config file, then auto-detection.
pub fn resolve_port(
    command_line: Option<String>,
    configured: &String,
    detected: Option<String>,
) -> (port: Option<String>)
    ensures
        opt_view(port) == chosen_port(opt_view(command_line), configured@, opt_view(detected)),
{
    if let Some(name) = command_line {
        if !name.as_str().is_empty() {
            return Some(name);
        }
    }
    if !configured.as_str().is_empty() {
        return Some(configured.clone());
    }
    detected
}

/// Keep the port in the settings so that the next launch remembers it. True
/// means that the settings have changed and have to be saved.
pub fn remember_port(cfg: &mut Config, port: &String) -> (changed: bool)
    ensures
        final(cfg)@ == (Settings { port: port@, ..old(cfg)@ }),
        changed == (old(cfg)@.port != port@),
{
    if cfg.port == *port {
        false
    } else {
        cfg.port = port.clone();
        true
    }
}

/// What the command line names comes before what the settings name, and that
/// before what was found; an empty name names nothing.
pub proof fn law_port_precedence(
    named: Seq<char>,
    configured: Seq<char>,
    detected: Option<Seq<char>>,
)
    ensures
        named.len() > 0 ==> chosen_port(Some(named), configured, detected) == Some(named),
        configured.len() > 0 ==> chosen_port(None, configured, detected) == Some(configured),
        named.len() == 0 ==> chosen_port(Some(named), configured, detected) == chosen_port(
            None,
            configured,
            detected,
        ),
        configured.len() == 0 ==> chosen_port(None, configured, detected) == detected,
{
}

/// The device is known by both of its numbers on USB.
pub proof fn law_device_numbers(port: PortInfo)
    ensures
        is_device(port) <==> port.usb == Some((0x303Au16, 0x1001u16)),
{
}

} // verus!
