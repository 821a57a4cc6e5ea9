//! Messages between the PC companion and the device.

use vstd::prelude::*;

use crate::text;

verus! {

/// Protocol version. Bump on breaking changes.
pub const PROTOCOL_VERSION: u16 = 1;

/// Messages sent from the PC companion to the device.
#[derive(Debug, PartialEq)]
pub enum HostToDevice {
    /// Liveness check: the device replies with `Pong`.
    Ping,
    /// Provide the full list of currently active audio apps.
    SetAppList(Vec<AppInfo>),
    /// Push an icon (RGB565) for a specific app.
    SetAppIcon { app_id: u32, pixels: Vec<u8> },
    /// Tell the device which app is currently selected.
    SetSelectedApp(u32),
    /// Set absolute volume for an app (0..=100).
    SetVolume { app_id: u32, level: u8 },
    /// Set mute state for an app.
    SetMute { app_id: u32, muted: bool },
    /// Echo test: the device replies with `Echo` containing the same payload.
    Echo(Vec<u8>),
    /// Set the backlight's brightness and idle timeouts (0 disables one).
    SetBacklight { active_pct: u8, dim_after_secs: u16, off_after_secs: u16 },
    /// Store the network that the device joins.
    SetWifiConfig { ssid: heapless::String<32>, password: heapless::String<64> },
}

/// Messages sent from the device to the PC companion.
#[derive(Debug, PartialEq)]
pub enum DeviceToHost {
    /// Sent once, with the device's protocol version.
    Ready { version: u16 },
    /// Reply to `Ping`.
    Pong,
    /// Reply to `Echo`: the same payload received.
    Echo(Vec<u8>),
    /// Relative encoder movement (CW = positive).
    EncoderDelta(i32),
    /// Touch gesture fired by the user.
    Gesture(GestureKind),
    /// Request the host to adjust the selected app's volume by a relative amount.
    VolumeDelta { app_id: u32, delta: i16 },
    /// Notify the host that the user swiped to a different app.
    AppSelected(u32),
    /// Request the host to toggle mute on the given app.
    MuteToggle { app_id: u32 },
    /// Ack that the device has fully processed a command from the host.
    /// Used by the companion as flow control for large writes (icon pushes).
    Ack,
    /// Report a change of the device's network connection.
    WifiStatus { connected: bool, ip: heapless::String<16> },
}

/// Minimal info about an audio app. Icons are sent separately via `SetAppIcon`.
#[derive(Debug, PartialEq)]
pub struct AppInfo {
    pub id: u32,
    pub name: String,
    pub volume: u8,
    pub muted: bool,
}

impl Clone for AppInfo {
    fn clone(&self) -> (r: Self)
        ensures
            r == *self,
    {
        AppInfo { id: self.id, name: self.name.clone(), volume: self.volume, muted: self.muted }
    }
}

/// Touch gestures as they go over the wire.
#[derive(Debug, Clone, Copy, PartialEq, Eq, Structural)]
pub enum GestureKind {
    SingleTap,
    LongPress,
    SwipeUp,
    SwipeDown,
    SwipeLeft,
    SwipeRight,
}

/// What an [`AppInfo`] says.
pub struct App {
    pub id: u32,
    pub name: Seq<char>,
    pub volume: u8,
    pub muted: bool,
}

impl View for AppInfo {
    type V = App;

    open spec fn view(&self) -> App {
        App { id: self.id, name: self.name@, volume: self.volume, muted: self.muted }
    }
}

/// What a list of [`AppInfo`] says.
pub open spec fn apps_view(apps: Seq<AppInfo>) -> Seq<App> {
    apps.map_values(|a: AppInfo| a@)
}

/// What a [`HostToDevice`] says.
pub enum HostMessage {
    Ping,
    SetAppList(Seq<App>),
    SetAppIcon { app_id: u32, pixels: Seq<u8> },
    SetSelectedApp(u32),
    SetVolume { app_id: u32, level: u8 },
    SetMute { app_id: u32, muted: bool },
    Echo(Seq<u8>),
    SetBacklight { active_pct: u8, dim_after_secs: u16, off_after_secs: u16 },
    SetWifiConfig { ssid: Seq<char>, password: Seq<char> },
}

impl View for HostToDevice {
    type V = HostMessage;

    open spec fn view(&self) -> HostMessage {
        match *self {
            HostToDevice::Ping => HostMessage::Ping,
            HostToDevice::SetAppList(apps) => HostMessage::SetAppList(apps_view(apps@)),
            HostToDevice::SetAppIcon { app_id, pixels } => HostMessage::SetAppIcon {
                app_id,
                pixels: pixels@,
            },
            HostToDevice::SetSelectedApp(id) => HostMessage::SetSelectedApp(id),
            HostToDevice::SetVolume { app_id, level } => HostMessage::SetVolume { app_id, level },
            HostToDevice::SetMute { app_id, muted } => HostMessage::SetMute { app_id, muted },
            HostToDevice::Echo(data) => HostMessage::Echo(data@),
            HostToDevice::SetBacklight { active_pct, dim_after_secs, off_after_secs } =>
                HostMessage::SetBacklight { active_pct, dim_after_secs, off_after_secs },
            HostToDevice::SetWifiConfig { ssid, password } => HostMessage::SetWifiConfig {
                ssid: text::text32(ssid),
                password: text::text64(password),
            },
        }
    }
}

/// What a [`DeviceToHost`] says.
pub enum DeviceMessage {
    Ready { version: u16 },
    Pong,
    Echo(Seq<u8>),
    EncoderDelta(i32),
    Gesture(GestureKind),
    VolumeDelta { app_id: u32, delta: i16 },
    AppSelected(u32),
    MuteToggle { app_id: u32 },
    Ack,
    WifiStatus { connected: bool, ip: Seq<char> },
}

impl View for DeviceToHost {
    type V = DeviceMessage;

    open spec fn view(&self) -> DeviceMessage {
        match *self {
            DeviceToHost::Ready { version } => DeviceMessage::Ready { version },
            DeviceToHost::Pong => DeviceMessage::Pong,
            DeviceToHost::Echo(data) => DeviceMessage::Echo(data@),
            DeviceToHost::EncoderDelta(delta) => DeviceMessage::EncoderDelta(delta),
            DeviceToHost::Gesture(kind) => DeviceMessage::Gesture(kind),
            DeviceToHost::VolumeDelta { app_id, delta } => DeviceMessage::VolumeDelta {
                app_id,
                delta,
            },
            DeviceToHost::AppSelected(id) => DeviceMessage::AppSelected(id),
            DeviceToHost::MuteToggle { app_id } => DeviceMessage::MuteToggle { app_id },
            DeviceToHost::Ack => DeviceMessage::Ack,
            DeviceToHost::WifiStatus { connected, ip } => DeviceMessage::WifiStatus {
                connected,
                ip: text::text16(ip),
            },
        }
    }
}

impl Clone for HostToDevice {
    fn clone(&self) -> (r: Self)
        ensures
            r@ == self@,
    {
        match self {
            HostToDevice::Ping => HostToDevice::Ping,
            HostToDevice::SetAppList(apps) => {
                let copy = clone_apps(apps);
                HostToDevice::SetAppList(copy)
            },
            HostToDevice::SetAppIcon { app_id, pixels } => HostToDevice::SetAppIcon {
                app_id: *app_id,
                pixels: pixels.clone(),
            },
            HostToDevice::SetSelectedApp(id) => HostToDevice::SetSelectedApp(*id),
            HostToDevice::SetVolume { app_id, level } => HostToDevice::SetVolume {
                app_id: *app_id,
                level: *level,
            },
            HostToDevice::SetMute { app_id, muted } => HostToDevice::SetMute {
                app_id: *app_id,
                muted: *muted,
            },
            HostToDevice::Echo(data) => HostToDevice::Echo(data.clone()),
            HostToDevice::SetBacklight { active_pct, dim_after_secs, off_after_secs } =>
                HostToDevice::SetBacklight {
                active_pct: *active_pct,
                dim_after_secs: *dim_after_secs,
                off_after_secs: *off_after_secs,
            },
            HostToDevice::SetWifiConfig { ssid, password } => HostToDevice::SetWifiConfig {
                ssid: ssid.clone(),
                password: password.clone(),
            },
        }
    }
}

impl Clone for DeviceToHost {
    fn clone(&self) -> (r: Self)
        ensures
            r@ == self@,
    {
        match self {
            DeviceToHost::Ready { version } => DeviceToHost::Ready { version: *version },
            DeviceToHost::Pong => DeviceToHost::Pong,
            DeviceToHost::Echo(data) => DeviceToHost::Echo(data.clone()),
            DeviceToHost::EncoderDelta(delta) => DeviceToHost::EncoderDelta(*delta),
            DeviceToHost::Gesture(kind) => DeviceToHost::Gesture(*kind),
            DeviceToHost::VolumeDelta { app_id, delta } => DeviceToHost::VolumeDelta {
                app_id: *app_id,
                delta: *delta,
            },
            DeviceToHost::AppSelected(id) => DeviceToHost::AppSelected(*id),
            DeviceToHost::MuteToggle { app_id } => DeviceToHost::MuteToggle { app_id: *app_id },
            DeviceToHost::Ack => DeviceToHost::Ack,
            DeviceToHost::WifiStatus { connected, ip } => DeviceToHost::WifiStatus {
                connected: *connected,
                ip: ip.clone(),
            },
        }
    }
}

/// A copy of an app list.
pub(crate) fn clone_apps(apps: &Vec<AppInfo>) -> (r: Vec<AppInfo>)
    ensures
        r@ == apps@,
{
    let mut copy: Vec<AppInfo> = Vec::new();
    let mut i: usize = 0;
    while i < apps.len()
        invariant
            i <= apps@.len(),
            copy@ == apps@.take(i as int),
        decreases apps@.len() - i,
    {
        copy.push(apps[i].clone());
        assert(copy@ =~= apps@.take(i + 1));
        i = i + 1;
    }
    assert(copy@ =~= apps@);
    copy
}

/// A list of apps says of each, in order, what it is: its id, name, volume and
/// mute state.
pub proof fn law_apps_say_what_they_are(apps: Seq<AppInfo>, i: int)
    requires
        0 <= i < apps.len(),
    ensures
        apps_view(apps).len() == apps.len(),
        apps_view(apps)[i].id == apps[i].id,
        apps_view(apps)[i].name == apps[i].name@,
        apps_view(apps)[i].volume == apps[i].volume,
        apps_view(apps)[i].muted == apps[i].muted,
{
}

} // verus!
