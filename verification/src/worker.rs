//! The companion's side of the link: what it pushes to the device, how it
//! reacts to what the device sends, and what it does as time goes by.

use std::collections::HashMap;

use vstd::prelude::*;

use crate::audio;
use crate::audio::{AudioSession, SessionModel, Volume, HALF_BITS};
use crate::backlight;
use crate::backlight::{BacklightModel, State, TICKS_PER_SEC};
use crate::device::{DeviceModel, Step};
use crate::messages;
use crate::messages::{App, AppInfo, DeviceMessage, DeviceToHost, HostMessage, HostToDevice};
use crate::text;
use crate::touch::Gesture;

verus! {

/// Bytes that the companion's decoder buffers.
pub const MAX_FRAME_LEN: usize = 16_384;

/// Milliseconds between two heartbeats.
pub const HEARTBEAT_MS: u64 = 2_000;

/// Milliseconds between two looks at the audio sessions.
pub const REFRESH_MS: u64 = 5_000;

/// How long the device has for joining a network.
pub const PROVISION_MS: u64 = 30_000;

/// How long the device has for its first sign of life.
pub const READY_MS: u64 = 3_000;

/// How long the device has for an `Ack`.
pub const ACK_MS: u64 = 5_000;

/// How long what a device may still be sending is drained before it is greeted.
pub const DRAIN_MS: u64 = 100;

/// How long to wait before connecting again.
pub const RETRY_MS: u64 = 3_000;

/// Coarse connection state, for the tray tooltip.
#[derive(Debug, PartialEq)]
pub enum WorkerStatus {
    Connected(String),
    Disconnected,
    Error(String),
}

/// What a [`WorkerStatus`] says.
pub enum StatusModel {
    Connected(Seq<char>),
    Disconnected,
    Error(Seq<char>),
}

impl View for WorkerStatus {
    type V = StatusModel;

    open spec fn view(&self) -> StatusModel {
        match *self {
            WorkerStatus::Connected(p) => StatusModel::Connected(p@),
            WorkerStatus::Disconnected => StatusModel::Disconnected,
            WorkerStatus::Error(e) => StatusModel::Error(e@),
        }
    }
}

/// Commands from the tray to the running worker.
#[derive(Debug, PartialEq)]
pub enum WorkerCommand {
    ProvisionWifi { ssid: heapless::String<32>, password: heapless::String<64> },
}

/// Backlight settings that the tray and the worker share. The tray writes via
/// the setters; the worker pushes a `SetBacklight` to the device whenever
/// `dirty` is set.
#[derive(Debug, Clone, Copy, PartialEq, Eq, Structural)]
pub struct BacklightShared {
    pub pct: u8,
    pub dim_after_secs: u16,
    pub off_after_secs: u16,
    pub dirty: bool,
}

impl BacklightShared {
    /// The message that the settings make.
    pub open spec fn message(self) -> HostMessage {
        HostMessage::SetBacklight {
            active_pct: self.pct,
            dim_after_secs: self.dim_after_secs,
            off_after_secs: self.off_after_secs,
        }
    }

    /// Settings that are pushed once on connect.
    pub fn new(pct: u8, dim_after_secs: u16, off_after_secs: u16) -> (b: Self)
        ensures
            b == (BacklightShared { pct, dim_after_secs, off_after_secs, dirty: true }),
    {
        BacklightShared { pct, dim_after_secs, off_after_secs, dirty: true }
    }

    /// The settings as a message.
    pub fn snapshot(&self) -> (m: HostToDevice)
        ensures
            m@ == self.message(),
    {
        HostToDevice::SetBacklight {
            active_pct: self.pct,
            dim_after_secs: self.dim_after_secs,
            off_after_secs: self.off_after_secs,
        }
    }

    /// The message to push, if the settings have changed since the last push.
    pub fn take(&mut self) -> (m: Option<HostToDevice>)
        ensures
            *final(self) == (BacklightShared { dirty: false, ..*old(self) }),
            match m {
                Some(m) => old(self).dirty && m@ == old(self).message(),
                None => !old(self).dirty,
            },
    {
        if self.dirty {
            self.dirty = false;
            Some(self.snapshot())
        } else {
            None
        }
    }

    pub fn set_pct(&mut self, pct: u8)
        ensures
            *final(self) == (BacklightShared { pct, dirty: true, ..*old(self) }),
    {
        self.pct = pct;
        self.dirty = true;
    }

    pub fn set_dim_after_secs(&mut self, secs: u16)
        ensures
            *final(self) == (BacklightShared { dim_after_secs: secs, dirty: true, ..*old(self) }),
    {
        self.dim_after_secs = secs;
        self.dirty = true;
    }

    pub fn set_off_after_secs(&mut self, secs: u16)
        ensures
            *final(self) == (BacklightShared { off_after_secs: secs, dirty: true, ..*old(self) }),
    {
        self.off_after_secs = secs;
        self.dirty = true;
    }
}

/// An earlier session belongs to the process.
pub open spec fn seen(sessions: Seq<SessionModel>, pid: u32) -> bool {
    exists|i: int| 0 <= i < sessions.len() && (#[trigger] sessions[i]).pid == pid
}

/// The last session is its process's first, and not the system's.
pub open spec fn last_counts(sessions: Seq<SessionModel>) -> bool {
    sessions.last().pid != 0 && !seen(sessions.drop_last(), sessions.last().pid)
}

/// A session as the device lists it.
pub open spec fn app_of(s: SessionModel) -> App {
    App { id: s.pid, name: s.name, volume: s.volume.level, muted: s.muted }
}

/// The apps to list: the first session of every process, in order, without the
/// system's own.
pub open spec fn apps_of(sessions: Seq<SessionModel>) -> Seq<App>
    decreases sessions.len(),
{
    if sessions.len() == 0 {
        Seq::empty()
    } else if last_counts(sessions) {
        apps_of(sessions.drop_last()).push(app_of(sessions.last()))
    } else {
        apps_of(sessions.drop_last())
    }
}

/// Volumes of the apps to list.
pub open spec fn volumes_of(sessions: Seq<SessionModel>) -> Map<u32, Volume>
    decreases sessions.len(),
{
    if sessions.len() == 0 {
        Map::empty()
    } else if last_counts(sessions) {
        volumes_of(sessions.drop_last()).insert(sessions.last().pid, sessions.last().volume)
    } else {
        volumes_of(sessions.drop_last())
    }
}

/// Mute states of the apps to list.
pub open spec fn mutes_of(sessions: Seq<SessionModel>) -> Map<u32, bool>
    decreases sessions.len(),
{
    if sessions.len() == 0 {
        Map::empty()
    } else if last_counts(sessions) {
        mutes_of(sessions.drop_last()).insert(sessions.last().pid, sessions.last().muted)
    } else {
        mutes_of(sessions.drop_last())
    }
}

/// The executables to take icons from: those of the apps to list, as far as
/// they are known.
pub open spec fn icon_sources_of(sessions: Seq<SessionModel>) -> Seq<(u32, Seq<char>)>
    decreases sessions.len(),
{
    if sessions.len() == 0 {
        Seq::empty()
    } else if last_counts(sessions) && sessions.last().path.len() > 0 {
        icon_sources_of(sessions.drop_last()).push((sessions.last().pid, sessions.last().path))
    } else {
        icon_sources_of(sessions.drop_last())
    }
}

/// What a list of icon sources says.
pub open spec fn sources_view(sources: Seq<(u32, String)>) -> Seq<(u32, Seq<char>)> {
    sources.map_values(|s: (u32, String)| (s.0, s.1@))
}

/// What a map of icons says.
pub open spec fn pixels_view(icons: Map<u32, Vec<u8>>) -> Map<u32, Seq<u8>> {
    icons.map_values(|v: Vec<u8>| v@)
}

/// What the companion knows when it connects.
pub struct Prepared {
    pub apps: Vec<AppInfo>,
    pub volumes: HashMap<u32, Volume>,
    pub mutes: HashMap<u32, bool>,
    pub icons: HashMap<u32, Vec<u8>>,
}

impl Clone for Prepared {
    fn clone(&self) -> (p: Self)
        ensures
            p.apps@ == self.apps@,
            p.volumes@ == self.volumes@,
            p.mutes@ == self.mutes@,
            pixels_view(p.icons@) == pixels_view(self.icons@),
    {
        Prepared {
            apps: messages::clone_apps(&self.apps),
            volumes: self.volumes.clone(),
            mutes: self.mutes.clone(),
            icons: self.icons.clone(),
        }
    }
}

proof fn lemma_volumes_dom(sessions: Seq<SessionModel>, pid: u32)
    ensures
        volumes_of(sessions).contains_key(pid) <==> pid != 0 && seen(sessions, pid),
    decreases sessions.len(),
{
    if sessions.len() > 0 {
        let front = sessions.drop_last();
        lemma_volumes_dom(front, pid);
        assert(forall|i: int| 0 <= i < front.len() ==> front[i] == sessions[i]);
        if sessions.last().pid == pid {
            assert(sessions[sessions.len() - 1].pid == pid);
        } else if seen(sessions, pid) {
            let i = choose|i: int| 0 <= i < sessions.len() && (#[trigger] sessions[i]).pid == pid;
            assert(front[i].pid == pid);
        }
        if seen(front, pid) {
            let i = choose|i: int| 0 <= i < front.len() && (#[trigger] front[i]).pid == pid;
            assert(sessions[i].pid == pid);
        }
    }
}

/// Build what is needed to serve the given audio sessions. Icons come
/// separately. Without an app there is nothing to serve.
pub fn prepare(sessions: &Vec<AudioSession>) -> (r: Result<Prepared, WorkerStatus>)
    ensures
        ({
            let all = audio::sessions_view(sessions@);
            match r {
                Ok(p) => {
                    &&& apps_of(all).len() > 0
                    &&& messages::apps_view(p.apps@) == apps_of(all)
                    &&& p.volumes@ == volumes_of(all)
                    &&& p.mutes@ == mutes_of(all)
                    &&& p.icons@ == Map::<u32, Vec<u8>>::empty()
                },
                Err(status) => {
                    &&& apps_of(all).len() == 0
                    &&& status@ == StatusModel::Error("no audio sessions"@)
                },
            }
        }),
{
    broadcast use vstd::std_specs::hash::group_hash_axioms;

    let ghost all = audio::sessions_view(sessions@);
    let mut apps: Vec<AppInfo> = Vec::new();
    let mut volumes: HashMap<u32, Volume> = HashMap::new();
    let mut mutes: HashMap<u32, bool> = HashMap::new();
    assert(messages::apps_view(apps@) =~= Seq::<App>::empty());
    let mut i: usize = 0;
    while i < sessions.len()
        invariant
            i <= sessions@.len(),
            all == audio::sessions_view(sessions@),
            messages::apps_view(apps@) == apps_of(all.take(i as int)),
            volumes@ == volumes_of(all.take(i as int)),
            mutes@ == mutes_of(all.take(i as int)),
        decreases sessions@.len() - i,
    {
        let s = &sessions[i];
        let ghost upto = all.take(i + 1);
        proof {
            assert(upto.drop_last() =~= all.take(i as int));
            assert(upto.last() == s@);
            lemma_volumes_dom(all.take(i as int), s.pid);
        }
        if s.pid != 0 && !volumes.contains_key(&s.pid) {
            let app = AppInfo {
                id: s.pid,
                name: s.process_name.clone(),
                volume: s.volume.level,
                muted: s.muted,
            };
            let ghost listed = apps@;
            apps.push(app);
            assert(messages::apps_view(apps@) =~= messages::apps_view(listed).push(app@));
            volumes.insert(s.pid, s.volume);
            mutes.insert(s.pid, s.muted);
        }
        i = i + 1;
    }
    assert(all.take(i as int) =~= all);
    if apps.len() == 0 {
        return Err(WorkerStatus::Error("no audio sessions".to_owned()));
    }
    Ok(Prepared { apps, volumes, mutes, icons: HashMap::new() })
}

/// The executables to take icons from, with the app that each icon is for.
pub fn icon_sources(sessions: &Vec<AudioSession>) -> (sources: Vec<(u32, String)>)
    ensures
        sources_view(sources@) == icon_sources_of(audio::sessions_view(sessions@)),
{
    broadcast use vstd::std_specs::hash::group_hash_axioms;

    let ghost all = audio::sessions_view(sessions@);
    let mut seen_pids: HashMap<u32, Volume> = HashMap::new();
    let mut sources: Vec<(u32, String)> = Vec::new();
    assert(sources_view(sources@) =~= Seq::<(u32, Seq<char>)>::empty());
    let mut i: usize = 0;
    while i < sessions.len()
        invariant
            i <= sessions@.len(),
            all == audio::sessions_view(sessions@),
            sources_view(sources@) == icon_sources_of(all.take(i as int)),
            seen_pids@ == volumes_of(all.take(i as int)),
        decreases sessions@.len() - i,
    {
        let s = &sessions[i];
        let ghost upto = all.take(i + 1);
        proof {
            assert(upto.drop_last() =~= all.take(i as int));
            assert(upto.last() == s@);
            lemma_volumes_dom(all.take(i as int), s.pid);
        }
        if s.pid != 0 && !seen_pids.contains_key(&s.pid) {
            seen_pids.insert(s.pid, s.volume);
            if !s.exe_path.as_str().is_empty() {
                let ghost listed = sources@;
                let source = (s.pid, s.exe_path.clone());
                sources.push(source);
                assert(sources_view(sources@) =~= sources_view(listed).push(
                    (source.0, source.1@),
                ));
            }
        }
        i = i + 1;
    }
    assert(all.take(i as int) =~= all);
    sources
}

/// Every session whose executable is known, as the device lists it. A process
/// with several sessions is listed several times.
pub open spec fn pushed_apps_of(sessions: Seq<SessionModel>) -> Seq<App>
    decreases sessions.len(),
{
    if sessions.len() == 0 {
        Seq::empty()
    } else if sessions.last().path.len() > 0 {
        pushed_apps_of(sessions.drop_last()).push(app_of(sessions.last()))
    } else {
        pushed_apps_of(sessions.drop_last())
    }
}

/// The list for pushing the apps once, without serving them.
pub fn pushed_apps(sessions: &Vec<AudioSession>) -> (apps: Vec<AppInfo>)
    ensures
        messages::apps_view(apps@) == pushed_apps_of(audio::sessions_view(sessions@)),
{
    let ghost all = audio::sessions_view(sessions@);
    let mut apps: Vec<AppInfo> = Vec::new();
    assert(messages::apps_view(apps@) =~= Seq::<App>::empty());
    let mut i: usize = 0;
    while i < sessions.len()
        invariant
            i <= sessions@.len(),
            all == audio::sessions_view(sessions@),
            messages::apps_view(apps@) == pushed_apps_of(all.take(i as int)),
        decreases sessions@.len() - i,
    {
        let s = &sessions[i];
        let ghost upto = all.take(i + 1);
        assert(upto.drop_last() =~= all.take(i as int));
        assert(upto.last() == s@);
        if !s.exe_path.as_str().is_empty() {
            let ghost listed = apps@;
            let app = AppInfo {
                id: s.pid,
                name: s.process_name.clone(),
                volume: s.volume.level,
                muted: s.muted,
            };
            apps.push(app);
            assert(messages::apps_view(apps@) =~= messages::apps_view(listed).push(app@));
        }
        i = i + 1;
    }
    assert(all.take(i as int) =~= all);
    apps
}

/// What a list of messages says.
pub open spec fn messages_view(msgs: Seq<HostToDevice>) -> Seq<HostMessage> {
    msgs.map_values(|m: HostToDevice| m@)
}

fn emit(msgs: &mut Vec<HostToDevice>, msg: HostToDevice)
    ensures
        messages_view(final(msgs)@) == messages_view(old(msgs)@).push(msg@),
{
    msgs.push(msg);
    assert(messages_view(msgs@) =~= messages_view(old(msgs)@).push(msg@));
}

/// The icons of the apps, in the order of the list, for those that have one.
pub open spec fn icon_messages(apps: Seq<App>, icons: Map<u32, Seq<u8>>) -> Seq<HostMessage>
    decreases apps.len(),
{
    if apps.len() == 0 {
        Seq::empty()
    } else {
        let front = icon_messages(apps.drop_last(), icons);
        let app_id = apps.last().id;
        if icons.contains_key(app_id) {
            front.push(HostMessage::SetAppIcon { app_id, pixels: icons[app_id] })
        } else {
            front
        }
    }
}

/// The messages that tell a device about the apps: the list, then the first app
/// as the selected one, then the icons. Each is sent when the one before has
/// been acknowledged.
pub open spec fn opening(apps: Seq<App>, icons: Map<u32, Seq<u8>>) -> Seq<HostMessage> {
    seq![HostMessage::SetAppList(apps), HostMessage::SetSelectedApp(apps[0].id)] + icon_messages(
        apps,
        icons,
    )
}

/// The messages that tell a device about the apps.
pub fn opening_messages(apps: &Vec<AppInfo>, icons: &HashMap<u32, Vec<u8>>) -> (msgs: Vec<
    HostToDevice,
>)
    requires
        apps@.len() > 0,
    ensures
        messages_view(msgs@) == opening(messages::apps_view(apps@), pixels_view(icons@)),
{
    broadcast use vstd::std_specs::hash::group_hash_axioms;

    let ghost all = messages::apps_view(apps@);
    let ghost pictures = pixels_view(icons@);
    let mut msgs: Vec<HostToDevice> = Vec::new();
    assert(messages_view(msgs@) =~= Seq::<HostMessage>::empty());
    emit(&mut msgs, HostToDevice::SetAppList(messages::clone_apps(apps)));
    emit(&mut msgs, HostToDevice::SetSelectedApp(apps[0].id));
    let ghost head = messages_view(msgs@);
    assert(head =~= seq![HostMessage::SetAppList(all), HostMessage::SetSelectedApp(all[0].id)]);
    let mut i: usize = 0;
    while i < apps.len()
        invariant
            i <= apps@.len(),
            all == messages::apps_view(apps@),
            pictures == pixels_view(icons@),
            messages_view(msgs@) == head + icon_messages(all.take(i as int), pictures),
        decreases apps@.len() - i,
    {
        let app_id: u32 = apps[i].id;
        let ghost upto = all.take(i + 1);
        assert(upto.drop_last() =~= all.take(i as int));
        assert(upto.last() == apps@[i as int]@);
        if let Some(pixels) = icons.get(&app_id) {
            emit(&mut msgs, HostToDevice::SetAppIcon { app_id, pixels: pixels.clone() });
        }
        assert(messages_view(msgs@) =~= head + icon_messages(upto, pictures));
        i = i + 1;
    }
    assert(all.take(i as int) =~= all);
    msgs
}

/// A request that the device's message makes of the companion.
#[derive(Debug, PartialEq)]
pub enum Request {
    Nothing,
    /// Move an app's volume by a relative amount, from what it is known to be.
    /// Where that works, [`Session::volume_changed`] has to be called.
    ChangeVolume { app_id: u32, delta: i16, from: Volume },
    /// Set an app's mute state. Where that works, [`Session::mute_changed`] has
    /// to be called.
    ChangeMute { app_id: u32, muted: bool },
    /// Send the messages, each when the one before has been acknowledged.
    Push(Vec<HostToDevice>),
    /// The device has joined a network, and has this address there, which has
    /// to be saved; or it has not, for this reason. Whoever asked for it has to
    /// be told.
    Provisioned(Result<String, String>),
}

/// What a [`Request`] says.
pub enum RequestModel {
    Nothing,
    ChangeVolume { app_id: u32, delta: i16, from: Volume },
    ChangeMute { app_id: u32, muted: bool },
    Push(Seq<HostMessage>),
    Provisioned(Result<Seq<char>, Seq<char>>),
}

/// What the outcome of provisioning says.
pub open spec fn outcome_view(r: Result<String, String>) -> Result<Seq<char>, Seq<char>> {
    match r {
        Ok(ip) => Ok(ip@),
        Err(e) => Err(e@),
    }
}

impl View for Request {
    type V = RequestModel;

    open spec fn view(&self) -> RequestModel {
        match *self {
            Request::Nothing => RequestModel::Nothing,
            Request::ChangeVolume { app_id, delta, from } => RequestModel::ChangeVolume {
                app_id,
                delta,
                from,
            },
            Request::ChangeMute { app_id, muted } => RequestModel::ChangeMute { app_id, muted },
            Request::Push(msgs) => RequestModel::Push(messages_view(msgs@)),
            Request::Provisioned(r) => RequestModel::Provisioned(outcome_view(r)),
        }
    }
}

/// A session with a connected device.
pub struct Session {
    ids: Vec<u32>,
    volumes: HashMap<u32, Volume>,
    mutes: HashMap<u32, bool>,
    icons: HashMap<u32, Vec<u8>>,
    last_refresh_ms: u64,
    last_heartbeat_ms: u64,
    /// Somebody waits for the outcome of provisioning.
    pending: bool,
    deadline_ms: Option<u64>,
}

/// What a [`Session`] is at.
#[verifier::ext_equal]
pub struct SessionState {
    /// The apps that the device was told of at the start.
    pub ids: Seq<u32>,
    pub volumes: Map<u32, Volume>,
    pub mutes: Map<u32, bool>,
    pub icons: Map<u32, Seq<u8>>,
    pub last_refresh: u64,
    pub last_heartbeat: u64,
    pub pending: bool,
    pub deadline: Option<u64>,
}

impl View for Session {
    type V = SessionState;

    closed spec fn view(&self) -> SessionState {
        SessionState {
            ids: self.ids@,
            volumes: self.volumes@,
            mutes: self.mutes@,
            icons: pixels_view(self.icons@),
            last_refresh: self.last_refresh_ms,
            last_heartbeat: self.last_heartbeat_ms,
            pending: self.pending,
            deadline: self.deadline_ms,
        }
    }
}

/// Ids of the apps.
pub open spec fn ids_of(apps: Seq<App>) -> Seq<u32> {
    apps.map_values(|a: App| a.id)
}

/// The two lists have the same members.
pub open spec fn same_members(a: Seq<u32>, b: Seq<u32>) -> bool {
    &&& forall|i: int| 0 <= i < a.len() ==> b.contains(#[trigger] a[i])
    &&& forall|i: int| 0 <= i < b.len() ==> a.contains(#[trigger] b[i])
}

/// `known`, with the volumes of the sessions. Of several sessions of a process
/// the last one counts.
pub open spec fn with_volumes(
    known: Map<u32, Volume>,
    sessions: Seq<SessionModel>,
) -> Map<u32, Volume>
    decreases sessions.len(),
{
    if sessions.len() == 0 {
        known
    } else if sessions.last().pid != 0 {
        with_volumes(known, sessions.drop_last()).insert(
            sessions.last().pid,
            sessions.last().volume,
        )
    } else {
        with_volumes(known, sessions.drop_last())
    }
}

/// As for the volumes, so for the mute states.
pub open spec fn with_mutes(known: Map<u32, bool>, sessions: Seq<SessionModel>) -> Map<u32, bool>
    decreases sessions.len(),
{
    if sessions.len() == 0 {
        known
    } else if sessions.last().pid != 0 {
        with_mutes(known, sessions.drop_last()).insert(sessions.last().pid, sessions.last().muted)
    } else {
        with_mutes(known, sessions.drop_last())
    }
}

/// The executables of sessions that no icon is known for.
pub open spec fn missing_icons(
    known: Map<u32, Seq<u8>>,
    sessions: Seq<SessionModel>,
) -> Seq<(u32, Seq<char>)>
    decreases sessions.len(),
{
    if sessions.len() == 0 {
        Seq::empty()
    } else {
        let front = missing_icons(known, sessions.drop_last());
        let s = sessions.last();
        if s.pid != 0 && !known.contains_key(s.pid) && s.path.len() > 0 {
            front.push((s.pid, s.path))
        } else {
            front
        }
    }
}

impl SessionState {
    /// What is known of an app's volume; half where nothing is.
    pub open spec fn volume(self, app_id: u32) -> Volume {
        if self.volumes.contains_key(app_id) {
            self.volumes[app_id]
        } else {
            Volume { bits: HALF_BITS, level: 50 }
        }
    }

    /// What is known of an app's mute state; not muted where nothing is.
    pub open spec fn muted(self, app_id: u32) -> bool {
        self.mutes.contains_key(app_id) && self.mutes[app_id]
    }

    /// What a device that has selected an app has to be told of it.
    pub open spec fn app_messages(self, app_id: u32) -> Seq<HostMessage> {
        (if self.volumes.contains_key(app_id) {
            seq![HostMessage::SetVolume { app_id, level: self.volumes[app_id].level }]
        } else {
            Seq::empty()
        }) + (if self.icons.contains_key(app_id) {
            seq![HostMessage::SetAppIcon { app_id, pixels: self.icons[app_id] }]
        } else {
            Seq::empty()
        })
    }

    /// What [`Session::message`] asks for.
    pub open spec fn request(self, msg: DeviceMessage) -> RequestModel {
        match msg {
            DeviceMessage::VolumeDelta { app_id, delta } => RequestModel::ChangeVolume {
                app_id,
                delta,
                from: self.volume(app_id),
            },
            DeviceMessage::AppSelected(app_id) => RequestModel::Push(self.app_messages(app_id)),
            DeviceMessage::MuteToggle { app_id } => RequestModel::ChangeMute {
                app_id,
                muted: !self.muted(app_id),
            },
            DeviceMessage::WifiStatus { connected, ip } => if self.pending {
                RequestModel::Provisioned(
                    if connected {
                        Ok(ip)
                    } else if ip == "REBOOT"@ {
                        Err("device requires reboot to apply new WiFi credentials"@)
                    } else {
                        Err("WiFi connection failed"@)
                    },
                )
            } else {
                RequestModel::Nothing
            },
            _ => RequestModel::Nothing,
        }
    }

    /// After [`Session::message`].
    pub open spec fn after(self, msg: DeviceMessage) -> SessionState {
        if self.pending && msg is WifiStatus {
            SessionState { pending: false, deadline: None, ..self }
        } else {
            self
        }
    }

    /// A heartbeat is due.
    pub open spec fn beat_due(self, now_ms: u64) -> bool {
        now_ms - self.last_heartbeat >= HEARTBEAT_MS
    }

    /// After [`Session::heartbeat`].
    pub open spec fn beaten(self, now_ms: u64) -> SessionState {
        if self.beat_due(now_ms) {
            SessionState { last_heartbeat: now_ms, ..self }
        } else {
            self
        }
    }

    /// After [`Session::provision`].
    pub open spec fn provisioned(self, now_ms: u64) -> SessionState {
        SessionState { pending: true, deadline: Some(provision_deadline(now_ms)), ..self }
    }

    /// The device has had its time to report the outcome of provisioning.
    pub open spec fn late(self, now_ms: u64) -> bool {
        self.deadline is Some && now_ms > self.deadline->0
    }

    /// After [`Session::expire`].
    pub open spec fn expired(self, now_ms: u64) -> SessionState {
        if self.late(now_ms) {
            SessionState { pending: false, deadline: None, ..self }
        } else {
            self
        }
    }

    /// The audio sessions are due for another look.
    pub open spec fn look_due(self, now_ms: u64) -> bool {
        now_ms - self.last_refresh >= REFRESH_MS
    }

    /// After [`Session::refresh_due`].
    pub open spec fn looked(self, now_ms: u64) -> SessionState {
        if self.look_due(now_ms) {
            SessionState { last_refresh: now_ms, ..self }
        } else {
            self
        }
    }

    /// With a command, if there is one.
    pub open spec fn commanded(self, now_ms: u64, command: Option<WorkerCommand>) -> SessionState {
        if command is Some {
            self.provisioned(now_ms)
        } else {
            self
        }
    }

    /// After [`Session::turn`].
    pub open spec fn turned(self, now_ms: u64, command: Option<WorkerCommand>) -> SessionState {
        self.beaten(now_ms).commanded(now_ms, command).expired(now_ms).looked(now_ms)
    }

    /// What [`Session::turn`] has to send: the heartbeat, then the settings,
    /// then the command.
    pub open spec fn turn_messages(
        self,
        now_ms: u64,
        settings: Option<HostToDevice>,
        command: Option<WorkerCommand>,
    ) -> Seq<HostMessage> {
        (if self.beat_due(now_ms) {
            seq![HostMessage::Ping]
        } else {
            Seq::empty()
        }) + (match settings {
            Some(msg) => seq![msg@],
            None => Seq::empty(),
        }) + (match command {
            Some(command) => seq![command_message(command)],
            None => Seq::empty(),
        })
    }

    /// With another volume known of an app.
    pub open spec fn with_volume(self, app_id: u32, to: Volume) -> SessionState {
        SessionState { volumes: self.volumes.insert(app_id, to), ..self }
    }

    /// With another mute state known of an app.
    pub open spec fn with_mute(self, app_id: u32, muted: bool) -> SessionState {
        SessionState { mutes: self.mutes.insert(app_id, muted), ..self }
    }

    /// With an icon known of an app.
    pub open spec fn with_icon(self, app_id: u32, pixels: Seq<u8>) -> SessionState {
        SessionState { icons: self.icons.insert(app_id, pixels), ..self }
    }

    /// With the volumes and mute states of the given audio sessions.
    pub open spec fn refreshed(self, sessions: Seq<SessionModel>) -> SessionState {
        SessionState {
            volumes: with_volumes(self.volumes, sessions),
            mutes: with_mutes(self.mutes, sessions),
            ..self
        }
    }

    /// The sessions are not those that the device was told of.
    pub open spec fn changed(self, sessions: Seq<SessionModel>) -> bool {
        !same_members(self.ids, ids_of(apps_of(sessions)))
    }
}

/// A session at its start, with what is known of the apps.
pub open spec fn started(
    apps: Seq<App>,
    volumes: Map<u32, Volume>,
    mutes: Map<u32, bool>,
    icons: Map<u32, Seq<u8>>,
    now_ms: u64,
) -> SessionState {
    SessionState {
        ids: ids_of(apps),
        volumes,
        mutes,
        icons,
        last_refresh: now_ms,
        last_heartbeat: now_ms,
        pending: false,
        deadline: None,
    }
}

impl Session {
    /// A session at its start.
    pub fn start(prepared: Prepared, now_ms: u64) -> (s: Self)
        ensures
            s@ == started(
                messages::apps_view(prepared.apps@),
                prepared.volumes@,
                prepared.mutes@,
                pixels_view(prepared.icons@),
                now_ms,
            ),
    {
        let ids = app_ids(&prepared.apps);
        Session {
            ids,
            volumes: prepared.volumes,
            mutes: prepared.mutes,
            icons: prepared.icons,
            last_refresh_ms: now_ms,
            last_heartbeat_ms: now_ms,
            pending: false,
            deadline_ms: None,
        }
    }

    /// React to a message from the device.
    pub fn message(&mut self, msg: &DeviceToHost) -> (request: Request)
        ensures
            final(self)@ == old(self)@.after(msg@),
            request@ == old(self)@.request(msg@),
    {
        broadcast use vstd::std_specs::hash::group_hash_axioms;

        match msg {
            DeviceToHost::VolumeDelta { app_id, delta } => {
                let from = match self.volumes.get(app_id) {
                    Some(v) => *v,
                    None => Volume { bits: HALF_BITS, level: 50 },
                };
                Request::ChangeVolume { app_id: *app_id, delta: *delta, from }
            },
            DeviceToHost::AppSelected(app_id) => Request::Push(self.app_messages(*app_id)),
            DeviceToHost::MuteToggle { app_id } => {
                let currently = match self.mutes.get(app_id) {
                    Some(m) => *m,
                    None => false,
                };
                Request::ChangeMute { app_id: *app_id, muted: !currently }
            },
            DeviceToHost::WifiStatus { connected, ip } => {
                if self.pending {
                    self.pending = false;
                    self.deadline_ms = None;
                    let ip = text::as_str16(ip).to_owned();
                    if *connected {
                        Request::Provisioned(Ok(ip))
                    } else if ip == "REBOOT".to_owned() {
                        Request::Provisioned(
                            Err("device requires reboot to apply new WiFi credentials".to_owned()),
                        )
                    } else {
                        Request::Provisioned(Err("WiFi connection failed".to_owned()))
                    }
                } else {
                    Request::Nothing
                }
            },
            _ => Request::Nothing,
        }
    }

    fn app_messages(&self, app_id: u32) -> (msgs: Vec<HostToDevice>)
        ensures
            messages_view(msgs@) == self@.app_messages(app_id),
    {
        broadcast use vstd::std_specs::hash::group_hash_axioms;

        let mut msgs: Vec<HostToDevice> = Vec::new();
        assert(messages_view(msgs@) =~= Seq::<HostMessage>::empty());
        if let Some(v) = self.volumes.get(&app_id) {
            emit(&mut msgs, HostToDevice::SetVolume { app_id, level: v.level });
        }
        if let Some(pixels) = self.icons.get(&app_id) {
            emit(&mut msgs, HostToDevice::SetAppIcon { app_id, pixels: pixels.clone() });
        }
        assert(messages_view(msgs@) =~= self@.app_messages(app_id));
        msgs
    }

    /// An app's volume has been set. Returns what the device has to be told.
    pub fn volume_changed(&mut self, app_id: u32, to: Volume) -> (msg: HostToDevice)
        ensures
            final(self)@ == old(self)@.with_volume(app_id, to),
            msg@ == (HostMessage::SetVolume { app_id, level: to.level }),
    {
        broadcast use vstd::std_specs::hash::group_hash_axioms;

        self.volumes.insert(app_id, to);
        HostToDevice::SetVolume { app_id, level: to.level }
    }

    /// An app's mute state has been set. Returns what the device has to be told.
    pub fn mute_changed(&mut self, app_id: u32, muted: bool) -> (msg: HostToDevice)
        ensures
            final(self)@ == old(self)@.with_mute(app_id, muted),
            msg@ == (HostMessage::SetMute { app_id, muted }),
    {
        broadcast use vstd::std_specs::hash::group_hash_axioms;

        self.mutes.insert(app_id, muted);
        HostToDevice::SetMute { app_id, muted }
    }

    /// The heartbeat, if one is due.
    pub fn heartbeat(&mut self, now_ms: u64) -> (msg: Option<HostToDevice>)
        ensures
            final(self)@ == old(self)@.beaten(now_ms),
            match msg {
                Some(m) => old(self)@.beat_due(now_ms) && m@ == HostMessage::Ping,
                None => !old(self)@.beat_due(now_ms),
            },
    {
        if now_ms.saturating_sub(self.last_heartbeat_ms) >= HEARTBEAT_MS {
            self.last_heartbeat_ms = now_ms;
            Some(HostToDevice::Ping)
        } else {
            None
        }
    }

    /// Have the device join a network. Returns what it has to be told; the
    /// outcome comes as a [`Request::Provisioned`], or from
    /// [`Session::expire`].
    pub fn provision(&mut self, now_ms: u64, command: WorkerCommand) -> (msg: HostToDevice)
        ensures
            final(self)@ == old(self)@.provisioned(now_ms),
            msg@ == command_message(command),
    {
        let WorkerCommand::ProvisionWifi { ssid, password } = command;
        self.pending = true;
        self.deadline_ms = Some(now_ms.saturating_add(PROVISION_MS));
        HostToDevice::SetWifiConfig { ssid, password }
    }

    /// The reason to give to whoever waits for the outcome of provisioning, if
    /// the device has not reported one in time.
    pub fn expire(&mut self, now_ms: u64) -> (reason: Option<String>)
        ensures
            final(self)@ == old(self)@.expired(now_ms),
            match reason {
                Some(text) => old(self)@.late(now_ms) && old(self)@.pending && text@
                    == "timed out waiting for WiFi connection"@,
                None => !(old(self)@.late(now_ms) && old(self)@.pending),
            },
    {
        if let Some(deadline) = self.deadline_ms {
            if now_ms > deadline {
                let pending = self.pending;
                self.pending = false;
                self.deadline_ms = None;
                if pending {
                    return Some("timed out waiting for WiFi connection".to_owned());
                }
            }
        }
        None
    }

    /// The audio sessions are due for another look.
    pub fn refresh_due(&mut self, now_ms: u64) -> (due: bool)
        ensures
            due == old(self)@.look_due(now_ms),
            final(self)@ == old(self)@.looked(now_ms),
    {
        if now_ms.saturating_sub(self.last_refresh_ms) >= REFRESH_MS {
            self.last_refresh_ms = now_ms;
            true
        } else {
            false
        }
    }

    /// What is due at the end of a turn, after the device's messages have been
    /// served: the heartbeat, the backlight settings where they have changed, a
    /// command from the tray, an end of waiting for a report, and another look
    /// at the audio sessions.
    pub fn turn(
        &mut self,
        now_ms: u64,
        settings: Option<HostToDevice>,
        command: Option<WorkerCommand>,
    ) -> (turn: Turn)
        ensures
            final(self)@ == old(self)@.turned(now_ms, command),
            messages_view(turn.messages@) == old(self)@.turn_messages(now_ms, settings, command),
            match turn.expired {
                Some(text) => command is None && old(self)@.late(now_ms) && old(self)@.pending
                    && text@ == "timed out waiting for WiFi connection"@,
                None => command is Some || !(old(self)@.late(now_ms) && old(self)@.pending),
            },
            turn.refresh == old(self)@.look_due(now_ms),
    {
        let mut msgs: Vec<HostToDevice> = Vec::new();
        assert(messages_view(msgs@) =~= Seq::<HostMessage>::empty());
        if let Some(ping) = self.heartbeat(now_ms) {
            emit(&mut msgs, ping);
        }
        if let Some(msg) = settings {
            emit(&mut msgs, msg);
        }
        if let Some(command) = command {
            let msg = self.provision(now_ms, command);
            emit(&mut msgs, msg);
        }
        assert(messages_view(msgs@) =~= old(self)@.turn_messages(now_ms, settings, command));
        let expired = self.expire(now_ms);
        let refresh = self.refresh_due(now_ms);
        Turn { messages: msgs, expired, refresh }
    }

    /// Take note of the audio sessions. Where they are not those that the
    /// device was told of, returns the new list for it, and the executables
    /// that icons have to be taken from. An icon goes to [`Session::add_icon`].
    pub fn refresh(&mut self, sessions: &Vec<AudioSession>) -> (r: Option<
        (HostToDevice, Vec<(u32, String)>),
    >)
        ensures
            ({
                let all = audio::sessions_view(sessions@);
                match r {
                    Some((msg, sources)) => {
                        &&& old(self)@.changed(all)
                        &&& msg@ == HostMessage::SetAppList(apps_of(all))
                        &&& sources_view(sources@) == missing_icons(old(self)@.icons, all)
                        &&& final(self)@ == old(self)@.refreshed(all)
                    },
                    None => !old(self)@.changed(all) && final(self)@ == old(self)@,
                }
            }),
    {
        broadcast use vstd::std_specs::hash::group_hash_axioms;

        let ghost all = audio::sessions_view(sessions@);
        let apps = match prepare(sessions) {
            Ok(p) => p.apps,
            Err(_) => Vec::new(),
        };
        assert(messages::apps_view(apps@) =~= apps_of(all));
        let new_ids = app_ids(&apps);
        if contains_all(&self.ids, &new_ids) && contains_all(&new_ids, &self.ids) {
            return None;
        }
        let mut sources: Vec<(u32, String)> = Vec::new();
        assert(sources_view(sources@) =~= Seq::<(u32, Seq<char>)>::empty());
        let mut i: usize = 0;
        while i < sessions.len()
            invariant
                i <= sessions@.len(),
                all == audio::sessions_view(sessions@),
                self@ == old(self)@.refreshed(all.take(i as int)),
                sources_view(sources@) == missing_icons(old(self)@.icons, all.take(i as int)),
            decreases sessions@.len() - i,
        {
            let s = &sessions[i];
            let ghost upto = all.take(i + 1);
            let ghost listed = sources@;
            assert(upto.drop_last() =~= all.take(i as int));
            assert(upto.last() == s@);
            if s.pid != 0 {
                self.volumes.insert(s.pid, s.volume);
                self.mutes.insert(s.pid, s.muted);
                if !self.has_icon(s.pid) && !s.exe_path.as_str().is_empty() {
                    let source = (s.pid, s.exe_path.clone());
                    sources.push(source);
                    assert(sources_view(sources@) =~= sources_view(listed).push(
                        (source.0, source.1@),
                    ));
                }
            }
            i = i + 1;
        }
        assert(all.take(i as int) =~= all);
        Some((HostToDevice::SetAppList(apps), sources))
    }

    /// An icon is known for the app.
    pub fn has_icon(&self, app_id: u32) -> (r: bool)
        ensures
            r == self@.icons.contains_key(app_id),
    {
        broadcast use vstd::std_specs::hash::group_hash_axioms;

        self.icons.contains_key(&app_id)
    }

    /// Take note of an app's icon.
    pub fn add_icon(&mut self, app_id: u32, pixels: Vec<u8>)
        ensures
            final(self)@ == old(self)@.with_icon(app_id, pixels@),
    {
        broadcast use vstd::std_specs::hash::group_hash_axioms;

        self.icons.insert(app_id, pixels);
        assert(self@.icons =~= old(self)@.icons.insert(app_id, pixels@));
    }
}

/// What a turn of a session brings.
#[derive(Debug, PartialEq)]
pub struct Turn {
    /// Send these.
    pub messages: Vec<HostToDevice>,
    /// Give this reason to whoever waits for the outcome of provisioning.
    pub expired: Option<String>,
    /// Look at the audio sessions, and hand them to [`Session::refresh`].
    pub refresh: bool,
}

/// The message that a command makes.
pub open spec fn command_message(command: WorkerCommand) -> HostMessage {
    let WorkerCommand::ProvisionWifi { ssid, password } = command;
    HostMessage::SetWifiConfig { ssid: text::text32(ssid), password: text::text64(password) }
}

/// When provisioning that begins now has taken too long.
pub open spec fn provision_deadline(now_ms: u64) -> u64 {
    if now_ms + PROVISION_MS > u64::MAX {
        u64::MAX
    } else {
        (now_ms + PROVISION_MS) as u64
    }
}

fn app_ids(apps: &Vec<AppInfo>) -> (ids: Vec<u32>)
    ensures
        ids@ == ids_of(messages::apps_view(apps@)),
{
    let mut ids: Vec<u32> = Vec::new();
    let mut i: usize = 0;
    while i < apps.len()
        invariant
            i <= apps@.len(),
            ids@ == ids_of(messages::apps_view(apps@)).take(i as int),
        decreases apps@.len() - i,
    {
        ids.push(apps[i].id);
        assert(ids@ =~= ids_of(messages::apps_view(apps@)).take(i + 1));
        i = i + 1;
    }
    assert(ids@ =~= ids_of(messages::apps_view(apps@)));
    ids
}

/// Every member of `some` is in `all`.
fn contains_all(all: &Vec<u32>, some: &Vec<u32>) -> (r: bool)
    ensures
        r == (forall|i: int| 0 <= i < some@.len() ==> all@.contains(#[trigger] some@[i])),
{
    let mut i: usize = 0;
    while i < some.len()
        invariant
            i <= some@.len(),
            forall|k: int| 0 <= k < i ==> all@.contains(#[trigger] some@[k]),
        decreases some@.len() - i,
    {
        let mut found = false;
        let mut j: usize = 0;
        while j < all.len()
            invariant
                i < some@.len(),
                j <= all@.len(),
                found == exists|k: int| 0 <= k < j && #[trigger] all@[k] == some@[i as int],
            decreases all@.len() - j,
        {
            if all[j] == some[i] {
                found = true;
            }
            j = j + 1;
        }
        if !found {
            assert(!all@.contains(some@[i as int]));
            return false;
        }
        i = i + 1;
    }
    true
}

/// What came out of the decoder.
#[derive(Debug, PartialEq)]
pub enum Frame {
    Message(DeviceToHost),
    /// No complete frame is buffered.
    Nothing,
    /// A frame was corrupt, or made no sense.
    Bad,
}

/// What to do after a frame.
#[derive(Debug, Clone, Copy, PartialEq, Eq, Structural)]
pub enum Next {
    /// Look for the next frame.
    Frame,
    /// Read more bytes.
    Read,
    /// Drop what is buffered, in the transport too if `clear_input` is set, and
    /// read more bytes.
    Reset { clear_input: bool },
    /// Stop waiting.
    Done,
}

/// What the companion waits for.
#[derive(Debug, Clone, Copy, PartialEq, Eq, Structural)]
pub enum Awaited {
    /// The device's first sign of life.
    Ready,
    /// The acknowledgement of a message.
    Ack,
    /// The report that the device has joined a network.
    WifiStatus,
}

/// How long the device has for it, in milliseconds.
pub open spec fn patience(awaited: Awaited) -> u64 {
    match awaited {
        Awaited::Ready => READY_MS,
        Awaited::Ack => ACK_MS,
        Awaited::WifiStatus => PROVISION_MS,
    }
}

/// To wait on for what has been awaited since `start_ms`, or to give up.
pub fn wait_on(awaited: Awaited, start_ms: u64, now_ms: u64) -> (wait: bool)
    ensures
        wait == (now_ms - start_ms < patience(awaited)),
{
    let limit: u64 = match awaited {
        Awaited::Ready => READY_MS,
        Awaited::Ack => ACK_MS,
        Awaited::WifiStatus => PROVISION_MS,
    };
    now_ms.saturating_sub(start_ms) < limit
}

/// A step of getting through to a device and telling it something.
#[derive(Debug, PartialEq)]
pub enum LinkStep {
    /// Read what the device sends for so many milliseconds, and pass it over.
    Drain { ms: u64 },
    /// Drop what is buffered, in the transport and in the decoder.
    Clear,
    Send(HostToDevice),
    /// Read until it comes, or until [`wait_on`] says to give up. Where it does
    /// not come, the next step follows all the same.
    Await(Awaited),
}

/// What a [`LinkStep`] says.
pub enum LinkStepModel {
    Drain { ms: u64 },
    Clear,
    Send(HostMessage),
    Await(Awaited),
}

impl View for LinkStep {
    type V = LinkStepModel;

    open spec fn view(&self) -> LinkStepModel {
        match *self {
            LinkStep::Drain { ms } => LinkStepModel::Drain { ms },
            LinkStep::Clear => LinkStepModel::Clear,
            LinkStep::Send(msg) => LinkStepModel::Send(msg@),
            LinkStep::Await(awaited) => LinkStepModel::Await(awaited),
        }
    }
}

/// What a list of steps says.
pub open spec fn steps_view(steps: Seq<LinkStep>) -> Seq<LinkStepModel> {
    steps.map_values(|s: LinkStep| s@)
}

/// How a device is greeted: old input is dropped, then a `Ping` makes it give a
/// sign of life.
pub open spec fn greeting() -> Seq<LinkStepModel> {
    seq![
        LinkStepModel::Drain { ms: DRAIN_MS },
        LinkStepModel::Clear,
        LinkStepModel::Send(HostMessage::Ping),
        LinkStepModel::Await(Awaited::Ready),
    ]
}

/// The messages, each sent when the one before has been acknowledged.
pub open spec fn acknowledged(msgs: Seq<HostMessage>) -> Seq<LinkStepModel>
    decreases msgs.len(),
{
    if msgs.len() == 0 {
        Seq::empty()
    } else {
        acknowledged(msgs.drop_last()) + seq![
            LinkStepModel::Send(msgs.last()),
            LinkStepModel::Await(Awaited::Ack),
        ]
    }
}

fn add_step(steps: &mut Vec<LinkStep>, step: LinkStep)
    ensures
        steps_view(final(steps)@) == steps_view(old(steps)@).push(step@),
{
    steps.push(step);
    assert(steps_view(steps@) =~= steps_view(old(steps)@).push(step@));
}

fn greeting_steps() -> (steps: Vec<LinkStep>)
    ensures
        steps_view(steps@) == greeting(),
{
    let mut steps: Vec<LinkStep> = Vec::new();
    add_step(&mut steps, LinkStep::Drain { ms: DRAIN_MS });
    add_step(&mut steps, LinkStep::Clear);
    add_step(&mut steps, LinkStep::Send(HostToDevice::Ping));
    add_step(&mut steps, LinkStep::Await(Awaited::Ready));
    assert(steps_view(steps@) =~= greeting());
    steps
}

/// The steps that open a session with a device: it is greeted, then told about
/// the apps.
pub fn opening_steps(apps: &Vec<AppInfo>, icons: &HashMap<u32, Vec<u8>>) -> (steps: Vec<LinkStep>)
    requires
        apps@.len() > 0,
    ensures
        steps_view(steps@) == greeting() + acknowledged(
            opening(messages::apps_view(apps@), pixels_view(icons@)),
        ),
{
    let mut steps = greeting_steps();
    let msgs = opening_messages(apps, icons);
    push_acknowledged(&mut steps, msgs);
    steps
}

/// Append the messages, each with the wait for its acknowledgement.
fn push_acknowledged(steps: &mut Vec<LinkStep>, msgs: Vec<HostToDevice>)
    ensures
        steps_view(final(steps)@) == steps_view(old(steps)@) + acknowledged(messages_view(msgs@)),
{
    let ghost all = messages_view(msgs@);
    let ghost head = steps_view(steps@);
    let ghost n = msgs@.len() as int;
    assert(head + acknowledged(all.take(0)) =~= head);
    for msg in iter: msgs
        invariant
            all == messages_view(iter.seq()),
            steps_view(steps@) == head + acknowledged(all.take(iter.index())),
    {
        let ghost i = iter.index();
        let ghost upto = all.take(i + 1);
        assert(upto.drop_last() =~= all.take(i));
        assert(upto.last() == msg@);
        add_step(steps, LinkStep::Send(msg));
        add_step(steps, LinkStep::Await(Awaited::Ack));
        assert(steps_view(steps@) =~= head + acknowledged(upto));
    }
    assert(all.take(n) =~= all);
}

/// The steps that have a device join a network, outside a session.
pub fn provision_steps(command: WorkerCommand) -> (steps: Vec<LinkStep>)
    ensures
        steps_view(steps@) == greeting() + seq![
            LinkStepModel::Send(command_message(command)),
            LinkStepModel::Await(Awaited::WifiStatus),
        ],
{
    let mut steps = greeting_steps();
    let WorkerCommand::ProvisionWifi { ssid, password } = command;
    add_step(&mut steps, LinkStep::Send(HostToDevice::SetWifiConfig { ssid, password }));
    add_step(&mut steps, LinkStep::Await(Awaited::WifiStatus));
    assert(steps_view(steps@) =~= greeting() + seq![
        LinkStepModel::Send(command_message(command)),
        LinkStepModel::Await(Awaited::WifiStatus),
    ]);
    steps
}

/// The frame is a sign of life.
pub open spec fn awaits_ready(frame: Frame) -> bool {
    match frame {
        Frame::Message(DeviceToHost::Ready { .. }) => true,
        Frame::Message(DeviceToHost::Pong) => true,
        _ => false,
    }
}

/// The frame is an acknowledgement.
pub open spec fn awaits_ack(frame: Frame) -> bool {
    match frame {
        Frame::Message(DeviceToHost::Ack) => true,
        _ => false,
    }
}

/// What to do after a frame: stop waiting where it is what was awaited, look for
/// the next where it was another message, read where there was none, and recover
/// where it was bad.
pub open spec fn after_frame(awaited: bool, frame: Frame, recover: Next) -> Next {
    match frame {
        Frame::Message(_) => if awaited {
            Next::Done
        } else {
            Next::Frame
        },
        Frame::Nothing => Next::Read,
        Frame::Bad => recover,
    }
}

/// While waiting for the device's first sign of life, which is `Ready` or
/// `Pong`.
pub fn ready_next(frame: &Frame) -> (next: Next)
    ensures
        next == after_frame(awaits_ready(*frame), *frame, Next::Reset { clear_input: false }),
{
    match frame {
        Frame::Message(DeviceToHost::Ready { .. }) => Next::Done,
        Frame::Message(DeviceToHost::Pong) => Next::Done,
        Frame::Message(_) => Next::Frame,
        Frame::Nothing => Next::Read,
        Frame::Bad => Next::Reset { clear_input: false },
    }
}

/// While waiting for an `Ack`.
pub fn ack_next(frame: &Frame) -> (next: Next)
    ensures
        next == after_frame(awaits_ack(*frame), *frame, Next::Reset { clear_input: true }),
{
    match frame {
        Frame::Message(DeviceToHost::Ack) => Next::Done,
        Frame::Message(_) => Next::Frame,
        Frame::Nothing => Next::Read,
        Frame::Bad => Next::Reset { clear_input: true },
    }
}

/// While draining what the device sends.
pub fn drain_next(frame: &Frame) -> (next: Next)
    ensures
        next == after_frame(false, *frame, Next::Read),
{
    match frame {
        Frame::Message(_) => Next::Frame,
        Frame::Nothing => Next::Read,
        Frame::Bad => Next::Read,
    }
}

/// While serving the device.
pub fn serve_next(frame: &Frame) -> (next: Next)
    ensures
        next == after_frame(false, *frame, Next::Reset { clear_input: true }),
{
    match frame {
        Frame::Message(_) => Next::Frame,
        Frame::Nothing => Next::Read,
        Frame::Bad => Next::Reset { clear_input: true },
    }
}

/// Where provisioning over USB, outside a session, stands after a frame.
#[derive(Debug, PartialEq)]
pub enum Provisioning {
    Wait(Next),
    /// The address that the device has got, which has to be saved, or why it
    /// has none.
    Finished(Result<String, String>),
}

/// What a [`Provisioning`] says.
pub enum ProvisioningModel {
    Wait(Next),
    Finished(Result<Seq<char>, Seq<char>>),
}

impl View for Provisioning {
    type V = ProvisioningModel;

    open spec fn view(&self) -> ProvisioningModel {
        match *self {
            Provisioning::Wait(next) => ProvisioningModel::Wait(next),
            Provisioning::Finished(r) => ProvisioningModel::Finished(outcome_view(r)),
        }
    }
}

/// Where provisioning stands after a frame.
pub open spec fn provisioning_of(frame: Frame) -> ProvisioningModel {
    match frame {
        Frame::Message(DeviceToHost::WifiStatus { connected, ip }) => if connected {
            ProvisioningModel::Finished(Ok(text::text16(ip)))
        } else if text::text16(ip) == "REBOOT"@ {
            ProvisioningModel::Finished(Err("device requires reboot to apply new credentials"@))
        } else {
            ProvisioningModel::Wait(Next::Frame)
        },
        Frame::Message(_) => ProvisioningModel::Wait(Next::Frame),
        Frame::Nothing => ProvisioningModel::Wait(Next::Read),
        Frame::Bad => ProvisioningModel::Wait(Next::Reset { clear_input: false }),
    }
}

/// While waiting for the device to connect and report its IP.
pub fn provision_next(frame: &Frame) -> (p: Provisioning)
    ensures
        p@ == provisioning_of(*frame),
{
    match frame {
        Frame::Message(DeviceToHost::WifiStatus { connected, ip }) => {
            let ip = text::as_str16(ip).to_owned();
            if *connected {
                Provisioning::Finished(Ok(ip))
            } else if ip == "REBOOT".to_owned() {
                Provisioning::Finished(
                    Err("device requires reboot to apply new credentials".to_owned()),
                )
            } else {
                Provisioning::Wait(Next::Frame)
            }
        },
        Frame::Message(_) => Provisioning::Wait(Next::Frame),
        Frame::Nothing => Provisioning::Wait(Next::Read),
        Frame::Bad => Provisioning::Wait(Next::Reset { clear_input: false }),
    }
}

/// The reason to give when the device has reported nothing in time.
pub fn provision_timeout() -> (reason: String)
    ensures
        reason@ == "timed out waiting for WiFi connection"@,
{
    "timed out waiting for WiFi connection".to_owned()
}

/// The command that has a device join a network, for a name of at most 32 bytes
/// and a password of at most 64.
pub fn provision_command(ssid: &str, password: &str) -> (r: Result<WorkerCommand, String>)
    ensures
        match r {
            Ok(WorkerCommand::ProvisionWifi { ssid: s, password: p }) => {
                &&& text::utf8_len(ssid@) <= 32
                &&& text::utf8_len(password@) <= 64
                &&& text::text32(s) == ssid@
                &&& text::text64(p) == password@
            },
            Err(reason) => if text::utf8_len(ssid@) > 32 {
                reason@ == "SSID too long (max 32 chars)"@
            } else {
                text::utf8_len(password@) > 64 && reason@ == "password too long (max 64 chars)"@
            },
        },
{
    let ssid = match text::try_from32(ssid) {
        Ok(s) => s,
        Err(_) => return Err("SSID too long (max 32 chars)".to_owned()),
    };
    let password = match text::try_from64(password) {
        Ok(p) => p,
        Err(_) => return Err("password too long (max 64 chars)".to_owned()),
    };
    Ok(WorkerCommand::ProvisionWifi { ssid, password })
}

/// The address of a device on the network.
pub fn address(ip: &str, port: u16) -> (addr: String)
    ensures
        addr@ == ip@ + ":"@ + text::decimal(port as nat),
{
    let mut addr = ip.to_owned();
    addr.append(":");
    text::push_decimal(&mut addr, port as u64);
    addr
}

/// Where the link over the network stands. It is kept up until it is stopped:
/// the companion may start before the device is on, and the device may be
/// power-cycled after an established connection drops.
#[derive(Debug, Clone, Copy, PartialEq, Eq, Structural)]
pub enum Link {
    /// Try to connect.
    Connect,
    /// Serve the device.
    Run,
    /// Wait until then before trying again.
    Wait { until_ms: u64 },
    Stopped,
}

/// What happens to a link over the network.
#[derive(Debug, Clone, Copy, PartialEq, Eq, Structural)]
pub enum LinkEvent {
    /// Time has passed.
    Tick,
    /// Connecting has worked.
    Opened,
    /// Connecting has failed.
    Refused,
    /// Serving has come to an end.
    Ended,
}

/// When a wait that begins now is over.
pub open spec fn retry_at(now_ms: u64) -> u64 {
    if now_ms + RETRY_MS > u64::MAX {
        u64::MAX
    } else {
        (now_ms + RETRY_MS) as u64
    }
}

/// Where the link stands after an event.
pub open spec fn link_after(link: Link, event: LinkEvent, stop: bool, now_ms: u64) -> Link {
    match (link, event) {
        (Link::Connect, LinkEvent::Tick) => if stop {
            Link::Stopped
        } else {
            Link::Connect
        },
        (Link::Connect, LinkEvent::Opened) => Link::Run,
        (Link::Connect, LinkEvent::Refused) => Link::Wait { until_ms: retry_at(now_ms) },
        (Link::Run, LinkEvent::Ended) => if stop {
            Link::Stopped
        } else {
            Link::Wait { until_ms: retry_at(now_ms) }
        },
        (Link::Wait { until_ms }, LinkEvent::Tick) => if stop {
            Link::Stopped
        } else if now_ms >= until_ms {
            Link::Connect
        } else {
            link
        },
        _ => link,
    }
}

/// The status that an event leads to, if any.
pub open spec fn link_status(link: Link, event: LinkEvent, addr: Seq<char>) -> Option<StatusModel> {
    match (link, event) {
        (Link::Connect, LinkEvent::Opened) => Some(StatusModel::Connected(addr)),
        (Link::Connect, LinkEvent::Refused) => Some(StatusModel::Error("WiFi: connecting…"@)),
        (Link::Run, LinkEvent::Ended) => Some(StatusModel::Disconnected),
        _ => None,
    }
}

/// Follow the link over the network to the device at `addr` through an event.
pub fn link_step(link: Link, event: LinkEvent, stop: bool, now_ms: u64, addr: &String) -> (r: (
    Link,
    Option<WorkerStatus>,
))
    ensures
        r.0 == link_after(link, event, stop, now_ms),
        match r.1 {
            Some(status) => link_status(link, event, addr@) == Some(status@),
            None => link_status(link, event, addr@) is None,
        },
{
    let retry: u64 = now_ms.saturating_add(RETRY_MS);
    match (link, event) {
        (Link::Connect, LinkEvent::Tick) => {
            if stop {
                (Link::Stopped, None)
            } else {
                (Link::Connect, None)
            }
        },
        (Link::Connect, LinkEvent::Opened) => (
            Link::Run,
            Some(WorkerStatus::Connected(addr.clone())),
        ),
        (Link::Connect, LinkEvent::Refused) => (
            Link::Wait { until_ms: retry },
            Some(WorkerStatus::Error("WiFi: connecting…".to_owned())),
        ),
        (Link::Run, LinkEvent::Ended) => {
            if stop {
                (Link::Stopped, Some(WorkerStatus::Disconnected))
            } else {
                (Link::Wait { until_ms: retry }, Some(WorkerStatus::Disconnected))
            }
        },
        (Link::Wait { until_ms }, LinkEvent::Tick) => {
            if stop {
                (Link::Stopped, None)
            } else if now_ms >= until_ms {
                (Link::Connect, None)
            } else {
                (link, None)
            }
        },
        _ => (link, None),
    }
}

/// No app is listed twice, and the system's own sounds are not listed.
pub proof fn law_apps_are_distinct(sessions: Seq<SessionModel>)
    ensures
        forall|i: int, j: int|
            0 <= i < j < apps_of(sessions).len() ==> (#[trigger] apps_of(sessions)[i]).id != (
            #[trigger] apps_of(sessions)[j]).id,
        forall|i: int|
            0 <= i < apps_of(sessions).len() ==> (#[trigger] apps_of(sessions)[i]).id != 0,
    decreases sessions.len(),
{
    if sessions.len() > 0 {
        let front = sessions.drop_last();
        let apps = apps_of(sessions);
        let old_apps = apps_of(front);
        law_apps_are_distinct(front);
        law_listed_is_seen(front);
        assert forall|i: int| 0 <= i < apps.len() implies (#[trigger] apps[i]).id != 0 by {
            if i < old_apps.len() {
                assert(apps[i] == old_apps[i]);
            }
        }
        assert forall|i: int, j: int| 0 <= i < j < apps.len() implies (#[trigger] apps[i]).id != (
        #[trigger] apps[j]).id by {
            assert(apps[i] == old_apps[i]);
            if j < old_apps.len() {
                assert(apps[j] == old_apps[j]);
            } else {
                assert(seen(front, old_apps[i].id));
            }
        }
    }
}

/// What is listed is exactly what plays: every process with a session, but for
/// the system, is listed, and nothing else.
pub proof fn law_listed_is_seen(sessions: Seq<SessionModel>)
    ensures
        forall|i: int|
            0 <= i < apps_of(sessions).len() ==> seen(
                sessions,
                (#[trigger] apps_of(sessions)[i]).id,
            ),
        forall|i: int|
            0 <= i < sessions.len() && (#[trigger] sessions[i]).pid != 0 ==> ids_of(
                apps_of(sessions),
            ).contains(sessions[i].pid),
    decreases sessions.len(),
{
    if sessions.len() > 0 {
        let front = sessions.drop_last();
        let last = sessions.last();
        let apps = apps_of(sessions);
        law_listed_is_seen(front);
        assert(forall|i: int| 0 <= i < front.len() ==> front[i] == sessions[i]);
        assert forall|i: int| 0 <= i < apps.len() implies seen(
            sessions,
            (#[trigger] apps[i]).id,
        ) by {
            if i < apps_of(front).len() {
                assert(apps[i] == apps_of(front)[i]);
                let k = choose|k: int|
                    0 <= k < front.len() && (#[trigger] front[k]).pid == apps[i].id;
                assert(sessions[k].pid == apps[i].id);
            } else {
                assert(sessions[sessions.len() - 1].pid == apps[i].id);
            }
        }
        let old_ids = ids_of(apps_of(front));
        let ids = ids_of(apps);
        assert(forall|i: int| 0 <= i < old_ids.len() ==> #[trigger] ids[i] == old_ids[i]);
        assert forall|i: int| 0 <= i < sessions.len() && (#[trigger] sessions[i]).pid
            != 0 implies ids.contains(sessions[i].pid) by {
            if i < front.len() {
                assert(old_ids.contains(front[i].pid));
                let k = choose|k: int| 0 <= k < old_ids.len() && old_ids[k] == front[i].pid;
                assert(ids[k] == sessions[i].pid);
            } else if last_counts(sessions) {
                assert(ids[ids.len() - 1] == last.pid);
            } else {
                let k = choose|k: int| 0 <= k < front.len() && (#[trigger] front[k]).pid == last.pid;
                assert(old_ids.contains(front[k].pid));
                let n = choose|n: int| 0 <= n < old_ids.len() && old_ids[n] == front[k].pid;
                assert(ids[n] == last.pid);
            }
        }
    }
}

/// Volumes and mute states are known of exactly the apps that are listed.
pub proof fn law_known_is_listed(sessions: Seq<SessionModel>, pid: u32)
    ensures
        volumes_of(sessions).contains_key(pid) <==> ids_of(apps_of(sessions)).contains(pid),
        mutes_of(sessions).contains_key(pid) <==> ids_of(apps_of(sessions)).contains(pid),
    decreases sessions.len(),
{
    if sessions.len() > 0 {
        let front = sessions.drop_last();
        law_known_is_listed(front, pid);
        let old_ids = ids_of(apps_of(front));
        let ids = ids_of(apps_of(sessions));
        if last_counts(sessions) {
            assert(ids =~= old_ids.push(sessions.last().pid));
            if old_ids.contains(pid) {
                let k = choose|k: int| 0 <= k < old_ids.len() && old_ids[k] == pid;
                assert(ids[k] == pid);
            }
            if sessions.last().pid == pid {
                assert(ids[ids.len() - 1] == pid);
            }
        }
    }
}

/// Toggling mute twice comes back to where it was.
pub proof fn law_toggle_twice(s: SessionState, app_id: u32)
    ensures
        ({
            let toggle = DeviceMessage::MuteToggle { app_id };
            let once = SessionState {
                mutes: s.mutes.insert(app_id, !s.muted(app_id)),
                ..s
            };
            &&& s.request(toggle) == (RequestModel::ChangeMute { app_id, muted: !s.muted(app_id) })
            &&& once.request(toggle) == (RequestModel::ChangeMute { app_id, muted: s.muted(app_id) })
        }),
{
}

/// Whoever asks for provisioning is answered once: after the device's report, a
/// second report and the deadline have no effect.
pub proof fn law_answered_once(s: SessionState, connected: bool, ip: Seq<char>, msg: DeviceMessage)
    requires
        s.pending,
    ensures
        ({
            let report = DeviceMessage::WifiStatus { connected, ip };
            &&& s.request(report) is Provisioned
            &&& !s.after(report).pending
            &&& s.after(report).deadline is None
            &&& !(s.after(report).request(msg) is Provisioned)
        }),
{
}

/// Whoever asks for provisioning is not left waiting: without a report the
/// session gives up exactly when the device's time is over, and a turn that
/// takes the command does not give up on it.
pub proof fn law_provisioning_times_out(
    s: SessionState,
    command: WorkerCommand,
    now_ms: u64,
    later_ms: u64,
)
    requires
        now_ms + PROVISION_MS <= u64::MAX,
    ensures
        ({
            let asked = s.turned(now_ms, Some(command));
            &&& asked.pending
            &&& asked.late(later_ms) <==> later_ms - now_ms > PROVISION_MS
            &&& asked.late(later_ms) ==> !asked.turned(later_ms, None).pending
        }),
{
}

/// What provisioning over USB comes to with the frames that are buffered, in
/// order; `None` where more bytes are needed.
pub open spec fn provisioning_over(frames: Seq<Frame>) -> Option<Result<Seq<char>, Seq<char>>>
    decreases frames.len(),
{
    if frames.len() == 0 {
        None
    } else {
        match provisioning_of(frames[0]) {
            ProvisioningModel::Finished(outcome) => Some(outcome),
            ProvisioningModel::Wait(Next::Frame) => provisioning_over(frames.skip(1)),
            ProvisioningModel::Wait(_) => None,
        }
    }
}

/// A device that reports its address ends provisioning with it, whatever else
/// it has sent before in the same bytes.
pub proof fn law_report_ends_provisioning(
    frames: Seq<Frame>,
    i: int,
    ip: heapless::String<16>,
)
    requires
        0 <= i < frames.len(),
        frames[i] == Frame::Message(DeviceToHost::WifiStatus { connected: true, ip }),
        forall|j: int|
            0 <= j < i ==> (#[trigger] frames[j]) is Message && !(provisioning_of(
                frames[j],
            ) is Finished),
    ensures
        provisioning_over(frames) == Some(Ok::<Seq<char>, Seq<char>>(text::text16(ip))),
    decreases i,
{
    if i > 0 {
        let rest = frames.skip(1);
        assert(frames[0] is Message);
        assert(forall|j: int| 0 <= j < rest.len() ==> #[trigger] rest[j] == frames[j + 1]);
        law_report_ends_provisioning(rest, i - 1, ip);
    }
}

/// The device after it has heard the messages in order.
pub open spec fn heard_all(m: DeviceModel, msgs: Seq<HostMessage>) -> DeviceModel
    decreases msgs.len(),
{
    if msgs.len() == 0 {
        m
    } else {
        heard_all(m, msgs.drop_last()).heard(msgs.last())
    }
}

/// The device shows the app, with its icon where there is one.
pub open spec fn shows(m: DeviceModel, app: App, icon: Option<Seq<u8>>) -> bool {
    &&& m.selected == Some(app.id)
    &&& m.name() == app.name
    &&& m.volume == app.volume
    &&& m.muted == app.muted
    &&& m.icon == match icon {
        Some(pixels) => pixels,
        None => Seq::empty(),
    }
}

proof fn lemma_opening(
    m: DeviceModel,
    all: Seq<App>,
    apps: Seq<App>,
    icons: Map<u32, Seq<u8>>,
    head: Seq<HostMessage>,
)
    requires
        all.len() > 0,
        apps.len() > 0 ==> apps[0] == all[0],
        head == seq![HostMessage::SetAppList(all), HostMessage::SetSelectedApp(all[0].id)],
    ensures
        ({
            let then = heard_all(m, head + icon_messages(apps, icons));
            &&& then.apps == all
            &&& then.idx == 0
            &&& shows(
                then,
                all[0],
                if apps.len() > 0 && icons.contains_key(all[0].id) {
                    Some(icons[all[0].id])
                } else {
                    None
                },
            )
        }),
    decreases apps.len(),
{
    if apps.len() == 0 {
        assert(head + icon_messages(apps, icons) =~= head);
        assert(head.drop_last() =~= seq![HostMessage::SetAppList(all)]);
        assert(head.drop_last().drop_last() =~= Seq::<HostMessage>::empty());
        reveal_with_fuel(heard_all, 3);
    } else {
        let front = apps.drop_last();
        lemma_opening(m, all, front, icons, head);
        let msgs = head + icon_messages(apps, icons);
        if icons.contains_key(apps.last().id) {
            assert(msgs.drop_last() =~= head + icon_messages(front, icons));
        }
        if apps.len() == 1 {
            assert(apps.last() == all[0]);
        }
    }
}

/// The opening leaves the device with the list, showing the first app with its
/// icon, whatever it showed before.
pub proof fn law_opening_shows_first(m: DeviceModel, apps: Seq<App>, icons: Map<u32, Seq<u8>>)
    requires
        apps.len() > 0,
    ensures
        ({
            let then = heard_all(m, opening(apps, icons));
            &&& then.apps == apps
            &&& then.idx == 0
            &&& shows(
                then,
                apps[0],
                if icons.contains_key(apps[0].id) {
                    Some(icons[apps[0].id])
                } else {
                    None
                },
            )
        }),
{
    lemma_opening(
        m,
        apps,
        apps,
        icons,
        seq![HostMessage::SetAppList(apps), HostMessage::SetSelectedApp(apps[0].id)],
    );
}

/// After a swipe, what the companion answers leaves the device showing the app
/// with the volume and the icon that the companion knows of.
pub proof fn law_selection_is_answered(m: DeviceModel, s: SessionState, app_id: u32)
    requires
        m.selected == Some(app_id),
        s.volumes.contains_key(app_id),
        s.icons.contains_key(app_id),
    ensures
        s.request(DeviceMessage::AppSelected(app_id)) == RequestModel::Push(s.app_messages(app_id)),
        heard_all(m, s.app_messages(app_id)).volume == s.volumes[app_id].level,
        heard_all(m, s.app_messages(app_id)).icon == s.icons[app_id],
        heard_all(m, s.app_messages(app_id)).selected == Some(app_id),
{
    let msgs = s.app_messages(app_id);
    let first = HostMessage::SetVolume { app_id, level: s.volumes[app_id].level };
    assert(msgs.drop_last() =~= seq![first]);
    assert(msgs.drop_last().drop_last() =~= Seq::<HostMessage>::empty());
    reveal_with_fuel(heard_all, 3);
}

/// The opening's icons are those of listed apps, and every listed app with an
/// icon gets it.
pub proof fn law_opening_icons(apps: Seq<App>, icons: Map<u32, Seq<u8>>)
    ensures
        forall|i: int|
            0 <= i < icon_messages(apps, icons).len() ==> ((#[trigger] icon_messages(
                apps,
                icons,
            )[i]) matches HostMessage::SetAppIcon { app_id, pixels } && icons.contains_key(app_id)
                && icons[app_id] == pixels && ids_of(apps).contains(app_id)),
        forall|i: int|
            0 <= i < apps.len() && icons.contains_key((#[trigger] apps[i]).id) ==> icon_messages(
                apps,
                icons,
            ).contains(
                HostMessage::SetAppIcon { app_id: apps[i].id, pixels: icons[apps[i].id] },
            ),
    decreases apps.len(),
{
    if apps.len() > 0 {
        let front = apps.drop_last();
        law_opening_icons(front, icons);
        let old_msgs = icon_messages(front, icons);
        let msgs = icon_messages(apps, icons);
        let old_ids = ids_of(front);
        let ids = ids_of(apps);
        assert(forall|i: int| 0 <= i < old_ids.len() ==> #[trigger] ids[i] == old_ids[i]);
        assert(forall|i: int| 0 <= i < old_msgs.len() ==> #[trigger] msgs[i] == old_msgs[i]);
        assert forall|i: int| 0 <= i < msgs.len() implies ((
        #[trigger] msgs[i]) matches HostMessage::SetAppIcon { app_id, pixels }
            && icons.contains_key(app_id) && icons[app_id] == pixels && ids.contains(app_id)) by {
            if i < old_msgs.len() {
                assert(msgs[i] == old_msgs[i]);
                let id = old_msgs[i]->SetAppIcon_app_id;
                assert(old_ids.contains(id));
                let k = choose|k: int| 0 <= k < old_ids.len() && old_ids[k] == id;
                assert(ids[k] == id);
            } else {
                assert(ids[ids.len() - 1] == apps.last().id);
            }
        }
        assert forall|i: int|
            0 <= i < apps.len() && icons.contains_key((#[trigger] apps[i]).id) implies msgs.contains(
            HostMessage::SetAppIcon { app_id: apps[i].id, pixels: icons[apps[i].id] },
        ) by {
            let want = HostMessage::SetAppIcon { app_id: apps[i].id, pixels: icons[apps[i].id] };
            if i < front.len() {
                assert(front[i] == apps[i]);
                assert(old_msgs.contains(want));
                let k = choose|k: int| 0 <= k < old_msgs.len() && old_msgs[k] == want;
                assert(msgs[k] == want);
            } else {
                assert(msgs[msgs.len() - 1] == want);
            }
        }
    }
}

/// A companion that keeps its heartbeat is not taken for gone, even where a
/// heartbeat has got lost.
pub proof fn law_heartbeat_keeps_connection(m: DeviceModel)
    requires
        backlight::ticks_between(m.last_host, m.tick) * 1000 <= 2 * HEARTBEAT_MS * TICKS_PER_SEC,
    ensures
        !m.lost(),
        m.settled().apps == m.apps,
        m.settled().selected == m.selected,
{
}

/// Turning the knob moves the selected app's volume, on the PC and on the
/// display: the device asks for a movement from what is known, and what the
/// volume then is gets known to the companion and shown by the device.
pub proof fn law_turn_moves_volume(
    m: DeviceModel,
    s: SessionState,
    app_id: u32,
    count: i32,
    to: Volume,
)
    requires
        m.selected == Some(app_id),
        count != m.last_count,
    ensures
        ({
            let asked = DeviceMessage::VolumeDelta { app_id, delta: m.delta(count) };
            let told = HostMessage::SetVolume { app_id, level: to.level };
            let known = SessionState { volumes: s.volumes.insert(app_id, to), ..s };
            &&& m.turn_steps(count).last() == Step::Send(asked)
            &&& s.request(asked) == (RequestModel::ChangeVolume {
                app_id,
                delta: m.delta(count),
                from: s.volume(app_id),
            })
            &&& known.volume(app_id) == to
            &&& m.turned(count).heard(told).volume == to.level
            &&& m.turned(count).heard(told).selected == Some(app_id)
        }),
{
}

/// A tap on a lit screen mutes the selected app, or unmutes it, on the PC and on
/// the display.
pub proof fn law_tap_toggles_mute(m: DeviceModel, s: SessionState, app_id: u32)
    requires
        m.selected == Some(app_id),
        !m.dark(),
    ensures
        ({
            let tap = Some(Gesture::SingleTap);
            let asked = DeviceMessage::MuteToggle { app_id };
            let muted = !s.muted(app_id);
            let known = SessionState { mutes: s.mutes.insert(app_id, muted), ..s };
            &&& m.touch_steps(tap).contains(Step::Send(asked))
            &&& s.request(asked) == (RequestModel::ChangeMute { app_id, muted })
            &&& known.muted(app_id) == muted
            &&& m.touched(tap, false).heard(HostMessage::SetMute { app_id, muted }).muted == muted
        }),
{
    let steps = m.touch_steps(Some(Gesture::SingleTap));
    let asked = Step::Send(DeviceMessage::MuteToggle { app_id });
    let at: int = if m.backlight.wake_duty() is Some {
        2
    } else {
        1
    };
    assert(steps[at] == asked);
}

/// A link that nobody stops is tried again after every end and every failure;
/// one that is stopped stays so.
pub proof fn law_link_is_kept_up(now_ms: u64, later_ms: u64, stop: bool, event: LinkEvent)
    requires
        later_ms >= retry_at(now_ms),
    ensures
        link_after(
            link_after(Link::Connect, LinkEvent::Refused, false, now_ms),
            LinkEvent::Tick,
            false,
            later_ms,
        ) == Link::Connect,
        link_after(
            link_after(Link::Run, LinkEvent::Ended, false, now_ms),
            LinkEvent::Tick,
            false,
            later_ms,
        ) == Link::Connect,
        link_after(Link::Stopped, event, stop, now_ms) == Link::Stopped,
{
}

/// The session is the first of a process that is not the system.
pub open spec fn is_first(sessions: Seq<SessionModel>, i: int) -> bool {
    &&& 0 <= i < sessions.len()
    &&& sessions[i].pid != 0
    &&& forall|j: int| 0 <= j < i ==> (#[trigger] sessions[j]).pid != sessions[i].pid
}

/// The session is the last of a process that is not the system.
pub open spec fn is_last(sessions: Seq<SessionModel>, i: int) -> bool {
    &&& 0 <= i < sessions.len()
    &&& sessions[i].pid != 0
    &&& forall|j: int| i < j < sessions.len() ==> (#[trigger] sessions[j]).pid != sessions[i].pid
}

/// Where in the list of apps the first session of a process stands.
proof fn lemma_listed_at(sessions: Seq<SessionModel>, i: int) -> (k: int)
    requires
        is_first(sessions, i),
    ensures
        0 <= k < apps_of(sessions).len(),
        apps_of(sessions)[k] == (App {
            id: sessions[i].pid,
            name: sessions[i].name,
            volume: sessions[i].volume.level,
            muted: sessions[i].muted,
        }),
        volumes_of(sessions).contains_key(sessions[i].pid),
        volumes_of(sessions)[sessions[i].pid] == sessions[i].volume,
        mutes_of(sessions).contains_key(sessions[i].pid),
        mutes_of(sessions)[sessions[i].pid] == sessions[i].muted,
        sessions[i].path.len() > 0 ==> icon_sources_of(sessions).contains(
            (sessions[i].pid, sessions[i].path),
        ),
    decreases sessions.len(),
{
    let front = sessions.drop_last();
    let last = sessions.last();
    if i == sessions.len() - 1 {
        assert(!seen(front, last.pid)) by {
            if seen(front, last.pid) {
                let j = choose|j: int| 0 <= j < front.len() && (#[trigger] front[j]).pid == last.pid;
                assert(sessions[j].pid == last.pid);
            }
        }
        let sources = icon_sources_of(sessions);
        if last.path.len() > 0 {
            assert(sources[sources.len() - 1] == (last.pid, last.path));
        }
        apps_of(sessions).len() - 1
    } else {
        assert(forall|j: int| 0 <= j < front.len() ==> #[trigger] front[j] == sessions[j]);
        assert(is_first(front, i));
        let k = lemma_listed_at(front, i);
        if last_counts(sessions) {
            assert(last.pid != sessions[i].pid) by {
                assert(front[i].pid == sessions[i].pid);
            }
        }
        let old_sources = icon_sources_of(front);
        let sources = icon_sources_of(sessions);
        if sessions[i].path.len() > 0 {
            let wanted = (sessions[i].pid, sessions[i].path);
            let n = choose|n: int| 0 <= n < old_sources.len() && old_sources[n] == wanted;
            assert(sources[n] == wanted);
        }
        k
    }
}

/// Every process that plays is listed with the name, the volume and the mute
/// state of its first session, which are also what is known of it, and its icon
/// is taken from the executable of that session.
pub proof fn law_first_session_is_listed(sessions: Seq<SessionModel>, i: int)
    requires
        is_first(sessions, i),
    ensures
        apps_of(sessions).contains(
            App {
                id: sessions[i].pid,
                name: sessions[i].name,
                volume: sessions[i].volume.level,
                muted: sessions[i].muted,
            },
        ),
        volumes_of(sessions).contains_key(sessions[i].pid),
        volumes_of(sessions)[sessions[i].pid] == sessions[i].volume,
        mutes_of(sessions).contains_key(sessions[i].pid),
        mutes_of(sessions)[sessions[i].pid] == sessions[i].muted,
        sessions[i].path.len() > 0 ==> icon_sources_of(sessions).contains(
            (sessions[i].pid, sessions[i].path),
        ),
{
    let k = lemma_listed_at(sessions, i);
    assert(apps_of(sessions)[k].id == sessions[i].pid);
}

/// The apps are listed in the order in which their processes first play.
pub proof fn law_list_keeps_order(sessions: Seq<SessionModel>, i: int, j: int, a: int, b: int)
    requires
        is_first(sessions, i),
        is_first(sessions, j),
        i < j,
        0 <= a < apps_of(sessions).len(),
        0 <= b < apps_of(sessions).len(),
        apps_of(sessions)[a].id == sessions[i].pid,
        apps_of(sessions)[b].id == sessions[j].pid,
    ensures
        a < b,
    decreases sessions.len(),
{
    let front = sessions.drop_last();
    let apps = apps_of(sessions);
    assert(forall|n: int| 0 <= n < front.len() ==> #[trigger] front[n] == sessions[n]);
    law_apps_are_distinct(sessions);
    assert(is_first(front, i));
    let k = lemma_listed_at(front, i);
    assert(apps[k] == apps_of(front)[k]);
    assert(a == k) by {
        if a < k {
            assert(apps[a].id != apps[k].id);
        } else if k < a {
            assert(apps[k].id != apps[a].id);
        }
    }
    if j == sessions.len() - 1 {
        let e = lemma_listed_at(sessions, j);
        assert(last_counts(sessions)) by {
            if seen(front, sessions.last().pid) {
                let n = choose|n: int|
                    0 <= n < front.len() && (#[trigger] front[n]).pid == sessions.last().pid;
                assert(sessions[n].pid == sessions[j].pid);
            }
        }
        let end = apps.len() - 1;
        assert(apps[end].id == sessions[j].pid);
        assert(b == end) by {
            if b < end {
                assert(apps[b].id != apps[end].id);
            }
        }
    } else {
        assert(is_first(front, j));
        let e = lemma_listed_at(front, j);
        assert(apps[e] == apps_of(front)[e]);
        assert(b == e) by {
            if b < e {
                assert(apps[b].id != apps[e].id);
            } else if e < b {
                assert(apps[e].id != apps[b].id);
            }
        }
        law_list_keeps_order(front, i, j, a, b);
    }
}

/// Icons are taken from no executable but those of listed apps.
pub proof fn law_icon_sources_are_listed(sessions: Seq<SessionModel>, k: int)
    requires
        0 <= k < icon_sources_of(sessions).len(),
    ensures
        exists|i: int| #[trigger] is_first(sessions, i) && sessions[i].path.len() > 0
            && icon_sources_of(sessions)[k] == (sessions[i].pid, sessions[i].path),
    decreases sessions.len(),
{
    let front = sessions.drop_last();
    assert(forall|n: int| 0 <= n < front.len() ==> #[trigger] front[n] == sessions[n]);
    if k < icon_sources_of(front).len() {
        law_icon_sources_are_listed(front, k);
        let i = choose|i: int| #[trigger] is_first(front, i) && front[i].path.len() > 0
            && icon_sources_of(front)[k] == (front[i].pid, front[i].path);
        assert forall|j: int| 0 <= j < i implies (#[trigger] sessions[j]).pid
            != sessions[i].pid by {
            assert(front[j].pid != front[i].pid);
        }
        assert(is_first(sessions, i));
    } else {
        let i = sessions.len() - 1;
        assert forall|j: int| 0 <= j < i implies (#[trigger] sessions[j]).pid
            != sessions[i].pid by {
            assert(front[j].pid == sessions[j].pid);
        }
        assert(is_first(sessions, i));
    }
}

proof fn lemma_last_counts(
    volumes: Map<u32, Volume>,
    mutes: Map<u32, bool>,
    sessions: Seq<SessionModel>,
    i: int,
)
    requires
        is_last(sessions, i),
    ensures
        ({
            let pid = sessions[i].pid;
            &&& with_volumes(volumes, sessions).contains_key(pid)
            &&& with_volumes(volumes, sessions)[pid] == sessions[i].volume
            &&& with_mutes(mutes, sessions).contains_key(pid)
            &&& with_mutes(mutes, sessions)[pid] == sessions[i].muted
        }),
    decreases sessions.len(),
{
    if i < sessions.len() - 1 {
        let front = sessions.drop_last();
        assert(forall|n: int| 0 <= n < front.len() ==> #[trigger] front[n] == sessions[n]);
        assert(sessions[sessions.len() - 1].pid != sessions[i].pid);
        assert(is_last(front, i));
        lemma_last_counts(volumes, mutes, front, i);
    }
}

/// After a refresh the companion is in step with the PC: of every process that
/// plays, it knows the volume and the mute state of its last session. So a tap
/// asks for the opposite of how the PC has it, a turn starts from the PC's
/// volume, and a device that selects the app is told that volume.
pub proof fn law_refresh_is_in_step(
    s: SessionState,
    sessions: Seq<SessionModel>,
    i: int,
    delta: i16,
)
    requires
        is_last(sessions, i),
    ensures
        ({
            let then = s.refreshed(sessions);
            let app_id = sessions[i].pid;
            &&& then.volume(app_id) == sessions[i].volume
            &&& then.muted(app_id) == sessions[i].muted
            &&& then.request(DeviceMessage::MuteToggle { app_id }) == (RequestModel::ChangeMute {
                app_id,
                muted: !sessions[i].muted,
            })
            &&& then.request(DeviceMessage::VolumeDelta { app_id, delta }) == (
            RequestModel::ChangeVolume { app_id, delta, from: sessions[i].volume })
            &&& then.app_messages(app_id).len() > 0
            &&& then.app_messages(app_id)[0] == (HostMessage::SetVolume {
                app_id,
                level: sessions[i].volume.level,
            })
        }),
{
    lemma_last_counts(s.volumes, s.mutes, sessions, i);
}

/// A refresh changes nothing of what is known of processes that do not play any
/// more, nor anything but volumes and mute states.
pub proof fn law_refresh_keeps_the_rest(s: SessionState, sessions: Seq<SessionModel>, pid: u32)
    requires
        pid == 0 || forall|i: int| 0 <= i < sessions.len() ==> (#[trigger] sessions[i]).pid != pid,
    ensures
        ({
            let then = s.refreshed(sessions);
            &&& then.volume(pid) == s.volume(pid)
            &&& then.muted(pid) == s.muted(pid)
            &&& then.volumes.contains_key(pid) == s.volumes.contains_key(pid)
            &&& then.mutes.contains_key(pid) == s.mutes.contains_key(pid)
            &&& then.ids == s.ids
            &&& then.icons == s.icons
            &&& then.last_refresh == s.last_refresh
            &&& then.last_heartbeat == s.last_heartbeat
            &&& then.pending == s.pending
            &&& then.deadline == s.deadline
        }),
    decreases sessions.len(),
{
    if sessions.len() > 0 {
        let front = sessions.drop_last();
        assert(forall|n: int| 0 <= n < front.len() ==> #[trigger] front[n] == sessions[n]);
        assert(sessions[sessions.len() - 1] == sessions.last());
        law_refresh_keeps_the_rest(s, front, pid);
    }
}

/// The process plays and is not among `ids`, or the other way round.
pub open spec fn outdated(ids: Seq<u32>, sessions: Seq<SessionModel>, pid: u32) -> bool {
    let plays = pid != 0 && exists|i: int|
        0 <= i < sessions.len() && (#[trigger] sessions[i]).pid == pid;
    ids.contains(pid) != plays
}

/// A refresh has news exactly where a process has begun or ended playing since
/// the device was told: some process plays and is not among those it was told
/// of, or the other way round.
pub proof fn law_refresh_notices_changes(s: SessionState, sessions: Seq<SessionModel>, pid: u32)
    ensures
        outdated(s.ids, sessions, pid) ==> s.changed(sessions),
        s.changed(sessions) ==> exists|id: u32| #[trigger] outdated(s.ids, sessions, id),
{
    let now = ids_of(apps_of(sessions));
    lemma_listed_ids(sessions, pid);
    if s.changed(sessions) {
        if exists|i: int| 0 <= i < s.ids.len() && !now.contains(#[trigger] s.ids[i]) {
            let i = choose|i: int| 0 <= i < s.ids.len() && !now.contains(#[trigger] s.ids[i]);
            let id = s.ids[i];
            lemma_listed_ids(sessions, id);
            assert(s.ids.contains(id));
            assert(outdated(s.ids, sessions, id));
        } else {
            let i = choose|i: int| 0 <= i < now.len() && !s.ids.contains(#[trigger] now[i]);
            let id = now[i];
            lemma_listed_ids(sessions, id);
            assert(now.contains(id));
            assert(outdated(s.ids, sessions, id));
        }
    } else if s.ids.contains(pid) {
        let k = choose|k: int| 0 <= k < s.ids.len() && s.ids[k] == pid;
        assert(now.contains(s.ids[k]));
    } else if now.contains(pid) {
        let k = choose|k: int| 0 <= k < now.len() && now[k] == pid;
        assert(s.ids.contains(now[k]));
    }
}

proof fn lemma_listed_ids(sessions: Seq<SessionModel>, id: u32)
    ensures
        ids_of(apps_of(sessions)).contains(id) == (id != 0 && seen(sessions, id)),
{
    let now = ids_of(apps_of(sessions));
    law_listed_is_seen(sessions);
    law_apps_are_distinct(sessions);
    if now.contains(id) {
        let k = choose|k: int| 0 <= k < now.len() && now[k] == id;
        assert(apps_of(sessions)[k].id == id);
    }
    if id != 0 && seen(sessions, id) {
        let i = choose|i: int| 0 <= i < sessions.len() && (#[trigger] sessions[i]).pid == id;
        assert(sessions[i].pid != 0);
    }
}

/// Icons are looked for exactly where one is missing: for each session, in order,
/// of a process that is not the system's, whose icon is not known and whose
/// executable is. Two lists are gone through as one.
pub proof fn law_missing_icons(
    known: Map<u32, Seq<u8>>,
    some: Seq<SessionModel>,
    more: Seq<SessionModel>,
    s: SessionModel,
)
    ensures
        missing_icons(known, seq![s]) == (if s.pid == 0 || known.contains_key(s.pid) || s.path.len()
            == 0 {
            Seq::<(u32, Seq<char>)>::empty()
        } else {
            seq![(s.pid, s.path)]
        }),
        missing_icons(known, some + more) == missing_icons(known, some) + missing_icons(
            known,
            more,
        ),
    decreases more.len(),
{
    reveal_with_fuel(missing_icons, 2);
    assert(seq![s].drop_last() =~= Seq::<SessionModel>::empty());
    assert(missing_icons(known, seq![s]) =~= (if s.pid == 0 || known.contains_key(s.pid)
        || s.path.len() == 0 {
        Seq::<(u32, Seq<char>)>::empty()
    } else {
        seq![(s.pid, s.path)]
    }));
    if more.len() == 0 {
        assert(some + more =~= some);
        assert(missing_icons(known, some) + missing_icons(known, more) =~= missing_icons(
            known,
            some,
        ));
    } else {
        law_missing_icons(known, some, more.drop_last(), s);
        assert((some + more).drop_last() =~= some + more.drop_last());
        assert((some + more).last() == more.last());
        assert(missing_icons(known, some + more) =~= missing_icons(known, some) + missing_icons(
            known,
            more,
        ));
    }
}

/// Pushing the apps once lists each session whose executable is known, in order,
/// and no other.
pub proof fn law_pushed_apps(some: Seq<SessionModel>, more: Seq<SessionModel>, s: SessionModel)
    ensures
        pushed_apps_of(seq![s]) == (if s.path.len() == 0 {
            Seq::<App>::empty()
        } else {
            seq![App { id: s.pid, name: s.name, volume: s.volume.level, muted: s.muted }]
        }),
        pushed_apps_of(some + more) == pushed_apps_of(some) + pushed_apps_of(more),
    decreases more.len(),
{
    reveal_with_fuel(pushed_apps_of, 2);
    assert(seq![s].drop_last() =~= Seq::<SessionModel>::empty());
    assert(pushed_apps_of(seq![s]) =~= (if s.path.len() == 0 {
        Seq::<App>::empty()
    } else {
        seq![App { id: s.pid, name: s.name, volume: s.volume.level, muted: s.muted }]
    }));
    if more.len() == 0 {
        assert(some + more =~= some);
        assert(pushed_apps_of(some) + pushed_apps_of(more) =~= pushed_apps_of(some));
    } else {
        law_pushed_apps(some, more.drop_last(), s);
        assert((some + more).drop_last() =~= some + more.drop_last());
        assert((some + more).last() == more.last());
        assert(pushed_apps_of(some + more) =~= pushed_apps_of(some) + pushed_apps_of(more));
    }
}

/// The icons are sent in the order of the list, one for each entry that has one.
pub proof fn law_icons_in_order(
    some: Seq<App>,
    more: Seq<App>,
    a: App,
    icons: Map<u32, Seq<u8>>,
)
    ensures
        icon_messages(seq![a], icons) == (if icons.contains_key(a.id) {
            seq![HostMessage::SetAppIcon { app_id: a.id, pixels: icons[a.id] }]
        } else {
            Seq::<HostMessage>::empty()
        }),
        icon_messages(some + more, icons) == icon_messages(some, icons) + icon_messages(
            more,
            icons,
        ),
    decreases more.len(),
{
    reveal_with_fuel(icon_messages, 2);
    assert(seq![a].drop_last() =~= Seq::<App>::empty());
    assert(icon_messages(seq![a], icons) =~= (if icons.contains_key(a.id) {
        seq![HostMessage::SetAppIcon { app_id: a.id, pixels: icons[a.id] }]
    } else {
        Seq::<HostMessage>::empty()
    }));
    if more.len() == 0 {
        assert(some + more =~= some);
        assert(icon_messages(some, icons) + icon_messages(more, icons) =~= icon_messages(
            some,
            icons,
        ));
    } else {
        law_icons_in_order(some, more.drop_last(), a, icons);
        assert((some + more).drop_last() =~= some + more.drop_last());
        assert((some + more).last() == more.last());
        assert(icon_messages(some + more, icons) =~= icon_messages(some, icons) + icon_messages(
            more,
            icons,
        ));
    }
}

/// The opening tells the list first, then the first app as the selected one.
pub proof fn law_opening_order(apps: Seq<App>, icons: Map<u32, Seq<u8>>)
    requires
        apps.len() > 0,
    ensures
        opening(apps, icons)[0] == HostMessage::SetAppList(apps),
        opening(apps, icons)[1] == HostMessage::SetSelectedApp(apps[0].id),
        forall|i: int|
            2 <= i < opening(apps, icons).len() ==> (#[trigger] opening(apps, icons)[i])
                is SetAppIcon,
{
    law_opening_icons(apps, icons);
    assert forall|i: int| 2 <= i < opening(apps, icons).len() implies (#[trigger] opening(
        apps,
        icons,
    )[i]) is SetAppIcon by {
        assert(opening(apps, icons)[i] == icon_messages(apps, icons)[i - 2]);
    }
}

/// What each message of the device asks for, of a companion that knows the app
/// and of one that does not: an unknown app counts as half loud and not muted.
pub proof fn law_requests(s: SessionState, app_id: u32, delta: i16)
    ensures
        s.request(DeviceMessage::VolumeDelta { app_id, delta }) == (RequestModel::ChangeVolume {
            app_id,
            delta,
            from: if s.volumes.contains_key(app_id) {
                s.volumes[app_id]
            } else {
                Volume { bits: 0x3F00_0000, level: 50 }
            },
        }),
        s.request(DeviceMessage::MuteToggle { app_id }) == (RequestModel::ChangeMute {
            app_id,
            muted: !(s.mutes.contains_key(app_id) && s.mutes[app_id]),
        }),
        s.request(DeviceMessage::AppSelected(app_id)) is Push,
        s.volumes.contains_key(app_id) ==> s.app_messages(app_id).contains(
            HostMessage::SetVolume { app_id, level: s.volumes[app_id].level },
        ),
        s.icons.contains_key(app_id) ==> s.app_messages(app_id).contains(
            HostMessage::SetAppIcon { app_id, pixels: s.icons[app_id] },
        ),
        forall|i: int|
            0 <= i < s.app_messages(app_id).len() ==> match #[trigger] s.app_messages(app_id)[i] {
                HostMessage::SetVolume { app_id: id, level } => id == app_id
                    && s.volumes.contains_key(app_id) && level == s.volumes[app_id].level,
                HostMessage::SetAppIcon { app_id: id, pixels } => id == app_id
                    && s.icons.contains_key(app_id) && pixels == s.icons[app_id],
                _ => false,
            },
{
    let msgs = s.app_messages(app_id);
    if s.volumes.contains_key(app_id) {
        assert(msgs[0] == HostMessage::SetVolume { app_id, level: s.volumes[app_id].level });
    }
    if s.icons.contains_key(app_id) {
        assert(msgs[msgs.len() - 1] == HostMessage::SetAppIcon {
            app_id,
            pixels: s.icons[app_id],
        });
    }
}

/// Messages that only say that the device is there ask for nothing, and only a
/// report on the network changes what the session is at.
pub proof fn law_other_messages(s: SessionState, msg: DeviceMessage)
    ensures
        msg is Ready || msg is Pong || msg is Echo || msg is EncoderDelta || msg is Gesture
            || msg is Ack ==> s.request(msg) == RequestModel::Nothing,
        !(msg is WifiStatus) ==> s.after(msg) == s,
        !s.pending ==> s.after(msg) == s && (msg is WifiStatus ==> s.request(msg)
            == RequestModel::Nothing),
{
}

/// A report answers whoever waits with the address where the device has joined,
/// and with a reason where it has not: that a reboot is needed, where it says
/// so. Nothing else that is known changes.
pub proof fn law_report_is_passed_on(s: SessionState, connected: bool, ip: Seq<char>)
    requires
        s.pending,
    ensures
        ({
            let report = DeviceMessage::WifiStatus { connected, ip };
            &&& s.request(report) matches RequestModel::Provisioned(outcome)
            &&& connected ==> outcome == Ok::<Seq<char>, Seq<char>>(ip)
            &&& !connected ==> outcome is Err
            &&& !connected && ip == "REBOOT"@ ==> outcome->Err_0
                == "device requires reboot to apply new WiFi credentials"@
            &&& !connected && ip != "REBOOT"@ ==> outcome->Err_0 == "WiFi connection failed"@
            &&& s.after(report) == (SessionState { pending: false, deadline: None, ..s })
        }),
{
}

/// Outside a session a report ends the waiting where it has an address or says
/// that a reboot is needed; all other messages are passed over.
pub proof fn law_provisioning_outcomes(frame: Frame)
    ensures
        match frame {
            Frame::Message(DeviceToHost::WifiStatus { connected, ip }) => {
                &&& connected ==> provisioning_of(frame) == ProvisioningModel::Finished(
                    Ok(text::text16(ip)),
                )
                &&& !connected && text::text16(ip) == "REBOOT"@ ==> provisioning_of(frame)
                    == ProvisioningModel::Finished(
                    Err("device requires reboot to apply new credentials"@),
                )
                &&& !connected && text::text16(ip) != "REBOOT"@ ==> provisioning_of(frame)
                    == ProvisioningModel::Wait(Next::Frame)
            },
            Frame::Message(_) => provisioning_of(frame) == ProvisioningModel::Wait(Next::Frame),
            Frame::Nothing => provisioning_of(frame) == ProvisioningModel::Wait(Next::Read),
            Frame::Bad => provisioning_of(frame) == ProvisioningModel::Wait(
                Next::Reset { clear_input: false },
            ),
        },
{
}

/// Heartbeats come every two seconds and looks at the sessions every five: one
/// is due exactly when so much time has passed since the last, which starts the
/// time anew.
pub proof fn law_schedules(s: SessionState, now_ms: u64, later_ms: u64)
    ensures
        s.beat_due(now_ms) <==> now_ms >= s.last_heartbeat + 2000,
        s.look_due(now_ms) <==> now_ms >= s.last_refresh + 5000,
        s.beat_due(now_ms) ==> (s.beaten(now_ms).beat_due(later_ms) <==> later_ms >= now_ms
            + 2000),
        s.look_due(now_ms) ==> (s.looked(now_ms).look_due(later_ms) <==> later_ms >= now_ms
            + 5000),
        !s.beat_due(now_ms) ==> s.beaten(now_ms) == s,
        !s.look_due(now_ms) ==> s.looked(now_ms) == s,
{
}

/// A turn sends what is due, and nothing else: a `Ping` where a heartbeat is
/// due, then the settings and then the command, where there are any. What is
/// known of the apps stays as it is.
pub proof fn law_turn_sends_what_is_due(
    s: SessionState,
    now_ms: u64,
    settings: Option<HostToDevice>,
    command: Option<WorkerCommand>,
)
    ensures
        ({
            let msgs = s.turn_messages(now_ms, settings, command);
            let beat: int = if now_ms - s.last_heartbeat >= 2000 {
                1
            } else {
                0
            };
            let set: int = if settings is Some {
                1
            } else {
                0
            };
            let told: int = if command is Some {
                1
            } else {
                0
            };
            let then = s.turned(now_ms, command);
            &&& msgs.len() == beat + set + told
            &&& beat == 1 ==> msgs[0] == HostMessage::Ping
            &&& set == 1 ==> msgs[beat] == settings->0@
            &&& told == 1 ==> msgs[beat + set] == command_message(command->0)
            &&& then.last_heartbeat == (if beat == 1 {
                now_ms
            } else {
                s.last_heartbeat
            })
            &&& then.last_refresh == (if now_ms - s.last_refresh >= 5000 {
                now_ms
            } else {
                s.last_refresh
            })
            &&& then.volumes == s.volumes
            &&& then.mutes == s.mutes
            &&& then.icons == s.icons
            &&& then.ids == s.ids
        }),
{
}

/// A command has the device join the network of that name, with that password.
pub proof fn law_command_is_passed_on(ssid: heapless::String<32>, password: heapless::String<64>)
    ensures
        command_message(WorkerCommand::ProvisionWifi { ssid, password }) == (
        HostMessage::SetWifiConfig { ssid: text::text32(ssid), password: text::text64(password) }),
{
}

/// The device has three seconds for its first sign of life, five for an
/// acknowledgement and thirty for joining a network.
pub proof fn law_patience(awaited: Awaited)
    ensures
        awaited is Ready ==> patience(awaited) == 3000,
        awaited is Ack ==> patience(awaited) == 5000,
        awaited is WifiStatus ==> patience(awaited) == 30000,
{
}

/// Every message is sent once, in order, and acknowledged before the next.
pub proof fn law_each_is_acknowledged(msgs: Seq<HostMessage>)
    ensures
        acknowledged(msgs).len() == 2 * msgs.len(),
        forall|i: int|
            0 <= i < msgs.len() ==> acknowledged(msgs)[2 * i] == LinkStepModel::Send(
                #[trigger] msgs[i],
            ) && acknowledged(msgs)[2 * i + 1] == LinkStepModel::Await(Awaited::Ack),
    decreases msgs.len(),
{
    if msgs.len() > 0 {
        let front = msgs.drop_last();
        law_each_is_acknowledged(front);
        assert forall|i: int| 0 <= i < msgs.len() implies acknowledged(msgs)[2 * i]
            == LinkStepModel::Send(#[trigger] msgs[i]) && acknowledged(msgs)[2 * i + 1]
            == LinkStepModel::Await(Awaited::Ack) by {
            if i < front.len() {
                assert(front[i] == msgs[i]);
            }
        }
    }
}

/// A device is greeted with a `Ping` once old input has been dropped, and its
/// sign of life is waited for then.
pub proof fn law_greeting()
    ensures
        greeting().len() == 4,
        greeting()[0] == (LinkStepModel::Drain { ms: 100 }),
        greeting()[1] == LinkStepModel::Clear,
        greeting()[2] == LinkStepModel::Send(HostMessage::Ping),
        greeting()[3] == LinkStepModel::Await(Awaited::Ready),
{
}

/// The settings that the tray shares are pushed as they are: the device then has
/// that brightness, held within 1 and 100, dims after the first time and
/// switches off after the second one more.
pub proof fn law_settings_reach_the_screen(b: BacklightShared, m: DeviceModel, later: u32)
    requires
        m.backlight.state == State::Active,
        b.dim_after_secs > 0,
        b.off_after_secs > 0,
    ensures
        ({
            let then = m.heard(b.message());
            let idle = backlight::ticks_between(m.backlight.last_activity, later);
            let dimmed = DeviceModel {
                backlight: BacklightModel { state: State::Dim, ..then.backlight },
                tick: later,
                ..then
            };
            &&& 1 <= b.pct <= 100 ==> then.backlight.active_pct == b.pct
            &&& DeviceModel { tick: later, ..then }.settled().backlight.state == State::Dim <==> idle
                >= b.dim_after_secs * 333
            &&& dimmed.settled().backlight.state == State::Off <==> idle >= b.dim_after_secs * 333
                + b.off_after_secs * 333
        }),
{
}

/// What happens to the link over the network, and what is told of it.
pub proof fn law_link_events(stop: bool, now_ms: u64, until_ms: u64, addr: Seq<char>)
    ensures
        link_after(Link::Connect, LinkEvent::Opened, stop, now_ms) == Link::Run,
        link_after(Link::Connect, LinkEvent::Refused, stop, now_ms) is Wait,
        link_after(Link::Connect, LinkEvent::Tick, stop, now_ms) == (if stop {
            Link::Stopped
        } else {
            Link::Connect
        }),
        stop ==> link_after(Link::Run, LinkEvent::Ended, stop, now_ms) == Link::Stopped,
        stop ==> link_after(Link::Wait { until_ms }, LinkEvent::Tick, stop, now_ms)
            == Link::Stopped,
        !stop ==> link_after(Link::Wait { until_ms }, LinkEvent::Tick, stop, now_ms) == (
        if now_ms >= until_ms {
            Link::Connect
        } else {
            Link::Wait { until_ms }
        }),
        !stop && now_ms + 3000 <= u64::MAX ==> {
            &&& link_after(Link::Connect, LinkEvent::Refused, stop, now_ms) == (Link::Wait {
                until_ms: (now_ms + 3000) as u64,
            })
            &&& link_after(Link::Run, LinkEvent::Ended, stop, now_ms) == (Link::Wait {
                until_ms: (now_ms + 3000) as u64,
            })
        },
        link_status(Link::Connect, LinkEvent::Opened, addr) == Some(StatusModel::Connected(addr)),
        link_status(Link::Run, LinkEvent::Ended, addr) == Some(StatusModel::Disconnected),
        link_status(Link::Connect, LinkEvent::Refused, addr) matches Some(StatusModel::Error(_)),
        link_status(Link::Wait { until_ms }, LinkEvent::Tick, addr) is None,
        link_status(Link::Connect, LinkEvent::Tick, addr) is None,
{
}

/// What is set for an app is what is known of it from then on, and what a device
/// that selects it is told; nothing else that is known changes.
pub proof fn law_what_is_set_is_known(
    s: SessionState,
    app_id: u32,
    other: u32,
    to: Volume,
    muted: bool,
    pixels: Seq<u8>,
)
    ensures
        s.with_volume(app_id, to).volume(app_id) == to,
        s.with_mute(app_id, muted).muted(app_id) == muted,
        s.with_icon(app_id, pixels).icons.contains_key(app_id),
        s.with_icon(app_id, pixels).icons[app_id] == pixels,
        s.with_volume(app_id, to).app_messages(app_id)[0] == (HostMessage::SetVolume {
            app_id,
            level: to.level,
        }),
        s.with_icon(app_id, pixels).app_messages(app_id).last() == (HostMessage::SetAppIcon {
            app_id,
            pixels,
        }),
        other != app_id ==> {
            &&& s.with_volume(app_id, to).volume(other) == s.volume(other)
            &&& s.with_mute(app_id, muted).muted(other) == s.muted(other)
            &&& s.with_icon(app_id, pixels).app_messages(other) == s.app_messages(other)
        },
        s.with_volume(app_id, to) == (SessionState {
            volumes: s.with_volume(app_id, to).volumes,
            ..s
        }),
        s.with_mute(app_id, muted) == (SessionState {
            mutes: s.with_mute(app_id, muted).mutes,
            ..s
        }),
        s.with_icon(app_id, pixels) == (SessionState {
            icons: s.with_icon(app_id, pixels).icons,
            ..s
        }),
{
}

/// A session that starts with what was prepared knows of every process the
/// volume and the mute state of its first session: a tap then asks for the
/// opposite, and a turn starts from there.
pub proof fn law_start_is_in_step(
    sessions: Seq<SessionModel>,
    icons: Map<u32, Seq<u8>>,
    now_ms: u64,
    i: int,
    delta: i16,
)
    requires
        is_first(sessions, i),
    ensures
        ({
            let app_id = sessions[i].pid;
            let s = started(
                apps_of(sessions),
                volumes_of(sessions),
                mutes_of(sessions),
                icons,
                now_ms,
            );
            &&& s.icons == icons
            &&& !s.changed(sessions)
            &&& !s.pending
            &&& s.deadline is None
            &&& forall|t: u64| t < now_ms + 2000 ==> !#[trigger] s.beat_due(t)
            &&& forall|t: u64| t < now_ms + 5000 ==> !#[trigger] s.look_due(t)
            &&& s.request(DeviceMessage::MuteToggle { app_id }) == (RequestModel::ChangeMute {
                app_id,
                muted: !sessions[i].muted,
            })
            &&& s.request(DeviceMessage::VolumeDelta { app_id, delta }) == (
            RequestModel::ChangeVolume { app_id, delta, from: sessions[i].volume })
        }),
{
    law_first_session_is_listed(sessions, i);
    let ids = ids_of(apps_of(sessions));
    assert(forall|k: int| 0 <= k < ids.len() ==> ids.contains(#[trigger] ids[k]));
}

/// `Ready` and `Pong` are signs of life and nothing else is; only an `Ack` is an
/// acknowledgement. Other messages are passed over without reading anew, and
/// where there is none, more is read.
pub proof fn law_what_is_awaited(msg: DeviceToHost, awaited: bool, recover: Next)
    ensures
        awaits_ready(Frame::Message(msg)) <==> msg is Ready || msg is Pong,
        awaits_ack(Frame::Message(msg)) <==> msg is Ack,
        !awaits_ready(Frame::Nothing) && !awaits_ready(Frame::Bad),
        !awaits_ack(Frame::Nothing) && !awaits_ack(Frame::Bad),
        after_frame(true, Frame::Message(msg), recover) == Next::Done,
        after_frame(false, Frame::Message(msg), recover) == Next::Frame,
        after_frame(awaited, Frame::Nothing, recover) == Next::Read,
        after_frame(awaited, Frame::Bad, recover) == recover,
{
}

} // verus!
