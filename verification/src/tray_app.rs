//! The companion's tray: its menu, what a click does, its tooltip and its icon.

use vstd::prelude::*;

use crate::config::{Config, Settings};
use crate::text;
use crate::worker::{BacklightShared, StatusModel, WorkerStatus};

verus! {

/// One choice of a submenu.
#[derive(Debug, PartialEq)]
pub struct Choice {
    pub label: String,
    pub value: u16,
    pub checked: bool,
}

/// What a [`Choice`] says.
pub struct ChoiceModel {
    pub label: Seq<char>,
    pub value: u16,
    pub checked: bool,
}

impl View for Choice {
    type V = ChoiceModel;

    open spec fn view(&self) -> ChoiceModel {
        ChoiceModel { label: self.label@, value: self.value, checked: self.checked }
    }
}

/// What a list of choices says.
pub open spec fn choices_view(choices: Seq<Choice>) -> Seq<ChoiceModel> {
    choices.map_values(|c: Choice| c@)
}

/// A part of the tray menu.
#[derive(Debug, PartialEq)]
pub enum Entry {
    /// The program's name, which cannot be clicked.
    Title(String),
    Separator,
    /// A labelled submenu of choices, of which the one in force is checked.
    Submenu(String, Vec<Choice>),
    /// A labelled switch.
    Check(String, bool),
    /// A labelled item.
    Item(String),
}

/// What an [`Entry`] says.
pub enum EntryModel {
    Title(Seq<char>),
    Separator,
    Submenu(Seq<char>, Seq<ChoiceModel>),
    Check(Seq<char>, bool),
    Item(Seq<char>),
}

impl View for Entry {
    type V = EntryModel;

    open spec fn view(&self) -> EntryModel {
        match *self {
            Entry::Title(label) => EntryModel::Title(label@),
            Entry::Separator => EntryModel::Separator,
            Entry::Submenu(label, choices) => EntryModel::Submenu(label@, choices_view(choices@)),
            Entry::Check(label, checked) => EntryModel::Check(label@, checked),
            Entry::Item(label) => EntryModel::Item(label@),
        }
    }
}

/// What a menu says.
pub open spec fn menu_view(menu: Seq<Entry>) -> Seq<EntryModel> {
    menu.map_values(|e: Entry| e@)
}

/// The sensitivities to choose from, in percent.
pub open spec fn sensitivities() -> Seq<u16> {
    seq![1u16, 2, 5]
}

/// The brightnesses to choose from, in percent.
pub open spec fn brightnesses() -> Seq<u16> {
    seq![25u16, 50, 75, 100]
}

/// The times before dimming to choose from, in seconds. Zero is never.
pub open spec fn dim_times() -> Seq<(u16, Seq<char>)> {
    seq![
        (10u16, "10 s"@),
        (30u16, "30 s"@),
        (60u16, "1 min"@),
        (180u16, "3 min"@),
        (0u16, "Never"@),
    ]
}

/// The times from dimming to switching off to choose from, in seconds. Zero is
/// never.
pub open spec fn off_times() -> Seq<(u16, Seq<char>)> {
    seq![
        (30u16, "30 s"@),
        (90u16, "90 s"@),
        (300u16, "5 min"@),
        (600u16, "10 min"@),
        (0u16, "Never"@),
    ]
}

/// Choices labelled with their percentage.
pub open spec fn percent_choices(values: Seq<u16>, current: u16) -> Seq<ChoiceModel> {
    values.map_values(
        |v: u16|
            ChoiceModel {
                label: text::decimal(v as nat) + "%"@,
                value: v,
                checked: v == current,
            },
    )
}

/// Choices with labels of their own.
pub open spec fn named_choices(values: Seq<(u16, Seq<char>)>, current: u16) -> Seq<ChoiceModel> {
    values.map_values(
        |v: (u16, Seq<char>)| ChoiceModel { label: v.1, value: v.0, checked: v.0 == current },
    )
}

/// The menu for the given settings.
pub open spec fn menu_of(cfg: Settings) -> Seq<EntryModel> {
    seq![
        EntryModel::Title("Rusty ESP Knob"@),
        EntryModel::Separator,
        EntryModel::Submenu(
            "Sensitivity"@,
            percent_choices(sensitivities(), cfg.sensitivity_pct as u16),
        ),
        EntryModel::Submenu(
            "Brightness"@,
            percent_choices(brightnesses(), cfg.backlight_pct as u16),
        ),
        EntryModel::Submenu("Dim after"@, named_choices(dim_times(), cfg.dim_after_secs)),
        EntryModel::Submenu("Off after dim"@, named_choices(off_times(), cfg.off_after_secs)),
        EntryModel::Check("Auto-start on login"@, cfg.autostart),
        EntryModel::Separator,
        EntryModel::Item("Exit"@),
    ]
}

fn choice(label: &str, value: u16, current: u16) -> (c: Choice)
    ensures
        c@ == (ChoiceModel { label: label@, value, checked: value == current }),
{
    Choice { label: label.to_owned(), value, checked: value == current }
}

fn percent(value: u16, current: u16) -> (c: Choice)
    ensures
        c@ == (ChoiceModel {
            label: text::decimal(value as nat) + "%"@,
            value,
            checked: value == current,
        }),
{
    let mut label = String::new();
    text::push_decimal(&mut label, value as u64);
    label.append("%");
    assert(label@ =~= text::decimal(value as nat) + "%"@);
    Choice { label, value, checked: value == current }
}

/// The tray menu for the given settings.
pub fn build_menu(cfg: &Config) -> (menu: Vec<Entry>)
    ensures
        menu_view(menu@) == menu_of(cfg@),
{
    let pct: u16 = cfg.sensitivity_pct as u16;
    let sens: Vec<Choice> = vec![percent(1, pct), percent(2, pct), percent(5, pct)];
    assert(choices_view(sens@) =~= percent_choices(sensitivities(), pct));

    let level: u16 = cfg.backlight_pct as u16;
    let brightness: Vec<Choice> = vec![
        percent(25, level),
        percent(50, level),
        percent(75, level),
        percent(100, level),
    ];
    assert(choices_view(brightness@) =~= percent_choices(brightnesses(), level));

    let secs: u16 = cfg.backlight_dim_after_secs;
    let dim: Vec<Choice> = vec![
        choice("10 s", 10, secs),
        choice("30 s", 30, secs),
        choice("1 min", 60, secs),
        choice("3 min", 180, secs),
        choice("Never", 0, secs),
    ];
    assert(choices_view(dim@) =~= named_choices(dim_times(), secs));

    // Counted from the dim transition, not last activity.
    let more: u16 = cfg.backlight_off_after_secs;
    let off: Vec<Choice> = vec![
        choice("30 s", 30, more),
        choice("90 s", 90, more),
        choice("5 min", 300, more),
        choice("10 min", 600, more),
        choice("Never", 0, more),
    ];
    assert(choices_view(off@) =~= named_choices(off_times(), more));

    let menu: Vec<Entry> = vec![
        Entry::Title("Rusty ESP Knob".to_owned()),
        Entry::Separator,
        Entry::Submenu("Sensitivity".to_owned(), sens),
        Entry::Submenu("Brightness".to_owned(), brightness),
        Entry::Submenu("Dim after".to_owned(), dim),
        Entry::Submenu("Off after dim".to_owned(), off),
        Entry::Check("Auto-start on login".to_owned(), cfg.autostart),
        Entry::Separator,
        Entry::Item("Exit".to_owned()),
    ];
    assert(menu_view(menu@) =~= menu_of(cfg@));
    menu
}

/// What a click on the menu chooses.
#[derive(Debug, Clone, Copy, PartialEq, Eq, Structural)]
pub enum Click {
    Exit,
    Autostart,
    Sensitivity(u8),
    Brightness(u8),
    DimAfter(u16),
    OffAfter(u16),
}

/// The identifiers of the menu's items.
pub struct MenuIds {
    pub exit: String,
    pub autostart: String,
    /// `(id, sensitivity_pct)` pairs.
    pub sensitivity: Vec<(String, u8)>,
    /// `(id, brightness_pct)` pairs: first match wins.
    pub brightness: Vec<(String, u8)>,
    /// `(id, dim_after_secs)` pairs. `0` = "Never".
    pub dim: Vec<(String, u16)>,
    /// `(id, off_after_secs)` pairs. `0` = "Never".
    pub off: Vec<(String, u16)>,
}

/// What stands with the first such identifier.
pub open spec fn chosen<T>(items: Seq<(String, T)>, id: Seq<char>) -> Option<T>
    decreases items.len(),
{
    if items.len() == 0 {
        None
    } else if items[0].0@ == id {
        Some(items[0].1)
    } else {
        chosen(items.skip(1), id)
    }
}

fn find_choice<T: Copy>(items: &Vec<(String, T)>, id: &String) -> (r: Option<T>)
    ensures
        r == chosen(items@, id@),
{
    let mut i: usize = 0;
    proof {
        assert(items@.skip(0) =~= items@);
    }
    while i < items.len()
        invariant
            i <= items@.len(),
            chosen(items@, id@) == chosen(items@.skip(i as int), id@),
        decreases items@.len() - i,
    {
        assert(items@.skip(i as int).skip(1) =~= items@.skip(i + 1));
        if items[i].0 == *id {
            return Some(items[i].1);
        }
        i = i + 1;
    }
    None
}

impl MenuIds {
    /// What a click on the item `id` chooses, if the item is one of the menu's.
    pub open spec fn clicked(&self, id: Seq<char>) -> Option<Click> {
        if id == self.exit@ {
            Some(Click::Exit)
        } else if id == self.autostart@ {
            Some(Click::Autostart)
        } else if chosen(self.sensitivity@, id) is Some {
            Some(Click::Sensitivity(chosen(self.sensitivity@, id)->0))
        } else if chosen(self.brightness@, id) is Some {
            Some(Click::Brightness(chosen(self.brightness@, id)->0))
        } else if chosen(self.dim@, id) is Some {
            Some(Click::DimAfter(chosen(self.dim@, id)->0))
        } else if chosen(self.off@, id) is Some {
            Some(Click::OffAfter(chosen(self.off@, id)->0))
        } else {
            None
        }
    }

    pub fn brightness_choice(&self, id: &String) -> (pct: Option<u8>)
        ensures
            pct == chosen(self.brightness@, id@),
    {
        find_choice(&self.brightness, id)
    }

    pub fn dim_choice(&self, id: &String) -> (secs: Option<u16>)
        ensures
            secs == chosen(self.dim@, id@),
    {
        find_choice(&self.dim, id)
    }

    pub fn off_choice(&self, id: &String) -> (secs: Option<u16>)
        ensures
            secs == chosen(self.off@, id@),
    {
        find_choice(&self.off, id)
    }

    /// What a click on the item `id` chooses, if the item is one of the menu's.
    pub fn click(&self, id: &String) -> (c: Option<Click>)
        ensures
            c == self.clicked(id@),
    {
        if *id == self.exit {
            return Some(Click::Exit);
        }
        if *id == self.autostart {
            return Some(Click::Autostart);
        }
        if let Some(pct) = find_choice(&self.sensitivity, id) {
            return Some(Click::Sensitivity(pct));
        }
        if let Some(pct) = self.brightness_choice(id) {
            return Some(Click::Brightness(pct));
        }
        if let Some(secs) = self.dim_choice(id) {
            return Some(Click::DimAfter(secs));
        }
        if let Some(secs) = self.off_choice(id) {
            return Some(Click::OffAfter(secs));
        }
        None
    }
}

/// The settings after a click.
pub open spec fn settings_after(cfg: Settings, click: Click) -> Settings {
    match click {
        Click::Exit => cfg,
        Click::Autostart => Settings { autostart: !cfg.autostart, ..cfg },
        Click::Sensitivity(pct) => Settings { sensitivity_pct: pct, ..cfg },
        Click::Brightness(pct) => Settings { backlight_pct: pct, ..cfg },
        Click::DimAfter(secs) => Settings { dim_after_secs: secs, ..cfg },
        Click::OffAfter(secs) => Settings { off_after_secs: secs, ..cfg },
    }
}

/// The shared backlight settings after a click.
pub open spec fn backlight_after(b: BacklightShared, click: Click) -> BacklightShared {
    match click {
        Click::Brightness(pct) => BacklightShared { pct, dirty: true, ..b },
        Click::DimAfter(secs) => BacklightShared { dim_after_secs: secs, dirty: true, ..b },
        Click::OffAfter(secs) => BacklightShared { off_after_secs: secs, dirty: true, ..b },
        _ => b,
    }
}

pub fn set_sensitivity(cfg: &mut Config, sensitivity: &mut u8, pct: u8)
    ensures
        final(cfg)@ == settings_after(old(cfg)@, Click::Sensitivity(pct)),
        *final(sensitivity) == pct,
{
    cfg.sensitivity_pct = pct;
    *sensitivity = pct;
}

pub fn set_brightness(cfg: &mut Config, backlight: &mut BacklightShared, pct: u8)
    ensures
        final(cfg)@ == settings_after(old(cfg)@, Click::Brightness(pct)),
        *final(backlight) == backlight_after(*old(backlight), Click::Brightness(pct)),
{
    cfg.backlight_pct = pct;
    backlight.set_pct(pct);
}

pub fn set_dim_after(cfg: &mut Config, backlight: &mut BacklightShared, secs: u16)
    ensures
        final(cfg)@ == settings_after(old(cfg)@, Click::DimAfter(secs)),
        *final(backlight) == backlight_after(*old(backlight), Click::DimAfter(secs)),
{
    cfg.backlight_dim_after_secs = secs;
    backlight.set_dim_after_secs(secs);
}

pub fn set_off_after(cfg: &mut Config, backlight: &mut BacklightShared, secs: u16)
    ensures
        final(cfg)@ == settings_after(old(cfg)@, Click::OffAfter(secs)),
        *final(backlight) == backlight_after(*old(backlight), Click::OffAfter(secs)),
{
    cfg.backlight_off_after_secs = secs;
    backlight.set_off_after_secs(secs);
}

/// What the tray has to do after a click.
#[derive(Debug, Clone, Copy, PartialEq, Eq, Structural)]
pub enum Effect {
    /// Stop the worker and end.
    Stop,
    /// Register for auto-start, or no longer, then save the settings.
    Autostart(bool),
    /// Save the settings, and check the choices that are in force.
    Save,
}

/// What the tray has to do after a click on the menu of the given settings.
pub open spec fn effect_of(cfg: Settings, click: Click) -> Effect {
    match click {
        Click::Exit => Effect::Stop,
        Click::Autostart => Effect::Autostart(!cfg.autostart),
        _ => Effect::Save,
    }
}

/// The sensitivity that the worker sees after a click.
pub open spec fn sensitivity_after(sensitivity: u8, click: Click) -> u8 {
    match click {
        Click::Sensitivity(pct) => pct,
        _ => sensitivity,
    }
}

/// Act on a click. The tray saves the settings, and the worker sees the
/// sensitivity and the backlight settings.
pub fn act(
    click: Click,
    cfg: &mut Config,
    sensitivity: &mut u8,
    backlight: &mut BacklightShared,
) -> (effect: Effect)
    ensures
        final(cfg)@ == settings_after(old(cfg)@, click),
        *final(backlight) == backlight_after(*old(backlight), click),
        *final(sensitivity) == sensitivity_after(*old(sensitivity), click),
        effect == effect_of(old(cfg)@, click),
{
    match click {
        Click::Exit => Effect::Stop,
        Click::Autostart => {
            cfg.autostart = !cfg.autostart;
            Effect::Autostart(cfg.autostart)
        },
        Click::Sensitivity(pct) => {
            set_sensitivity(cfg, sensitivity, pct);
            Effect::Save
        },
        Click::Brightness(pct) => {
            set_brightness(cfg, backlight, pct);
            Effect::Save
        },
        Click::DimAfter(secs) => {
            set_dim_after(cfg, backlight, secs);
            Effect::Save
        },
        Click::OffAfter(secs) => {
            set_off_after(cfg, backlight, secs);
            Effect::Save
        },
    }
}

/// The tooltip for a status.
pub open spec fn tooltip_of(status: StatusModel) -> Seq<char> {
    "Rusty ESP Knob — "@ + match status {
        StatusModel::Connected(port) => port,
        StatusModel::Disconnected => "disconnected"@,
        StatusModel::Error(e) => e,
    }
}

/// The tooltip for a status.
pub fn tooltip(status: &WorkerStatus) -> (tip: String)
    ensures
        tip@ == tooltip_of(status@),
{
    let mut tip = "Rusty ESP Knob — ".to_owned();
    match status {
        WorkerStatus::Connected(port) => tip.append(port.as_str()),
        WorkerStatus::Disconnected => tip.append("disconnected"),
        WorkerStatus::Error(e) => tip.append(e.as_str()),
    }
    tip
}

/// Side of the tray icon in pixels.
pub const ICON_SIDE: usize = 32;

/// Red, green, blue and alpha of a pixel of the tray icon.
pub open spec fn icon_pixel(x: int, y: int) -> (u8, u8, u8, u8) {
    // Twice the distances from the centre, which is between pixels.
    let (dx, dy) = (2 * x - 31, 2 * y - 31);
    let d2 = dx * dx + dy * dy;
    if d2 > 28 * 28 {
        (0, 0, 0, 0)
    } else if d2 >= 23 * 23 {
        (0xB7, 0x41, 0x0E, 0xFF)
    } else if (x == 15 || x == 16) && dy < -4 && d2 < 21 * 21 {
        (0xFF, 0xFF, 0xFF, 0xFF)
    } else {
        (0x40, 0x18, 0x08, 0xFF)
    }
}

/// The pixel at the given place in RGBA bytes.
pub open spec fn rgba_at(bytes: Seq<u8>, x: int, y: int) -> (u8, u8, u8, u8) {
    let i = (y * ICON_SIDE + x) * 4;
    (bytes[i], bytes[i + 1], bytes[i + 2], bytes[i + 3])
}

fn shade(x: usize, y: usize) -> (c: (u8, u8, u8, u8))
    requires
        x < ICON_SIDE,
        y < ICON_SIDE,
    ensures
        c == icon_pixel(x as int, y as int),
{
    let dx: i32 = 2 * x as i32 - 31;
    let dy: i32 = 2 * y as i32 - 31;
    assert(dx * dx <= 31 * 31) by (nonlinear_arith)
        requires
            -31 <= dx <= 31,
    ;
    assert(dy * dy <= 31 * 31) by (nonlinear_arith)
        requires
            -31 <= dy <= 31,
    ;
    assert(dx * dx >= 0) by (nonlinear_arith);
    assert(dy * dy >= 0) by (nonlinear_arith);
    let d2: i32 = dx * dx + dy * dy;
    if d2 > 784 {
        (0, 0, 0, 0)
    } else if d2 >= 529 {
        (0xB7, 0x41, 0x0E, 0xFF)
    } else if (x == 15 || x == 16) && dy < -4 && d2 < 441 {
        (0xFF, 0xFF, 0xFF, 0xFF)
    } else {
        (0x40, 0x18, 0x08, 0xFF)
    }
}

/// Generate the 32x32 RGBA tray icon: rust-coloured ring with a white indicator
/// line at 12 o'clock, a recognisable volume-knob silhouette.
pub fn make_icon() -> (bytes: Vec<u8>)
    ensures
        bytes@.len() == ICON_SIDE * ICON_SIDE * 4,
        forall|x: int, y: int|
            0 <= x < ICON_SIDE && 0 <= y < ICON_SIDE ==> #[trigger] rgba_at(bytes@, x, y)
                == icon_pixel(x, y),
{
    let mut bytes: Vec<u8> = Vec::new();
    let mut n: usize = 0;
    while n < ICON_SIDE * ICON_SIDE
        invariant
            n <= ICON_SIDE * ICON_SIDE,
            bytes@.len() == 4 * n,
            forall|x: int, y: int|
                0 <= x < ICON_SIDE && 0 <= y < ICON_SIDE && y * ICON_SIDE + x < n
                    ==> #[trigger] rgba_at(bytes@, x, y) == icon_pixel(x, y),
        decreases ICON_SIDE * ICON_SIDE - n,
    {
        let ghost so_far = bytes@;
        let (cx, cy): (usize, usize) = (n % ICON_SIDE, n / ICON_SIDE);
        let (r, g, b, a) = shade(cx, cy);
        bytes.push(r);
        bytes.push(g);
        bytes.push(b);
        bytes.push(a);
        assert forall|x: int, y: int|
            0 <= x < ICON_SIDE && 0 <= y < ICON_SIDE && y * ICON_SIDE + x < n + 1 implies
            #[trigger] rgba_at(bytes@, x, y) == icon_pixel(x, y) by {
            if y * ICON_SIDE + x < n {
                assert(rgba_at(so_far, x, y) == icon_pixel(x, y));
            } else {
                assert(x == cx && y == cy);
            }
        }
        n = n + 1;
    }
    bytes
}

/// The icon has a mirror axis from top to bottom.
pub proof fn law_icon_is_symmetric(x: int, y: int)
    requires
        0 <= x < ICON_SIDE,
        0 <= y < ICON_SIDE,
    ensures
        icon_pixel(x, y) == icon_pixel(31 - x, y),
{
    let dx = 2 * x - 31;
    assert((2 * (31 - x) - 31) * (2 * (31 - x) - 31) == dx * dx) by (nonlinear_arith)
        requires
            dx == 2 * x - 31,
    ;
}

/// The command that auto-start runs.
pub fn autostart_command(exe: &str) -> (command: String)
    ensures
        command@ == "\""@ + exe@ + "\" tray"@,
{
    let mut command = "\"".to_owned();
    command.append(exe);
    command.append("\" tray");
    command
}

/// A text, given as UTF-16 code units, as the bytes of a registry value: with a
/// terminator, each unit low byte first.
pub fn registry_bytes(units: &[u16]) -> (bytes: Vec<u8>)
    ensures
        bytes@.len() == 2 * units@.len() + 2,
        forall|i: int|
            0 <= i < units@.len() ==> #[trigger] bytes@[2 * i] + 256 * bytes@[2 * i + 1]
                == units@[i],
        bytes@[2 * units@.len() as int] == 0,
        bytes@[2 * units@.len() as int + 1] == 0,
{
    let mut bytes: Vec<u8> = Vec::new();
    let mut i: usize = 0;
    while i < units.len()
        invariant
            i <= units@.len(),
            bytes@.len() == 2 * i,
            forall|k: int|
                0 <= k < i ==> #[trigger] bytes@[2 * k] + 256 * bytes@[2 * k + 1] == units@[k],
        decreases units@.len() - i,
    {
        let u: u16 = units[i];
        let ghost so_far = bytes@;
        assert(((u & 0xFF) as u8) + 256 * ((u >> 8) as u8) == u) by (bit_vector);
        bytes.push((u & 0xFF) as u8);
        bytes.push((u >> 8) as u8);
        assert forall|k: int| 0 <= k < i + 1 implies #[trigger] bytes@[2 * k] + 256 * bytes@[2 * k
            + 1] == units@[k] by {
            if k < i {
                assert(bytes@[2 * k] == so_far[2 * k]);
                assert(bytes@[2 * k + 1] == so_far[2 * k + 1]);
            }
        }
        i = i + 1;
    }
    bytes.push(0);
    bytes.push(0);
    bytes
}

/// Of the choices exactly those with the given value are checked.
pub open spec fn shows_choice(choices: Seq<ChoiceModel>, value: u16) -> bool {
    forall|i: int|
        0 <= i < choices.len() ==> (#[trigger] choices[i]).checked == (choices[i].value == value)
}

/// Where in the menu a click has been.
pub open spec fn clicked_entry(click: Click) -> int {
    match click {
        Click::Sensitivity(_) => 2,
        Click::Brightness(_) => 3,
        Click::DimAfter(_) => 4,
        Click::OffAfter(_) => 5,
        Click::Autostart => 6,
        Click::Exit => 8,
    }
}

/// What is chosen from the menu is what the menu then shows as checked, in its
/// submenu alone, and every other entry stays as it was.
pub proof fn law_choice_gets_checked(cfg: Settings, click: Click, k: int)
    requires
        0 <= k < menu_of(cfg).len(),
    ensures
        ({
            let menu = menu_of(settings_after(cfg, click));
            let entry = menu[clicked_entry(click)];
            &&& match click {
                Click::Sensitivity(pct) => entry is Submenu && shows_choice(entry->Submenu_1, pct as u16),
                Click::Brightness(pct) => entry is Submenu && shows_choice(entry->Submenu_1, pct as u16),
                Click::DimAfter(secs) => entry is Submenu && shows_choice(entry->Submenu_1, secs),
                Click::OffAfter(secs) => entry is Submenu && shows_choice(entry->Submenu_1, secs),
                Click::Autostart => entry is Check && entry->Check_1 == !cfg.autostart,
                Click::Exit => entry == menu_of(cfg)[8],
            }
            &&& k != clicked_entry(click) ==> menu[k] == menu_of(cfg)[k]
        }),
{
}

/// Every backlight choice reaches the device: it marks the shared settings for
/// pushing, and they agree with the saved ones.
pub proof fn law_choice_reaches_device(cfg: Settings, b: BacklightShared, click: Click)
    requires
        b.pct == cfg.backlight_pct,
        b.dim_after_secs == cfg.dim_after_secs,
        b.off_after_secs == cfg.off_after_secs,
    ensures
        ({
            let then = settings_after(cfg, click);
            let shared = backlight_after(b, click);
            &&& shared.pct == then.backlight_pct
            &&& shared.dim_after_secs == then.dim_after_secs
            &&& shared.off_after_secs == then.off_after_secs
            &&& (click is Brightness || click is DimAfter || click is OffAfter) ==> shared.dirty
        }),
{
}

/// A click changes the setting that it is about, to what was chosen, and no
/// other.
pub proof fn law_click_changes_one_setting(cfg: Settings, click: Click)
    ensures
        ({
            let then = settings_after(cfg, click);
            &&& then.port == cfg.port
            &&& then.sensitivity_pct == (match click {
                Click::Sensitivity(pct) => pct,
                _ => cfg.sensitivity_pct,
            })
            &&& then.backlight_pct == (match click {
                Click::Brightness(pct) => pct,
                _ => cfg.backlight_pct,
            })
            &&& then.dim_after_secs == (match click {
                Click::DimAfter(secs) => secs,
                _ => cfg.dim_after_secs,
            })
            &&& then.off_after_secs == (match click {
                Click::OffAfter(secs) => secs,
                _ => cfg.off_after_secs,
            })
            &&& then.autostart == (cfg.autostart != (click is Autostart))
        }),
{
}

/// A click that is not about the backlight leaves what the worker pushes alone.
pub proof fn law_other_clicks_push_nothing(b: BacklightShared, click: Click)
    ensures
        !(click is Brightness || click is DimAfter || click is OffAfter) ==> backlight_after(
            b,
            click,
        ) == b,
{
}

/// An identifier stands for what it was given to, the first time where it was
/// given twice, and one that was not given stands for nothing.
pub proof fn law_first_identifier_counts<T>(items: Seq<(String, T)>, id: Seq<char>, i: int)
    ensures
        0 <= i < items.len() && items[i].0@ == id && (forall|j: int|
            0 <= j < i ==> (#[trigger] items[j]).0@ != id) ==> chosen(items, id) == Some(
            items[i].1,
        ),
        (forall|j: int| 0 <= j < items.len() ==> (#[trigger] items[j]).0@ != id) ==> chosen(
            items,
            id,
        ) is None,
    decreases items.len(),
{
    if items.len() > 0 {
        let rest = items.skip(1);
        law_first_identifier_counts(rest, id, i - 1);
        assert(forall|j: int| 0 <= j < rest.len() ==> #[trigger] rest[j] == items[j + 1]);
        if 0 < i < items.len() {
            assert(rest[i - 1] == items[i]);
        }
    }
}

/// Where no identifier has been given twice, a click chooses what its item
/// stands for.
pub proof fn law_click_chooses_its_item(ids: MenuIds, id: Seq<char>)
    ensures
        id == ids.exit@ ==> ids.clicked(id) == Some(Click::Exit),
        id == ids.autostart@ && id != ids.exit@ ==> ids.clicked(id) == Some(Click::Autostart),
        id != ids.exit@ && id != ids.autostart@ ==> {
            let s = chosen(ids.sensitivity@, id);
            let b = chosen(ids.brightness@, id);
            let d = chosen(ids.dim@, id);
            let o = chosen(ids.off@, id);
            &&& s is Some ==> ids.clicked(id) == Some(Click::Sensitivity(s->0))
            &&& b is Some && s is None ==> ids.clicked(id) == Some(Click::Brightness(b->0))
            &&& d is Some && s is None && b is None ==> ids.clicked(id) == Some(
                Click::DimAfter(d->0),
            )
            &&& o is Some && s is None && b is None && d is None ==> ids.clicked(id) == Some(
                Click::OffAfter(o->0),
            )
            &&& s is None && b is None && d is None && o is None ==> ids.clicked(id) is None
        },
{
}

/// Every choice of the menu has a value of its own, is labelled with it, and at
/// most one of a submenu is checked.
pub proof fn law_choices_have_their_value(values: Seq<u16>, current: u16, i: int)
    requires
        0 <= i < values.len(),
    ensures
        percent_choices(values, current).len() == values.len(),
        percent_choices(values, current)[i].value == values[i],
        percent_choices(values, current)[i].checked == (values[i] == current),
        percent_choices(values, current)[i].label.len() > 1,
        text::number_of(percent_choices(values, current)[i].label.drop_last()) == values[i],
        percent_choices(values, current)[i].label.last() == '%',
{
    reveal_strlit("%");
    let label = text::decimal(values[i] as nat) + "%"@;
    text::law_decimal_means_its_number(values[i] as nat);
    assert(label.drop_last() =~= text::decimal(values[i] as nat));
}

/// The icon is round: its pixels are opaque within a circle around the centre
/// and transparent outside, with a rim of one colour all around; only a line
/// from the centre to the top is white.
pub proof fn law_icon_is_round(x: int, y: int)
    requires
        0 <= x < 32,
        0 <= y < 32,
    ensures
        ({
            let d2 = (2 * x - 31) * (2 * x - 31) + (2 * y - 31) * (2 * y - 31);
            let c = icon_pixel(x, y);
            &&& d2 > 784 ==> c.3 == 0
            &&& d2 <= 784 ==> c.3 == 255
            &&& 529 <= d2 <= 784 ==> (c.0, c.1, c.2) == (0xB7u8, 0x41u8, 0x0Eu8)
            &&& (c.0, c.1, c.2) == (255u8, 255u8, 255u8) ==> y < 14 && 15 <= x <= 16 && d2 < 441
            &&& y < 14 && 15 <= x <= 16 && d2 < 441 ==> (c.0, c.1, c.2) == (255u8, 255u8, 255u8)
            &&& d2 < 529 && !(y < 14 && 15 <= x <= 16 && d2 < 441) ==> (c.0, c.1, c.2) == (
                0x40u8,
                0x18u8,
                0x08u8,
            )
        }),
{
}

/// The tooltip names the port, the lack of one, or what is wrong.
pub proof fn law_tooltip_names_status(status: StatusModel)
    ensures
        ({
            let shown = match status {
                StatusModel::Connected(port) => port,
                StatusModel::Disconnected => "disconnected"@,
                StatusModel::Error(e) => e,
            };
            let tip = tooltip_of(status);
            &&& tip.len() >= shown.len()
            &&& tip.skip(tip.len() - shown.len()) == shown
            &&& tip.take(tip.len() - shown.len()) == "Rusty ESP Knob — "@
        }),
{
    let shown = match status {
        StatusModel::Connected(port) => port,
        StatusModel::Disconnected => "disconnected"@,
        StatusModel::Error(e) => e,
    };
    let tip = tooltip_of(status);
    assert(tip.skip(tip.len() - shown.len()) =~= shown);
    assert(tip.take(tip.len() - shown.len()) =~= "Rusty ESP Knob — "@);
}

/// Only `Exit` ends the tray, only the auto-start entry touches auto-start, and
/// then as the settings have it afterwards; every other choice is saved. The
/// worker sees the sensitivity that the settings hold.
pub proof fn law_effects(cfg: Settings, sensitivity: u8, click: Click)
    ensures
        effect_of(cfg, click) is Stop <==> click is Exit,
        click is Autostart <==> effect_of(cfg, click) == Effect::Autostart(
            settings_after(cfg, click).autostart,
        ),
        !(click is Exit) && !(click is Autostart) ==> effect_of(cfg, click) is Save,
        sensitivity == cfg.sensitivity_pct ==> sensitivity_after(sensitivity, click)
            == settings_after(cfg, click).sensitivity_pct,
        !(click is Sensitivity) ==> sensitivity_after(sensitivity, click) == sensitivity,
{
}

} // verus!
