//! The bluetooth module: reduction of raw adapter snapshots into controllers,
//! and the text the module shows for them.
use vstd::prelude::*;
use vstd::string::*;

use crate::registry::{EntryView, ListenerKey, Message, MessageView, Module, ModuleEntry, ModuleKind};

verus! {

/// What a connected device is shown as: its icon glyph and its name.
pub struct DeviceView {
    pub icon: Seq<char>,
    pub name: Seq<char>,
}

/// A connected peripheral: an icon glyph and the device's alias.
#[derive(Clone, Debug, PartialEq, Eq, Hash)]
pub struct Device {
    pub icon: String,
    pub name: String,
}

impl View for Device {
    type V = DeviceView;

    open spec fn view(&self) -> DeviceView {
        DeviceView { icon: self.icon@, name: self.name@ }
    }
}

impl Device {
    /// A copy with the same icon and name.
    pub fn duplicate(&self) -> (r: Device)
        ensures
            r@ == self@,
    {
        Device { icon: self.icon.clone(), name: self.name.clone() }
    }

    /// Structural equality of icon and name.
    pub fn same_as(&self, other: &Device) -> (r: bool)
        ensures
            r == (self@ == other@),
    {
        let same_icon = self.icon.eq(&other.icon);
        let same_name = self.name.eq(&other.name);
        same_icon && same_name
    }
}

/// The characters of an optional string.
pub open spec fn option_view(c: Option<String>) -> Option<Seq<char>> {
    match c {
        Some(s) => Some(s@),
        None => None,
    }
}

/// The glyph shown for a device of the given class; a device that reports no
/// class is shown as one of class "None".
pub open spec fn class_icon(class: Option<Seq<char>>) -> Seq<char> {
    let c = match class {
        Some(c) => c,
        None => "None"@,
    };
    if c == "audio-card"@ {
        "\u{f04c3}"@
    } else if c == "audio-input-microphone"@ {
        "\u{f130}"@
    } else if c == "audio-headphones"@ || c == "audio-headset"@ {
        "\u{f02cb}"@
    } else if c == "battery"@ {
        "\u{f0080}"@
    } else if c == "camera-photo"@ {
        "\u{f0edb}"@
    } else if c == "computer"@ {
        "\u{f109}"@
    } else if c == "input-keyboard"@ {
        "\u{f030c}"@
    } else if c == "input-mouse"@ {
        "\u{f037d}"@
    } else if c == "input-gaming"@ {
        "\u{f02b4}"@
    } else if c == "phone"@ {
        "\u{f03f2}"@
    } else if c == "None"@ {
        "\u{f294}"@
    } else {
        "\u{f293}"@
    }
}

fn class_is(class: &String, name: &str) -> (r: bool)
    ensures
        r == (class@ == name@),
{
    let expected = String::from_str(name);
    class.eq(&expected)
}

/// Looks the icon glyph of a device class up in the fixed table.
pub fn icon_for_class(class: &Option<String>) -> (r: String)
    ensures
        r@ == class_icon(option_view(*class)),
{
    let c = match class {
        Some(c) => c.clone(),
        None => String::from_str("None"),
    };
    let glyph = if class_is(&c, "audio-card") {
        "\u{f04c3}"
    } else if class_is(&c, "audio-input-microphone") {
        "\u{f130}"
    } else if class_is(&c, "audio-headphones") || class_is(&c, "audio-headset") {
        "\u{f02cb}"
    } else if class_is(&c, "battery") {
        "\u{f0080}"
    } else if class_is(&c, "camera-photo") {
        "\u{f0edb}"
    } else if class_is(&c, "computer") {
        "\u{f109}"
    } else if class_is(&c, "input-keyboard") {
        "\u{f030c}"
    } else if class_is(&c, "input-mouse") {
        "\u{f037d}"
    } else if class_is(&c, "input-gaming") {
        "\u{f02b4}"
    } else if class_is(&c, "phone") {
        "\u{f03f2}"
    } else if class_is(&c, "None") {
        "\u{f294}"
    } else {
        "\u{f293}"
    };
    String::from_str(glyph)
}

/// One device as the bus reports it during a poll: its class, whether it is
/// connected, and its alias.
#[derive(Clone, Debug)]
pub struct RawDevice {
    pub icon_class: Option<String>,
    pub connected: bool,
    pub alias: String,
}

/// A reported device as a value.
pub struct RawDeviceView {
    pub icon_class: Option<Seq<char>>,
    pub connected: bool,
    pub alias: Seq<char>,
}

impl View for RawDevice {
    type V = RawDeviceView;

    open spec fn view(&self) -> RawDeviceView {
        RawDeviceView {
            icon_class: option_view(self.icon_class),
            connected: self.connected,
            alias: self.alias@,
        }
    }
}

/// The device a connected report is shown as.
pub open spec fn device_of(r: RawDeviceView) -> DeviceView {
    DeviceView { icon: class_icon(r.icon_class), name: r.alias }
}

/// The devices of a vector as values.
pub open spec fn devices_view(v: Seq<Device>) -> Seq<DeviceView> {
    v.map_values(|d: Device| d@)
}

/// The reported devices of a vector as values.
pub open spec fn raw_devices_view(v: Seq<RawDevice>) -> Seq<RawDeviceView> {
    v.map_values(|d: RawDevice| d@)
}

/// `s` with `d` appended, unless `s` already holds it.
pub open spec fn add_unique(s: Seq<DeviceView>, d: DeviceView) -> Seq<DeviceView> {
    if s.contains(d) {
        s
    } else {
        s.push(d)
    }
}

/// `s` extended by each of `ds` in turn that it does not hold yet.
pub open spec fn add_all(s: Seq<DeviceView>, ds: Seq<DeviceView>) -> Seq<DeviceView>
    decreases ds.len(),
{
    if ds.len() == 0 {
        s
    } else {
        add_unique(add_all(s, ds.drop_last()), ds.last())
    }
}

/// The connected devices of one poll, each icon and name once, in order of
/// first report.
pub open spec fn connected_of(raw: Seq<RawDeviceView>) -> Seq<DeviceView>
    decreases raw.len(),
{
    if raw.len() == 0 {
        Seq::empty()
    } else if raw.last().connected {
        add_unique(connected_of(raw.drop_last()), device_of(raw.last()))
    } else {
        connected_of(raw.drop_last())
    }
}

/// Whether `v` holds a device with the icon and name of `d`.
pub fn contains_device(v: &Vec<Device>, d: &Device) -> (r: bool)
    ensures
        r == devices_view(v@).contains(d@),
{
    let mut i: usize = 0;
    while i < v.len()
        invariant
            i <= v.len(),
            forall|j: int| 0 <= j < i ==> v@[j]@ != d@,
        decreases v.len() - i,
    {
        if v[i].same_as(d) {
            assert(devices_view(v@)[i as int] == d@);
            return true;
        }
        i += 1;
    }
    assert(!devices_view(v@).contains(d@)) by {
        if devices_view(v@).contains(d@) {
            let k = choose|k: int| 0 <= k < devices_view(v@).len() && devices_view(v@)[k] == d@;
            assert(v@[k]@ == d@);
        }
    }
    false
}

/// Appends `d` to `v` unless `v` holds a device with its icon and name.
pub fn insert_device(v: &mut Vec<Device>, d: Device)
    ensures
        devices_view(final(v)@) == add_unique(devices_view(old(v)@), d@),
{
    if !contains_device(v, &d) {
        v.push(d);
        assert(devices_view(final(v)@) =~= devices_view(old(v)@).push(d@));
    }
}

/// The devices of one adapter that report being connected, each icon and name
/// once, in order of first report; devices at different addresses with the
/// same icon and name make one entry.
pub fn get_all_devices(raw: &Vec<RawDevice>) -> (r: Vec<Device>)
    ensures
        devices_view(r@) == connected_of(raw_devices_view(raw@)),
{
    let mut out: Vec<Device> = Vec::new();
    let mut i: usize = 0;
    while i < raw.len()
        invariant
            i <= raw.len(),
            devices_view(out@) == connected_of(raw_devices_view(raw@.subrange(0, i as int))),
        decreases raw.len() - i,
    {
        let ghost before = raw@.subrange(0, i as int);
        let r = &raw[i];
        proof {
            let next = raw_devices_view(raw@.subrange(0, i + 1));
            assert(next.drop_last() =~= raw_devices_view(before));
            assert(next.last() == r@);
        }
        if r.connected {
            let d = Device { icon: icon_for_class(&r.icon_class), name: r.alias.clone() };
            insert_device(&mut out, d);
        }
        i += 1;
    }
    assert(raw@.subrange(0, raw.len() as int) =~= raw@);
    out
}

/// One adapter's power state and its connected devices.
#[derive(Clone, Debug)]
pub struct Controller {
    pub is_powered: bool,
    pub connected_devices: Vec<Device>,
}

/// A controller as a value.
pub struct ControllerView {
    pub is_powered: bool,
    pub devices: Seq<DeviceView>,
}

impl View for Controller {
    type V = ControllerView;

    open spec fn view(&self) -> ControllerView {
        ControllerView {
            is_powered: self.is_powered,
            devices: devices_view(self.connected_devices@),
        }
    }
}

/// One adapter as the bus reports it during a poll.
#[derive(Clone, Debug)]
pub struct RawAdapter {
    pub is_powered: bool,
    pub devices: Vec<RawDevice>,
}

/// A reported adapter as a value.
pub struct RawAdapterView {
    pub is_powered: bool,
    pub devices: Seq<RawDeviceView>,
}

impl View for RawAdapter {
    type V = RawAdapterView;

    open spec fn view(&self) -> RawAdapterView {
        RawAdapterView { is_powered: self.is_powered, devices: raw_devices_view(self.devices@) }
    }
}

/// The controllers of a vector as values.
pub open spec fn controllers_view(v: Seq<Controller>) -> Seq<ControllerView> {
    v.map_values(|c: Controller| c@)
}

/// The reported adapters of a vector as values.
pub open spec fn raw_adapters_view(v: Seq<RawAdapter>) -> Seq<RawAdapterView> {
    v.map_values(|a: RawAdapter| a@)
}

/// The controller one reported adapter reduces to.
pub open spec fn controller_of(a: RawAdapterView) -> ControllerView {
    ControllerView { is_powered: a.is_powered, devices: connected_of(a.devices) }
}

/// The controllers of one poll: one per adapter, in the order reported.
pub fn get_controllers(adapters: &Vec<RawAdapter>) -> (r: Vec<Controller>)
    ensures
        controllers_view(r@) == raw_adapters_view(adapters@).map_values(
            |a: RawAdapterView| controller_of(a),
        ),
{
    let mut out: Vec<Controller> = Vec::new();
    let mut i: usize = 0;
    while i < adapters.len()
        invariant
            i <= adapters.len(),
            out.len() == i,
            forall|j: int| 0 <= j < i ==> out@[j]@ == controller_of(#[trigger] adapters@[j]@),
        decreases adapters.len() - i,
    {
        let a = &adapters[i];
        let c = Controller { is_powered: a.is_powered, connected_devices: get_all_devices(&a.devices) };
        out.push(c);
        i += 1;
    }
    assert(controllers_view(out@) =~= raw_adapters_view(adapters@).map_values(
        |a: RawAdapterView| controller_of(a),
    ));
    out
}

/// Seconds between two polls of the bus.
pub const POLL_INTERVAL_SECS: u64 = 1;

/// Where the polling subscription stands.
#[derive(Clone, Copy, Debug, PartialEq, Eq, Hash, Structural)]
pub enum PollState {
    /// No bus session yet.
    Idle,
    /// A session is open and a poll is due.
    Polling,
    /// A snapshot went out; waiting for the next poll.
    Waiting,
    /// The subscription has ended.
    Stopped,
}

/// What the outside world reports back to the polling subscription.
#[derive(Debug)]
pub enum PollEvent {
    SessionOpened,
    SessionFailed,
    Polled(Vec<RawAdapter>),
    PollFailed,
    Sent,
    SendFailed,
    Woke,
}

/// A poll event as a value.
pub enum PollEventView {
    SessionOpened,
    SessionFailed,
    Polled(Seq<RawAdapterView>),
    PollFailed,
    Sent,
    SendFailed,
    Woke,
}

impl View for PollEvent {
    type V = PollEventView;

    open spec fn view(&self) -> PollEventView {
        match self {
            PollEvent::SessionOpened => PollEventView::SessionOpened,
            PollEvent::SessionFailed => PollEventView::SessionFailed,
            PollEvent::Polled(a) => PollEventView::Polled(raw_adapters_view(a@)),
            PollEvent::PollFailed => PollEventView::PollFailed,
            PollEvent::Sent => PollEventView::Sent,
            PollEvent::SendFailed => PollEventView::SendFailed,
            PollEvent::Woke => PollEventView::Woke,
        }
    }
}

/// What the polling subscription asks the outside world to do next.
#[derive(Debug)]
pub enum PollAction {
    OpenSession,
    Poll,
    Send(Message),
    Sleep(u64),
    Stop,
}

/// A poll action as a value.
pub enum PollActionView {
    OpenSession,
    Poll,
    Send(MessageView),
    Sleep(u64),
    Stop,
}

impl View for PollAction {
    type V = PollActionView;

    open spec fn view(&self) -> PollActionView {
        match self {
            PollAction::OpenSession => PollActionView::OpenSession,
            PollAction::Poll => PollActionView::Poll,
            PollAction::Send(m) => PollActionView::Send(m@),
            PollAction::Sleep(s) => PollActionView::Sleep(*s),
            PollAction::Stop => PollActionView::Stop,
        }
    }
}

/// One step of the polling subscription: a session is opened once and never
/// retried; each snapshot replaces the module's controllers whole; a failed
/// poll or a closed channel ends the subscription. An event that does not fit
/// the state changes nothing and asks for nothing.
pub open spec fn poll_step_spec(s: PollState, e: PollEventView) -> (PollState, Option<PollActionView>) {
    match (s, e) {
        (PollState::Idle, PollEventView::SessionOpened) => (PollState::Polling, Some(PollActionView::Poll)),
        (PollState::Idle, PollEventView::SessionFailed) => (PollState::Stopped, Some(PollActionView::Stop)),
        (PollState::Polling, PollEventView::Polled(a)) => (
            PollState::Waiting,
            Some(PollActionView::Send(MessageView::UpdateBluetooth(
                a.map_values(|x: RawAdapterView| controller_of(x)),
            ))),
        ),
        (PollState::Polling, PollEventView::PollFailed) => (PollState::Stopped, Some(PollActionView::Stop)),
        (PollState::Waiting, PollEventView::Sent) => (
            PollState::Waiting,
            Some(PollActionView::Sleep(POLL_INTERVAL_SECS)),
        ),
        (PollState::Waiting, PollEventView::SendFailed) => (PollState::Stopped, Some(PollActionView::Stop)),
        (PollState::Waiting, PollEventView::Woke) => (PollState::Polling, Some(PollActionView::Poll)),
        _ => (s, None),
    }
}

/// An optional poll action as a value.
pub open spec fn action_view(a: Option<PollAction>) -> Option<PollActionView> {
    match a {
        Some(x) => Some(x@),
        None => None,
    }
}

/// The first action of a new subscription: open a bus session.
pub fn poll_start() -> (r: (PollState, PollAction))
    ensures
        r.0 == PollState::Idle,
        r.1@ == PollActionView::OpenSession,
{
    (PollState::Idle, PollAction::OpenSession)
}

/// The next state and action of the polling subscription after `event`.
pub fn poll_step(state: PollState, event: PollEvent) -> (r: (PollState, Option<PollAction>))
    ensures
        r.0 == poll_step_spec(state, event@).0,
        action_view(r.1) == poll_step_spec(state, event@).1,
{
    match (state, event) {
        (PollState::Idle, PollEvent::SessionOpened) => (PollState::Polling, Some(PollAction::Poll)),
        (PollState::Idle, PollEvent::SessionFailed) => (PollState::Stopped, Some(PollAction::Stop)),
        (PollState::Polling, PollEvent::Polled(a)) => {
            let m = Message::UpdateBluetooth(get_controllers(&a));
            (PollState::Waiting, Some(PollAction::Send(m)))
        },
        (PollState::Polling, PollEvent::PollFailed) => (PollState::Stopped, Some(PollAction::Stop)),
        (PollState::Waiting, PollEvent::Sent) => (
            PollState::Waiting,
            Some(PollAction::Sleep(POLL_INTERVAL_SECS)),
        ),
        (PollState::Waiting, PollEvent::SendFailed) => (PollState::Stopped, Some(PollAction::Stop)),
        (PollState::Waiting, PollEvent::Woke) => (PollState::Polling, Some(PollAction::Poll)),
        (s, _) => (s, None),
    }
}

/// Whether any of the controllers is powered.
pub open spec fn any_powered(cs: Seq<ControllerView>) -> bool {
    exists|i: int| 0 <= i < cs.len() && cs[i].is_powered
}

/// The devices connected to any of the controllers, each icon and name once,
/// in order of first appearance.
pub open spec fn all_connected(cs: Seq<ControllerView>) -> Seq<DeviceView>
    decreases cs.len(),
{
    if cs.len() == 0 {
        Seq::empty()
    } else {
        add_all(all_connected(cs.drop_last()), cs.last().devices)
    }
}

/// The icons of `ds` one after the other.
pub open spec fn icons_of(ds: Seq<DeviceView>) -> Seq<char>
    decreases ds.len(),
{
    if ds.len() == 0 {
        Seq::empty()
    } else {
        icons_of(ds.drop_last()) + ds.last().icon
    }
}

/// The icon shown while some adapter is powered.
pub open spec fn powered_glyph() -> Seq<char> {
    "\u{f293}"@
}

/// The icon shown while no adapter is powered.
pub open spec fn unpowered_glyph() -> Seq<char> {
    "\u{f294}"@
}

/// The bluetooth module's state as a value.
pub struct BluetoothView {
    pub controllers: Seq<ControllerView>,
    pub powered_icon: Seq<char>,
    pub unpowered_icon: Seq<char>,
}

/// The power icon: the powered one if any controller is powered.
pub open spec fn power_icon(m: BluetoothView) -> Seq<char> {
    if any_powered(m.controllers) {
        m.powered_icon
    } else {
        m.unpowered_icon
    }
}

/// The text the module shows: the power icon when no device is connected,
/// icon and name of the one device when exactly one is, else the icons of all
/// connected devices.
pub open spec fn shown_text(m: BluetoothView) -> Seq<char> {
    let ds = all_connected(m.controllers);
    if ds.len() == 0 {
        power_icon(m)
    } else if ds.len() == 1 {
        ds[0].icon + " "@ + ds[0].name
    } else {
        icons_of(ds)
    }
}

/// The bluetooth module: the controllers of the latest poll and the two power
/// icons.
#[derive(Debug)]
pub struct BluetoothMod {
    controllers: Vec<Controller>,
    powered_icon: String,
    unpowered_icon: String,
}

impl BluetoothMod {
    /// The module's state as a value.
    pub closed spec fn state(&self) -> BluetoothView {
        BluetoothView {
            controllers: controllers_view(self.controllers@),
            powered_icon: self.powered_icon@,
            unpowered_icon: self.unpowered_icon@,
        }
    }
}

/// The state of a freshly registered module: no controllers yet.
pub open spec fn default_bluetooth() -> BluetoothView {
    BluetoothView {
        controllers: Seq::empty(),
        powered_icon: powered_glyph(),
        unpowered_icon: unpowered_glyph(),
    }
}

impl Default for BluetoothMod {
    fn default() -> (r: Self)
        ensures
            r.state() == default_bluetooth(),
    {
        let r = BluetoothMod {
            controllers: Vec::new(),
            powered_icon: String::from_str("\u{f293}"),
            unpowered_icon: String::from_str("\u{f294}"),
        };
        assert(r.state().controllers =~= Seq::<ControllerView>::empty());
        r
    }
}

impl Module for BluetoothMod {
    open spec fn spec_kind() -> ModuleKind {
        ModuleKind::Bluetooth
    }

    open spec fn spec_entry(&self) -> EntryView {
        EntryView::Bluetooth(self.state())
    }

    open spec fn spec_name(&self) -> Seq<char> {
        "bluetooth"@
    }

    open spec fn spec_text(&self) -> Seq<char> {
        shown_text(self.state())
    }

    open spec fn spec_active(&self) -> bool {
        true
    }

    fn kind() -> (r: ModuleKind) {
        ModuleKind::Bluetooth
    }

    fn active(&self) -> (r: bool) {
        true
    }

    fn new_default() -> (r: Self) {
        BluetoothMod::default()
    }

    fn into_entry(self) -> (r: ModuleEntry) {
        ModuleEntry::Bluetooth(self)
    }

    fn downcast_ref(e: &ModuleEntry) -> (r: Option<&Self>) {
        match e {
            ModuleEntry::Bluetooth(m) => Some(m),
        }
    }

    fn name(&self) -> (r: String) {
        String::from_str("bluetooth")
    }

    fn view(&self) -> (r: String) {
        self.view_text()
    }

    fn required_listeners(&self) -> (r: Vec<ListenerKey>) {
        let r: Vec<ListenerKey> = Vec::new();
        assert(r@ =~= Seq::<ListenerKey>::empty());
        r
    }
}

impl BluetoothMod {
    /// The controllers of the latest poll.
    pub fn controllers(&self) -> (r: &Vec<Controller>)
        ensures
            controllers_view(r@) == self.state().controllers,
    {
        &self.controllers
    }

    /// Replaces the whole snapshot with the controllers of a new poll.
    pub fn set_controllers(&mut self, controllers: Vec<Controller>)
        ensures
            final(self).state() == (BluetoothView {
                controllers: controllers_view(controllers@),
                ..old(self).state()
            }),
    {
        self.controllers = controllers;
    }

    /// The power icon for the current snapshot.
    pub fn icon(&self) -> (r: String)
        ensures
            r@ == power_icon(self.state()),
    {
        let mut enabled = false;
        let mut i: usize = 0;
        while i < self.controllers.len()
            invariant
                i <= self.controllers.len(),
                enabled == exists|j: int| 0 <= j < i && self.controllers@[j].is_powered,
            decreases self.controllers.len() - i,
        {
            if self.controllers[i].is_powered {
                enabled = true;
            }
            i += 1;
        }
        let ghost cs = controllers_view(self.controllers@);
        assert(enabled == any_powered(cs)) by {
            if enabled {
                let j = choose|j: int| 0 <= j < i && self.controllers@[j].is_powered;
                assert(cs[j].is_powered);
            }
            if any_powered(cs) {
                let j = choose|j: int| 0 <= j < cs.len() && cs[j].is_powered;
                assert(self.controllers@[j].is_powered);
            }
        }
        if enabled {
            self.powered_icon.clone()
        } else {
            self.unpowered_icon.clone()
        }
    }

    /// The devices connected to any controller, each icon and name once.
    pub fn connected_devices(&self) -> (r: Vec<Device>)
        ensures
            devices_view(r@) == all_connected(self.state().controllers),
    {
        let mut out: Vec<Device> = Vec::new();
        let mut i: usize = 0;
        while i < self.controllers.len()
            invariant
                i <= self.controllers.len(),
                devices_view(out@) == all_connected(
                    controllers_view(self.controllers@.subrange(0, i as int)),
                ),
            decreases self.controllers.len() - i,
        {
            let ds = &self.controllers[i].connected_devices;
            let ghost start = devices_view(out@);
            let mut k: usize = 0;
            while k < ds.len()
                invariant
                    k <= ds.len(),
                    devices_view(out@) == add_all(start, devices_view(ds@).subrange(0, k as int)),
                decreases ds.len() - k,
            {
                proof {
                    let next = devices_view(ds@).subrange(0, k + 1);
                    assert(next.drop_last() =~= devices_view(ds@).subrange(0, k as int));
                }
                insert_device(&mut out, ds[k].duplicate());
                k += 1;
            }
            proof {
                let next = controllers_view(self.controllers@.subrange(0, i + 1));
                assert(next.drop_last() =~= controllers_view(self.controllers@.subrange(0, i as int)));
                assert(devices_view(ds@).subrange(0, ds.len() as int) =~= devices_view(ds@));
            }
            i += 1;
        }
        assert(self.controllers@.subrange(0, self.controllers.len() as int) =~= self.controllers@);
        out
    }
    /// The text shown for the current snapshot.
    pub fn view_text(&self) -> (r: String)
        ensures
            r@ == shown_text(self.state()),
    {
        let ds = self.connected_devices();
        if ds.len() == 0 {
            self.icon()
        } else if ds.len() == 1 {
            let d = &ds[0];
            assert(devices_view(ds@)[0] == d@);
            d.icon.clone().concat(" ").concat(d.name.as_str())
        } else {
            let mut acc = String::new();
            let mut i: usize = 0;
            while i < ds.len()
                invariant
                    i <= ds.len(),
                    acc@ == icons_of(devices_view(ds@).subrange(0, i as int)),
                decreases ds.len() - i,
            {
                proof {
                    let next = devices_view(ds@).subrange(0, i + 1);
                    assert(next.drop_last() =~= devices_view(ds@).subrange(0, i as int));
                    assert(next.last() == ds@[i as int]@);
                }
                acc.append(ds[i].icon.as_str());
                i += 1;
            }
            assert(devices_view(ds@).subrange(0, ds.len() as int) =~= devices_view(ds@));
            acc
        }
    }
}

/// Whether `d` is the device of a connected entry of `raw`.
pub open spec fn reported_connected(raw: Seq<RawDeviceView>, d: DeviceView) -> bool {
    exists|i: int| 0 <= i < raw.len() && raw[i].connected && device_of(raw[i]) == d
}

proof fn lemma_add_unique(s: Seq<DeviceView>, d: DeviceView)
    requires
        s.no_duplicates(),
    ensures
        add_unique(s, d).no_duplicates(),
        forall|e: DeviceView| add_unique(s, d).contains(e) <==> (s.contains(e) || e == d),
{
    if !s.contains(d) {
        let t = s.push(d);
        assert forall|e: DeviceView| t.contains(e) <==> (s.contains(e) || e == d) by {
            if t.contains(e) {
                let k = choose|k: int| 0 <= k < t.len() && t[k] == e;
                if k < s.len() {
                    assert(s[k] == e);
                }
            }
            if s.contains(e) {
                let k = choose|k: int| 0 <= k < s.len() && s[k] == e;
                assert(t[k] == e);
            }
            if e == d {
                assert(t[s.len() as int] == e);
            }
        }
        assert forall|a: int, b: int| 0 <= a < t.len() && 0 <= b < t.len() && a != b implies t[a]
            != t[b] by {
            if a == s.len() {
                assert(s[b] == t[b]);
            } else if b == s.len() {
                assert(s[a] == t[a]);
            }
        }
    }
}

/// The devices of a poll hold each icon and name at most once, and exactly
/// those of the devices reported connected: two connected devices at different
/// addresses with the same icon and name make a single entry.
pub proof fn lemma_connected_dedup(raw: Seq<RawDeviceView>)
    ensures
        connected_of(raw).no_duplicates(),
        forall|d: DeviceView| connected_of(raw).contains(d) <==> reported_connected(raw, d),
    decreases raw.len(),
{
    if raw.len() > 0 {
        let prev = raw.drop_last();
        lemma_connected_dedup(prev);
        let last = raw.last();
        if last.connected {
            lemma_add_unique(connected_of(prev), device_of(last));
        }
        assert forall|d: DeviceView| connected_of(raw).contains(d) <==> reported_connected(
            raw,
            d,
        ) by {
            if reported_connected(raw, d) {
                let i = choose|i: int| 0 <= i < raw.len() && raw[i].connected && device_of(raw[i]) == d;
                if i < prev.len() {
                    assert(prev[i] == raw[i]);
                    assert(reported_connected(prev, d));
                }
            }
            if reported_connected(prev, d) {
                let i = choose|i: int| 0 <= i < prev.len() && prev[i].connected && device_of(prev[i]) == d;
                assert(raw[i] == prev[i]);
            }
            if last.connected && d == device_of(last) {
                assert(raw[raw.len() - 1] == last);
            }
        }
    }
}

} // verus!
