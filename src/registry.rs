//! The registry: one entry per module kind, the set of active shared
//! listeners, and the single path by which messages change module state.
use vstd::prelude::*;

use crate::bluetooth::{
    controller_of, controllers_view, default_bluetooth, BluetoothMod, BluetoothView, Controller,
    ControllerView, RawAdapterView,
};

verus! {

/// Identity of a shared listener.
#[derive(Clone, Copy, Debug, PartialEq, Eq, Hash, Structural)]
pub struct ListenerKey(pub u64);

/// A shared asynchronous data source, started at most once however many
/// modules require it.
pub trait Listener {
    spec fn spec_key() -> ListenerKey;

    fn key() -> (r: ListenerKey)
        ensures
            r == Self::spec_key(),
    ;
}

/// The key under which a module declares that it requires listener `T`.
pub fn require_listener<T: Listener>() -> (r: ListenerKey)
    ensures
        r == T::spec_key(),
{
    T::key()
}

/// Identity of a module type: the registry's key.
#[derive(Clone, Copy, Debug, PartialEq, Eq, Hash, Structural)]
pub enum ModuleKind {
    Bluetooth,
}

/// The state of one registered module.
pub enum EntryView {
    Bluetooth(BluetoothView),
}

impl EntryView {
    pub open spec fn kind(self) -> ModuleKind {
        match self {
            EntryView::Bluetooth(_) => ModuleKind::Bluetooth,
        }
    }
}

/// The listeners a module in the given state requires.
pub open spec fn entry_requires(e: EntryView) -> Seq<ListenerKey> {
    match e {
        EntryView::Bluetooth(_) => Seq::empty(),
    }
}

/// The state of a freshly registered module of the given kind.
pub open spec fn default_entry(k: ModuleKind) -> EntryView {
    match k {
        ModuleKind::Bluetooth => EntryView::Bluetooth(default_bluetooth()),
    }
}

/// A registered module, its concrete type erased into one of the known kinds.
#[derive(Debug)]
pub enum ModuleEntry {
    Bluetooth(BluetoothMod),
}

impl View for ModuleEntry {
    type V = EntryView;

    open spec fn view(&self) -> EntryView {
        match self {
            ModuleEntry::Bluetooth(m) => EntryView::Bluetooth(m.state()),
        }
    }
}

impl ModuleEntry {
    pub fn kind(&self) -> (r: ModuleKind)
        ensures
            r == self@.kind(),
    {
        match self {
            ModuleEntry::Bluetooth(_) => ModuleKind::Bluetooth,
        }
    }

    /// The listeners the held module requires.
    pub fn required_listeners(&self) -> (r: Vec<ListenerKey>)
        ensures
            r@ == entry_requires(self@),
    {
        match self {
            ModuleEntry::Bluetooth(m) => m.required_listeners(),
        }
    }
}

/// A status-bar feature that the registry can hold.
pub trait Module: Sized {
    spec fn spec_kind() -> ModuleKind;

    /// The registry entry state of this module.
    spec fn spec_entry(&self) -> EntryView;

    spec fn spec_name(&self) -> Seq<char>;

    spec fn spec_text(&self) -> Seq<char>;

    spec fn spec_active(&self) -> bool;

    fn kind() -> (r: ModuleKind)
        ensures
            r == Self::spec_kind(),
    ;

    /// The module in its initial state.
    fn new_default() -> (r: Self)
        ensures
            r.spec_entry() == default_entry(Self::spec_kind()),
    ;

    fn into_entry(self) -> (r: ModuleEntry)
        ensures
            r@ == self.spec_entry(),
            r@.kind() == Self::spec_kind(),
    ;

    /// The module held by `e`, if `e` holds this type.
    fn downcast_ref(e: &ModuleEntry) -> (r: Option<&Self>)
        ensures
            r is Some <==> e@.kind() == Self::spec_kind(),
            r matches Some(m) ==> m.spec_entry() == e@,
    ;

    /// The name used to enable the module in the configuration.
    fn name(&self) -> (r: String)
        ensures
            r@ == self.spec_name(),
    ;

    /// Whether the module should currently be shown.
    fn active(&self) -> (r: bool)
        ensures
            r == self.spec_active(),
    ;

    /// The text the module shows.
    fn view(&self) -> (r: String)
        ensures
            r@ == self.spec_text(),
    ;

    /// The shared listeners this module requires.
    fn required_listeners(&self) -> (r: Vec<ListenerKey>)
        ensures
            r@ == entry_requires(self.spec_entry()),
    ;
}

/// A deferred change of registry state, applied by `Registry::dispatch`.
#[derive(Debug)]
pub enum Message {
    /// Replace the bluetooth module's snapshot with the controllers of a new poll.
    UpdateBluetooth(Vec<Controller>),
    /// Run a shell command; the registry state is left as it is.
    Command(String),
}

/// A message as a value.
pub enum MessageView {
    UpdateBluetooth(Seq<ControllerView>),
    Command(Seq<char>),
}

impl View for Message {
    type V = MessageView;

    open spec fn view(&self) -> MessageView {
        match self {
            Message::UpdateBluetooth(cs) => MessageView::UpdateBluetooth(controllers_view(cs@)),
            Message::Command(c) => MessageView::Command(c@),
        }
    }
}

/// The registry's state: the registered modules and the active listeners.
pub struct RegistryView {
    pub modules: Seq<EntryView>,
    pub listeners: Seq<ListenerKey>,
}

/// At most one module of each kind, and each listener active at most once.
pub open spec fn registry_wf(v: RegistryView) -> bool {
    &&& forall|i: int, j: int|
        0 <= i < v.modules.len() && 0 <= j < v.modules.len() && i != j ==> #[trigger] v.modules[i].kind()
            != #[trigger] v.modules[j].kind()
    &&& v.listeners.no_duplicates()
}

/// The index of the module of kind `k`, if one is registered.
pub open spec fn index_of(s: Seq<EntryView>, k: ModuleKind) -> Option<int>
    decreases s.len(),
{
    if s.len() == 0 {
        None
    } else if s.last().kind() == k {
        Some(s.len() - 1)
    } else {
        index_of(s.drop_last(), k)
    }
}

/// The module of kind `k`, if one is registered.
pub open spec fn find_entry(s: Seq<EntryView>, k: ModuleKind) -> Option<EntryView> {
    match index_of(s, k) {
        Some(i) => Some(s[i]),
        None => None,
    }
}

/// The state after registering a module of kind `k`: a default one is added
/// unless one of that kind is already present.
pub open spec fn register_spec(v: RegistryView, k: ModuleKind) -> RegistryView {
    if find_entry(v.modules, k) is Some {
        v
    } else {
        RegistryView { modules: v.modules.push(default_entry(k)), ..v }
    }
}

/// The listeners after activating `k`: unchanged if it is already active.
pub open spec fn activate_spec(ls: Seq<ListenerKey>, k: ListenerKey) -> Seq<ListenerKey> {
    if ls.contains(k) {
        ls
    } else {
        ls.push(k)
    }
}

/// A module state with its controllers replaced by `cs`.
pub open spec fn update_entry(e: EntryView, cs: Seq<ControllerView>) -> EntryView {
    match e {
        EntryView::Bluetooth(b) => EntryView::Bluetooth(BluetoothView { controllers: cs, ..b }),
    }
}

/// The state after a message is applied.
pub open spec fn apply_message(v: RegistryView, m: MessageView) -> RegistryView {
    match m {
        MessageView::UpdateBluetooth(cs) => match index_of(v.modules, ModuleKind::Bluetooth) {
            Some(i) => RegistryView {
                modules: v.modules.update(i, update_entry(v.modules[i], cs)),
                ..v
            },
            None => v,
        },
        MessageView::Command(_) => v,
    }
}

proof fn lemma_index_of(s: Seq<EntryView>, k: ModuleKind)
    ensures
        match index_of(s, k) {
            Some(i) => 0 <= i < s.len() && s[i].kind() == k,
            None => forall|j: int| 0 <= j < s.len() ==> s[j].kind() != k,
        },
    decreases s.len(),
{
    if s.len() > 0 {
        lemma_index_of(s.drop_last(), k);
        if s.last().kind() != k {
            assert forall|j: int| 0 <= j < s.len() - 1 implies s[j] == s.drop_last()[j] by {}
        }
    }
}

/// The listeners the modules of `ms` require, module by module.
pub open spec fn required_keys(ms: Seq<EntryView>) -> Seq<ListenerKey>
    decreases ms.len(),
{
    if ms.len() == 0 {
        Seq::empty()
    } else {
        required_keys(ms.drop_last()) + entry_requires(ms.last())
    }
}

/// The listeners after activating each of `ks` in turn.
pub open spec fn activate_all(ls: Seq<ListenerKey>, ks: Seq<ListenerKey>) -> Seq<ListenerKey>
    decreases ks.len(),
{
    if ks.len() == 0 {
        ls
    } else {
        activate_spec(activate_all(ls, ks.drop_last()), ks.last())
    }
}

/// `k` stands in `ls` exactly once.
pub open spec fn active_once(ls: Seq<ListenerKey>, k: ListenerKey) -> bool {
    exists|i: int|
        0 <= i < ls.len() && ls[i] == k && forall|j: int| 0 <= j < ls.len() && ls[j] == k ==> j == i
}

proof fn lemma_activate_all_concat(ls: Seq<ListenerKey>, a: Seq<ListenerKey>, b: Seq<ListenerKey>)
    ensures
        activate_all(ls, a + b) == activate_all(activate_all(ls, a), b),
    decreases b.len(),
{
    if b.len() == 0 {
        assert(a + b =~= a);
    } else {
        lemma_activate_all_concat(ls, a, b.drop_last());
        assert((a + b).drop_last() =~= a + b.drop_last());
        assert((a + b).last() == b.last());
    }
}

proof fn lemma_activate_all(ls: Seq<ListenerKey>, ks: Seq<ListenerKey>)
    requires
        ls.no_duplicates(),
    ensures
        activate_all(ls, ks).no_duplicates(),
        forall|x: ListenerKey| activate_all(ls, ks).contains(x) <==> (ls.contains(x) || ks.contains(x)),
    decreases ks.len(),
{
    if ks.len() > 0 {
        let prev = ks.drop_last();
        lemma_activate_all(ls, prev);
        let p = activate_all(ls, prev);
        let k = ks.last();
        if !p.contains(k) {
            let t = p.push(k);
            assert forall|a: int, b: int|
                0 <= a < t.len() && 0 <= b < t.len() && a != b implies t[a] != t[b] by {
                if a < p.len() && b < p.len() {
                    assert(t[a] == p[a] && t[b] == p[b]);
                } else if a < p.len() {
                    assert(t[a] == p[a]);
                } else {
                    assert(t[b] == p[b]);
                }
            }
            assert forall|x: ListenerKey| t.contains(x) <==> (p.contains(x) || x == k) by {
                if t.contains(x) {
                    let i = choose|i: int| 0 <= i < t.len() && t[i] == x;
                    if i < p.len() {
                        assert(p[i] == x);
                    }
                }
                if p.contains(x) {
                    let i = choose|i: int| 0 <= i < p.len() && p[i] == x;
                    assert(t[i] == x);
                }
                if x == k {
                    assert(t[p.len() as int] == x);
                }
            }
        }
        assert forall|x: ListenerKey| ks.contains(x) <==> (prev.contains(x) || x == k) by {
            if ks.contains(x) {
                let i = choose|i: int| 0 <= i < ks.len() && ks[i] == x;
                if i < prev.len() {
                    assert(prev[i] == x);
                }
            }
            if prev.contains(x) {
                let i = choose|i: int| 0 <= i < prev.len() && prev[i] == x;
                assert(ks[i] == x);
            }
            if x == k {
                assert(ks[ks.len() - 1] == x);
            }
        }
    }
}

proof fn lemma_required_keys(ms: Seq<EntryView>, i: int, k: ListenerKey)
    requires
        0 <= i < ms.len(),
        entry_requires(ms[i]).contains(k),
    ensures
        required_keys(ms).contains(k),
    decreases ms.len(),
{
    let prev = ms.drop_last();
    let own = entry_requires(ms.last());
    if i < ms.len() - 1 {
        assert(prev[i] == ms[i]);
        lemma_required_keys(prev, i, k);
        let j = choose|j: int| 0 <= j < required_keys(prev).len() && required_keys(prev)[j] == k;
        assert((required_keys(prev) + own)[j] == k);
    } else {
        let j = choose|j: int| 0 <= j < own.len() && own[j] == k;
        assert((required_keys(prev) + own)[required_keys(prev).len() + j] == k);
    }
}

/// A listener that two or more registered modules require is active exactly
/// once after the registry activates what its modules require.
pub proof fn lemma_shared_listener_once(v: RegistryView, k: ListenerKey, a: int, b: int)
    requires
        registry_wf(v),
        0 <= a < v.modules.len(),
        0 <= b < v.modules.len(),
        a != b,
        entry_requires(v.modules[a]).contains(k),
        entry_requires(v.modules[b]).contains(k),
    ensures
        active_once(activate_all(v.listeners, required_keys(v.modules)), k),
{
    let ks = required_keys(v.modules);
    lemma_required_keys(v.modules, a, k);
    lemma_activate_all(v.listeners, ks);
    let ls = activate_all(v.listeners, ks);
    let i = choose|i: int| 0 <= i < ls.len() && ls[i] == k;
    assert forall|j: int| 0 <= j < ls.len() && ls[j] == k implies j == i by {}
}

/// Registering a module type makes a lookup of that type succeed; if the type
/// was not registered before, the lookup yields its default state.
pub proof fn lemma_get_after_register(v: RegistryView, k: ModuleKind)
    requires
        registry_wf(v),
    ensures
        find_entry(register_spec(v, k).modules, k) is Some,
        find_entry(v.modules, k) is None ==> find_entry(register_spec(v, k).modules, k) == Some(
            default_entry(k),
        ),
{
    if find_entry(v.modules, k) is None {
        let t = v.modules.push(default_entry(k));
        assert(t.drop_last() =~= v.modules);
        assert(default_entry(k).kind() == k) by {
            match k {
                ModuleKind::Bluetooth => {},
            }
        }
    }
}

proof fn lemma_index_of_kinds(s: Seq<EntryView>, t: Seq<EntryView>, k: ModuleKind)
    requires
        s.len() == t.len(),
        forall|i: int| 0 <= i < s.len() ==> s[i].kind() == t[i].kind(),
    ensures
        index_of(s, k) == index_of(t, k),
    decreases s.len(),
{
    if s.len() > 0 {
        lemma_index_of_kinds(s.drop_last(), t.drop_last(), k);
    }
}

/// Messages take effect one at a time, in the order they are dispatched: after
/// two snapshot updates the second snapshot stands whole, with nothing of the
/// first mixed in, and a command leaves the state as it was.
pub proof fn lemma_dispatch_in_order(
    v: RegistryView,
    first: Seq<ControllerView>,
    second: Seq<ControllerView>,
    command: Seq<char>,
)
    ensures
        apply_message(
            apply_message(v, MessageView::UpdateBluetooth(first)),
            MessageView::UpdateBluetooth(second),
        ) == apply_message(v, MessageView::UpdateBluetooth(second)),
        apply_message(v, MessageView::Command(command)) == v,
{
    let k = ModuleKind::Bluetooth;
    lemma_index_of(v.modules, k);
    match index_of(v.modules, k) {
        Some(i) => {
            let s1 = v.modules.update(i, update_entry(v.modules[i], first));
            assert forall|j: int| 0 <= j < s1.len() implies v.modules[j].kind() == s1[j].kind() by {
                match v.modules[j] {
                    EntryView::Bluetooth(_) => {},
                }
            }
            lemma_index_of_kinds(v.modules, s1, k);
            let s2 = s1.update(i, update_entry(s1[i], second));
            let direct = v.modules.update(i, update_entry(v.modules[i], second));
            match v.modules[i] {
                EntryView::Bluetooth(_) => {},
            }
            assert(s2 =~= direct);
        },
        None => {},
    }
}

/// Reducing the same raw snapshot twice gives the same controllers, and
/// dispatching that update a second time leaves the registry as the first one
/// did.
pub proof fn lemma_same_snapshot_twice(v: RegistryView, raw: Seq<RawAdapterView>)
    ensures
        ({
            let update = MessageView::UpdateBluetooth(
                raw.map_values(|a: RawAdapterView| controller_of(a)),
            );
            apply_message(apply_message(v, update), update) == apply_message(v, update)
        }),
{
    let cs = raw.map_values(|a: RawAdapterView| controller_of(a));
    lemma_dispatch_in_order(v, cs, cs, Seq::empty());
}

/// The owner of all modules and listeners.
#[derive(Debug)]
pub struct Registry {
    modules: Vec<ModuleEntry>,
    listeners: Vec<ListenerKey>,
}

impl View for Registry {
    type V = RegistryView;

    closed spec fn view(&self) -> RegistryView {
        RegistryView {
            modules: self.modules@.map_values(|e: ModuleEntry| e@),
            listeners: self.listeners@,
        }
    }
}

impl Registry {
    /// An empty registry.
    pub fn new() -> (r: Registry)
        ensures
            r@.modules.len() == 0,
            r@.listeners.len() == 0,
            registry_wf(r@),
    {
        Registry { modules: Vec::new(), listeners: Vec::new() }
    }

    /// The active listeners, each once.
    pub fn active_listeners(&self) -> (r: &Vec<ListenerKey>)
        ensures
            r@ == self@.listeners,
    {
        &self.listeners
    }

    /// The index of the module of kind `k`, if one is registered.
    fn position(&self, k: ModuleKind) -> (r: Option<usize>)
        ensures
            match r {
                Some(i) => index_of(self@.modules, k) == Some(i as int) && i < self.modules@.len(),
                None => index_of(self@.modules, k) is None,
            },
    {
        let mut found: Option<usize> = None;
        let mut i: usize = 0;
        while i < self.modules.len()
            invariant
                i <= self.modules.len(),
                self@.modules.len() == self.modules.len(),
                match found {
                    Some(j) => index_of(self@.modules.subrange(0, i as int), k) == Some(j as int)
                        && j < i,
                    None => index_of(self@.modules.subrange(0, i as int), k) is None,
                },
            decreases self.modules.len() - i,
        {
            proof {
                let next = self@.modules.subrange(0, i + 1);
                assert(next.drop_last() =~= self@.modules.subrange(0, i as int));
                assert(next.last() == self.modules@[i as int]@);
            }
            if self.modules[i].kind() == k {
                found = Some(i);
            }
            i += 1;
        }
        assert(self@.modules.subrange(0, i as int) =~= self@.modules);
        found
    }

    /// The entry of the module of kind `k`.
    pub fn get_entry(&self, k: ModuleKind) -> (r: Option<&ModuleEntry>)
        ensures
            match find_entry(self@.modules, k) {
                Some(e) => r matches Some(x) && x@ == e,
                None => r is None,
            },
    {
        proof {
            lemma_index_of(self@.modules, k);
        }
        match self.position(k) {
            Some(i) => {
                assert(self@.modules[i as int] == self.modules@[i as int]@);
                Some(&self.modules[i])
            },
            None => None,
        }
    }

    /// The registered module of type `T`; `None` if no module of that type
    /// was registered.
    pub fn get_module<T: Module>(&self) -> (r: Option<&T>)
        ensures
            match find_entry(self@.modules, T::spec_kind()) {
                Some(e) => r matches Some(m) && m.spec_entry() == e,
                None => r is None,
            },
    {
        let k = T::kind();
        proof {
            lemma_index_of(self@.modules, k);
        }
        match self.position(k) {
            Some(i) => {
                assert(self@.modules[i as int] == self.modules@[i as int]@);
                T::downcast_ref(&self.modules[i])
            },
            None => None,
        }
    }

    /// Registers a default module of type `T`, unless one of that type is
    /// already registered.
    pub fn register_module<T: Module>(&mut self)
        requires
            registry_wf(old(self)@),
        ensures
            final(self)@ == register_spec(old(self)@, T::spec_kind()),
            registry_wf(final(self)@),
    {
        let k = T::kind();
        proof {
            lemma_index_of(self@.modules, k);
        }
        if self.position(k).is_none() {
            let e = T::new_default().into_entry();
            self.modules.push(e);
            assert(self@.modules =~= old(self)@.modules.push(default_entry(k)));
        }
    }

    /// Activates listener `k`; nothing changes if it is already active.
    pub fn activate_listener(&mut self, k: ListenerKey)
        requires
            registry_wf(old(self)@),
        ensures
            final(self)@ == (RegistryView {
                listeners: activate_spec(old(self)@.listeners, k),
                ..old(self)@
            }),
            registry_wf(final(self)@),
    {
        let mut i: usize = 0;
        while i < self.listeners.len()
            invariant
                i <= self.listeners.len(),
                self@ == old(self)@,
                registry_wf(self@),
                forall|j: int| 0 <= j < i ==> self.listeners@[j] != k,
            decreases self.listeners.len() - i,
        {
            if self.listeners[i] == k {
                assert(self@.listeners[i as int] == k);
                assert(self@ == old(self)@);
                return;
            }
            i += 1;
        }
        let ghost ls = self@.listeners;
        self.listeners.push(k);
        proof {
            let t = ls.push(k);
            assert(self@.listeners == t);
            assert forall|a: int, b: int|
                0 <= a < t.len() && 0 <= b < t.len() && a != b implies t[a] != t[b] by {
                if a < ls.len() && b < ls.len() {
                    assert(t[a] == ls[a] && t[b] == ls[b]);
                }
            }
            assert(self@.modules =~= old(self)@.modules);
        }
    }

    /// Activates, once each, the listeners that the registered modules
    /// require.
    pub fn activate_required(&mut self)
        requires
            registry_wf(old(self)@),
        ensures
            final(self)@ == (RegistryView {
                listeners: activate_all(old(self)@.listeners, required_keys(old(self)@.modules)),
                ..old(self)@
            }),
            registry_wf(final(self)@),
    {
        let ghost ms = self@.modules;
        let ghost ls0 = self@.listeners;
        let mut i: usize = 0;
        while i < self.modules.len()
            invariant
                i <= self.modules.len(),
                self@.modules == ms,
                ms.len() == self.modules.len(),
                registry_wf(self@),
                self@.listeners == activate_all(ls0, required_keys(ms.subrange(0, i as int))),
            decreases self.modules.len() - i,
        {
            let keys = self.modules[i].required_listeners();
            let ghost start = self@.listeners;
            let ghost before = required_keys(ms.subrange(0, i as int));
            proof {
                let next = ms.subrange(0, i + 1);
                assert(next.drop_last() =~= ms.subrange(0, i as int));
                assert(next.last() == self.modules@[i as int]@);
            }
            let mut j: usize = 0;
            while j < keys.len()
                invariant
                    j <= keys.len(),
                    i < self.modules.len(),
                    self@.modules == ms,
                    ms.len() == self.modules.len(),
                    registry_wf(self@),
                    self@.listeners == activate_all(start, keys@.subrange(0, j as int)),
                decreases keys.len() - j,
            {
                proof {
                    let next = keys@.subrange(0, j + 1);
                    assert(next.drop_last() =~= keys@.subrange(0, j as int));
                }
                self.activate_listener(keys[j]);
                j += 1;
            }
            proof {
                assert(keys@.subrange(0, keys.len() as int) =~= keys@);
                lemma_activate_all_concat(ls0, before, keys@);
            }
            i += 1;
        }
        assert(ms.subrange(0, i as int) =~= ms);
    }

    /// Applies `m`: the only way module state changes. Returns the shell
    /// command that `m` asks to run, if any.
    pub fn dispatch(&mut self, m: Message) -> (r: Option<String>)
        requires
            registry_wf(old(self)@),
        ensures
            final(self)@ == apply_message(old(self)@, m@),
            registry_wf(final(self)@),
            r == match m {
                Message::Command(c) => Some(c),
                _ => None,
            },
    {
        match m {
            Message::UpdateBluetooth(cs) => {
                let ghost new_cs = controllers_view(cs@);
                assert(m@ == MessageView::UpdateBluetooth(new_cs));
                proof {
                    lemma_index_of(self@.modules, ModuleKind::Bluetooth);
                }
                match self.position(ModuleKind::Bluetooth) {
                    Some(i) => {
                        let e = self.modules.remove(i);
                        let updated = match e {
                            ModuleEntry::Bluetooth(mut b) => {
                                b.set_controllers(cs);
                                ModuleEntry::Bluetooth(b)
                            },
                        };
                        self.modules.insert(i, updated);
                        assert(self@.modules =~= old(self)@.modules.update(
                            i as int,
                            update_entry(old(self)@.modules[i as int], new_cs),
                        ));
                    },
                    None => {
                        assert(self@ == old(self)@);
                    },
                }
                None
            },
            Message::Command(c) => Some(c),
        }
    }
}

/// Registers every module kind this library provides.
pub fn register_modules(registry: &mut Registry)
    requires
        registry_wf(old(registry)@),
    ensures
        final(registry)@ == register_spec(old(registry)@, ModuleKind::Bluetooth),
        registry_wf(final(registry)@),
{
    registry.register_module::<BluetoothMod>();
}

} // verus!
