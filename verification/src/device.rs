//! The device core, its link to the device worker, and the key dispatch
//! loop.

use crate::button::{Button, ButtonView};
use crate::panel::{
    copy_raw_panel, empty_panel, is_unique_of, live_view, make_panel_unique, raw_view,
    ButtonPanel, ButtonStore, PanelView, RawButtonPanel, UniqueButton, UniquePanel,
};
use crate::stack::{frame_view, resolve_key, FrameView, PanelStack};
use vstd::prelude::*;

verus! {

/// The hardware family of a device.
#[derive(Clone, Copy, Debug, PartialEq, Eq, Structural)]
pub enum Kind {
    Original,
    OriginalV2,
    Mini,
    RevisedMini,
    Xl,
    Mk2,
    Plus,
    Module6Keys,
    Module15Keys,
    Module32Keys,
}

/// The stored configuration of one device.
pub struct DeviceConfig {
    pub vid: u16,
    pub pid: u16,
    pub serial: String,
    pub brightness: u8,
    pub layout: RawButtonPanel,
    /// Open key/value data of extensions, as serialized text.
    pub plugin_data: String,
}

/// What an opened connection reports about its device.
pub struct DeviceProfile {
    /// The serial number, where the device gave one.
    pub serial: Option<String>,
    pub image_size: (usize, usize),
    pub kind: Kind,
    pub key_count: u8,
}

/// A command from the core to the device worker.
pub enum DeviceThreadCommunication {
    RefreshScreen,
    SetImage(u8, Vec<u8>),
    SetBrightness(u8),
    Shutdown,
}

/// An event told to every connected client.
pub enum SDGlobalEvent {
    DeviceConnected { serial_number: String },
    DeviceDisconnected { serial_number: String },
}

/// What the core tells its modules.
pub enum SDCoreEvent {
    /// A button was put under a free `key` of `panel`.
    ButtonAdded { key: u8, panel: UniquePanel, added_button: UniqueButton },
    /// The button under `key` of `panel` was replaced.
    ButtonUpdated { key: u8, panel: UniquePanel, new_button: UniqueButton, old_button: UniqueButton },
    /// The button under `key` of `panel` left.
    ButtonDeleted { key: u8, panel: UniquePanel, deleted_button: UniqueButton },
    /// The button under `key` was pressed or released.
    ButtonAction { key: u8, pressed_button: UniqueButton },
}

/// The sending end of the outbound channel: the batches sent so far, oldest
/// first.
pub struct DeviceThreadHandle {
    pub sent: Vec<Vec<DeviceThreadCommunication>>,
}

/// The worker bound to a live core.
pub struct ThreadHandles {
    pub renderer: DeviceThreadHandle,
}

/// A key transition resolved to the button it reached.
#[derive(Clone, Copy, Debug)]
pub struct KeyAction {
    pub key: u8,
    pub pressed: bool,
    pub button: UniqueButton,
}

/// The core of one device.
pub struct SDCore {
    pub serial_number: String,
    pub device_config: DeviceConfig,
    pub current_stack: PanelStack,
    pub buttons: ButtonStore,
    pub image_size: (usize, usize),
    pub kind: Kind,
    pub key_count: u8,
    pub pool_rate: u32,
    pub should_close: bool,
    /// Events handed to the socket side, oldest first.
    pub socket_events: Vec<SDGlobalEvent>,
    pub handles: Option<ThreadHandles>,
}

/// The action that a key transition causes on the stack `s`: none where no
/// button occupies the key in the active frame.
pub open spec fn key_action(
    panels: Seq<ButtonPanel>,
    s: Seq<UniquePanel>,
    key: u8,
    pressed: bool,
) -> Option<KeyAction> {
    match resolve_key(panels, s, key) {
        Some(button) => Some(KeyAction { key, pressed, button }),
        None => None,
    }
}

/// The actions that the key transitions `events` cause on `s`, in order.
pub open spec fn dispatched(
    panels: Seq<ButtonPanel>,
    s: Seq<UniquePanel>,
    events: Seq<(u8, bool)>,
) -> Seq<KeyAction>
    decreases events.len(),
{
    if events.len() == 0 {
        Seq::empty()
    } else {
        let rest = dispatched(panels, s, events.drop_last());
        match key_action(panels, s, events.last().0, events.last().1) {
            Some(a) => rest.push(a),
            None => rest,
        }
    }
}

/// What a run of the dispatch loop does with the pending transitions: the
/// actions it causes and how many transitions it consumes. A closed core
/// consumes nothing.
pub open spec fn run_outcome(
    closed: bool,
    panels: Seq<ButtonPanel>,
    s: Seq<UniquePanel>,
    pending: Seq<(u8, bool)>,
) -> (Seq<KeyAction>, nat) {
    if closed {
        (Seq::empty(), 0)
    } else {
        (dispatched(panels, s, pending), pending.len())
    }
}

/// Transitions that arrive while the core is open are all dispatched, in
/// order; transitions that arrive once it is closed are neither consumed
/// nor dispatched.
pub proof fn lemma_close_cuts_dispatch(
    panels: Seq<ButtonPanel>,
    s: Seq<UniquePanel>,
    before: Seq<(u8, bool)>,
    after: Seq<(u8, bool)>,
)
    ensures
        run_outcome(false, panels, s, before) == (dispatched(panels, s, before), before.len()),
        run_outcome(true, panels, s, after) == (Seq::<KeyAction>::empty(), 0nat),
        dispatched(panels, s, before).len() <= before.len(),
        forall|i: int|
            0 <= i < before.len() && resolve_key(panels, s, before[i].0).is_some() ==> dispatched(
                panels,
                s,
                before,
            ).contains(#[trigger] key_action(panels, s, before[i].0, before[i].1).unwrap()),
    decreases before.len(),
{
    if before.len() > 0 {
        let p = before.drop_last();
        lemma_close_cuts_dispatch(panels, s, p, after);
        let d = dispatched(panels, s, before);
        let dp = dispatched(panels, s, p);
        assert forall|i: int|
            0 <= i < before.len() && resolve_key(panels, s, before[i].0).is_some() implies d.contains(
            #[trigger] key_action(panels, s, before[i].0, before[i].1).unwrap()) by {
            let a = key_action(panels, s, before[i].0, before[i].1).unwrap();
            if i < p.len() {
                assert(p[i] == before[i]);
                assert(dp.contains(key_action(panels, s, p[i].0, p[i].1).unwrap()));
                let j = choose|j: int| 0 <= j < dp.len() && dp[j] == a;
                assert(d[j] == a);
            } else {
                assert(d[d.len() - 1] == a);
            }
        }
    }
}

impl SDCore {
    /// The invariant of a core: its stack holds a frame.
    pub open spec fn wf(&self) -> bool {
        self.current_stack.wf()
    }

    /// A core that is closed from the start: configuration known, no
    /// hardware, no worker.
    pub fn blank(device_config: DeviceConfig) -> (core: SDCore)
        ensures
            core.wf(),
            core.should_close,
            core.handles.is_none(),
            core.serial_number@ == device_config.serial@,
            core.device_config == device_config,
            core.current_stack@.len() == 1,
            core.current_stack@[0].slot == 0,
            core.buttons.panels@.len() == 1,
            core.buttons.panels@[0].buttons@ == Map::<u8, UniqueButton>::empty(),
            core.buttons@.len() == 0,
            core.image_size == (0usize, 0usize),
            core.kind == Kind::Original,
            core.key_count == 0,
            core.pool_rate == 0,
            core.socket_events@.len() == 0,
    {
        let serial_number = device_config.serial.clone();
        let mut buttons = ButtonStore::new();
        let root = buttons.make_panel_live(empty_panel());
        SDCore {
            serial_number,
            device_config,
            current_stack: PanelStack::new(root),
            buttons,
            image_size: (0, 0),
            kind: Kind::Original,
            key_count: 0,
            pool_rate: 0,
            should_close: true,
            socket_events: Vec::new(),
            handles: None,
        }
    }

    /// A live core over an opened connection, with its key handler. The
    /// serial number is the one the device gave, else the configured one.
    /// Connecting is announced to the socket side.
    pub fn new(device_config: DeviceConfig, connection: DeviceProfile, pool_rate: u32) -> (handler:
        KeyHandler)
        ensures
            handler.wf(),
            !handler.core.should_close,
            handler.receiver@.len() == 0,
            handler.core.serial_number@ == (match connection.serial {
                Some(s) => s@,
                None => device_config.serial@,
            }),
            handler.core.device_config == device_config,
            handler.core.image_size == connection.image_size,
            handler.core.kind == connection.kind,
            handler.core.key_count == connection.key_count,
            handler.core.pool_rate == pool_rate,
            handler.core.current_stack@.len() == 1,
            handler.core.current_stack@[0].slot == 0,
            handler.core.buttons.panels@.len() == 1,
            handler.core.buttons.panels@[0].buttons@ == Map::<u8, UniqueButton>::empty(),
            handler.core.buttons@.len() == 0,
            handler.core.handles.is_some(),
            handler.core.handles.unwrap().renderer.sent@.len() == 0,
            handler.core.socket_events@.len() == 1,
            handler.core.socket_events@[0] is DeviceConnected,
            handler.core.socket_events@[0]->DeviceConnected_serial_number@
                == handler.core.serial_number@,
    {
        let serial_number = match &connection.serial {
            Some(s) => s.clone(),
            None => device_config.serial.clone(),
        };
        let mut socket_events: Vec<SDGlobalEvent> = Vec::new();
        socket_events.push(SDGlobalEvent::DeviceConnected { serial_number: serial_number.clone() });
        let mut buttons = ButtonStore::new();
        let root = buttons.make_panel_live(empty_panel());
        let core = SDCore {
            serial_number,
            device_config,
            current_stack: PanelStack::new(root),
            buttons,
            image_size: connection.image_size,
            kind: connection.kind,
            key_count: connection.key_count,
            pool_rate,
            should_close: false,
            socket_events,
            handles: Some(ThreadHandles { renderer: DeviceThreadHandle { sent: Vec::new() } }),
        };
        KeyHandler { core, receiver: Vec::new() }
    }

    /// Tells the worker to refresh the screen.
    pub fn mark_for_redraw(&mut self)
        requires
            old(self).handles.is_some(),
        ensures
            final(self).handles.is_some(),
            final(self).handles.unwrap().renderer.sent@.len() == old(
                self,
            ).handles.unwrap().renderer.sent@.len() + 1,
            final(self).handles.unwrap().renderer.sent@.drop_last() == old(
                self,
            ).handles.unwrap().renderer.sent@,
            final(self).handles.unwrap().renderer.sent@.last()@.len() == 1,
            final(self).handles.unwrap().renderer.sent@.last()@[0] is RefreshScreen,
            unchanged_but_handles(*old(self), *final(self)),
    {
        let mut batch: Vec<DeviceThreadCommunication> = Vec::new();
        batch.push(DeviceThreadCommunication::RefreshScreen);
        self.send_commands(batch);
    }

    /// Sends a batch of commands to the worker.
    pub fn send_commands(&mut self, commands: Vec<DeviceThreadCommunication>)
        requires
            old(self).handles.is_some(),
        ensures
            final(self).handles.is_some(),
            final(self).handles.unwrap().renderer.sent@ == old(
                self,
            ).handles.unwrap().renderer.sent@.push(commands),
            unchanged_but_handles(*old(self), *final(self)),
    {
        let mut handles = self.handles.take().unwrap();
        handles.renderer.sent.push(commands);
        self.handles = Some(handles);
    }

    /// The serial number under which the device is configured.
    pub fn serial_number(&self) -> (s: String)
        ensures
            s@ == self.device_config.serial@,
    {
        self.device_config.serial.clone()
    }

    /// Whether the core is closed.
    pub fn is_closed(&self) -> (closed: bool)
        ensures
            closed == self.should_close,
    {
        self.should_close
    }

    /// Closes the core: the disconnect is announced to the socket side, the
    /// flag is set, and a bound worker is told to shut down. Panels and
    /// button cells stay as they are.
    pub fn close(&mut self)
        ensures
            final(self).should_close,
            final(self).socket_events@.len() == old(self).socket_events@.len() + 1,
            final(self).socket_events@.drop_last() == old(self).socket_events@,
            final(self).socket_events@.last() is DeviceDisconnected,
            final(self).socket_events@.last()->DeviceDisconnected_serial_number@ == old(
                self,
            ).serial_number@,
            final(self).handles.is_some() == old(self).handles.is_some(),
            final(self).handles.is_some() ==> {
                let sent = final(self).handles.unwrap().renderer.sent@;
                &&& sent.drop_last() == old(self).handles.unwrap().renderer.sent@
                &&& sent.len() == old(self).handles.unwrap().renderer.sent@.len() + 1
                &&& sent.last()@.len() == 1
                &&& sent.last()@[0] is Shutdown
            },
            final(self).current_stack == old(self).current_stack,
            final(self).buttons == old(self).buttons,
            final(self).serial_number == old(self).serial_number,
            final(self).device_config == old(self).device_config,
            final(self).image_size == old(self).image_size,
            final(self).kind == old(self).kind,
            final(self).key_count == old(self).key_count,
            final(self).pool_rate == old(self).pool_rate,
    {
        self.socket_events.push(
            SDGlobalEvent::DeviceDisconnected { serial_number: self.serial_number.clone() },
        );
        self.should_close = true;
        if self.handles.is_some() {
            let mut batch: Vec<DeviceThreadCommunication> = Vec::new();
            batch.push(DeviceThreadCommunication::Shutdown);
            self.send_commands(batch);
        }
    }
}

/// Two cores that differ at most in what was sent to the worker.
pub open spec fn unchanged_but_handles(a: SDCore, b: SDCore) -> bool {
    &&& a.serial_number == b.serial_number
    &&& a.device_config == b.device_config
    &&& a.current_stack == b.current_stack
    &&& a.buttons == b.buttons
    &&& a.image_size == b.image_size
    &&& a.kind == b.kind
    &&& a.key_count == b.key_count
    &&& a.pool_rate == b.pool_rate
    &&& a.should_close == b.should_close
    &&& a.socket_events == b.socket_events
}

/// The action of pressing `key`, resolved in the active frame as it is now.
pub fn button_down(core: &SDCore, key: u8) -> (a: Option<KeyAction>)
    ensures
        a == key_action(core.buttons.panels@, core.current_stack@, key, true),
{
    match core.current_stack.button_at(&core.buttons, key) {
        Some(button) => Some(KeyAction { key, pressed: true, button }),
        None => None,
    }
}

/// The action of releasing `key`, resolved in the active frame as it is
/// now.
pub fn button_up(core: &SDCore, key: u8) -> (a: Option<KeyAction>)
    ensures
        a == key_action(core.buttons.panels@, core.current_stack@, key, false),
{
    match core.current_stack.button_at(&core.buttons, key) {
        Some(button) => Some(KeyAction { key, pressed: false, button }),
        None => None,
    }
}

/// How one iteration of the dispatch loop ended.
pub enum LoopStep {
    /// The core was closed: the loop ends, nothing was consumed.
    Closed,
    /// The worker is gone and nothing is pending: the loop ends.
    Disconnected,
    /// One transition was consumed; it caused the action, if any.
    Dispatched(Option<KeyAction>),
}

/// The consumer of the inbound channel of one device.
pub struct KeyHandler {
    pub core: SDCore,
    /// The transitions received and not yet consumed, in hardware order.
    pub receiver: Vec<(u8, bool)>,
}

impl KeyHandler {
    /// The invariant of a handler.
    pub open spec fn wf(&self) -> bool {
        self.core.wf()
    }

    /// The transitions that wait to be consumed.
    pub open spec fn pending(&self) -> Seq<(u8, bool)> {
        self.receiver@
    }

    /// Takes in a transition from the device worker.
    pub fn deliver(&mut self, key: u8, pressed: bool)
        ensures
            final(self).core == old(self).core,
            final(self).pending() == old(self).pending().push((key, pressed)),
    {
        self.receiver.push((key, pressed));
    }

    /// One iteration of the loop: ends on a closed core or an exhausted
    /// channel, else consumes the oldest pending transition and resolves it
    /// against the active frame.
    pub fn step(&mut self) -> (r: LoopStep)
        ensures
            final(self).core == old(self).core,
            old(self).core.should_close ==> r is Closed && final(self).pending() == old(
                self,
            ).pending(),
            !old(self).core.should_close && old(self).pending().len() == 0 ==> r is Disconnected
                && final(self).pending() == old(self).pending(),
            !old(self).core.should_close && old(self).pending().len() > 0 ==> {
                let e = old(self).pending()[0];
                &&& final(self).pending() == old(self).pending().skip(1)
                &&& r == LoopStep::Dispatched(
                    key_action(
                        old(self).core.buttons.panels@,
                        old(self).core.current_stack@,
                        e.0,
                        e.1,
                    ),
                )
            },
    {
        if self.core.is_closed() {
            return LoopStep::Closed;
        }
        if self.receiver.len() == 0 {
            return LoopStep::Disconnected;
        }
        let (key, state) = self.receiver.remove(0);
        assert(self.receiver@ =~= old(self).receiver@.skip(1));
        if state {
            LoopStep::Dispatched(button_down(&self.core, key))
        } else {
            LoopStep::Dispatched(button_up(&self.core, key))
        }
    }

    /// Runs the loop until the core is found closed or the channel is
    /// exhausted, and returns the actions caused, in order.
    pub fn run_loop(&mut self) -> (actions: Vec<KeyAction>)
        ensures
            final(self).core == old(self).core,
            run_outcome(
                old(self).core.should_close,
                old(self).core.buttons.panels@,
                old(self).core.current_stack@,
                old(self).pending(),
            ) == (actions@, (old(self).pending().len() - final(self).pending().len()) as nat),
            final(self).pending().len() <= old(self).pending().len(),
            final(self).pending() == old(self).pending().skip(
                old(self).pending().len() - final(self).pending().len(),
            ),
            old(self).core.should_close ==> final(self).pending() == old(self).pending(),
            !old(self).core.should_close ==> final(self).pending().len() == 0,
    {
        let mut actions: Vec<KeyAction> = Vec::new();
        let ghost stack = self.core.current_stack@;
        let ghost panels = self.core.buttons.panels@;
        let ghost all = self.pending();
        let ghost mut n: int = 0;
        assert(all.skip(0) =~= all);
        loop
            invariant
                self.core == old(self).core,
                stack == self.core.current_stack@,
                panels == self.core.buttons.panels@,
                all == old(self).pending(),
                0 <= n <= all.len(),
                self.pending() == all.skip(n),
                self.core.should_close ==> n == 0 && actions@.len() == 0,
                !self.core.should_close ==> actions@ == dispatched(panels, stack, all.take(n)),
            ensures
                self.core == old(self).core,
                0 <= n <= all.len(),
                self.pending() == all.skip(n),
                self.core.should_close ==> n == 0 && actions@.len() == 0,
                !self.core.should_close ==> n == all.len() && actions@ == dispatched(
                    panels,
                    stack,
                    all,
                ),
            decreases all.len() - n,
        {
            proof {
                if !self.core.should_close {
                    if n < all.len() {
                        assert(all.take(n + 1).drop_last() =~= all.take(n));
                        assert(all.take(n + 1).last() == self.pending()[0]);
                        assert(all.skip(n).skip(1) =~= all.skip(n + 1));
                    } else {
                        assert(all.take(n) =~= all);
                    }
                }
            }
            match self.step() {
                LoopStep::Closed => {
                    break ;
                },
                LoopStep::Disconnected => {
                    break ;
                },
                LoopStep::Dispatched(a) => {
                    proof {
                        n = n + 1;
                    }
                    match a {
                        Some(action) => {
                            actions.push(action);
                        },
                        None => {},
                    }
                },
            }
        }
        assert(actions@ =~= run_outcome(
            old(self).core.should_close,
            old(self).core.buttons.panels@,
            old(self).core.current_stack@,
            old(self).pending(),
        ).0);
        actions
    }
}

/// The value of a device configuration.
pub ghost struct DeviceConfigView {
    pub vid: u16,
    pub pid: u16,
    pub serial: Seq<char>,
    pub brightness: u8,
    pub layout: PanelView,
    pub plugin_data: Seq<char>,
}

/// The value of `c`.
pub open spec fn config_view(c: &DeviceConfig) -> DeviceConfigView {
    DeviceConfigView {
        vid: c.vid,
        pid: c.pid,
        serial: c.serial@,
        brightness: c.brightness,
        layout: raw_view(&c.layout),
        plugin_data: c.plugin_data@,
    }
}

/// An independent copy of a configuration.
pub fn copy_config(c: &DeviceConfig) -> (r: DeviceConfig)
    ensures
        config_view(&r) == config_view(c),
{
    DeviceConfig {
        vid: c.vid,
        pid: c.pid,
        serial: c.serial.clone(),
        brightness: c.brightness,
        layout: copy_raw_panel(&c.layout),
        plugin_data: c.plugin_data.clone(),
    }
}

/// What a frame shows: each of its cells resolved in `cells`.
pub open spec fn shown(cells: Seq<ButtonView>, f: FrameView) -> PanelView {
    PanelView {
        display_name: f.display_name,
        data: f.data,
        buttons: Map::new(|k: u8| f.buttons.contains_key(k), |k: u8| cells[f.buttons[k].cell as int]),
    }
}

/// The batches sent to the worker so far; none for a core without worker.
pub open spec fn sent_batches(core: &SDCore) -> Seq<Vec<DeviceThreadCommunication>> {
    match core.handles {
        Some(h) => h.renderer.sent@,
        None => Seq::empty(),
    }
}

/// Whether `batch` is the single command to refresh the screen.
pub open spec fn is_refresh(batch: Vec<DeviceThreadCommunication>) -> bool {
    batch@.len() == 1 && batch@[0] is RefreshScreen
}

/// Whether `batch` is the single command to set the brightness `b`.
pub open spec fn is_brightness(batch: Vec<DeviceThreadCommunication>, b: u8) -> bool {
    batch@.len() == 1 && batch@[0] == DeviceThreadCommunication::SetBrightness(b)
}

/// Whether the only frame of `core` is the panel it kept last, and that
/// panel shows `layout`.
pub open spec fn shows_layout(core: &SDCore, layout: &RawButtonPanel) -> bool {
    &&& core.buttons.panels@.len() > 0
    &&& core.current_stack@ == seq![UniquePanel { slot: (core.buttons.panels@.len() - 1) as usize }]
    &&& shown(core.buttons@, frame_view(core.buttons.panels@.last())) == raw_view(layout)
}

/// How a reset leaves a core: `layout` is shown anew as the only frame, in
/// a fresh panel and in fresh cells above the ones kept; a bound worker was
/// asked to redraw; nothing else changed.
pub open spec fn stack_reset_to(before: &SDCore, after: &SDCore, layout: &RawButtonPanel) -> bool {
    &&& after.wf()
    &&& shows_layout(after, layout)
    &&& after.buttons.panels@.drop_last() == before.buttons.panels@
    &&& is_unique_of(layout, before.buttons@, after.buttons@, &after.buttons.panels@.last())
    &&& after.handles.is_some() == before.handles.is_some()
    &&& before.handles.is_some() ==> {
        &&& sent_batches(after).len() == sent_batches(before).len() + 1
        &&& sent_batches(after).drop_last() == sent_batches(before)
        &&& is_refresh(sent_batches(after).last())
    }
    &&& after.should_close == before.should_close
    &&& after.serial_number == before.serial_number
    &&& after.device_config == before.device_config
    &&& after.socket_events == before.socket_events
    &&& after.key_count == before.key_count
    &&& after.kind == before.kind
    &&& after.image_size == before.image_size
    &&& after.pool_rate == before.pool_rate
}

/// Replaces the stack of `core` with `layout` made live, in fresh cells and
/// as a fresh panel, and asks a bound worker to redraw.
pub fn reset_stack(core: &mut SDCore, layout: &RawButtonPanel)
    ensures
        stack_reset_to(old(core), final(core), layout),
{
    let live = make_panel_unique(&mut core.buttons, layout);
    assert(shown(core.buttons@, frame_view(live)).buttons =~= live_view(core.buttons@, &live).buttons);
    let h = core.buttons.make_panel_live(live);
    assert(core.buttons.panels@.drop_last() =~= old(core).buttons.panels@);
    core.current_stack.reset(h);
    if core.handles.is_some() {
        core.mark_for_redraw();
    }
}

/// Sets the brightness: it is kept in the configuration and a bound worker
/// is told.
pub fn set_brightness(core: &mut SDCore, brightness: u8)
    ensures
        final(core).device_config.brightness == brightness,
        final(core).device_config.vid == old(core).device_config.vid,
        final(core).device_config.pid == old(core).device_config.pid,
        final(core).device_config.serial == old(core).device_config.serial,
        final(core).device_config.layout == old(core).device_config.layout,
        final(core).device_config.plugin_data == old(core).device_config.plugin_data,
        final(core).handles.is_some() == old(core).handles.is_some(),
        old(core).handles.is_some() ==> sent_batches(final(core)) == sent_batches(old(core)).push(
            sent_batches(final(core)).last(),
        ) && is_brightness(sent_batches(final(core)).last(), brightness),
        final(core).current_stack == old(core).current_stack,
        final(core).buttons == old(core).buttons,
        final(core).should_close == old(core).should_close,
        final(core).serial_number == old(core).serial_number,
        final(core).socket_events == old(core).socket_events,
        final(core).image_size == old(core).image_size,
        final(core).kind == old(core).kind,
        final(core).key_count == old(core).key_count,
        final(core).pool_rate == old(core).pool_rate,
{
    core.device_config.brightness = brightness;
    if core.handles.is_some() {
        let mut batch: Vec<DeviceThreadCommunication> = Vec::new();
        batch.push(DeviceThreadCommunication::SetBrightness(brightness));
        core.send_commands(batch);
    }
}

/// Two cores that differ at most in their stack, their live panels and
/// their button cells.
pub open spec fn unchanged_but_panels(a: SDCore, b: SDCore) -> bool {
    &&& a.serial_number == b.serial_number
    &&& a.device_config == b.device_config
    &&& a.image_size == b.image_size
    &&& a.kind == b.kind
    &&& a.key_count == b.key_count
    &&& a.pool_rate == b.pool_rate
    &&& a.should_close == b.should_close
    &&& a.socket_events == b.socket_events
    &&& a.handles == b.handles
}

/// The active panel of `core`, where the store keeps it.
pub open spec fn active_slot(core: &SDCore) -> Option<int> {
    if core.current_stack@.len() > 0 && core.current_stack@.last().slot
        < core.buttons.panels@.len() {
        Some(core.current_stack@.last().slot as int)
    } else {
        None
    }
}

/// Two cores whose live panels differ at most in the buttons of the panel
/// at `slot`, and in nothing else but their cells.
pub open spec fn same_but_buttons_of(a: &SDCore, b: &SDCore, slot: int) -> bool {
    &&& unchanged_but_panels(*a, *b)
    &&& b.current_stack == a.current_stack
    &&& b.buttons.panels@.len() == a.buttons.panels@.len()
    &&& b.buttons.panels@[slot].display_name == a.buttons.panels@[slot].display_name
    &&& b.buttons.panels@[slot].data == a.buttons.panels@[slot].data
    &&& forall|j: int|
        0 <= j < a.buttons.panels@.len() && j != slot ==> b.buttons.panels@[j]
            == a.buttons.panels@[j]
}

/// Puts `button` under `key` of the active panel, in a fresh cell, and
/// returns the event to tell: added where the key was free, updated where
/// it was not. Everyone who holds the panel sees the button. Without an
/// active panel nothing happens.
pub fn set_button(core: &mut SDCore, key: u8, button: Button) -> (r: Option<SDCoreEvent>)
    ensures
        match active_slot(old(core)) {
            None => r.is_none() && *final(core) == *old(core),
            Some(slot) => {
                let panel = old(core).current_stack@.last();
                let before = old(core).buttons.panels@[slot].buttons@;
                let cell = UniqueButton { cell: old(core).buttons@.len() as usize };
                &&& same_but_buttons_of(old(core), final(core), slot)
                &&& final(core).buttons@ == old(core).buttons@.push(button@)
                &&& final(core).buttons.panels@[slot].buttons@ == before.insert(key, cell)
                &&& r == Some(
                    if before.contains_key(key) {
                        SDCoreEvent::ButtonUpdated {
                            key,
                            panel,
                            new_button: cell,
                            old_button: before[key],
                        }
                    } else {
                        SDCoreEvent::ButtonAdded { key, panel, added_button: cell }
                    },
                )
            },
        },
{
    if core.current_stack.len() == 0 {
        return None;
    }
    let panel = core.current_stack.active();
    if panel.slot >= core.buttons.panels.len() {
        return None;
    }
    let cell = core.buttons.make_button_unique(button);
    let mut live = core.buttons.panels.remove(panel.slot);
    let previous = live.buttons.insert(key, cell);
    core.buttons.panels.insert(panel.slot, live);
    match previous {
        Some(old_button) => Some(
            SDCoreEvent::ButtonUpdated { key, panel, new_button: cell, old_button },
        ),
        None => Some(SDCoreEvent::ButtonAdded { key, panel, added_button: cell }),
    }
}

/// Takes the button under `key` out of the active panel and returns the
/// event to tell. The cell stays as it is, for whoever else holds it. With
/// a free key, or without an active panel, nothing happens.
pub fn clear_button(core: &mut SDCore, key: u8) -> (r: Option<SDCoreEvent>)
    ensures
        match active_slot(old(core)) {
            None => r.is_none() && *final(core) == *old(core),
            Some(slot) => {
                let panel = old(core).current_stack@.last();
                let before = old(core).buttons.panels@[slot].buttons@;
                if before.contains_key(key) {
                    &&& same_but_buttons_of(old(core), final(core), slot)
                    &&& final(core).buttons.cells == old(core).buttons.cells
                    &&& final(core).buttons.panels@[slot].buttons@ == before.remove(key)
                    &&& r == Some(
                        SDCoreEvent::ButtonDeleted { key, panel, deleted_button: before[key] },
                    )
                } else {
                    r.is_none() && *final(core) == *old(core)
                }
            },
        },
{
    broadcast use vstd::std_specs::hash::group_hash_axioms;

    if core.current_stack.len() == 0 {
        return None;
    }
    let panel = core.current_stack.active();
    if panel.slot >= core.buttons.panels.len() {
        return None;
    }
    let deleted_button = match core.buttons.panels[panel.slot].buttons.get(&key) {
        None => {
            return None;
        },
        Some(h) => *h,
    };
    let mut live = core.buttons.panels.remove(panel.slot);
    live.buttons.remove(&key);
    core.buttons.panels.insert(panel.slot, live);
    Some(SDCoreEvent::ButtonDeleted { key, panel, deleted_button })
}

} // verus!
