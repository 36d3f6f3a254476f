//! Devices of an emulated input server (EIS).
//!
//! The compositor announces devices; those that this side may drive are given
//! roles. An input event goes to the device that has the event's role.

use std::collections::HashMap;
use vstd::prelude::*;

use crate::text::{join2, join3, same_text};

verus! {

broadcast use vstd::std_specs::hash::group_hash_axioms;

/// The area that an absolute pointer moves in.
#[derive(Clone, Copy, Debug, PartialEq, Eq, Structural)]
pub struct DeviceRegion {
    pub x: u32,
    pub y: u32,
    pub width: u32,
    pub height: u32,
}

/// Whether a device stands for hardware or is there for a client to drive.
#[derive(Clone, Copy, Debug, PartialEq, Eq, Structural)]
pub enum DeviceType {
    Virtual,
    Physical,
}

/// Interfaces that input goes through.
#[derive(Clone, Copy, Debug, PartialEq, Eq, Structural)]
pub enum Interface {
    Keyboard,
    Pointer,
    PointerAbsolute,
    Button,
    Scroll,
    Touchscreen,
}

impl Interface {
    /// The interface's name in the protocol.
    pub open spec fn protocol_name(self) -> Seq<char> {
        match self {
            Interface::Keyboard => "ei_keyboard"@,
            Interface::Pointer => "ei_pointer"@,
            Interface::PointerAbsolute => "ei_pointer_absolute"@,
            Interface::Button => "ei_button"@,
            Interface::Scroll => "ei_scroll"@,
            Interface::Touchscreen => "ei_touchscreen"@,
        }
    }

    pub fn name(&self) -> (r: &'static str)
        ensures
            r@ == self.protocol_name(),
    {
        match self {
            Interface::Keyboard => "ei_keyboard",
            Interface::Pointer => "ei_pointer",
            Interface::PointerAbsolute => "ei_pointer_absolute",
            Interface::Button => "ei_button",
            Interface::Scroll => "ei_scroll",
            Interface::Touchscreen => "ei_touchscreen",
        }
    }

    /// The interface of that name, if input goes through it.
    pub fn from_name(name: &str) -> (r: Option<Interface>)
        ensures
            match r {
                Some(i) => i.protocol_name() == name@,
                None => forall|i: Interface| i.protocol_name() != name@,
            },
    {
        if same_text(name, "ei_keyboard") {
            Some(Interface::Keyboard)
        } else if same_text(name, "ei_pointer") {
            Some(Interface::Pointer)
        } else if same_text(name, "ei_pointer_absolute") {
            Some(Interface::PointerAbsolute)
        } else if same_text(name, "ei_button") {
            Some(Interface::Button)
        } else if same_text(name, "ei_scroll") {
            Some(Interface::Scroll)
        } else if same_text(name, "ei_touchscreen") {
            Some(Interface::Touchscreen)
        } else {
            None
        }
    }
}

/// The interfaces that a device has.
#[derive(Clone, Copy, Debug, PartialEq, Eq, Structural)]
pub struct Interfaces {
    pub keyboard: bool,
    pub pointer: bool,
    pub pointer_absolute: bool,
    pub button: bool,
    pub scroll: bool,
    pub touchscreen: bool,
}

impl Interfaces {
    pub open spec fn has(self, i: Interface) -> bool {
        match i {
            Interface::Keyboard => self.keyboard,
            Interface::Pointer => self.pointer,
            Interface::PointerAbsolute => self.pointer_absolute,
            Interface::Button => self.button,
            Interface::Scroll => self.scroll,
            Interface::Touchscreen => self.touchscreen,
        }
    }

    /// These interfaces and one more.
    pub open spec fn with(self, i: Interface) -> Interfaces {
        match i {
            Interface::Keyboard => Interfaces { keyboard: true, ..self },
            Interface::Pointer => Interfaces { pointer: true, ..self },
            Interface::PointerAbsolute => Interfaces { pointer_absolute: true, ..self },
            Interface::Button => Interfaces { button: true, ..self },
            Interface::Scroll => Interfaces { scroll: true, ..self },
            Interface::Touchscreen => Interfaces { touchscreen: true, ..self },
        }
    }

    pub fn empty() -> (r: Interfaces)
        ensures
            forall|i: Interface| !r.has(i),
    {
        Interfaces {
            keyboard: false,
            pointer: false,
            pointer_absolute: false,
            button: false,
            scroll: false,
            touchscreen: false,
        }
    }

    pub fn insert(&mut self, i: Interface)
        ensures
            *final(self) == old(self).with(i),
            forall|j: Interface| final(self).has(j) == (j == i || old(self).has(j)),
    {
        match i {
            Interface::Keyboard => {
                self.keyboard = true;
            },
            Interface::Pointer => {
                self.pointer = true;
            },
            Interface::PointerAbsolute => {
                self.pointer_absolute = true;
            },
            Interface::Button => {
                self.button = true;
            },
            Interface::Scroll => {
                self.scroll = true;
            },
            Interface::Touchscreen => {
                self.touchscreen = true;
            },
        }
    }
}

/// What is known of a device.
#[derive(Debug)]
pub struct DeviceData {
    pub name: Option<String>,
    pub device_type: Option<DeviceType>,
    pub interfaces: Interfaces,
    pub seat: Option<u64>,
    pub regions: Vec<DeviceRegion>,
}

impl DeviceData {
    /// A device that a seat has just announced.
    pub fn announced(seat: u64) -> (r: DeviceData)
        ensures
            r.is_announced(seat),
    {
        DeviceData {
            name: None,
            device_type: None,
            interfaces: Interfaces::empty(),
            seat: Some(seat),
            regions: Vec::new(),
        }
    }

    pub open spec fn is_announced(self, seat: u64) -> bool {
        &&& self.name is None
        &&& self.device_type is None
        &&& forall|i: Interface| !self.interfaces.has(i)
        &&& self.seat == Some(seat)
        &&& self.regions@ == Seq::<DeviceRegion>::empty()
    }

    /// Whether the device has an interface.
    pub fn interface(&self, i: Interface) -> (r: bool)
        ensures
            r == self.interfaces.has(i),
    {
        match i {
            Interface::Keyboard => self.interfaces.keyboard,
            Interface::Pointer => self.interfaces.pointer,
            Interface::PointerAbsolute => self.interfaces.pointer_absolute,
            Interface::Button => self.interfaces.button,
            Interface::Scroll => self.interfaces.scroll,
            Interface::Touchscreen => self.interfaces.touchscreen,
        }
    }
}

/// What a device is used for.
#[derive(Clone, Copy, Debug, PartialEq, Eq, Structural)]
pub enum DeviceRole {
    Keyboard,
    /// Relative motion, buttons and scrolling.
    Pointer,
    /// Absolute motion. Some compositors have a device of its own for it.
    PointerAbsolute,
    Touch,
}

impl DeviceRole {
    /// The interface that earns a device this role.
    pub open spec fn interface(self) -> Interface {
        match self {
            DeviceRole::Keyboard => Interface::Keyboard,
            DeviceRole::Pointer => Interface::Pointer,
            DeviceRole::PointerAbsolute => Interface::PointerAbsolute,
            DeviceRole::Touch => Interface::Touchscreen,
        }
    }

    pub open spec fn text(self) -> Seq<char> {
        match self {
            DeviceRole::Keyboard => "keyboard"@,
            DeviceRole::Pointer => "pointer"@,
            DeviceRole::PointerAbsolute => "pointer_absolute"@,
            DeviceRole::Touch => "touchscreen"@,
        }
    }

    pub fn name(&self) -> (r: &'static str)
        ensures
            r@ == self.text(),
    {
        match self {
            DeviceRole::Keyboard => "keyboard",
            DeviceRole::Pointer => "pointer",
            DeviceRole::PointerAbsolute => "pointer_absolute",
            DeviceRole::Touch => "touchscreen",
        }
    }
}

/// Why an input event was not sent.
#[derive(Clone, Copy, Debug, PartialEq, Eq, Structural)]
pub enum InputError {
    /// No device has the role yet, or the one that had it is gone.
    NotReady(DeviceRole),
    DeviceDataMissing(DeviceRole),
    InterfaceMissing(Interface),
    NoContext,
}

impl InputError {
    pub open spec fn text(self) -> Seq<char> {
        match self {
            InputError::NotReady(role) => "EIS "@ + role.text() + " not ready"@,
            InputError::DeviceDataMissing(role) => "Device data missing for "@ + role.text(),
            InputError::InterfaceMissing(i) => i.protocol_name() + " interface not found"@,
            InputError::NoContext => "EIS context not initialized"@,
        }
    }

    pub fn to_string(&self) -> (r: String)
        ensures
            r@ == self.text(),
    {
        match self {
            InputError::NotReady(role) => join3("EIS ", role.name(), " not ready"),
            InputError::DeviceDataMissing(role) => join2("Device data missing for ", role.name()),
            InputError::InterfaceMissing(i) => join2(i.name(), " interface not found"),
            InputError::NoContext => "EIS context not initialized".to_owned(),
        }
    }
}

/// The device that an event goes to, with the serial of its frame.
#[derive(Clone, Copy, Debug, PartialEq, Eq, Structural)]
pub struct InputTarget {
    pub device: u64,
    pub serial: u32,
}

/// Whether a key or button goes down or up.
#[derive(Clone, Copy, Debug, PartialEq, Eq, Structural)]
pub enum PressState {
    Press,
    Released,
}

/// A key or button event.
#[derive(Clone, Copy, Debug, PartialEq, Eq, Structural)]
pub struct PressEvent {
    pub target: InputTarget,
    pub code: u32,
    pub state: PressState,
}

/// What a finger does.
#[derive(Clone, Copy, Debug, PartialEq, Eq, Structural)]
pub enum TouchPhase {
    Down,
    Motion,
    Up,
}

/// A touch event. Where the finger is passes beside it.
#[derive(Clone, Copy, Debug, PartialEq, Eq, Structural)]
pub struct TouchEvent {
    pub target: InputTarget,
    pub slot: u32,
    pub phase: TouchPhase,
}

/// The devices of a session and their roles. Devices are known by the numbers of
/// their protocol objects.
#[derive(Debug)]
pub struct EisDevices {
    pub all: HashMap<u64, DeviceData>,
    pub keyboard: Option<u64>,
    pub pointer: Option<u64>,
    pub pointer_absolute: Option<u64>,
    pub touch: Option<u64>,
    pub last_serial: u32,
}

/// Devices and roles as values.
#[verifier::ext_equal]
pub struct EisView {
    pub all: Map<u64, DeviceData>,
    pub keyboard: Option<u64>,
    pub pointer: Option<u64>,
    pub pointer_absolute: Option<u64>,
    pub touch: Option<u64>,
    pub last_serial: u32,
}

/// Who has a role once device `id` took or left what is said by `gains`.
pub open spec fn holder(before: Option<u64>, gains: bool, id: u64) -> Option<u64> {
    if gains {
        Some(id)
    } else {
        before
    }
}

/// Who has a role once device `id` is gone.
pub open spec fn without_holder(before: Option<u64>, id: u64) -> Option<u64> {
    if before == Some(id) {
        None
    } else {
        before
    }
}

impl EisView {
    pub open spec fn role(self, role: DeviceRole) -> Option<u64> {
        match role {
            DeviceRole::Keyboard => self.keyboard,
            DeviceRole::Pointer => self.pointer,
            DeviceRole::PointerAbsolute => self.pointer_absolute,
            DeviceRole::Touch => self.touch,
        }
    }

    /// Every device that has a role is known.
    pub open spec fn wf(self) -> bool {
        forall|role: DeviceRole|
            (#[trigger] self.role(role)) matches Some(id) ==> self.all.contains_key(id)
    }

    /// A device gets each role that its interfaces earn it.
    pub open spec fn assigned(self, id: u64, data: DeviceData) -> EisView {
        if data.device_type == Some(DeviceType::Virtual) {
            EisView {
                keyboard: holder(self.keyboard, data.interfaces.keyboard, id),
                pointer: holder(self.pointer, data.interfaces.pointer, id),
                pointer_absolute: holder(
                    self.pointer_absolute,
                    data.interfaces.pointer_absolute,
                    id,
                ),
                touch: holder(self.touch, data.interfaces.touchscreen, id),
                ..self
            }
        } else {
            self
        }
    }

    /// A device that is gone has no role.
    pub open spec fn removed(self, id: u64, serial: u32) -> EisView {
        EisView {
            all: self.all.remove(id),
            keyboard: without_holder(self.keyboard, id),
            pointer: without_holder(self.pointer, id),
            pointer_absolute: without_holder(self.pointer_absolute, id),
            touch: without_holder(self.touch, id),
            last_serial: serial,
        }
    }

    /// The target of an event, or why there is none.
    pub open spec fn target(self, role: DeviceRole, interface: Interface) -> Result<
        InputTarget,
        InputError,
    > {
        match self.role(role) {
            None => Err(InputError::NotReady(role)),
            Some(id) => if !self.all.contains_key(id) {
                Err(InputError::DeviceDataMissing(role))
            } else if !self.all[id].interfaces.has(interface) {
                Err(InputError::InterfaceMissing(interface))
            } else {
                Ok(InputTarget { device: id, serial: self.last_serial })
            },
        }
    }
}

/// The event for a key or button, once its target is known.
pub open spec fn press_event(
    target: Result<InputTarget, InputError>,
    code: i32,
    pressed: bool,
) -> Result<PressEvent, InputError> {
    match target {
        Ok(t) => Ok(
            PressEvent {
                target: t,
                code: code as u32,
                state: if pressed {
                    PressState::Press
                } else {
                    PressState::Released
                },
            },
        ),
        Err(e) => Err(e),
    }
}

impl View for EisDevices {
    type V = EisView;

    open spec fn view(&self) -> EisView {
        EisView {
            all: self.all@,
            keyboard: self.keyboard,
            pointer: self.pointer,
            pointer_absolute: self.pointer_absolute,
            touch: self.touch,
            last_serial: self.last_serial,
        }
    }
}

impl EisDevices {
    pub fn new(initial_serial: u32) -> (r: EisDevices)
        ensures
            r@ == (EisView {
                all: Map::empty(),
                keyboard: None,
                pointer: None,
                pointer_absolute: None,
                touch: None,
                last_serial: initial_serial,
            }),
            r@.wf(),
    {
        EisDevices {
            all: HashMap::new(),
            keyboard: None,
            pointer: None,
            pointer_absolute: None,
            touch: None,
            last_serial: initial_serial,
        }
    }

    /// Forgets all devices; the serial stays.
    pub fn clear(&mut self)
        ensures
            final(self)@ == (EisView {
                all: Map::empty(),
                keyboard: None,
                pointer: None,
                pointer_absolute: None,
                touch: None,
                last_serial: old(self)@.last_serial,
            }),
            final(self)@.wf(),
    {
        self.all.clear();
        self.keyboard = None;
        self.pointer = None;
        self.pointer_absolute = None;
        self.touch = None;
    }

    /// The device that has a role.
    pub fn role(&self, role: DeviceRole) -> (r: Option<u64>)
        ensures
            r == self@.role(role),
    {
        match role {
            DeviceRole::Keyboard => self.keyboard,
            DeviceRole::Pointer => self.pointer,
            DeviceRole::PointerAbsolute => self.pointer_absolute,
            DeviceRole::Touch => self.touch,
        }
    }

    /// Finds where an event goes. A device without the interface is no target,
    /// though it may have the role.
    pub fn with_device_interface(&self, role: DeviceRole, interface: Interface) -> (r: Result<
        InputTarget,
        InputError,
    >)
        ensures
            r == self@.target(role, interface),
    {
        let device: u64 = match self.role(role) {
            Some(d) => d,
            None => {
                return Err(InputError::NotReady(role));
            },
        };
        match self.all.get(&device) {
            None => Err(InputError::DeviceDataMissing(role)),
            Some(data) => if data.interface(interface) {
                Ok(InputTarget { device, serial: self.last_serial })
            } else {
                Err(InputError::InterfaceMissing(interface))
            },
        }
    }

    /// A device was destroyed: it is forgotten and leaves its roles, which stay
    /// empty until a replacement is announced. An unknown device changes nothing.
    pub fn remove_device(&mut self, device: u64, serial: u32) -> (known: bool)
        ensures
            known == old(self)@.all.contains_key(device),
            known ==> final(self)@ == old(self)@.removed(device, serial),
            !known ==> final(self)@ == old(self)@,
            old(self)@.wf() ==> final(self)@.wf(),
    {
        if self.all.remove(&device).is_none() {
            assert(self@.all =~= old(self)@.all);
            return false;
        }
        self.last_serial = serial;
        if holds(self.keyboard, device) {
            self.keyboard = None;
        }
        if holds(self.pointer, device) {
            self.pointer = None;
        }
        if holds(self.pointer_absolute, device) {
            self.pointer_absolute = None;
        }
        if holds(self.touch, device) {
            self.touch = None;
        }
        proof {
            assert forall|role: DeviceRole|
                old(self)@.wf() && (#[trigger] self@.role(role)) is Some implies self@.all.contains_key(
                self@.role(role)->0,
            ) by {
                assert(old(self)@.role(role) == self@.role(role));
            }
        }
        true
    }
}

fn holds(role: Option<u64>, device: u64) -> (r: bool)
    ensures
        r == (role == Some(device)),
{
    match role {
        Some(d) => d == device,
        None => false,
    }
}

fn press(target: Result<InputTarget, InputError>, code: i32, pressed: bool) -> (r: Result<
    PressEvent,
    InputError,
>)
    ensures
        r == press_event(target, code, pressed),
{
    match target {
        Ok(t) => Ok(
            PressEvent {
                target: t,
                code: code as u32,
                state: if pressed {
                    PressState::Press
                } else {
                    PressState::Released
                },
            },
        ),
        Err(e) => Err(e),
    }
}

/// A key, by its evdev code.
pub fn eis_keyboard_keycode(devices: &EisDevices, keycode: i32, pressed: bool) -> (r: Result<
    PressEvent,
    InputError,
>)
    ensures
        r == press_event(
            devices@.target(DeviceRole::Keyboard, Interface::Keyboard),
            keycode,
            pressed,
        ),
{
    press(
        devices.with_device_interface(DeviceRole::Keyboard, Interface::Keyboard),
        keycode,
        pressed,
    )
}

/// A pointer button, by its evdev code.
pub fn eis_pointer_button(devices: &EisDevices, button: i32, pressed: bool) -> (r: Result<
    PressEvent,
    InputError,
>)
    ensures
        r == press_event(devices@.target(DeviceRole::Pointer, Interface::Button), button, pressed),
{
    press(devices.with_device_interface(DeviceRole::Pointer, Interface::Button), button, pressed)
}

/// Where absolute motion goes. Positions are those of the whole desktop already: the
/// area of the device is not added to them.
pub fn eis_pointer_motion_absolute(devices: &EisDevices) -> (r: Result<InputTarget, InputError>)
    ensures
        r == devices@.target(DeviceRole::PointerAbsolute, Interface::PointerAbsolute),
{
    devices.with_device_interface(DeviceRole::PointerAbsolute, Interface::PointerAbsolute)
}

/// Where relative motion goes.
pub fn eis_pointer_motion_relative(devices: &EisDevices) -> (r: Result<InputTarget, InputError>)
    ensures
        r == devices@.target(DeviceRole::Pointer, Interface::Pointer),
{
    devices.with_device_interface(DeviceRole::Pointer, Interface::Pointer)
}

/// Where scrolling goes.
pub fn eis_pointer_axis(devices: &EisDevices) -> (r: Result<InputTarget, InputError>)
    ensures
        r == devices@.target(DeviceRole::Pointer, Interface::Scroll),
{
    devices.with_device_interface(DeviceRole::Pointer, Interface::Scroll)
}

/// The event of a touch that goes to a target, where there is one.
pub open spec fn touch_event(
    target: Result<InputTarget, InputError>,
    slot: u32,
    phase: TouchPhase,
) -> Result<TouchEvent, InputError> {
    match target {
        Ok(t) => Ok(TouchEvent { target: t, slot, phase }),
        Err(e) => Err(e),
    }
}

fn touch(devices: &EisDevices, slot: u32, phase: TouchPhase) -> (r: Result<TouchEvent, InputError>)
    ensures
        r == touch_event(devices@.target(DeviceRole::Touch, Interface::Touchscreen), slot, phase),
{
    match devices.with_device_interface(DeviceRole::Touch, Interface::Touchscreen) {
        Ok(target) => Ok(TouchEvent { target, slot, phase }),
        Err(e) => Err(e),
    }
}

/// A finger comes down.
pub fn eis_touch_down(devices: &EisDevices, slot: u32) -> (r: Result<TouchEvent, InputError>)
    ensures
        r == touch_event(
            devices@.target(DeviceRole::Touch, Interface::Touchscreen),
            slot,
            TouchPhase::Down,
        ),
{
    touch(devices, slot, TouchPhase::Down)
}

/// A finger moves.
pub fn eis_touch_motion(devices: &EisDevices, slot: u32) -> (r: Result<TouchEvent, InputError>)
    ensures
        r == touch_event(
            devices@.target(DeviceRole::Touch, Interface::Touchscreen),
            slot,
            TouchPhase::Motion,
        ),
{
    touch(devices, slot, TouchPhase::Motion)
}

/// A finger goes up.
pub fn eis_touch_up(devices: &EisDevices, slot: u32) -> (r: Result<TouchEvent, InputError>)
    ensures
        r == touch_event(
            devices@.target(DeviceRole::Touch, Interface::Touchscreen),
            slot,
            TouchPhase::Up,
        ),
{
    touch(devices, slot, TouchPhase::Up)
}

/// Sends a frame on its way: without a context there is nowhere to send it.
pub fn flush_frame(context: bool) -> (r: Result<(), InputError>)
    ensures
        r == (if context {
            Ok(())
        } else {
            Err(InputError::NoContext)
        }),
{
    if context {
        Ok(())
    } else {
        Err(InputError::NoContext)
    }
}

/// Gives a device that is fully described the roles that its interfaces earn it,
/// in place of the devices that had them. Only virtual devices get any. Returns
/// whether the device got a role.
pub fn assign_device_roles(device: u64, data: &DeviceData, devices: &mut EisDevices) -> (r: bool)
    ensures
        final(devices)@ == old(devices)@.assigned(device, *data),
        final(devices).all == old(devices).all,
        forall|role: DeviceRole|
            #![trigger final(devices)@.role(role)]
            !data.interfaces.has(role.interface()) ==> final(devices)@.role(role) == old(
                devices,
            )@.role(role),
        data.device_type == Some(DeviceType::Virtual) ==> forall|role: DeviceRole|
            #![trigger final(devices)@.role(role)]
            data.interfaces.has(role.interface()) ==> final(devices)@.role(role) == Some(device),
        r == (data.device_type == Some(DeviceType::Virtual) && exists|role: DeviceRole|
            data.interfaces.has(#[trigger] role.interface())),
{
    match data.device_type {
        Some(DeviceType::Virtual) => {},
        _ => {
            return false;
        },
    }
    let mut assigned = false;
    if data.interface(Interface::Keyboard) {
        devices.keyboard = Some(device);
        assigned = true;
        assert(DeviceRole::Keyboard.interface() == Interface::Keyboard);
    }
    if data.interface(Interface::PointerAbsolute) {
        devices.pointer_absolute = Some(device);
        assigned = true;
        assert(DeviceRole::PointerAbsolute.interface() == Interface::PointerAbsolute);
    }
    if data.interface(Interface::Pointer) {
        devices.pointer = Some(device);
        assigned = true;
        assert(DeviceRole::Pointer.interface() == Interface::Pointer);
    }
    if data.interface(Interface::Touchscreen) {
        devices.touch = Some(device);
        assigned = true;
        assert(DeviceRole::Touch.interface() == Interface::Touchscreen);
    }
    assigned
}

/// Time stamp of a frame: microseconds since the epoch, from the seconds and
/// nanoseconds since then. A clock before the epoch counts as zero.
pub fn current_time_us(since_epoch: Option<(u64, u32)>) -> (r: u64)
    ensures
        r == match since_epoch {
            Some((secs, nanos)) => (secs * 1_000_000 + nanos as int / 1000)
                % 0x1_0000_0000_0000_0000,
            None => 0,
        },
{
    match since_epoch {
        None => 0,
        Some((secs, nanos)) => {
            let micros: u128 = secs as u128 * 1_000_000 + (nanos / 1000) as u128;
            assert(micros as u64 == micros % 0x1_0000_0000_0000_0000u128) by (bit_vector);
            micros as u64
        },
    }
}

/// A destroyed device is in no role afterwards, and an event of such a role is
/// refused as not ready until another device takes it.
pub proof fn law_destroyed_device_gets_no_input(
    before: EisView,
    id: u64,
    serial: u32,
    role: DeviceRole,
    interface: Interface,
)
    ensures
        before.removed(id, serial).role(role) != Some(id),
        before.role(role) == Some(id) ==> before.removed(id, serial).target(role, interface) == Err::<
            InputTarget,
            _,
        >(InputError::NotReady(role)),
{
}

/// A replacement takes over: once it is described, events of the roles that it
/// earns go to it, whatever had them before.
pub proof fn law_replacement_gets_input(before: EisView, id: u64, data: DeviceData, role: DeviceRole)
    requires
        before.all.contains_key(id),
        before.all[id] == data,
        data.device_type == Some(DeviceType::Virtual),
        data.interfaces.has(role.interface()),
    ensures
        before.assigned(id, data).target(role, role.interface()) == Ok::<_, InputError>(
            InputTarget { device: id, serial: before.last_serial },
        ),
{
}

/// Where every device with a role is known, no event fails for want of device data.
pub proof fn law_roles_have_data(devices: EisView, role: DeviceRole, interface: Interface)
    requires
        devices.wf(),
    ensures
        devices.target(role, interface) != Err::<InputTarget, _>(
            InputError::DeviceDataMissing(role),
        ),
{
}

/// Hardware devices never get a role.
pub proof fn law_hardware_is_not_driven(before: EisView, id: u64, data: DeviceData)
    requires
        data.device_type != Some(DeviceType::Virtual),
    ensures
        before.assigned(id, data) == before,
{
}


/// A device takes the roles that its interfaces earn it and no other: each role whose
/// interface it lacks stays with whoever had it. So one device after another can be
/// announced without taking input from those before it.
pub proof fn law_roles_are_kept(before: EisView, id: u64, data: DeviceData)
    ensures
        ({
            let after = before.assigned(id, data);
            let driven = data.device_type == Some(DeviceType::Virtual);
            &&& driven && data.interfaces.keyboard ==> after.keyboard == Some(id)
            &&& !(driven && data.interfaces.keyboard) ==> after.keyboard == before.keyboard
            &&& driven && data.interfaces.pointer ==> after.pointer == Some(id)
            &&& !(driven && data.interfaces.pointer) ==> after.pointer == before.pointer
            &&& driven && data.interfaces.pointer_absolute ==> after.pointer_absolute == Some(id)
            &&& !(driven && data.interfaces.pointer_absolute) ==> after.pointer_absolute
                == before.pointer_absolute
            &&& driven && data.interfaces.touchscreen ==> after.touch == Some(id)
            &&& !(driven && data.interfaces.touchscreen) ==> after.touch == before.touch
            &&& after.all == before.all && after.last_serial == before.last_serial
        }),
{
}

/// A device that goes takes its own roles with it and no others, and its data with it and
/// no other's; later events carry the new serial.
pub proof fn law_other_devices_stay(
    before: EisView,
    id: u64,
    serial: u32,
    role: DeviceRole,
    other: u64,
)
    requires
        other != id,
    ensures
        before.role(role) == Some(other) ==> before.removed(id, serial).role(role) == Some(other),
        before.role(role) is None ==> before.removed(id, serial).role(role) is None,
        before.all.contains_key(other) <==> before.removed(id, serial).all.contains_key(other),
        before.all.contains_key(other) ==> before.removed(id, serial).all[other]
            == before.all[other],
        !before.removed(id, serial).all.contains_key(id),
        before.removed(id, serial).last_serial == serial,
{
}

/// An event goes to the device that has the role, with the latest serial, exactly where
/// that device is known and has the interface.
pub proof fn law_events_go_to_the_role(d: EisView, role: DeviceRole, i: Interface, id: u64)
    ensures
        d.target(role, i) matches Ok(t) ==> d.role(role) == Some(t.device) && t.serial
            == d.last_serial && d.all.contains_key(t.device) && d.all[t.device].interfaces.has(i),
        d.role(role) == Some(id) && d.all.contains_key(id) && d.all[id].interfaces.has(i)
            ==> d.target(role, i) == Ok::<_, InputError>(
            InputTarget { device: id, serial: d.last_serial },
        ),
        d.target(role, i) == Err::<InputTarget, _>(InputError::NotReady(role)) <==> d.role(role)
            is None,
        d.target(role, i) == Err::<InputTarget, _>(InputError::InterfaceMissing(i)) <==> d.role(
            role,
        ) is Some && d.all.contains_key(d.role(role)->0)
            && !d.all[d.role(role)->0].interfaces.has(i),
{
}

/// The four roles are four: each is read from its own place, and each is earned by its
/// own interface.
pub proof fn law_roles_are_apart(d: EisView, data: DeviceData)
    ensures
        d.role(DeviceRole::Keyboard) == d.keyboard,
        d.role(DeviceRole::Pointer) == d.pointer,
        d.role(DeviceRole::PointerAbsolute) == d.pointer_absolute,
        d.role(DeviceRole::Touch) == d.touch,
        data.interfaces.has(DeviceRole::Keyboard.interface()) == data.interfaces.keyboard,
        data.interfaces.has(DeviceRole::Pointer.interface()) == data.interfaces.pointer,
        data.interfaces.has(DeviceRole::PointerAbsolute.interface())
            == data.interfaces.pointer_absolute,
        data.interfaces.has(DeviceRole::Touch.interface()) == data.interfaces.touchscreen,
        data.interfaces.has(Interface::Button) == data.interfaces.button,
        data.interfaces.has(Interface::Scroll) == data.interfaces.scroll,
{
}

/// An interface that is added is there, and every other is as it was.
pub proof fn law_interfaces_add_up(s: Interfaces, i: Interface, j: Interface)
    ensures
        s.with(i).has(i),
        i != j ==> s.with(i).has(j) == s.has(j),
        s.has(i) ==> s.with(i) == s,
{
}

/// A key or button goes to its target with its own code, down where it is pressed and up
/// where it is not, and a touch with its slot and what the finger does; without a target
/// neither goes anywhere.
pub proof fn law_events_say_what_happened(
    target: Result<InputTarget, InputError>,
    code: i32,
    pressed: bool,
    slot: u32,
    phase: TouchPhase,
)
    requires
        code >= 0,
    ensures
        target is Ok <==> press_event(target, code, pressed) is Ok,
        target is Ok <==> touch_event(target, slot, phase) is Ok,
        target matches Err(e) ==> press_event(target, code, pressed) == Err::<PressEvent, _>(e)
            && touch_event(target, slot, phase) == Err::<TouchEvent, _>(e),
        press_event(target, code, pressed) matches Ok(e) ==> e.target == target->Ok_0 && e.code
            == code && (e.state == PressState::Press <==> pressed),
        touch_event(target, slot, phase) matches Ok(e) ==> e.target == target->Ok_0 && e.slot
            == slot && e.phase == phase,
{
}

/// The names that the protocol gives to the interfaces, which are six different ones.
pub proof fn law_interface_names(i: Interface, j: Interface)
    ensures
        Interface::Keyboard.protocol_name() == "ei_keyboard"@,
        Interface::Pointer.protocol_name() == "ei_pointer"@,
        Interface::PointerAbsolute.protocol_name() == "ei_pointer_absolute"@,
        Interface::Button.protocol_name() == "ei_button"@,
        Interface::Scroll.protocol_name() == "ei_scroll"@,
        Interface::Touchscreen.protocol_name() == "ei_touchscreen"@,
        i != j ==> i.protocol_name() != j.protocol_name(),
{
    reveal_strlit("ei_keyboard");
    reveal_strlit("ei_pointer");
    reveal_strlit("ei_pointer_absolute");
    reveal_strlit("ei_button");
    reveal_strlit("ei_scroll");
    reveal_strlit("ei_touchscreen");
    assert("ei_keyboard"@.len() == 11 && "ei_pointer"@.len() == 10 && "ei_pointer_absolute"@.len()
        == 19 && "ei_button"@.len() == 9 && "ei_scroll"@.len() == 9 && "ei_touchscreen"@.len()
        == 14);
    assert("ei_button"@[3] == 'b' && "ei_scroll"@[3] == 's');
}

/// A device that was just announced belongs to its seat, and nothing else is known of it:
/// it has no interface yet, and so no role to earn.
pub proof fn law_announced_device(data: DeviceData, seat: u64, id: u64, before: EisView)
    requires
        data.is_announced(seat),
    ensures
        data.seat == Some(seat),
        data.name is None && data.device_type is None && data.regions@.len() == 0,
        forall|i: Interface| !(#[trigger] data.interfaces.has(i)),
        before.assigned(id, data) == before,
{
}

} // verus!
