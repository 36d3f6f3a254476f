//! Sessions of the remote desktop portal whose input goes over EIS.
//!
//! Picture and input belong to one portal session, which is asked for once and
//! restored by a token afterwards. The input connection is made when a client
//! connects and watched from then on: devices come, go and are replaced.

use std::collections::HashMap;
use vstd::prelude::*;

use crate::session::strategies::eis_common::{
    assign_device_roles, law_replacement_gets_input, DeviceData, DeviceRegion, DeviceRole, DeviceType, EisDevices, EisView,
    InputError, InputTarget, Interface,
};
use crate::session::strategy::{
    new_session_tag, streams_from_portal, ClipboardBackend, ClipboardSource, CursorMode, PipeWireAccess,
    PortalStream, SessionType, StreamInfo,
};
use crate::text::same_text;

verus! {

broadcast use vstd::std_specs::hash::group_hash_axioms;

/// A capability that a seat offers.
#[derive(Debug)]
pub struct Capability {
    pub interface: String,
    pub mask: u64,
}

/// What is known of a seat.
#[derive(Debug)]
pub struct SeatData {
    pub name: Option<String>,
    pub capabilities: Vec<Capability>,
}

/// Whether bit `i` of a mask is set.
pub open spec fn has_bit(mask: u64, i: u64) -> bool {
    (mask >> i) & 1 == 1
}

/// Bit `i` is set in one of the first `n` masks.
spec fn some_bit(caps: Seq<Capability>, n: int, i: u64) -> bool {
    exists|k: int| 0 <= k < n && has_bit((#[trigger] caps[k]).mask, i)
}

impl SeatData {
    /// No interface occurs twice.
    pub open spec fn wf(self) -> bool {
        forall|i: int, j: int|
            #![trigger self.capabilities@[i], self.capabilities@[j]]
            0 <= i < j < self.capabilities@.len() ==> self.capabilities@[i].interface@
                != self.capabilities@[j].interface@
    }

    /// The mask of an interface, if the seat offers it.
    pub open spec fn mask(self, interface: Seq<char>) -> Option<u64> {
        if exists|i: int|
            0 <= i < self.capabilities@.len() && (#[trigger] self.capabilities@[i]).interface@
                == interface {
            let i = choose|i: int|
                0 <= i < self.capabilities@.len() && (#[trigger] self.capabilities@[i]).interface@
                    == interface;
            Some(self.capabilities@[i].mask)
        } else {
            None
        }
    }

    /// A seat that nothing is known of but that it is there.
    pub open spec fn is_new(self) -> bool {
        &&& self.wf()
        &&& self.name is None
        &&& forall|n: Seq<char>| #[trigger] self.mask(n) is None
    }

    pub fn new() -> (r: SeatData)
        ensures
            r.is_new(),
    {
        SeatData { name: None, capabilities: Vec::new() }
    }

    /// Takes note of a capability. A later mask of an interface replaces an earlier.
    pub fn set_capability(&mut self, interface: String, mask: u64)
        requires
            old(self).wf(),
        ensures
            final(self).wf(),
            final(self).name == old(self).name,
            forall|n: Seq<char>| #[trigger]
                final(self).mask(n) == (if n == interface@ {
                    Some(mask)
                } else {
                    old(self).mask(n)
                }),
    {
        let ghost before = self.capabilities@;
        let ghost name = interface@;
        let mut i: usize = 0;
        while i < self.capabilities.len() && !same_text(
            self.capabilities[i].interface.as_str(),
            interface.as_str(),
        )
            invariant
                i <= self.capabilities@.len(),
                self.capabilities@ == before,
                self.name == old(self).name,
                name == interface@,
                forall|k: int| 0 <= k < i ==> (#[trigger] before[k]).interface@ != name,
            decreases self.capabilities@.len() - i,
        {
            i += 1;
        }
        if i < self.capabilities.len() {
            self.capabilities.set(i, Capability { interface, mask });
        } else {
            self.capabilities.push(Capability { interface, mask });
        }
        proof {
            let after = self.capabilities@;
            assert(after[i as int].interface@ == name && after[i as int].mask == mask);
            assert forall|n: Seq<char>| #[trigger]
                self.mask(n) == (if n == name {
                    Some(mask)
                } else {
                    old(self).mask(n)
                }) by {
                lemma_mask_found(*self, i as int);
                if n != name {
                    if old(self).mask(n) is Some {
                        let j = choose|j: int|
                            0 <= j < before.len() && (#[trigger] before[j]).interface@ == n;
                        lemma_mask_found(*old(self), j);
                        assert(after[j] == before[j]);
                        lemma_mask_found(*self, j);
                    } else {
                        assert forall|j: int| 0 <= j < after.len() implies (
                        #[trigger] after[j]).interface@ != n by {
                            if j != i {
                                assert(after[j] == before[j]);
                            }
                        }
                    }
                }
            }
        }
    }

    /// All capabilities together: a bit is set where some interface's mask has it.
    pub fn combined(&self) -> (r: u64)
        requires
            self.wf(),
        ensures
            forall|i: u64|
                i < 64 ==> (#[trigger] has_bit(r, i) <==> exists|n: Seq<char>|
                    (#[trigger] self.mask(n)) matches Some(m) && has_bit(m, i)),
    {
        let mut r: u64 = 0;
        let mut k: usize = 0;
        assert forall|i: u64| i < 64 implies !#[trigger] has_bit(0, i) by {
            assert((0u64 >> i) & 1 == 0) by (bit_vector);
        }
        while k < self.capabilities.len()
            invariant
                k <= self.capabilities@.len(),
                forall|i: u64|
                    i < 64 ==> (#[trigger] has_bit(r, i) <==> some_bit(
                        self.capabilities@,
                        k as int,
                        i,
                    )),
            decreases self.capabilities@.len() - k,
        {
            let m: u64 = self.capabilities[k].mask;
            let next: u64 = r | m;
            proof {
                let caps = self.capabilities@;
                assert forall|i: u64| i < 64 implies (#[trigger] has_bit(next, i) <==> some_bit(
                    caps,
                    k + 1,
                    i,
                )) by {
                    assert(((r | m) >> i) & 1 == 1 <==> ((r >> i) & 1 == 1 || (m >> i) & 1 == 1))
                        by (bit_vector);
                    assert(has_bit(r, i) <==> some_bit(caps, k as int, i));
                    if some_bit(caps, k + 1, i) {
                        let w = choose|w: int|
                            0 <= w < k + 1 && has_bit((#[trigger] caps[w]).mask, i);
                        if w < k {
                            assert(has_bit(caps[w].mask, i));
                        }
                    }
                    if has_bit(m, i) {
                        assert(has_bit(caps[k as int].mask, i));
                    }
                }
            }
            r = next;
            k += 1;
        }
        proof {
            let caps = self.capabilities@;
            assert forall|i: u64| i < 64 implies (#[trigger] has_bit(r, i) <==> exists|n: Seq<char>|
                (#[trigger] self.mask(n)) matches Some(m) && has_bit(m, i)) by {
                if some_bit(caps, caps.len() as int, i) {
                    let w = choose|w: int|
                        0 <= w < caps.len() && has_bit((#[trigger] caps[w]).mask, i);
                    lemma_mask_found(*self, w);
                }
                if exists|n: Seq<char>|
                    (#[trigger] self.mask(n)) matches Some(m) && has_bit(m, i) {
                    let n = choose|n: Seq<char>|
                        (#[trigger] self.mask(n)) matches Some(m) && has_bit(m, i);
                    let w = choose|w: int|
                        0 <= w < caps.len() && (#[trigger] caps[w]).interface@ == n;
                    lemma_mask_found(*self, w);
                    assert(has_bit(caps[w].mask, i));
                }
            }
        }
        r
    }
}

/// The mask that stands at a place is that of the interface that stands there.
proof fn lemma_mask_found(seat: SeatData, i: int)
    requires
        seat.wf(),
        0 <= i < seat.capabilities@.len(),
    ensures
        seat.mask(seat.capabilities@[i].interface@) == Some(seat.capabilities@[i].mask),
{
    let n = seat.capabilities@[i].interface@;
    let j = choose|j: int|
        0 <= j < seat.capabilities@.len() && (#[trigger] seat.capabilities@[j]).interface@ == n;
    assert(0 <= j < seat.capabilities@.len() && seat.capabilities@[j].interface@ == n);
    if i < j {
        assert(seat.capabilities@[i].interface@ != seat.capabilities@[j].interface@);
    } else if j < i {
        assert(seat.capabilities@[j].interface@ != seat.capabilities@[i].interface@);
    }
}

/// What arrives on the input connection. Seats and devices are known by the numbers
/// of their protocol objects.
#[derive(Debug)]
pub enum EiEvent {
    Seat { seat: u64 },
    Ping,
    SeatName { seat: u64, name: String },
    SeatCapability { seat: u64, mask: u64, interface: String },
    SeatDone { seat: u64 },
    SeatDevice { seat: u64, device: u64 },
    DeviceName { device: u64, name: String },
    DeviceType { device: u64, device_type: DeviceType },
    DeviceInterface { device: u64, interface: String },
    DeviceRegion { device: u64, region: DeviceRegion },
    DeviceDestroyed { device: u64, serial: u32 },
    DeviceDone { device: u64 },
    DeviceResumed { device: u64, serial: u32 },
    CallbackDone,
    Other,
}

/// What to send in response. Where `flush` is set, what was sent is flushed.
#[derive(Clone, Copy, Debug, PartialEq, Eq, Structural)]
pub enum EiResponse {
    Nothing,
    /// The event names a seat that is not known.
    UnknownSeat,
    /// The event names a device that is not known.
    UnknownDevice,
    /// Answer the ping.
    Pong { flush: bool },
    /// Bind the seat's capabilities and, where `sync` is set, ask for a callback
    /// after everything that follows from it.
    Bind { seat: u64, capabilities: u64, sync: bool, flush: bool },
    /// Declare the device ready.
    Ready { device: u64, flush: bool },
    /// Start emulating on the device.
    Emulate { device: u64, sequence: u32, serial: u32, flush: bool },
}

/// Devices of this version or later wait to be declared ready.
pub const READY_SINCE: u32 = 3;

/// A session whose input goes over EIS.
#[derive(Debug)]
pub struct LibeiSessionHandleImpl {
    /// Whether there is an input context.
    pub context: bool,
    /// Whether there is an input connection.
    pub connection: bool,
    pub seats: HashMap<u64, SeatData>,
    pub devices: EisDevices,
    pub device_version: u32,
    pub streams: Vec<StreamInfo>,
    pub video_fd: i32,
    pub eis_activated: bool,
    pub activating: bool,
}

/// The session as a value.
#[verifier::ext_equal]
pub struct LibeiView {
    pub context: bool,
    pub connection: bool,
    pub seats: Map<u64, SeatData>,
    pub devices: EisView,
    pub device_version: u32,
    pub streams: Seq<StreamInfo>,
    pub video_fd: i32,
    pub eis_activated: bool,
    pub activating: bool,
}

impl View for LibeiSessionHandleImpl {
    type V = LibeiView;

    open spec fn view(&self) -> LibeiView {
        LibeiView {
            context: self.context,
            connection: self.connection,
            seats: self.seats@,
            devices: self.devices@,
            device_version: self.device_version,
            streams: self.streams@,
            video_fd: self.video_fd,
            eis_activated: self.eis_activated,
            activating: self.activating,
        }
    }
}

impl LibeiView {
    /// Seats are consistent, and every device with a role is known.
    pub open spec fn wf(self) -> bool {
        &&& self.devices.wf()
        &&& forall|seat: u64|
            #![trigger self.seats[seat]]
            self.seats.contains_key(seat) ==> self.seats[seat].wf()
    }

    /// This session with other facts about a device.
    pub open spec fn with_device(self, device: u64, data: DeviceData) -> LibeiView {
        LibeiView {
            devices: EisView { all: self.devices.all.insert(device, data), ..self.devices },
            ..self
        }
    }

    /// Nothing but one seat changed.
    pub open spec fn only_seat_changed(self, after: LibeiView, seat: u64) -> bool {
        &&& after.seats.contains_key(seat)
        &&& after == LibeiView { seats: self.seats.insert(seat, after.seats[seat]), ..self }
    }

    /// Nothing but what is known of one device changed.
    pub open spec fn only_device_changed(self, after: LibeiView, device: u64) -> bool {
        &&& after.devices.all.contains_key(device)
        &&& after == self.with_device(device, after.devices.all[device])
    }

    /// What an event does to the session and what it is answered with.
    pub open spec fn handled(self, event: EiEvent, after: LibeiView, response: EiResponse) -> bool {
        match event {
            EiEvent::Seat { seat } => {
                &&& self.only_seat_changed(after, seat)
                &&& after.seats[seat].is_new()
                &&& response == EiResponse::Nothing
            },
            EiEvent::Ping => after == self && response == EiResponse::Pong { flush: self.context },
            EiEvent::SeatName { seat, name } => if self.seats.contains_key(seat) {
                &&& self.only_seat_changed(after, seat)
                &&& after.seats[seat] == SeatData { name: Some(name), ..self.seats[seat] }
                &&& response == EiResponse::Nothing
            } else {
                after == self && response == EiResponse::UnknownSeat
            },
            EiEvent::SeatCapability { seat, mask, interface } => if self.seats.contains_key(seat) {
                &&& self.only_seat_changed(after, seat)
                &&& after.seats[seat].wf()
                &&& after.seats[seat].name == self.seats[seat].name
                &&& forall|n: Seq<char>| #[trigger]
                    after.seats[seat].mask(n) == (if n == interface@ {
                        Some(mask)
                    } else {
                        self.seats[seat].mask(n)
                    })
                &&& response == EiResponse::Nothing
            } else {
                after == self && response == EiResponse::UnknownSeat
            },
            EiEvent::SeatDone { seat } => if self.seats.contains_key(seat) {
                &&& after == self
                &&& response matches EiResponse::Bind { seat: s, capabilities, sync, flush }
                &&& s == seat
                &&& sync == self.connection
                &&& flush == self.context
                &&& forall|i: u64|
                    i < 64 ==> (#[trigger] has_bit(capabilities, i) <==> exists|n: Seq<char>|
                        (#[trigger] self.seats[seat].mask(n)) matches Some(m) && has_bit(m, i))
            } else {
                after == self && response == EiResponse::UnknownSeat
            },
            EiEvent::SeatDevice { seat, device } => if self.seats.contains_key(seat) {
                &&& self.only_device_changed(after, device)
                &&& after.devices.all[device].is_announced(seat)
                &&& response == EiResponse::Nothing
            } else {
                after == self && response == EiResponse::UnknownSeat
            },
            EiEvent::DeviceName { device, name } => if self.devices.all.contains_key(device) {
                &&& after == self.with_device(
                    device,
                    DeviceData { name: Some(name), ..self.devices.all[device] },
                )
                &&& response == EiResponse::Nothing
            } else {
                after == self && response == EiResponse::UnknownDevice
            },
            EiEvent::DeviceType { device, device_type } => if self.devices.all.contains_key(
                device,
            ) {
                &&& after == self.with_device(
                    device,
                    DeviceData { device_type: Some(device_type), ..self.devices.all[device] },
                )
                &&& response == EiResponse::Nothing
            } else {
                after == self && response == EiResponse::UnknownDevice
            },
            EiEvent::DeviceInterface { device, interface } => if self.devices.all.contains_key(
                device,
            ) {
                &&& self.only_device_changed(after, device)
                &&& after.devices.all[device] == DeviceData {
                    interfaces: after.devices.all[device].interfaces,
                    ..self.devices.all[device]
                }
                &&& forall|i: Interface| #[trigger]
                    after.devices.all[device].interfaces.has(i) == (i.protocol_name() == interface@
                        || self.devices.all[device].interfaces.has(i))
                &&& response == EiResponse::Nothing
            } else {
                after == self && response == EiResponse::UnknownDevice
            },
            EiEvent::DeviceRegion { device, region } => if self.devices.all.contains_key(device) {
                &&& self.only_device_changed(after, device)
                &&& after.devices.all[device] == DeviceData {
                    regions: after.devices.all[device].regions,
                    ..self.devices.all[device]
                }
                &&& after.devices.all[device].regions@ == seq![region]
                &&& response == EiResponse::Nothing
            } else {
                after == self && response == EiResponse::UnknownDevice
            },
            EiEvent::DeviceDestroyed { device, serial } => if self.devices.all.contains_key(
                device,
            ) {
                &&& after == LibeiView { devices: self.devices.removed(device, serial), ..self }
                &&& response == EiResponse::Nothing
            } else {
                after == self && response == EiResponse::UnknownDevice
            },
            EiEvent::DeviceDone { device } => if self.devices.all.contains_key(device) {
                &&& after == LibeiView {
                    devices: self.devices.assigned(device, self.devices.all[device]),
                    ..self
                }
                &&& response == (if self.device_version >= READY_SINCE {
                    EiResponse::Ready { device, flush: self.context }
                } else {
                    EiResponse::Nothing
                })
            } else {
                after == self && response == EiResponse::UnknownDevice
            },
            EiEvent::DeviceResumed { device, serial } => if self.devices.all.contains_key(device) {
                &&& after == LibeiView {
                    devices: EisView { last_serial: serial, ..self.devices },
                    ..self
                }
                &&& response == EiResponse::Emulate {
                    device,
                    sequence: ((serial + 1) % 0x1_0000_0000) as u32,
                    serial,
                    flush: self.context,
                }
            } else {
                after == self && response == EiResponse::UnknownDevice
            },
            EiEvent::CallbackDone => after == self && response == EiResponse::Nothing,
            EiEvent::Other => after == self && response == EiResponse::Nothing,
        }
    }
}

impl LibeiSessionHandleImpl {
    /// Takes out what is known of a device, to be put back changed.
    fn take_device(&mut self, device: u64) -> (r: Option<DeviceData>)
        ensures
            final(self)@ == (LibeiView {
                devices: EisView { all: old(self)@.devices.all.remove(device), ..old(self)@.devices },
                ..old(self)@
            }),
            match r {
                Some(d) => old(self)@.devices.all.contains_key(device)
                    && old(self)@.devices.all[device] == d,
                None => !old(self)@.devices.all.contains_key(device) && final(self)@ == old(self)@,
            },
    {
        let r = self.devices.all.remove(&device);
        proof {
            if r is None {
                assert(self@.devices.all =~= old(self)@.devices.all);
            }
        }
        r
    }

    /// Puts back what is known of a device.
    fn put_device(&mut self, device: u64, data: DeviceData)
        ensures
            final(self)@ == old(self)@.with_device(device, data),
    {
        self.devices.all.insert(device, data);
    }

    /// Answers an event of a device.
    fn handle_device_event(&mut self, event: EiEvent) -> (r: EiResponse)
        requires
            event is DeviceName || event is DeviceType || event is DeviceInterface
                || event is DeviceRegion || event is DeviceDestroyed || event is DeviceDone
                || event is DeviceResumed,
        ensures
            old(self)@.handled(event, final(self)@, r),
    {
        let ghost before = self@;
        match event {
            EiEvent::DeviceName { device, name } => {
                match self.take_device(device) {
                    Some(mut data) => {
                        data.name = Some(name);
                        self.put_device(device, data);
                        assert(self@ =~~= before.with_device(device, data));
                        EiResponse::Nothing
                    },
                    None => EiResponse::UnknownDevice,
                }
            },
            EiEvent::DeviceType { device, device_type } => {
                match self.take_device(device) {
                    Some(mut data) => {
                        data.device_type = Some(device_type);
                        self.put_device(device, data);
                        assert(self@ =~~= before.with_device(device, data));
                        EiResponse::Nothing
                    },
                    None => EiResponse::UnknownDevice,
                }
            },
            EiEvent::DeviceInterface { device, interface } => {
                match self.take_device(device) {
                    Some(mut data) => {
                        match Interface::from_name(interface.as_str()) {
                            Some(i) => {
                                data.interfaces.insert(i);
                                proof {
                                    lemma_names_distinct();
                                }
                            },
                            None => {},
                        }
                        self.put_device(device, data);
                        assert(self@ =~~= before.with_device(device, data));
                        EiResponse::Nothing
                    },
                    None => EiResponse::UnknownDevice,
                }
            },
            EiEvent::DeviceRegion { device, region } => {
                match self.take_device(device) {
                    Some(mut data) => {
                        let mut regions: Vec<DeviceRegion> = Vec::new();
                        regions.push(region);
                        data.regions = regions;
                        self.put_device(device, data);
                        assert(self@ =~~= before.with_device(device, data));
                        EiResponse::Nothing
                    },
                    None => EiResponse::UnknownDevice,
                }
            },
            EiEvent::DeviceDestroyed { device, serial } => {
                if self.devices.remove_device(device, serial) {
                    EiResponse::Nothing
                } else {
                    EiResponse::UnknownDevice
                }
            },
            EiEvent::DeviceDone { device } => {
                match self.take_device(device) {
                    Some(data) => {
                        assign_device_roles(device, &data, &mut self.devices);
                        self.put_device(device, data);
                        assert(self@.devices.all =~= before.devices.all);
                        if self.device_version >= READY_SINCE {
                            EiResponse::Ready { device, flush: self.context }
                        } else {
                            EiResponse::Nothing
                        }
                    },
                    None => EiResponse::UnknownDevice,
                }
            },
            EiEvent::DeviceResumed { device, serial } => {
                if !self.devices.all.contains_key(&device) {
                    return EiResponse::UnknownDevice;
                }
                self.devices.last_serial = serial;
                EiResponse::Emulate {
                    device,
                    sequence: serial.wrapping_add(1),
                    serial,
                    flush: self.context,
                }
            },
            _ => EiResponse::Nothing,
        }
    }

    /// Takes an event in and says what to answer.
    pub fn handle_event(&mut self, event: EiEvent) -> (r: EiResponse)
        requires
            old(self)@.wf(),
        ensures
            old(self)@.handled(event, final(self)@, r),
            final(self)@.wf(),
    {
        let ghost before = self@;
        let ghost cause = event;
        let r = match event {
            EiEvent::Seat { seat } => {
                self.seats.insert(seat, SeatData::new());
                assert(before.only_seat_changed(self@, seat));
                EiResponse::Nothing
            },
            EiEvent::Ping => EiResponse::Pong { flush: self.context },
            EiEvent::SeatName { seat, name } => {
                match self.seats.remove(&seat) {
                    Some(mut data) => {
                        data.name = Some(name);
                        self.seats.insert(seat, data);
                        assert(self@ =~~= (LibeiView {
                            seats: before.seats.insert(seat, data),
                            ..before
                        }));
                        EiResponse::Nothing
                    },
                    None => {
                        assert(self@ =~~= before);
                        EiResponse::UnknownSeat
                    },
                }
            },
            EiEvent::SeatCapability { seat, mask, interface } => {
                match self.seats.remove(&seat) {
                    Some(mut data) => {
                        data.set_capability(interface, mask);
                        self.seats.insert(seat, data);
                        assert(self@ =~~= (LibeiView {
                            seats: before.seats.insert(seat, data),
                            ..before
                        }));
                        EiResponse::Nothing
                    },
                    None => {
                        assert(self@ =~~= before);
                        EiResponse::UnknownSeat
                    },
                }
            },
            EiEvent::SeatDone { seat } => {
                match self.seats.get(&seat) {
                    Some(data) => {
                        let capabilities: u64 = data.combined();
                        EiResponse::Bind {
                            seat,
                            capabilities,
                            sync: self.connection,
                            flush: self.context,
                        }
                    },
                    None => EiResponse::UnknownSeat,
                }
            },
            EiEvent::SeatDevice { seat, device } => {
                if !self.seats.contains_key(&seat) {
                    EiResponse::UnknownSeat
                } else {
                    self.put_device(device, DeviceData::announced(seat));
                    EiResponse::Nothing
                }
            },
            EiEvent::CallbackDone => EiResponse::Nothing,
            EiEvent::Other => EiResponse::Nothing,
            _ => self.handle_device_event(event),
        };
        proof {
            law_events_keep_session_consistent(before, cause, self@, r);
        }
        r
    }
}

/// Interfaces have different names.
proof fn lemma_names_distinct()
    ensures
        forall|a: Interface, b: Interface|
            a.protocol_name() == b.protocol_name() ==> a == b,
{
    reveal_strlit("ei_keyboard");
    reveal_strlit("ei_pointer");
    reveal_strlit("ei_pointer_absolute");
    reveal_strlit("ei_button");
    reveal_strlit("ei_scroll");
    reveal_strlit("ei_touchscreen");
    assert("ei_keyboard"@.len() == 11 && "ei_keyboard"@[3] == 'k');
    assert("ei_pointer"@.len() == 10 && "ei_pointer"@[3] == 'p');
    assert("ei_pointer_absolute"@.len() == 19);
    assert("ei_button"@.len() == 9 && "ei_button"@[3] == 'b');
    assert("ei_scroll"@.len() == 9 && "ei_scroll"@[3] == 's');
    assert("ei_touchscreen"@.len() == 14);
}

/// Events leave the session consistent: seats offer no interface twice, and every
/// device that has a role is known.
pub proof fn law_events_keep_session_consistent(
    before: LibeiView,
    event: EiEvent,
    after: LibeiView,
    response: EiResponse,
)
    requires
        before.wf(),
        before.handled(event, after, response),
    ensures
        after.wf(),
{
    assert forall|role: DeviceRole|
        (#[trigger] after.devices.role(role)) is Some implies after.devices.all.contains_key(
        after.devices.role(role)->0,
    ) by {
        assert(before.devices.role(role) is Some ==> before.devices.all.contains_key(
            before.devices.role(role)->0,
        ));
    }
    assert forall|seat: u64|
        #![trigger after.seats[seat]]
        after.seats.contains_key(seat) implies after.seats[seat].wf() by {
        assert(before.seats.contains_key(seat) ==> before.seats[seat].wf());
        if event is SeatName && event->SeatName_seat == seat && before.seats.contains_key(seat) {
            assert(after.seats[seat].capabilities == before.seats[seat].capabilities);
        }
    }
}

/// What an activation of input has to do.
#[derive(Clone, Copy, Debug, PartialEq, Eq, Structural)]
pub enum Activation {
    /// Another one is under way: wait for it.
    Wait,
    /// Input works already.
    Ready,
    /// Connect anew.
    Connect,
}

/// What the event stream of the input connection yields.
#[derive(Debug)]
pub enum StreamItem {
    Event(EiEvent),
    ParseError,
    InvalidObject,
    Failed,
    Ended,
    /// Nothing came for a while. Counts only while input is set up.
    TimedOut,
}

/// What follows an item while input is set up.
#[derive(Clone, Copy, Debug, PartialEq, Eq, Structural)]
pub enum SetupStep {
    /// Send the response and go on.
    Continue(EiResponse),
    /// Send the response; input is set up.
    Complete(EiResponse),
    /// Input could not be set up.
    Failed,
}

/// What follows an item once input is set up.
#[derive(Clone, Copy, Debug, PartialEq, Eq, Structural)]
pub enum WatchStep {
    /// Send the response and go on.
    Continue(EiResponse),
    /// The connection is gone.
    Stop,
}

impl LibeiView {
    /// Whether an activation finds input working. `alive` says whether the input
    /// connection still takes data.
    pub open spec fn input_works(self, alive: bool) -> bool {
        self.eis_activated && self.context && alive
    }

    /// The session without the devices and seats of a connection that is gone.
    pub open spec fn forgotten(self) -> LibeiView {
        LibeiView {
            seats: Map::empty(),
            devices: EisView {
                all: Map::empty(),
                keyboard: None,
                pointer: None,
                pointer_absolute: None,
                touch: None,
                last_serial: self.devices.last_serial,
            },
            eis_activated: false,
            ..self
        }
    }
}

impl LibeiSessionHandleImpl {
    /// A session that the portal has just started. Input is not connected yet.
    pub fn new(streams: Vec<StreamInfo>, video_fd: i32) -> (r: LibeiSessionHandleImpl)
        ensures
            r@ == (LibeiView {
                context: false,
                connection: false,
                seats: Map::empty(),
                devices: EisView {
                    all: Map::empty(),
                    keyboard: None,
                    pointer: None,
                    pointer_absolute: None,
                    touch: None,
                    last_serial: 0,
                },
                device_version: 0,
                streams: streams@,
                video_fd,
                eis_activated: false,
                activating: false,
            }),
            r@.wf(),
    {
        LibeiSessionHandleImpl {
            context: false,
            connection: false,
            seats: HashMap::new(),
            devices: EisDevices::new(0),
            device_version: 0,
            streams,
            video_fd,
            eis_activated: false,
            activating: false,
        }
    }

    /// A client needs input. Only one activation runs at a time. Input that works
    /// is kept; where the connection turns out to be dead, its devices and seats
    /// are forgotten.
    pub fn begin_activation(&mut self, alive: bool) -> (r: Activation)
        requires
            old(self)@.wf(),
        ensures
            final(self)@.wf(),
            r == (if old(self)@.activating {
                Activation::Wait
            } else if old(self)@.input_works(alive) {
                Activation::Ready
            } else {
                Activation::Connect
            }),
            r != Activation::Connect ==> final(self)@ == old(self)@,
            r == Activation::Connect ==> final(self)@ == (LibeiView {
                activating: true,
                ..(if old(self)@.eis_activated {
                    old(self)@.forgotten()
                } else {
                    old(self)@
                })
            }),
    {
        if self.activating {
            return Activation::Wait;
        }
        if self.eis_activated {
            if self.context && alive {
                return Activation::Ready;
            }
            self.devices.clear();
            self.seats.clear();
            self.eis_activated = false;
        }
        self.activating = true;
        Activation::Connect
    }

    /// The activation came to nothing; another one may start.
    pub fn abort_activation(&mut self)
        ensures
            final(self)@ == (LibeiView { activating: false, ..old(self)@ }),
    {
        self.activating = false;
    }

    /// The handshake succeeded. `device_interface` is the version of the device
    /// interface that both sides agreed on.
    pub fn connected(&mut self, serial: u32, device_interface: Option<u32>)
        ensures
            final(self)@ == (LibeiView {
                context: true,
                connection: true,
                devices: EisView { last_serial: serial, ..old(self)@.devices },
                device_version: match device_interface {
                    Some(v) => v,
                    None => 0,
                },
                ..old(self)@
            }),
            old(self)@.wf() ==> final(self)@.wf(),
    {
        self.context = true;
        self.connection = true;
        self.devices.last_serial = serial;
        self.device_version = match device_interface {
            Some(v) => v,
            None => 0,
        };
        proof {
            if old(self)@.wf() {
                assert forall|role: DeviceRole|
                    (#[trigger] self@.devices.role(role)) is Some implies self@.devices.all.contains_key(
                    self@.devices.role(role)->0,
                ) by {
                    assert(old(self)@.devices.role(role) == self@.devices.role(role));
                }
            }
        }
    }

    /// One item while input is set up. Setup ends with the callback that was asked
    /// for when the seat was bound, for it comes after all devices; a stream that
    /// ends or falls silent ends it too.
    pub fn setup_step(&mut self, item: StreamItem) -> (r: SetupStep)
        requires
            old(self)@.wf(),
        ensures
            final(self)@.wf(),
            match item {
                StreamItem::Event(e) => exists|response: EiResponse, after: LibeiView|
                    {
                        &&& #[trigger] old(self)@.handled(e, after, response)
                        &&& if e is CallbackDone {
                            &&& r == SetupStep::Complete(response)
                            &&& final(self)@ == (LibeiView {
                                eis_activated: true,
                                activating: false,
                                ..after
                            })
                        } else {
                            &&& r == SetupStep::Continue(response)
                            &&& final(self)@ == after
                        }
                    },
                StreamItem::ParseError | StreamItem::InvalidObject => r == SetupStep::Continue(
                    EiResponse::Nothing,
                ) && final(self)@ == old(self)@,
                StreamItem::Failed => r == SetupStep::Failed && final(self)@ == (LibeiView {
                    activating: false,
                    ..old(self)@
                }),
                StreamItem::Ended | StreamItem::TimedOut => r == SetupStep::Complete(
                    EiResponse::Nothing,
                ) && final(self)@ == (LibeiView {
                    eis_activated: true,
                    activating: false,
                    ..old(self)@
                }),
            },
    {
        match item {
            StreamItem::Event(event) => {
                let barrier = match event {
                    EiEvent::CallbackDone => true,
                    _ => false,
                };
                let ghost e = event;
                let response = self.handle_event(event);
                assert(old(self)@.handled(e, self@, response));
                if barrier {
                    self.eis_activated = true;
                    self.activating = false;
                    SetupStep::Complete(response)
                } else {
                    SetupStep::Continue(response)
                }
            },
            StreamItem::ParseError => SetupStep::Continue(EiResponse::Nothing),
            StreamItem::InvalidObject => SetupStep::Continue(EiResponse::Nothing),
            StreamItem::Failed => {
                self.activating = false;
                SetupStep::Failed
            },
            StreamItem::Ended | StreamItem::TimedOut => {
                self.eis_activated = true;
                self.activating = false;
                SetupStep::Complete(EiResponse::Nothing)
            },
        }
    }

    /// One item once input is set up. The next activation after the stream is gone
    /// connects anew.
    pub fn watch_step(&mut self, item: StreamItem) -> (r: WatchStep)
        requires
            old(self)@.wf(),
        ensures
            final(self)@.wf(),
            match item {
                StreamItem::Event(e) => r is Continue && old(self)@.handled(
                    e,
                    final(self)@,
                    r->Continue_0,
                ),
                StreamItem::ParseError
                | StreamItem::InvalidObject
                | StreamItem::TimedOut => r == WatchStep::Continue(EiResponse::Nothing)
                    && final(self)@ == old(self)@,
                StreamItem::Failed | StreamItem::Ended => r == WatchStep::Stop && final(self)@ == (
                LibeiView { eis_activated: false, ..old(self)@ }),
            },
    {
        match item {
            StreamItem::Event(event) => WatchStep::Continue(self.handle_event(event)),
            StreamItem::ParseError => WatchStep::Continue(EiResponse::Nothing),
            StreamItem::InvalidObject => WatchStep::Continue(EiResponse::Nothing),
            StreamItem::TimedOut => WatchStep::Continue(EiResponse::Nothing),
            StreamItem::Failed | StreamItem::Ended => {
                self.eis_activated = false;
                WatchStep::Stop
            },
        }
    }

    pub fn pipewire_access(&self) -> (r: PipeWireAccess)
        ensures
            r == PipeWireAccess::FileDescriptor(self.video_fd),
    {
        PipeWireAccess::FileDescriptor(self.video_fd)
    }

    pub fn streams(&self) -> (r: Vec<StreamInfo>)
        ensures
            r@ == self.streams@,
    {
        vstd::slice::slice_to_vec(self.streams.as_slice())
    }

    pub fn session_type(&self) -> (r: SessionType)
        ensures
            r == SessionType::Libei,
    {
        SessionType::Libei
    }

    pub fn clipboard_source(&self) -> (r: ClipboardSource)
        ensures
            r == ClipboardSource::Absent,
    {
        ClipboardSource::Absent
    }

    /// The clipboard comes from the compositor, not from a second portal session.
    pub fn build_clipboard(&self) -> (r: Option<ClipboardBackend>)
        ensures
            r == Some(ClipboardBackend::WlClipboard),
    {
        Some(ClipboardBackend::WlClipboard)
    }

    /// Where on the desktop a stream is: the position of the first stream of that
    /// node, if there is one.
    pub fn stream_position(&self, stream_id: u32) -> (r: Option<(i32, i32)>)
        ensures
            match r {
                Some((x, y)) => exists|k: int|
                    {
                        &&& 0 <= k < self.streams@.len()
                        &&& (#[trigger] self.streams@[k]).node_id == stream_id
                        &&& x == self.streams@[k].position_x
                        &&& y == self.streams@[k].position_y
                        &&& forall|j: int|
                            0 <= j < k ==> (#[trigger] self.streams@[j]).node_id != stream_id
                    },
                None => forall|j: int|
                    0 <= j < self.streams@.len() ==> (#[trigger] self.streams@[j]).node_id
                        != stream_id,
            },
    {
        let mut i: usize = 0;
        while i < self.streams.len()
            invariant
                i <= self.streams@.len(),
                forall|j: int| 0 <= j < i ==> (#[trigger] self.streams@[j]).node_id != stream_id,
            decreases self.streams@.len() - i,
        {
            let s = self.streams[i];
            if s.node_id == stream_id {
                return Some((s.position_x, s.position_y));
            }
            i += 1;
        }
        None
    }
}

/// What came of looking for a token to restore a session with.
#[derive(Debug)]
pub enum TokenLookup {
    NoStore,
    Found(String),
    Missing,
    Failed,
}

/// Makes sessions whose input goes over EIS.
#[derive(Clone, Copy, Debug, PartialEq, Eq, Structural)]
pub struct LibeiStrategy {
    /// Whether there is a store for tokens.
    pub token_store: bool,
}

impl Default for LibeiStrategy {
    fn default() -> (r: LibeiStrategy)
        ensures
            !r.token_store,
    {
        LibeiStrategy::new(false)
    }
}

impl LibeiStrategy {
    pub fn new(token_store: bool) -> (r: LibeiStrategy)
        ensures
            r.token_store == token_store,
    {
        LibeiStrategy { token_store }
    }

    pub fn name(&self) -> (r: &'static str)
        ensures
            r@ == "libei"@,
    {
        "libei"
    }

    pub fn requires_initial_setup(&self) -> (r: bool)
        ensures
            r,
    {
        true
    }

    pub fn supports_unattended_restore(&self) -> (r: bool)
        ensures
            r,
    {
        true
    }

    /// The name that the token is stored under.
    pub fn token_name(&self) -> (r: &'static str)
        ensures
            r@ == "libei-default"@,
    {
        "libei-default"
    }

    /// A tag to tell the sessions of this process apart in its log.
    pub fn session_tag(&self) -> (r: String)
        ensures
            r@.len() == 14,
            r@.take(6) == "libei-"@,
            forall|i: int| 6 <= i < 14 ==> crate::session::strategy::is_hex(#[trigger] r@[i]),
    {
        proof {
            reveal_strlit("libei-");
        }
        new_session_tag("libei-")
    }

    /// The token to restore with. Without one the user is asked.
    pub fn restore_token(&self, found: TokenLookup) -> (r: Option<String>)
        ensures
            r == match found {
                TokenLookup::Found(token) => Some(token),
                _ => None,
            },
    {
        match found {
            TokenLookup::Found(token) => Some(token),
            _ => None,
        }
    }

    /// The best way to show the pointer of those that the portal offers: beside the
    /// frames, else in them, else not at all.
    pub fn cursor_mode(&self, metadata: bool, embedded: bool) -> (r: CursorMode)
        ensures
            r == (if metadata {
                CursorMode::Metadata
            } else if embedded {
                CursorMode::Embedded
            } else {
                CursorMode::Hidden
            }),
    {
        if metadata {
            CursorMode::Metadata
        } else if embedded {
            CursorMode::Embedded
        } else {
            CursorMode::Hidden
        }
    }

    /// What the log says before the portal is asked to start.
    pub fn start_notice(&self, restoring: bool) -> (r: &'static str)
        ensures
            r@ == (if restoring {
                " (restore token present, no dialog expected)"@
            } else {
                " (no restore token: the portal will prompt on the session's display and this call blocks until it is answered)"@
            }),
    {
        if restoring {
            " (restore token present, no dialog expected)"
        } else {
            " (no restore token: the portal will prompt on the session's display and this call blocks until it is answered)"
        }
    }

    /// The token to store for the next start, if the portal gave one.
    pub fn token_to_save(&self, received: Option<String>) -> (r: Option<String>)
        ensures
            r == (if self.token_store {
                received
            } else {
                None
            }),
    {
        if self.token_store {
            received
        } else {
            None
        }
    }

    /// The streams of a session that the portal started. There is no session
    /// without a stream.
    pub fn started(&self, portal: &Vec<PortalStream>) -> (r: Result<Vec<StreamInfo>, &'static str>)
        ensures
            match r {
                Ok(s) => portal@.len() > 0 && s@ == portal@.map_values(
                    |s: PortalStream| s.info(),
                ),
                Err(e) => portal@.len() == 0 && e@
                    == "libei: RemoteDesktop session returned no ScreenCast streams"@,
            },
    {
        if portal.len() == 0 {
            return Err("libei: RemoteDesktop session returned no ScreenCast streams");
        }
        Ok(streams_from_portal(portal))
    }
}

/// A dead connection is replaced: once the stream is gone, the next activation that
/// finds none under way connects anew.
pub proof fn law_lost_connection_is_replaced(s: LibeiView, alive: bool)
    ensures
        !(LibeiView { eis_activated: false, ..s }).input_works(alive),
{
}

/// After a dead connection was found, no event reaches a device until the new
/// connection announces some.
pub proof fn law_forgotten_devices_get_no_input(s: LibeiView, role: DeviceRole, interface: Interface)
    ensures
        s.forgotten().devices.target(role, interface) == Err::<InputTarget, _>(
            InputError::NotReady(role),
        ),
{
}

/// A device that a seat announces, that is said to be virtual and to have an
/// interface, and that is then done, gets the events of the role that the interface
/// earns.
pub proof fn law_announced_device_gets_input(
    states: Seq<LibeiView>,
    responses: Seq<EiResponse>,
    seat: u64,
    device: u64,
    interface: String,
    role: DeviceRole,
)
    requires
        states.len() == 5,
        responses.len() == 4,
        states[0].seats.contains_key(seat),
        interface@ == role.interface().protocol_name(),
        states[0].handled(EiEvent::SeatDevice { seat, device }, states[1], responses[0]),
        states[1].handled(
            EiEvent::DeviceType { device, device_type: DeviceType::Virtual },
            states[2],
            responses[1],
        ),
        states[2].handled(EiEvent::DeviceInterface { device, interface }, states[3], responses[2]),
        states[3].handled(EiEvent::DeviceDone { device }, states[4], responses[3]),
    ensures
        states[4].devices.target(role, role.interface()) == Ok::<_, InputError>(
            InputTarget { device, serial: states[0].devices.last_serial },
        ),
{
    let data = states[3].devices.all[device];
    assert(data.interfaces.has(role.interface()));
    law_replacement_gets_input(states[3].devices, device, data, role);
}

/// A bit is set exactly where masking with it alone leaves something.
pub proof fn law_bits(mask: u64, i: u64)
    requires
        i < 64,
    ensures
        has_bit(mask, i) <==> mask & (1u64 << i) != 0,
{
    assert(((mask >> i) & 1 == 1) == (mask & (1u64 << i) != 0)) by (bit_vector)
        requires
            i < 64,
    ;
}

/// A seat's mask of an interface is the one that it offered the interface with, and there
/// is none of an interface that it did not offer.
pub proof fn law_masks_as_offered(s: SeatData, i: int, interface: Seq<char>)
    requires
        s.wf(),
    ensures
        0 <= i < s.capabilities@.len() ==> s.mask(s.capabilities@[i].interface@) == Some(
            s.capabilities@[i].mask,
        ),
        s.mask(interface) is Some ==> exists|k: int|
            0 <= k < s.capabilities@.len() && (#[trigger] s.capabilities@[k]).interface@
                == interface && s.mask(interface) == Some(s.capabilities@[k].mask),
        s.is_new() ==> s.name is None && s.mask(interface) is None,
{
    if 0 <= i < s.capabilities@.len() {
        let name = s.capabilities@[i].interface@;
        let k = choose|k: int|
            0 <= k < s.capabilities@.len() && (#[trigger] s.capabilities@[k]).interface@ == name;
        assert(s.capabilities@[k].interface@ == s.capabilities@[i].interface@);
        if k < i {
            assert(s.capabilities@[k].interface@ != s.capabilities@[i].interface@);
        } else if i < k {
            assert(s.capabilities@[i].interface@ != s.capabilities@[k].interface@);
        }
    }
}

/// A ping is answered and changes nothing, and neither does an event about a seat or a
/// device that nobody announced.
pub proof fn law_events_that_change_nothing(
    before: LibeiView,
    event: EiEvent,
    after: LibeiView,
    response: EiResponse,
)
    requires
        before.handled(event, after, response),
    ensures
        event is Ping ==> after == before && response == (EiResponse::Pong {
            flush: before.context,
        }),
        event is CallbackDone || event is Other ==> after == before && response
            == EiResponse::Nothing,
        event is SeatName && !before.seats.contains_key(event->SeatName_seat) ==> after == before
            && response == EiResponse::UnknownSeat,
        event is SeatCapability && !before.seats.contains_key(event->SeatCapability_seat) ==> after
            == before && response == EiResponse::UnknownSeat,
        event is SeatDone && !before.seats.contains_key(event->SeatDone_seat) ==> after == before
            && response == EiResponse::UnknownSeat,
        event is SeatDevice && !before.seats.contains_key(event->SeatDevice_seat) ==> after
            == before && response == EiResponse::UnknownSeat,
        event is DeviceName && !before.devices.all.contains_key(event->DeviceName_device)
            ==> after == before && response == EiResponse::UnknownDevice,
        event is DeviceType && !before.devices.all.contains_key(event->DeviceType_device)
            ==> after == before && response == EiResponse::UnknownDevice,
        event is DeviceInterface && !before.devices.all.contains_key(
            event->DeviceInterface_device,
        ) ==> after == before && response == EiResponse::UnknownDevice,
        event is DeviceRegion && !before.devices.all.contains_key(event->DeviceRegion_device)
            ==> after == before && response == EiResponse::UnknownDevice,
        event is DeviceDestroyed && !before.devices.all.contains_key(
            event->DeviceDestroyed_device,
        ) ==> after == before && response == EiResponse::UnknownDevice,
        event is DeviceDone && !before.devices.all.contains_key(event->DeviceDone_device)
            ==> after == before && response == EiResponse::UnknownDevice,
        event is DeviceResumed && !before.devices.all.contains_key(event->DeviceResumed_device)
            ==> after == before && response == EiResponse::UnknownDevice,
{
}

/// Whatever an event says, the picture and the state of the connection stay; what it says
/// of a seat leaves devices and other seats alone, and what it says of a device leaves
/// seats and what is known of other devices alone.
pub proof fn law_events_touch_their_subject(
    before: LibeiView,
    event: EiEvent,
    after: LibeiView,
    response: EiResponse,
    seat: u64,
    device: u64,
)
    requires
        before.handled(event, after, response),
    ensures
        after.streams == before.streams && after.video_fd == before.video_fd,
        after.context == before.context && after.connection == before.connection,
        after.eis_activated == before.eis_activated && after.activating == before.activating,
        after.device_version == before.device_version,
        event is SeatName || event is SeatCapability || event is Seat || event is SeatDone
            ==> after.devices == before.devices,
        !(event is SeatName || event is SeatCapability || event is Seat) ==> after.seats
            == before.seats,
        event is Seat && event->Seat_seat != seat ==> (after.seats.contains_key(seat)
            <==> before.seats.contains_key(seat)) && after.seats[seat] == before.seats[seat],
        event is SeatName && event->SeatName_seat != seat ==> after.seats[seat]
            == before.seats[seat],
        event is SeatCapability && event->SeatCapability_seat != seat ==> after.seats[seat]
            == before.seats[seat],
        event is SeatDevice && event->SeatDevice_device != device ==> after.devices.all[device]
            == before.devices.all[device],
        event is DeviceName && event->DeviceName_device != device ==> after.devices.all[device]
            == before.devices.all[device],
        event is DeviceType && event->DeviceType_device != device ==> after.devices.all[device]
            == before.devices.all[device],
        event is DeviceInterface && event->DeviceInterface_device != device
            ==> after.devices.all[device] == before.devices.all[device],
        event is DeviceRegion && event->DeviceRegion_device != device ==> after.devices.all[device]
            == before.devices.all[device],
        event is DeviceDestroyed && event->DeviceDestroyed_device != device
            ==> after.devices.all[device] == before.devices.all[device],
        event is DeviceDone || event is DeviceResumed ==> after.devices.all == before.devices.all,
{
}

/// What is said of a known seat or device is known of it afterwards, beside what was.
pub proof fn law_events_are_remembered(
    before: LibeiView,
    event: EiEvent,
    after: LibeiView,
    response: EiResponse,
)
    requires
        before.handled(event, after, response),
    ensures
        event matches EiEvent::Seat { seat } ==> after.seats.contains_key(seat)
            && after.seats[seat].name is None && response == EiResponse::Nothing,
        event matches EiEvent::SeatName { seat, name } ==> (before.seats.contains_key(seat)
            ==> after.seats[seat].name == Some(name) && after.seats[seat].capabilities
            == before.seats[seat].capabilities),
        event matches EiEvent::SeatCapability { seat, mask, interface } ==> (
        before.seats.contains_key(seat) ==> after.seats[seat].mask(interface@) == Some(mask)),
        event matches EiEvent::SeatDevice { seat, device } ==> (before.seats.contains_key(seat)
            ==> after.devices.all.contains_key(device) && after.devices.all[device].seat == Some(
            seat,
        ) && after.devices.all[device].device_type is None
            && after.devices.all[device].regions@.len() == 0),
        event matches EiEvent::DeviceName { device, name } ==> (before.devices.all.contains_key(
            device,
        ) ==> after.devices.all[device].name == Some(name)),
        event matches EiEvent::DeviceType { device, device_type } ==> (
        before.devices.all.contains_key(device) ==> after.devices.all[device].device_type == Some(
            device_type,
        ) && after.devices.all[device].interfaces == before.devices.all[device].interfaces),
        event matches EiEvent::DeviceRegion { device, region } ==> (
        before.devices.all.contains_key(device) ==> after.devices.all[device].regions@.len() == 1
            && after.devices.all[device].regions@[0] == region
            && after.devices.all[device].interfaces == before.devices.all[device].interfaces),
        event matches EiEvent::DeviceInterface { device, interface } ==> (
        before.devices.all.contains_key(device) ==> forall|i: Interface|
            before.devices.all[device].interfaces.has(i) ==> #[trigger] after.devices.all[device].interfaces.has(
                i,
            )),
        event matches EiEvent::DeviceDestroyed { device, serial } ==> (
        before.devices.all.contains_key(device) ==> !after.devices.all.contains_key(device)
            && after.devices.last_serial == serial),
        event matches EiEvent::DeviceResumed { device, serial } ==> (
        before.devices.all.contains_key(device) ==> after.devices.last_serial == serial),
{
}

/// A seat that is complete is bound with every capability that it offered and no other,
/// and a device that resumes is told to emulate from the next number on.
pub proof fn law_answers(
    before: LibeiView,
    event: EiEvent,
    after: LibeiView,
    response: EiResponse,
    interface: Seq<char>,
    i: u64,
)
    requires
        before.handled(event, after, response),
        i < 64,
    ensures
        event matches EiEvent::SeatDone { seat } ==> (before.seats.contains_key(seat) ==> {
            &&& response is Bind && response->Bind_seat == seat
            &&& response->Bind_sync == before.connection
            &&& response->Bind_flush == before.context
            &&& before.seats[seat].mask(interface) is Some && has_bit(
                before.seats[seat].mask(interface)->0,
                i,
            ) ==> has_bit(response->Bind_capabilities, i)
            &&& (forall|n: Seq<char>|
                (#[trigger] before.seats[seat].mask(n)) is Some ==> !has_bit(
                    before.seats[seat].mask(n)->0,
                    i,
                )) ==> !has_bit(response->Bind_capabilities, i)
        }),
        event matches EiEvent::DeviceResumed { device, serial } ==> (
        before.devices.all.contains_key(device) ==> {
            &&& response is Emulate && response->Emulate_device == device
            &&& response->Emulate_serial == serial && response->Emulate_flush == before.context
            &&& serial < u32::MAX ==> response->Emulate_sequence == serial + 1
            &&& serial == u32::MAX ==> response->Emulate_sequence == 0
        }),
        event matches EiEvent::DeviceDone { device } ==> (before.devices.all.contains_key(device)
            ==> (response == EiResponse::Ready { device, flush: before.context }
            <==> before.device_version >= 3) && (before.device_version < 3 ==> response
            == EiResponse::Nothing)),
{
}

/// Input works exactly where it was set up, the connection is there and it is alive.
pub proof fn law_input_works(s: LibeiView)
    ensures
        s.input_works(true) <==> s.eis_activated && s.context,
        !s.input_works(false),
{
}

/// Of a connection that is gone nothing is kept but the numbering; the picture goes on.
pub proof fn law_picture_outlives_connection(s: LibeiView, seat: u64, device: u64)
    ensures
        !s.forgotten().seats.contains_key(seat),
        !s.forgotten().devices.all.contains_key(device),
        !s.forgotten().eis_activated,
        s.forgotten().streams == s.streams && s.forgotten().video_fd == s.video_fd,
        s.forgotten().devices.last_serial == s.devices.last_serial,
        s.forgotten().context == s.context && s.forgotten().connection == s.connection,
        s.forgotten().activating == s.activating,
{
}

} // verus!
