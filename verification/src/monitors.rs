//! Monitors and their brightness.
//!
//! External monitors are driven over DDC/CI. Laptop panels don't speak
//! DDC/CI and Windows reports no friendly name for them: they are driven
//! through the internal display brightness interface (the `\\.\LCD` device),
//! which lists the brightness levels it supports and reports the current
//! brightness in a three byte `DISPLAY_BRIGHTNESS` record `{ policy, ac, dc }`.
//! Levels are percentages: the brightness is on the usual 0 - 100 scale,
//! just like DDC.
//!
//! Handles (`HMONITOR`, `HANDLE`) are carried as the integer value of the
//! pointer that Windows hands out.

use vstd::prelude::*;
use crate::utils::error::{Error, hresult_from_win32, spec_hresult_from_win32};
use crate::edid::{edid_model, edid_monitor_name, model};
use crate::utils::text::{is_blank, is_white_space, lemma_trim_shape, string_from_chars, trim};

verus! {

/// Shown instead of the (missing) friendly name of an internal display.
pub const INTERNAL_DISPLAY_NAME: &'static str = "Internal Display";

/// The device path of a monitor, which identifies it across runs.
#[derive(Clone, Debug, PartialEq, Eq, PartialOrd, Ord, Hash)]
pub struct MonitorPath {
    path: String,
}

impl View for MonitorPath {
    type V = Seq<char>;

    closed spec fn view(&self) -> Seq<char> {
        self.path@
    }
}

impl MonitorPath {
    /// The monitor path with this text.
    pub fn new(path: &str) -> (p: MonitorPath)
        ensures
            p@ == path@,
    {
        MonitorPath { path: path.to_owned() }
    }

    /// The path as text.
    pub fn as_str(&self) -> (s: &str)
        ensures
            s@ == self@,
    {
        self.path.as_str()
    }

    /// Whether the path is empty.
    pub fn is_empty(&self) -> (r: bool)
        ensures
            r == (self@.len() == 0),
    {
        self.path.as_str().is_empty()
    }
}

/// What a [`Monitor`] is, as a value.
pub ghost struct MonitorView {
    pub name: Seq<char>,
    pub path: Seq<char>,
    pub hmonitor: isize,
    pub internal: bool,
}

/// A monitor that can be opened for brightness control.
#[derive(Clone, Debug)]
pub struct Monitor {
    name: String,
    path: MonitorPath,
    hmonitor: isize,
    /// True for laptop panels: they have no DDC/CI support and Windows doesn't
    /// report a friendly name for them, so they are driven through the internal
    /// display brightness interface instead.
    internal: bool,
}

impl View for Monitor {
    type V = MonitorView;

    closed spec fn view(&self) -> MonitorView {
        MonitorView {
            name: self.name@,
            path: self.path@,
            hmonitor: self.hmonitor,
            internal: self.internal,
        }
    }
}

/// An active display path as Windows reports it: the target's friendly name
/// and device path, the GDI device name of its source, and the EDID block of
/// the display (empty when it could not be read).
pub struct DisplayTarget {
    pub name: String,
    pub path: String,
    pub gdi_name: Vec<u16>,
    pub edid: Vec<u8>,
}

/// The name an internal display is listed with: the model its EDID block
/// reports, or else [`INTERNAL_DISPLAY_NAME`].
pub open spec fn internal_display_name(edid: Seq<u8>) -> Seq<char> {
    match edid_model(edid) {
        Some(model) => model,
        None => INTERNAL_DISPLAY_NAME@,
    }
}

/// A GDI monitor: its device name and its `HMONITOR`.
pub struct GdiMonitor {
    pub gdi_name: Vec<u16>,
    pub hmonitor: isize,
}

/// The `HMONITOR` of the first GDI monitor from index `i` on whose device
/// name is `gdi_name`.
pub open spec fn hmonitor_named_from(gdi: Seq<GdiMonitor>, gdi_name: Seq<u16>, i: int) -> Option<isize>
    decreases gdi.len() - i,
{
    if i < 0 || i >= gdi.len() {
        None
    } else if gdi[i].gdi_name@ == gdi_name {
        Some(gdi[i].hmonitor)
    } else {
        hmonitor_named_from(gdi, gdi_name, i + 1)
    }
}

/// The `HMONITOR` of the first GDI monitor whose device name is `gdi_name`.
pub open spec fn hmonitor_named(gdi: Seq<GdiMonitor>, gdi_name: Seq<u16>) -> Option<isize> {
    hmonitor_named_from(gdi, gdi_name, 0)
}

/// The monitor that a display target stands for: none when no GDI monitor
/// has its source's device name, or when its device path is empty. A target
/// without a friendly name is the internal display when the internal
/// brightness interface is available, and is then named after the model its
/// EDID block reports (see [`internal_display_name`]).
pub open spec fn monitor_of(target: DisplayTarget, gdi: Seq<GdiMonitor>, internal_supported: bool) -> Option<MonitorView> {
    match hmonitor_named(gdi, target.gdi_name@) {
        None => None,
        Some(hmonitor) => {
            let internal = trim(target.name@).len() == 0 && internal_supported;
            if target.path@.len() == 0 {
                None
            } else {
                Some(
                    MonitorView {
                        name: if internal {
                            internal_display_name(target.edid@)
                        } else {
                            target.name@
                        },
                        path: target.path@,
                        hmonitor,
                        internal,
                    },
                )
            }
        },
    }
}

/// The monitors that the display targets stand for, in their order.
pub open spec fn monitors_of(targets: Seq<DisplayTarget>, gdi: Seq<GdiMonitor>, internal_supported: bool) -> Seq<MonitorView>
    decreases targets.len(),
{
    if targets.len() == 0 {
        Seq::empty()
    } else {
        let rest = monitors_of(targets.drop_last(), gdi, internal_supported);
        match monitor_of(targets.last(), gdi, internal_supported) {
            Some(m) => rest.push(m),
            None => rest,
        }
    }
}

/// Whether two UTF-16 names are the same.
fn same_name(a: &Vec<u16>, b: &Vec<u16>) -> (r: bool)
    ensures
        r == (a@ == b@),
{
    if a.len() != b.len() {
        return false;
    }
    let mut i: usize = 0;
    while i < a.len()
        invariant
            a.len() == b.len(),
            i <= a.len(),
            forall|j: int| 0 <= j < i ==> a@[j] == b@[j],
        decreases a.len() - i,
    {
        if a[i] != b[i] {
            return false;
        }
        i = i + 1;
    }
    assert(a@ =~= b@);
    true
}

/// The `HMONITOR` of the first GDI monitor named `gdi_name`.
fn find_hmonitor(gdi: &Vec<GdiMonitor>, gdi_name: &Vec<u16>) -> (r: Option<isize>)
    ensures
        r == hmonitor_named(gdi@, gdi_name@),
{
    let mut i: usize = 0;
    while i < gdi.len()
        invariant
            i <= gdi.len(),
            hmonitor_named(gdi@, gdi_name@) == hmonitor_named_from(gdi@, gdi_name@, i as int),
        decreases gdi.len() - i,
    {
        if same_name(&gdi[i].gdi_name, gdi_name) {
            return Some(gdi[i].hmonitor);
        }
        i = i + 1;
    }
    None
}

/// How a monitor is opened.
#[derive(Debug, Clone, Copy, PartialEq, Eq, Structural)]
pub enum ConnectionTarget {
    /// Through the internal display brightness interface.
    Internal,
    /// Over DDC/CI, through the physical monitor of this `HMONITOR`.
    Ddc { hmonitor: isize },
}

impl Monitor {
    /// The monitors of the active display targets, in their order.
    ///
    /// `gdi_monitors` are the GDI monitors of the system, and
    /// `internal_supported` tells whether the internal display brightness
    /// interface is available. A target whose source matches no GDI monitor,
    /// or whose device path is empty, is left out.
    pub fn find_all(
        targets: &Vec<DisplayTarget>,
        gdi_monitors: &Vec<GdiMonitor>,
        internal_supported: bool,
    ) -> (monitors: Vec<Monitor>)
        ensures
            monitors@.map_values(|m: Monitor| m@) == monitors_of(
                targets@,
                gdi_monitors@,
                internal_supported,
            ),
    {
        let mut monitors: Vec<Monitor> = Vec::new();
        let mut i: usize = 0;
        while i < targets.len()
            invariant
                i <= targets.len(),
                monitors@.map_values(|m: Monitor| m@) == monitors_of(
                    targets@.take(i as int),
                    gdi_monitors@,
                    internal_supported,
                ),
            decreases targets.len() - i,
        {
            let target = &targets[i];
            let ghost before = monitors@;
            assert(targets@.take(i + 1).drop_last() =~= targets@.take(i as int));
            assert(targets@.take(i + 1).last() == targets@[i as int]);
            match find_hmonitor(gdi_monitors, &target.gdi_name) {
                None => {},
                Some(hmonitor) => {
                    let internal = is_blank(target.name.as_str()) && internal_supported;
                    let name = if internal {
                        match model(&target.edid) {
                            Some(model) => string_from_chars(&model),
                            None => INTERNAL_DISPLAY_NAME.to_owned(),
                        }
                    } else {
                        target.name.clone()
                    };
                    let path = MonitorPath::new(target.path.as_str());
                    if !path.is_empty() {
                        let monitor = Monitor { name, path, hmonitor, internal };
                        monitors.push(monitor);
                        assert(monitors@.map_values(|m: Monitor| m@) =~= before.map_values(
                            |m: Monitor| m@,
                        ).push(monitor@));
                    }
                },
            }
            i = i + 1;
        }
        assert(targets@.take(targets.len() as int) =~= targets@);
        monitors
    }

    /// The name of the monitor.
    pub fn name(&self) -> (name: &str)
        ensures
            name@ == self@.name,
    {
        self.name.as_str()
    }

    /// The device path of the monitor.
    pub fn path(&self) -> (path: &MonitorPath)
        ensures
            path@ == self@.path,
    {
        &self.path
    }

    /// The `HMONITOR` of the monitor.
    pub fn hmonitor(&self) -> (hmonitor: isize)
        ensures
            hmonitor == self@.hmonitor,
    {
        self.hmonitor
    }

    /// True if this is the built in laptop panel.
    pub fn is_internal(&self) -> (internal: bool)
        ensures
            internal == self@.internal,
    {
        self.internal
    }

    /// How the monitor is opened: the internal display through the internal
    /// brightness interface, every other one over DDC/CI.
    pub fn open(&self) -> (target: ConnectionTarget)
        ensures
            target == (if self@.internal {
                ConnectionTarget::Internal
            } else {
                ConnectionTarget::Ddc { hmonitor: self@.hmonitor }
            }),
    {
        if self.internal {
            ConnectionTarget::Internal
        } else {
            ConnectionTarget::Ddc { hmonitor: self.hmonitor }
        }
    }
}

/// A brightness reading: the current value and the inclusive range
/// `min..=max` it lies in.
#[derive(Debug, Clone, Copy, PartialEq, Eq, Structural)]
pub struct Brightness {
    pub current: u32,
    pub min: u32,
    pub max: u32,
}

/// Brightness control of the built in laptop panel.
pub struct InternalBrightness {
    handle: isize,
}

/// Whether a handle value is invalid: `INVALID_HANDLE_VALUE` (-1) or null.
pub open spec fn is_invalid_handle(handle: isize) -> bool {
    handle == -1 || handle == 0
}

/// The highest of the brightness levels a driver lists (0 for none).
/// Levels are percentages, so a driver that lists the whole scale gives 100.
pub open spec fn highest_level(levels: Seq<u8>) -> u8
    decreases levels.len(),
{
    if levels.len() == 0 {
        0
    } else {
        let rest = highest_level(levels.drop_last());
        if levels.last() > rest {
            levels.last()
        } else {
            rest
        }
    }
}

/// The brightness in a `DISPLAY_BRIGHTNESS` record `{ policy, ac, dc }`:
/// the DC value under policy 2 (DC), the AC value otherwise; a zero there
/// falls back to the AC value, or else to the DC value.
pub open spec fn reported_level(reply: Seq<u8>) -> u8 {
    let chosen = if reply[0] == 2 {
        reply[2]
    } else {
        reply[1]
    };
    if chosen == 0 && reply[1] != 0 {
        reply[1]
    } else if chosen == 0 {
        reply[2]
    } else {
        chosen
    }
}

/// The reading of the internal display, on the percentage scale of the
/// levels the driver lists: the reported level, at most the highest listed
/// level, within `0..=highest_level(levels)`.
pub open spec fn internal_reading(reply: Seq<u8>, levels: Seq<u8>) -> Brightness {
    let max = highest_level(levels);
    let level = reported_level(reply);
    Brightness {
        current: (if level <= max {
            level
        } else {
            max
        }) as u32,
        min: 0,
        max: max as u32,
    }
}

/// The level written for a requested brightness: the request, at most the
/// highest level the driver lists.
pub open spec fn internal_level(value: u32, levels: Seq<u8>) -> u8 {
    let max = highest_level(levels);
    if value <= max {
        value as u8
    } else {
        max
    }
}

/// The `DISPLAY_BRIGHTNESS` record that sets a brightness: policy 2 (update
/// AC and DC) with the same level for both.
pub open spec fn internal_request(value: u32, levels: Seq<u8>) -> Seq<u8> {
    seq![2u8, internal_level(value, levels), internal_level(value, levels)]
}

/// Why the internal display brightness interface could not be opened, and
/// the device handle to close, if one was opened.
#[derive(Debug, Clone, Copy, PartialEq, Eq, Structural)]
pub struct OpenFailure {
    pub error: Error,
    pub close: Option<isize>,
}

/// What opening the internal display brightness interface gives for an
/// opened handle, the Win32 error reported by the open, and the reply of the
/// supported levels query on that handle: a device only when the handle is
/// valid and the driver lists at least one level.
pub open spec fn internal_open(handle: isize, last_error: u32, levels: Result<Seq<u8>, Error>) -> Result<isize, OpenFailure> {
    if is_invalid_handle(handle) {
        Err(OpenFailure { error: Error::Windows(spec_hresult_from_win32(last_error)), close: None })
    } else {
        match levels {
            Err(e) => Err(OpenFailure { error: e, close: Some(handle) }),
            Ok(levels) => if levels.len() == 0 {
                Err(OpenFailure { error: Error::NoBrightnessLevels, close: Some(handle) })
            } else {
                Ok(handle)
            },
        }
    }
}

/// A levels query reply, with the levels as a sequence.
pub open spec fn reply_view(levels: Result<Vec<u8>, Error>) -> Result<Seq<u8>, Error> {
    match levels {
        Ok(v) => Ok(v@),
        Err(e) => Err(e),
    }
}

impl InternalBrightness {
    /// The device handle is a valid one.
    #[verifier::type_invariant]
    spec fn has_valid_handle(self) -> bool {
        !is_invalid_handle(self.handle)
    }

    /// Takes an opened `\\.\LCD` device handle, the Win32 error `last_error`
    /// reported by the open, and the reply `levels` of the supported levels
    /// query on that handle. The device is handed out only when it really
    /// supports brightness control; otherwise the caller falls back to DDC,
    /// after closing the handle the failure names.
    pub fn open(handle: isize, last_error: u32, levels: Result<Vec<u8>, Error>) -> (r: Result<InternalBrightness, OpenFailure>)
        ensures
            match r {
                Ok(b) => internal_open(handle, last_error, reply_view(levels)) == Ok::<isize, OpenFailure>(b.handle()),
                Err(f) => internal_open(handle, last_error, reply_view(levels)) == Err::<isize, OpenFailure>(f),
            },
    {
        if handle == -1 || handle == 0 {
            return Err(OpenFailure { error: Error::Windows(hresult_from_win32(last_error)), close: None });
        }
        match levels {
            Err(e) => Err(OpenFailure { error: e, close: Some(handle) }),
            Ok(levels) => if levels.len() == 0 {
                Err(OpenFailure { error: Error::NoBrightnessLevels, close: Some(handle) })
            } else {
                Ok(InternalBrightness { handle })
            },
        }
    }

    /// The device handle.
    pub closed spec fn handle(&self) -> isize {
        self.handle
    }

    /// The device handle.
    pub fn device(&self) -> (handle: isize)
        ensures
            handle == self.handle(),
            !is_invalid_handle(handle),
    {
        proof {
            use_type_invariant(self);
        }
        self.handle
    }

    /// The highest of the brightness levels the driver lists (the bytes it
    /// returned for the supported levels query); an error when it lists none.
    pub fn supported_levels(levels: &Vec<u8>) -> (r: Result<u8, Error>)
        ensures
            match r {
                Ok(max) => levels@.len() != 0 && max == highest_level(levels@),
                Err(e) => levels@.len() == 0 && e == Error::NoBrightnessLevels,
            },
    {
        if levels.len() == 0 {
            return Err(Error::NoBrightnessLevels);
        }
        let mut max: u8 = 0;
        let mut i: usize = 0;
        while i < levels.len()
            invariant
                i <= levels.len(),
                max == highest_level(levels@.take(i as int)),
            decreases levels.len() - i,
        {
            assert(levels@.take(i + 1).drop_last() =~= levels@.take(i as int));
            if levels[i] > max {
                max = levels[i];
            }
            i = i + 1;
        }
        assert(levels@.take(levels.len() as int) =~= levels@);
        Ok(max)
    }

    /// The brightness of the panel, from the `DISPLAY_BRIGHTNESS` record
    /// `reply` and the brightness levels the driver lists.
    pub fn get_brightness(reply: [u8; 3], levels: &Vec<u8>) -> (r: Result<Brightness, Error>)
        ensures
            match r {
                Ok(b) => levels@.len() != 0 && b == internal_reading(reply@, levels@),
                Err(e) => levels@.len() == 0 && e == Error::NoBrightnessLevels,
            },
    {
        let max = Self::supported_levels(levels)?;
        // policy 2 = DC, everything else = AC (see DISPLAY_BRIGHTNESS)
        let chosen = if reply[0] == 2 {
            reply[2]
        } else {
            reply[1]
        };
        let level = if chosen == 0 && reply[1] != 0 {
            reply[1]
        } else if chosen == 0 {
            reply[2]
        } else {
            chosen
        };
        let current = if level <= max {
            level
        } else {
            max
        };
        Ok(Brightness { current: current as u32, min: 0, max: max as u32 })
    }

    /// The `DISPLAY_BRIGHTNESS` record that sets the brightness to `value`,
    /// given the brightness levels the driver lists.
    pub fn set_brightness(value: u32, levels: &Vec<u8>) -> (r: Result<[u8; 3], Error>)
        ensures
            match r {
                Ok(request) => levels@.len() != 0 && request@ == internal_request(value, levels@),
                Err(e) => levels@.len() == 0 && e == Error::NoBrightnessLevels,
            },
    {
        let max = Self::supported_levels(levels)?;
        let level: u8 = if value <= max as u32 {
            value as u8
        } else {
            max
        };
        let mut request: [u8; 3] = [0u8; 3];
        request[0] = 2;  // update the brightness for both AC and DC
        request[1] = level;
        request[2] = level;
        assert(request@ =~= internal_request(value, levels@));
        Ok(request)
    }
}

/// How a connection reaches its monitor.
pub enum ConnectionBackend {
    /// Over DDC/CI, through this physical monitor handle.
    Ddc { handle: isize },
    /// Through the internal display brightness interface.
    Internal(InternalBrightness),
}

/// An open connection to a monitor.
pub struct MonitorConnection {
    backend: ConnectionBackend,
}

impl MonitorConnection {
    /// Checks that an `HMONITOR` has exactly one physical monitor, the one a
    /// DDC/CI connection is opened on.
    pub fn check_physical_monitor_count(count: u32) -> (r: Result<(), Error>)
        ensures
            r is Ok <==> count == 1,
            r matches Err(e) ==> e == Error::AssertionFailed,
    {
        if count == 1 {
            Ok(())
        } else {
            Err(Error::AssertionFailed)
        }
    }

    /// A DDC/CI connection through a physical monitor handle.
    pub fn ddc(handle: isize) -> (c: MonitorConnection)
        ensures
            c.ddc_handle() == Some(handle),
            c.internal_handle() == None::<isize>,
    {
        MonitorConnection { backend: ConnectionBackend::Ddc { handle } }
    }

    /// A connection through the internal display brightness interface.
    pub fn internal(brightness: InternalBrightness) -> (c: MonitorConnection)
        ensures
            c.ddc_handle() == None::<isize>,
            c.internal_handle() == Some(brightness.handle()),
    {
        MonitorConnection { backend: ConnectionBackend::Internal(brightness) }
    }

    /// The physical monitor handle of a DDC/CI connection.
    pub closed spec fn ddc_handle(&self) -> Option<isize> {
        match self.backend {
            ConnectionBackend::Ddc { handle } => Some(handle),
            ConnectionBackend::Internal(_) => None,
        }
    }

    /// The device handle of an internal display connection.
    pub closed spec fn internal_handle(&self) -> Option<isize> {
        match self.backend {
            ConnectionBackend::Ddc { .. } => None,
            ConnectionBackend::Internal(b) => Some(b.handle()),
        }
    }

    /// How the connection reaches its monitor.
    pub fn backend(&self) -> (backend: &ConnectionBackend)
        ensures
            match *backend {
                ConnectionBackend::Ddc { handle } => self.ddc_handle() == Some(handle),
                ConnectionBackend::Internal(b) => self.internal_handle() == Some(b.handle())
                    && self.ddc_handle() is None,
            },
    {
        &self.backend
    }

    /// The physical monitor whose current settings are to be saved: the
    /// DDC/CI one. The internal display keeps its brightness on its own, so
    /// there is nothing to save for it.
    pub fn save_settings(&self) -> (handle: Option<isize>)
        ensures
            handle == self.ddc_handle(),
    {
        match &self.backend {
            ConnectionBackend::Ddc { handle } => Some(*handle),
            ConnectionBackend::Internal(_) => None,
        }
    }
}

/// Every monitor found has a device path; one is internal only when the
/// internal brightness interface is available, and it is then listed with a
/// name; no more monitors are found than there are display targets.
pub proof fn lemma_found_monitors(targets: Seq<DisplayTarget>, gdi: Seq<GdiMonitor>, internal_supported: bool)
    ensures
        forall|i: int|
            0 <= i < monitors_of(targets, gdi, internal_supported).len() ==> {
                let m = #[trigger] monitors_of(targets, gdi, internal_supported)[i];
                &&& m.path.len() > 0
                &&& m.internal ==> internal_supported && m.name.len() > 0
            },
        monitors_of(targets, gdi, internal_supported).len() <= targets.len(),
    decreases targets.len(),
{
    reveal_strlit("Internal Display");
    if targets.len() > 0 {
        lemma_found_monitors(targets.drop_last(), gdi, internal_supported);
        let last = targets.last();
        if let Some(name) = edid_monitor_name(last.edid@) {
            assert(name.len() > 0 ==> edid_model(last.edid@) == Some(name));
        }
    }
}

/// The highest listed level is one of the listed levels, and no listed
/// level is above it.
pub proof fn lemma_highest_level(levels: Seq<u8>)
    requires
        levels.len() > 0,
    ensures
        levels.contains(highest_level(levels)),
        forall|i: int| 0 <= i < levels.len() ==> #[trigger] levels[i] <= highest_level(levels),
    decreases levels.len(),
{
    let rest = levels.drop_last();
    assert(levels[levels.len() - 1] == levels.last());
    if rest.len() > 0 {
        lemma_highest_level(rest);
        let j = choose|j: int| 0 <= j < rest.len() && rest[j] == highest_level(rest);
        assert(levels[j] == rest[j]);
        if levels.last() > highest_level(rest) {
            assert(levels[levels.len() - 1] == highest_level(levels));
        } else {
            assert(levels[j] == highest_level(levels));
        }
    } else {
        assert(levels[levels.len() - 1] == highest_level(levels));
    }
    assert forall|i: int| 0 <= i < levels.len() implies #[trigger] levels[i] <= highest_level(levels) by {
        if i < levels.len() - 1 {
            assert(levels[i] == rest[i]);
        }
    }
}

/// The brightness read from the internal display lies in its reported
/// range, which runs from zero to the highest level the driver lists (100
/// for a driver that lists the whole percentage scale).
pub proof fn lemma_internal_reading_in_range(reply: Seq<u8>, levels: Seq<u8>)
    requires
        reply.len() == 3,
        levels.len() > 0,
    ensures
        internal_reading(reply, levels).min == 0,
        internal_reading(reply, levels).max == highest_level(levels) as u32,
        levels.contains(internal_reading(reply, levels).max as u8),
        internal_reading(reply, levels).current <= internal_reading(reply, levels).max,
{
    lemma_highest_level(levels);
}

/// Reading back what was written to the internal display gives the
/// requested brightness, limited to the highest level the driver lists: on
/// a driver that lists the whole percentage scale, any value up to 100 comes
/// back unchanged.
pub proof fn lemma_internal_write_then_read(value: u32, levels: Seq<u8>)
    ensures
        internal_reading(internal_request(value, levels), levels).current == (if value
            <= highest_level(levels) {
            value
        } else {
            highest_level(levels) as u32
        }),
        internal_request(value, levels)[1] == internal_request(value, levels)[2],
        levels.contains(100u8) && value <= 100 ==> internal_request(value, levels)
            == seq![2u8, value as u8, value as u8],
{
    if levels.contains(100u8) {
        let j = choose|j: int| 0 <= j < levels.len() && levels[j] == 100u8;
        lemma_highest_level(levels);
        assert(levels[j] <= highest_level(levels));
    }
}

/// The reading of the internal display follows the brightness policy of
/// the `DISPLAY_BRIGHTNESS` record `[policy, ac, dc]`: under policy 2 (DC)
/// the DC byte, under any other policy the AC byte, each falling back to
/// the other when it is zero; the value is capped at the top of the range,
/// which is the highest level the driver lists, and the range starts at 0.
pub proof fn lemma_internal_reading_follows_policy(reply: Seq<u8>, levels: Seq<u8>)
    requires
        reply.len() == 3,
        levels.len() > 0,
    ensures
        ({
            let r = internal_reading(reply, levels);
            &&& r.min == 0
            &&& levels.contains(r.max as u8) && r.max <= 255
            &&& forall|i: int| 0 <= i < levels.len() ==> #[trigger] levels[i] <= r.max
            &&& reply[0] != 2 ==> r.current == (if reply[1] != 0 {
                if reply[1] <= r.max { reply[1] as u32 } else { r.max }
            } else {
                if reply[2] <= r.max { reply[2] as u32 } else { r.max }
            })
            &&& reply[0] == 2 ==> r.current == (if reply[2] != 0 {
                if reply[2] <= r.max { reply[2] as u32 } else { r.max }
            } else {
                if reply[1] <= r.max { reply[1] as u32 } else { r.max }
            })
        }),
{
    lemma_highest_level(levels);
}

/// The request written to the internal display sets AC and DC alike under
/// policy 2, to the requested value when the driver lists a level at least
/// as high, and else to the highest level it lists.
pub proof fn lemma_internal_request_levels(value: u32, levels: Seq<u8>)
    requires
        levels.len() > 0,
    ensures
        internal_request(value, levels).len() == 3,
        internal_request(value, levels)[0] == 2,
        internal_request(value, levels)[1] == internal_request(value, levels)[2],
        (exists|i: int| 0 <= i < levels.len() && value <= levels[i]) ==> internal_request(
            value,
            levels,
        )[1] == value,
        (forall|i: int| 0 <= i < levels.len() ==> levels[i] < value) ==> levels.contains(
            internal_request(value, levels)[1],
        ) && forall|i: int|
            0 <= i < levels.len() ==> #[trigger] levels[i] <= internal_request(value, levels)[1],
{
    lemma_highest_level(levels);
    if exists|i: int| 0 <= i < levels.len() && value <= levels[i] {
        let i = choose|i: int| 0 <= i < levels.len() && value <= levels[i];
        assert(levels[i] <= highest_level(levels));
    }
}

/// Some GDI monitor has the device name of the target's source.
pub open spec fn has_gdi_source(gdi: Seq<GdiMonitor>, target: DisplayTarget) -> bool {
    exists|j: int| 0 <= j < gdi.len() && (#[trigger] gdi[j]).gdi_name@ == target.gdi_name@
}

/// The display targets that stand for a monitor: those whose source is a
/// GDI monitor and whose device path is not empty, in their order.
pub open spec fn listed_targets(targets: Seq<DisplayTarget>, gdi: Seq<GdiMonitor>) -> Seq<DisplayTarget>
    decreases targets.len(),
{
    if targets.len() == 0 {
        targets
    } else {
        let rest = listed_targets(targets.drop_last(), gdi);
        let last = targets.last();
        if has_gdi_source(gdi, last) && last.path@.len() > 0 {
            rest.push(last)
        } else {
            rest
        }
    }
}

/// The monitor `m` is the one listed for target `t`: same device path; the
/// `HMONITOR` of the first GDI monitor with the target's source name;
/// internal exactly when the interface is available and the target's name
/// is all white space; named after the target, or after its EDID model
/// when internal.
pub open spec fn lists_target(m: MonitorView, t: DisplayTarget, gdi: Seq<GdiMonitor>, internal_supported: bool) -> bool {
    &&& m.path == t.path@
    &&& exists|j: int|
        0 <= j < gdi.len() && (#[trigger] gdi[j]).gdi_name@ == t.gdi_name@ && gdi[j].hmonitor
            == m.hmonitor && forall|earlier: int|
            0 <= earlier < j ==> (#[trigger] gdi[earlier]).gdi_name@ != t.gdi_name@
    &&& m.internal == (internal_supported && forall|c: int|
        0 <= c < t.name@.len() ==> is_white_space(#[trigger] t.name@[c]))
    &&& m.name == (if m.internal {
        internal_display_name(t.edid@)
    } else {
        t.name@
    })
}

proof fn lemma_hmonitor_named_from(gdi: Seq<GdiMonitor>, gdi_name: Seq<u16>, i: int)
    requires
        0 <= i <= gdi.len(),
    ensures
        match hmonitor_named_from(gdi, gdi_name, i) {
            None => forall|j: int| i <= j < gdi.len() ==> (#[trigger] gdi[j]).gdi_name@ != gdi_name,
            Some(h) => exists|j: int|
                i <= j < gdi.len() && (#[trigger] gdi[j]).gdi_name@ == gdi_name && gdi[j].hmonitor
                    == h && forall|earlier: int|
                    i <= earlier < j ==> (#[trigger] gdi[earlier]).gdi_name@ != gdi_name,
        },
    decreases gdi.len() - i,
{
    if i < gdi.len() && gdi[i].gdi_name@ != gdi_name {
        lemma_hmonitor_named_from(gdi, gdi_name, i + 1);
    }
}

/// Every display target whose source is a GDI monitor and whose device path
/// is not empty gets a monitor, in the order of the targets, and no other
/// target does: the monitors found and those targets pair up one to one.
pub proof fn lemma_find_all_lists_every_matched_target(
    targets: Seq<DisplayTarget>,
    gdi: Seq<GdiMonitor>,
    internal_supported: bool,
)
    ensures
        monitors_of(targets, gdi, internal_supported).len() == listed_targets(targets, gdi).len(),
        forall|k: int|
            0 <= k < listed_targets(targets, gdi).len() ==> lists_target(
                #[trigger] monitors_of(targets, gdi, internal_supported)[k],
                listed_targets(targets, gdi)[k],
                gdi,
                internal_supported,
            ),
    decreases targets.len(),
{
    if targets.len() > 0 {
        let rest = targets.drop_last();
        let last = targets.last();
        lemma_find_all_lists_every_matched_target(rest, gdi, internal_supported);
        lemma_hmonitor_named_from(gdi, last.gdi_name@, 0);
        lemma_trim_shape(last.name@);
        let before = monitors_of(rest, gdi, internal_supported);
        let listed_before = listed_targets(rest, gdi);
        assert(listed_targets(targets, gdi) == if has_gdi_source(gdi, last) && last.path@.len() > 0 {
            listed_before.push(last)
        } else {
            listed_before
        });
        match monitor_of(last, gdi, internal_supported) {
            Some(m) => {
                let j = choose|j: int|
                    0 <= j < gdi.len() && (#[trigger] gdi[j]).gdi_name@ == last.gdi_name@
                        && gdi[j].hmonitor == m.hmonitor && forall|earlier: int|
                        0 <= earlier < j ==> (#[trigger] gdi[earlier]).gdi_name@ != last.gdi_name@;
                assert(has_gdi_source(gdi, last));
                assert(lists_target(m, last, gdi, internal_supported));
                assert forall|k: int| 0 <= k < listed_targets(targets, gdi).len() implies lists_target(
                    #[trigger] monitors_of(targets, gdi, internal_supported)[k],
                    listed_targets(targets, gdi)[k],
                    gdi,
                    internal_supported,
                ) by {
                    if k < listed_before.len() {
                        assert(monitors_of(targets, gdi, internal_supported)[k] == before[k]);
                        assert(listed_targets(targets, gdi)[k] == listed_before[k]);
                    }
                }
            },
            None => {
                if hmonitor_named(gdi, last.gdi_name@) is None {
                    if has_gdi_source(gdi, last) {
                        let j = choose|j: int|
                            0 <= j < gdi.len() && (#[trigger] gdi[j]).gdi_name@ == last.gdi_name@;
                        assert(gdi[j].gdi_name@ != last.gdi_name@);
                    }
                }
            },
        }
    }
}

/// Opening the internal display hands out a device exactly when the handle
/// is valid (neither -1 nor null) and the driver lists at least one level;
/// a failure asks to close the handle exactly when the handle is valid, and
/// an invalid handle fails with the error of the open.
pub proof fn lemma_internal_open(handle: isize, last_error: u32, levels: Result<Seq<u8>, Error>)
    ensures
        internal_open(handle, last_error, levels) is Ok <==> (handle != -1 && handle != 0
            && levels is Ok && levels->Ok_0.len() > 0),
        internal_open(handle, last_error, levels) matches Ok(h) ==> h == handle,
        internal_open(handle, last_error, levels) matches Err(f) ==> (f.close == Some(handle) <==> (
        handle != -1 && handle != 0)) && (f.close is None <==> (handle == -1 || handle == 0)),
        (handle == -1 || handle == 0) ==> internal_open(handle, last_error, levels) == Err::<
            isize,
            OpenFailure,
        >(OpenFailure { error: Error::Windows(spec_hresult_from_win32(last_error)), close: None }),
        (handle != -1 && handle != 0 && levels is Err) ==> internal_open(handle, last_error, levels)->Err_0.error
            == levels->Err_0,
        (handle != -1 && handle != 0 && levels is Ok && levels->Ok_0.len() == 0) ==> internal_open(
            handle,
            last_error,
            levels,
        )->Err_0.error == Error::NoBrightnessLevels,
{
}

/// An internal display is named after the model its EDID block reports, and
/// `Internal Display` when the block reports none.
pub proof fn lemma_internal_display_name(edid: Seq<u8>)
    ensures
        edid_model(edid) is Some ==> internal_display_name(edid) == edid_model(edid)->0,
        edid_model(edid) is None ==> internal_display_name(edid) == "Internal Display"@,
{
}

} // verus!
