//! Session state and the single-shot background initialization protocol.
//!
//! One background pass probes the hardware-control tool, constructs a
//! backend, parses the detection text, resolves connector addresses and
//! reads the first device's control values, then delivers one
//! `InitResult` through a single-use channel. The interactive side polls
//! that channel while `Loading` and applies the whole result as one
//! atomic batch. The functions here are the decisions of both sides;
//! running commands, threads and channels is the caller's part.

use vstd::prelude::*;
use vstd::string::*;
use crate::display::{Display, DisplayModel, parse_detect_spec};
use crate::gamma::{GammaBackend, map_drm_to_xrandr, resolve_spec};
use crate::gamma::x11::outputs_spec;
use crate::strmap::StrMap;

verus! {

/// The initialization lifecycle. `Pending` precedes any worker;
/// `Loading` covers the whole background pass; `Ready` and `Failed` are
/// terminal.
pub enum InitState {
    Pending,
    Loading,
    Ready,
    Failed(String),
}

/// The consolidated snapshot one background pass delivers, produced and
/// consumed exactly once.
pub struct InitResult {
    pub ddcutil_available: bool,
    pub displays: Vec<Display>,
    pub gamma_backend: Option<GammaBackend>,
    pub gamma_output_map: StrMap,
    pub brightness: u8,
    pub contrast: u8,
    pub error: Option<String>,
}

impl Default for InitResult {
    /// The empty snapshot: nothing available, nothing found, values at
    /// zero, no error.
    fn default() -> (r: InitResult)
        ensures
            r.ddcutil_available == false,
            r.displays@.len() == 0,
            r.gamma_backend is None,
            r.gamma_output_map@ == Map::<Seq<char>, Seq<char>>::empty(),
            r.brightness == 0,
            r.contrast == 0,
            r.error is None,
    {
        InitResult {
            ddcutil_available: false,
            displays: Vec::new(),
            gamma_backend: None,
            gamma_output_map: StrMap::new(),
            brightness: 0,
            contrast: 0,
            error: None,
        }
    }
}

/// What one non-blocking look at the delivery channel found: a delivered
/// result, nothing yet, or a producer gone without ever sending.
pub enum PollEvent {
    Received(InitResult),
    Empty,
    Disconnected,
}

/// The address map one pass builds: the resolver's answer for each
/// device's connector, successes recorded under the device's id, later
/// devices overriding earlier ones on a duplicated id.
pub open spec fn address_map_of(
    devs: Seq<DisplayModel>,
    dir: Map<Seq<char>, Seq<char>>,
) -> Map<Seq<char>, Seq<char>>
    decreases devs.len(),
{
    if devs.len() == 0 {
        Map::<Seq<char>, Seq<char>>::empty()
    } else {
        let prev = address_map_of(devs.drop_last(), dir);
        match resolve_spec(devs.last().drm_connector, dir) {
            Some(out) => prev.insert(devs.last().id, out),
            None => prev,
        }
    }
}

/// Resolves every device against an output directory and collects the
/// successes into the connector address map.
pub fn build_address_map(displays: &Vec<Display>, dir: &StrMap) -> (r: StrMap)
    ensures
        r@ == address_map_of(displays.deep_view(), dir@),
{
    let ghost dv = displays.deep_view();
    let mut m = StrMap::new();
    let mut i: usize = 0;
    proof {
        assert(dv.take(0) =~= Seq::<DisplayModel>::empty());
    }
    while i < displays.len()
        invariant
            dv == displays.deep_view(),
            0 <= i <= displays@.len(),
            m@ == address_map_of(dv.take(i as int), dir@),
        decreases displays@.len() - i,
    {
        proof {
            assert(dv.take(i as int + 1).drop_last() =~= dv.take(i as int));
            assert(dv.take(i as int + 1).last() == dv[i as int]);
            assert(dv[i as int] == displays@[i as int]@);
        }
        match map_drm_to_xrandr(displays[i].drm_connector.as_str(), dir) {
            Some(out) => {
                m.insert(displays[i].id.clone(), out);
            },
            None => {},
        }
        i = i + 1;
    }
    proof {
        assert(dv.take(displays@.len() as int) =~= dv);
    }
    m
}

/// The session state the presentation layer consumes: created empty,
/// populated once by the delivered `InitResult`, mutated afterwards only
/// by explicit actions.
pub struct App {
    pub displays: Vec<Display>,
    pub selected_display: usize,
    pub brightness: u8,
    pub contrast: u8,
    pub gamma_dimming: u8,
    pub ddcutil_available: bool,
    pub gamma_backend: Option<GammaBackend>,
    pub gamma_output_map: StrMap,
    pub status: Option<String>,
    pub error: Option<String>,
    pub init_state: InitState,
}

impl App {
    /// The state before anything has run: no devices, mid-range control
    /// values, full software brightness, lifecycle `Pending`.
    pub fn new() -> (r: App)
        ensures
            r.displays@.len() == 0,
            r.selected_display == 0,
            r.brightness == 50,
            r.contrast == 50,
            r.gamma_dimming == 100,
            r.ddcutil_available == false,
            r.gamma_backend is None,
            r.gamma_output_map@ == Map::<Seq<char>, Seq<char>>::empty(),
            r.status is None,
            r.error is None,
            r.init_state is Pending,
    {
        App {
            displays: Vec::new(),
            selected_display: 0,
            brightness: 50,
            contrast: 50,
            gamma_dimming: 100,
            ddcutil_available: false,
            gamma_backend: None,
            gamma_output_map: StrMap::new(),
            status: None,
            error: None,
            init_state: InitState::Pending,
        }
    }

    /// The one transition out of `Pending`: the caller spawns the single
    /// background worker and begins polling. Nothing else changes.
    pub fn start_init(&mut self)
        requires
            old(self).init_state is Pending,
        ensures
            final(self).init_state is Loading,
            final(self).displays == old(self).displays,
            final(self).selected_display == old(self).selected_display,
            final(self).brightness == old(self).brightness,
            final(self).contrast == old(self).contrast,
            final(self).gamma_dimming == old(self).gamma_dimming,
            final(self).ddcutil_available == old(self).ddcutil_available,
            final(self).gamma_backend == old(self).gamma_backend,
            final(self).gamma_output_map == old(self).gamma_output_map,
            final(self).status == old(self).status,
            final(self).error == old(self).error,
    {
        self.init_state = InitState::Loading;
    }

    /// Everything one background pass decides, given the outside world's
    /// answers: whether the hardware-control tool is invocable, the
    /// constructed backend, the captured detection run, and the captured
    /// output enumeration (`None` when no enumeration was run). An
    /// absent tool ends the pass with its error before anything else; an
    /// empty device list is the other fatal error; an absent or failed
    /// backend only leaves the address map empty. Control values stay at
    /// zero until `init_apply_values`.
    pub fn init_blocking(
        ddcutil_exists: bool,
        backend: Option<GammaBackend>,
        detect_capture: &Result<String, String>,
        query_capture: Option<&Result<String, String>>,
    ) -> (r: InitResult)
        ensures
            r.brightness == 0,
            r.contrast == 0,
            r.ddcutil_available == ddcutil_exists,
            !ddcutil_exists ==> {
                &&& r.error is Some
                &&& r.error->0@
                    == "ddcutil not found. Install with: sudo apt install ddcutil"@
                &&& r.displays@.len() == 0
                &&& r.gamma_backend is None
                &&& r.gamma_output_map@ == Map::<Seq<char>, Seq<char>>::empty()
            },
            ddcutil_exists ==> {
                let devs = match detect_capture {
                    Ok(o) => parse_detect_spec(o@),
                    Err(_) => Seq::<DisplayModel>::empty(),
                };
                &&& r.displays.deep_view() == devs
                &&& r.gamma_backend == backend
                &&& r.gamma_output_map@ == match (backend, query_capture) {
                    (Some(GammaBackend::X11(_)), Some(Ok(q))) =>
                        address_map_of(devs, outputs_spec(q@)),
                    _ => Map::<Seq<char>, Seq<char>>::empty(),
                }
                &&& devs.len() == 0 ==> (r.error is Some && r.error->0@
                    == "No displays found. Try running: sudo ddcutil detect"@)
                &&& devs.len() > 0 ==> r.error is None
            },
    {
        let mut result = InitResult::default();

        if !ddcutil_exists {
            result.error = Some(
                String::from_str("ddcutil not found. Install with: sudo apt install ddcutil"),
            );
            return result;
        }

        result.ddcutil_available = true;
        result.displays = crate::display::enumerate_displays(detect_capture);

        match (&backend, query_capture) {
            (Some(b), Some(qc)) => match b.enumerate_outputs(qc) {
                Ok(dir) => {
                    result.gamma_output_map = build_address_map(&result.displays, &dir);
                },
                Err(_) => {},
            },
            _ => {},
        }
        result.gamma_backend = backend;

        if result.displays.len() == 0 {
            result.error = Some(
                String::from_str("No displays found. Try running: sudo ddcutil detect"),
            );
        }
        result
    }

    /// Fills the two initial control values into a pass's result: a
    /// failed read leaves the value at its default. Nothing else
    /// changes.
    pub fn init_apply_values(
        result: InitResult,
        brightness_read: Option<u8>,
        contrast_read: Option<u8>,
    ) -> (r: InitResult)
        ensures
            r.brightness == match brightness_read {
                Some(v) => v,
                None => result.brightness,
            },
            r.contrast == match contrast_read {
                Some(v) => v,
                None => result.contrast,
            },
            r.ddcutil_available == result.ddcutil_available,
            r.displays == result.displays,
            r.gamma_backend == result.gamma_backend,
            r.gamma_output_map == result.gamma_output_map,
            r.error == result.error,
    {
        let mut result = result;
        if let Some(v) = brightness_read {
            result.brightness = v;
        }
        if let Some(v) = contrast_read {
            result.contrast = v;
        }
        result
    }

    /// Applies one non-blocking poll of the delivery channel while
    /// `Loading`: a delivered result lands as one atomic batch and ends
    /// the lifecycle `Failed` with the result's error or `Ready` with a
    /// ready status; an empty channel changes nothing; a lost producer
    /// ends it `Failed` with the crash message.
    pub fn apply_poll(&mut self, event: PollEvent)
        requires
            old(self).init_state is Loading,
        ensures
            match event {
                PollEvent::Received(res) => {
                    &&& final(self).ddcutil_available == res.ddcutil_available
                    &&& final(self).displays == res.displays
                    &&& final(self).gamma_backend == res.gamma_backend
                    &&& final(self).gamma_output_map == res.gamma_output_map
                    &&& final(self).brightness == res.brightness
                    &&& final(self).contrast == res.contrast
                    &&& match res.error {
                        Some(e) => final(self).init_state matches InitState::Failed(m)
                            && m@ == e@ && final(self).status == old(self).status,
                        None => final(self).init_state is Ready
                            && final(self).status is Some
                            && final(self).status->0@ == "Ready"@,
                    }
                    &&& final(self).selected_display == old(self).selected_display
                    &&& final(self).gamma_dimming == old(self).gamma_dimming
                    &&& final(self).error == old(self).error
                },
                PollEvent::Empty => *final(self) == *old(self),
                PollEvent::Disconnected => {
                    &&& final(self).init_state matches InitState::Failed(m)
                        && m@ == "Initialization thread crashed"@
                    &&& final(self).displays == old(self).displays
                    &&& final(self).selected_display == old(self).selected_display
                    &&& final(self).brightness == old(self).brightness
                    &&& final(self).contrast == old(self).contrast
                    &&& final(self).gamma_dimming == old(self).gamma_dimming
                    &&& final(self).ddcutil_available == old(self).ddcutil_available
                    &&& final(self).gamma_backend == old(self).gamma_backend
                    &&& final(self).gamma_output_map == old(self).gamma_output_map
                    &&& final(self).status == old(self).status
                    &&& final(self).error == old(self).error
                },
            },
    {
        match event {
            PollEvent::Received(res) => {
                self.ddcutil_available = res.ddcutil_available;
                self.displays = res.displays;
                self.gamma_backend = res.gamma_backend;
                self.gamma_output_map = res.gamma_output_map;
                self.brightness = res.brightness;
                self.contrast = res.contrast;
                match res.error {
                    Some(e) => {
                        self.init_state = InitState::Failed(e);
                    },
                    None => {
                        self.init_state = InitState::Ready;
                        self.status = Some(String::from_str("Ready"));
                    },
                }
            },
            PollEvent::Empty => {},
            PollEvent::Disconnected => {
                self.init_state = InitState::Failed(
                    String::from_str("Initialization thread crashed"),
                );
            },
        }
    }

    /// The hardware-control address of the selected device.
    pub fn display_id(&self) -> (r: &str)
        requires
            self.selected_display < self.displays@.len(),
        ensures
            r@ == self.displays@[self.selected_display as int]@.id,
    {
        self.displays[self.selected_display].id.as_str()
    }

    /// The resolved display-server output of the selected device, if its
    /// connector resolved.
    pub fn gamma_output(&self) -> (r: Option<&str>)
        requires
            self.selected_display < self.displays@.len(),
        ensures
            ({
                let did = self.displays@[self.selected_display as int]@.id;
                match r {
                    Some(s) => self.gamma_output_map@.contains_key(did)
                        && s@ == self.gamma_output_map@[did],
                    None => !self.gamma_output_map@.contains_key(did),
                }
            }),
    {
        match self.gamma_output_map.get(self.display_id()) {
            Some(s) => Some(s.as_str()),
            None => None,
        }
    }

    /// Whether software dimming can act on the selected device: a
    /// backend exists and the device's connector resolved.
    pub fn gamma_available(&self) -> (r: bool)
        requires
            self.selected_display < self.displays@.len(),
        ensures
            r == (self.gamma_backend is Some && self.gamma_output_map@.contains_key(
                self.displays@[self.selected_display as int]@.id,
            )),
    {
        self.gamma_backend.is_some() && self.gamma_output().is_some()
    }

    /// Applies one round of re-read control values for the selected
    /// device: a failed read leaves the prior value, and the status
    /// reports the refresh.
    pub fn refresh_values(&mut self, brightness_read: Option<u8>, contrast_read: Option<u8>)
        ensures
            final(self).brightness == match brightness_read {
                Some(v) => v,
                None => old(self).brightness,
            },
            final(self).contrast == match contrast_read {
                Some(v) => v,
                None => old(self).contrast,
            },
            final(self).status is Some
                && final(self).status->0@ == "Values refreshed from monitor"@,
            final(self).displays == old(self).displays,
            final(self).selected_display == old(self).selected_display,
            final(self).gamma_dimming == old(self).gamma_dimming,
            final(self).ddcutil_available == old(self).ddcutil_available,
            final(self).gamma_backend == old(self).gamma_backend,
            final(self).gamma_output_map == old(self).gamma_output_map,
            final(self).error == old(self).error,
            final(self).init_state == old(self).init_state,
    {
        if let Some(v) = brightness_read {
            self.brightness = v;
        }
        if let Some(v) = contrast_read {
            self.contrast = v;
        }
        self.status = Some(String::from_str("Values refreshed from monitor"));
    }
}

/// A lifecycle value is one state at a time: what ends `Ready` is not
/// also `Failed`.
pub proof fn lemma_lifecycle_states_exclusive(s: InitState)
    ensures
        !(s is Ready && s is Failed),
        !(s is Pending && s is Loading),
{
}

} // verus!
