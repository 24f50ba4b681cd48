//! Whether a controller may drive the virtual one, which profile is active,
//! and which tag lies on a controller.

use vstd::prelude::*;

use crate::config::{AppConfig, ValidationConfig};
use crate::hid_parser;
use crate::hid_parser::NfcTagData;
use crate::slots::{SharedModel, SharedState};
use crate::state::{ControllerModel, ControllerState, IpcEvent, IpcEventModel, CONTROLLER_SLOTS};
use crate::text;

verus! {

// ---------------------------------------------------------------------------
// Checks on a controller
// ---------------------------------------------------------------------------

/// The settings of the checks.
#[derive(Clone, Copy, Debug, PartialEq, Eq, Structural)]
pub struct ValidationFlags {
    pub real_device_validation: bool,
    pub validation: ValidationConfig,
}

/// The settings of the checks.
pub fn get_validation_flags(config: &AppConfig) -> (r: ValidationFlags)
    ensures
        r == (ValidationFlags {
            real_device_validation: config.real_device_validation,
            validation: config.validation,
        }),
{
    ValidationFlags {
        real_device_validation: config.real_device_validation,
        validation: config.validation,
    }
}

/// Changes the settings of the checks.
pub fn set_validation_flags(config: &mut AppConfig, flags: ValidationFlags) -> (r: ValidationFlags)
    ensures
        r == flags,
        *final(config) == (AppConfig {
            real_device_validation: flags.real_device_validation,
            validation: flags.validation,
            ..*old(config)
        }),
{
    config.real_device_validation = flags.real_device_validation;
    config.validation = flags.validation;
    flags
}

/// Whether controllers are checked.
pub open spec fn checks_apply(flags: ValidationFlags) -> bool {
    (flags.real_device_validation || flags.validation.enable_real_device_checks)
        && !flags.validation.mock_mode
}

/// Whether the sticks of a controller are calibrated.
pub open spec fn is_calibrated(c: ControllerModel) -> bool {
    match c.stick_calibration {
        Some(cal) => cal.valid,
        None => false,
    }
}

/// What a controller in a slot that exists fails on, if anything. The checks
/// are made in this order.
pub open spec fn check_fault(
    c: ControllerModel,
    flags: ValidationFlags,
    vigem_connected: bool,
    hidhide_hidden: bool,
) -> Option<Seq<char>> {
    let v = flags.validation;
    if !checks_apply(flags) {
        None
    } else if !c.connected {
        Some("Controller not connected"@)
    } else if v.strict_calibration_requirements && !is_calibrated(c) {
        Some("Controller stick calibration is invalid or missing"@)
    } else if v.require_vigembus && !vigem_connected {
        Some("ViGEmBus driver is not connected"@)
    } else if v.require_hidhide && !hidhide_hidden {
        Some("Physical controller is not hidden by HidHide"@)
    } else {
        None
    }
}

fn find_fault(
    state: &ControllerState,
    flags: &ValidationFlags,
    vigem_connected: bool,
    hidhide_hidden: bool,
) -> (r: Option<String>)
    ensures
        r.deep_view() == check_fault(
            state.deep_view(),
            *flags,
            vigem_connected,
            hidhide_hidden,
        ),
{
    let v = &flags.validation;
    let enabled = flags.real_device_validation || v.enable_real_device_checks;
    if !enabled || v.mock_mode {
        return None;
    }
    if !state.connected {
        return Some("Controller not connected".to_string());
    }
    if v.strict_calibration_requirements {
        let calibrated = match &state.stick_calibration {
            Some(cal) => cal.valid,
            None => false,
        };
        if !calibrated {
            return Some("Controller stick calibration is invalid or missing".to_string());
        }
    }
    if v.require_vigembus && !vigem_connected {
        return Some("ViGEmBus driver is not connected".to_string());
    }
    if v.require_hidhide && !hidhide_hidden {
        return Some("Physical controller is not hidden by HidHide".to_string());
    }
    None
}

/// Checks the controller of a slot, and marks it by the result.
pub fn validate_controller_state(
    idx: usize,
    state: &mut ControllerState,
    config: &AppConfig,
    vigem_connected: bool,
    hidhide_hidden: bool,
) -> (r: Result<bool, String>)
    ensures
        ({
            let flags = ValidationFlags {
                real_device_validation: config.real_device_validation,
                validation: config.validation,
            };
            let fault = check_fault(
                old(state).deep_view(),
                flags,
                vigem_connected,
                hidhide_hidden,
            );
            if idx >= CONTROLLER_SLOTS {
                (r matches Err(e) && e@ == "Invalid controller slot"@) && *final(state) == *old(
                    state,
                )
            } else {
                &&& *final(state) == (ControllerState { validated: fault is None, ..*old(state) })
                &&& match r {
                    Ok(passed) => passed && fault is None,
                    Err(e) => fault == Some(e@),
                }
            }
        }),
{
    if idx >= CONTROLLER_SLOTS {
        return Err("Invalid controller slot".to_string());
    }
    let flags = get_validation_flags(config);
    match find_fault(state, &flags, vigem_connected, hidhide_hidden) {
        Some(e) => {
            state.validated = false;
            Err(e)
        },
        None => {
            state.validated = true;
            Ok(true)
        },
    }
}

/// Checks the selected controller, and marks it by the result. Where the
/// selection lies beyond the slots, nothing is checked.
pub fn validate_current_controller(
    shared: &mut SharedState,
    config: &AppConfig,
    vigem_connected: bool,
    hidhide_hidden: bool,
) -> (r: Result<bool, String>)
    requires
        old(shared)@.wf(),
    ensures
        ({
            let flags = ValidationFlags {
                real_device_validation: config.real_device_validation,
                validation: config.validation,
            };
            let before = old(shared)@;
            let c = before.slots[before.selected()];
            let fault = check_fault(c, flags, vigem_connected, hidhide_hidden);
            if before.selected_slot >= CONTROLLER_SLOTS {
                (r matches Err(e) && e@ == "Invalid controller slot"@) && final(shared)@ == before
            } else {
                &&& final(shared)@ == (SharedModel {
                    slots: before.slots.update(
                        before.selected(),
                        ControllerModel { validated: fault is None, ..c },
                    ),
                    ..before
                })
                &&& match r {
                    Ok(passed) => passed && fault is None,
                    Err(e) => fault == Some(e@),
                }
            }
        }),
{
    let slot: u8 = shared.selection();
    if slot as usize >= CONTROLLER_SLOTS {
        return Err("Invalid controller slot".to_string());
    }
    let mut state = shared.get_controller(slot);
    let r = validate_controller_state(
        slot as usize,
        &mut state,
        config,
        vigem_connected,
        hidhide_hidden,
    );
    shared.set_controller(slot, state);
    r
}

/// Whether the reports of a controller are passed on.
pub fn controller_output_is_allowed(config: &AppConfig, state: &ControllerState) -> (r: bool)
    ensures
        r == (!config.real_device_validation || config.validation.mock_mode || state.validated),
{
    !config.real_device_validation || config.validation.mock_mode || state.validated
}

// ---------------------------------------------------------------------------
// Profiles
// ---------------------------------------------------------------------------

/// Which profile is active, and which was applied last.
#[derive(Debug)]
pub struct ActiveProfile {
    pub active_profile_id: Option<String>,
    pub last_applied: Option<String>,
}

/// What an `ActiveProfile` holds.
#[verifier::ext_equal]
pub struct ActiveProfileModel {
    pub active_profile_id: Option<Seq<char>>,
    pub last_applied: Option<Seq<char>>,
}

impl DeepView for ActiveProfile {
    type V = ActiveProfileModel;

    open spec fn deep_view(&self) -> ActiveProfileModel {
        ActiveProfileModel {
            active_profile_id: self.active_profile_id.deep_view(),
            last_applied: self.last_applied.deep_view(),
        }
    }
}

/// The profiles after one was found to match the foreground program.
pub open spec fn after_match(p: ActiveProfileModel, id: Seq<char>) -> ActiveProfileModel {
    if p.active_profile_id == Some(id) {
        p
    } else {
        ActiveProfileModel { active_profile_id: Some(id), last_applied: Some(id) }
    }
}

impl ActiveProfile {
    /// Switches to the profile that was found to match the foreground program,
    /// unless it is active. What the application is told.
    pub fn check_profile_auto_switch(&mut self, id: &str, name: &str) -> (r: Option<IpcEvent>)
        ensures
            final(self).deep_view() == after_match(old(self).deep_view(), id@),
            r.deep_view() == (if old(self).deep_view().active_profile_id == Some(id@) {
                None
            } else {
                Some(
                    IpcEventModel::ProfileChanged {
                        profile_id: Some(id@),
                        profile_name: Some(name@),
                    },
                )
            }),
    {
        match &self.active_profile_id {
            Some(current) => {
                if text::same(current.as_str(), id) {
                    return None;
                }
            },
            None => {},
        }
        self.active_profile_id = Some(id.to_owned());
        self.last_applied = Some(id.to_owned());
        Some(
            IpcEvent::ProfileChanged {
                profile_id: Some(id.to_owned()),
                profile_name: Some(name.to_owned()),
            },
        )
    }
}

// ---------------------------------------------------------------------------
// Tags
// ---------------------------------------------------------------------------

/// What is known of the tag on a controller.
#[derive(Clone, Copy, Debug, PartialEq, Eq)]
pub struct NfcState {
    pub tag_present: bool,
    pub uid: Option<[u8; 7]>,
    pub last_tag: Option<NfcTagData>,
}

/// What is known of the tag after a report.
pub open spec fn tag_state(data: Seq<u8>) -> NfcState {
    match hid_parser::nfc_tag_of(data) {
        Some(tag) => NfcState { tag_present: true, uid: Some(tag.uid), last_tag: Some(tag) },
        None => NfcState { tag_present: false, uid: None, last_tag: None },
    }
}

impl NfcState {
    /// No tag.
    pub fn new() -> (r: Self)
        ensures
            r == (NfcState { tag_present: false, uid: None, last_tag: None }),
    {
        NfcState { tag_present: false, uid: None, last_tag: None }
    }

    /// Takes in a report. What the application is told.
    pub fn handle_nfc_ir_report(&mut self, data: &[u8]) -> (r: Option<IpcEvent>)
        ensures
            *final(self) == tag_state(data@),
            r.deep_view() == match hid_parser::nfc_tag_of(data@) {
                Some(tag) => Some(IpcEventModel::NfcTagScanned { tag }),
                None => None,
            },
    {
        match hid_parser::parse_nfc_tag_data(data) {
            Some(tag) => {
                self.tag_present = true;
                self.uid = Some(tag.uid);
                self.last_tag = Some(tag);
                Some(IpcEvent::NfcTagScanned { tag })
            },
            None => {
                self.tag_present = false;
                self.uid = None;
                self.last_tag = None;
                None
            },
        }
    }
}

// ---------------------------------------------------------------------------
// Laws
// ---------------------------------------------------------------------------

/// A controller that passes the checks may drive the virtual one; while they
/// apply, one that fails may not.
pub proof fn law_only_checked_controllers_drive(
    c: ControllerModel,
    flags: ValidationFlags,
    vigem_connected: bool,
    hidhide_hidden: bool,
)
    ensures
        ({
            let fault = check_fault(c, flags, vigem_connected, hidhide_hidden);
            let validated = fault is None;
            let allowed = !flags.real_device_validation || flags.validation.mock_mode || validated;
            &&& validated ==> allowed
            &&& flags.real_device_validation && !flags.validation.mock_mode && fault is Some
                ==> !allowed
        }),
{
}

/// The more is required, the fewer controllers pass: what passes with a
/// requirement passes without it.
pub proof fn law_requirements_only_restrict(
    c: ControllerModel,
    flags: ValidationFlags,
    vigem_connected: bool,
    hidhide_hidden: bool,
)
    requires
        check_fault(c, flags, vigem_connected, hidhide_hidden) is None,
    ensures
        ({
            let v = flags.validation;
            &&& check_fault(
                c,
                ValidationFlags {
                    validation: ValidationConfig { strict_calibration_requirements: false, ..v },
                    ..flags
                },
                vigem_connected,
                hidhide_hidden,
            ) is None
            &&& check_fault(
                c,
                ValidationFlags {
                    validation: ValidationConfig { require_vigembus: false, ..v },
                    ..flags
                },
                vigem_connected,
                hidhide_hidden,
            ) is None
            &&& check_fault(
                c,
                ValidationFlags {
                    validation: ValidationConfig { require_hidhide: false, ..v },
                    ..flags
                },
                vigem_connected,
                hidhide_hidden,
            ) is None
        }),
{
}

/// A profile that keeps matching is switched to once.
pub proof fn law_profile_is_switched_once(p: ActiveProfileModel, id: Seq<char>)
    ensures
        after_match(p, id).active_profile_id == Some(id),
        after_match(after_match(p, id), id) == after_match(p, id),
{
}

/// A report without a tag clears the tag.
pub proof fn law_short_report_clears_the_tag(data: Seq<u8>)
    requires
        data.len() < 58,
    ensures
        !tag_state(data).tag_present,
        tag_state(data).uid is None,
        tag_state(data).last_tag is None,
{
}

/// A controller passes unless it is checked and lacks something: a connection,
/// a valid calibration where that is required, the driver of the virtual
/// controller, or being hidden. It is checked where either setting says so and
/// it is no mock.
pub proof fn law_what_passes(
    c: ControllerModel,
    flags: ValidationFlags,
    vigem_connected: bool,
    hidhide_hidden: bool,
)
    ensures
        ({
            let v = flags.validation;
            let checked = (flags.real_device_validation || v.enable_real_device_checks)
                && !v.mock_mode;
            let calibrated = c.stick_calibration is Some && c.stick_calibration->0.valid;
            let fault = check_fault(c, flags, vigem_connected, hidhide_hidden);
            let here = c.connected;
            let ready = here && (calibrated || !v.strict_calibration_requirements);
            let driven = ready && (vigem_connected || !v.require_vigembus);
            &&& (fault is None) == (!checked || driven && (hidhide_hidden || !v.require_hidhide))
            &&& checked && !here ==> fault == Some("Controller not connected"@)
            &&& checked && here && !ready ==> fault == Some(
                "Controller stick calibration is invalid or missing"@,
            )
            &&& checked && ready && !driven ==> fault == Some("ViGEmBus driver is not connected"@)
            &&& checked && driven && v.require_hidhide && !hidhide_hidden ==> fault == Some(
                "Physical controller is not hidden by HidHide"@,
            )
        }),
{
}

/// A tag is there exactly while a report says so, with its seven bytes.
pub proof fn law_tag_of_a_report(data: Seq<u8>)
    ensures
        tag_state(data).tag_present == (data.len() >= 58 && data[49] == 1),
        tag_state(data).tag_present ==> tag_state(data).uid is Some && forall|i: int|
            0 <= i < 7 ==> tag_state(data).uid->0@[i] == data[50 + i],
        (tag_state(data).uid is Some) == tag_state(data).tag_present,
        (tag_state(data).last_tag is Some) == tag_state(data).tag_present,
{
    if data.len() >= 58 && data[49] == 1 {
        let u = tag_state(data).uid->0@;
        assert(u[0] == data[50] && u[1] == data[51] && u[2] == data[52] && u[3] == data[53]);
        assert(u[4] == data[54] && u[5] == data[55] && u[6] == data[56]);
    }
}

/// A profile that comes to match becomes the active one and the one that was
/// applied last; one that matches already changes nothing.
pub proof fn law_matching_profile(p: ActiveProfileModel, id: Seq<char>)
    ensures
        p.active_profile_id == Some(id) ==> after_match(p, id) == p,
        p.active_profile_id != Some(id) ==> after_match(p, id).active_profile_id == Some(id)
            && after_match(p, id).last_applied == Some(id),
{
}

} // verus!
