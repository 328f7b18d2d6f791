//! The interactive menu as a state machine: the pages, the option toggles,
//! the status shown in the header, and which step each key press takes on
//! each page. The terminal front end draws the page, reads a key, and
//! carries out the step this module decides.

use vstd::prelude::*;
use crate::fmt::{decimal_of, push_decimal};
use crate::numparse::{parse_uint_range, parse_uint_spec};
use crate::state::DdcGuardrails;
use crate::text::chars_of;

verus! {

/// Screen width of the menu box.
pub const W: usize = 76;

/// Content width between `║ ` and ` ║`.
pub const INNER: usize = W - 4;

/// Fill width between the corner characters.
pub const BAR: usize = W - 2;

/// The tool's title.
pub const TITLE: &'static str = "LG UltraGear Auto-Dimming Fix";

/// The project's home.
pub const REPO: &'static str = "github.com/supermarsx/lg-ultragear-dimming-fix";

/// The pages of the menu.
#[derive(Debug, Clone, Copy, PartialEq, Eq, Structural)]
pub enum Page {
    Main,
    Maintenance,
    Maintenance2,
    ServiceDiagnostics,
    Advanced,
    IccStudio,
    IccStudioTuning,
    IccTags,
    IccTags2,
}

/// Option toggles kept for the session.
#[derive(Debug, Clone, Copy, PartialEq, Eq, Structural)]
pub struct Options {
    pub toast: bool,
    pub dry_run: bool,
    pub verbose: bool,
    pub hdr: bool,
    pub sdr: bool,
    pub per_user: bool,
    pub generic_default: bool,
    pub ddc_brightness: bool,
    pub ddc_brightness_value: u32,
}

/// What the header shows about the installation.
#[derive(Debug, Clone, Copy, PartialEq, Eq, Structural)]
pub struct Status {
    pub profile_installed: bool,
    pub service_installed: bool,
    pub service_running: bool,
    pub monitor_count: usize,
    pub hdr_enabled: bool,
    pub sdr_enabled: bool,
}

/// One of the option toggles of the Advanced page.
#[derive(Debug, Clone, Copy, PartialEq, Eq, Structural)]
pub enum OptionToggle {
    Toast,
    DryRun,
    Verbose,
    Hdr,
    Sdr,
    PerUser,
    GenericDefault,
    DdcBrightness,
}

/// The options with one toggle flipped and everything else unchanged.
pub open spec fn toggled(o: Options, t: OptionToggle) -> Options {
    match t {
        OptionToggle::Toast => Options { toast: !o.toast, ..o },
        OptionToggle::DryRun => Options { dry_run: !o.dry_run, ..o },
        OptionToggle::Verbose => Options { verbose: !o.verbose, ..o },
        OptionToggle::Hdr => Options { hdr: !o.hdr, ..o },
        OptionToggle::Sdr => Options { sdr: !o.sdr, ..o },
        OptionToggle::PerUser => Options { per_user: !o.per_user, ..o },
        OptionToggle::GenericDefault => Options { generic_default: !o.generic_default, ..o },
        OptionToggle::DdcBrightness => Options { ddc_brightness: !o.ddc_brightness, ..o },
    }
}

impl Options {
    /// The session options for a loaded configuration: toast, verbosity and
    /// DDC brightness come from it; dry run and per-user install start off,
    /// HDR association off and SDR association on.
    pub fn from_config(
        toast_enabled: bool,
        verbose: bool,
        ddc_brightness_on_reapply: bool,
        ddc_brightness_value: u32,
    ) -> (r: Options)
        ensures
            r == (Options {
                toast: toast_enabled,
                dry_run: false,
                verbose,
                hdr: false,
                sdr: true,
                per_user: false,
                generic_default: false,
                ddc_brightness: ddc_brightness_on_reapply,
                ddc_brightness_value,
            }),
    {
        Options {
            toast: toast_enabled,
            dry_run: false,
            verbose,
            hdr: false,
            sdr: true,
            per_user: false,
            generic_default: false,
            ddc_brightness: ddc_brightness_on_reapply,
            ddc_brightness_value,
        }
    }

    /// Flips one toggle.
    pub fn toggle(&mut self, t: OptionToggle)
        ensures
            *final(self) == toggled(*old(self), t),
    {
        match t {
            OptionToggle::Toast => self.toast = !self.toast,
            OptionToggle::DryRun => self.dry_run = !self.dry_run,
            OptionToggle::Verbose => self.verbose = !self.verbose,
            OptionToggle::Hdr => self.hdr = !self.hdr,
            OptionToggle::Sdr => self.sdr = !self.sdr,
            OptionToggle::PerUser => self.per_user = !self.per_user,
            OptionToggle::GenericDefault => self.generic_default = !self.generic_default,
            OptionToggle::DdcBrightness => self.ddc_brightness = !self.ddc_brightness,
        }
    }
}

/// Flipping the same toggle twice gives back the options one started from,
/// and a flip changes no other toggle.
pub proof fn law_toggle_involution(o: Options, t: OptionToggle, u: OptionToggle)
    ensures
        toggled(toggled(o, t), t) == o,
        t != u ==> toggled(toggled(o, t), u) == toggled(toggled(o, u), t),
{
}

impl Status {
    /// The header status from what was found on the machine; the HDR and
    /// SDR lines follow the session options.
    pub fn gather(
        profile_installed: bool,
        service_installed: bool,
        service_running: bool,
        monitor_count: usize,
        opts: &Options,
    ) -> (r: Status)
        ensures
            r == (Status {
                profile_installed,
                service_installed,
                service_running,
                monitor_count,
                hdr_enabled: opts.hdr,
                sdr_enabled: opts.sdr,
            }),
    {
        Status {
            profile_installed,
            service_installed,
            service_running,
            monitor_count,
            hdr_enabled: opts.hdr,
            sdr_enabled: opts.sdr,
        }
    }
}

/// Work the front end carries out for a key press.
#[derive(Debug, Clone, Copy, PartialEq, Eq, Structural)]
pub enum MenuAction {
    DefaultInstall,
    ProfileOnly,
    ServiceOnly,
    RemoveService,
    RemoveProfile,
    FullUninstall,
    Refresh,
    Reinstall,
    Detect,
    RecheckService,
    CheckApplicability,
    TestToast,
    ForceRefreshProfile,
    ForceRefreshColorManagement,
    SetDdcBrightness,
    SafeRecovery,
    OpenStateFolder,
    ClearDiagnostics,
    ServiceStatus,
    DetectConflicts,
    DdcVcpVersion,
    DdcReadColorPreset,
    DdcChooseColorPreset,
    DdcReadDisplayMode,
    DdcChooseDisplayMode,
    DdcResetBrightnessContrast,
    DdcResetColor,
    DdcListMonitors,
    DdcReadBrightness,
    DdcSetBrightness,
    DdcReadCustomVcp,
    DdcWriteCustomVcp,
    DdcSelectMonitor,
    DdcUseConfigTarget,
    DdcConfigureGuardrails,
    ChooseBrightnessValue,
    /// An ICC Studio edit, by the key pressed on that page.
    IccStudio(char),
    IccTuning(char),
    IccTags(char),
    IccTags2(char),
}

/// What a key press does.
#[derive(Debug, Clone, Copy, PartialEq, Eq, Structural)]
pub enum MenuStep {
    /// Nothing: the page is drawn again.
    Stay,
    Goto(Page),
    Quit,
    Toggle(OptionToggle),
    Run(MenuAction),
}

/// Whether `k` is one of the characters of `keys`.
pub open spec fn key_in(k: char, keys: Seq<char>) -> bool {
    keys.contains(k)
}

/// The step a key press takes on each page. Keys arrive lowercased, with
/// Esc and Ctrl+C read as `q`; a key a page does not know does nothing.
pub open spec fn menu_step_spec(page: Page, key: char) -> MenuStep {
    match page {
        Page::Main => match key {
            '1' => MenuStep::Run(MenuAction::DefaultInstall),
            '2' => MenuStep::Run(MenuAction::ProfileOnly),
            '3' => MenuStep::Run(MenuAction::ServiceOnly),
            '4' => MenuStep::Run(MenuAction::RemoveService),
            '5' => MenuStep::Run(MenuAction::RemoveProfile),
            '6' => MenuStep::Run(MenuAction::FullUninstall),
            'm' => MenuStep::Goto(Page::Maintenance),
            'd' => MenuStep::Goto(Page::Maintenance2),
            'a' => MenuStep::Goto(Page::Advanced),
            'i' => MenuStep::Goto(Page::IccStudio),
            'q' => MenuStep::Quit,
            _ => MenuStep::Stay,
        },
        Page::Maintenance => match key {
            '1' => MenuStep::Run(MenuAction::Refresh),
            '2' => MenuStep::Run(MenuAction::Reinstall),
            '3' => MenuStep::Run(MenuAction::Detect),
            '4' => MenuStep::Goto(Page::ServiceDiagnostics),
            '5' => MenuStep::Run(MenuAction::RecheckService),
            '6' => MenuStep::Run(MenuAction::CheckApplicability),
            '7' => MenuStep::Run(MenuAction::TestToast),
            '8' => MenuStep::Run(MenuAction::ForceRefreshProfile),
            '9' => MenuStep::Run(MenuAction::ForceRefreshColorManagement),
            '0' => MenuStep::Run(MenuAction::SetDdcBrightness),
            'a' => MenuStep::Run(MenuAction::SafeRecovery),
            'n' => MenuStep::Goto(Page::Maintenance2),
            'b' => MenuStep::Goto(Page::Main),
            'q' => MenuStep::Quit,
            _ => MenuStep::Stay,
        },
        Page::ServiceDiagnostics => match key {
            '2' => MenuStep::Run(MenuAction::OpenStateFolder),
            '3' => MenuStep::Run(MenuAction::ClearDiagnostics),
            '4' => MenuStep::Run(MenuAction::ServiceStatus),
            '5' => MenuStep::Run(MenuAction::DetectConflicts),
            'b' => MenuStep::Goto(Page::Maintenance),
            'z' => MenuStep::Goto(Page::Main),
            'q' => MenuStep::Quit,
            _ => MenuStep::Stay,
        },
        Page::Maintenance2 => match key {
            '1' => MenuStep::Run(MenuAction::DdcVcpVersion),
            '2' => MenuStep::Run(MenuAction::DdcReadColorPreset),
            '3' => MenuStep::Run(MenuAction::DdcChooseColorPreset),
            '4' => MenuStep::Run(MenuAction::DdcReadDisplayMode),
            '5' => MenuStep::Run(MenuAction::DdcChooseDisplayMode),
            '6' => MenuStep::Run(MenuAction::DdcResetBrightnessContrast),
            '7' => MenuStep::Run(MenuAction::DdcResetColor),
            '8' => MenuStep::Run(MenuAction::DdcListMonitors),
            '9' => MenuStep::Run(MenuAction::DdcSelectMonitor),
            '0' => MenuStep::Run(MenuAction::DdcUseConfigTarget),
            'a' => MenuStep::Run(MenuAction::DdcReadBrightness),
            'b' => MenuStep::Run(MenuAction::DdcSetBrightness),
            'c' => MenuStep::Run(MenuAction::DdcReadCustomVcp),
            'd' => MenuStep::Run(MenuAction::DdcWriteCustomVcp),
            'e' => MenuStep::Run(MenuAction::DdcConfigureGuardrails),
            'p' => MenuStep::Goto(Page::Maintenance),
            'z' => MenuStep::Goto(Page::Main),
            'q' => MenuStep::Quit,
            _ => MenuStep::Stay,
        },
        Page::Advanced => match key {
            '1' => MenuStep::Toggle(OptionToggle::Toast),
            '2' => MenuStep::Toggle(OptionToggle::DryRun),
            '3' => MenuStep::Toggle(OptionToggle::Verbose),
            '4' => MenuStep::Toggle(OptionToggle::Hdr),
            '5' => MenuStep::Toggle(OptionToggle::Sdr),
            '6' => MenuStep::Toggle(OptionToggle::PerUser),
            '7' => MenuStep::Toggle(OptionToggle::GenericDefault),
            '8' => MenuStep::Toggle(OptionToggle::DdcBrightness),
            '9' => MenuStep::Run(MenuAction::ChooseBrightnessValue),
            'b' => MenuStep::Goto(Page::Main),
            'q' => MenuStep::Quit,
            _ => MenuStep::Stay,
        },
        Page::IccStudio => if key_in(key, seq!['1', '2', '3', '4', '5', '6', '7', 'a', 'b', 'c', 'd', 'e', 'r', 's']) {
            MenuStep::Run(MenuAction::IccStudio(key))
        } else {
            match key {
                '8' => MenuStep::Goto(Page::IccStudioTuning),
                '9' => MenuStep::Goto(Page::IccTags),
                'z' => MenuStep::Goto(Page::Main),
                'q' => MenuStep::Quit,
                _ => MenuStep::Stay,
            }
        },
        Page::IccStudioTuning => if key_in(key, seq!['1', '2', '3', '4', '5', '6', '7', '8', '9', 'r', 's']) {
            MenuStep::Run(MenuAction::IccTuning(key))
        } else {
            match key {
                'a' => MenuStep::Goto(Page::IccStudio),
                'z' => MenuStep::Goto(Page::Main),
                'q' => MenuStep::Quit,
                _ => MenuStep::Stay,
            }
        },
        Page::IccTags => if key_in(key, seq!['1', '2', '3', '4', '5', '6', '7', '8', '9', '0', 'a', 's']) {
            MenuStep::Run(MenuAction::IccTags(key))
        } else {
            match key {
                'n' => MenuStep::Goto(Page::IccTags2),
                'p' => MenuStep::Goto(Page::IccStudio),
                'z' => MenuStep::Goto(Page::Main),
                'q' => MenuStep::Quit,
                _ => MenuStep::Stay,
            }
        },
        Page::IccTags2 => if key_in(
            key,
            seq!['1', '2', '3', '4', '5', '6', '7', '8', '9', '0', 'a', 'b', 'c', 'd', 's'],
        ) {
            MenuStep::Run(MenuAction::IccTags2(key))
        } else {
            match key {
                'p' => MenuStep::Goto(Page::IccTags),
                'z' => MenuStep::Goto(Page::Main),
                'q' => MenuStep::Quit,
                _ => MenuStep::Stay,
            }
        },
    }
}

fn key_listed(key: char, keys: &[char]) -> (r: bool)
    ensures
        r == keys@.contains(key),
{
    let mut i: usize = 0;
    while i < keys.len()
        invariant
            i <= keys.len(),
            forall|j: int| 0 <= j < i ==> keys@[j] != key,
        decreases keys.len() - i,
    {
        if keys[i] == key {
            assert(keys@[i as int] == key);
            return true;
        }
        i = i + 1;
    }
    false
}

/// The step a key press takes on `page`.
pub fn menu_step(page: Page, key: char) -> (r: MenuStep)
    ensures
        r == menu_step_spec(page, key),
{
    match page {
        Page::Main => match key {
            '1' => MenuStep::Run(MenuAction::DefaultInstall),
            '2' => MenuStep::Run(MenuAction::ProfileOnly),
            '3' => MenuStep::Run(MenuAction::ServiceOnly),
            '4' => MenuStep::Run(MenuAction::RemoveService),
            '5' => MenuStep::Run(MenuAction::RemoveProfile),
            '6' => MenuStep::Run(MenuAction::FullUninstall),
            'm' => MenuStep::Goto(Page::Maintenance),
            'd' => MenuStep::Goto(Page::Maintenance2),
            'a' => MenuStep::Goto(Page::Advanced),
            'i' => MenuStep::Goto(Page::IccStudio),
            'q' => MenuStep::Quit,
            _ => MenuStep::Stay,
        },
        Page::Maintenance => match key {
            '1' => MenuStep::Run(MenuAction::Refresh),
            '2' => MenuStep::Run(MenuAction::Reinstall),
            '3' => MenuStep::Run(MenuAction::Detect),
            '4' => MenuStep::Goto(Page::ServiceDiagnostics),
            '5' => MenuStep::Run(MenuAction::RecheckService),
            '6' => MenuStep::Run(MenuAction::CheckApplicability),
            '7' => MenuStep::Run(MenuAction::TestToast),
            '8' => MenuStep::Run(MenuAction::ForceRefreshProfile),
            '9' => MenuStep::Run(MenuAction::ForceRefreshColorManagement),
            '0' => MenuStep::Run(MenuAction::SetDdcBrightness),
            'a' => MenuStep::Run(MenuAction::SafeRecovery),
            'n' => MenuStep::Goto(Page::Maintenance2),
            'b' => MenuStep::Goto(Page::Main),
            'q' => MenuStep::Quit,
            _ => MenuStep::Stay,
        },
        Page::ServiceDiagnostics => match key {
            '2' => MenuStep::Run(MenuAction::OpenStateFolder),
            '3' => MenuStep::Run(MenuAction::ClearDiagnostics),
            '4' => MenuStep::Run(MenuAction::ServiceStatus),
            '5' => MenuStep::Run(MenuAction::DetectConflicts),
            'b' => MenuStep::Goto(Page::Maintenance),
            'z' => MenuStep::Goto(Page::Main),
            'q' => MenuStep::Quit,
            _ => MenuStep::Stay,
        },
        Page::Maintenance2 => match key {
            '1' => MenuStep::Run(MenuAction::DdcVcpVersion),
            '2' => MenuStep::Run(MenuAction::DdcReadColorPreset),
            '3' => MenuStep::Run(MenuAction::DdcChooseColorPreset),
            '4' => MenuStep::Run(MenuAction::DdcReadDisplayMode),
            '5' => MenuStep::Run(MenuAction::DdcChooseDisplayMode),
            '6' => MenuStep::Run(MenuAction::DdcResetBrightnessContrast),
            '7' => MenuStep::Run(MenuAction::DdcResetColor),
            '8' => MenuStep::Run(MenuAction::DdcListMonitors),
            '9' => MenuStep::Run(MenuAction::DdcSelectMonitor),
            '0' => MenuStep::Run(MenuAction::DdcUseConfigTarget),
            'a' => MenuStep::Run(MenuAction::DdcReadBrightness),
            'b' => MenuStep::Run(MenuAction::DdcSetBrightness),
            'c' => MenuStep::Run(MenuAction::DdcReadCustomVcp),
            'd' => MenuStep::Run(MenuAction::DdcWriteCustomVcp),
            'e' => MenuStep::Run(MenuAction::DdcConfigureGuardrails),
            'p' => MenuStep::Goto(Page::Maintenance),
            'z' => MenuStep::Goto(Page::Main),
            'q' => MenuStep::Quit,
            _ => MenuStep::Stay,
        },
        Page::Advanced => match key {
            '1' => MenuStep::Toggle(OptionToggle::Toast),
            '2' => MenuStep::Toggle(OptionToggle::DryRun),
            '3' => MenuStep::Toggle(OptionToggle::Verbose),
            '4' => MenuStep::Toggle(OptionToggle::Hdr),
            '5' => MenuStep::Toggle(OptionToggle::Sdr),
            '6' => MenuStep::Toggle(OptionToggle::PerUser),
            '7' => MenuStep::Toggle(OptionToggle::GenericDefault),
            '8' => MenuStep::Toggle(OptionToggle::DdcBrightness),
            '9' => MenuStep::Run(MenuAction::ChooseBrightnessValue),
            'b' => MenuStep::Goto(Page::Main),
            'q' => MenuStep::Quit,
            _ => MenuStep::Stay,
        },
        Page::IccStudio => {
            let keys = ['1', '2', '3', '4', '5', '6', '7', 'a', 'b', 'c', 'd', 'e', 'r', 's'];
            assert(keys@ == seq!['1', '2', '3', '4', '5', '6', '7', 'a', 'b', 'c', 'd', 'e', 'r', 's']);
            if key_listed(key, &keys) {
                MenuStep::Run(MenuAction::IccStudio(key))
            } else {
                match key {
                    '8' => MenuStep::Goto(Page::IccStudioTuning),
                    '9' => MenuStep::Goto(Page::IccTags),
                    'z' => MenuStep::Goto(Page::Main),
                    'q' => MenuStep::Quit,
                    _ => MenuStep::Stay,
                }
            }
        },
        Page::IccStudioTuning => {
            let keys = ['1', '2', '3', '4', '5', '6', '7', '8', '9', 'r', 's'];
            assert(keys@ == seq!['1', '2', '3', '4', '5', '6', '7', '8', '9', 'r', 's']);
            if key_listed(key, &keys) {
                MenuStep::Run(MenuAction::IccTuning(key))
            } else {
                match key {
                    'a' => MenuStep::Goto(Page::IccStudio),
                    'z' => MenuStep::Goto(Page::Main),
                    'q' => MenuStep::Quit,
                    _ => MenuStep::Stay,
                }
            }
        },
        Page::IccTags => {
            let keys = ['1', '2', '3', '4', '5', '6', '7', '8', '9', '0', 'a', 's'];
            assert(keys@ == seq!['1', '2', '3', '4', '5', '6', '7', '8', '9', '0', 'a', 's']);
            if key_listed(key, &keys) {
                MenuStep::Run(MenuAction::IccTags(key))
            } else {
                match key {
                    'n' => MenuStep::Goto(Page::IccTags2),
                    'p' => MenuStep::Goto(Page::IccStudio),
                    'z' => MenuStep::Goto(Page::Main),
                    'q' => MenuStep::Quit,
                    _ => MenuStep::Stay,
                }
            }
        },
        Page::IccTags2 => {
            let keys = ['1', '2', '3', '4', '5', '6', '7', '8', '9', '0', 'a', 'b', 'c', 'd', 's'];
            assert(keys@ == seq!['1', '2', '3', '4', '5', '6', '7', '8', '9', '0', 'a', 'b', 'c', 'd', 's']);
            if key_listed(key, &keys) {
                MenuStep::Run(MenuAction::IccTags2(key))
            } else {
                match key {
                    'p' => MenuStep::Goto(Page::IccTags),
                    'z' => MenuStep::Goto(Page::Main),
                    'q' => MenuStep::Quit,
                    _ => MenuStep::Stay,
                }
            }
        },
    }
}

/// The key that leads from a page straight back to the main menu.
pub open spec fn home_key(page: Page) -> char {
    match page {
        Page::Maintenance => 'b',
        Page::Advanced => 'b',
        _ => 'z',
    }
}

/// `q` (also Esc and Ctrl+C) leaves the menu from every page, and every page
/// other than the main menu leads back to it with a single key.
pub proof fn law_menu_exits(page: Page)
    ensures
        menu_step_spec(page, 'q') == MenuStep::Quit,
        page != Page::Main ==> menu_step_spec(page, home_key(page)) == MenuStep::Goto(Page::Main),
{
    assert(!seq!['1', '2', '3', '4', '5', '6', '7', 'a', 'b', 'c', 'd', 'e', 'r', 's'].contains('q'));
    assert(!seq!['1', '2', '3', '4', '5', '6', '7', '8', '9', 'r', 's'].contains('q'));
    assert(!seq!['1', '2', '3', '4', '5', '6', '7', '8', '9', '0', 'a', 's'].contains('q'));
    assert(!seq!['1', '2', '3', '4', '5', '6', '7', '8', '9', '0', 'a', 'b', 'c', 'd', 's'].contains('q'));
    assert(!seq!['1', '2', '3', '4', '5', '6', '7', 'a', 'b', 'c', 'd', 'e', 'r', 's'].contains('z'));
    assert(!seq!['1', '2', '3', '4', '5', '6', '7', '8', '9', 'r', 's'].contains('z'));
    assert(!seq!['1', '2', '3', '4', '5', '6', '7', '8', '9', '0', 'a', 's'].contains('z'));
    assert(!seq!['1', '2', '3', '4', '5', '6', '7', '8', '9', '0', 'a', 'b', 'c', 'd', 's'].contains('z'));
}

/// The options after a step: only a `Toggle` changes them.
pub open spec fn next_options(o: Options, step: MenuStep) -> Options {
    match step {
        MenuStep::Toggle(t) => toggled(o, t),
        _ => o,
    }
}

/// Options change only on the Advanced page, and there only through the
/// toggles: on every other page any key leaves the options as they were.
pub proof fn law_options_change_only_on_advanced(page: Page, key: char, o: Options)
    ensures
        page != Page::Advanced ==> next_options(o, menu_step_spec(page, key)) == o,
{
}

/// What a key press does in a pick-one submenu.
#[derive(Debug, Clone, Copy, PartialEq, Eq, Structural)]
pub enum SubmenuKey {
    /// `q` (or Esc) leaves the submenu without a choice.
    Cancel,
    /// The entry at this position was chosen.
    Pick(usize),
    /// A key no entry has: the submenu waits for another.
    Ignore,
}

/// The position of the first entry with key `ch` among the first `n` keys.
pub open spec fn first_key_index(keys: Seq<char>, ch: char, n: nat) -> Option<int>
    decreases n,
{
    if n == 0 {
        None
    } else {
        match first_key_index(keys, ch, (n - 1) as nat) {
            Some(i) => Some(i),
            None => if keys[n - 1] == ch {
                Some(n - 1)
            } else {
                None
            },
        }
    }
}

/// What key `ch` does in a submenu whose entries have keys `keys`.
pub open spec fn submenu_choice_spec(keys: Seq<char>, ch: char) -> SubmenuKey {
    if ch == 'q' {
        SubmenuKey::Cancel
    } else {
        match first_key_index(keys, ch, keys.len()) {
            Some(i) => SubmenuKey::Pick(i as usize),
            None => SubmenuKey::Ignore,
        }
    }
}

proof fn lemma_first_key_stable(keys: Seq<char>, ch: char, k: nat, n: nat)
    requires
        k <= n,
        first_key_index(keys, ch, k) is Some,
    ensures
        first_key_index(keys, ch, n) == first_key_index(keys, ch, k),
    decreases n - k,
{
    if k < n {
        lemma_first_key_stable(keys, ch, k, (n - 1) as nat);
    }
}

/// The answer of a submenu to a key press.
pub fn submenu_choice(keys: &Vec<char>, ch: char) -> (r: SubmenuKey)
    ensures
        r == submenu_choice_spec(keys@, ch),
{
    if ch == 'q' {
        return SubmenuKey::Cancel;
    }
    let mut i: usize = 0;
    while i < keys.len()
        invariant
            i <= keys.len(),
            ch != 'q',
            first_key_index(keys@, ch, i as nat) is None,
        decreases keys.len() - i,
    {
        if keys[i] == ch {
            proof {
                assert(first_key_index(keys@, ch, (i + 1) as nat) == Some(i as int));
                lemma_first_key_stable(keys@, ch, (i + 1) as nat, keys@.len());
            }
            return SubmenuKey::Pick(i);
        }
        i = i + 1;
    }
    SubmenuKey::Ignore
}

/// One entry of a pick-one submenu.
#[derive(Debug, Clone)]
pub struct MenuChoice {
    pub key: char,
    pub label: String,
    /// The entry is the current setting.
    pub current: bool,
}

/// A choice taken by its key, label and mark.
pub open spec fn choice_view(c: MenuChoice) -> (char, Seq<char>, bool) {
    (c.key, c.label@, c.current)
}

/// The choices, each by its view.
pub open spec fn choices_view(cs: Seq<MenuChoice>) -> Seq<(char, Seq<char>, bool)> {
    cs.map_values(|c: MenuChoice| choice_view(c))
}

/// The keys of the submenus that list up to 25 entries.
pub open spec fn long_keys() -> Seq<char> {
    seq![
        '1', '2', '3', '4', '5', '6', '7', '8', '9', 'a', 'b', 'c', 'd', 'e', 'f', 'g', 'h', 'i', 'j', 'k', 'l',
        'm', 'n', 'o', 'p',
    ]
}

/// The keys of the brightness submenu.
pub open spec fn brightness_keys() -> Seq<char> {
    seq!['1', '2', '3', '4', '5', '6', '7', '8', '9', '0']
}

/// The brightness submenu: 10 % to 100 % in steps of ten, the current
/// value marked.
pub open spec fn brightness_choices_spec(current: u32) -> Seq<(char, Seq<char>, bool)> {
    Seq::new(
        10,
        |i: int| (brightness_keys()[i], decimal_of(((i + 1) * 10) as nat) + " %"@, current == (i + 1) * 10),
    )
}

/// The entries of the brightness submenu.
pub fn brightness_choices(current: u32) -> (r: Vec<MenuChoice>)
    ensures
        choices_view(r@) == brightness_choices_spec(current),
{
    let keys = ['1', '2', '3', '4', '5', '6', '7', '8', '9', '0'];
    assert(keys@ == brightness_keys());
    let mut v: Vec<MenuChoice> = Vec::new();
    let mut i: usize = 0;
    while i < 10
        invariant
            i <= 10,
            keys@ == brightness_keys(),
            v@.len() == i,
            forall|j: int| 0 <= j < i ==> #[trigger] choice_view(v@[j]) == brightness_choices_spec(current)[j],
        decreases 10 - i,
    {
        let value: u32 = ((i + 1) * 10) as u32;
        let mut label = String::new();
        push_decimal(&mut label, value as u64);
        label.append(" %");
        v.push(MenuChoice { key: keys[i], label, current: current == value });
        i = i + 1;
    }
    assert(choices_view(v@) =~= brightness_choices_spec(current));
    v
}

/// The brightness value of the chosen entry of the brightness submenu.
pub fn brightness_of_choice(idx: usize) -> (r: u32)
    requires
        idx < 10,
    ensures
        r == (idx + 1) * 10,
{
    ((idx + 1) * 10) as u32
}

/// The colour presets a user can pick: key, name and VCP 0x14 value.
pub open spec fn color_preset_table() -> Seq<(char, Seq<char>, u32)> {
    seq![
        ('1', "sRGB"@, 1u32),
        ('2', "Native"@, 2u32),
        ('3', "4000 K"@, 4u32),
        ('4', "5000 K"@, 5u32),
        ('5', "6500 K"@, 6u32),
        ('6', "7500 K"@, 8u32),
        ('7', "8200 K"@, 9u32),
        ('8', "9300 K"@, 10u32),
        ('9', "User 1"@, 11u32),
        ('a', "User 2"@, 12u32),
        ('b', "User 3"@, 13u32),
    ]
}

/// The colour preset submenu, the current preset marked.
pub open spec fn color_preset_choices_spec(current: u32) -> Seq<(char, Seq<char>, bool)> {
    color_preset_table().map_values(|e: (char, Seq<char>, u32)| (e.0, e.1, e.2 == current))
}

/// The colour preset table entry at `idx`, as name and value.
pub fn color_preset_of_choice(idx: usize) -> (r: (&'static str, u32))
    requires
        idx < 11,
    ensures
        (r.0@, r.1) == (color_preset_table()[idx as int].1, color_preset_table()[idx as int].2),
{
    let table: [(&'static str, u32); 11] = [
        ("sRGB", 1),
        ("Native", 2),
        ("4000 K", 4),
        ("5000 K", 5),
        ("6500 K", 6),
        ("7500 K", 8),
        ("8200 K", 9),
        ("9300 K", 10),
        ("User 1", 11),
        ("User 2", 12),
        ("User 3", 13),
    ];
    table[idx]
}

/// The entries of the colour preset submenu.
pub fn color_preset_choices(current: u32) -> (r: Vec<MenuChoice>)
    ensures
        choices_view(r@) == color_preset_choices_spec(current),
{
    let keys = ['1', '2', '3', '4', '5', '6', '7', '8', '9', 'a', 'b'];
    let mut v: Vec<MenuChoice> = Vec::new();
    let mut i: usize = 0;
    while i < 11
        invariant
            i <= 11,
            keys@ == seq!['1', '2', '3', '4', '5', '6', '7', '8', '9', 'a', 'b'],
            v@.len() == i,
            forall|j: int| 0 <= j < i ==> #[trigger] choice_view(v@[j]) == color_preset_choices_spec(current)[j],
        decreases 11 - i,
    {
        let (name, value) = color_preset_of_choice(i);
        v.push(MenuChoice { key: keys[i], label: String::from_str(name), current: value == current });
        i = i + 1;
    }
    assert(choices_view(v@) =~= color_preset_choices_spec(current));
    v
}

/// How many display modes the display-mode submenu lists: the reported
/// maximum, at least one and at most 25.
pub open spec fn display_mode_count(max: u32) -> nat {
    let m = if max >= 1 {
        max as nat
    } else {
        1
    };
    if m <= 25 {
        m
    } else {
        25
    }
}

/// The display-mode submenu, the current mode marked.
pub open spec fn display_mode_choices_spec(max: u32, current: u32) -> Seq<(char, Seq<char>, bool)> {
    Seq::new(
        display_mode_count(max),
        |i: int| (long_keys()[i], "Mode "@ + decimal_of((i + 1) as nat), (i + 1) == current),
    )
}

/// The entries of the display-mode submenu.
pub fn display_mode_choices(max: u32, current: u32) -> (r: Vec<MenuChoice>)
    ensures
        choices_view(r@) == display_mode_choices_spec(max, current),
{
    let keys = [
        '1', '2', '3', '4', '5', '6', '7', '8', '9', 'a', 'b', 'c', 'd', 'e', 'f', 'g', 'h', 'i', 'j', 'k', 'l',
        'm', 'n', 'o', 'p',
    ];
    assert(keys@ == long_keys());
    let m: u32 = if max >= 1 {
        max
    } else {
        1
    };
    let count: usize = if m <= 25 {
        m as usize
    } else {
        25
    };
    let mut v: Vec<MenuChoice> = Vec::new();
    let mut i: usize = 0;
    while i < count
        invariant
            i <= count == display_mode_count(max) <= 25,
            keys@ == long_keys(),
            v@.len() == i,
            forall|j: int| 0 <= j < i ==> #[trigger] choice_view(v@[j]) == display_mode_choices_spec(max, current)[j],
        decreases count - i,
    {
        let mut label = String::from_str("Mode ");
        push_decimal(&mut label, (i + 1) as u64);
        v.push(MenuChoice { key: keys[i], label, current: (i + 1) as u32 == current });
        i = i + 1;
    }
    assert(choices_view(v@) =~= display_mode_choices_spec(max, current));
    v
}

/// The monitor-selection submenu: up to 25 physical monitors as
/// `#<index> <name>`, the current target marked.
pub open spec fn monitor_choices_spec(monitors: Seq<(usize, String)>, target: Option<usize>) -> Seq<(char, Seq<char>, bool)> {
    Seq::new(
        if monitors.len() <= 25 {
            monitors.len()
        } else {
            25
        },
        |i: int|
            (
                long_keys()[i],
                "#"@ + decimal_of(monitors[i].0 as nat) + " "@ + monitors[i].1@,
                target == Some(monitors[i].0),
            ),
    )
}

/// The entries of the monitor-selection submenu, given the physical
/// monitors (index and name) and the index of the current target.
pub fn monitor_choices(monitors: &Vec<(usize, String)>, target: Option<usize>) -> (r: Vec<MenuChoice>)
    ensures
        choices_view(r@) == monitor_choices_spec(monitors@, target),
{
    let keys = [
        '1', '2', '3', '4', '5', '6', '7', '8', '9', 'a', 'b', 'c', 'd', 'e', 'f', 'g', 'h', 'i', 'j', 'k', 'l',
        'm', 'n', 'o', 'p',
    ];
    assert(keys@ == long_keys());
    let count: usize = if monitors.len() <= 25 {
        monitors.len()
    } else {
        25
    };
    let mut v: Vec<MenuChoice> = Vec::new();
    let mut i: usize = 0;
    while i < count
        invariant
            i <= count <= 25,
            count <= monitors.len(),
            count == (if monitors@.len() <= 25 {
                monitors@.len()
            } else {
                25
            }),
            keys@ == long_keys(),
            v@.len() == i,
            forall|j: int| 0 <= j < i ==> #[trigger] choice_view(v@[j]) == monitor_choices_spec(monitors@, target)[j],
        decreases count - i,
    {
        let (idx, name) = &monitors[i];
        let mut label = String::from_str("#");
        push_decimal(&mut label, *idx as u64);
        label.append(" ");
        label.append(name.as_str());
        let is_current = match target {
            Some(t) => t == *idx,
            None => false,
        };
        v.push(MenuChoice { key: keys[i], label, current: is_current });
        i = i + 1;
    }
    assert(choices_view(v@) =~= monitor_choices_spec(monitors@, target));
    v
}

/// The snapshot-restore submenu: up to 25 snapshots, in the order given
/// (newest first), each as `<label> [<kind>] <created_at>`.
pub open spec fn snapshot_choices_spec(snapshots: Seq<(String, String, String)>) -> Seq<(char, Seq<char>, bool)> {
    Seq::new(
        if snapshots.len() <= 25 {
            snapshots.len()
        } else {
            25
        },
        |i: int|
            (
                long_keys()[i],
                snapshots[i].0@ + " ["@ + snapshots[i].1@ + "] "@ + snapshots[i].2@,
                false,
            ),
    )
}

/// The entries of the snapshot-restore submenu, given each listed
/// snapshot's label, kind and creation stamp.
pub fn snapshot_choices(snapshots: &Vec<(String, String, String)>) -> (r: Vec<MenuChoice>)
    ensures
        choices_view(r@) == snapshot_choices_spec(snapshots@),
{
    let keys = [
        '1', '2', '3', '4', '5', '6', '7', '8', '9', 'a', 'b', 'c', 'd', 'e', 'f', 'g', 'h', 'i', 'j', 'k', 'l',
        'm', 'n', 'o', 'p',
    ];
    assert(keys@ == long_keys());
    let count: usize = if snapshots.len() <= 25 {
        snapshots.len()
    } else {
        25
    };
    let mut v: Vec<MenuChoice> = Vec::new();
    let mut i: usize = 0;
    while i < count
        invariant
            i <= count <= 25,
            count <= snapshots.len(),
            count == (if snapshots@.len() <= 25 {
                snapshots@.len()
            } else {
                25
            }),
            keys@ == long_keys(),
            v@.len() == i,
            forall|j: int| 0 <= j < i ==> #[trigger] choice_view(v@[j]) == snapshot_choices_spec(snapshots@)[j],
        decreases count - i,
    {
        let (label_text, kind, created_at) = &snapshots[i];
        let mut label = String::new();
        label.append(label_text.as_str());
        label.append(" [");
        label.append(kind.as_str());
        label.append("] ");
        label.append(created_at.as_str());
        proof {
            assert(Seq::<char>::empty() + label_text@ =~= label_text@);
        }
        v.push(MenuChoice { key: keys[i], label, current: false });
        i = i + 1;
    }
    assert(choices_view(v@) =~= snapshot_choices_spec(snapshots@));
    v
}

/// What a byte prompt accepts: the text read as a decimal `u16` that is at
/// most 255, else an error naming the text.
pub open spec fn prompt_u8_spec(text: Seq<char>) -> Result<u8, Seq<char>> {
    match parse_uint_spec(text, 10, 0xffff) {
        Ok(v) => if v <= 255 {
            Ok(v as u8)
        } else {
            Err("Could not parse '"@ + text + "' as u8"@)
        },
        Err(_) => Err("Could not parse '"@ + text + "' as u8"@),
    }
}

/// What a `u32` prompt accepts: the text read as a decimal `u32`, else an
/// error naming the text.
pub open spec fn prompt_u32_spec(text: Seq<char>) -> Result<u32, Seq<char>> {
    match parse_uint_spec(text, 10, 0xffff_ffff) {
        Ok(v) => Ok(v as u32),
        Err(_) => Err("Could not parse '"@ + text + "' as u32"@),
    }
}

fn could_not_parse(text: &str, tail: &str) -> (r: String)
    ensures
        r@ == "Could not parse '"@ + text@ + tail@,
{
    let mut m = String::from_str("Could not parse '");
    m.append(text);
    m.append(tail);
    m
}

/// Reads the answer to a byte prompt.
pub fn prompt_u8_value(text: &str) -> (r: Result<u8, String>)
    ensures
        match prompt_u8_spec(text@) {
            Ok(v) => r == Ok::<u8, String>(v),
            Err(m) => r matches Err(e) && e@ == m,
        },
{
    let v = chars_of(text);
    proof {
        assert(v@.subrange(0, v@.len() as int) =~= text@);
    }
    match parse_uint_range(&v, 0, v.len(), 10, 0xffff) {
        Ok(x) => if x <= 255 {
            Ok(x as u8)
        } else {
            Err(could_not_parse(text, "' as u8"))
        },
        Err(_) => Err(could_not_parse(text, "' as u8")),
    }
}

/// Reads the answer to a `u32` prompt.
pub fn prompt_u32_value(text: &str) -> (r: Result<u32, String>)
    ensures
        match prompt_u32_spec(text@) {
            Ok(v) => r == Ok::<u32, String>(v),
            Err(m) => r matches Err(e) && e@ == m,
        },
{
    let v = chars_of(text);
    proof {
        assert(v@.subrange(0, v@.len() as int) =~= text@);
    }
    match parse_uint_range(&v, 0, v.len(), 10, 0xffff_ffff) {
        Ok(x) => Ok(x as u32),
        Err(_) => Err(could_not_parse(text, "' as u32")),
    }
}

/// The brightness a DDC/CI studio write may set: at most 100.
pub fn check_brightness_value(value: u32) -> (r: Result<u32, String>)
    ensures
        value <= 100 ==> r == Ok::<u32, String>(value),
        value > 100 ==> (r matches Err(e) && e@ == "brightness must be 0..100"@),
{
    if value > 100 {
        Err(String::from_str("brightness must be 0..100"))
    } else {
        Ok(value)
    }
}

/// The guardrail menu: toggle, the two limits, risky-write confirmation and
/// reset, the two toggles marked when on.
pub open spec fn guardrail_choices_spec(g: DdcGuardrails) -> Seq<(char, Seq<char>, bool)> {
    seq![
        ('1', "Toggle Guardrails Enabled"@, g.enabled),
        ('2', "Set Min Brightness"@, false),
        ('3', "Set Max Brightness"@, false),
        ('4', "Toggle Confirm Risky Writes"@, g.confirm_risky_writes),
        ('5', "Reset to Defaults"@, false),
    ]
}

/// The entries of the guardrail menu.
pub fn guardrail_choices(g: &DdcGuardrails) -> (r: Vec<MenuChoice>)
    ensures
        choices_view(r@) == guardrail_choices_spec(*g),
{
    let v = vec![
        MenuChoice { key: '1', label: String::from_str("Toggle Guardrails Enabled"), current: g.enabled },
        MenuChoice { key: '2', label: String::from_str("Set Min Brightness"), current: false },
        MenuChoice { key: '3', label: String::from_str("Set Max Brightness"), current: false },
        MenuChoice {
            key: '4',
            label: String::from_str("Toggle Confirm Risky Writes"),
            current: g.confirm_risky_writes,
        },
        MenuChoice { key: '5', label: String::from_str("Reset to Defaults"), current: false },
    ];
    assert(choices_view(v@) =~= guardrail_choices_spec(*g));
    v
}

/// In a submenu whose keys are distinct and never `q`, pressing the key of
/// an entry picks that entry.
pub proof fn law_submenu_pick(keys: Seq<char>, i: int)
    requires
        0 <= i < keys.len(),
        forall|a: int, b: int| 0 <= a < b < keys.len() ==> keys[a] != keys[b],
        forall|a: int| 0 <= a < keys.len() ==> keys[a] != 'q',
    ensures
        submenu_choice_spec(keys, keys[i]) == SubmenuKey::Pick(i as usize),
{
    lemma_first_key_at(keys, i, (i + 1) as nat);
    lemma_first_key_stable(keys, keys[i], (i + 1) as nat, keys.len());
}

proof fn lemma_first_key_at(keys: Seq<char>, i: int, n: nat)
    requires
        0 <= i < n <= keys.len(),
        forall|a: int, b: int| 0 <= a < b < keys.len() ==> keys[a] != keys[b],
    ensures
        n == i + 1 ==> first_key_index(keys, keys[i], n) == Some(i),
    decreases n,
{
    if n == i + 1 {
        lemma_first_key_none(keys, keys[i], i as nat);
    }
}

proof fn lemma_first_key_none(keys: Seq<char>, ch: char, n: nat)
    requires
        n <= keys.len(),
        forall|a: int| 0 <= a < n ==> keys[a] != ch,
    ensures
        first_key_index(keys, ch, n) is None,
    decreases n,
{
    if n > 0 {
        lemma_first_key_none(keys, ch, (n - 1) as nat);
    }
}

} // verus!
