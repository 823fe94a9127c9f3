//! Writing mode: a display setup for pen input (waveform 1, split area limit
//! 8, runtime power management off) that is entered on request and left on
//! request, restoring what was set before.

use vstd::prelude::*;

use crate::decimal::decimal;
use crate::sys_handler::{
    ebc_parameter_path, ebc_power_control_path, set_default_waveform, set_split_area_limit,
    write_ebc_energy_control, SysfsWrite,
};
use crate::text::str_eq;

verus! {

/// Whether writing mode is on, and the settings it replaced.
pub struct EbcWritingState {
    writing_mode_is_on: u8,
    waveform: u8,
    split_area_limit: u32,
    ebc_energy_saving: u8,
}

/// The abstract state of writing mode.
pub struct WritingModeView {
    pub on: bool,
    /// The default waveform before writing mode was entered.
    pub waveform: u8,
    /// The split area limit before writing mode was entered.
    pub split_area_limit: u32,
    /// Whether the power control read `on` before writing mode was entered.
    pub energy_saving: bool,
}

/// The settings that were in force when writing mode is requested.
pub struct EbcSettings {
    pub waveform: u8,
    pub split_area_limit: u32,
    /// The power control setting, as `read_ebc_energy_control` gives it.
    pub energy_control: String,
}

impl View for EbcWritingState {
    type V = WritingModeView;

    closed spec fn view(&self) -> WritingModeView {
        WritingModeView {
            on: self.writing_mode_is_on == 1,
            waveform: self.waveform,
            split_area_limit: self.split_area_limit,
            energy_saving: self.ebc_energy_saving == 1,
        }
    }
}

/// A write as a pair of path and value.
pub open spec fn write_view(w: SysfsWrite) -> (Seq<char>, Seq<char>) {
    (w.path@, w.value@)
}

/// A sequence of writes as pairs of path and value.
pub open spec fn writes_view(ws: Seq<SysfsWrite>) -> Seq<(Seq<char>, Seq<char>)> {
    ws.map_values(|w: SysfsWrite| write_view(w))
}

/// The default waveform used while writing.
pub open spec fn writing_waveform() -> nat {
    1
}

/// The split area limit used while writing.
pub open spec fn writing_split_area_limit() -> nat {
    8
}

/// The writes that set up the display for writing.
pub open spec fn writing_setup() -> Seq<(Seq<char>, Seq<char>)> {
    seq![
        (ebc_parameter_path("default_waveform"@), decimal(writing_waveform())),
        (ebc_parameter_path("split_area_limit"@), decimal(writing_split_area_limit())),
        (ebc_power_control_path(), "on"@),
    ]
}

/// The writes that put back the settings that writing mode replaced.
pub open spec fn writing_teardown(s: WritingModeView) -> Seq<(Seq<char>, Seq<char>)> {
    seq![
        (ebc_parameter_path("default_waveform"@), decimal(s.waveform as nat)),
        (ebc_parameter_path("split_area_limit"@), decimal(s.split_area_limit as nat)),
        (ebc_power_control_path(), if s.energy_saving {
            "on"@
        } else {
            "auto"@
        }),
    ]
}

/// Entering writing mode from state `s` with the current settings: the next
/// state and the writes to perform. Nothing happens where it is on already.
pub open spec fn enter_spec(
    s: WritingModeView,
    waveform: u8,
    split_area_limit: u32,
    energy_control: Seq<char>,
) -> (WritingModeView, Seq<(Seq<char>, Seq<char>)>) {
    if s.on {
        (s, Seq::empty())
    } else {
        (
            WritingModeView {
                on: true,
                waveform,
                split_area_limit,
                energy_saving: energy_control == "on"@,
            },
            writing_setup(),
        )
    }
}

/// Leaving writing mode from state `s`: the next state and the writes to
/// perform. Nothing happens where it is off.
pub open spec fn quit_spec(s: WritingModeView) -> (WritingModeView, Seq<(Seq<char>, Seq<char>)>) {
    if s.on {
        (WritingModeView { on: false, ..s }, writing_teardown(s))
    } else {
        (s, Seq::empty())
    }
}

impl EbcWritingState {
    /// The state at start: writing mode off.
    pub fn new() -> (s: Self)
        ensures
            s@ == (WritingModeView {
                on: false,
                waveform: 0,
                split_area_limit: 0,
                energy_saving: false,
            }),
    {
        EbcWritingState { writing_mode_is_on: 0, waveform: 0, split_area_limit: 0, ebc_energy_saving: 0 }
    }

    /// Whether writing mode is on.
    pub fn is_writing_mode_on(&self) -> (b: bool)
        ensures
            b == self@.on,
    {
        self.writing_mode_is_on == 1
    }

    /// Enters writing mode: where it is off, remembers `current` and returns
    /// the writes that set up the display for writing; where it is on, does
    /// nothing.
    pub fn enter_writing_mode(&mut self, current: &EbcSettings) -> (writes: Vec<SysfsWrite>)
        ensures
            (final(self)@, writes_view(writes@)) == enter_spec(
                old(self)@,
                current.waveform,
                current.split_area_limit,
                current.energy_control@,
            ),
            !old(self)@.on ==> writes_view(writes@) == seq![
                (ebc_parameter_path("default_waveform"@), "1"@),
                (ebc_parameter_path("split_area_limit"@), "8"@),
                (ebc_power_control_path(), "on"@),
            ],
    {
        proof {
            if !old(self)@.on {
                lemma_enter_writes_writing_setup(
                    old(self)@,
                    current.waveform,
                    current.split_area_limit,
                    current.energy_control@,
                );
            }
        }
        let mut writes: Vec<SysfsWrite> = Vec::new();
        if self.writing_mode_is_on == 1 {
            assert(writes_view(writes@) == Seq::<(Seq<char>, Seq<char>)>::empty());
            return writes;
        }
        self.waveform = current.waveform;
        self.split_area_limit = current.split_area_limit;
        if str_eq(current.energy_control.as_str(), "on") {
            self.ebc_energy_saving = 1;
        } else {
            self.ebc_energy_saving = 0;
        }
        writes.push(set_default_waveform(1));
        writes.push(set_split_area_limit(8));
        writes.push(write_ebc_energy_control("on").unwrap());
        self.writing_mode_is_on = 1;
        assert(writes_view(writes@) == writing_setup());
        writes
    }

    /// Leaves writing mode: where it is on, returns the writes that put back
    /// the settings it replaced; where it is off, does nothing.
    pub fn quit_writing_mode(&mut self) -> (writes: Vec<SysfsWrite>)
        ensures
            (final(self)@, writes_view(writes@)) == quit_spec(old(self)@),
    {
        let mut writes: Vec<SysfsWrite> = Vec::new();
        if self.writing_mode_is_on != 1 {
            assert(writes_view(writes@) == Seq::<(Seq<char>, Seq<char>)>::empty());
            return writes;
        }
        writes.push(set_default_waveform(self.waveform));
        writes.push(set_split_area_limit(self.split_area_limit));
        if self.ebc_energy_saving == 1 {
            writes.push(write_ebc_energy_control("on").unwrap());
        } else {
            writes.push(write_ebc_energy_control("auto").unwrap());
        }
        self.writing_mode_is_on = 0;
        assert(writes_view(writes@) == writing_teardown(old(self)@));
        writes
    }
}

/// Leaving writing mode right after entering it turns it off again and
/// writes back the waveform, split area limit and power control that were in
/// force when it was entered (the power control as `on` where it read `on`,
/// else as `auto`).
pub proof fn lemma_quit_undoes_enter(
    s: WritingModeView,
    waveform: u8,
    split_area_limit: u32,
    energy_control: Seq<char>,
)
    requires
        !s.on,
    ensures
        ({
            let entered = enter_spec(s, waveform, split_area_limit, energy_control).0;
            let (left, writes) = quit_spec(entered);
            &&& entered.on
            &&& !left.on
            &&& writes == seq![
                (ebc_parameter_path("default_waveform"@), decimal(waveform as nat)),
                (ebc_parameter_path("split_area_limit"@), decimal(split_area_limit as nat)),
                (ebc_power_control_path(), if energy_control == "on"@ {
                    "on"@
                } else {
                    "auto"@
                }),
            ]
        }),
{
}

/// Entering writing mode while it is on changes nothing and writes nothing:
/// the settings remembered on the first entry are kept.
pub proof fn lemma_enter_is_idempotent(
    s: WritingModeView,
    waveform: u8,
    split_area_limit: u32,
    energy_control: Seq<char>,
    waveform2: u8,
    split_area_limit2: u32,
    energy_control2: Seq<char>,
)
    ensures
        ({
            let entered = enter_spec(s, waveform, split_area_limit, energy_control).0;
            enter_spec(entered, waveform2, split_area_limit2, energy_control2) == (
                entered,
                Seq::<(Seq<char>, Seq<char>)>::empty(),
            )
        }),
{
}

/// Leaving writing mode while it is off changes nothing and writes nothing.
pub proof fn lemma_quit_when_off_does_nothing(s: WritingModeView)
    requires
        !s.on,
    ensures
        quit_spec(s) == (s, Seq::<(Seq<char>, Seq<char>)>::empty()),
{
}

/// Entering writing mode from the off state writes the same three things
/// whatever settings were in force: default waveform `1`, split area limit
/// `8` and power control `on`, in that order.
pub proof fn lemma_enter_writes_writing_setup(
    s: WritingModeView,
    waveform: u8,
    split_area_limit: u32,
    energy_control: Seq<char>,
)
    requires
        !s.on,
    ensures
        enter_spec(s, waveform, split_area_limit, energy_control).1 == seq![
            (ebc_parameter_path("default_waveform"@), "1"@),
            (ebc_parameter_path("split_area_limit"@), "8"@),
            (ebc_power_control_path(), "on"@),
        ],
{
    reveal_strlit("1");
    reveal_strlit("8");
    assert(decimal(1) =~= seq!['1']);
    assert(decimal(8) =~= seq!['8']);
    assert("1"@ =~= seq!['1']);
    assert("8"@ =~= seq!['8']);
    assert(writing_setup() =~= seq![
        (ebc_parameter_path("default_waveform"@), "1"@),
        (ebc_parameter_path("split_area_limit"@), "8"@),
        (ebc_power_control_path(), "on"@),
    ]);
}

/// What entering writing mode from the off state writes does not depend on
/// the settings in force; only what it remembers does.
pub proof fn lemma_enter_writes_do_not_depend_on_settings(
    s: WritingModeView,
    waveform1: u8,
    split_area_limit1: u32,
    energy_control1: Seq<char>,
    waveform2: u8,
    split_area_limit2: u32,
    energy_control2: Seq<char>,
)
    requires
        !s.on,
    ensures
        enter_spec(s, waveform1, split_area_limit1, energy_control1).1 == enter_spec(
            s,
            waveform2,
            split_area_limit2,
            energy_control2,
        ).1,
{
    lemma_enter_writes_writing_setup(s, waveform1, split_area_limit1, energy_control1);
    lemma_enter_writes_writing_setup(s, waveform2, split_area_limit2, energy_control2);
}

} // verus!
