//! The sysfs files of the display controller (the `rockchip_ebc` driver):
//! which file each parameter lives in, the text that a setter writes there,
//! and the value that a getter reads from the line that the file holds.
//!
//! The library does no I/O. A setter returns the `SysfsWrite` to perform; a
//! getter takes the line that was read from the parameter's file (as
//! `BufRead::read_line` returns it, line feed included).

use vstd::prelude::*;

use crate::decimal::{
    decimal, decimal_string, is_digit, lemma_decimal_digits, lemma_decimal_reads_back, parse_u32,
    parse_u8, parsed_unsigned,
};
use crate::text::{
    all_whitespace, chars_of, lemma_trimmed_end_ignores_whitespace,
    lemma_trimmed_start_ignores_whitespace, str_eq, trim, trim_end, trimmed,
    trimmed_end, trimmed_start,
};

verus! {

/// A write of `value` to the file at `path`.
#[derive(Debug, Clone, PartialEq, Eq)]
pub struct SysfsWrite {
    pub path: String,
    pub value: String,
}

/// The directory of the driver's module parameters.
pub open spec fn ebc_parameters_dir() -> Seq<char> {
    "/sys/module/rockchip_ebc/parameters/"@
}

/// The file of the module parameter `parameter`.
pub open spec fn ebc_parameter_path(parameter: Seq<char>) -> Seq<char> {
    ebc_parameters_dir() + parameter
}

/// The runtime power-management control of the display controller.
pub open spec fn ebc_power_control_path() -> Seq<char> {
    "/sys/devices/platform/fdec0000.ebc/power/control"@
}

/// The number that a boolean parameter is written as.
pub open spec fn bool_digit(b: bool) -> nat {
    if b {
        1
    } else {
        0
    }
}

/// The boolean that a line of a boolean parameter's file denotes: `Y` or `1`
/// for true, `N` or `0` for false, surrounding whitespace ignored; `None`
/// for anything else.
pub open spec fn ebc_bool_value(line: Seq<char>) -> Option<bool> {
    let t = trimmed(line);
    if t == seq!['Y'] || t == seq!['1'] {
        Some(true)
    } else if t == seq!['N'] || t == seq!['0'] {
        Some(false)
    } else {
        None
    }
}

/// The `u32` that a line of a numeric parameter's file denotes (trailing
/// whitespace ignored), or `None` where it denotes none.
pub open spec fn ebc_u32_value(line: Seq<char>) -> Option<nat> {
    parsed_unsigned(trimmed_end(line), u32::MAX as nat)
}

/// The `u8` that a line of a numeric parameter's file denotes (trailing
/// whitespace ignored), or `None` where it denotes none.
pub open spec fn ebc_u8_value(line: Seq<char>) -> Option<nat> {
    parsed_unsigned(trimmed_end(line), u8::MAX as nat)
}

/// The write of `new_value` to the file `filename`.
pub fn write_to_file(filename: &str, new_value: &str) -> (w: SysfsWrite)
    ensures
        w.path@ == filename@,
        w.value@ == new_value@,
{
    SysfsWrite { path: filename.to_owned(), value: new_value.to_owned() }
}

/// The value that a sysfs file holds, given all that was read from it: the
/// text without its trailing whitespace.
pub fn read_file(contents: &str) -> (r: String)
    ensures
        r@ == trimmed_end(contents@),
{
    trim_end(contents)
}

/// The path of the file of the module parameter `parameter`.
pub fn ebc_parameter_file(parameter: &str) -> (p: String)
    ensures
        p@ == ebc_parameter_path(parameter@),
{
    let mut p = "/sys/module/rockchip_ebc/parameters/".to_owned();
    p.append(parameter);
    p
}

/// The text of a parameter, given the line read from its file.
fn read_ebc_file(line: &str) -> (r: String)
    ensures
        r@ == trimmed_end(line@),
{
    trim_end(line)
}

/// The boolean that the line read from a boolean parameter's file denotes.
pub fn read_ebc_file_bool(line: &str) -> (r: Option<bool>)
    ensures
        r == ebc_bool_value(line@),
{
    let t = trim(line);
    let c = chars_of(t.as_str());
    if c.len() == 1 {
        let only = c[0];
        assert(c@ == seq![only]);
        if only == 'Y' || only == '1' {
            Some(true)
        } else if only == 'N' || only == '0' {
            Some(false)
        } else {
            None
        }
    } else {
        None
    }
}

/// The `u32` that the line read from a numeric parameter's file denotes.
pub fn read_ebc_file_u32(line: &str) -> (r: Option<u32>)
    ensures
        r matches Some(v) ==> ebc_u32_value(line@) == Some(v as nat),
        r is None ==> ebc_u32_value(line@) is None,
{
    let t = read_ebc_file(line);
    parse_u32(t.as_str())
}

/// The `u8` that the line read from a numeric parameter's file denotes.
pub fn read_ebc_file_u8(line: &str) -> (r: Option<u8>)
    ensures
        r matches Some(v) ==> ebc_u8_value(line@) == Some(v as nat),
        r is None ==> ebc_u8_value(line@) is None,
{
    let t = read_ebc_file(line);
    parse_u8(t.as_str())
}

/// The write of the decimal text of `new_value` to the parameter's file.
fn write_ebc_file(parameter: &str, new_value: u8) -> (w: SysfsWrite)
    ensures
        w.path@ == ebc_parameter_path(parameter@),
        w.value@ == decimal(new_value as nat),
{
    SysfsWrite { path: ebc_parameter_file(parameter), value: decimal_string(new_value as u32) }
}

/// The write of the decimal text of `new_value` to the parameter's file.
fn write_ebc_file_u32(parameter: &str, new_value: u32) -> (w: SysfsWrite)
    ensures
        w.path@ == ebc_parameter_path(parameter@),
        w.value@ == decimal(new_value as nat),
{
    SysfsWrite { path: ebc_parameter_file(parameter), value: decimal_string(new_value) }
}

/// The path of the power control of the display controller.
pub fn ebc_power_control_file() -> (p: String)
    ensures
        p@ == ebc_power_control_path(),
{
    "/sys/devices/platform/fdec0000.ebc/power/control".to_owned()
}

/// The power control values that may be written: `on` (runtime power
/// management off) and `auto`.
pub open spec fn allowed_energy_control(value: Seq<char>) -> bool {
    value == "on"@ || value == "auto"@
}

/// The write of `new_value` to the power control of the display controller,
/// or `None` where it is neither `on` nor `auto` (nothing is written then).
pub fn write_ebc_energy_control(new_value: &str) -> (w: Option<SysfsWrite>)
    ensures
        w is Some <==> allowed_energy_control(new_value@),
        w matches Some(w) ==> w.path@ == ebc_power_control_path() && w.value@ == new_value@,
{
    if str_eq(new_value, "on") || str_eq(new_value, "auto") {
        Some(SysfsWrite { path: ebc_power_control_file(), value: new_value.to_owned() })
    } else {
        None
    }
}

/// The power control setting, given the line read from its file.
pub fn read_ebc_energy_control(line: &str) -> (r: String)
    ensures
        r@ == trimmed_end(line@),
{
    trim_end(line)
}

/// The `auto_refresh` parameter, given the line read from its file.
pub fn get_auto_refresh(line: &str) -> (r: bool)
    requires
        ebc_bool_value(line@) is Some,
    ensures
        ebc_bool_value(line@) == Some(r),
{
    read_ebc_file_bool(line).unwrap()
}

/// The write that sets the `auto_refresh` parameter to `state`.
pub fn set_auto_refresh(state: bool) -> (w: SysfsWrite)
    ensures
        w.path@ == ebc_parameter_path("auto_refresh"@),
        w.value@ == decimal(bool_digit(state)),
{
    write_ebc_file("auto_refresh", if state { 1 } else { 0 })
}

/// The `bw_dither_invert` parameter, given the line read from its file.
pub fn get_bw_dither_invert(line: &str) -> (r: bool)
    requires
        ebc_bool_value(line@) is Some,
    ensures
        ebc_bool_value(line@) == Some(r),
{
    read_ebc_file_bool(line).unwrap()
}

/// The write that sets the `bw_dither_invert` parameter to `new_mode`.
pub fn set_bw_dither_invert(new_mode: bool) -> (w: SysfsWrite)
    ensures
        w.path@ == ebc_parameter_path("bw_dither_invert"@),
        w.value@ == decimal(bool_digit(new_mode)),
{
    write_ebc_file("bw_dither_invert", if new_mode { 1 } else { 0 })
}

/// The `delay_a` parameter, given the line read from its file.
pub fn get_delay_a(line: &str) -> (r: u32)
    requires
        ebc_u32_value(line@) is Some,
    ensures
        ebc_u32_value(line@) == Some(r as nat),
{
    read_ebc_file_u32(line).unwrap()
}

/// The write that sets the `delay_a` parameter to `new_mode`.
pub fn set_delay_a(new_mode: u32) -> (w: SysfsWrite)
    ensures
        w.path@ == ebc_parameter_path("delay_a"@),
        w.value@ == decimal(new_mode as nat),
{
    write_ebc_file_u32("delay_a", new_mode)
}

/// The `split_area_limit` parameter, given the line read from its file.
pub fn get_split_area_limit(line: &str) -> (r: u32)
    requires
        ebc_u32_value(line@) is Some,
    ensures
        ebc_u32_value(line@) == Some(r as nat),
{
    read_ebc_file_u32(line).unwrap()
}

/// The write that sets the `split_area_limit` parameter to `new_mode`.
pub fn set_split_area_limit(new_mode: u32) -> (w: SysfsWrite)
    ensures
        w.path@ == ebc_parameter_path("split_area_limit"@),
        w.value@ == decimal(new_mode as nat),
{
    write_ebc_file_u32("split_area_limit", new_mode)
}

/// The write that sets the `default_waveform` parameter to `waveform`.
pub fn set_default_waveform(waveform: u8) -> (w: SysfsWrite)
    ensures
        w.path@ == ebc_parameter_path("default_waveform"@),
        w.value@ == decimal(waveform as nat),
{
    write_ebc_file("default_waveform", waveform)
}

/// The `default_waveform` parameter, given the line read from its file.
pub fn get_default_waveform(line: &str) -> (r: u8)
    requires
        ebc_u8_value(line@) is Some,
    ensures
        ebc_u8_value(line@) == Some(r as nat),
{
    read_ebc_file_u8(line).unwrap()
}

/// The `bw_mode` parameter, given the line read from its file.
pub fn get_bw_mode(line: &str) -> (r: u8)
    requires
        ebc_u8_value(line@) is Some,
    ensures
        ebc_u8_value(line@) == Some(r as nat),
{
    read_ebc_file_u8(line).unwrap()
}

/// The write that sets the `bw_mode` parameter to `new_mode`.
pub fn set_bw_mode(new_mode: u8) -> (w: SysfsWrite)
    ensures
        w.path@ == ebc_parameter_path("bw_mode"@),
        w.value@ == decimal(new_mode as nat),
{
    write_ebc_file("bw_mode", new_mode)
}

/// The `no_off_screen` parameter, given the line read from its file.
pub fn get_no_off_screen(line: &str) -> (r: bool)
    requires
        ebc_bool_value(line@) is Some,
    ensures
        ebc_bool_value(line@) == Some(r),
{
    read_ebc_file_bool(line).unwrap()
}

/// The write that sets the `no_off_screen` parameter to `new_mode`.
pub fn set_no_off_screen(new_mode: bool) -> (w: SysfsWrite)
    ensures
        w.path@ == ebc_parameter_path("no_off_screen"@),
        w.value@ == decimal(bool_digit(new_mode)),
{
    write_ebc_file("no_off_screen", if new_mode { 1 } else { 0 })
}

/// The `dclk_select` parameter, given the line read from its file.
pub fn get_dclk_select(line: &str) -> (r: u8)
    requires
        ebc_u8_value(line@) is Some,
    ensures
        ebc_u8_value(line@) == Some(r as nat),
{
    read_ebc_file_u8(line).unwrap()
}

/// The write that sets the `dclk_select` parameter to `new_mode`. The driver
/// knows the values -1, 0 and 1; of these only 0 and 1 fit in a `u8`, and
/// other values are written as given.
pub fn set_dclk_select(new_mode: u8) -> (w: SysfsWrite)
    ensures
        w.path@ == ebc_parameter_path("dclk_select"@),
        w.value@ == decimal(new_mode as nat),
{
    write_ebc_file("dclk_select", new_mode)
}

/// The writes that set the `default_waveform` and `bw_mode` parameters at once,
/// in that order.
pub fn set_ebc_parameters(default_waveform: u8, bw_mode: u8) -> (w: Vec<SysfsWrite>)
    ensures
        w@.len() == 2,
        w@[0].path@ == ebc_parameter_path("default_waveform"@),
        w@[0].value@ == decimal(default_waveform as nat),
        w@[1].path@ == ebc_parameter_path("bw_mode"@),
        w@[1].value@ == decimal(bw_mode as nat),
{
    let mut w = Vec::new();
    w.push(set_default_waveform(default_waveform));
    w.push(set_bw_mode(bw_mode));
    w
}

/// The decimal text of a number, followed by whitespace, trims to itself.
proof fn lemma_decimal_trims_to_itself(n: nat, ws: Seq<char>)
    requires
        all_whitespace(ws),
    ensures
        trimmed_end(decimal(n) + ws) == decimal(n),
        trimmed(decimal(n) + ws) == decimal(n),
{
    lemma_decimal_digits(n);
    let d = decimal(n);
    assert(is_digit(d[0]));
    assert(is_digit(d[d.len() - 1]));
    lemma_trimmed_end_ignores_whitespace(d, ws);
}

/// Reading back a `u32` parameter gives the number that its setter wrote,
/// whatever whitespace (such as the line feed at the end of a sysfs line)
/// follows it.
pub proof fn lemma_u32_parameter_reads_back(n: u32, ws: Seq<char>)
    requires
        all_whitespace(ws),
    ensures
        ebc_u32_value(decimal(n as nat) + ws) == Some(n as nat),
{
    lemma_decimal_trims_to_itself(n as nat, ws);
    lemma_decimal_reads_back(n as nat);
}

/// Reading back a `u8` parameter gives the number that its setter wrote,
/// whatever whitespace follows it.
pub proof fn lemma_u8_parameter_reads_back(n: u8, ws: Seq<char>)
    requires
        all_whitespace(ws),
    ensures
        ebc_u8_value(decimal(n as nat) + ws) == Some(n as nat),
{
    lemma_decimal_trims_to_itself(n as nat, ws);
    lemma_decimal_reads_back(n as nat);
}

/// Reading back a boolean parameter gives the boolean that its setter wrote,
/// whatever whitespace follows it.
pub proof fn lemma_bool_parameter_reads_back(b: bool, ws: Seq<char>)
    requires
        all_whitespace(ws),
    ensures
        ebc_bool_value(decimal(bool_digit(b)) + ws) == Some(b),
{
    lemma_decimal_trims_to_itself(bool_digit(b), ws);
    assert(decimal(0) == seq!['0']);
    assert(decimal(1) == seq!['1']);
}

/// A boolean parameter's line reads `Y` and `1` as true and `N` and `0` as
/// false, whatever whitespace surrounds the character.
pub proof fn lemma_bool_parameter_words(ws1: Seq<char>, x: char, ws2: Seq<char>)
    requires
        all_whitespace(ws1),
        all_whitespace(ws2),
    ensures
        (x == 'Y' || x == '1') ==> ebc_bool_value(ws1 + seq![x] + ws2) == Some(true),
        (x == 'N' || x == '0') ==> ebc_bool_value(ws1 + seq![x] + ws2) == Some(false),
{
    if x == 'Y' || x == '1' || x == 'N' || x == '0' {
        let head = ws1 + seq![x];
        lemma_trimmed_end_ignores_whitespace(head, ws2);
        assert(head.last() == x);
        assert(trimmed_end(head) == head);
        lemma_trimmed_start_ignores_whitespace(ws1, seq![x]);
        assert(seq![x].drop_first().len() == 0);
        assert(trimmed_start(seq![x]) == seq![x]);
        assert(trimmed(ws1 + seq![x] + ws2) == seq![x]);
    }
}

} // verus!
