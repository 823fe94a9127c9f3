//! The Bluetooth pen driver's sysfs files: scanning for pens, registering
//! and forgetting a pen's address, and connecting automatically to the first
//! pen found.

use vstd::prelude::*;

use crate::sys_handler::SysfsWrite;
use crate::text::{
    all_whitespace, char_vec_views, chars_eq, chars_of, lemma_text_reads_back,
    lemma_trimmed_end_ignores_whitespace, lines, split_lines, string_of, string_views, trimmed_end,
};

verus! {

/// The directory of the pen driver's files.
pub open spec fn pen_dir() -> Seq<char> {
    "/sys/devices/platform/spi-gpio/spi_master/spi4/spi4.0/"@
}

/// The pen driver's file `name`.
pub open spec fn pen_path(name: Seq<char>) -> Seq<char> {
    pen_dir() + name
}

/// The address that stands for no registered pen.
pub open spec fn no_pen_address() -> Seq<char> {
    "00:00:00:00:00:00"@
}

/// An ASCII hexadecimal digit (`0`-`9`, `a`-`f`, `A`-`F`).
pub open spec fn is_hex_digit(c: char) -> bool {
    ||| ('0' <= c && c <= '9')
    ||| ('a' <= c && c <= 'f')
    ||| ('A' <= c && c <= 'F')
}

/// The character that a MAC address has at position `i`: a colon at every
/// third position (2, 5, 8, 11, 14), a hex digit elsewhere.
pub open spec fn mac_char_ok(i: int, c: char) -> bool {
    if i % 3 == 2 {
        c == ':'
    } else {
        is_hex_digit(c)
    }
}

/// A MAC address: six groups of two hex digits joined by colons
/// (17 characters).
pub open spec fn is_mac(s: Seq<char>) -> bool {
    &&& s.len() == 17
    &&& forall|i: int| 0 <= i < 17 ==> mac_char_ok(i, #[trigger] s[i])
}

/// The lines of `ls` that are pen addresses, in order.
pub open spec fn macs_among(ls: Seq<Seq<char>>) -> Seq<Seq<char>>
    decreases ls.len(),
{
    if ls.len() == 0 {
        Seq::empty()
    } else {
        let r = macs_among(ls.drop_last());
        if is_mac(ls.last()) {
            r.push(ls.last())
        } else {
            r
        }
    }
}

/// The lines of a scan result after its two header lines.
pub open spec fn after_header(ls: Seq<Seq<char>>) -> Seq<Seq<char>> {
    if ls.len() <= 2 {
        Seq::empty()
    } else {
        ls.skip(2)
    }
}

/// The pen addresses that a scan reported, given the scan file's value.
pub open spec fn scan_macs(scan_results: Seq<char>) -> Seq<Seq<char>> {
    macs_among(after_header(lines(scan_results)))
}

/// Whether the pen address file's value says that a pen is registered.
pub open spec fn registered(address: Seq<char>) -> bool {
    address != no_pen_address()
}

/// The path of the pen driver's file `name`.
pub fn pen_file(name: &str) -> (p: String)
    ensures
        p@ == pen_path(name@),
{
    let mut p = "/sys/devices/platform/spi-gpio/spi_master/spi4/spi4.0/".to_owned();
    p.append(name);
    p
}

/// Whether `mac` has the shape of a pen address.
fn is_mac_chars(mac: &[char]) -> (b: bool)
    ensures
        b == is_mac(mac@),
{
    if mac.len() != 17 {
        return false;
    }
    for i in 0..17usize
        invariant
            mac@.len() == 17,
            forall|k: int| 0 <= k < i ==> mac_char_ok(k, #[trigger] mac@[k]),
    {
        let c = mac[i];
        let ok = if i % 3 == 2 {
            c == ':'
        } else {
            ('0' <= c && c <= '9') || ('a' <= c && c <= 'f') || ('A' <= c && c <= 'F')
        };
        if !ok {
            assert(!mac_char_ok(i as int, mac@[i as int]));
            return false;
        }
    }
    true
}

/// Whether `mac` is a valid MAC address for the pen.
pub fn check_mac(mac: String) -> (b: bool)
    ensures
        b == is_mac(mac@),
{
    let chars = chars_of(mac.as_str());
    is_mac_chars(chars.as_slice())
}

/// The write that starts a scan for pens.
pub fn start_pen_scan() -> (w: SysfsWrite)
    ensures
        w.path@ == pen_path("scan"@),
        w.value@ == "1"@,
{
    SysfsWrite { path: pen_file("scan"), value: "1".to_owned() }
}

/// The pen addresses that a scan found, given the value of the scan file
/// after the scan (as `read_file` gives it): the lines after the first two
/// that have the shape of an address, in order.
pub fn pen_do_scan(scan_results: &str) -> (macs: Vec<String>)
    ensures
        string_views(macs@) == scan_macs(scan_results@),
        string_views(macs@) == after_header(lines(scan_results@)).filter(|l: Seq<char>| is_mac(l)),
{
    let chars = chars_of(scan_results);
    let all = split_lines(chars.as_slice());
    let ghost ls = char_vec_views(all@);
    let mut macs: Vec<String> = Vec::new();
    let n = all.len();
    if n <= 2 {
        assert(string_views(macs@) == Seq::<Seq<char>>::empty());
        proof {
            lemma_scan_keeps_order_and_repeats(scan_results@);
        }
        return macs;
    }
    assert(ls.subrange(2, 2) == Seq::<Seq<char>>::empty());
    for i in 2..n
        invariant
            n == all@.len(),
            ls == char_vec_views(all@),
            string_views(macs@) == macs_among(ls.subrange(2, i as int)),
    {
        let line = &all[i];
        let ghost before = macs@;
        assert(ls.subrange(2, i + 1).drop_last() == ls.subrange(2, i as int));
        assert(ls.subrange(2, i + 1).last() == line@);
        if is_mac_chars(line.as_slice()) {
            let s = string_of(line.as_slice(), 0, line.len());
            assert(line@.subrange(0, line@.len() as int) == line@);
            macs.push(s);
            assert(string_views(macs@) == string_views(before).push(s@));
        }
    }
    assert(ls.subrange(2, n as int) == after_header(ls));
    proof {
        lemma_scan_keeps_order_and_repeats(scan_results@);
    }
    macs
}

/// The write that registers the pen with address `pen_address`.
pub fn set_address(pen_address: &str) -> (w: SysfsWrite)
    ensures
        w.path@ == pen_path("pen_address"@),
        w.value@ == pen_address@,
{
    SysfsWrite { path: pen_file("pen_address"), value: pen_address.to_owned() }
}

/// The write that forgets any registered pen.
pub fn forget_address() -> (w: SysfsWrite)
    ensures
        w.path@ == pen_path("pen_address"@),
        w.value@ == no_pen_address(),
{
    SysfsWrite { path: pen_file("pen_address"), value: "00:00:00:00:00:00".to_owned() }
}

/// Whether a pen is registered, given the value of the pen address file
/// (as `read_file` gives it).
pub fn is_registered(address: &str) -> (b: bool)
    ensures
        b == registered(address@),
{
    let a = chars_of(address);
    let none = chars_of("00:00:00:00:00:00");
    !chars_eq(a.as_slice(), none.as_slice())
}

/// The write that registers the first pen that a scan found, or `None`
/// where it found none (the connection then fails).
pub fn auto_connect_address(macs: &Vec<String>) -> (w: Option<SysfsWrite>)
    ensures
        macs@.len() == 0 ==> w is None,
        macs@.len() > 0 ==> (w matches Some(w) && w.path@ == pen_path("pen_address"@) && w.value@
            == macs@[0]@),
{
    if macs.len() == 0 {
        None
    } else {
        Some(set_address(macs[0].as_str()))
    }
}

/// Whether an automatic connection succeeded, given the value of the pen
/// version file read after registering the pen: it did where the pen
/// reported a version.
pub fn auto_connect_succeeded(pen_version: &str) -> (b: bool)
    ensures
        b == (pen_version@.len() >= 1),
{
    let v = chars_of(pen_version);
    v.len() >= 1
}

/// Every address that a scan reports has the shape of an address and is one
/// of the lines that followed the two header lines.
pub proof fn lemma_scan_reports_only_addresses(scan_results: Seq<char>)
    ensures
        forall|i: int|
            0 <= i < scan_macs(scan_results).len() ==> is_mac(#[trigger] scan_macs(scan_results)[i])
                && after_header(lines(scan_results)).contains(scan_macs(scan_results)[i]),
{
    lemma_macs_among(after_header(lines(scan_results)));
}

/// Every element of `macs_among(ls)` is an address and an element of `ls`.
proof fn lemma_macs_among(ls: Seq<Seq<char>>)
    ensures
        forall|i: int|
            0 <= i < macs_among(ls).len() ==> is_mac(#[trigger] macs_among(ls)[i])
                && ls.contains(macs_among(ls)[i]),
    decreases ls.len(),
{
    if ls.len() > 0 {
        let init = ls.drop_last();
        lemma_macs_among(init);
        let r = macs_among(init);
        assert forall|i: int| 0 <= i < macs_among(ls).len() implies is_mac(
            #[trigger] macs_among(ls)[i],
        ) && ls.contains(macs_among(ls)[i]) by {
            if i < r.len() {
                assert(macs_among(ls)[i] == r[i]);
                let j = choose|j: int| 0 <= j < init.len() && init[j] == r[i];
                assert(ls[j] == r[i]);
            } else {
                assert(macs_among(ls)[i] == ls.last());
                assert(ls[ls.len() - 1] == ls.last());
            }
        }
    }
}

/// Every line after the two header lines that has the shape of an address
/// is reported by the scan.
pub proof fn lemma_scan_reports_every_address(scan_results: Seq<char>, line: Seq<char>)
    requires
        after_header(lines(scan_results)).contains(line),
        is_mac(line),
    ensures
        scan_macs(scan_results).contains(line),
{
    lemma_macs_among_complete(after_header(lines(scan_results)), line);
}

/// Every address among `ls` is in `macs_among(ls)`.
proof fn lemma_macs_among_complete(ls: Seq<Seq<char>>, line: Seq<char>)
    requires
        ls.contains(line),
        is_mac(line),
    ensures
        macs_among(ls).contains(line),
    decreases ls.len(),
{
    let init = ls.drop_last();
    let r = macs_among(init);
    if ls.last() == line {
        assert(macs_among(ls) == r.push(line));
        assert(macs_among(ls)[r.len() as int] == line);
    } else {
        let j = choose|j: int| 0 <= j < ls.len() && ls[j] == line;
        assert(j < ls.len() - 1);
        assert(init[j] == line);
        lemma_macs_among_complete(init, line);
        let k = choose|k: int| 0 <= k < r.len() && r[k] == line;
        assert(macs_among(ls)[k] == line);
    }
}

/// After the address is forgotten, reading the address file back (with any
/// trailing whitespace) says that no pen is registered.
pub proof fn lemma_forget_unregisters(ws: Seq<char>)
    requires
        all_whitespace(ws),
    ensures
        !registered(trimmed_end(no_pen_address() + ws)),
{
    reveal_strlit("00:00:00:00:00:00");
    assert(no_pen_address().last() == '0');
    lemma_text_reads_back(no_pen_address(), ws);
}

/// After an address is registered, reading the address file back (with any
/// trailing whitespace) says that a pen is registered, unless the address
/// without its trailing whitespace is the no-pen address.
pub proof fn lemma_set_address_registers(pen_address: Seq<char>, ws: Seq<char>)
    requires
        all_whitespace(ws),
        trimmed_end(pen_address) != no_pen_address(),
    ensures
        registered(trimmed_end(pen_address + ws)),
{
    lemma_trimmed_end_ignores_whitespace(pen_address, ws);
}

/// The pen addresses among `ls` are exactly the lines of `ls` that are
/// addresses, kept in their order and with repeats: `ls` filtered by `is_mac`.
proof fn lemma_macs_among_is_filter(ls: Seq<Seq<char>>)
    ensures
        macs_among(ls) == ls.filter(|l: Seq<char>| is_mac(l)),
    decreases ls.len(),
{
    reveal(Seq::filter);
    if ls.len() > 0 {
        lemma_macs_among_is_filter(ls.drop_last());
    }
}

/// A scan reports every line after the two header lines that is a pen
/// address, in the order of the lines and as often as it occurs: the scan
/// result is the lines after the header, filtered by `is_mac`.
pub proof fn lemma_scan_keeps_order_and_repeats(scan_results: Seq<char>)
    ensures
        scan_macs(scan_results) == after_header(lines(scan_results)).filter(
            |l: Seq<char>| is_mac(l),
        ),
{
    lemma_macs_among_is_filter(after_header(lines(scan_results)));
}

/// The hex digits that a pen address may hold are exactly the 22 characters
/// `0123456789abcdefABCDEF`.
pub proof fn lemma_hex_digits_are_the_hex_alphabet(c: char)
    ensures
        is_hex_digit(c) <==> "0123456789abcdefABCDEF"@.contains(c),
{
    reveal_strlit("0123456789abcdefABCDEF");
    let a = "0123456789abcdefABCDEF"@;
    if is_hex_digit(c) {
        if '0' <= c && c <= '9' {
            assert(a[(c as int) - ('0' as int)] == c);
        } else if 'a' <= c && c <= 'f' {
            assert(a[(c as int) - ('a' as int) + 10] == c);
        } else {
            assert(a[(c as int) - ('A' as int) + 16] == c);
        }
    }
    if a.contains(c) {
        let k = choose|k: int| 0 <= k < a.len() && a[k] == c;
        assert(is_hex_digit(a[k]));
    }
}

/// A pen address is exactly 17 characters with a colon at positions 2, 5,
/// 8, 11 and 14 and one of `0123456789abcdefABCDEF` at each other position.
pub proof fn lemma_mac_shape(s: Seq<char>)
    ensures
        is_mac(s) <==> {
            &&& s.len() == 17
            &&& s[2] == ':' && s[5] == ':' && s[8] == ':' && s[11] == ':' && s[14] == ':'
            &&& forall|i: int|
                #![trigger s[i]]
                (i == 0 || i == 1 || i == 3 || i == 4 || i == 6 || i == 7 || i == 9 || i == 10
                    || i == 12 || i == 13 || i == 15 || i == 16) ==> "0123456789abcdefABCDEF"@.contains(
                    s[i],
                )
        },
{
    assert forall|i: int| 0 <= i < 17 && i % 3 != 2 implies (is_hex_digit(s[i])
        <==> "0123456789abcdefABCDEF"@.contains(s[i])) by {
        lemma_hex_digits_are_the_hex_alphabet(s[i]);
    }
    if s.len() == 17 {
        assert(mac_char_ok(2, s[2]) <==> s[2] == ':');
        assert(mac_char_ok(5, s[5]) <==> s[5] == ':');
        assert(mac_char_ok(8, s[8]) <==> s[8] == ':');
        assert(mac_char_ok(11, s[11]) <==> s[11] == ':');
        assert(mac_char_ok(14, s[14]) <==> s[14] == ':');
    }
}

/// The lines after the header are the lines from the third on, in order.
pub proof fn lemma_after_header_shape(ls: Seq<Seq<char>>)
    ensures
        after_header(ls).len() == if ls.len() <= 2 {
            0
        } else {
            ls.len() - 2
        },
        forall|i: int| 0 <= i < after_header(ls).len() ==> #[trigger] after_header(ls)[i] == ls[i + 2],
{
}

} // verus!
