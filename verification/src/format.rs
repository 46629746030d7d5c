//! Texts that the tracker composes: decimal numbers, the machine's
//! fingerprint, the SQL condition of an hour's statistics, and the
//! UTF-16 strings of the Windows tray.

use crate::text::{trim, trim_text};
use crate::token::{append_hex, hex_char, hex_digits};
use vstd::prelude::*;

verus! {

/// How many hours back the hour statistics reach at most.
pub const MAX_HOUR_OFFSET: u32 = 168;

/// Length of the tray tooltip buffer, in UTF-16 units.
pub const TIP_LEN: usize = 128;

/// The decimal digits of `n`, without leading zeros.
pub open spec fn decimal(n: nat) -> Seq<char>
    decreases n,
{
    if n < 10 {
        seq![hex_char(n)]
    } else {
        decimal(n / 10).push(hex_char(n % 10))
    }
}

pub(crate) fn append_decimal(out: &mut String, n: u32)
    ensures
        final(out)@ == old(out)@ + decimal(n as nat),
    decreases n,
{
    if n >= 10 {
        append_decimal(out, n / 10);
    }
    out.append(crate::token::hex_char_str((n % 10) as u64));
    assert(final(out)@ =~= old(out)@ + decimal(n as nat));
}

/// `n` in decimal, as `n.to_string()` writes it.
pub fn decimal_string(n: u32) -> (s: String)
    ensures
        s@ == decimal(n as nat),
{
    let mut s = String::new();
    append_decimal(&mut s, n);
    assert(s@ =~= decimal(n as nat));
    s
}

/// The fingerprint of a Linux machine: host name, `|`, and the text of
/// the machine id file without leading and trailing white space.
pub fn linux_fingerprint(hostname: &str, machine_id: &str) -> (f: String)
    ensures
        f@ == hostname@ + "|"@ + trim(machine_id@),
{
    let id = trim_text(machine_id);
    let mut f = String::from_str(hostname);
    f.append("|");
    f.append(id.as_str());
    f
}

/// The fingerprint of a Windows machine: computer name, `|`, and the
/// serial number of the system volume as 8 hexadecimal digits.
pub fn windows_fingerprint(computer_name: &str, volume_serial: u32) -> (f: String)
    ensures
        f@ == computer_name@ + "|"@ + hex_digits(volume_serial as nat, 8),
{
    let mut f = String::from_str(computer_name);
    f.append("|");
    append_hex(&mut f, volume_serial as u64, 8);
    f
}

/// The SQL condition on `timestamp` of the hour `offset` hours back
/// (at most 168): the current hour for 0, else from the start of that
/// hour to the start of the next.
pub open spec fn hour_filter_view(offset: u32) -> Seq<char> {
    let o: u32 = if offset > MAX_HOUR_OFFSET {
        MAX_HOUR_OFFSET
    } else {
        offset
    };
    if o == 0 {
        "timestamp >= strftime('%Y-%m-%dT%H:00:00','now','localtime')"@
    } else {
        "timestamp >= strftime('%Y-%m-%dT%H:00:00','now','localtime','-"@ + decimal(o as nat)
            + " hours') AND timestamp < strftime('%Y-%m-%dT%H:00:00','now','localtime','-"@
            + decimal((o - 1) as nat) + " hours')"@
    }
}

/// The SQL condition of the hour statistics for `offset`.
pub fn hour_time_filter(offset: u32) -> (f: String)
    ensures
        f@ == hour_filter_view(offset),
{
    let o = if offset > MAX_HOUR_OFFSET {
        MAX_HOUR_OFFSET
    } else {
        offset
    };
    if o == 0 {
        String::from_str("timestamp >= strftime('%Y-%m-%dT%H:00:00','now','localtime')")
    } else {
        let mut f = String::from_str("timestamp >= strftime('%Y-%m-%dT%H:00:00','now','localtime','-");
        append_decimal(&mut f, o);
        f.append(" hours') AND timestamp < strftime('%Y-%m-%dT%H:00:00','now','localtime','-");
        append_decimal(&mut f, o - 1);
        f.append(" hours')");
        f
    }
}

/// Whether the live contacts are sent on the socket: when fingers are
/// down, or when the text differs from the last one sent.
pub fn should_send_contacts(has_contacts: bool, json: &str, last_json: &str) -> (r: bool)
    ensures
        r == (has_contacts || json@ != last_json@),
{
    has_contacts || !crate::text::same_text(json, last_json)
}

/// The UTF-16 code units of a character.
pub open spec fn utf16_char(c: char) -> Seq<u16> {
    let v = c as u32;
    if v < 0x10000 {
        seq![v as u16]
    } else {
        let u = v - 0x10000;
        seq![(0xD800 + u / 0x400) as u16, (0xDC00 + u % 0x400) as u16]
    }
}

/// The UTF-16 code units of a text, as `str::encode_utf16` yields them.
pub open spec fn utf16(s: Seq<char>) -> Seq<u16>
    decreases s.len(),
{
    if s.len() == 0 {
        Seq::empty()
    } else {
        utf16(s.drop_last()) + utf16_char(s.last())
    }
}

/// The UTF-16 code units of `s`.
pub fn encode_utf16(s: &str) -> (w: Vec<u16>)
    ensures
        w@ == utf16(s@),
{
    let n = s.unicode_len();
    let mut w: Vec<u16> = Vec::new();
    let mut i: usize = 0;
    while i < n
        invariant
            n == s@.len(),
            i <= n,
            w@ == utf16(s@.take(i as int)),
        decreases n - i,
    {
        let c = s.get_char(i);
        let v = c as u32;
        assert(s@.take(i + 1).drop_last() =~= s@.take(i as int));
        assert(s@.take(i + 1).last() == c);
        let ghost before = w@;
        if v < 0x10000 {
            w.push(v as u16);
        } else {
            let u = v - 0x10000;
            w.push((0xD800 + u / 0x400) as u16);
            w.push((0xDC00 + u % 0x400) as u16);
        }
        assert(w@ =~= before + utf16_char(c));
        i = i + 1;
    }
    assert(s@.take(n as int) =~= s@);
    w
}

/// `s` in UTF-16 with a terminating zero, as Windows wants it.
pub fn wide_null(s: &str) -> (w: Vec<u16>)
    ensures
        w@ == utf16(s@).push(0u16),
{
    let mut w = encode_utf16(s);
    w.push(0);
    w
}

/// A tooltip buffer: the first 127 UTF-16 units of `s`, the rest zero.
pub fn wide_tip(s: &str) -> (buf: [u16; 128])
    ensures
        forall|i: int|
            0 <= i < TIP_LEN ==> #[trigger] buf@[i] == if i < 127 && i < utf16(s@).len() {
                utf16(s@)[i]
            } else {
                0u16
            },
{
    let w = encode_utf16(s);
    let mut buf = [0u16; 128];
    let mut i: usize = 0;
    while i < 127 && i < w.len()
        invariant
            w@ == utf16(s@),
            i <= 127,
            i <= w@.len(),
            forall|j: int|
                0 <= j < TIP_LEN ==> #[trigger] buf@[j] == if j < i {
                    w@[j]
                } else {
                    0u16
                },
        decreases 127 - i,
    {
        buf[i] = w[i];
        i = i + 1;
    }
    buf
}

} // verus!
