use vstd::prelude::*;
use crate::address::address_text;
use crate::codec::Temperature;
use crate::text::{decimal, digit_char, push_decimal, push_hex};

verus! {

/// A time as whole milliseconds since the Unix epoch.
#[derive(Clone, Copy, Debug, PartialEq, Eq, Structural)]
pub struct Timestamp {
    pub unix_millis: u64,
}

/// One observation of a transmitter: its temperature and when it was taken.
#[derive(Clone, Copy, Debug, PartialEq, Eq, Structural)]
pub struct Reading {
    pub temperature: Temperature,
    pub timestamp: Timestamp,
}

/// The two comment lines that open every document.
pub open spec fn metric_header() -> Seq<char> {
    "# HELP enocean_temperature_celsius Temperature reported by an EnOcean sensor, in degrees Celsius\n"@
        + "# TYPE enocean_temperature_celsius gauge\n"@
}

/// Shortest decimal text of a value in tenths: `21.5`, `22`, `-0.5`.
pub open spec fn temperature_text(decicelsius: int) -> Seq<char> {
    let magnitude: nat = if decicelsius < 0 { (-decicelsius) as nat } else { decicelsius as nat };
    let sign = if decicelsius < 0 { "-"@ } else { Seq::empty() };
    let fraction = if magnitude % 10 == 0 {
        Seq::empty()
    } else {
        "."@.push(digit_char(magnitude % 10))
    };
    sign + decimal(magnitude / 10) + fraction
}

/// The exposition line of a transmitter with a reading.
pub open spec fn device_line(id: u32, name: Option<Seq<char>>, r: Reading) -> Seq<char> {
    let labels = match name {
        Some(n) => "enocean_temperature_celsius{address=\""@ + address_text(id) + "\""@ + ", name=\""@
            + n + "\""@,
        None => "enocean_temperature_celsius{address=\""@ + address_text(id) + "\""@,
    };
    labels + "} "@ + temperature_text(r.temperature.decicelsius as int) + " "@ + decimal(
        r.timestamp.unix_millis as nat,
    ) + "\n"@
}

pub fn push_header(s: &mut String)
    ensures
        final(s)@ == old(s)@ + metric_header(),
{
    s.append("# HELP enocean_temperature_celsius Temperature reported by an EnOcean sensor, in degrees Celsius\n");
    s.append("# TYPE enocean_temperature_celsius gauge\n");
    assert(s@ =~= old(s)@ + metric_header());
}

fn push_temperature(s: &mut String, t: Temperature)
    ensures
        final(s)@ == old(s)@ + temperature_text(t.decicelsius as int),
{
    let v: i64 = t.decicelsius as i64;
    let magnitude: u64 = if v < 0 {
        s.append("-");
        (-v) as u64
    } else {
        v as u64
    };
    push_decimal(s, magnitude / 10);
    if magnitude % 10 != 0 {
        s.append(".");
        push_decimal(s, magnitude % 10);
        assert(decimal((magnitude % 10) as nat) == seq![digit_char((magnitude % 10) as nat)]);
    }
    assert(s@ =~= old(s)@ + temperature_text(t.decicelsius as int));
}

/// Appends the exposition line of a transmitter with a reading.
pub fn push_device_line(s: &mut String, id: u32, name: &Option<String>, r: Reading)
    ensures
        final(s)@ == old(s)@ + device_line(
            id,
            match name {
                Some(n) => Some(n@),
                None => None,
            },
            r,
        ),
{
    s.append("enocean_temperature_celsius{address=\"");
    push_hex(s, id, 8);
    s.append("\"");
    match name {
        Some(n) => {
            s.append(", name=\"");
            s.append(n.as_str());
            s.append("\"");
        },
        None => {},
    }
    s.append("} ");
    push_temperature(s, r.temperature);
    s.append(" ");
    push_decimal(s, r.timestamp.unix_millis);
    s.append("\n");
    assert(s@ =~= old(s)@ + device_line(
        id,
        match name {
            Some(n) => Some(n@),
            None => None,
        },
        r,
    ));
}

} // verus!
