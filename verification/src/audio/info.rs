//! A description of the audio client the mixer runs in.
use vstd::prelude::*;

verus! {

/// Name and stream parameters of an audio client.
#[derive(Debug)]
pub struct Info {
    pub name: String,
    pub sample_rate: usize,
    pub buffer_size: u32,
}

/// The character of a decimal digit.
pub open spec fn digit(d: nat) -> char {
    if d == 0 {
        '0'
    } else if d == 1 {
        '1'
    } else if d == 2 {
        '2'
    } else if d == 3 {
        '3'
    } else if d == 4 {
        '4'
    } else if d == 5 {
        '5'
    } else if d == 6 {
        '6'
    } else if d == 7 {
        '7'
    } else if d == 8 {
        '8'
    } else {
        '9'
    }
}

/// The decimal numeral of `n`, without leading zeros.
pub open spec fn decimal(n: nat) -> Seq<char>
    decreases n,
{
    if n < 10 {
        seq![digit(n)]
    } else {
        decimal(n / 10).push(digit(n % 10))
    }
}

/// What there is to say of a client: its name in quotes, its sample rate and
/// its buffer size, a line each.
pub open spec fn description(info: Info) -> Seq<Seq<char>> {
    seq![
        "\""@ + info.name@ + "\" jack audio client"@,
        "  sample rate: "@ + decimal(info.sample_rate as nat),
        "  buffer size: "@ + decimal(info.buffer_size as nat),
    ]
}

/// One decimal digit as a string.
fn digit_str(d: usize) -> (r: &'static str)
    requires
        d < 10,
    ensures
        r@ == seq![digit(d as nat)],
{
    proof {
        reveal_strlit("0");
        reveal_strlit("1");
        reveal_strlit("2");
        reveal_strlit("3");
        reveal_strlit("4");
        reveal_strlit("5");
        reveal_strlit("6");
        reveal_strlit("7");
        reveal_strlit("8");
        reveal_strlit("9");
    }
    let r = if d == 0 {
        "0"
    } else if d == 1 {
        "1"
    } else if d == 2 {
        "2"
    } else if d == 3 {
        "3"
    } else if d == 4 {
        "4"
    } else if d == 5 {
        "5"
    } else if d == 6 {
        "6"
    } else if d == 7 {
        "7"
    } else if d == 8 {
        "8"
    } else {
        "9"
    };
    assert(r@ =~= seq![digit(d as nat)]);
    r
}

/// Appends the decimal numeral of `n` to `text`.
fn append_decimal(text: &mut String, n: usize)
    ensures
        final(text)@ == old(text)@ + decimal(n as nat),
    decreases n,
{
    if n < 10 {
        text.append(digit_str(n));
    } else {
        append_decimal(text, n / 10);
        text.append(digit_str(n % 10));
        assert(old(text)@ + decimal(n as nat / 10) + seq![digit(n as nat % 10)] =~= old(text)@
            + decimal(n as nat));
    }
}

impl Info {
    /// Describes a client by its plain values.
    pub fn new(name: String, sample_rate: usize, buffer_size: u32) -> (r: Self)
        ensures
            r.name == name,
            r.sample_rate == sample_rate,
            r.buffer_size == buffer_size,
    {
        Info { name, sample_rate, buffer_size }
    }

    /// The lines to log about the client.
    pub fn log(&self) -> (r: Vec<String>)
        ensures
            r@.len() == 3,
            forall|i: int| 0 <= i < 3 ==> (#[trigger] r@[i])@ == description(*self)[i],
    {
        let mut name = "\"".to_owned();
        name.append(self.name.as_str());
        name.append("\" jack audio client");
        let mut rate = "  sample rate: ".to_owned();
        append_decimal(&mut rate, self.sample_rate);
        let mut size = "  buffer size: ".to_owned();
        append_decimal(&mut size, self.buffer_size as usize);
        let mut lines: Vec<String> = Vec::with_capacity(3);
        lines.push(name);
        lines.push(rate);
        lines.push(size);
        lines
    }
}

} // verus!
