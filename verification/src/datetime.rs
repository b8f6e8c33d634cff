use vstd::prelude::*;

verus! {

/// A calendar timestamp broken into its components, as the store's
/// timestamp column and the filesystem's modification time carry it. The
/// core never computes with timestamps — they flow from the local file to
/// the stored record on upload, and to the screen on listing — so the
/// components are held as plain integers; the surrounding binary converts
/// from and to its clock library.
#[derive(Clone, Copy, Debug, PartialEq, Eq, Structural)]
pub struct FileDate {
    pub year: u16,
    pub month: u8,
    pub day: u8,
    pub hour: u8,
    pub minute: u8,
    pub second: u8,
    /// Sub-second precision, kept so that a timestamp read from the
    /// filesystem is stored without loss; the display ignores it.
    pub nanosecond: u32,
}

impl FileDate {
    /// The component ranges of a calendar timestamp. Whether the day exists
    /// in its month is the clock library's concern; the core only displays
    /// the components.
    pub open spec fn wellformed(self) -> bool {
        &&& 1 <= self.month <= 12
        &&& 1 <= self.day <= 31
        &&& self.year <= 9999
        &&& self.hour < 24
        &&& self.minute < 60
        &&& self.second < 60
        &&& self.nanosecond < 1_000_000_000
    }

    /// Whether the components lie in their calendar ranges.
    pub fn is_wellformed(&self) -> (r: bool)
        ensures
            r == self.wellformed(),
    {
        1 <= self.month && self.month <= 12 && 1 <= self.day && self.day <= 31 && self.year <= 9999
            && self.hour < 24 && self.minute < 60 && self.second < 60 && self.nanosecond
            < 1_000_000_000
    }

    /// Renders the timestamp as `dd/mm/yyyy hh:mm:ss`, the form the listing
    /// prints.
    pub fn format(&self) -> (r: String)
        requires
            self.wellformed(),
        ensures
            r@ == date_display(*self),
    {
        let mut out = String::new();
        push_two_digits(&mut out, self.day);
        push_char(&mut out, '/');
        push_two_digits(&mut out, self.month);
        push_char(&mut out, '/');
        push_four_digits(&mut out, self.year);
        push_char(&mut out, ' ');
        push_two_digits(&mut out, self.hour);
        push_char(&mut out, ':');
        push_two_digits(&mut out, self.minute);
        push_char(&mut out, ':');
        push_two_digits(&mut out, self.second);
        proof {
            assert(out@ =~= date_display(*self));
        }
        out
    }
}

/// The decimal digit character for a value below ten.
pub open spec fn digit_char(d: int) -> char {
    if d == 0 {
        '0'
    } else if d == 1 {
        '1'
    } else if d == 2 {
        '2'
    } else if d == 3 {
        '3'
    } else if d == 4 {
        '4'
    } else if d == 5 {
        '5'
    } else if d == 6 {
        '6'
    } else if d == 7 {
        '7'
    } else if d == 8 {
        '8'
    } else {
        '9'
    }
}

/// A value below one hundred, zero-padded to two decimal digits.
pub open spec fn two_digits(n: int) -> Seq<char> {
    seq![digit_char(n / 10), digit_char(n % 10)]
}

/// A value below ten thousand, zero-padded to four decimal digits.
pub open spec fn four_digits(n: int) -> Seq<char> {
    seq![
        digit_char(n / 1000),
        digit_char((n / 100) % 10),
        digit_char((n / 10) % 10),
        digit_char(n % 10),
    ]
}

/// The timestamp as `dd/mm/yyyy hh:mm:ss`.
pub open spec fn date_display(d: FileDate) -> Seq<char> {
    two_digits(d.day as int) + seq!['/'] + two_digits(d.month as int) + seq!['/'] + four_digits(
        d.year as int,
    ) + seq![' '] + two_digits(d.hour as int) + seq![':'] + two_digits(d.minute as int) + seq![':']
        + two_digits(d.second as int)
}

/// Relies on String::push: it appends exactly the given character.
#[verifier::external_body]
fn push_char(s: &mut String, c: char)
    ensures
        final(s)@ == old(s)@.push(c),
{
    s.push(c);
}

fn digit_char_exec(d: u8) -> (c: char)
    requires
        d < 10,
    ensures
        c == digit_char(d as int),
{
    match d {
        0 => '0',
        1 => '1',
        2 => '2',
        3 => '3',
        4 => '4',
        5 => '5',
        6 => '6',
        7 => '7',
        8 => '8',
        _ => '9',
    }
}

fn push_two_digits(s: &mut String, n: u8)
    requires
        n < 100,
    ensures
        final(s)@ == old(s)@ + two_digits(n as int),
{
    push_char(s, digit_char_exec(n / 10));
    push_char(s, digit_char_exec(n % 10));
    proof {
        assert(s@ =~= old(s)@ + two_digits(n as int));
    }
}

fn push_four_digits(s: &mut String, n: u16)
    requires
        n < 10000,
    ensures
        final(s)@ == old(s)@ + four_digits(n as int),
{
    push_char(s, digit_char_exec((n / 1000) as u8));
    push_char(s, digit_char_exec(((n / 100) % 10) as u8));
    push_char(s, digit_char_exec(((n / 10) % 10) as u8));
    push_char(s, digit_char_exec((n % 10) as u8));
    proof {
        assert(s@ =~= old(s)@ + four_digits(n as int));
    }
}

} // verus!
