//! The readouts: each turns what was read of one source into a fragment of
//! the status line, or into the reason why there is none.
//!
//! The caller reads the files and the load averages; a file that was read
//! is handed over as `Ok` with its contents, one that was not as `Err` with
//! the message of the failure.

use crate::error::{outcome, ErrorModel, StatusError};
use crate::number::{
    decimal, digit_char, parse_i64, parse_i64_spec, parse_u64, parse_u64_spec, push_decimal,
    push_two_digits, signed_decimal, zero_padded,
};
use crate::text::{chars_of, is_text, push_text, string_of, trim, trimmed};
use vstd::prelude::*;

verus! {

/// The file of a temperature monitor that holds its reading, in thousandths
/// of a degree.
pub const TEMP_FILE: &'static str = "temp1_input";

/// The file of a battery that says whether it is present.
pub const PRESENT_FILE: &'static str = "present";

/// The file of a battery that holds its full capacity as a charge.
pub const CHARGE_FULL_FILE: &'static str = "charge_full_design";

/// The file of a battery that holds its full capacity as an energy.
pub const ENERGY_FULL_FILE: &'static str = "energy_full_design";

/// The file of a battery that holds what is left in it as a charge.
pub const CHARGE_NOW_FILE: &'static str = "charge_now";

/// The file of a battery that holds what is left in it as an energy.
pub const ENERGY_NOW_FILE: &'static str = "energy_now";

/// The file of a battery that holds its state as a word.
pub const STATUS_FILE: &'static str = "status";

/// The fragment that stands for a battery that is not present.
pub const NOT_PRESENT: &'static str = "not present";

/// The view of what reading a file gave.
pub open spec fn read_view(r: Result<String, String>) -> Result<Seq<char>, Seq<char>> {
    match r {
        Ok(text) => Ok(text@),
        Err(message) => Err(message@),
    }
}

/// The fragment that a readout shows: its text; the fixed marker for a
/// battery that is not present; nothing for any other failure.
pub open spec fn fragment(r: Result<Seq<char>, ErrorModel>) -> Seq<char> {
    match r {
        Ok(text) => text,
        Err(ErrorModel::NotPresent(_)) => NOT_PRESENT@,
        Err(_) => Seq::empty(),
    }
}

/// Turns what a readout returned into the fragment that is shown for it.
pub fn fragment_of(r: Result<String, StatusError>) -> (s: String)
    ensures
        s@ == fragment(outcome(r)),
{
    match r {
        Ok(text) => text,
        Err(StatusError::NotPresent(_)) => NOT_PRESENT.to_owned(),
        Err(_) => String::new(),
    }
}

/// `v` divided by `d`, rounded toward zero.
pub open spec fn toward_zero(v: int, d: int) -> int {
    if v < 0 {
        -((-v) / d)
    } else {
        v / d
    }
}

/// A temperature of so many thousandths of a degree as text: whole degrees,
/// rounded toward zero, in at least two characters, and the unit.
pub open spec fn temp_text(millidegrees: int) -> Seq<char> {
    let degrees = toward_zero(millidegrees, 1000);
    let number = if degrees < 0 {
        signed_decimal(degrees)
    } else {
        zero_padded(decimal(degrees as nat), 2)
    };
    number + seq!['\u{b0}', 'C']
}

/// What a temperature monitor shows, given what reading its file gave.
pub open spec fn temp_reading(read: Result<Seq<char>, Seq<char>>) -> Result<
    Seq<char>,
    ErrorModel,
> {
    match read {
        Err(message) => Err(ErrorModel::Io(message)),
        Ok(text) => match parse_i64_spec(trimmed(text)) {
            Err(e) => Err(ErrorModel::ParseNum(e)),
            Ok(millidegrees) => Ok(temp_text(millidegrees)),
        },
    }
}

/// The temperature of one monitor, from what reading its file gave.
pub fn get_temp(temp1_input: &Result<String, String>) -> (r: Result<String, StatusError>)
    ensures
        outcome(r) == temp_reading(read_view(*temp1_input)),
{
    match temp1_input {
        Err(message) => Err(StatusError::Io(message.clone())),
        Ok(text) => {
            let digits = trim(&chars_of(text.as_str()));
            match parse_i64(&digits) {
                Err(e) => Err(StatusError::ParseNum(e)),
                Ok(millidegrees) => {
                    let mut out: Vec<char> = Vec::new();
                    if millidegrees <= -1000 {
                        let size: u64 = (-(millidegrees + 1)) as u64 + 1;
                        out.push('-');
                        assert(out@ == seq!['-']);
                        push_decimal(&mut out, (size / 1000) as u128);
                    } else if millidegrees < 0 {
                        push_two_digits(&mut out, 0);
                    } else {
                        push_two_digits(&mut out, (millidegrees / 1000) as u128);
                    }
                    out.push('\u{b0}');
                    out.push('C');
                    assert(out@ == temp_text(millidegrees as int));
                    Ok(string_of(&out))
                },
            }
        },
    }
}

/// The load averages of the system over one, five and fifteen minutes, in
/// hundredths, with what the query for them returned.
pub struct LoadSample {
    /// What the query returned; negative where it failed.
    pub rc: i32,
    /// The average over one minute, in hundredths.
    pub one: u64,
    /// The average over five minutes, in hundredths.
    pub five: u64,
    /// The average over fifteen minutes, in hundredths.
    pub fifteen: u64,
}

/// So many hundredths as a number with two decimal places.
pub open spec fn load_text(hundredths: nat) -> Seq<char> {
    decimal(hundredths / 100) + seq!['.'] + zero_padded(decimal(hundredths % 100), 2)
}

/// What the load averages show.
pub open spec fn load_reading(sample: LoadSample) -> Result<Seq<char>, ErrorModel> {
    if sample.rc < 0 {
        Err(ErrorModel::System(sample.rc as int))
    } else {
        Ok(
            load_text(sample.one as nat) + seq![' '] + load_text(sample.five as nat) + seq![' ']
                + load_text(sample.fifteen as nat),
        )
    }
}

/// Appends so many hundredths as a number with two decimal places.
fn push_load(out: &mut Vec<char>, hundredths: u64)
    ensures
        final(out)@ == old(out)@ + load_text(hundredths as nat),
{
    push_decimal(out, (hundredths / 100) as u128);
    out.push('.');
    push_two_digits(out, (hundredths % 100) as u128);
    assert(out@ =~= old(out)@ + load_text(hundredths as nat));
}

/// The three load averages, each with two decimal places.
pub fn get_load_avgs(sample: &LoadSample) -> (r: Result<String, StatusError>)
    ensures
        outcome(r) == load_reading(*sample),
{
    if sample.rc < 0 {
        return Err(StatusError::System(sample.rc));
    }
    let mut out: Vec<char> = Vec::new();
    push_load(&mut out, sample.one);
    out.push(' ');
    push_load(&mut out, sample.five);
    out.push(' ');
    push_load(&mut out, sample.fifteen);
    assert(out@ =~= load_text(sample.one as nat) + seq![' '] + load_text(sample.five as nat)
        + seq![' '] + load_text(sample.fifteen as nat));
    Ok(string_of(&out))
}

/// What reading the files of one battery gave.
pub struct BatteryFiles {
    /// Of the file that says whether the battery is present.
    pub present: Result<String, String>,
    /// Of the full capacity as a charge.
    pub charge_full_design: Result<String, String>,
    /// Of the full capacity as an energy.
    pub energy_full_design: Result<String, String>,
    /// Of what is left as a charge.
    pub charge_now: Result<String, String>,
    /// Of what is left as an energy.
    pub energy_now: Result<String, String>,
    /// Of the state of the battery.
    pub status: Result<String, String>,
}

/// `BatteryFiles` over mathematical values.
pub struct BatteryModel {
    pub present: Result<Seq<char>, Seq<char>>,
    pub charge_full_design: Result<Seq<char>, Seq<char>>,
    pub energy_full_design: Result<Seq<char>, Seq<char>>,
    pub charge_now: Result<Seq<char>, Seq<char>>,
    pub energy_now: Result<Seq<char>, Seq<char>>,
    pub status: Result<Seq<char>, Seq<char>>,
}

impl View for BatteryFiles {
    type V = BatteryModel;

    open spec fn view(&self) -> BatteryModel {
        BatteryModel {
            present: read_view(self.present),
            charge_full_design: read_view(self.charge_full_design),
            energy_full_design: read_view(self.energy_full_design),
            charge_now: read_view(self.charge_now),
            energy_now: read_view(self.energy_now),
            status: read_view(self.status),
        }
    }
}

/// Whether the contents of the presence file say that the battery is there:
/// they begin with `1`.
pub open spec fn says_present(contents: Seq<char>) -> bool {
    contents.len() > 0 && contents[0] == '1'
}

/// A capacity, from the file that holds it as a charge or, where that one
/// could not be read, from the file that holds it as an energy.
pub open spec fn capacity(
    charge: Result<Seq<char>, Seq<char>>,
    energy: Result<Seq<char>, Seq<char>>,
) -> Result<nat, ErrorModel> {
    match (if charge is Ok { charge } else { energy }) {
        Err(message) => Err(ErrorModel::Io(message)),
        Ok(text) => match parse_u64_spec(trimmed(text)) {
            Err(e) => Err(ErrorModel::ParseNum(e)),
            Ok(n) => Ok(n as nat),
        },
    }
}

/// The character that stands for the state of a battery: `F` for full, `-`
/// for discharging, `+` for charging, `?` for anything else and for a file
/// that could not be read.
pub open spec fn status_char(status: Result<Seq<char>, Seq<char>>) -> char {
    match status {
        Err(_) => '?',
        Ok(text) => if trimmed(text) == "Full"@ {
            'F'
        } else if trimmed(text) == "Discharging"@ {
            '-'
        } else if trimmed(text) == "Charging"@ {
            '+'
        } else {
            '?'
        },
    }
}

/// `num / den` rounded to the nearest integer, a tie to the even one.
pub open spec fn round_half_even(num: nat, den: nat) -> nat {
    let q = num / den;
    let r = num % den;
    if 2 * r > den || (2 * r == den && q % 2 == 1) {
        q + 1
    } else {
        q
    }
}

/// What is left of a full capacity, in percent and rounded. An empty
/// capacity of which nothing is left gives `NaN`, one of which something is
/// left gives `inf`.
pub open spec fn percent_text(now: nat, full: nat) -> Seq<char> {
    if full == 0 {
        if now == 0 {
            "NaN"@
        } else {
            "inf"@
        }
    } else {
        decimal(round_half_even(100 * now, full))
    }
}

/// What a battery shows, given its path and what reading its files gave.
pub open spec fn battery_reading(batt: Seq<char>, files: BatteryModel) -> Result<
    Seq<char>,
    ErrorModel,
> {
    match files.present {
        Err(message) => Err(ErrorModel::Io(message)),
        Ok(contents) => if !says_present(contents) {
            Err(ErrorModel::NotPresent(batt))
        } else {
            match capacity(files.charge_full_design, files.energy_full_design) {
                Err(e) => Err(e),
                Ok(full) => match capacity(files.charge_now, files.energy_now) {
                    Err(e) => Err(e),
                    Ok(now) => Ok(percent_text(now, full) + seq!['%', status_char(files.status)]),
                },
            }
        },
    }
}

/// A battery whose presence file was read and does not begin with `1` is
/// not present, and shows the fixed marker, whatever its other files hold.
pub proof fn lemma_absent_battery(batt: Seq<char>, files: BatteryModel)
    requires
        files.present matches Ok(contents) && !says_present(contents),
    ensures
        battery_reading(batt, files) == Err::<Seq<char>, ErrorModel>(ErrorModel::NotPresent(batt)),
        fragment(battery_reading(batt, files)) == NOT_PRESENT@,
{
}

/// The percentage of a capacity that is not empty is the integer nearest to
/// a hundred times what is left over the capacity; half-way between two
/// integers it is the even one. A battery that holds all of its capacity shows
/// `100`.
pub proof fn lemma_percent(now: nat, full: nat)
    requires
        full > 0,
    ensures
        percent_text(now, full) == decimal(round_half_even(100 * now, full)),
        2 * (100 * now - round_half_even(100 * now, full) * full) <= full,
        2 * (round_half_even(100 * now, full) * full - 100 * now) <= full,
        2 * (100 * now - round_half_even(100 * now, full) * full) == full ==> round_half_even(
            100 * now,
            full,
        ) % 2 == 0,
        2 * (round_half_even(100 * now, full) * full - 100 * now) == full ==> round_half_even(
            100 * now,
            full,
        ) % 2 == 0,
        now == full ==> percent_text(now, full) == seq!['1', '0', '0'],
{
    let num: int = (100 * now) as int;
    let den: int = full as int;
    let q = num / den;
    let r = num % den;
    vstd::arithmetic::div_mod::lemma_fundamental_div_mod(num, den);
    vstd::arithmetic::div_mod::lemma_mod_bound(num, den);
    assert(num == den * q + r);
    let p: int = round_half_even(100 * now, full) as int;
    assert(p == q || p == q + 1);
    assert(den * (q + 1) == den * q + den) by (nonlinear_arith);
    assert(p * den == den * p) by (nonlinear_arith);
    if now == full {
        assert(num == den * 100);
        vstd::arithmetic::div_mod::lemma_fundamental_div_mod_converse(num, den, 100, 0);
        assert(q == 100 && r == 0);
        assert(decimal(100) == seq!['1', '0', '0']) by {
            reveal_with_fuel(decimal, 3);
            assert(decimal(100) =~= seq![digit_char(1), digit_char(0), digit_char(0)]);
        }
    }
}

/// A battery that is present and holds all of a capacity that is not empty
/// shows `100%` and the character of its state.
pub proof fn lemma_full_battery(batt: Seq<char>, files: BatteryModel, full: nat)
    requires
        files.present matches Ok(contents) && says_present(contents),
        capacity(files.charge_full_design, files.energy_full_design) == Ok::<nat, ErrorModel>(full),
        capacity(files.charge_now, files.energy_now) == Ok::<nat, ErrorModel>(full),
        full > 0,
    ensures
        battery_reading(batt, files) == Ok::<Seq<char>, ErrorModel>(
            seq!['1', '0', '0', '%', status_char(files.status)],
        ),
{
    lemma_percent(full, full);
    assert(seq!['1', '0', '0'] + seq!['%', status_char(files.status)] =~= seq![
        '1',
        '0',
        '0',
        '%',
        status_char(files.status),
    ]);
}

/// The state of a battery shows as `?` exactly where its file could not be
/// read or holds none of the three words.
pub proof fn lemma_unknown_status(status: Result<Seq<char>, Seq<char>>)
    ensures
        status_char(status) == '?' <==> (status matches Ok(text) ==> trimmed(text) != "Full"@
            && trimmed(text) != "Discharging"@ && trimmed(text) != "Charging"@),
{
}

/// Reads a capacity from one of its two files.
fn read_capacity(charge: &Result<String, String>, energy: &Result<String, String>) -> (r: Result<
    u64,
    StatusError,
>)
    ensures
        r matches Ok(n) ==> capacity(read_view(*charge), read_view(*energy)) == Ok::<
            nat,
            ErrorModel,
        >(n as nat),
        r matches Err(e) ==> capacity(read_view(*charge), read_view(*energy)) == Err::<
            nat,
            ErrorModel,
        >(e@),
{
    let chosen = match charge {
        Ok(_) => charge,
        Err(_) => energy,
    };
    match chosen {
        Err(message) => Err(StatusError::Io(message.clone())),
        Ok(text) => {
            let digits = trim(&chars_of(text.as_str()));
            match parse_u64(&digits) {
                Err(e) => Err(StatusError::ParseNum(e)),
                Ok(n) => Ok(n),
            }
        },
    }
}

/// Reads the state of a battery from its file.
fn read_status(status: &Result<String, String>) -> (c: char)
    ensures
        c == status_char(read_view(*status)),
{
    match status {
        Err(_) => '?',
        Ok(text) => {
            let word = trim(&chars_of(text.as_str()));
            if is_text(&word, "Full") {
                'F'
            } else if is_text(&word, "Discharging") {
                '-'
            } else if is_text(&word, "Charging") {
                '+'
            } else {
                '?'
            }
        },
    }
}

/// Appends what is left of a full capacity, in percent.
fn push_percent(out: &mut Vec<char>, now: u64, full: u64)
    ensures
        final(out)@ == old(out)@ + percent_text(now as nat, full as nat),
{
    if full == 0 {
        if now == 0 {
            push_text(out, "NaN");
        } else {
            push_text(out, "inf");
        }
    } else {
        let num: u128 = 100 * (now as u128);
        let den: u128 = full as u128;
        let q: u128 = num / den;
        let r: u128 = num % den;
        let rounded: u128 = if 2 * r > den || (2 * r == den && q % 2 == 1) {
            q + 1
        } else {
            q
        };
        push_decimal(out, rounded);
    }
}

/// The charge of one battery and its state, from its path and what reading
/// its files gave.
pub fn get_batt(batt: &str, files: &BatteryFiles) -> (r: Result<String, StatusError>)
    ensures
        outcome(r) == battery_reading(batt@, files@),
{
    let present: bool = match &files.present {
        Err(message) => {
            return Err(StatusError::Io(message.clone()));
        },
        Ok(contents) => {
            let c = chars_of(contents.as_str());
            c.len() > 0 && c[0] == '1'
        },
    };
    if !present {
        return Err(StatusError::NotPresent(batt.to_owned()));
    }
    let full: u64 = match read_capacity(&files.charge_full_design, &files.energy_full_design) {
        Err(e) => {
            return Err(e);
        },
        Ok(n) => n,
    };
    let now: u64 = match read_capacity(&files.charge_now, &files.energy_now) {
        Err(e) => {
            return Err(e);
        },
        Ok(n) => n,
    };
    let status: char = read_status(&files.status);
    let mut out: Vec<char> = Vec::new();
    push_percent(&mut out, now, full);
    out.push('%');
    out.push(status);
    assert(out@ == percent_text(now as nat, full as nat) + seq!['%', status]);
    Ok(string_of(&out))
}

} // verus!
