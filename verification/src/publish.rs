//! The publish cycle: the status line that is made of the four parts, and
//! the two phases between which the cycle alternates.

use crate::clock::{local_time, Instant};
use crate::number::lemma_decimal_len;
use crate::readout::{
    fragment, load_reading, load_text, BatteryFiles, BatteryModel, LoadSample,
};
use crate::status::{
    batteries_text, files_view, lemma_times_of_two_zones, reads_view, temperatures_text,
    times_text, zone_fragment, RwmStatus, LOCAL_FORMAT,
};
use crate::text::{join, join_texts, push_text, string_of, text_view, texts};
use vstd::prelude::*;

verus! {

/// The seconds between two status lines.
pub const REFRESH_SECONDS: u64 = 60;

/// A part of the status line after its tag and a colon; nothing where the
/// part is missing or empty.
pub open spec fn tagged(tag: char, part: Option<Seq<char>>) -> Seq<Seq<char>> {
    match part {
        Some(text) => if text.len() > 0 {
            seq![seq![tag, ':'] + text]
        } else {
            Seq::empty()
        },
        None => Seq::empty(),
    }
}

/// The status line: the temperatures after `T:`, the load after `L:`, the
/// batteries after `B:`, each only where it is not empty, and the times,
/// with a space between each two.
pub open spec fn status_text(
    temps: Option<Seq<char>>,
    load: Seq<char>,
    batts: Option<Seq<char>>,
    times: Seq<char>,
) -> Seq<char> {
    join(tagged('T', temps) + tagged('L', Some(load)) + tagged('B', batts) + seq![times], " "@)
}

/// The status line of a status at an instant, from what was read of each
/// temperature monitor, of the load and of each battery.
pub open spec fn line_text(
    status: RwmStatus,
    temps: Seq<Result<Seq<char>, Seq<char>>>,
    load: LoadSample,
    batts: Seq<BatteryModel>,
    at: Instant,
    offset: int,
) -> Seq<char> {
    status_text(
        temperatures_text(status.sensors().len(), temps),
        fragment(load_reading(load)),
        batteries_text(status.batteries(), batts),
        times_text(status.zones(), at, offset),
    )
}

/// With no temperatures and no batteries the status line holds the load
/// after its tag, where there is one, and the times; no tag stands alone.
pub proof fn lemma_line_of_load_and_times(load: Seq<char>, times: Seq<char>)
    ensures
        status_text(None, load, None, times) == if load.len() > 0 {
            seq!['L', ':'] + load + " "@ + times
        } else {
            times
        },
{
    let parts = tagged('T', None) + tagged('L', Some(load)) + tagged('B', None) + seq![times];
    if load.len() > 0 {
        assert(parts =~= seq![seq!['L', ':'] + load, times]);
        assert(parts.drop_last() =~= seq![seq!['L', ':'] + load]);
        assert(join(parts.drop_last(), " "@) == seq!['L', ':'] + load);
    } else {
        assert(parts =~= seq![times]);
    }
}

/// A status without temperature monitors and without batteries has a line
/// of the load and the times only, whatever was read.
pub proof fn lemma_line_without_devices(
    status: RwmStatus,
    temps: Seq<Result<Seq<char>, Seq<char>>>,
    load: LoadSample,
    batts: Seq<BatteryModel>,
    at: Instant,
    offset: int,
)
    requires
        status.sensors().len() == 0,
        status.batteries().len() == 0,
    ensures
        line_text(status, temps, load, batts, at, offset) == if fragment(load_reading(load)).len()
            > 0 {
            seq!['L', ':'] + fragment(load_reading(load)) + " "@ + times_text(
                status.zones(),
                at,
                offset,
            )
        } else {
            times_text(status.zones(), at, offset)
        },
{
    lemma_line_of_load_and_times(
        fragment(load_reading(load)),
        times_text(status.zones(), at, offset),
    );
}

/// A status of two clock zones, without temperature monitors and without
/// batteries, whose load was read, has a line of the load after its tag, the
/// fields of the two zones and the local time, one space apart, and of
/// nothing else.
pub proof fn lemma_line_of_load_and_two_zones(
    status: RwmStatus,
    temps: Seq<Result<Seq<char>, Seq<char>>>,
    load: LoadSample,
    batts: Seq<BatteryModel>,
    at: Instant,
    offset: int,
)
    requires
        status.sensors().len() == 0,
        status.batteries().len() == 0,
        status.zones().len() == 2,
        load.rc >= 0,
    ensures
        times_text(status.zones(), at, offset) == zone_fragment(status.zones()[0], at) + " "@
            + zone_fragment(status.zones()[1], at) + " "@ + local_time(offset, at, LOCAL_FORMAT@),
        line_text(status, temps, load, batts, at, offset) == seq!['L', ':'] + load_text(
            load.one as nat,
        ) + seq![' '] + load_text(load.five as nat) + seq![' '] + load_text(load.fifteen as nat)
            + " "@ + times_text(status.zones(), at, offset),
{
    lemma_times_of_two_zones(status.zones(), at, offset);
    lemma_line_without_devices(status, temps, load, batts, at, offset);
    lemma_decimal_len((load.one / 100) as nat);
}

/// Appends a part after its tag, where the part is not empty.
fn push_tagged(parts: &mut Vec<String>, tag: char, text: &str)
    ensures
        texts(final(parts)@) == texts(old(parts)@) + tagged(tag, Some(text@)),
{
    if !text.is_empty() {
        let mut part: Vec<char> = Vec::new();
        part.push(tag);
        part.push(':');
        push_text(&mut part, text);
        assert(part@ =~= seq![tag, ':'] + text@);
        let s = string_of(&part);
        parts.push(s);
        assert(texts(parts@) =~= texts(old(parts)@).push(s@));
    }
    assert(texts(parts@) =~= texts(old(parts)@) + tagged(tag, Some(text@)));
}

/// Makes the status line of the four parts.
pub fn status_line(temps: &Option<String>, load: &str, batts: &Option<String>, times: &str) -> (line:
    String)
    ensures
        line@ == status_text(text_view(*temps), load@, text_view(*batts), times@),
{
    let mut parts: Vec<String> = Vec::new();
    assert(texts(parts@) =~= Seq::<Seq<char>>::empty());
    match temps {
        Some(text) => {
            push_tagged(&mut parts, 'T', text.as_str());
        },
        None => {},
    }
    assert(texts(parts@) =~= tagged('T', text_view(*temps)));
    push_tagged(&mut parts, 'L', load);
    let ghost so_far = texts(parts@);
    match batts {
        Some(text) => {
            push_tagged(&mut parts, 'B', text.as_str());
        },
        None => {},
    }
    assert(texts(parts@) =~= so_far + tagged('B', text_view(*batts)));
    let ghost tags = texts(parts@);
    parts.push(times.to_owned());
    assert(texts(parts@) =~= tags + seq![times@]);
    join_texts(&parts, " ")
}

/// The status line of an instant: the temperatures, the load, the batteries
/// and the times, in this order, from what was read of each device and of
/// the load. `offset` is that of the local time, in seconds east of UTC.
pub fn status_at(
    status: &RwmStatus,
    temps: &Vec<Result<String, String>>,
    load: &LoadSample,
    batts: &Vec<BatteryFiles>,
    at: &Instant,
    offset: i32,
) -> (line: String)
    ensures
        line@ == line_text(
            *status,
            reads_view(temps@),
            *load,
            files_view(batts@),
            *at,
            offset as int,
        ),
{
    let temperatures = status.get_temperatures(temps);
    let load_avgs = status.get_load_avgs(load);
    let batteries = status.get_batteries(batts);
    let times = status.times_at(at, offset);
    status_line(&temperatures, load_avgs.as_str(), &batteries, times.as_str())
}

/// The status line of now, with the local time of this machine.
pub fn status_now(
    status: &RwmStatus,
    temps: &Vec<Result<String, String>>,
    load: &LoadSample,
    batts: &Vec<BatteryFiles>,
) -> (line: String)
    ensures
        exists|at: Instant, offset: int|
            -86_400 < offset < 86_400 && line@ == line_text(
                *status,
                reads_view(temps@),
                *load,
                files_view(batts@),
                at,
                offset,
            ),
{
    let at = Instant::now();
    let offset: i32 = at.local_offset();
    let line = status_at(status, temps, load, batts, &at, offset);
    assert(-86_400 < offset < 86_400 && line@ == line_text(
        *status,
        reads_view(temps@),
        *load,
        files_view(batts@),
        at,
        offset as int,
    ));
    line
}

/// The two phases of the publish cycle.
#[derive(Clone, Copy, Debug, PartialEq, Eq, Structural)]
pub enum Phase {
    /// Between two status lines.
    Idle,
    /// A status line is made and handed to the display.
    Publishing,
}

/// What is to be done on entering a phase.
#[derive(Clone, Copy, Debug, PartialEq, Eq, Structural)]
pub enum Action {
    /// Wait for so many seconds.
    Sleep(u64),
    /// Make the status line and hand it to the display.
    Publish,
}

/// The phase that follows `phase`, with what is to be done on entering it.
/// Idling ends after the interval and is followed by publishing; publishing
/// ends when the display returns and is followed by idling, whether the
/// display took the line or not. No phase ends the cycle.
pub open spec fn next_step(phase: Phase, display_ok: bool) -> (Phase, Action) {
    match phase {
        Phase::Idle => (Phase::Publishing, Action::Publish),
        Phase::Publishing => (Phase::Idle, Action::Sleep(REFRESH_SECONDS)),
    }
}

/// The first phase of the cycle: a status line is published at once.
pub fn start() -> (r: (Phase, Action))
    ensures
        r == (Phase::Publishing, Action::Publish),
{
    (Phase::Publishing, Action::Publish)
}

/// Moves the cycle on from `phase`, which has ended; `display_ok` says
/// whether the display took the last line. A line that the display did not
/// take is not handed over again: the next one follows after the interval.
pub fn step(phase: Phase, display_ok: bool) -> (r: (Phase, Action))
    ensures
        r == next_step(phase, display_ok),
{
    match phase {
        Phase::Idle => (Phase::Publishing, Action::Publish),
        Phase::Publishing => (Phase::Idle, Action::Sleep(REFRESH_SECONDS)),
    }
}

} // verus!
