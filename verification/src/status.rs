//! The aggregator: it owns the paths of the devices and the clock zones,
//! and turns what was read of all devices of one kind into one part of the
//! status line.
//!
//! A device whose readout fails shows as an empty field; the fields of the
//! other devices stay as they are and where they are.

use crate::clock::{local_time, local_time_at, tz_time_at, zone_time, Instant};
use crate::paths::{candidates, get_paths, listing_view, paths_sorted};
use crate::readout::{
    battery_reading, fragment, fragment_of, get_batt, get_load_avgs, get_temp, load_reading,
    read_view, temp_reading, BatteryFiles, BatteryModel, LoadSample,
};
use crate::text::{join, join_texts, push_text, string_of, text_view, texts};
use vstd::prelude::*;

verus! {

/// How the names of the temperature monitors begin.
pub const HW_MON_PREFIX: &'static str = "hwmon";

/// How the names of the batteries begin.
pub const BATT_PREFIX: &'static str = "BAT";

/// The format of the time of a clock zone: hours and minutes.
pub const ZONE_FORMAT: &'static str = "%H:%M";

/// The format of the local time: ISO week number, day of the week, day,
/// month, hours and minutes, zone, year.
pub const LOCAL_FORMAT: &'static str = "KW %V %a %d %b %H:%M %Z %Y";

/// A clock zone: a label of one character and the name of a time zone.
pub struct ClockZone {
    pub label: char,
    pub name: String,
}

/// A `ClockZone` over mathematical values.
pub struct ZoneModel {
    pub label: char,
    pub name: Seq<char>,
}

impl View for ClockZone {
    type V = ZoneModel;

    open spec fn view(&self) -> ZoneModel {
        ZoneModel { label: self.label, name: self.name@ }
    }
}

/// The clock zone that a pair of a label and a name stands for.
pub open spec fn zone_model(tz: (char, &str)) -> ZoneModel {
    ZoneModel { label: tz.0, name: tz.1@ }
}

impl ClockZone {
    /// The clock zone of a pair of a label and a name.
    pub fn new(tz: &(char, &str)) -> (zone: ClockZone)
        ensures
            zone@ == zone_model(*tz),
    {
        ClockZone { label: tz.0, name: tz.1.to_owned() }
    }
}

/// The clock zones that pairs of a label and a name stand for.
pub open spec fn zone_models(tzs: Seq<(char, &str)>) -> Seq<ZoneModel> {
    tzs.map_values(|tz: (char, &str)| zone_model(tz))
}

/// The views of a sequence of clock zones.
pub open spec fn zones_view(zones: Seq<ClockZone>) -> Seq<ZoneModel> {
    zones.map_values(|z: ClockZone| z@)
}

/// The views of what reading a sequence of files gave.
pub open spec fn reads_view(reads: Seq<Result<String, String>>) -> Seq<
    Result<Seq<char>, Seq<char>>,
> {
    reads.map_values(|r: Result<String, String>| read_view(r))
}

/// The views of what reading the files of a sequence of batteries gave.
pub open spec fn files_view(files: Seq<BatteryFiles>) -> Seq<BatteryModel> {
    files.map_values(|f: BatteryFiles| f@)
}

/// The fields of `count` temperature monitors. The monitor at a position
/// shows what was read for that position; one for which nothing was read
/// shows an empty field.
pub open spec fn temperature_fragments(
    count: nat,
    reads: Seq<Result<Seq<char>, Seq<char>>>,
) -> Seq<Seq<char>> {
    Seq::new(
        count,
        |i: int|
            if i < reads.len() {
                fragment(temp_reading(reads[i]))
            } else {
                Seq::empty()
            },
    )
}

/// The fields of the batteries at `paths`. The battery at a position shows
/// what was read for that position; one for which nothing was read shows an
/// empty field.
pub open spec fn battery_fragments(paths: Seq<Seq<char>>, files: Seq<BatteryModel>) -> Seq<
    Seq<char>,
> {
    Seq::new(
        paths.len(),
        |i: int|
            if i < files.len() {
                fragment(battery_reading(paths[i], files[i]))
            } else {
                Seq::empty()
            },
    )
}

/// The temperatures of `count` monitors: their fields with `|` between each
/// two, and nothing where there is no monitor.
pub open spec fn temperatures_text(count: nat, reads: Seq<Result<Seq<char>, Seq<char>>>) -> Option<
    Seq<char>,
> {
    if count == 0 {
        None
    } else {
        Some(join(temperature_fragments(count, reads), "|"@))
    }
}

/// The charge of the batteries at `paths`: their fields with `|` between
/// each two, and nothing where there is no battery.
pub open spec fn batteries_text(paths: Seq<Seq<char>>, files: Seq<BatteryModel>) -> Option<
    Seq<char>,
> {
    if paths.len() == 0 {
        None
    } else {
        Some(join(battery_fragments(paths, files), "|"@))
    }
}

/// The field of a clock zone at an instant: its label, a colon, and the
/// time; the time is empty where the zone is not known.
pub open spec fn zone_fragment(zone: ZoneModel, at: Instant) -> Seq<char> {
    seq![zone.label, ':'] + fragment(zone_time(zone.name, at, ZONE_FORMAT@))
}

/// The times of an instant: the field of each clock zone, and last the local
/// time at `offset` seconds east of UTC, with a space between each two.
pub open spec fn times_text(zones: Seq<ZoneModel>, at: Instant, offset: int) -> Seq<char> {
    join(
        Seq::new(zones.len(), |i: int| zone_fragment(zones[i], at)).push(
            local_time(offset, at, LOCAL_FORMAT@),
        ),
        " "@,
    )
}

/// The times of two clock zones are the field of the first, the field of
/// the second and the local time, one space apart.
pub proof fn lemma_times_of_two_zones(zones: Seq<ZoneModel>, at: Instant, offset: int)
    requires
        zones.len() == 2,
    ensures
        times_text(zones, at, offset) == zone_fragment(zones[0], at) + " "@ + zone_fragment(
            zones[1],
            at,
        ) + " "@ + local_time(offset, at, LOCAL_FORMAT@),
{
    let local = local_time(offset, at, LOCAL_FORMAT@);
    let parts = Seq::new(zones.len(), |i: int| zone_fragment(zones[i], at)).push(local);
    let first = zone_fragment(zones[0], at);
    let second = zone_fragment(zones[1], at);
    assert(parts =~= seq![first, second, local]);
    assert(parts.drop_last() =~= seq![first, second]);
    assert(parts.drop_last().drop_last() =~= seq![first]);
    assert(join(seq![first], " "@) == first);
    assert(join(seq![first, second], " "@) == first + " "@ + second);
}

/// A field of the temperatures does not depend on what was read for another
/// monitor, and a monitor whose readout fails, as it does where its file
/// could not be read, shows an empty field.
pub proof fn lemma_temperature_isolation(
    count: nat,
    reads: Seq<Result<Seq<char>, Seq<char>>>,
    other: int,
    change: Result<Seq<char>, Seq<char>>,
    i: int,
)
    requires
        0 <= i < count,
        0 <= other < reads.len(),
        i != other,
    ensures
        temperature_fragments(count, reads.update(other, change))[i] == temperature_fragments(
            count,
            reads,
        )[i],
        i < reads.len() && reads[i] is Err ==> temp_reading(reads[i]) is Err,
        i < reads.len() && temp_reading(reads[i]) is Err ==> temperature_fragments(
            count,
            reads,
        )[i].len() == 0,
        i >= reads.len() ==> temperature_fragments(count, reads)[i].len() == 0,
{
}

/// A field of the batteries does not depend on what was read for another
/// battery, and a battery whose readout fails, as it does where its presence
/// file could not be read, shows an empty field, unless it fails because the
/// battery is not present.
pub proof fn lemma_battery_isolation(
    paths: Seq<Seq<char>>,
    files: Seq<BatteryModel>,
    other: int,
    change: BatteryModel,
    i: int,
)
    requires
        0 <= i < paths.len(),
        0 <= other < files.len(),
        i != other,
    ensures
        battery_fragments(paths, files.update(other, change))[i] == battery_fragments(
            paths,
            files,
        )[i],
        i < files.len() && files[i].present is Err ==> battery_reading(paths[i], files[i]) is Err
            && !(battery_reading(paths[i], files[i])->Err_0 is NotPresent),
        i < files.len() && battery_reading(paths[i], files[i]) is Err && !(battery_reading(
            paths[i],
            files[i],
        )->Err_0 is NotPresent) ==> battery_fragments(paths, files)[i].len() == 0,
        i >= files.len() ==> battery_fragments(paths, files)[i].len() == 0,
{
}

/// The paths of the devices and the clock zones of a status line.
pub struct RwmStatus {
    hw_mons: Vec<String>,
    batts: Vec<String>,
    tzs: Vec<ClockZone>,
}

impl RwmStatus {
    /// The paths of the temperature monitors.
    pub closed spec fn sensors(&self) -> Seq<Seq<char>> {
        texts(self.hw_mons@)
    }

    /// The paths of the batteries.
    pub closed spec fn batteries(&self) -> Seq<Seq<char>> {
        texts(self.batts@)
    }

    /// The clock zones.
    pub closed spec fn zones(&self) -> Seq<ZoneModel> {
        zones_view(self.tzs@)
    }

    /// The paths of each kind of device are sorted.
    #[verifier::type_invariant]
    spec fn well_formed(&self) -> bool {
        paths_sorted(texts(self.hw_mons@)) && paths_sorted(texts(self.batts@))
    }

    /// Collects the temperature monitors and the batteries from the listings
    /// of their directories, and takes the clock zones as they are given.
    pub fn new(
        hw_mon_path: &str,
        hw_mon_listing: &Option<Vec<Option<String>>>,
        batt_path: &str,
        batt_listing: &Option<Vec<Option<String>>>,
        tzs: &[(char, &str)],
    ) -> (status: RwmStatus)
        ensures
            paths_sorted(status.sensors()),
            status.sensors().to_multiset() == candidates(
                hw_mon_path@,
                HW_MON_PREFIX@,
                listing_view(*hw_mon_listing),
            ).to_multiset(),
            paths_sorted(status.batteries()),
            status.batteries().to_multiset() == candidates(
                batt_path@,
                BATT_PREFIX@,
                listing_view(*batt_listing),
            ).to_multiset(),
            status.zones() == zone_models(tzs@),
    {
        let hw_mons = get_paths(hw_mon_path, HW_MON_PREFIX, hw_mon_listing);
        let batts = get_paths(batt_path, BATT_PREFIX, batt_listing);
        let mut zones: Vec<ClockZone> = Vec::new();
        let mut i: usize = 0;
        while i < tzs.len()
            invariant
                i <= tzs.len(),
                zones_view(zones@) == zone_models(tzs@).take(i as int),
            decreases tzs.len() - i,
        {
            let ghost before = zones_view(zones@);
            let zone = ClockZone::new(&tzs[i]);
            let ghost model = zone@;
            zones.push(zone);
            assert(zones_view(zones@) =~= before.push(model));
            assert(zone_models(tzs@).take(i + 1) =~= zone_models(tzs@).take(i as int).push(
                model,
            ));
            i += 1;
        }
        assert(zone_models(tzs@).take(tzs.len() as int) == zone_models(tzs@));
        RwmStatus { hw_mons, batts, tzs: zones }
    }

    /// The paths of the temperature monitors, sorted.
    pub fn hw_mons(&self) -> (paths: &Vec<String>)
        ensures
            texts(paths@) == self.sensors(),
            paths_sorted(texts(paths@)),
    {
        proof {
            use_type_invariant(self);
        }
        &self.hw_mons
    }

    /// The paths of the batteries, sorted.
    pub fn batts(&self) -> (paths: &Vec<String>)
        ensures
            texts(paths@) == self.batteries(),
            paths_sorted(texts(paths@)),
    {
        proof {
            use_type_invariant(self);
        }
        &self.batts
    }

    /// The temperatures of all monitors with `|` between them, from what
    /// reading the file of each gave, in the order of the monitors; `None`
    /// where there is no monitor.
    pub fn get_temperatures(&self, reads: &Vec<Result<String, String>>) -> (r: Option<String>)
        ensures
            text_view(r) == temperatures_text(self.sensors().len(), reads_view(reads@)),
    {
        if self.hw_mons.len() == 0 {
            return None;
        }
        let ghost all = temperature_fragments(self.sensors().len(), reads_view(reads@));
        let mut parts: Vec<String> = Vec::new();
        let mut i: usize = 0;
        while i < self.hw_mons.len()
            invariant
                i <= self.hw_mons.len(),
                all == temperature_fragments(self.sensors().len(), reads_view(reads@)),
                self.sensors().len() == self.hw_mons.len(),
                texts(parts@) == all.take(i as int),
            decreases self.hw_mons.len() - i,
        {
            let ghost before = texts(parts@);
            let part = if i < reads.len() {
                fragment_of(get_temp(&reads[i]))
            } else {
                String::new()
            };
            parts.push(part);
            assert(texts(parts@) =~= before.push(part@));
            assert(all.take(i + 1) =~= all.take(i as int).push(part@));
            i += 1;
        }
        assert(all.take(self.hw_mons.len() as int) == all);
        Some(join_texts(&parts, "|"))
    }

    /// The load averages; empty where the query for them failed.
    pub fn get_load_avgs(&self, sample: &LoadSample) -> (s: String)
        ensures
            s@ == fragment(load_reading(*sample)),
    {
        fragment_of(get_load_avgs(sample))
    }

    /// The charge of all batteries with `|` between them, from what reading
    /// the files of each gave, in the order of the batteries; `None` where
    /// there is no battery.
    pub fn get_batteries(&self, files: &Vec<BatteryFiles>) -> (r: Option<String>)
        ensures
            text_view(r) == batteries_text(self.batteries(), files_view(files@)),
    {
        if self.batts.len() == 0 {
            return None;
        }
        let ghost all = battery_fragments(self.batteries(), files_view(files@));
        let mut parts: Vec<String> = Vec::new();
        let mut i: usize = 0;
        while i < self.batts.len()
            invariant
                i <= self.batts.len(),
                all == battery_fragments(self.batteries(), files_view(files@)),
                self.batteries() == texts(self.batts@),
                texts(parts@) == all.take(i as int),
            decreases self.batts.len() - i,
        {
            let ghost before = texts(parts@);
            let part = if i < files.len() {
                fragment_of(get_batt(self.batts[i].as_str(), &files[i]))
            } else {
                String::new()
            };
            parts.push(part);
            assert(texts(parts@) =~= before.push(part@));
            assert(all.take(i + 1) =~= all.take(i as int).push(part@));
            i += 1;
        }
        assert(all.take(self.batts.len() as int) == all);
        Some(join_texts(&parts, "|"))
    }

    /// The times of the instant `at`: that of each clock zone after its
    /// label, and last the local time at `offset` seconds east of UTC.
    pub fn times_at(&self, at: &Instant, offset: i32) -> (s: String)
        ensures
            s@ == times_text(self.zones(), *at, offset as int),
    {
        let ghost fields = Seq::new(self.zones().len(), |i: int| zone_fragment(self.zones()[i], *at));
        let mut parts: Vec<String> = Vec::new();
        let mut i: usize = 0;
        while i < self.tzs.len()
            invariant
                i <= self.tzs.len(),
                self.zones() == zones_view(self.tzs@),
                fields == Seq::new(self.zones().len(), |i: int| zone_fragment(self.zones()[i], *at)),
                texts(parts@) == fields.take(i as int),
            decreases self.tzs.len() - i,
        {
            let ghost before = texts(parts@);
            let zone = &self.tzs[i];
            let time = fragment_of(tz_time_at(zone.name.as_str(), ZONE_FORMAT, at));
            let mut field: Vec<char> = Vec::new();
            field.push(zone.label);
            field.push(':');
            push_text(&mut field, time.as_str());
            let part = string_of(&field);
            assert(part@ =~= zone_fragment(zone@, *at));
            parts.push(part);
            assert(texts(parts@) =~= before.push(part@));
            assert(fields.take(i + 1) =~= fields.take(i as int).push(part@));
            i += 1;
        }
        assert(fields.take(self.tzs.len() as int) == fields);
        let ghost before = texts(parts@);
        let local = local_time_at(LOCAL_FORMAT, at, offset);
        parts.push(local);
        assert(texts(parts@) =~= before.push(local@));
        join_texts(&parts, " ")
    }

    /// The times of now: that of each clock zone after its label, and last
    /// the local time.
    pub fn get_times(&self) -> (s: String)
        ensures
            exists|at: Instant, offset: int|
                -86_400 < offset < 86_400 && s@ == times_text(self.zones(), at, offset),
    {
        let at = Instant::now();
        let offset: i32 = at.local_offset();
        let s = self.times_at(&at, offset);
        assert(-86_400 < offset < 86_400 && s@ == times_text(self.zones(), at, offset as int));
        s
    }
}

} // verus!
