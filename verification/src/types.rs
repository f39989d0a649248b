//! Data model of the solar tracker.
//!
//! Every angle is a whole number of millionths of a degree, held in an `i64`.
//! Times of day are whole minutes since midnight, held in an `i32`.

use vstd::prelude::*;

verus! {

/// Millionths in one unit: the scale of every fixed-point quantity.
pub const MICRO: i64 = 1_000_000;

/// A full turn, 360 degrees.
pub const FULL_TURN: i64 = 360_000_000;

/// Half a turn, 180 degrees.
pub const HALF_TURN: i64 = 180_000_000;

/// A quarter turn, 90 degrees.
pub const QUARTER_TURN: i64 = 90_000_000;

/// The last minute of a day.
pub const LAST_MINUTE: i32 = 1439;

/// Minutes in a day.
pub const MINUTES_PER_DAY: i32 = 1440;

/// Local solar noon, in minutes since midnight.
pub const SOLAR_NOON: i32 = 720;

/// A season of the year, as the panel's hemisphere has it.
#[derive(Debug, Clone, Copy, PartialEq, Eq, Hash, Structural)]
pub enum Season {
    Summer,
    Winter,
    Spring,
    Fall,
}

/// The sun's apparent position at one instant.
///
/// The angles are in millionths of a degree, `equation_of_time` in
/// millionths of a minute and `local_solar_time` in millionths of an hour.
#[derive(Debug, Clone, Copy, PartialEq, Eq)]
pub struct SolarPosition {
    pub day_of_year: i32,
    pub declination: i64,
    pub equation_of_time: i64,
    pub local_solar_time: i64,
    pub hour_angle: i64,
    pub zenith: i64,
    pub altitude: i64,
    pub azimuth: i64,
}

/// The two angles a dual-axis tracker needs to face the sun.
#[derive(Debug, Clone, Copy, PartialEq, Eq)]
pub struct DualAxisAngles {
    pub tilt: i64,
    pub panel_azimuth: i64,
}

/// Sunrise and sunset of one day, in minutes since midnight.
#[derive(Debug, Clone, Copy, PartialEq, Eq, Structural)]
pub struct SunriseSunset {
    pub sunrise: i32,
    pub sunset: i32,
}

/// One sample of a single-axis table.
#[derive(Debug, Clone, Copy, PartialEq, Eq)]
pub struct SingleAxisEntry {
    pub minutes: i32,
    pub rotation: Option<i64>,
}

/// One sample of a dual-axis table.
#[derive(Debug, Clone, Copy, PartialEq, Eq)]
pub struct DualAxisEntry {
    pub minutes: i32,
    pub tilt: Option<i64>,
    pub panel_azimuth: Option<i64>,
}

/// What every kind of table entry offers: its minute of the day, and
/// whether its angles are there.
pub trait HasMinutes: Sized {
    /// The entry's minute of the day.
    spec fn spec_minutes(&self) -> int;

    /// Every angle of the entry is present.
    spec fn has_angles(&self) -> bool;

    /// Every angle of the entry is absent.
    spec fn lacks_angles(&self) -> bool;

    fn minutes(&self) -> (m: i32)
        ensures
            m == self.spec_minutes(),
    ;
}

impl HasMinutes for SingleAxisEntry {
    open spec fn spec_minutes(&self) -> int {
        self.minutes as int
    }

    open spec fn has_angles(&self) -> bool {
        self.rotation is Some
    }

    open spec fn lacks_angles(&self) -> bool {
        self.rotation is None
    }

    fn minutes(&self) -> (m: i32) {
        self.minutes
    }
}

impl HasMinutes for DualAxisEntry {
    open spec fn spec_minutes(&self) -> int {
        self.minutes as int
    }

    open spec fn has_angles(&self) -> bool {
        self.tilt is Some && self.panel_azimuth is Some
    }

    open spec fn lacks_angles(&self) -> bool {
        self.tilt is None && self.panel_azimuth is None
    }

    fn minutes(&self) -> (m: i32) {
        self.minutes
    }
}

/// One calendar day of a table.
///
/// `sunrise_minutes` and `sunset_minutes` are in the time frame of the
/// entries' minutes, so that the row alone tells which entries are in
/// daylight.
#[derive(Debug, Clone, PartialEq)]
pub struct DayData<E> {
    pub day_of_year: i32,
    pub sunrise_minutes: i32,
    pub sunset_minutes: i32,
    pub entries: Vec<E>,
}

impl<E: HasMinutes> DayData<E> {
    /// The minute of the row's `k`-th entry.
    pub open spec fn minute_at(&self, k: int) -> int {
        self.entries[k].spec_minutes()
    }

    /// The entries are one sampling interval apart, starting at a multiple
    /// of the interval, and none is later than the last minute of the day.
    pub open spec fn evenly_sampled(&self, interval: int) -> bool {
        &&& interval > 0
        &&& forall|k: int|
            0 <= k < self.entries.len() ==> {
                &&& #[trigger] self.minute_at(k) == self.minute_at(0) + k * interval
                &&& 0 <= self.minute_at(k) <= LAST_MINUTE
            }
        &&& self.entries.len() > 0 ==> self.minute_at(0) % interval == 0
    }

    /// Entry minutes grow strictly along the row.
    pub open spec fn strictly_increasing(&self) -> bool {
        forall|i: int, j: int|
            0 <= i < j < self.entries.len() ==> #[trigger] self.minute_at(i) < #[trigger] self.minute_at(j)
    }

    /// An entry carries its angles exactly when its minute lies between the
    /// row's sunrise and sunset, both included.
    pub open spec fn daylight_consistent(&self) -> bool {
        forall|k: int|
            0 <= k < self.entries.len() ==> {
                let e = #[trigger] self.entries[k];
                let lit = self.sunrise_minutes <= e.spec_minutes() <= self.sunset_minutes;
                &&& lit ==> e.has_angles()
                &&& !lit ==> e.lacks_angles()
            }
    }
}

/// Facts about a table as a whole.
///
/// `generated_at` is a UTC timestamp; `storage_estimate_bytes` is a size
/// hint, the entry count times the bytes one entry takes.
#[derive(Debug, Clone, PartialEq, Eq)]
pub struct TableMetadata {
    pub generated_at: String,
    pub total_entries: usize,
    pub storage_estimate_bytes: u64,
}

/// What a table is generated from.
///
/// `latitude`, `longitude` and `std_meridian` are in millionths of a
/// degree. `std_meridian` is the meridian of the local standard time for a
/// table kept in local time, and `None` for one kept in UTC.
#[derive(Debug, Clone, Copy, PartialEq, Eq)]
pub struct LookupTableConfig {
    pub interval_minutes: i32,
    pub latitude: i64,
    pub longitude: i64,
    pub std_meridian: Option<i64>,
    pub year: i32,
    pub sunrise_buffer_minutes: i32,
    pub sunset_buffer_minutes: i32,
}

impl Default for LookupTableConfig {
    fn default() -> (c: Self)
        ensures
            c.interval_minutes == 5,
            c.latitude == 39_800_000,
            c.longitude == -89_600_000,
            c.std_meridian == Some(-90_000_000i64),
            c.year == 2026,
            c.sunrise_buffer_minutes == 30,
            c.sunset_buffer_minutes == 30,
    {
        LookupTableConfig {
            interval_minutes: 5,
            latitude: 39_800_000,
            longitude: -89_600_000,
            std_meridian: Some(-90_000_000),
            year: 2026,
            sunrise_buffer_minutes: 30,
            sunset_buffer_minutes: 30,
        }
    }
}

/// A year of precomputed angles: one row per calendar day.
#[derive(Debug, Clone, PartialEq)]
pub struct LookupTable<E> {
    pub config: LookupTableConfig,
    pub days: Vec<DayData<E>>,
    pub metadata: TableMetadata,
}

/// A table of tracker rotations.
pub type SingleAxisTable = LookupTable<SingleAxisEntry>;

/// A table of tilts and panel azimuths.
pub type DualAxisTable = LookupTable<DualAxisEntry>;

/// The number of entries in the first `n` rows.
pub open spec fn entries_in<E>(days: Seq<DayData<E>>, n: int) -> int
    decreases n,
{
    if n <= 0 {
        0
    } else {
        entries_in(days, n - 1) + days[n - 1].entries.len()
    }
}

/// The count over the first `n` rows looks at those rows only.
pub proof fn lemma_entries_in_prefix<E>(a: Seq<DayData<E>>, b: Seq<DayData<E>>, n: int)
    requires
        0 <= n <= a.len(),
        n <= b.len(),
        forall|i: int| 0 <= i < n ==> a[i] == b[i],
    ensures
        entries_in(a, n) == entries_in(b, n),
    decreases n,
{
    if n > 0 {
        lemma_entries_in_prefix(a, b, n - 1);
    }
}

/// A table with an entry in some row has a positive entry count.
pub proof fn lemma_entries_in_positive<E>(days: Seq<DayData<E>>, n: int, d: int)
    requires
        0 <= d < n <= days.len(),
        days[d].entries.len() > 0,
    ensures
        entries_in(days, n) > 0,
    decreases n,
{
    if d < n - 1 {
        lemma_entries_in_positive(days, n - 1, d);
    } else {
        lemma_entries_in_nonnegative(days, n - 1);
    }
}

/// No prefix of the rows has a negative entry count.
proof fn lemma_entries_in_nonnegative<E>(days: Seq<DayData<E>>, n: int)
    ensures
        entries_in(days, n) >= 0,
    decreases n,
{
    if n > 0 {
        lemma_entries_in_nonnegative(days, n - 1);
    }
}

/// The entries of an evenly sampled row are in strictly ascending order of
/// minute: no minute occurs twice.
pub proof fn lemma_evenly_sampled_increasing<E: HasMinutes>(row: DayData<E>, interval: int)
    requires
        row.evenly_sampled(interval),
    ensures
        row.strictly_increasing(),
{
    assert forall|i: int, j: int| 0 <= i < j < row.entries.len() implies #[trigger] row.minute_at(i)
        < #[trigger] row.minute_at(j) by {
        assert(i * interval < j * interval) by (nonlinear_arith)
            requires
                i < j,
                interval > 0,
        ;
    }
}

impl<E: HasMinutes> DayData<E> {
    /// Tells whether the row is evenly sampled at `interval_minutes`.
    pub fn is_evenly_sampled(&self, interval_minutes: i32) -> (ok: bool)
        ensures
            ok == self.evenly_sampled(interval_minutes as int),
    {
        if interval_minutes <= 0 {
            return false;
        }
        let n = self.entries.len();
        if n == 0 {
            return true;
        }
        let first: i32 = self.entries[0].minutes();
        assert(self.minute_at(0) == first);
        if first < 0 || first > LAST_MINUTE || first % interval_minutes != 0 {
            assert(self.minute_at(0) == self.minute_at(0) + 0 * interval_minutes);
            return false;
        }
        let mut expected: i64 = first as i64;
        let mut k: usize = 0;
        while k < n
            invariant
                n == self.entries.len(),
                0 <= k <= n,
                interval_minutes > 0,
                first == self.minute_at(0),
                0 <= first <= LAST_MINUTE,
                first % interval_minutes == 0,
                expected == first + k * interval_minutes,
                k < n ==> expected <= LAST_MINUTE + interval_minutes,
                forall|j: int|
                    0 <= j < k ==> {
                        &&& #[trigger] self.minute_at(j) == first + j * interval_minutes
                        &&& 0 <= self.minute_at(j) <= LAST_MINUTE
                    },
            decreases n - k,
        {
            let minute: i32 = self.entries[k].minutes();
            assert(self.minute_at(k as int) == minute);
            if minute as i64 != expected || minute < 0 || minute > LAST_MINUTE {
                return false;
            }
            assert((k + 1) * interval_minutes == k * interval_minutes + interval_minutes)
                by (nonlinear_arith);
            expected = expected + interval_minutes as i64;
            k = k + 1;
        }
        true
    }
}

impl<E: HasMinutes> LookupTable<E> {
    /// Every row is evenly sampled at the configured interval.
    pub open spec fn well_formed(&self) -> bool {
        forall|d: int|
            0 <= d < self.days.len() ==> (#[trigger] self.days[d]).evenly_sampled(
                self.config.interval_minutes as int,
            )
    }

    /// Tells whether the table is well formed, as every generated table
    /// is.
    pub fn is_well_formed(&self) -> (ok: bool)
        ensures
            ok == self.well_formed(),
    {
        let mut d: usize = 0;
        while d < self.days.len()
            invariant
                0 <= d <= self.days.len(),
                forall|i: int|
                    0 <= i < d ==> (#[trigger] self.days[i]).evenly_sampled(
                        self.config.interval_minutes as int,
                    ),
            decreases self.days.len() - d,
        {
            if !self.days[d].is_evenly_sampled(self.config.interval_minutes) {
                return false;
            }
            d = d + 1;
        }
        true
    }
}

} // verus!
