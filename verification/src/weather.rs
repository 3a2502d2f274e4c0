use vstd::prelude::*;

use crate::time::{hour_instant, hour_start, UtcTime};

verus! {

/// The value that an optional hourly series holds at `index`: nothing when
/// the series is missing, shorter than `index`, or has a gap there.
pub open spec fn value_at<T>(values: Option<Vec<Option<T>>>, index: int) -> Option<T> {
    match values {
        Some(v) => if 0 <= index < v@.len() {
            v@[index]
        } else {
            None
        },
        None => None,
    }
}

/// An hour of a series is the series' entry at that position: present only
/// where the series is, reaches that far, and has a value there.
pub proof fn value_at_is_the_entry_at_the_index<T>(values: Option<Vec<Option<T>>>, index: int)
    ensures
        values is None ==> value_at(values, index) is None,
        values is Some && (index < 0 || index >= values->0@.len()) ==> value_at(values, index) is None,
        values is Some && 0 <= index < values->0@.len() ==> value_at(values, index)
            == values->0@[index],
{
}

/// Reads one hour of an optional hourly series.
pub fn at<T: Copy>(values: &Option<Vec<Option<T>>>, index: usize) -> (r: Option<T>)
    ensures
        r == value_at(*values, index as int),
{
    match values {
        Some(v) => if index < v.len() {
            v[index]
        } else {
            None
        },
        None => None,
    }
}

/// The hourly block of one Open-Meteo forecast reply: the hour labels and,
/// for each requested variable, an optional series with possible gaps.
/// `M` is the type of a measured quantity.
#[derive(Clone, Debug)]
pub struct RawHourly<M> {
    pub time: Vec<String>,
    pub temperature_2m: Option<Vec<Option<M>>>,
    pub apparent_temperature: Option<Vec<Option<M>>>,
    pub dew_point_2m: Option<Vec<Option<M>>>,
    pub precipitation: Option<Vec<Option<M>>>,
    pub precipitation_probability: Option<Vec<Option<M>>>,
    pub rain: Option<Vec<Option<M>>>,
    pub showers: Option<Vec<Option<M>>>,
    pub snowfall: Option<Vec<Option<M>>>,
    pub snow_depth: Option<Vec<Option<M>>>,
    pub weather_code: Option<Vec<Option<i32>>>,
    pub cloud_cover: Option<Vec<Option<M>>>,
    pub visibility: Option<Vec<Option<M>>>,
    pub wind_speed_10m: Option<Vec<Option<M>>>,
    pub wind_gusts_10m: Option<Vec<Option<M>>>,
    pub wind_direction_10m: Option<Vec<Option<M>>>,
    pub freezing_level_height: Option<Vec<Option<M>>>,
    pub cape: Option<Vec<Option<M>>>,
    pub uv_index: Option<Vec<Option<M>>>,
    pub relative_humidity_2m: Option<Vec<Option<M>>>,
    pub surface_pressure: Option<Vec<Option<M>>>,
    pub pressure_msl: Option<Vec<Option<M>>>,
    pub is_day: Option<Vec<Option<i32>>>,
    pub sunshine_duration: Option<Vec<Option<M>>>,
    pub direct_radiation: Option<Vec<Option<M>>>,
}

/// One Open-Meteo forecast reply for a single location.
#[derive(Clone, Debug)]
pub struct RawForecast<M> {
    pub elevation: Option<M>,
    pub timezone: String,
    pub hourly: RawHourly<M>,
}

/// The forecast for one hour at one location.
#[derive(Clone, Copy, Debug)]
pub struct ForecastHour<M> {
    pub time: UtcTime,
    pub temperature_c: Option<M>,
    pub apparent_temperature_c: Option<M>,
    pub dew_point_c: Option<M>,
    pub precipitation_mm: Option<M>,
    pub precipitation_probability_pct: Option<M>,
    pub rain_mm: Option<M>,
    pub showers_mm: Option<M>,
    pub snowfall_cm: Option<M>,
    pub snow_depth_m: Option<M>,
    pub weather_code: Option<i32>,
    pub cloud_cover_pct: Option<M>,
    pub visibility_m: Option<M>,
    pub wind_speed_kmh: Option<M>,
    pub wind_gust_kmh: Option<M>,
    pub wind_direction_deg: Option<M>,
    pub freezing_level_m: Option<M>,
    pub cape_jkg: Option<M>,
    pub uv_index: Option<M>,
    pub relative_humidity_pct: Option<M>,
    pub surface_pressure_hpa: Option<M>,
    pub pressure_msl_hpa: Option<M>,
    pub is_day: Option<i32>,
    pub sunshine_duration_s: Option<M>,
    pub direct_radiation_wm2: Option<M>,
}

/// The forecast for one location: the provider's elevation, its time zone
/// and the hours whose labels could be read.
#[derive(Clone, Debug)]
pub struct PointWeather<M> {
    pub elevation_m: Option<M>,
    pub timezone: String,
    pub hours: Vec<ForecastHour<M>>,
}

/// The forecast hour at index `i` of an hourly block, stamped `time`: each
/// variable is the block's value at that same index.
pub open spec fn hour_from<M>(raw: RawHourly<M>, i: int, time: UtcTime) -> ForecastHour<M> {
    ForecastHour {
        time,
        temperature_c: value_at(raw.temperature_2m, i),
        apparent_temperature_c: value_at(raw.apparent_temperature, i),
        dew_point_c: value_at(raw.dew_point_2m, i),
        precipitation_mm: value_at(raw.precipitation, i),
        precipitation_probability_pct: value_at(raw.precipitation_probability, i),
        rain_mm: value_at(raw.rain, i),
        showers_mm: value_at(raw.showers, i),
        snowfall_cm: value_at(raw.snowfall, i),
        snow_depth_m: value_at(raw.snow_depth, i),
        weather_code: value_at(raw.weather_code, i),
        cloud_cover_pct: value_at(raw.cloud_cover, i),
        visibility_m: value_at(raw.visibility, i),
        wind_speed_kmh: value_at(raw.wind_speed_10m, i),
        wind_gust_kmh: value_at(raw.wind_gusts_10m, i),
        wind_direction_deg: value_at(raw.wind_direction_10m, i),
        freezing_level_m: value_at(raw.freezing_level_height, i),
        cape_jkg: value_at(raw.cape, i),
        uv_index: value_at(raw.uv_index, i),
        relative_humidity_pct: value_at(raw.relative_humidity_2m, i),
        surface_pressure_hpa: value_at(raw.surface_pressure, i),
        pressure_msl_hpa: value_at(raw.pressure_msl, i),
        is_day: value_at(raw.is_day, i),
        sunshine_duration_s: value_at(raw.sunshine_duration, i),
        direct_radiation_wm2: value_at(raw.direct_radiation, i),
    }
}

/// The forecast hours made from the first `n` labels of an hourly block, in
/// order: one for each label that reads as an hour, none for the others.
pub open spec fn hours_upto<M>(raw: RawHourly<M>, n: nat) -> Seq<ForecastHour<M>>
    decreases n,
{
    if n == 0 {
        seq![]
    } else {
        let before = hours_upto(raw, (n - 1) as nat);
        match hour_instant(raw.time@[n - 1]@) {
            Some(t) => before.push(hour_from(raw, n - 1, t)),
            None => before,
        }
    }
}

/// A reply never yields more forecast hours than it has labels.
pub proof fn hours_at_most_labels<M>(raw: RawHourly<M>, n: nat)
    ensures
        hours_upto(raw, n).len() <= n,
    decreases n,
{
    if n > 0 {
        hours_at_most_labels(raw, (n - 1) as nat);
    }
}

/// The positions, among the first `n` labels, of those that read as hours,
/// in increasing order.
pub open spec fn readable_indices<M>(raw: RawHourly<M>, n: nat) -> Seq<int>
    decreases n,
{
    if n == 0 {
        seq![]
    } else {
        let before = readable_indices(raw, (n - 1) as nat);
        if hour_instant(raw.time@[n - 1]@) is Some {
            before.push(n - 1)
        } else {
            before
        }
    }
}

/// `readable_indices` lists exactly the labels below `n` that read as hours,
/// each once, in increasing order.
pub proof fn readable_indices_are_the_readable_labels<M>(raw: RawHourly<M>, n: nat)
    ensures
        forall|a: int, b: int|
            0 <= a < b < readable_indices(raw, n).len() ==> readable_indices(raw, n)[a]
                < readable_indices(raw, n)[b],
        forall|k: int|
            0 <= k < readable_indices(raw, n).len() ==> 0 <= #[trigger] readable_indices(raw, n)[k]
                < n && hour_instant(raw.time@[readable_indices(raw, n)[k]]@) is Some,
        forall|i: int|
            0 <= i < n && (#[trigger] hour_instant(raw.time@[i]@)) is Some ==> exists|k: int|
                0 <= k < readable_indices(raw, n).len() && readable_indices(raw, n)[k] == i,
    decreases n,
{
    if n > 0 {
        let m = (n - 1) as nat;
        readable_indices_are_the_readable_labels(raw, m);
        let before = readable_indices(raw, m);
        let now = readable_indices(raw, n);
        assert forall|i: int|
            0 <= i < n && (#[trigger] hour_instant(raw.time@[i]@)) is Some implies exists|k: int|
                0 <= k < now.len() && now[k] == i by {
            if i < n - 1 {
                let k = choose|k: int| 0 <= k < before.len() && before[k] == i;
                assert(now[k] == i);
            } else {
                assert(now[now.len() - 1] == i);
            }
        }
    }
}

/// The hours of the first `n` labels are the hours made at the readable
/// positions, one for one.
proof fn hours_at_readable_indices<M>(raw: RawHourly<M>, n: nat)
    ensures
        hours_upto(raw, n).len() == readable_indices(raw, n).len(),
        forall|k: int|
            0 <= k < hours_upto(raw, n).len() ==> #[trigger] hours_upto(raw, n)[k] == hour_from(
                raw,
                readable_indices(raw, n)[k],
                hour_instant(raw.time@[readable_indices(raw, n)[k]]@)->0,
            ),
    decreases n,
{
    if n > 0 {
        hours_at_readable_indices(raw, (n - 1) as nat);
    }
}

/// What a converted forecast holds, field by field: the reply's elevation
/// and time zone, and one hour per readable label, in label order, stamped
/// with the instant its label names, each variable taken from the reply's
/// series of the same name at that label's position.
pub proof fn converted_hours_take_their_own_index<M>(raw: RawForecast<M>, p: PointWeather<M>)
    requires
        converts_to(raw, p),
    ensures
        p.elevation_m == raw.elevation,
        p.timezone == raw.timezone,
        p.hours@.len() == readable_indices(raw.hourly, raw.hourly.time@.len()).len(),
        forall|k: int| 0 <= k < p.hours@.len() ==> {
            let i = readable_indices(raw.hourly, raw.hourly.time@.len())[k];
            let h = #[trigger] p.hours@[k];
            &&& 0 <= i < raw.hourly.time@.len()
            &&& hour_instant(raw.hourly.time@[i]@) == Some(h.time)
                &&& h.temperature_c == value_at(raw.hourly.temperature_2m, i)
                &&& h.apparent_temperature_c == value_at(raw.hourly.apparent_temperature, i)
                &&& h.dew_point_c == value_at(raw.hourly.dew_point_2m, i)
                &&& h.precipitation_mm == value_at(raw.hourly.precipitation, i)
                &&& h.precipitation_probability_pct == value_at(raw.hourly.precipitation_probability, i)
                &&& h.rain_mm == value_at(raw.hourly.rain, i)
                &&& h.showers_mm == value_at(raw.hourly.showers, i)
                &&& h.snowfall_cm == value_at(raw.hourly.snowfall, i)
                &&& h.snow_depth_m == value_at(raw.hourly.snow_depth, i)
                &&& h.weather_code == value_at(raw.hourly.weather_code, i)
                &&& h.cloud_cover_pct == value_at(raw.hourly.cloud_cover, i)
                &&& h.visibility_m == value_at(raw.hourly.visibility, i)
                &&& h.wind_speed_kmh == value_at(raw.hourly.wind_speed_10m, i)
                &&& h.wind_gust_kmh == value_at(raw.hourly.wind_gusts_10m, i)
                &&& h.wind_direction_deg == value_at(raw.hourly.wind_direction_10m, i)
                &&& h.freezing_level_m == value_at(raw.hourly.freezing_level_height, i)
                &&& h.cape_jkg == value_at(raw.hourly.cape, i)
                &&& h.uv_index == value_at(raw.hourly.uv_index, i)
                &&& h.relative_humidity_pct == value_at(raw.hourly.relative_humidity_2m, i)
                &&& h.surface_pressure_hpa == value_at(raw.hourly.surface_pressure, i)
                &&& h.pressure_msl_hpa == value_at(raw.hourly.pressure_msl, i)
                &&& h.is_day == value_at(raw.hourly.is_day, i)
                &&& h.sunshine_duration_s == value_at(raw.hourly.sunshine_duration, i)
                &&& h.direct_radiation_wm2 == value_at(raw.hourly.direct_radiation, i)
            },
{
    let n = raw.hourly.time@.len();
    hours_at_readable_indices(raw.hourly, n);
    readable_indices_are_the_readable_labels(raw.hourly, n);
}

/// `p` is the forecast that reply `raw` converts to.
pub open spec fn converts_to<M>(raw: RawForecast<M>, p: PointWeather<M>) -> bool {
    &&& p.elevation_m == raw.elevation
    &&& p.timezone == raw.timezone
    &&& p.hours@ == hours_upto(raw.hourly, raw.hourly.time@.len())
}

/// Turns one forecast reply into the forecast for its location. Hours whose
/// label cannot be read are left out; the others keep their order and take
/// each variable from their own index.
pub fn convert<M: Copy>(raw: RawForecast<M>) -> (r: PointWeather<M>)
    ensures
        converts_to(raw, r),
{
    let ghost raw0 = raw;
    let RawForecast { elevation, timezone, hourly } = raw;
    let n = hourly.time.len();
    let mut hours: Vec<ForecastHour<M>> = Vec::new();
    for i in 0..n
        invariant
            n == hourly.time@.len(),
            hourly == raw0.hourly,
            hours@ == hours_upto(hourly, i as nat),
    {
        match hour_start(hourly.time[i].as_str()) {
            Some(time) => {
                hours.push(ForecastHour {
                    time,
                    temperature_c: at(&hourly.temperature_2m, i),
                    apparent_temperature_c: at(&hourly.apparent_temperature, i),
                    dew_point_c: at(&hourly.dew_point_2m, i),
                    precipitation_mm: at(&hourly.precipitation, i),
                    precipitation_probability_pct: at(&hourly.precipitation_probability, i),
                    rain_mm: at(&hourly.rain, i),
                    showers_mm: at(&hourly.showers, i),
                    snowfall_cm: at(&hourly.snowfall, i),
                    snow_depth_m: at(&hourly.snow_depth, i),
                    weather_code: at(&hourly.weather_code, i),
                    cloud_cover_pct: at(&hourly.cloud_cover, i),
                    visibility_m: at(&hourly.visibility, i),
                    wind_speed_kmh: at(&hourly.wind_speed_10m, i),
                    wind_gust_kmh: at(&hourly.wind_gusts_10m, i),
                    wind_direction_deg: at(&hourly.wind_direction_10m, i),
                    freezing_level_m: at(&hourly.freezing_level_height, i),
                    cape_jkg: at(&hourly.cape, i),
                    uv_index: at(&hourly.uv_index, i),
                    relative_humidity_pct: at(&hourly.relative_humidity_2m, i),
                    surface_pressure_hpa: at(&hourly.surface_pressure, i),
                    pressure_msl_hpa: at(&hourly.pressure_msl, i),
                    is_day: at(&hourly.is_day, i),
                    sunshine_duration_s: at(&hourly.sunshine_duration, i),
                    direct_radiation_wm2: at(&hourly.direct_radiation, i),
                });
            },
            None => {},
        }
    }
    PointWeather { elevation_m: elevation, timezone, hours }
}


/// Locations per forecast request.
pub const FORECAST_BATCH: usize = 40;

/// The hourly variables asked of Open-Meteo, in the order of its reply.
pub const HOURLY_VARIABLES: &'static str = "temperature_2m,apparent_temperature,dew_point_2m,precipitation,precipitation_probability,rain,showers,snowfall,snow_depth,weather_code,cloud_cover,visibility,wind_speed_10m,wind_gusts_10m,wind_direction_10m,freezing_level_height,cape,uv_index,relative_humidity_2m,surface_pressure,pressure_msl,is_day,sunshine_duration,direct_radiation";

/// The `k`-th batch of `count` locations, as a half-open index range: forty
/// locations each, the last one taking what is left.
pub open spec fn batch_bounds(count: int, k: int) -> (int, int) {
    (40 * k, if 40 * k + 40 <= count { 40 * k + 40 } else { count })
}

/// Splits `count` locations into the batches that are requested one at a
/// time: as few as hold them all, each a range of at most forty, in order.
pub fn forecast_chunks(count: usize) -> (r: Vec<(usize, usize)>)
    ensures
        40 * r@.len() >= count,
        r@.len() == 0 || 40 * (r@.len() - 1) < count,
        forall|k: int|
            0 <= k < r@.len() ==> (#[trigger] r@[k].0 as int, r@[k].1 as int) == batch_bounds(
                count as int,
                k,
            ),
{
    let mut r: Vec<(usize, usize)> = Vec::new();
    let mut start: usize = 0;
    while start < count
        invariant
            start <= count,
            start < count ==> start == 40 * r@.len(),
            start == count ==> 40 * r@.len() >= count,
            r@.len() == 0 || 40 * (r@.len() - 1) < count,
            forall|k: int|
                0 <= k < r@.len() ==> (#[trigger] r@[k].0 as int, r@[k].1 as int)
                    == batch_bounds(count as int, k),
        decreases count - start,
    {
        let end = if count - start > FORECAST_BATCH {
            start + FORECAST_BATCH
        } else {
            count
        };
        r.push((start, end));
        start = end;
    }
    r
}

/// Every location falls in exactly one batch: the one numbered by its index
/// divided by forty.
pub proof fn batches_cover_locations(count: int, i: int)
    requires
        0 <= i < count,
    ensures
        batch_bounds(count, i / 40).0 <= i < batch_bounds(count, i / 40).1,
        forall|k: int| #![trigger batch_bounds(count, k)]
            0 <= k && k != i / 40 ==> !(batch_bounds(count, k).0 <= i < batch_bounds(count, k).1),
{
    assert forall|k: int| #![trigger batch_bounds(count, k)]
        0 <= k && k != i / 40 implies !(batch_bounds(count, k).0 <= i < batch_bounds(count, k).1) by {
    }
}

/// How many locations the first `m` batches of `count` locations hold.
pub open spec fn batches_size(count: int, m: nat) -> int
    decreases m,
{
    if m == 0 {
        0
    } else {
        batches_size(count, (m - 1) as nat) + batch_bounds(count, m - 1).1 - batch_bounds(
            count,
            m - 1,
        ).0
    }
}

/// The first batches, as long as none before the last is empty, hold forty
/// locations each, or all there are.
proof fn batches_size_prefix(count: int, j: nat)
    requires
        count >= 0,
        j == 0 || 40 * (j - 1) < count,
    ensures
        batches_size(count, j) == if 40 * j <= count {
            40 * (j as int)
        } else {
            count
        },
    decreases j,
{
    if j > 0 {
        batches_size_prefix(count, (j - 1) as nat);
    }
}

/// The batches that `forecast_chunks` plans hold all locations together:
/// once every batch is answered, there is one forecast per location.
pub proof fn batches_hold_all_locations(count: int, m: nat)
    requires
        count >= 0,
        40 * m >= count,
        m == 0 || 40 * (m - 1) < count,
    ensures
        batches_size(count, m) == count,
{
    batches_size_prefix(count, m);
}

/// How often `c` occurs in `s`.
pub open spec fn count_char(s: Seq<char>, c: char) -> nat
    decreases s.len(),
{
    if s.len() == 0 {
        0
    } else {
        count_char(s.drop_last(), c) + if s.last() == c {
            1nat
        } else {
            0nat
        }
    }
}

/// How often `c` occurs in the first `k` parts together.
pub open spec fn count_in_parts(parts: Seq<Seq<char>>, k: int, c: char) -> nat
    decreases k,
{
    if k <= 0 {
        0
    } else {
        count_in_parts(parts, k - 1, c) + count_char(parts[k - 1], c)
    }
}

/// Occurrences add up over a concatenation.
pub proof fn count_char_concat(a: Seq<char>, b: Seq<char>, c: char)
    ensures
        count_char(a + b, c) == count_char(a, c) + count_char(b, c),
    decreases b.len(),
{
    if b.len() > 0 {
        count_char_concat(a, b.drop_last(), c);
        assert((a + b).drop_last() =~= a + b.drop_last());
    } else {
        assert(a + b =~= a);
    }
}

/// Joining puts a comma between each part and the next, and nowhere else:
/// one part is itself, and a part added at the end follows the join of the
/// others after a comma.
pub proof fn comma_join_adds_one_comma_per_part(parts: Seq<Seq<char>>, x: Seq<char>)
    ensures
        comma_join(seq![x]) == x,
        comma_join(Seq::<Seq<char>>::empty()) == Seq::<char>::empty(),
        parts.len() >= 1 ==> comma_join(parts.push(x)) == comma_join(parts) + seq![','] + x,
{
    reveal_strlit(",");
    assert(parts.push(x).drop_last() =~= parts);
    assert(","@ =~= seq![',']);
}

/// The join of `n >= 1` parts holds exactly `n - 1` commas besides those in
/// the parts.
pub proof fn comma_join_comma_count(parts: Seq<Seq<char>>)
    requires
        parts.len() >= 1,
    ensures
        count_char(comma_join(parts), ',') == count_in_parts(parts, parts.len() as int, ',') + parts.len()
            - 1,
    decreases parts.len(),
{
    reveal_strlit(",");
    if parts.len() == 1 {
        assert(count_in_parts(parts, 0, ',') == 0);
    } else {
        let init = parts.drop_last();
        comma_join_comma_count(init);
        count_char_concat(comma_join(init), ","@, ',');
        count_char_concat(comma_join(init) + ","@, parts.last(), ',');
        assert(count_char(","@, ',') == 1) by {
            reveal_strlit(",");
            assert(","@ =~= seq![',']);
            assert(","@.drop_last() =~= Seq::<char>::empty());
            assert(count_char(Seq::<char>::empty(), ',') == 0);
        }
        count_in_parts_prefix(parts, init, parts.len() - 1);
    }
}

/// The counts over the first `k` parts depend on those parts alone.
proof fn count_in_parts_prefix(parts: Seq<Seq<char>>, init: Seq<Seq<char>>, k: int)
    requires
        0 <= k <= init.len() <= parts.len(),
        forall|i: int| 0 <= i < init.len() ==> init[i] == parts[i],
    ensures
        count_in_parts(parts, k, ',') == count_in_parts(init, k, ','),
    decreases k,
{
    if k > 0 {
        count_in_parts_prefix(parts, init, k - 1);
    }
}

/// Every location of a batch gets its elevation text: its own, or `nan`
/// where it has none.
pub proof fn elevation_text_of_each_location(e: Option<String>)
    ensures
        e is Some ==> elevation_text(e) == e->0@,
        e is None ==> elevation_text(e) == seq!['n', 'a', 'n'],
{
    reveal_strlit("nan");
    assert("nan"@ =~= seq!['n', 'a', 'n']);
}

/// The values of one query parameter, separated by commas.
pub open spec fn comma_join(parts: Seq<Seq<char>>) -> Seq<char>
    decreases parts.len(),
{
    if parts.len() == 0 {
        seq![]
    } else if parts.len() == 1 {
        parts[0]
    } else {
        comma_join(parts.drop_last()) + ","@ + parts.last()
    }
}

/// The text sent for a location's elevation: its value, or `nan` to let the
/// provider use its own terrain model.
pub open spec fn elevation_text(e: Option<String>) -> Seq<char> {
    match e {
        Some(s) => s@,
        None => "nan"@,
    }
}

/// Joins texts with commas.
fn join_commas(parts: &Vec<String>) -> (r: String)
    ensures
        r@ == comma_join(parts@.map_values(|s: String| s@)),
{
    let ghost views = parts@.map_values(|s: String| s@);
    let mut r = String::new();
    for i in 0..parts.len()
        invariant
            views == parts@.map_values(|s: String| s@),
            r@ == comma_join(views.take(i as int)),
    {
        if i != 0 {
            r.append(",");
        }
        r.append(parts[i].as_str());
        assert(views.take(i + 1).drop_last() =~= views.take(i as int));
    }
    assert(views.take(parts@.len() as int) =~= views);
    r
}

/// The query parameters of one forecast request for a batch of locations,
/// given the decimal texts of their coordinates and elevations: sixteen days
/// of the hourly variables, times in GMT, wind in km/h.
pub fn forecast_query(
    latitudes: &Vec<String>,
    longitudes: &Vec<String>,
    elevations: &Vec<Option<String>>,
) -> (r: Vec<(String, String)>)
    ensures
        r@.len() == 7,
        r@[0].0@ == "latitude"@,
        r@[0].1@ == comma_join(latitudes@.map_values(|s: String| s@)),
        r@[1].0@ == "longitude"@,
        r@[1].1@ == comma_join(longitudes@.map_values(|s: String| s@)),
        r@[2].0@ == "elevation"@,
        r@[2].1@ == comma_join(elevations@.map_values(|e: Option<String>| elevation_text(e))),
        r@[3].0@ == "hourly"@,
        r@[3].1@ == HOURLY_VARIABLES@,
        r@[4].0@ == "forecast_days"@,
        r@[4].1@ == "16"@,
        r@[5].0@ == "timezone"@,
        r@[5].1@ == "GMT"@,
        r@[6].0@ == "wind_speed_unit"@,
        r@[6].1@ == "kmh"@,
{
    let mut elevation_texts: Vec<String> = Vec::new();
    for i in 0..elevations.len()
        invariant
            elevation_texts@.map_values(|s: String| s@) =~= elevations@.take(i as int).map_values(
                |e: Option<String>| elevation_text(e),
            ),
    {
        let t = match &elevations[i] {
            Some(s) => s.clone(),
            None => String::from_str("nan"),
        };
        assert(t@ == elevation_text(elevations@[i as int]));
        let ghost before = elevation_texts@;
        elevation_texts.push(t);
        assert(elevation_texts@.map_values(|s: String| s@) =~= before.map_values(|s: String| s@).push(t@));
        assert(elevations@.take(i + 1) =~= elevations@.take(i as int).push(elevations@[i as int]));
    }
    assert(elevations@.take(elevations@.len() as int) =~= elevations@);
    let mut r: Vec<(String, String)> = Vec::new();
    r.push((String::from_str("latitude"), join_commas(latitudes)));
    r.push((String::from_str("longitude"), join_commas(longitudes)));
    r.push((String::from_str("elevation"), join_commas(&elevation_texts)));
    r.push((String::from_str("hourly"), String::from_str(HOURLY_VARIABLES)));
    r.push((String::from_str("forecast_days"), String::from_str("16")));
    r.push((String::from_str("timezone"), String::from_str("GMT")));
    r.push((String::from_str("wind_speed_unit"), String::from_str("kmh")));
    r
}

/// Why a forecast reply was refused.
#[derive(Clone, Copy, Debug, PartialEq, Eq, Structural)]
pub enum WeatherError {
    /// The provider answered for another number of locations than asked.
    LocationCount { returned: usize, requested: usize },
}

/// Takes in the replies to one batch request of `requested` locations:
/// refused, with nothing added, unless there is one reply per location;
/// otherwise the converted forecasts are appended in reply order.
pub fn accept_chunk<M: Copy>(
    all: &mut Vec<PointWeather<M>>,
    requested: usize,
    replies: Vec<RawForecast<M>>,
) -> (r: Result<(), WeatherError>)
    ensures
        replies@.len() != requested ==> r == Err::<(), WeatherError>(
            WeatherError::LocationCount { returned: replies@.len() as usize, requested },
        ) && final(all)@ == old(all)@,
        replies@.len() == requested ==> {
            &&& r is Ok
            &&& final(all)@.len() == old(all)@.len() + requested
            &&& final(all)@.subrange(0, old(all)@.len() as int) == old(all)@
            &&& forall|k: int|
                0 <= k < requested ==> converts_to(
                    replies@[k],
                    #[trigger] final(all)@[old(all)@.len() + k],
                )
        },
{
    let returned = replies.len();
    if returned != requested {
        return Err(WeatherError::LocationCount { returned, requested });
    }
    let ghost start = all@.len();
    let ghost all0 = all@;
    let ghost replies0 = replies@;
    for raw in it: replies.into_iter()
        invariant
            it.seq() == replies0,
            all@.len() == start + it.index(),
            all@.subrange(0, start as int) == all0,
            forall|k: int|
                0 <= k < it.index() ==> converts_to(replies0[k], #[trigger] all@[start + k]),
    {
        all.push(convert(raw));
    }
    Ok(())
}

} // verus!
