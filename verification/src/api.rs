use vstd::prelude::*;

use std::collections::HashMap;

use crate::time::{parse_rfc3339, rfc3339_instant, UtcTime};

verus! {

broadcast use vstd::std_specs::hash::group_hash_axioms;

/// HTTP status of a refused request.
pub const BAD_REQUEST: u16 = 400;

/// HTTP status of a lookup of an unknown trip.
pub const NOT_FOUND: u16 = 404;

/// HTTP status when the weather provider failed.
pub const BAD_GATEWAY: u16 = 502;

/// Most forecast points one trip may ask for.
pub const MAX_FORECAST_POINTS: usize = 200;

/// An error answered to an API client: an HTTP status and a message.
#[derive(Debug)]
pub struct ApiError {
    pub status: u16,
    pub message: String,
}

/// The error answered to a malformed request.
pub fn bad_request(message: &str) -> (r: ApiError)
    ensures
        r.status == BAD_REQUEST,
        r.status == 400,
        r.message@ == message@,
{
    ApiError { status: BAD_REQUEST, message: String::from_str(message) }
}

/// Whether two texts are the same.
fn same_text(a: &str, b: &str) -> (r: bool)
    ensures
        r == (a@ == b@),
{
    let n = a.unicode_len();
    if n != b.unicode_len() {
        return false;
    }
    for i in 0..n
        invariant
            n == a@.len(),
            n == b@.len(),
            forall|j: int| 0 <= j < i ==> a@[j] == b@[j],
    {
        if a.get_char(i) != b.get_char(i) {
            return false;
        }
    }
    assert(a@ =~= b@);
    true
}

/// The parts of a trip upload form.
#[derive(Clone, Copy, Debug, PartialEq, Eq, Structural)]
pub enum FormField {
    /// The GPX file (`gpx`).
    Gpx,
    /// The departure time (`departure` or `departure_datetime`).
    Departure,
    /// The riding speed (`speed_kmh`).
    Speed,
    /// Anything else, which is ignored.
    Other,
}

/// The part of the form that a field name denotes.
pub open spec fn field_kind(name: Option<Seq<char>>) -> FormField {
    match name {
        Some(n) => if n == "gpx"@ {
            FormField::Gpx
        } else if n == "departure"@ || n == "departure_datetime"@ {
            FormField::Departure
        } else if n == "speed_kmh"@ {
            FormField::Speed
        } else {
            FormField::Other
        },
        None => FormField::Other,
    }
}

/// The four parts of the form and the field names that fill them, letter by
/// letter: `gpx`, `departure` or `departure_datetime`, `speed_kmh`; every
/// other name, and a field without a name, is ignored.
pub proof fn field_names_of_the_form(name: Option<Seq<char>>)
    ensures
        (field_kind(name) == FormField::Gpx) == (name == Some(seq!['g', 'p', 'x'])),
        (field_kind(name) == FormField::Departure) == (name == Some(
            seq!['d', 'e', 'p', 'a', 'r', 't', 'u', 'r', 'e'],
        ) || name == Some(
            seq!['d', 'e', 'p', 'a', 'r', 't', 'u', 'r', 'e', '_', 'd', 'a', 't', 'e', 't', 'i', 'm', 'e'],
        )),
        (field_kind(name) == FormField::Speed) == (name == Some(
            seq!['s', 'p', 'e', 'e', 'd', '_', 'k', 'm', 'h'],
        )),
        name is None ==> field_kind(name) == FormField::Other,
{
    reveal_strlit("gpx");
    reveal_strlit("departure");
    reveal_strlit("departure_datetime");
    reveal_strlit("speed_kmh");
    assert("gpx"@ =~= seq!['g', 'p', 'x']);
    assert("departure"@ =~= seq!['d', 'e', 'p', 'a', 'r', 't', 'u', 'r', 'e']);
    assert("departure_datetime"@ =~= seq![
        'd', 'e', 'p', 'a', 'r', 't', 'u', 'r', 'e', '_', 'd', 'a', 't', 'e', 't', 'i', 'm', 'e'
    ]);
    assert("speed_kmh"@ =~= seq!['s', 'p', 'e', 'e', 'd', '_', 'k', 'm', 'h']);
}

/// Tells which part of the upload form a multipart field fills.
pub fn classify_field(name: Option<&str>) -> (r: FormField)
    ensures
        r == field_kind(
            match name {
                Some(n) => Some(n@),
                None => None,
            },
        ),
{
    match name {
        Some(n) => if same_text(n, "gpx") {
            FormField::Gpx
        } else if same_text(n, "departure") || same_text(n, "departure_datetime") {
            FormField::Departure
        } else if same_text(n, "speed_kmh") {
            FormField::Speed
        } else {
            FormField::Other
        },
        None => FormField::Other,
    }
}

/// Whether a text ends in `.gpx`.
pub open spec fn ends_in_gpx(s: Seq<char>) -> bool {
    &&& s.len() >= 4
    &&& s[s.len() - 4] == '.'
    &&& s[s.len() - 3] == 'g'
    &&& s[s.len() - 2] == 'p'
    &&& s[s.len() - 1] == 'x'
}

/// A file name with every trailing `.gpx` taken off.
pub open spec fn strip_gpx_suffixes(s: Seq<char>) -> Seq<char>
    decreases s.len(),
{
    if ends_in_gpx(s) {
        strip_gpx_suffixes(s.subrange(0, s.len() - 4))
    } else {
        s
    }
}

/// The `.gpx` ending, character by character.
pub open spec fn gpx_ending() -> Seq<char> {
    seq!['.', 'g', 'p', 'x']
}

/// `k` `.gpx` endings one after the other.
pub open spec fn gpx_endings(k: nat) -> Seq<char>
    decreases k,
{
    if k == 0 {
        seq![]
    } else {
        gpx_endings((k - 1) as nat) + gpx_ending()
    }
}

/// Whether `s` ends in the `.gpx` ending.
pub open spec fn has_gpx_ending(s: Seq<char>) -> bool {
    s.len() >= 4 && s.subrange(s.len() - 4, s.len() as int) == gpx_ending()
}

proof fn ends_in_gpx_is_the_ending(s: Seq<char>)
    ensures
        ends_in_gpx(s) == has_gpx_ending(s),
{
    if s.len() >= 4 {
        if ends_in_gpx(s) {
            assert(s.subrange(s.len() - 4, s.len() as int) =~= gpx_ending());
        }
        if has_gpx_ending(s) {
            assert(s.subrange(s.len() - 4, s.len() as int)[0] == '.');
        }
    }
}

/// How many endings stripping takes off.
proof fn endings_taken(s: Seq<char>) -> (k: nat)
    ensures
        s == strip_gpx_suffixes(s) + gpx_endings(k),
    decreases s.len(),
{
    ends_in_gpx_is_the_ending(s);
    if ends_in_gpx(s) {
        let t = s.subrange(0, s.len() - 4);
        let k = endings_taken(t);
        assert(s =~= t + gpx_ending());
        assert(strip_gpx_suffixes(t) + gpx_endings(k + 1) =~= (strip_gpx_suffixes(t) + gpx_endings(
            k,
        )) + gpx_ending());
        k + 1
    } else {
        assert(s =~= s + gpx_endings(0));
        0
    }
}

/// The trip name taken from a file name keeps all before the trailing
/// `.gpx` endings: the file name is that name followed by some number of
/// `.gpx` endings, and the name itself no longer ends in `.gpx`.
pub proof fn stripping_keeps_all_before_the_endings(s: Seq<char>)
    ensures
        exists|k: nat| s == strip_gpx_suffixes(s) + #[trigger] gpx_endings(k),
        !has_gpx_ending(strip_gpx_suffixes(s)),
{
    let k = endings_taken(s);
    assert(s == strip_gpx_suffixes(s) + gpx_endings(k));
    stripping_gpx_is_idempotent(s);
    ends_in_gpx_is_the_ending(strip_gpx_suffixes(s));
}

/// A name that does not end in `.gpx` is kept as it is, and with one `.gpx`
/// added it comes back as it was.
pub proof fn stripping_one_ending_gives_the_name(t: Seq<char>)
    requires
        !has_gpx_ending(t),
    ensures
        strip_gpx_suffixes(t) == t,
        strip_gpx_suffixes(t + gpx_ending()) == t,
{
    ends_in_gpx_is_the_ending(t);
    let s = t + gpx_ending();
    assert(s.subrange(s.len() - 4, s.len() as int) =~= gpx_ending());
    ends_in_gpx_is_the_ending(s);
    assert(ends_in_gpx(s));
    assert(s.subrange(0, s.len() - 4) =~= t);
    assert(strip_gpx_suffixes(s) == strip_gpx_suffixes(s.subrange(0, s.len() - 4)));
}

/// Taking the `.gpx` endings off twice takes off no more than once: the
/// result never ends in `.gpx` again.
pub proof fn stripping_gpx_is_idempotent(s: Seq<char>)
    ensures
        !ends_in_gpx(strip_gpx_suffixes(s)),
        strip_gpx_suffixes(strip_gpx_suffixes(s)) == strip_gpx_suffixes(s),
    decreases s.len(),
{
    if ends_in_gpx(s) {
        stripping_gpx_is_idempotent(s.subrange(0, s.len() - 4));
    }
}

/// The trip name taken from an uploaded file's name: the name with all
/// trailing `.gpx` removed.
pub fn upload_name(file_name: &str) -> (r: String)
    ensures
        r@ == strip_gpx_suffixes(file_name@),
{
    let n = file_name.unicode_len();
    let mut end = n;
    assert(file_name@.subrange(0, n as int) =~= file_name@);
    while end >= 4 && file_name.get_char(end - 4) == '.' && file_name.get_char(end - 3) == 'g'
        && file_name.get_char(end - 2) == 'p' && file_name.get_char(end - 1) == 'x'
        invariant
            n == file_name@.len(),
            end <= n,
            strip_gpx_suffixes(file_name@) == strip_gpx_suffixes(file_name@.subrange(0, end as int)),
        decreases end,
    {
        let ghost s = file_name@.subrange(0, end as int);
        assert(ends_in_gpx(s));
        assert(s.subrange(0, s.len() - 4) =~= file_name@.subrange(0, end - 4));
        end = end - 4;
    }
    let ghost s = file_name@.subrange(0, end as int);
    assert(!ends_in_gpx(s));
    String::from_str(file_name.substring_char(0, end))
}

/// What a trip upload form has said so far.
pub struct TripForm {
    /// The GPX file, once it came.
    pub gpx: Option<Vec<u8>>,
    /// The name the trip falls back to when the file names none.
    pub filename: String,
    /// The time of departure.
    pub departure: UtcTime,
}

impl TripForm {
    /// An empty form: no file, named `route`, leaving at `now`.
    pub fn new(now: UtcTime) -> (r: TripForm)
        ensures
            r.gpx is None,
            r.filename@ == "route"@,
            r.departure == now,
    {
        TripForm { gpx: None, filename: String::from_str("route"), departure: now }
    }

    /// Takes in the GPX file field: its bytes, and, where the upload names a
    /// file, that name without `.gpx` as the fallback trip name. A later
    /// file replaces an earlier one.
    pub fn accept_gpx(&mut self, file_name: Option<&str>, bytes: Vec<u8>)
        ensures
            final(self).gpx == Some(bytes),
            final(self).departure == old(self).departure,
            final(self).filename@ == match file_name {
                Some(f) => strip_gpx_suffixes(f@),
                None => old(self).filename@,
            },
    {
        if let Some(f) = file_name {
            self.filename = upload_name(f);
        }
        self.gpx = Some(bytes);
    }

    /// Takes in the departure field: an RFC 3339 timestamp with an offset.
    /// Refused, with the form unchanged, where the text is no such time.
    pub fn accept_departure(&mut self, text: &str) -> (r: Result<(), ApiError>)
        ensures
            final(self).gpx == old(self).gpx,
            final(self).filename == old(self).filename,
            match rfc3339_instant(text@) {
                Some(t) => r is Ok && final(self).departure == t,
                None => {
                    &&& r is Err
                    &&& r->Err_0.status == BAD_REQUEST
            &&& r->Err_0.status == 400
                    &&& r->Err_0.status == 400
                    &&& r->Err_0.message@
                        == "departure must be an ISO-8601 timestamp with timezone"@
                    &&& final(self).departure == old(self).departure
                },
            },
    {
        match parse_rfc3339(text) {
            Some(t) => {
                self.departure = t;
                Ok(())
            },
            None => Err(bad_request("departure must be an ISO-8601 timestamp with timezone")),
        }
    }

    /// The GPX file of a completed form; refused where none was uploaded.
    pub fn take_gpx(self) -> (r: Result<Vec<u8>, ApiError>)
        ensures
            match self.gpx {
                Some(g) => r == Ok::<Vec<u8>, ApiError>(g),
                None => {
                    &&& r is Err
                    &&& r->Err_0.status == BAD_REQUEST
            &&& r->Err_0.status == 400
                    &&& r->Err_0.status == 400
                    &&& r->Err_0.message@ == "missing gpx file"@
                },
            },
    {
        match self.gpx {
            Some(g) => Ok(g),
            None => Err(bad_request("missing gpx file")),
        }
    }
}

/// Refuses a trip that would need more than 200 forecast points.
pub fn check_forecast_points(count: usize) -> (r: Result<(), ApiError>)
    ensures
        count <= MAX_FORECAST_POINTS ==> r is Ok,
        count <= 200 <==> r is Ok,
        count > MAX_FORECAST_POINTS ==> {
            &&& r is Err
            &&& r->Err_0.status == BAD_REQUEST
            &&& r->Err_0.status == 400
            &&& r->Err_0.message@
                == "route is too long or sampling interval is too small (maximum 200 forecast points)"@
        },
{
    if count > MAX_FORECAST_POINTS {
        Err(
            bad_request(
                "route is too long or sampling interval is too small (maximum 200 forecast points)",
            ),
        )
    } else {
        Ok(())
    }
}

/// The trips uploaded so far, by id.
pub struct TripStore<V> {
    trips: HashMap<u128, V>,
}

impl<V> View for TripStore<V> {
    type V = Map<u128, V>;

    closed spec fn view(&self) -> Map<u128, V> {
        self.trips@
    }
}

impl<V> TripStore<V> {
    /// A store with no trips.
    pub fn new() -> (r: TripStore<V>)
        ensures
            r@ == Map::<u128, V>::empty(),
    {
        TripStore { trips: HashMap::new() }
    }

    /// Stores a trip under its id, replacing any trip stored under it.
    pub fn insert(&mut self, id: u128, trip: V)
        ensures
            final(self)@ == old(self)@.insert(id, trip),
    {
        self.trips.insert(id, trip);
    }

    /// The trip stored under `id`; refused as not found where there is none.
    pub fn get_trip(&self, id: u128) -> (r: Result<&V, ApiError>)
        ensures
            match r {
                Ok(v) => self@.contains_key(id) && *v == self@[id],
                Err(e) => {
                    &&& !self@.contains_key(id)
                    &&& e.status == NOT_FOUND
                    &&& e.status == 404
                    &&& e.message@ == "trip not found"@
                },
            },
    {
        match self.trips.get(&id) {
            Some(v) => Ok(v),
            None => Err(ApiError { status: NOT_FOUND, message: String::from_str("trip not found") }),
        }
    }
}

/// A trip once stored is found under its id, and storing it leaves every
/// other id as it was.
pub proof fn stored_trip_is_found<V>(store: Map<u128, V>, id: u128, trip: V, other: u128)
    ensures
        store.insert(id, trip).contains_key(id),
        store.insert(id, trip)[id] == trip,
        other != id ==> (store.insert(id, trip).contains_key(other) == store.contains_key(other)),
        other != id && store.contains_key(other) ==> store.insert(id, trip)[other] == store[other],
{
}

} // verus!
