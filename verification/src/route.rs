use vstd::prelude::*;

use gpx::errors::GpxError;
use gpx::Waypoint;

verus! {

/// A waypoint as the `gpx` crate reads it; carried through unopened.
#[verifier::external_type_specification]
#[verifier::external_body]
pub struct ExWaypoint(gpx::Waypoint);

/// Why the `gpx` crate could not read a document; carried through unopened.
#[verifier::external_type_specification]
#[verifier::external_body]
pub struct ExGpxError(gpx::errors::GpxError);

/// The character sequence that an optional text holds.
pub open spec fn text_view(t: Option<String>) -> Option<Seq<char>> {
    match t {
        Some(s) => Some(s@),
        None => None,
    }
}

/// The sequences laid end to end, in order.
pub open spec fn concat_all<A>(parts: Seq<Seq<A>>) -> Seq<A>
    decreases parts.len(),
{
    if parts.len() == 0 {
        seq![]
    } else {
        concat_all(parts.drop_last()) + parts.last()
    }
}

/// A GPX track: its name and its segments of waypoints.
pub struct GpxTrack {
    pub name: Option<String>,
    pub segments: Vec<Vec<Waypoint>>,
}

/// A GPX route: its name and its waypoints.
pub struct GpxRoute {
    pub name: Option<String>,
    pub points: Vec<Waypoint>,
}

/// The tracks and routes of a GPX document, in document order.
pub struct GpxDocument {
    pub tracks: Vec<GpxTrack>,
    pub routes: Vec<GpxRoute>,
}

/// A track as a value: its name and its segments' waypoints.
pub struct TrackView {
    pub name: Option<Seq<char>>,
    pub segments: Seq<Seq<Waypoint>>,
}

/// A route as a value: its name and its waypoints.
pub struct RouteView {
    pub name: Option<Seq<char>>,
    pub points: Seq<Waypoint>,
}

/// A GPX document as a value: its tracks and routes, in document order.
pub struct GpxDocumentView {
    pub tracks: Seq<TrackView>,
    pub routes: Seq<RouteView>,
}

impl View for GpxTrack {
    type V = TrackView;

    open spec fn view(&self) -> TrackView {
        TrackView {
            name: text_view(self.name),
            segments: self.segments@.map_values(|s: Vec<Waypoint>| s@),
        }
    }
}

impl View for GpxRoute {
    type V = RouteView;

    open spec fn view(&self) -> RouteView {
        RouteView { name: text_view(self.name), points: self.points@ }
    }
}

impl View for GpxDocument {
    type V = GpxDocumentView;

    open spec fn view(&self) -> GpxDocumentView {
        GpxDocumentView {
            tracks: self.tracks@.map_values(|t: GpxTrack| t@),
            routes: self.routes@.map_values(|r: GpxRoute| r@),
        }
    }
}

/// The document that a GPX file holds, or `None` where the bytes are not a
/// GPX document that the `gpx` crate reads.
pub uninterp spec fn gpx_document(bytes: Seq<u8>) -> Option<GpxDocumentView>;

/// ASCII codes of the characters that the GPX pre-read looks for.
pub const DIGIT_NINE: u8 = 57;
pub const DIGIT_ZERO: u8 = 48;
pub const PLUS: u8 = 43;
pub const MINUS: u8 = 45;
pub const AMPERSAND: u8 = 38;
pub const HASH: u8 = 35;
pub const LESS_THAN: u8 = 60;
pub const GREATER_THAN: u8 = 62;
pub const BANG: u8 = 33;
pub const QUESTION: u8 = 63;
pub const SLASH: u8 = 47;
pub const COLON: u8 = 58;
pub const LEFT_BRACKET: u8 = 91;
pub const QUOTE: u8 = 34;
pub const APOSTROPHE: u8 = 39;
pub const SPACE: u8 = 32;
pub const TAB: u8 = 9;
pub const LINE_FEED: u8 = 10;
pub const CARRIAGE_RETURN: u8 = 13;
pub const LETTER_T: u8 = 116;
pub const LETTER_I: u8 = 105;
pub const LETTER_M: u8 = 109;
pub const LETTER_E: u8 = 101;

/// Byte `i` of `b` is `c`.
pub open spec fn byte_is(b: Seq<u8>, i: int, c: u8) -> bool {
    0 <= i < b.len() && b[i] == c
}

/// Four nines start at byte `j`.
pub open spec fn nines_at(b: Seq<u8>, j: int) -> bool {
    byte_is(b, j, DIGIT_NINE) && byte_is(b, j + 1, DIGIT_NINE) && byte_is(b, j + 2, DIGIT_NINE)
        && byte_is(b, j + 3, DIGIT_NINE)
}

/// A timestamp of the year 9999, +9999 or -9999 (the edges of the years that
/// `gpx` reads times in) may start at byte `j`: `9999`, `+009999` or `-009999`.
pub open spec fn edge_year_at(b: Seq<u8>, j: int) -> bool {
    ||| nines_at(b, j)
    ||| (byte_is(b, j, PLUS) || byte_is(b, j, MINUS)) && byte_is(b, j + 1, DIGIT_ZERO)
        && byte_is(b, j + 2, DIGIT_ZERO) && nines_at(b, j + 3)
}

/// A byte that ends an element name: white space, `>` or `/`.
pub open spec fn ends_name(c: u8) -> bool {
    c == SPACE || c == TAB || c == LINE_FEED || c == CARRIAGE_RETURN || c == GREATER_THAN
        || c == SLASH
}

/// Where the element name that starts at `k` ends (the end of the bytes if
/// nothing ends it).
pub open spec fn name_end(b: Seq<u8>, k: int) -> int
    decreases b.len() - k,
{
    if k < 0 || k >= b.len() {
        b.len() as int
    } else if ends_name(b[k]) {
        k
    } else {
        name_end(b, k + 1)
    }
}

/// Where the tag that is open at `k` closes: the first `>` at or after `k`
/// outside a quoted attribute value, with `q` the quote open at `k` (0 for
/// none); the end of the bytes if it never closes.
pub open spec fn tag_close(b: Seq<u8>, k: int, q: u8) -> int
    decreases b.len() - k,
{
    if k < 0 || k >= b.len() {
        b.len() as int
    } else if q == 0 {
        if b[k] == GREATER_THAN {
            k
        } else if b[k] == QUOTE || b[k] == APOSTROPHE {
            tag_close(b, k + 1, b[k])
        } else {
            tag_close(b, k + 1, 0)
        }
    } else if b[k] == q {
        tag_close(b, k + 1, 0)
    } else {
        tag_close(b, k + 1, q)
    }
}

/// The first `<` at or after `k`, or the end of the bytes.
pub open spec fn next_lt(b: Seq<u8>, k: int) -> int
    decreases b.len() - k,
{
    if k < 0 || k >= b.len() {
        b.len() as int
    } else if b[k] == LESS_THAN {
        k
    } else {
        next_lt(b, k + 1)
    }
}

/// A character reference `&#` starts somewhere in `[k, end)`.
pub open spec fn has_char_ref(b: Seq<u8>, k: int, end: int) -> bool
    decreases end - k,
{
    if k < 0 || k >= end {
        false
    } else {
        byte_is(b, k, AMPERSAND) && byte_is(b, k + 1, HASH) || has_char_ref(b, k + 1, end)
    }
}

/// A start tag of an element named `time` (with or without a namespace
/// prefix) opens at byte `i`.
pub open spec fn time_start_at(b: Seq<u8>, i: int) -> bool {
    let e = name_end(b, i + 1);
    &&& byte_is(b, i, LESS_THAN)
    &&& i + 1 < b.len()
    &&& b[i + 1] != SLASH && b[i + 1] != BANG && b[i + 1] != QUESTION
    &&& e - (i + 1) >= 4
    &&& byte_is(b, e - 4, LETTER_T) && byte_is(b, e - 3, LETTER_I)
    &&& byte_is(b, e - 2, LETTER_M) && byte_is(b, e - 1, LETTER_E)
    &&& (e - 4 == i + 1 || byte_is(b, e - 5, COLON))
}

/// The content of a `time` element that starts at byte `c` could reach the
/// time parser in the year +-9999, or in disguise: it starts with an edge
/// year, holds a character reference, or is broken by markup other than an
/// end tag (a comment, CDATA, a processing instruction or a child).
pub open spec fn time_content_risky(b: Seq<u8>, c: int) -> bool {
    let end = next_lt(b, c);
    ||| edge_year_at(b, c)
    ||| has_char_ref(b, c, end)
    ||| end < b.len() && !byte_is(b, end + 1, SLASH)
}

/// At byte `i` stands what could make `gpx::read` convert a time at the edge
/// of its year range: a zero byte (as in UTF-16 text, whose digits the bytes
/// do not show), a DOCTYPE or other `<!` declaration that could define
/// entities, or a `time` start tag whose content is risky.
pub open spec fn risky_at(b: Seq<u8>, i: int) -> bool {
    ||| byte_is(b, i, 0)
    ||| byte_is(b, i, LESS_THAN) && byte_is(b, i + 1, BANG) && !byte_is(b, i + 2, MINUS)
        && !byte_is(b, i + 2, LEFT_BRACKET)
    ||| time_start_at(b, i) && tag_close(b, name_end(b, i + 1), 0) < b.len() && time_content_risky(
        b,
        tag_close(b, name_end(b, i + 1), 0) + 1,
    )
}

/// Only a zero byte or a `<` can make a document unreadable, and a `<` only
/// where it opens a declaration that is no comment and no CDATA, or a `time`
/// start tag: any other byte, the bytes of UTF-8 text among them, is never a
/// reason to refuse a document.
pub proof fn only_zero_bytes_and_markup_are_risky(b: Seq<u8>, i: int)
    ensures
        risky_at(b, i) ==> byte_is(b, i, 0) || byte_is(b, i, LESS_THAN) && (byte_is(b, i + 1, BANG)
            || time_start_at(b, i)),
        byte_is(b, i, LESS_THAN) && byte_is(b, i + 1, BANG) && (byte_is(b, i + 2, MINUS)
            || byte_is(b, i + 2, LEFT_BRACKET)) ==> !risky_at(b, i),
        byte_is(b, i, 0) ==> risky_at(b, i),
{
}

/// A document free of zero bytes and of `<` is read; one with a zero byte is
/// refused.
pub proof fn readable_without_zero_bytes_or_markup(b: Seq<u8>)
    ensures
        (forall|i: int| 0 <= i < b.len() ==> b[i] != 0 && b[i] != LESS_THAN) ==> gpx_readable(b),
        (exists|i: int| 0 <= i < b.len() && b[i] == 0) ==> !gpx_readable(b),
{
    if exists|i: int| 0 <= i < b.len() && b[i] == 0 {
        let i = choose|i: int| 0 <= i < b.len() && b[i] == 0;
        assert(risky_at(b, i));
    }
}

/// Bytes on which `gpx::read` returns: with none of the above, the text of
/// every `time` element is plain text that does not start in the year
/// +-9999, so converting a time to UTC cannot leave the years that the `time`
/// crate holds.
pub open spec fn gpx_readable(b: Seq<u8>) -> bool {
    forall|i: int| 0 <= i < b.len() ==> !#[trigger] risky_at(b, i)
}

/// The byte at `k`, or 1 (no character looked for) past the end.
fn byte_or_one(bytes: &[u8], k: usize) -> (c: u8)
    ensures
        k < bytes@.len() ==> c == bytes@[k as int],
        k >= bytes@.len() ==> c == 1,
{
    if k < bytes.len() {
        bytes[k]
    } else {
        1
    }
}

/// Whether four nines start at byte `j`.
fn nines_after(bytes: &[u8], j: usize) -> (r: bool)
    requires
        j < bytes@.len(),
    ensures
        r == nines_at(bytes@, j as int),
{
    bytes.len() - j > 3 && bytes[j] == DIGIT_NINE && bytes[j + 1] == DIGIT_NINE && bytes[j + 2]
        == DIGIT_NINE && bytes[j + 3] == DIGIT_NINE
}

/// Whether an edge year may start at byte `j`.
fn edge_year_after(bytes: &[u8], j: usize) -> (r: bool)
    requires
        j <= bytes@.len(),
    ensures
        r == edge_year_at(bytes@, j as int),
{
    if j == bytes.len() {
        return false;
    }
    let sign = bytes[j];
    nines_after(bytes, j) || (sign == PLUS || sign == MINUS) && bytes.len() - j > 3 && bytes[j
        + 1] == DIGIT_ZERO && bytes[j + 2] == DIGIT_ZERO && nines_after(bytes, j + 3)
}

/// Where the element name starting at `k` ends.
fn find_name_end(bytes: &[u8], k: usize) -> (r: usize)
    requires
        k <= bytes@.len(),
    ensures
        r == name_end(bytes@, k as int),
        k <= r <= bytes@.len(),
{
    let mut j = k;
    while j < bytes.len() && !(bytes[j] == SPACE || bytes[j] == TAB || bytes[j] == LINE_FEED
        || bytes[j] == CARRIAGE_RETURN || bytes[j] == GREATER_THAN || bytes[j] == SLASH)
        invariant
            k <= j <= bytes@.len(),
            name_end(bytes@, k as int) == name_end(bytes@, j as int),
        decreases bytes@.len() - j,
    {
        j = j + 1;
    }
    j
}

/// Where the tag open at `k` closes.
fn find_tag_close(bytes: &[u8], k: usize) -> (r: usize)
    requires
        k <= bytes@.len(),
    ensures
        r == tag_close(bytes@, k as int, 0),
        k <= r <= bytes@.len(),
{
    let mut j = k;
    let mut q: u8 = 0;
    while j < bytes.len() && !(q == 0 && bytes[j] == GREATER_THAN)
        invariant
            k <= j <= bytes@.len(),
            tag_close(bytes@, k as int, 0) == tag_close(bytes@, j as int, q),
        decreases bytes@.len() - j,
    {
        let c = bytes[j];
        if q == 0 {
            if c == QUOTE || c == APOSTROPHE {
                q = c;
            }
        } else if c == q {
            q = 0;
        }
        j = j + 1;
    }
    j
}

/// The first `<` at or after `k`.
fn find_next_lt(bytes: &[u8], k: usize) -> (r: usize)
    requires
        k <= bytes@.len(),
    ensures
        r == next_lt(bytes@, k as int),
        k <= r <= bytes@.len(),
{
    let mut j = k;
    while j < bytes.len() && bytes[j] != LESS_THAN
        invariant
            k <= j <= bytes@.len(),
            next_lt(bytes@, k as int) == next_lt(bytes@, j as int),
        decreases bytes@.len() - j,
    {
        j = j + 1;
    }
    j
}

/// Whether a character reference starts in `[k, end)`.
fn find_char_ref(bytes: &[u8], k: usize, end: usize) -> (r: bool)
    requires
        k <= end <= bytes@.len(),
    ensures
        r == has_char_ref(bytes@, k as int, end as int),
{
    let mut j = end;
    let mut found = false;
    while j > k
        invariant
            k <= j <= end,
            end <= bytes@.len(),
            has_char_ref(bytes@, k as int, end as int) == (has_char_ref(
                bytes@,
                k as int,
                j as int,
            ) || found),
        decreases j - k,
    {
        j = j - 1;
        if bytes[j] == AMPERSAND && byte_or_one(bytes, j + 1) == HASH {
            found = true;
        }
        proof {
            lemma_char_ref_split(bytes@, k as int, j as int);
        }
    }
    found
}

/// A character reference in `[k, j + 1)` is one in `[k, j)` or one at `j`.
proof fn lemma_char_ref_split(b: Seq<u8>, k: int, j: int)
    requires
        0 <= k <= j,
    ensures
        has_char_ref(b, k, j + 1) == (has_char_ref(b, k, j) || byte_is(b, j, AMPERSAND) && byte_is(
            b,
            j + 1,
            HASH,
        )),
    decreases j - k,
{
    if k < j {
        lemma_char_ref_split(b, k + 1, j);
    } else {
        assert(!has_char_ref(b, k + 1, k + 1));
        assert(!has_char_ref(b, k, k));
    }
}

/// Whether byte `i` is risky in the sense of `risky_at`.
fn risky_byte(bytes: &[u8], i: usize) -> (r: bool)
    requires
        i < bytes@.len(),
    ensures
        r == risky_at(bytes@, i as int),
{
    let c = bytes[i];
    if c == 0 {
        return true;
    }
    if c != LESS_THAN {
        return false;
    }
    if i + 1 == bytes.len() {
        return false;
    }
    let next = bytes[i + 1];
    if next == BANG {
        let after = byte_or_one(bytes, i + 2);
        return after != MINUS && after != LEFT_BRACKET;
    }
    if next == SLASH || next == QUESTION {
        assert(!time_start_at(bytes@, i as int));
        return false;
    }
    let e = find_name_end(bytes, i + 1);
    let is_time = e - (i + 1) >= 4 && bytes[e - 4] == LETTER_T && bytes[e - 3] == LETTER_I
        && bytes[e - 2] == LETTER_M && bytes[e - 1] == LETTER_E && (e - 4 == i + 1 || bytes[e
        - 5] == COLON);
    if !is_time {
        return false;
    }
    let close = find_tag_close(bytes, e);
    if close == bytes.len() {
        return false;
    }
    let c0 = close + 1;
    let end = find_next_lt(bytes, c0);
    edge_year_after(bytes, c0) || find_char_ref(bytes, c0, end) || end < bytes.len()
        && byte_or_one(bytes, end + 1) != SLASH
}

/// Whether the bytes are free of all that `gpx_readable` excludes.
fn scan_readable(bytes: &[u8]) -> (r: bool)
    ensures
        r == gpx_readable(bytes@),
{
    let n = bytes.len();
    for i in 0..n
        invariant
            n == bytes@.len(),
            forall|k: int| 0 <= k < i ==> !#[trigger] risky_at(bytes@, k),
    {
        if risky_byte(bytes, i) {
            return false;
        }
    }
    true
}

/// Reads a GPX document with `gpx::read` and keeps its tracks and routes.
/// Claimed of `gpx::read`: on bytes that `gpx_readable` admits it returns,
/// and whether it succeeds, and the tracks and routes it finds, depend on the
/// bytes alone (`gpx_document`); nothing more is stated. It panics on some
/// others (a `<time>` in the year 9999 with a negative offset, or -9999 with
/// a positive one, whose conversion to UTC leaves the `time` crate's years),
/// which the `requires` leaves out.
#[verifier::external_body]
fn read_gpx(bytes: &[u8]) -> (r: Result<GpxDocument, GpxError>)
    requires
        gpx_readable(bytes@),
    ensures
        match r {
            Ok(doc) => gpx_document(bytes@) == Some(doc@),
            Err(_) => gpx_document(bytes@) is None,
        },
{
    match gpx::read(std::io::Cursor::new(bytes)) {
        Ok(g) => Ok(GpxDocument {
            tracks: g.tracks.into_iter().map(
                |t| GpxTrack { name: t.name, segments: t.segments.into_iter().map(|s| s.points).collect() },
            ).collect(),
            routes: g.routes.into_iter().map(|r| GpxRoute { name: r.name, points: r.points }).collect(),
        }),
        Err(e) => Err(e),
    }
}

/// All waypoints of the tracks, segment after segment.
pub open spec fn track_points(tracks: Seq<TrackView>) -> Seq<Waypoint> {
    concat_all(tracks.map_values(|t: TrackView| concat_all(t.segments)))
}

/// All waypoints of the routes, route after route.
pub open spec fn routes_points(routes: Seq<RouteView>) -> Seq<Waypoint> {
    concat_all(routes.map_values(|r: RouteView| r.points))
}

/// The points of the trip: those of the tracks, or, where the tracks hold
/// none, those of the routes.
pub open spec fn route_points(doc: GpxDocumentView) -> Seq<Waypoint> {
    if track_points(doc.tracks).len() > 0 {
        track_points(doc.tracks)
    } else {
        routes_points(doc.routes)
    }
}

/// The name of the trip: that of the first track, else that of the first
/// route, else the fallback.
pub open spec fn route_name(doc: GpxDocumentView, fallback: Seq<char>) -> Seq<char> {
    if doc.tracks.len() > 0 && doc.tracks[0].name is Some {
        doc.tracks[0].name->0
    } else if doc.routes.len() > 0 && doc.routes[0].name is Some {
        doc.routes[0].name->0
    } else {
        fallback
    }
}

/// How many items the first `k` sequences hold together.
pub open spec fn lengths_before<A>(parts: Seq<Seq<A>>, k: int) -> int
    decreases k,
{
    if k <= 0 {
        0
    } else {
        lengths_before(parts, k - 1) + parts[k - 1].len()
    }
}

/// The counts over the first `k` sequences depend on those alone.
proof fn lengths_before_prefix<A>(parts: Seq<Seq<A>>, init: Seq<Seq<A>>, k: int)
    requires
        0 <= k <= init.len() <= parts.len(),
        forall|i: int| 0 <= i < init.len() ==> init[i] == parts[i],
    ensures
        lengths_before(parts, k) == lengths_before(init, k),
    decreases k,
{
    if k > 0 {
        lengths_before_prefix(parts, init, k - 1);
    }
}

/// Counts before `k` only grow with `k`.
proof fn lengths_before_monotone<A>(parts: Seq<Seq<A>>, j: int, k: int)
    requires
        0 <= j <= k <= parts.len(),
    ensures
        lengths_before(parts, j) <= lengths_before(parts, k),
    decreases k - j,
{
    if j < k {
        lengths_before_monotone(parts, j, k - 1);
    }
}

/// Laying sequences end to end keeps every item: item `m` of sequence `k`
/// stands after all items of the sequences before it.
pub proof fn concat_all_places_each_item<A>(parts: Seq<Seq<A>>)
    ensures
        concat_all(parts).len() == lengths_before(parts, parts.len() as int),
        forall|k: int, m: int|
            0 <= k < parts.len() && 0 <= m < parts[k].len() ==> #[trigger] concat_all(parts)[lengths_before(
                parts,
                k,
            ) + m] == #[trigger] parts[k][m],
    decreases parts.len(),
{
    if parts.len() > 0 {
        let init = parts.drop_last();
        concat_all_places_each_item(init);
        lengths_before_prefix(parts, init, init.len() as int);
        let whole = concat_all(parts);
        assert(whole == concat_all(init) + parts.last());
        assert forall|k: int, m: int|
            0 <= k < parts.len() && 0 <= m < parts[k].len() implies #[trigger] concat_all(
                parts,
            )[lengths_before(parts, k) + m] == #[trigger] parts[k][m] by {
            if k < init.len() {
                lengths_before_prefix(parts, init, k);
                lengths_before_monotone(init, k + 1, init.len() as int);
                lengths_before_monotone(init, 0, k);
                assert(init[k] == parts[k]);
                assert(lengths_before(init, k + 1) == lengths_before(init, k) + init[k].len());
                assert(concat_all(init)[lengths_before(init, k) + m] == init[k][m]);
                assert(lengths_before(init, k) + m < concat_all(init).len());
                assert(whole[lengths_before(init, k) + m] == concat_all(init)[lengths_before(init, k) + m]);
                assert(lengths_before(parts, k) == lengths_before(init, k));
            } else {
                assert(k == init.len());
                assert(parts.last() == parts[k]);
                assert(lengths_before(parts, k) == concat_all(init).len());
                assert(whole[concat_all(init).len() + m] == parts.last()[m]);
            }
        }
    }
}

/// How many points the first `k` routes hold.
pub open spec fn route_points_before(routes: Seq<RouteView>, k: int) -> int
    decreases k,
{
    if k <= 0 {
        0
    } else {
        route_points_before(routes, k - 1) + routes[k - 1].points.len()
    }
}

/// How many points the segments of a track hold.
pub open spec fn track_size(t: TrackView) -> int {
    lengths_before(t.segments, t.segments.len() as int)
}

/// How many points the first `k` tracks hold.
pub open spec fn track_points_before(tracks: Seq<TrackView>, k: int) -> int
    decreases k,
{
    if k <= 0 {
        0
    } else {
        track_points_before(tracks, k - 1) + track_size(tracks[k - 1])
    }
}

proof fn route_counts_agree(routes: Seq<RouteView>, k: int)
    requires
        0 <= k <= routes.len(),
    ensures
        lengths_before(routes.map_values(|r: RouteView| r.points), k) == route_points_before(
            routes,
            k,
        ),
    decreases k,
{
    if k > 0 {
        route_counts_agree(routes, k - 1);
    }
}

proof fn track_counts_agree(tracks: Seq<TrackView>, k: int)
    requires
        0 <= k <= tracks.len(),
    ensures
        lengths_before(tracks.map_values(|t: TrackView| concat_all(t.segments)), k)
            == track_points_before(tracks, k),
    decreases k,
{
    if k > 0 {
        track_counts_agree(tracks, k - 1);
        concat_all_places_each_item(tracks[k - 1].segments);
    }
}

/// The points of the tracks, all laid end to end: their number is the sum of
/// the tracks' points, and point `m` of segment `s` of track `t` follows the
/// points of the tracks before and of the segments before.
pub proof fn track_points_keep_every_point(tracks: Seq<TrackView>)
    ensures
        track_points(tracks).len() == track_points_before(tracks, tracks.len() as int),
        forall|t: int, s: int, m: int|
            0 <= t < tracks.len() && 0 <= s < tracks[t].segments.len() && 0 <= m
                < tracks[t].segments[s].len() ==> track_points(tracks)[track_points_before(tracks, t)
                + lengths_before(tracks[t].segments, s) + m] == tracks[t].segments[s][m],
{
    let parts = tracks.map_values(|t: TrackView| concat_all(t.segments));
    concat_all_places_each_item(parts);
    track_counts_agree(tracks, tracks.len() as int);
    assert forall|t: int, s: int, m: int|
        0 <= t < tracks.len() && 0 <= s < tracks[t].segments.len() && 0 <= m
            < tracks[t].segments[s].len() implies track_points(tracks)[track_points_before(tracks, t)
            + lengths_before(tracks[t].segments, s) + m] == tracks[t].segments[s][m] by {
        let segs = tracks[t].segments;
        concat_all_places_each_item(segs);
        track_counts_agree(tracks, t);
        lengths_before_monotone(segs, s + 1, segs.len() as int);
        lengths_before_monotone(segs, 0, s);
        assert(lengths_before(segs, s + 1) == lengths_before(segs, s) + segs[s].len());
        assert(parts[t] == concat_all(segs));
        assert(concat_all(segs)[lengths_before(segs, s) + m] == segs[s][m]);
        assert(lengths_before(segs, s) + m < parts[t].len());
        assert(concat_all(parts)[lengths_before(parts, t) + (lengths_before(segs, s) + m)]
            == parts[t][lengths_before(segs, s) + m]);
    }
}

/// The points of the routes, all laid end to end: their number is the sum of
/// the routes' points, and point `m` of route `k` follows the points of the
/// routes before it.
pub proof fn routes_points_keep_every_point(routes: Seq<RouteView>)
    ensures
        routes_points(routes).len() == route_points_before(routes, routes.len() as int),
        forall|k: int, m: int|
            0 <= k < routes.len() && 0 <= m < routes[k].points.len() ==> routes_points(
                routes,
            )[route_points_before(routes, k) + m] == routes[k].points[m],
{
    let parts = routes.map_values(|r: RouteView| r.points);
    concat_all_places_each_item(parts);
    route_counts_agree(routes, routes.len() as int);
    assert forall|k: int, m: int|
        0 <= k < routes.len() && 0 <= m < routes[k].points.len() implies routes_points(
            routes,
        )[route_points_before(routes, k) + m] == routes[k].points[m] by {
        route_counts_agree(routes, k);
        assert(parts[k] == routes[k].points);
    }
}

/// The points of a trip: where the tracks hold some point, all track points
/// in order; where they hold none, all route points in order, route after
/// route.
pub proof fn trip_points_are_all_track_or_route_points(doc: GpxDocumentView)
    ensures
        track_points_before(doc.tracks, doc.tracks.len() as int) > 0 ==> {
            &&& route_points(doc).len() == track_points_before(doc.tracks, doc.tracks.len() as int)
            &&& forall|t: int, s: int, m: int|
                0 <= t < doc.tracks.len() && 0 <= s < doc.tracks[t].segments.len() && 0 <= m
                    < doc.tracks[t].segments[s].len() ==> route_points(doc)[track_points_before(
                    doc.tracks,
                    t,
                ) + lengths_before(doc.tracks[t].segments, s) + m] == doc.tracks[t].segments[s][m]
        },
        track_points_before(doc.tracks, doc.tracks.len() as int) == 0 ==> {
            &&& route_points(doc).len() == route_points_before(doc.routes, doc.routes.len() as int)
            &&& forall|k: int, m: int|
                0 <= k < doc.routes.len() && 0 <= m < doc.routes[k].points.len() ==> route_points(
                    doc,
                )[route_points_before(doc.routes, k) + m] == doc.routes[k].points[m]
        },
{
    track_points_keep_every_point(doc.tracks);
    routes_points_keep_every_point(doc.routes);
}

/// The name of a trip comes from the first track where it has one, else from
/// the first route where it has one, and only otherwise from the fallback; no
/// later track or route names it.
pub proof fn trip_name_comes_first_from_the_first_track(doc: GpxDocumentView, fallback: Seq<char>)
    ensures
        doc.tracks.len() > 0 && doc.tracks[0].name is Some ==> route_name(doc, fallback)
            == doc.tracks[0].name->0,
        !(doc.tracks.len() > 0 && doc.tracks[0].name is Some) && doc.routes.len() > 0
            && doc.routes[0].name is Some ==> route_name(doc, fallback) == doc.routes[0].name->0,
        !(doc.tracks.len() > 0 && doc.tracks[0].name is Some) && !(doc.routes.len() > 0
            && doc.routes[0].name is Some) ==> route_name(doc, fallback) == fallback,
{
}

/// A route read from an uploaded GPX file.
pub struct ParsedRoute {
    pub name: String,
    pub points: Vec<Waypoint>,
}

/// Why an uploaded GPX file was refused.
#[derive(Clone, Copy, Debug, PartialEq, Eq, Structural)]
pub enum RouteError {
    /// The bytes are not a GPX document.
    InvalidDocument,
    /// The document holds fewer than two points to ride along.
    TooFewPoints,
}

impl RouteError {
    /// The text shown to the uploader.
    pub fn message(&self) -> (r: String)
        ensures
            *self == RouteError::InvalidDocument ==> r@ == "invalid GPX document"@,
            *self == RouteError::TooFewPoints ==> r@
                == "GPX must contain a track or route with at least two points"@,
    {
        match self {
            RouteError::InvalidDocument => String::from_str("invalid GPX document"),
            RouteError::TooFewPoints => String::from_str(
                "GPX must contain a track or route with at least two points",
            ),
        }
    }
}

/// Appends the waypoints of all segments of a track.
fn append_track(points: &mut Vec<Waypoint>, track: GpxTrack)
    ensures
        final(points)@ == old(points)@ + concat_all(track@.segments),
{
    let ghost segs = track@.segments;
    let ghost start = points@;
    let GpxTrack { name: _, segments } = track;
    for seg in it: segments.into_iter()
        invariant
            segs == it.seq().map_values(|s: Vec<Waypoint>| s@),
            points@ == start + concat_all(segs.take(it.index() as int)),
    {
        let mut seg = seg;
        proof {
            assert(segs.take(it.index() + 1).drop_last() =~= segs.take(it.index() as int));
        }
        points.append(&mut seg);
        proof {
            assert(points@ =~= start + concat_all(segs.take(it.index() + 1)));
        }
    }
    assert(segs.take(segs.len() as int) =~= segs);
}

/// All waypoints of the tracks, segment after segment.
fn collect_tracks(tracks: Vec<GpxTrack>) -> (r: Vec<Waypoint>)
    ensures
        r@ == track_points(tracks@.map_values(|t: GpxTrack| t@)),
{
    let ghost views = tracks@.map_values(|t: GpxTrack| t@);
    let ghost parts = views.map_values(|t: TrackView| concat_all(t.segments));
    let mut r: Vec<Waypoint> = Vec::new();
    for t in it: tracks.into_iter()
        invariant
            views == it.seq().map_values(|t: GpxTrack| t@),
            parts == views.map_values(|t: TrackView| concat_all(t.segments)),
            r@ == concat_all(parts.take(it.index() as int)),
    {
        proof {
            assert(parts.take(it.index() + 1).drop_last() =~= parts.take(it.index() as int));
        }
        append_track(&mut r, t);
    }
    assert(parts.take(parts.len() as int) =~= parts);
    r
}

/// All waypoints of the routes, route after route.
fn collect_routes(routes: Vec<GpxRoute>) -> (r: Vec<Waypoint>)
    ensures
        r@ == routes_points(routes@.map_values(|t: GpxRoute| t@)),
{
    let ghost views = routes@.map_values(|t: GpxRoute| t@);
    let ghost parts = views.map_values(|t: RouteView| t.points);
    let mut r: Vec<Waypoint> = Vec::new();
    for route in it: routes.into_iter()
        invariant
            views == it.seq().map_values(|t: GpxRoute| t@),
            parts == views.map_values(|t: RouteView| t.points),
            r@ == concat_all(parts.take(it.index() as int)),
    {
        proof {
            assert(parts.take(it.index() + 1).drop_last() =~= parts.take(it.index() as int));
        }
        let GpxRoute { name: _, points } = route;
        let mut points = points;
        r.append(&mut points);
    }
    assert(parts.take(parts.len() as int) =~= parts);
    r
}

/// The name of the trip a document describes.
fn document_name(doc: &GpxDocument, fallback: &str) -> (r: String)
    ensures
        r@ == route_name(doc@, fallback@),
{
    if doc.tracks.len() > 0 {
        if let Some(n) = &doc.tracks[0].name {
            return n.clone();
        }
    }
    if doc.routes.len() > 0 {
        if let Some(n) = &doc.routes[0].name {
            return n.clone();
        }
    }
    String::from_str(fallback)
}

/// Reads an uploaded GPX file into the route to forecast along: the points
/// of its tracks (or, if they hold none, of its routes) and its name (that
/// of the first track or route, else `fallback_name`). Refused as not a
/// GPX document where the bytes are none, or hold what `gpx_readable`
/// excludes (a zero byte, a DOCTYPE, or a `time` element whose text starts
/// in the year +-9999 or is broken by markup or a character reference; on
/// some of these `gpx::read` would panic); refused where fewer than two
/// points remain.
pub fn parse_gpx(bytes: &[u8], fallback_name: &str) -> (r: Result<ParsedRoute, RouteError>)
    ensures
        !gpx_readable(bytes@) ==> r == Err::<ParsedRoute, RouteError>(RouteError::InvalidDocument),
        gpx_readable(bytes@) ==> match gpx_document(bytes@) {
            None => r == Err::<ParsedRoute, RouteError>(RouteError::InvalidDocument),
            Some(doc) => if route_points(doc).len() < 2 {
                r == Err::<ParsedRoute, RouteError>(RouteError::TooFewPoints)
            } else {
                &&& r is Ok
                &&& r->Ok_0.points@.len() >= 2
                &&& r->Ok_0.name@ == route_name(doc, fallback_name@)
                &&& r->Ok_0.points@ == route_points(doc)
            },
        },
{
    if !scan_readable(bytes) {
        return Err(RouteError::InvalidDocument);
    }
    let doc = match read_gpx(bytes) {
        Ok(doc) => doc,
        Err(_) => return Err(RouteError::InvalidDocument),
    };
    let name = document_name(&doc, fallback_name);
    let GpxDocument { tracks, routes } = doc;
    let mut points = collect_tracks(tracks);
    if points.len() == 0 {
        points = collect_routes(routes);
    }
    if points.len() < 2 {
        return Err(RouteError::TooFewPoints);
    }
    Ok(ParsedRoute { name, points })
}

} // verus!
