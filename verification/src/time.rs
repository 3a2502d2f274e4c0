use vstd::prelude::*;

verus! {

/// A UTC instant: whole seconds since the Unix epoch and the nanoseconds
/// into that second (at least one billion only inside a leap second).
#[derive(Clone, Copy, Debug, PartialEq, Eq, Structural)]
pub struct UtcTime {
    pub secs: i64,
    pub nanos: u32,
}

/// The UTC instant that an RFC 3339 timestamp denotes, or `None` where the
/// text is not such a timestamp (the offset in the text is applied).
pub uninterp spec fn rfc3339_instant(text: Seq<char>) -> Option<UtcTime>;

/// Parses an RFC 3339 timestamp with `chrono::DateTime::parse_from_rfc3339`
/// and converts it to UTC. Claimed of chrono: the outcome depends on the text
/// alone (it is `rfc3339_instant` of the text); nothing more is stated.
#[verifier::external_body]
pub(crate) fn parse_rfc3339(text: &str) -> (r: Option<UtcTime>)
    ensures
        r == rfc3339_instant(text@),
{
    match chrono::DateTime::parse_from_rfc3339(text) {
        Ok(t) => {
            let utc = t.with_timezone(&chrono::Utc);
            Some(UtcTime { secs: utc.timestamp(), nanos: utc.timestamp_subsec_nanos() })
        },
        Err(_) => None,
    }
}

/// The instant an Open-Meteo hour label such as `2024-06-01T13:00` names,
/// read as UTC: the label with `:00Z` appended, as RFC 3339.
pub open spec fn hour_instant(label: Seq<char>) -> Option<UtcTime> {
    rfc3339_instant(label + ":00Z"@)
}

/// An hour label is read as the RFC 3339 timestamp made by appending
/// seconds and the UTC designator `:00Z`.
pub proof fn hour_labels_are_read_with_zero_seconds_in_utc(label: Seq<char>)
    ensures
        hour_instant(label) == rfc3339_instant(label + seq![':', '0', '0', 'Z']),
{
    reveal_strlit(":00Z");
    assert(":00Z"@ =~= seq![':', '0', '0', 'Z']);
}

/// Reads an hour label of a forecast reply (minutes precision, UTC).
pub fn hour_start(label: &str) -> (r: Option<UtcTime>)
    ensures
        r == hour_instant(label@),
{
    let mut text = String::from_str(label);
    text.append(":00Z");
    parse_rfc3339(text.as_str())
}

} // verus!
