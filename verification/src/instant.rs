//! Instants: RFC 3339 text, and nanoseconds since the Unix epoch.

use vstd::prelude::*;

use crate::text::Text;


verus! {

/// 2000-01-01T00:00:00Z, from which the database counts whole microseconds.
pub const DATABASE_EPOCH: i128 = 946_684_800_000_000_000;

/// The instant that an RFC 3339 text stands for, if it is one.
pub uninterp spec fn rfc3339_instant(text: Seq<char>) -> Option<i128>;

/// 0000-01-01T00:00:00Z, the first instant that RFC 3339 can say.
pub const FIRST_SHOWN: i128 = -62_167_219_200_000_000_000;

/// 9999-12-31T23:59:59.999999999Z, the last instant that RFC 3339 can say.
pub const LAST_SHOWN: i128 = 253_402_300_799_999_999_999;

/// The RFC 3339 text of an instant in UTC.
pub uninterp spec fn rfc3339_text(nanos: i128) -> Seq<char>;

/// What is said of an instant that has no RFC 3339 text.
pub uninterp spec fn rfc3339_refusal(nanos: i128) -> Seq<char>;

/// The RFC 3339 text of an instant of a year of four digits, or the reason why it has none.
pub open spec fn instant_text(nanos: i128) -> Result<Text, Text> {
    if FIRST_SHOWN <= nanos <= LAST_SHOWN {
        Ok(rfc3339_text(nanos))
    } else {
        Err(rfc3339_refusal(nanos))
    }
}

/// Reads an RFC 3339 text by `time::OffsetDateTime::parse` with `Rfc3339`, and hands out its
/// `unix_timestamp_nanos`. The result depends on the text alone.
#[verifier::external_body]
pub(crate) fn parse_rfc3339(text: &str) -> (r: Option<i128>)
    ensures
        r == rfc3339_instant(text@),
{
    time::OffsetDateTime::parse(text, &time::format_description::well_known::Rfc3339)
        .ok()
        .map(|value| value.unix_timestamp_nanos())
}

/// Writes an instant by `time::OffsetDateTime::format` with `Rfc3339`, in UTC. It takes every
/// instant of the years zero to 9999 and no other. What it writes depends on the instant alone. So
/// does what is said of an instant that it does not take: what `from_unix_timestamp_nanos` says of
/// one that no `OffsetDateTime` holds, and else what `format` says.
#[verifier::external_body]
pub(crate) fn format_rfc3339(nanos: i128) -> (r: Result<String, String>)
    ensures
        match r {
            Ok(text) => FIRST_SHOWN <= nanos <= LAST_SHOWN && text@ == rfc3339_text(nanos),
            Err(message) => !(FIRST_SHOWN <= nanos <= LAST_SHOWN) && message@ == rfc3339_refusal(
                nanos,
            ),
        },
{
    match time::OffsetDateTime::from_unix_timestamp_nanos(nanos) {
        Ok(value) => value.format(&time::format_description::well_known::Rfc3339).map_err(
            |error| error.to_string(),
        ),
        Err(error) => Err(error.to_string()),
    }
}

/// The instant that the database keeps for `n`: whole microseconds, cut towards its own epoch.
pub open spec fn kept_instant(n: int) -> int {
    if n >= DATABASE_EPOCH || n % 1000 == 0 {
        n - n % 1000
    } else {
        n - n % 1000 + 1000
    }
}

/// The instant as the database keeps it.
pub fn stored_instant(nanos: i128) -> (r: i128)
    ensures
        r == kept_instant(nanos as int),
{
    if nanos >= 0 {
        let rest: i128 = nanos % 1000;
        if nanos >= DATABASE_EPOCH || rest == 0 {
            nanos - rest
        } else {
            nanos - rest + 1000
        }
    } else {
        let below: i128 = (-(nanos + 1)) % 1000;
        // The remainder counted upwards from the next lower multiple.
        let rest: i128 = 999 - below;
        assert(nanos as int % 1000 == rest);
        if rest == 0 {
            nanos
        } else {
            nanos + (1000 - rest)
        }
    }
}

/// Cutting to what the database keeps never puts two instants out of order.
pub proof fn law_kept_instants_stay_in_order(a: int, b: int)
    requires
        a <= b,
    ensures
        kept_instant(a) <= kept_instant(b),
{
}

/// What the database keeps of an instant is a whole microsecond less than one microsecond away from
/// it, on the side of the database's epoch; a whole microsecond is kept as it is.
pub proof fn law_kept_instant_is_the_microsecond(n: int)
    ensures
        kept_instant(n) % 1000 == 0,
        n % 1000 == 0 ==> kept_instant(n) == n,
        n >= 946_684_800_000_000_000 ==> n - 1000 < kept_instant(n) <= n,
        n < 946_684_800_000_000_000 ==> n <= kept_instant(n) < n + 1000,
        n < 946_684_800_000_000_000 ==> kept_instant(n) <= 946_684_800_000_000_000,
{
}

} // verus!
