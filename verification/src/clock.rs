//! Instants and how they are written.

use vstd::prelude::*;

verus! {

/// An instant with the offset from UTC that holds where it is written down.
#[derive(Clone, Copy, Debug)]
pub struct Moment {
    /// Whole seconds since the Unix epoch.
    pub secs: i64,
    /// Nanoseconds since the last whole second.
    pub nanos: u32,
    /// Seconds by which local time is ahead of UTC.
    pub offset: i32,
}

/// The layout of the time in front of each log line.
pub open spec fn log_layout() -> Seq<char> {
    "%Y-%m-%d %H:%M:%S"@
}

/// What `chrono` writes for an instant as RFC 3339; nothing for an instant or an offset that it
/// cannot hold.
pub uninterp spec fn rfc3339_text(secs: i64, nanos: u32, offset: i32) -> Option<Seq<char>>;

/// What `chrono` writes for an instant in a given layout; nothing for an instant or an offset
/// that it cannot hold.
pub uninterp spec fn layout_text(secs: i64, nanos: u32, offset: i32, layout: Seq<char>) -> Option<
    Seq<char>,
>;

/// Calls `chrono::DateTime::to_rfc3339` on the instant at its offset. The text depends on the
/// three numbers alone and holds no line break: it is made of digits, signs, colons, a point and a
/// `T`. Nothing comes back where `chrono` cannot hold the instant or the offset.
#[verifier::external_body]
fn write_rfc3339(secs: i64, nanos: u32, offset: i32) -> (r: Option<String>)
    ensures
        match r {
            Some(s) => rfc3339_text(secs, nanos, offset) == Some(s@) && !s@.contains('\n'),
            None => rfc3339_text(secs, nanos, offset) is None,
        },
{
    let zone = chrono::FixedOffset::east_opt(offset)?;
    let at = chrono::DateTime::from_timestamp(secs, nanos)?;
    Some(at.with_timezone(&zone).to_rfc3339())
}

/// Calls `chrono::DateTime::format` on the instant at its offset. The text depends on the numbers
/// and the layout alone; nothing comes back where `chrono` cannot hold the instant or the offset.
/// Other layouts are left out: writing a layout that `chrono` does not know panics.
#[verifier::external_body]
fn write_layout(secs: i64, nanos: u32, offset: i32, layout: &str) -> (r: Option<String>)
    requires
        layout@ == log_layout(),
    ensures
        match r {
            Some(s) => layout_text(secs, nanos, offset, layout@) == Some(s@),
            None => layout_text(secs, nanos, offset, layout@) is None,
        },
{
    let zone = chrono::FixedOffset::east_opt(offset)?;
    let at = chrono::DateTime::from_timestamp(secs, nanos)?;
    Some(at.with_timezone(&zone).format(layout).to_string())
}

impl Moment {
    /// The instant as RFC 3339.
    pub open spec fn rfc3339_view(&self) -> Option<Seq<char>> {
        rfc3339_text(self.secs, self.nanos, self.offset)
    }

    /// The instant as it stands in front of a log line.
    pub open spec fn log_view(&self) -> Option<Seq<char>> {
        layout_text(self.secs, self.nanos, self.offset, log_layout())
    }

    /// Writes the instant as RFC 3339.
    pub fn rfc3339(&self) -> (r: Option<String>)
        ensures
            match r {
                Some(s) => self.rfc3339_view() == Some(s@) && !s@.contains('\n'),
                None => self.rfc3339_view() is None,
            },
    {
        write_rfc3339(self.secs, self.nanos, self.offset)
    }

    /// Writes the instant for a log line.
    pub fn log_stamp(&self) -> (r: Option<String>)
        ensures
            match r {
                Some(s) => self.log_view() == Some(s@),
                None => self.log_view() is None,
            },
    {
        write_layout(self.secs, self.nanos, self.offset, "%Y-%m-%d %H:%M:%S")
    }
}

} // verus!
