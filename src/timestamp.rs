//! Local wall-clock time, as the history records it.

use chrono::{Datelike, Timelike};
use vstd::prelude::*;

use crate::text::{padded, push_char, push_padded};

verus! {

/// A calendar date and time of day, to the second.
#[derive(Debug, Clone, Copy, PartialEq, Eq)]
pub struct Timestamp {
    pub year: i32,
    pub month: u32,
    pub day: u32,
    pub hour: u32,
    pub minute: u32,
    pub second: u32,
}

impl Timestamp {
    /// Each field is in its calendar range.
    pub open spec fn wf(&self) -> bool {
        &&& 1 <= self.month <= 12
        &&& 1 <= self.day <= 31
        &&& self.hour < 24
        &&& self.minute < 60
        &&& self.second < 60
    }

    /// The year as written: four digits, zero-padded, for years 0 to 9999;
    /// outside that range a sign comes first.
    pub open spec fn year_text(y: int) -> Seq<char> {
        if 0 <= y <= 9999 {
            padded(y as nat, 4)
        } else if y < 0 {
            seq!['-'] + padded((-y) as nat, 4)
        } else {
            seq!['+'] + padded(y as nat, 4)
        }
    }

    /// `YYYY-MM-DD HH:MM:SS`.
    pub open spec fn text(&self) -> Seq<char> {
        Self::year_text(self.year as int) + seq!['-'] + padded(self.month as nat, 2) + seq!['-']
            + padded(self.day as nat, 2) + seq![' '] + padded(self.hour as nat, 2) + seq![':']
            + padded(self.minute as nat, 2) + seq![':'] + padded(self.second as nat, 2)
    }

    fn write_year(y: i32, s: &mut String)
        ensures
            final(s)@ == old(s)@ + Self::year_text(y as int),
    {
        let ghost start = s@;
        if y < 0 {
            push_char(s, '-');
            let a: u32 = if y == i32::MIN { 2147483648u32 } else { (-y) as u32 };
            push_padded(s, a, 4);
        } else if y > 9999 {
            push_char(s, '+');
            push_padded(s, y as u32, 4);
        } else {
            push_padded(s, y as u32, 4);
        }
        assert(s@ =~= start + Self::year_text(y as int));
    }

    fn write_field(s: &mut String, sep: char, n: u32)
        ensures
            final(s)@ == old(s)@ + seq![sep] + padded(n as nat, 2),
    {
        let ghost start = s@;
        push_char(s, sep);
        push_padded(s, n, 2);
        assert(s@ =~= start + seq![sep] + padded(n as nat, 2));
    }

    /// Appends `YYYY-MM-DD HH:MM:SS` to `s`.
    pub fn write_to(&self, s: &mut String)
        ensures
            final(s)@ == old(s)@ + self.text(),
    {
        let ghost start = s@;
        Self::write_year(self.year, s);
        Self::write_field(s, '-', self.month);
        Self::write_field(s, '-', self.day);
        Self::write_field(s, ' ', self.hour);
        Self::write_field(s, ':', self.minute);
        Self::write_field(s, ':', self.second);
        assert(s@ =~= start + self.text());
    }

    /// `YYYY-MM-DD HH:MM:SS`.
    pub fn to_text(&self) -> (r: String)
        ensures
            r@ == self.text(),
    {
        let mut s = String::new();
        self.write_to(&mut s);
        assert(s@ =~= self.text());
        s
    }
}

/// Relies on std::time::SystemTime::now and SystemTime::duration_since: the
/// whole seconds and the nanoseconds of the system clock since the Unix
/// epoch, or `None` when the clock reads earlier than the epoch.
#[verifier::external_body]
fn unix_now() -> (r: Option<(u64, u32)>)
    ensures
        r matches Some(t) ==> t.1 < 1_000_000_000,
{
    let d = std::time::SystemTime::now().duration_since(std::time::UNIX_EPOCH).ok()?;
    Some((d.as_secs(), d.subsec_nanos()))
}

/// Relies on chrono::DateTime::from_timestamp, DateTime::with_timezone(&Local)
/// and the Datelike and Timelike accessors: the local date and time at `secs`
/// seconds and `nanos` nanoseconds after the Unix epoch, in the machine's time
/// zone; `None` where chrono finds the instant out of its range. chrono
/// documents the month as 1 to 12, the day as 1 to 31, the hour as 0 to 23
/// and the minute and second as 0 to 59. chrono's lookup of the local offset
/// may still panic where the time-zone data yields no valid offset.
#[verifier::external_body]
fn local_at(secs: i64, nanos: u32) -> (r: Option<Timestamp>)
    ensures
        r matches Some(t) ==> t.wf(),
{
    let at = chrono::DateTime::from_timestamp(secs, nanos)?.with_timezone(&chrono::Local);
    Some(Timestamp {
        year: at.year(),
        month: at.month(),
        day: at.day(),
        hour: at.hour(),
        minute: at.minute(),
        second: at.second(),
    })
}

/// The local date and time now, or `None` where the system clock reads
/// earlier than the Unix epoch or beyond what a calendar date can hold.
pub fn local_now() -> (r: Option<Timestamp>)
    ensures
        r matches Some(t) ==> t.wf(),
{
    match unix_now() {
        Some((secs, nanos)) => {
            if secs > i64::MAX as u64 {
                None
            } else {
                local_at(secs as i64, nanos)
            }
        },
        None => None,
    }
}

} // verus!
