use vstd::prelude::*;

use crate::civil::CivilTime;
use crate::strutil::{
    chars_to_string, dec_digits, dec_pad2, dec_pad4, push_digits, push_pad2, push_pad4,
    replace_seq, replace_token, string_to_chars,
};

verus! {

// The weekly activity announcement: the instance reports login and
// status counts per week; a week is announced once, and only where it is
// newer than the last announced week.  Fetching the counts and keeping
// the last-announced mark are the caller's work; the decision and the
// text are built here.

/// The weekly activity feature: the announcement template.
#[derive(Debug)]
pub struct WeeklyActivity {
    pub announcement: String,
}

/// A date rendered as year, month and day, zero-padded and dash-joined.
pub open spec fn date_text(c: CivilTime) -> Seq<char> {
    dec_pad4(c.year as nat) + seq!['-'] + dec_pad2(c.month as nat) + seq!['-'] + dec_pad2(
        c.day as nat,
    )
}

/// Render a date as year, month and day, zero-padded and dash-joined.
pub fn build_date_text(c: &CivilTime) -> (r: String)
    requires
        c.wf(),
    ensures
        r@ == date_text(*c),
{
    let mut out: Vec<char> = Vec::new();
    push_pad4(c.year as u64, &mut out);
    out.push('-');
    push_pad2(c.month as u64, &mut out);
    out.push('-');
    push_pad2(c.day as u64, &mut out);
    proof {
        assert(out@ =~= date_text(*c));
    }
    chars_to_string(&out)
}

impl WeeklyActivity {
    /// The announcement for the week starting at `start`: its first and
    /// last day, and the activity counts.
    pub open spec fn announcement_text(
        self,
        start: CivilTime,
        end: CivilTime,
        logins: u64,
        statuses: u64,
    ) -> Seq<char> {
        replace_seq(
            replace_seq(
                replace_seq(
                    replace_seq(self.announcement@, "__START_DATE__"@, date_text(start)),
                    "__END_DATE__"@,
                    date_text(end),
                ),
                "__ACTIVE_USER__"@,
                dec_digits(logins as nat),
            ),
            "__STATUS_COUNT__"@,
            dec_digits(statuses as nat),
        )
    }

    /// Announce the week starting at `start` where it is newer than the
    /// last announced one; nothing otherwise.
    pub fn announce_week(
        &self,
        week: i64,
        last_announced: i64,
        start: &CivilTime,
        logins: u64,
        statuses: u64,
    ) -> (r: Option<String>)
        requires
            start.wf(),
            start.year <= 9996,
        ensures
            (r is Some) <==> week > last_announced,
            (r matches Some(t) ==> t@ == self.announcement_text(
                *start,
                start.plus_days_civil(6),
                logins,
                statuses,
            )),
    {
        if week <= last_announced {
            return None;
        }
        let end = start.plus_days(6);
        let s1 = replace_token(
            self.announcement.as_str(),
            "__START_DATE__",
            build_date_text(start).as_str(),
        );
        let s2 = replace_token(s1.as_str(), "__END_DATE__", build_date_text(&end).as_str());
        let mut logins_s: Vec<char> = Vec::new();
        push_digits(logins, &mut logins_s);
        let s3 = replace_token(s2.as_str(), "__ACTIVE_USER__", chars_to_string(&logins_s).as_str());
        let mut statuses_s: Vec<char> = Vec::new();
        push_digits(statuses, &mut statuses_s);
        proof {
            assert(Seq::<char>::empty() + dec_digits(logins as nat) =~= dec_digits(logins as nat));
            assert(Seq::<char>::empty() + dec_digits(statuses as nat) =~= dec_digits(
                statuses as nat,
            ));
        }
        Some(
            replace_token(s3.as_str(), "__STATUS_COUNT__", chars_to_string(&statuses_s).as_str()),
        )
    }
}

} // verus!
