use vstd::prelude::*;

use crate::decimal::Decimal;

verus! {

/// A point in time: seconds and nanoseconds since the Unix epoch.
#[derive(Clone, Copy, Debug, PartialEq, Eq, Structural)]
pub struct Timestamp {
    pub secs: i64,
    pub nanos: u32,
}

/// One watched page and the condition looked for on it.
#[derive(Clone, Debug)]
pub struct Site {
    pub id: String,
    pub description: String,
    pub url: String,
    pub selector: String,
    pub rule_kind: String,
    pub text: Option<String>,
    pub value: Option<Decimal>,
    pub happy_note: String,
    pub disappointing_note: String,
    pub status_changed: Option<bool>,
    pub status_changed_date: Option<Timestamp>,
}

/// A set of sites, named by id, that are reported on together.
#[derive(Clone, Debug)]
pub struct Multiple {
    pub ids: Vec<String>,
    pub status_changed: Option<bool>,
    pub status_changed_date: Option<Timestamp>,
}

/// Credentials and addresses of the notification channel.
#[derive(Clone, Debug)]
pub struct Mailgun {
    pub from: String,
    pub to: String,
    pub domain: String,
    pub api_key: String,
}

/// Everything one pass works on.
#[derive(Clone, Debug)]
pub struct Plan {
    pub sites: Vec<Site>,
    pub mailgun: Mailgun,
    pub multiples: Vec<Multiple>,
}

/// A site whose condition has been seen to hold; it is never inspected again.
pub open spec fn finalized(site: Site) -> bool {
    site.status_changed == Some(true)
}

/// The date is present exactly when the status has changed.
pub open spec fn site_dated(site: Site) -> bool {
    site.status_changed_date is Some <==> finalized(site)
}

/// `site2` is `site1` with (at most) its status fields replaced.
pub open spec fn same_but_status(site1: Site, site2: Site) -> bool {
    &&& site2.id == site1.id
    &&& site2.description == site1.description
    &&& site2.url == site1.url
    &&& site2.selector == site1.selector
    &&& site2.rule_kind == site1.rule_kind
    &&& site2.text == site1.text
    &&& site2.value == site1.value
    &&& site2.happy_note == site1.happy_note
    &&& site2.disappointing_note == site1.disappointing_note
}

/// Relies on chrono::Local::now: the current time, read as seconds and
/// nanoseconds since the epoch. Nothing is promised of its value.
#[verifier::external_body]
pub(crate) fn current_time() -> (r: Timestamp) {
    let now = chrono::Local::now();
    Timestamp { secs: now.timestamp(), nanos: now.timestamp_subsec_nanos() }
}

impl Site {
    /// Whether the page of this site still has to be inspected.
    pub fn needs_inspection(&self) -> (r: bool)
        ensures
            r == !finalized(*self),
    {
        !matches!(self.status_changed, Some(true))
    }

    /// Records the outcome of the site's rule at time `now`.
    /// Returns (status after, whether it changed now).
    pub fn advance(&mut self, holds: bool, now: Timestamp) -> (r: (bool, bool))
        ensures
            finalized(*old(self)) ==> *final(self) == *old(self) && r == (true, false),
            !finalized(*old(self)) && holds ==> r == (true, true) && final(self).status_changed
                == Some(true) && final(self).status_changed_date == Some(now) && same_but_status(
                *old(self),
                *final(self),
            ),
            !finalized(*old(self)) && !holds ==> *final(self) == *old(self) && r == (false, false),
    {
        if matches!(self.status_changed, Some(true)) {
            (true, false)
        } else if holds {
            self.status_changed = Some(true);
            self.status_changed_date = Some(now);
            (true, true)
        } else {
            (false, false)
        }
    }
}

} // verus!
