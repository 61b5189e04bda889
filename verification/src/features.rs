use vstd::prelude::*;

use crate::civil::CivilTime;

verus! {

// The criteria that workers hand to the content features: the query
// instant for an announcement, and the query instant with the matched
// text for a response.  The engine never reads a clock itself; every
// query carries its own instant.

/// When an announcement is being built.
#[derive(Debug, Clone, Copy)]
pub struct AnnouncementCriteria {
    pub at: CivilTime,
}

impl AnnouncementCriteria {
    pub fn new(at: CivilTime) -> (r: AnnouncementCriteria)
        ensures
            r.at == at,
    {
        AnnouncementCriteria { at }
    }

    pub fn at(&self) -> (r: CivilTime)
        ensures
            r == self.at,
    {
        self.at
    }
}

/// When a response is being built, and to what text.
#[derive(Debug)]
pub struct ResponseCriteria {
    pub at: CivilTime,
    pub text: String,
}

impl ResponseCriteria {
    pub fn new(at: CivilTime, text: String) -> (r: ResponseCriteria)
        ensures
            r.at == at,
            r.text == text,
    {
        ResponseCriteria { at, text }
    }

    pub fn at(&self) -> (r: CivilTime)
        ensures
            r == self.at,
    {
        self.at
    }

    pub fn text(&self) -> (r: &str)
        ensures
            r@ == self.text@,
    {
        self.text.as_str()
    }
}

} // verus!
