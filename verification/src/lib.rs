//! Trace context and segment documents for an X-Ray compatible tracing backend.
//!
//! The crate generates trace and segment identifiers, reads and writes the
//! `X-Amzn-Trace-Id` propagation header, and keeps the segment document of a
//! traced operation from its beginning to its end.

pub mod header;
pub mod hex;
pub mod ids;
pub mod random;
pub mod round_trip;
pub mod segment;
pub mod text;
pub mod time;

use crate::header::{Header, HeaderView, ParseError};
use crate::segment::Segment;
use std::collections::HashMap;
use vstd::prelude::*;

verus! {

/// Told when a span is closed for which no segment is kept. It carries the id
/// of the span.
#[derive(Debug, Clone, Copy, PartialEq, Eq, Structural)]
pub struct UnknownSpan(pub u64);

/// The field on which the reading of the trace header that came with a span
/// fails, if a header came and its reading fails.
pub open spec fn unreadable_field(header: Option<&str>) -> Option<Seq<char>> {
    match header {
        Some(text) => match HeaderView::blank(Seq::empty()).parse(text@) {
            Ok(_) => None,
            Err(bad) => Some(bad),
        },
        None => None,
    }
}

/// The segments of the spans that are open, each under the id of its span.
pub struct XRay {
    segments: HashMap<u64, Segment>,
}

impl View for XRay {
    type V = Map<u64, Segment>;

    closed spec fn view(&self) -> Map<u64, Segment> {
        self.segments@
    }
}

impl XRay {
    /// A table that keeps no segment.
    pub fn new() -> (xray: XRay)
        ensures
            xray@ == Map::<u64, Segment>::empty(),
    {
        XRay { segments: HashMap::new() }
    }

    /// Takes note of a new span: a segment begins under the name of the span
    /// and is kept under its id, in the place of any that was kept there.
    /// Where a trace header came with the span, it is read first; if it
    /// cannot be read, no segment begins and the error is returned.
    pub fn new_span(
        &mut self,
        id: u64,
        header: Option<&str>,
        name: String,
    ) -> (r: Result<(), ParseError>)
        ensures
            match unreadable_field(header) {
                Some(bad) => {
                    &&& r matches Err(ParseError::MalformedField(field))
                    &&& field@ == bad
                    &&& final(self)@ == old(self)@
                },
                None => {
                    &&& r is Ok
                    &&& final(self)@.contains_key(id)
                    &&& final(self)@ == old(self)@.insert(id, final(self)@[id])
                    &&& final(self)@[id].begun(name@)
                    &&& final(self)@[id].well_formed()
                },
            },
    {
        match header {
            Some(text) => match Header::parse(text) {
                Ok(_) => {},
                Err(error) => {
                    return Err(error);
                },
            },
            None => {},
        }
        self.segments.insert(id, Segment::begin(name));
        Ok(())
    }

    /// Takes note that a span has closed: its segment ends, and stays in the
    /// table. Where no segment is kept for the span, nothing changes and the
    /// error is returned.
    pub fn on_close(&mut self, id: u64) -> (r: Result<(), UnknownSpan>)
        ensures
            match r {
                Ok(()) => {
                    &&& old(self)@.contains_key(id)
                    &&& final(self)@.contains_key(id)
                    &&& final(self)@ == old(self)@.insert(id, final(self)@[id])
                    &&& final(self)@[id].end_time is Some
                    &&& final(self)@[id] == old(self)@[id].ended_at(final(self)@[id].end_time->0)
                },
                Err(unknown) => {
                    &&& !old(self)@.contains_key(id)
                    &&& unknown == UnknownSpan(id)
                    &&& final(self)@ == old(self)@
                },
            },
    {
        match self.segments.remove(&id) {
            Some(segment) => {
                let mut segment = segment;
                segment.end();
                self.segments.insert(id, segment);
                assert(self.segments@ =~= old(self).segments@.insert(id, self.segments@[id]));
                Ok(())
            },
            None => {
                assert(self.segments@ =~= old(self).segments@);
                Err(UnknownSpan(id))
            },
        }
    }

    /// The segment that is kept for the span `id`, if there is one.
    pub fn segment(&self, id: u64) -> (segment: Option<&Segment>)
        ensures
            match segment {
                Some(segment) => self@.contains_key(id) && self@[id] == *segment,
                None => !self@.contains_key(id),
            },
    {
        self.segments.get(&id)
    }

    /// Takes the segment of the span `id` out of the table, if there is one.
    pub fn remove(&mut self, id: u64) -> (segment: Option<Segment>)
        ensures
            match segment {
                Some(segment) => old(self)@.contains_key(id) && old(self)@[id] == segment,
                None => !old(self)@.contains_key(id),
            },
            final(self)@ == old(self)@.remove(id),
    {
        self.segments.remove(&id)
    }
}

impl Default for XRay {
    /// A table that keeps no segment.
    fn default() -> (xray: XRay)
        ensures
            xray@ == Map::<u64, Segment>::empty(),
    {
        XRay::new()
    }
}

} // verus!
