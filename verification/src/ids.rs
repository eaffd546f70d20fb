//! Identifiers of traces and of segments, and their one text form.

use crate::hex::{
    all_lower_hex, hex_of_bytes, lemma_hex_digits_shape, lemma_hex_len_bound,
    lemma_hex_of_bytes_shape, lower_hex, pow16, push_hex_of_bytes, push_lower_hex,
};
use crate::random::fill_bytes;
use crate::time::Seconds;
use vstd::prelude::*;

verus! {

/// Whether `text` is sixteen lowercase hexadecimal digits.
pub open spec fn is_segment_id_text(text: Seq<char>) -> bool {
    text.len() == 16 && all_lower_hex(text)
}

/// Whether `text` is a `1`, a hyphen, eight lowercase hexadecimal digits, a
/// hyphen and twenty-four lowercase hexadecimal digits: 35 characters.
pub open spec fn is_trace_id_text(text: Seq<char>) -> bool {
    &&& text.len() == 35
    &&& text[0] == '1'
    &&& text[1] == '-'
    &&& all_lower_hex(text.subrange(2, 10))
    &&& text[10] == '-'
    &&& all_lower_hex(text.subrange(11, 35))
}

/// The text of a trace id made from a count of seconds and twelve bytes: the
/// version `1`, the seconds in at least eight hexadecimal digits, and the bytes
/// in twenty-four, with a hyphen between each two.
pub open spec fn trace_id_text(seconds: u64, bytes: Seq<u8>) -> Seq<char> {
    seq!['1', '-'] + lower_hex(seconds as nat, 8) + seq!['-'] + hex_of_bytes(bytes)
}

/// Unique identifier of an operation within a trace.
#[derive(Debug)]
pub enum SegmentId {
    /// Made here: eight random bytes.
    New([u8; 8]),
    /// Received from elsewhere and kept as it came.
    Rendered(String),
}

impl View for SegmentId {
    type V = Seq<char>;

    /// The text of the identifier: sixteen hexadecimal digits for one made
    /// here, the received text otherwise.
    open spec fn view(&self) -> Seq<char> {
        match self {
            SegmentId::New(bytes) => hex_of_bytes(bytes@),
            SegmentId::Rendered(text) => text@,
        }
    }
}

impl SegmentId {
    /// Generates a new random segment id.
    pub fn new() -> (id: SegmentId)
        ensures
            id is New,
            is_segment_id_text(id@),
    {
        let mut buf = [0u8; 8];
        let mut rng = rand::thread_rng();
        fill_bytes(&mut rng, &mut buf);
        proof {
            lemma_segment_id_shape(buf);
        }
        SegmentId::New(buf)
    }

    /// The text of the identifier.
    pub fn to_string(&self) -> (text: String)
        ensures
            text@ == self@,
    {
        match self {
            SegmentId::New(bytes) => {
                let mut out = String::new();
                push_hex_of_bytes(&mut out, bytes.as_slice());
                out
            },
            SegmentId::Rendered(text) => text.clone(),
        }
    }
}

impl Clone for SegmentId {
    fn clone(&self) -> (copy: SegmentId)
        ensures
            copy == *self,
    {
        match self {
            SegmentId::New(bytes) => SegmentId::New(*bytes),
            SegmentId::Rendered(text) => SegmentId::Rendered(text.clone()),
        }
    }
}

impl Default for SegmentId {
    /// A new random segment id.
    fn default() -> (id: SegmentId)
        ensures
            id is New,
            is_segment_id_text(id@),
    {
        SegmentId::new()
    }
}

impl PartialEq for SegmentId {
    /// Two identifiers are equal when their texts are, wherever they came from.
    fn eq(&self, other: &SegmentId) -> (equal: bool) {
        self.to_string() == other.to_string()
    }
}

impl vstd::std_specs::cmp::PartialEqSpecImpl for SegmentId {
    open spec fn obeys_eq_spec() -> bool {
        true
    }

    open spec fn eq_spec(&self, other: &SegmentId) -> bool {
        self@ == other@
    }
}

/// Identifier of all the segments that describe one request.
#[derive(Debug)]
pub enum TraceId {
    /// Made here: the seconds since the epoch at that time, and twelve random
    /// bytes.
    New(u64, [u8; 12]),
    /// Received from elsewhere and kept as it came.
    Rendered(String),
}

impl View for TraceId {
    type V = Seq<char>;

    /// The text of the identifier: `trace_id_text` for one made here, the
    /// received text otherwise.
    open spec fn view(&self) -> Seq<char> {
        match self {
            TraceId::New(seconds, bytes) => trace_id_text(*seconds, bytes@),
            TraceId::Rendered(text) => text@,
        }
    }
}

impl TraceId {
    /// Generates a new trace id from the current time and random bytes. Its
    /// text has the fixed 35 characters as long as the clock's seconds fit in
    /// eight hexadecimal digits.
    pub fn new() -> (id: TraceId)
        ensures
            id is New,
            id->New_0 < 0x1_0000_0000 ==> is_trace_id_text(id@),
    {
        let mut buf = [0u8; 12];
        let mut rng = rand::thread_rng();
        fill_bytes(&mut rng, &mut buf);
        let seconds = Seconds::now().trunc();
        proof {
            if seconds < 0x1_0000_0000 {
                lemma_trace_id_shape(seconds, buf);
            }
        }
        TraceId::New(seconds, buf)
    }

    /// The text of the identifier.
    pub fn to_string(&self) -> (text: String)
        ensures
            text@ == self@,
    {
        match self {
            TraceId::New(seconds, bytes) => {
                let mut out = String::new();
                out.push('1');
                out.push('-');
                push_lower_hex(&mut out, *seconds, 8);
                out.push('-');
                push_hex_of_bytes(&mut out, bytes.as_slice());
                assert(out@ =~= trace_id_text(*seconds, bytes@));
                out
            },
            TraceId::Rendered(text) => text.clone(),
        }
    }
}

impl Clone for TraceId {
    fn clone(&self) -> (copy: TraceId)
        ensures
            copy == *self,
    {
        match self {
            TraceId::New(seconds, bytes) => TraceId::New(*seconds, *bytes),
            TraceId::Rendered(text) => TraceId::Rendered(text.clone()),
        }
    }
}

impl Default for TraceId {
    /// A new trace id, as `TraceId::new` makes it.
    fn default() -> (id: TraceId)
        ensures
            id is New,
            id->New_0 < 0x1_0000_0000 ==> is_trace_id_text(id@),
    {
        TraceId::new()
    }
}

impl PartialEq for TraceId {
    /// Two identifiers are equal when their texts are, wherever they came from.
    fn eq(&self, other: &TraceId) -> (equal: bool) {
        self.to_string() == other.to_string()
    }
}

impl vstd::std_specs::cmp::PartialEqSpecImpl for TraceId {
    open spec fn obeys_eq_spec() -> bool {
        true
    }

    open spec fn eq_spec(&self, other: &TraceId) -> bool {
        self@ == other@
    }
}

/// Every segment id made from eight bytes shows as sixteen lowercase
/// hexadecimal digits.
pub proof fn lemma_segment_id_shape(bytes: [u8; 8])
    ensures
        is_segment_id_text(SegmentId::New(bytes)@),
{
    lemma_hex_of_bytes_shape(bytes@);
}

/// Every trace id made from twelve bytes and a count of seconds below `2^32`
/// shows as `1-`, eight lowercase hexadecimal digits, `-` and twenty-four
/// lowercase hexadecimal digits.
pub proof fn lemma_trace_id_shape(seconds: u64, bytes: [u8; 12])
    requires
        seconds < 0x1_0000_0000,
    ensures
        is_trace_id_text(TraceId::New(seconds, bytes)@),
{
    let text = TraceId::New(seconds, bytes)@;
    let time = lower_hex(seconds as nat, 8);
    let random = hex_of_bytes(bytes@);
    assert(pow16(8) == 0x1_0000_0000) by {
        reveal_with_fuel(pow16, 9);
    }
    lemma_hex_len_bound(seconds as nat, 8);
    lemma_hex_digits_shape(seconds as nat, 8);
    lemma_hex_of_bytes_shape(bytes@);
    assert(time.len() == 8);
    assert(text.subrange(2, 10) =~= time);
    assert(text.subrange(11, 35) =~= random);
}

} // verus!
