//! The propagation header: its fields, its text form, and the reading of that
//! text.

use crate::ids::{trace_id_text, SegmentId, TraceId};
use crate::text::{
    chars_of, find, find_from, lemma_find, lemma_find_is, same_text, split, starts_with,
    string_of_range,
};
use vstd::prelude::*;
use vstd::slice::slice_subrange;

verus! {

/// Whether the data of the current request is to be recorded.
#[derive(Debug, Clone, Copy, PartialEq, Eq, Structural)]
pub enum SamplingDecision {
    /// The segment has been sampled and will be sent on.
    Sampled,
    /// The segment has not been sampled.
    NotSampled,
    /// The decision is asked of the service downstream, which sends it back
    /// with its response.
    Requested,
    /// No decision will be made.
    Unknown,
}

impl SamplingDecision {
    /// The field that carries the decision in a header. `Unknown` has none:
    /// its code is empty.
    pub open spec fn code(self) -> Seq<char> {
        match self {
            SamplingDecision::Sampled => "Sampled=1"@,
            SamplingDecision::NotSampled => "Sampled=0"@,
            SamplingDecision::Requested => "Sampled=?"@,
            SamplingDecision::Unknown => Seq::empty(),
        }
    }

    /// The decision that a field carries: one of the three codes, letter for
    /// letter, and `Unknown` for every other text.
    pub open spec fn of_code(code: Seq<char>) -> SamplingDecision {
        if code == "Sampled=1"@ {
            SamplingDecision::Sampled
        } else if code == "Sampled=0"@ {
            SamplingDecision::NotSampled
        } else if code == "Sampled=?"@ {
            SamplingDecision::Requested
        } else {
            SamplingDecision::Unknown
        }
    }

    /// The decision that the characters `code` carry.
    pub fn from_chars(code: &[char]) -> (decision: SamplingDecision)
        ensures
            decision == SamplingDecision::of_code(code@),
    {
        if same_text(code, "Sampled=1") {
            SamplingDecision::Sampled
        } else if same_text(code, "Sampled=0") {
            SamplingDecision::NotSampled
        } else if same_text(code, "Sampled=?") {
            SamplingDecision::Requested
        } else {
            SamplingDecision::Unknown
        }
    }

    /// The field that carries the decision in a header, empty for `Unknown`.
    pub fn as_str(&self) -> (code: &'static str)
        ensures
            code@ == self.code(),
    {
        match self {
            SamplingDecision::Sampled => "Sampled=1",
            SamplingDecision::NotSampled => "Sampled=0",
            SamplingDecision::Requested => "Sampled=?",
            SamplingDecision::Unknown => {
                proof {
                    reveal_strlit("");
                }
                assert(""@ =~= Seq::<char>::empty());
                ""
            },
        }
    }

    /// The field that carries the decision in a header, empty for `Unknown`.
    pub fn to_string(&self) -> (code: String)
        ensures
            code@ == self.code(),
    {
        self.as_str().to_owned()
    }
}

impl<'a> From<&'a str> for SamplingDecision {
    /// The decision that `value` carries.
    fn from(value: &'a str) -> (decision: SamplingDecision) {
        let code = chars_of(value);
        SamplingDecision::from_chars(code.as_slice())
    }
}

impl<'a> vstd::std_specs::convert::FromSpecImpl<&'a str> for SamplingDecision {
    open spec fn obeys_from_spec() -> bool {
        true
    }

    open spec fn from_spec(value: &'a str) -> SamplingDecision {
        SamplingDecision::of_code(value@)
    }
}

impl Default for SamplingDecision {
    fn default() -> (decision: SamplingDecision)
        ensures
            decision == SamplingDecision::Unknown,
    {
        SamplingDecision::Unknown
    }
}

/// Reading the code of a decision gives the decision back.
pub proof fn lemma_decision_code_round_trip(decision: SamplingDecision)
    ensures
        SamplingDecision::of_code(decision.code()) == decision,
{
    reveal_strlit("Sampled=1");
    reveal_strlit("Sampled=0");
    reveal_strlit("Sampled=?");
    assert("Sampled=1"@.len() == 9 && "Sampled=1"@[8] == '1');
    assert("Sampled=0"@.len() == 9 && "Sampled=0"@[8] == '0');
    assert("Sampled=?"@.len() == 9 && "Sampled=?"@[8] == '?');
    assert(Seq::<char>::empty().len() == 0);
}

/// One pair of additional data: a key and its value.
pub type Pair = (Seq<char>, Seq<char>);

/// The keys of `pairs`, in the order of the pairs.
pub open spec fn keys_of(pairs: Seq<Pair>) -> Seq<Seq<char>> {
    pairs.map_values(|pair: Pair| pair.0)
}

/// `pairs` with `value` under `key`: in the place of the pair that had the key,
/// or at the end if none had it.
pub open spec fn put(pairs: Seq<Pair>, key: Seq<char>, value: Seq<char>) -> Seq<Pair> {
    let at = find(keys_of(pairs), key);
    if 0 <= at < pairs.len() {
        pairs.update(at, (key, value))
    } else {
        pairs.push((key, value))
    }
}

/// The mapping that `pairs` stands for: each key to the value of the first pair
/// that has it.
pub open spec fn as_map(pairs: Seq<Pair>) -> Map<Seq<char>, Seq<char>> {
    Map::new(
        |key: Seq<char>| keys_of(pairs).contains(key),
        |key: Seq<char>| pairs[find(keys_of(pairs), key)].1,
    )
}

/// The text of `pairs` in a header: for each pair, in order, a semicolon, the
/// key, an equals sign and the value.
pub open spec fn format_pairs(pairs: Seq<Pair>) -> Seq<char>
    decreases pairs.len(),
{
    if pairs.len() == 0 {
        Seq::empty()
    } else {
        (format_pairs(pairs.drop_last()).push(';') + pairs.last().0).push('=') + pairs.last().1
    }
}

/// What a header holds, as texts.
pub struct HeaderView {
    /// The text of the trace id.
    pub trace_id: Seq<char>,
    /// The text of the parent segment's id, if there is one.
    pub parent_id: Option<Seq<char>>,
    /// The sampling decision.
    pub sampling_decision: SamplingDecision,
    /// The additional data, in the order in which its keys first came.
    pub additional_data: Seq<Pair>,
}

impl HeaderView {
    /// The header that holds a trace id and nothing else.
    pub open spec fn blank(trace_id: Seq<char>) -> HeaderView {
        HeaderView {
            trace_id,
            parent_id: None,
            sampling_decision: SamplingDecision::Unknown,
            additional_data: Seq::empty(),
        }
    }

    /// No key of the additional data occurs twice.
    pub open spec fn well_formed(self) -> bool {
        keys_of(self.additional_data).no_duplicates()
    }

    /// The additional data as a mapping from keys to values.
    pub open spec fn data(self) -> Map<Seq<char>, Seq<char>> {
        as_map(self.additional_data)
    }

    /// The header after one field of a header text has been read into it.
    ///
    /// `Root=`, `Parent=` and `Sampled=` set the trace id, the parent id and
    /// the sampling decision; `Self=` is passed over; any other field is cut at
    /// its first equals sign into a key and a value for the additional data. A
    /// field without an equals sign is an error, which carries the field.
    pub open spec fn apply_field(self, field: Seq<char>) -> Result<HeaderView, Seq<char>> {
        if "Root="@.is_prefix_of(field) {
            Ok(HeaderView { trace_id: field.skip(5), ..self })
        } else if "Parent="@.is_prefix_of(field) {
            Ok(HeaderView { parent_id: Some(field.skip(7)), ..self })
        } else if "Sampled="@.is_prefix_of(field) {
            Ok(HeaderView { sampling_decision: SamplingDecision::of_code(field), ..self })
        } else if "Self="@.is_prefix_of(field) {
            Ok(self)
        } else {
            let at = find(field, '=');
            if 0 <= at < field.len() {
                Ok(
                    HeaderView {
                        additional_data: put(
                            self.additional_data,
                            field.take(at),
                            field.skip(at + 1),
                        ),
                        ..self
                    },
                )
            } else {
                Err(field)
            }
        }
    }

    /// The header after the fields have been read into it one after the other,
    /// or the first field that could not be read.
    pub open spec fn apply_fields(self, fields: Seq<Seq<char>>) -> Result<HeaderView, Seq<char>>
        decreases fields.len(),
    {
        if fields.len() == 0 {
            Ok(self)
        } else {
            match self.apply_field(fields[0]) {
                Ok(next) => next.apply_fields(fields.skip(1)),
                Err(field) => Err(field),
            }
        }
    }

    /// The header after a header text has been read into it: the text is cut
    /// at its semicolons, and the fields are read from left to right.
    pub open spec fn parse(self, text: Seq<char>) -> Result<HeaderView, Seq<char>> {
        self.apply_fields(split(text, ';'))
    }

    /// The text of the header: the trace id under `Root=`; then the parent id
    /// under `;Parent=`, if there is one; then a semicolon and the code of the
    /// sampling decision, unless it is `Unknown`; then the additional data.
    pub open spec fn format(self) -> Seq<char> {
        "Root="@ + self.trace_id + (match self.parent_id {
            Some(parent) => ";Parent="@ + parent,
            None => Seq::empty(),
        }) + (if self.sampling_decision == SamplingDecision::Unknown {
            Seq::empty()
        } else {
            seq![';'] + self.sampling_decision.code()
        }) + format_pairs(self.additional_data)
    }
}

/// Putting a value under a key keeps the keys distinct, and changes the
/// mapping as an insertion does.
pub proof fn lemma_put(pairs: Seq<Pair>, key: Seq<char>, value: Seq<char>)
    requires
        keys_of(pairs).no_duplicates(),
    ensures
        keys_of(put(pairs, key, value)).no_duplicates(),
        as_map(put(pairs, key, value)) == as_map(pairs).insert(key, value),
{
    let keys = keys_of(pairs);
    let after = put(pairs, key, value);
    let at = find(keys, key);
    lemma_find(keys, key);
    if at < pairs.len() {
        assert(keys_of(after) =~= keys);
    } else {
        assert(keys_of(after) =~= keys.push(key));
    }
    assert forall|k: Seq<char>| keys_of(after).contains(k) <==> (k == key || keys.contains(k)) by {
        if keys_of(after).contains(k) {
            let i = choose|i: int| 0 <= i < keys_of(after).len() && keys_of(after)[i] == k;
            if at < pairs.len() || i < keys.len() {
                assert(keys[i] == k);
            }
        }
        if keys.contains(k) {
            let i = choose|i: int| 0 <= i < keys.len() && keys[i] == k;
            assert(keys_of(after)[i] == k);
        }
        if k == key {
            assert(keys_of(after)[at] == k);
        }
    }
    assert forall|k: Seq<char>| keys_of(after).contains(k) implies #[trigger] as_map(after)[k]
        == as_map(pairs).insert(key, value)[k] by {
        lemma_find(keys_of(after), k);
        lemma_find(keys, k);
        let i = find(keys_of(after), k);
        if k != key {
            if at < pairs.len() {
                assert(keys_of(after) =~= keys);
            } else {
                assert(keys[find(keys, k)] == keys_of(after)[find(keys, k)]);
                lemma_find_is(keys_of(after), k, find(keys, k));
            }
        } else {
            lemma_find_is(keys_of(after), k, at);
        }
    }
    assert(as_map(after) =~= as_map(pairs).insert(key, value));
}

/// Whether one of `fields` sets the trace id.
pub open spec fn sets_root(fields: Seq<Seq<char>>) -> bool {
    exists|i: int| 0 <= i < fields.len() && "Root="@.is_prefix_of(#[trigger] fields[i])
}

/// Whether `text` is the text of a trace id that was made from a count of
/// seconds and twelve bytes.
pub open spec fn is_generated_trace_id(text: Seq<char>) -> bool {
    exists|seconds: u64, bytes: Seq<u8>|
        bytes.len() == 12 && text == #[trigger] trace_id_text(seconds, bytes)
}

/// Whether every pair of `part` has its key in `whole`, with the same value.
pub open spec fn pairs_within(part: Seq<Pair>, whole: Seq<Pair>) -> bool {
    forall|i: int|
        0 <= i < part.len() ==> {
            let at = find(keys_of(whole), (#[trigger] part[i]).0);
            0 <= at < whole.len() && whole[at].1 == part[i].1
        }
}

/// The trace id that a reading starts from shows in its result only where no
/// field sets the trace id: two headers that differ in nothing but the trace id
/// read the same fields to the same error, or to headers that differ in nothing
/// but the trace id, and not even in that where a `Root=` field was read.
pub proof fn lemma_initial_trace_id(a: HeaderView, b: HeaderView, fields: Seq<Seq<char>>)
    requires
        b == (HeaderView { trace_id: b.trace_id, ..a }),
    ensures
        match (a.apply_fields(fields), b.apply_fields(fields)) {
            (Ok(x), Ok(y)) => {
                &&& y == (HeaderView { trace_id: y.trace_id, ..x })
                &&& sets_root(fields) ==> x.trace_id == y.trace_id
                &&& !sets_root(fields) ==> x.trace_id == a.trace_id && y.trace_id == b.trace_id
            },
            (Err(e), Err(f)) => e == f,
            _ => false,
        },
    decreases fields.len(),
{
    if fields.len() > 0 {
        let rest = fields.skip(1);
        match (a.apply_field(fields[0]), b.apply_field(fields[0])) {
            (Ok(a1), Ok(b1)) => {
                lemma_initial_trace_id(a1, b1, rest);
                if "Root="@.is_prefix_of(fields[0]) {
                    assert(a1 == b1);
                } else {
                    if sets_root(fields) {
                        let i = choose|i: int|
                            0 <= i < fields.len() && "Root="@.is_prefix_of(#[trigger] fields[i]);
                        assert(rest[i - 1] == fields[i]);
                    }
                    if sets_root(rest) {
                        let i = choose|i: int|
                            0 <= i < rest.len() && "Root="@.is_prefix_of(#[trigger] rest[i]);
                        assert(fields[i + 1] == rest[i]);
                    }
                }
            },
            _ => {},
        }
    }
}

/// Two lists of pairs of which each lies within the other stand for the same
/// mapping.
pub proof fn lemma_pairs_within_each_other(a: Seq<Pair>, b: Seq<Pair>)
    requires
        pairs_within(a, b),
        pairs_within(b, a),
    ensures
        as_map(a) == as_map(b),
{
    assert forall|k: Seq<char>| keys_of(a).contains(k) implies keys_of(b).contains(k) && as_map(
        a,
    )[k] == as_map(b)[k] by {
        lemma_find(keys_of(a), k);
        let i = find(keys_of(a), k);
        assert(a[i].0 == k);
        lemma_find(keys_of(b), k);
    }
    assert forall|k: Seq<char>| keys_of(b).contains(k) implies keys_of(a).contains(k) by {
        lemma_find(keys_of(b), k);
        let i = find(keys_of(b), k);
        assert(b[i].0 == k);
        lemma_find(keys_of(a), k);
    }
    assert(as_map(a) =~= as_map(b));
}

/// Lists of pairs that stand for the same mapping lie within each other.
pub proof fn lemma_same_map_within(a: Seq<Pair>, b: Seq<Pair>)
    requires
        as_map(a) == as_map(b),
        keys_of(a).no_duplicates(),
    ensures
        pairs_within(a, b),
{
    assert forall|i: int| 0 <= i < a.len() implies {
        let at = find(keys_of(b), (#[trigger] a[i]).0);
        0 <= at < b.len() && b[at].1 == a[i].1
    } by {
        let k = a[i].0;
        assert(keys_of(a)[i] == k);
        assert(as_map(a).contains_key(k));
        assert(as_map(b).contains_key(k));
        lemma_find(keys_of(b), k);
        lemma_find(keys_of(a), k);
        assert(find(keys_of(a), k) == i);
        assert(as_map(a)[k] == a[i].1);
    }
}

/// Reading fields keeps the keys of the additional data distinct.
pub proof fn lemma_reading_keeps_keys_distinct(header: HeaderView, fields: Seq<Seq<char>>)
    requires
        header.well_formed(),
    ensures
        header.apply_fields(fields) matches Ok(read) ==> read.well_formed(),
    decreases fields.len(),
{
    if fields.len() > 0 {
        let field = fields[0];
        let at = find(field, '=');
        lemma_put(header.additional_data, field.take(at), field.skip(at + 1));
        match header.apply_field(field) {
            Ok(next) => {
                lemma_reading_keeps_keys_distinct(next, fields.skip(1));
            },
            Err(_) => {},
        }
    }
}

/// A field is read without error exactly when it holds an equals sign.
pub proof fn lemma_field_needs_equals(header: HeaderView, field: Seq<char>)
    ensures
        header.apply_field(field) is Ok <==> field.contains('='),
        header.apply_field(field) is Err ==> header.apply_field(field) == Err::<
            HeaderView,
            Seq<char>,
        >(field),
{
    reveal_strlit("Root=");
    reveal_strlit("Parent=");
    reveal_strlit("Sampled=");
    reveal_strlit("Self=");
    lemma_find(field, '=');
    if "Root="@.is_prefix_of(field) {
        assert(field[4] == "Root="@[4]);
    } else if "Parent="@.is_prefix_of(field) {
        assert(field[6] == "Parent="@[6]);
    } else if "Sampled="@.is_prefix_of(field) {
        assert(field[7] == "Sampled="@[7]);
    } else if "Self="@.is_prefix_of(field) {
        assert(field[4] == "Self="@[4]);
    }
}

/// No field is passed over in silence: the fields are read without error
/// exactly when each of them holds an equals sign, and otherwise the error
/// carries the first field that holds none.
pub proof fn lemma_every_field_needs_equals(header: HeaderView, fields: Seq<Seq<char>>)
    ensures
        header.apply_fields(fields) is Ok <==> forall|i: int|
            0 <= i < fields.len() ==> (#[trigger] fields[i]).contains('='),
        header.apply_fields(fields) matches Err(bad) ==> exists|i: int|
            0 <= i < fields.len() && #[trigger] fields[i] == bad && !bad.contains('=') && forall|
                j: int,
            |
                0 <= j < i ==> (#[trigger] fields[j]).contains('='),
    decreases fields.len(),
{
    if fields.len() > 0 {
        let rest = fields.skip(1);
        lemma_field_needs_equals(header, fields[0]);
        match header.apply_field(fields[0]) {
            Ok(next) => {
                lemma_every_field_needs_equals(next, rest);
                assert forall|i: int| 0 <= i < rest.len() implies rest[i] == fields[i + 1] by {}
                if next.apply_fields(rest) is Ok {
                    assert forall|i: int| 0 <= i < fields.len() implies (#[trigger] fields[i]).contains(
                        '=',
                    ) by {
                        if i > 0 {
                            assert(rest[i - 1] == fields[i]);
                        }
                    }
                } else {
                    let bad = next.apply_fields(rest)->Err_0;
                    let i = choose|i: int|
                        0 <= i < rest.len() && #[trigger] rest[i] == bad && !bad.contains('=')
                            && forall|j: int| 0 <= j < i ==> (#[trigger] rest[j]).contains('=');
                    assert(fields[i + 1] == bad);
                    assert forall|j: int| 0 <= j < i + 1 implies (#[trigger] fields[j]).contains(
                        '=',
                    ) by {
                        if j > 0 {
                            assert(rest[j - 1] == fields[j]);
                        }
                    }
                }
            },
            Err(bad) => {
                assert(fields[0] == bad);
            },
        }
    }
}

/// Why a header text could not be read.
#[derive(Debug)]
pub enum ParseError {
    /// A field of the text has no equals sign. It carries the field.
    MalformedField(String),
}

impl ParseError {
    /// The words in which the error is told.
    pub open spec fn message(self) -> Seq<char> {
        match self {
            ParseError::MalformedField(field) => "invalid key=value: no `=` found in `"@ + field@
                + "`"@,
        }
    }

    /// The error in words, with the field that could not be read.
    pub fn to_string(&self) -> (text: String)
        ensures
            text@ == self.message(),
    {
        match self {
            ParseError::MalformedField(field) => {
                let mut out = String::new();
                out.append("invalid key=value: no `=` found in `");
                out.append(field.as_str());
                out.append("`");
                assert(out@ =~= self.message());
                out
            },
        }
    }
}

impl Clone for ParseError {
    fn clone(&self) -> (copy: ParseError)
        ensures
            copy == *self,
    {
        match self {
            ParseError::MalformedField(field) => ParseError::MalformedField(field.clone()),
        }
    }
}

impl PartialEq for ParseError {
    /// Two errors are equal when they carry the same field.
    fn eq(&self, other: &ParseError) -> (equal: bool) {
        match (self, other) {
            (ParseError::MalformedField(mine), ParseError::MalformedField(theirs)) => *mine
                == *theirs,
        }
    }
}

impl vstd::std_specs::cmp::PartialEqSpecImpl for ParseError {
    open spec fn obeys_eq_spec() -> bool {
        true
    }

    open spec fn eq_spec(&self, other: &ParseError) -> bool {
        self->MalformedField_0@ == other->MalformedField_0@
    }
}

/// The pairs of texts that `pairs` holds.
pub open spec fn pairs_view(pairs: Seq<(String, String)>) -> Seq<Pair> {
    pairs.map_values(|pair: (String, String)| (pair.0@, pair.1@))
}

/// Parsed representation of the `X-Amzn-Trace-Id` request header.
#[derive(Debug)]
pub struct Header {
    pub(crate) trace_id: TraceId,
    pub(crate) parent_id: Option<SegmentId>,
    pub(crate) sampling_decision: SamplingDecision,
    additional_data: Vec<(String, String)>,
}

impl View for Header {
    type V = HeaderView;

    closed spec fn view(&self) -> HeaderView {
        HeaderView {
            trace_id: self.trace_id@,
            parent_id: match self.parent_id {
                Some(id) => Some(id@),
                None => None,
            },
            sampling_decision: self.sampling_decision,
            additional_data: pairs_view(self.additional_data@),
        }
    }
}

impl Header {
    /// HTTP header name associated with X-Ray trace data. HTTP header values
    /// are the text of a `Header`, as `to_string` gives it.
    pub const NAME: &'static str = "X-Amzn-Trace-Id";

    #[verifier::type_invariant]
    spec fn inv(self) -> bool {
        self@.well_formed()
    }

    /// A header that holds `trace_id` and nothing else.
    pub fn new(trace_id: TraceId) -> (header: Header)
        ensures
            header@ == HeaderView::blank(trace_id@),
            header@.well_formed(),
    {
        let header = Header {
            trace_id,
            parent_id: None,
            sampling_decision: SamplingDecision::Unknown,
            additional_data: Vec::new(),
        };
        assert(header@.additional_data =~= Seq::empty());
        header
    }

    /// Sets the parent segment's id.
    pub fn with_parent_id(&mut self, parent_id: SegmentId) -> (ret: &mut Header)
        ensures
            ret@ == (HeaderView { parent_id: Some(parent_id@), ..old(self)@ }),
            *final(self) == *final(ret),
    {
        proof {
            use_type_invariant(&*self);
        }
        self.parent_id = Some(parent_id);
        self
    }

    /// Sets the sampling decision.
    pub fn with_sampling_decision(&mut self, decision: SamplingDecision) -> (ret: &mut Header)
        ensures
            ret@ == (HeaderView { sampling_decision: decision, ..old(self)@ }),
            *final(self) == *final(ret),
    {
        proof {
            use_type_invariant(&*self);
        }
        self.sampling_decision = decision;
        self
    }

    /// Puts `value` under `key` in the additional data, in the place of the
    /// value that the key had, if it had one.
    pub fn with_data(&mut self, key: String, value: String) -> (ret: &mut Header)
        ensures
            ret@ == (HeaderView {
                additional_data: put(old(self)@.additional_data, key@, value@),
                ..old(self)@
            }),
            ret@.data() == old(self)@.data().insert(key@, value@),
            old(self)@.well_formed() && ret@.well_formed(),
            *final(self) == *final(ret),
    {
        proof {
            use_type_invariant(&*self);
            lemma_put(self@.additional_data, key@, value@);
        }
        let mut pairs: Vec<(String, String)> = Vec::new();
        core::mem::swap(&mut pairs, &mut self.additional_data);
        put_pair(&mut pairs, key, value);
        self.additional_data = pairs;
        self
    }

    /// Reads one field of a header text into the header.
    fn read_field(&mut self, field: &[char]) -> (r: Result<(), ParseError>)
        ensures
            match old(self)@.apply_field(field@) {
                Ok(next) => r is Ok && final(self)@ == next,
                Err(bad) => {
                    &&& r matches Err(ParseError::MalformedField(text))
                    &&& text@ == bad
                    &&& final(self)@ == old(self)@
                },
            },
    {
        proof {
            use_type_invariant(&*self);
            reveal_strlit("Root=");
            reveal_strlit("Parent=");
            reveal_strlit("Sampled=");
            reveal_strlit("Self=");
        }
        let len = field.len();
        if starts_with(field, "Root=") {
            self.trace_id = TraceId::Rendered(string_of_range(field, 5, len));
            Ok(())
        } else if starts_with(field, "Parent=") {
            self.parent_id = Some(SegmentId::Rendered(string_of_range(field, 7, len)));
            Ok(())
        } else if starts_with(field, "Sampled=") {
            self.sampling_decision = SamplingDecision::from_chars(field);
            Ok(())
        } else if starts_with(field, "Self=") {
            Ok(())
        } else {
            let at = find_from(field, 0, '=');
            assert(field@.skip(0) =~= field@);
            if at < len {
                let key = string_of_range(field, 0, at);
                let value = string_of_range(field, at + 1, len);
                self.with_data(key, value);
                Ok(())
            } else {
                Err(ParseError::MalformedField(string_of_range(field, 0, len)))
            }
        }
    }

    /// Reads a header text into this header: the text is cut at its
    /// semicolons and the fields are read from left to right, each one
    /// replacing what an earlier one had set. The first field that has no
    /// equals sign ends the reading with an error that carries it.
    pub fn parse_onto(self, text: &str) -> (r: Result<Header, ParseError>)
        ensures
            match self@.parse(text@) {
                Ok(parsed) => r matches Ok(header) && header@ == parsed && parsed.well_formed(),
                Err(bad) => r matches Err(ParseError::MalformedField(field)) && field@ == bad,
            },
    {
        let ghost initial = self@;
        let cs = chars_of(text);
        let mut header = self;
        let mut start: usize = 0;
        assert(cs@.skip(0) =~= cs@);
        loop
            invariant
                start <= cs.len(),
                cs@ == text@,
                initial == self@,
                initial.parse(text@) == header@.apply_fields(split(cs@.skip(start as int), ';')),
            decreases cs.len() - start,
        {
            let end = find_from(cs.as_slice(), start, ';');
            let field = slice_subrange(cs.as_slice(), start, end);
            proof {
                reveal_with_fuel(HeaderView::apply_fields, 2);
                let rest = cs@.skip(start as int);
                let fields = split(rest, ';');
                assert(field@ =~= rest.take(end - start));
                if end < cs.len() {
                    assert(rest.skip(end - start + 1) =~= cs@.skip(end + 1));
                    assert(fields.skip(1) =~= split(cs@.skip(end + 1), ';'));
                } else {
                    assert(field@ =~= rest);
                    assert(fields.skip(1) =~= Seq::empty());
                }
                assert(fields.len() > 0 && fields[0] == field@);
            }
            match header.read_field(field) {
                Err(error) => {
                    return Err(error);
                },
                Ok(()) => {},
            }
            if end == cs.len() {
                proof {
                    use_type_invariant(&header);
                }
                return Ok(header);
            }
            start = end + 1;
        }
    }

    /// The text of the header, as it travels in the HTTP header.
    pub fn to_string(&self) -> (text: String)
        ensures
            text@ == self@.format(),
    {
        let mut out = String::new();
        out.append("Root=");
        out.append(self.trace_id.to_string().as_str());
        match &self.parent_id {
            Some(parent) => {
                out.append(";Parent=");
                out.append(parent.to_string().as_str());
            },
            None => {},
        }
        match self.sampling_decision {
            SamplingDecision::Unknown => {},
            decision => {
                out.push(';');
                out.append(decision.as_str());
            },
        }
        let ghost head = out@;
        let ghost pairs = self@.additional_data;
        assert(pairs.take(0) =~= Seq::empty());
        let mut i: usize = 0;
        while i < self.additional_data.len()
            invariant
                i <= self.additional_data.len(),
                pairs == pairs_view(self.additional_data@),
                out@ == head + format_pairs(pairs.take(i as int)),
            decreases self.additional_data.len() - i,
        {
            out.push(';');
            out.append(self.additional_data[i].0.as_str());
            out.push('=');
            out.append(self.additional_data[i].1.as_str());
            i += 1;
            proof {
                let upto = pairs.take(i as int);
                assert(upto.drop_last() =~= pairs.take(i as int - 1));
                assert(upto.last() == pairs[i as int - 1]);
                assert(out@ =~= head + format_pairs(upto));
            }
        }
        assert(pairs.take(i as int) =~= pairs);
        assert(out@ =~= self@.format());
        out
    }

    /// Reads a header text into a header that starts with a newly generated
    /// trace id and nothing else. What was read is told by reading the text
    /// into a blank header; the trace id is the one that the text names, or
    /// else the generated one.
    pub fn parse(text: &str) -> (r: Result<Header, ParseError>)
        ensures
            match HeaderView::blank(Seq::empty()).parse(text@) {
                Ok(parsed) => {
                    &&& r matches Ok(header)
                    &&& header@ == (HeaderView { trace_id: header@.trace_id, ..parsed })
                    &&& sets_root(split(text@, ';')) ==> header@.trace_id == parsed.trace_id
                    &&& !sets_root(split(text@, ';')) ==> is_generated_trace_id(header@.trace_id)
                },
                Err(bad) => r matches Err(ParseError::MalformedField(field)) && field@ == bad,
            },
    {
        let initial = Header::default();
        proof {
            lemma_initial_trace_id(
                HeaderView::blank(Seq::empty()),
                initial@,
                split(text@, ';'),
            );
        }
        initial.parse_onto(text)
    }

    /// The trace id.
    pub fn trace_id(&self) -> (id: &TraceId)
        ensures
            id@ == self@.trace_id,
    {
        &self.trace_id
    }

    /// The parent segment's id, if there is one.
    pub fn parent_id(&self) -> (id: Option<&SegmentId>)
        ensures
            match id {
                Some(id) => self@.parent_id == Some(id@),
                None => self@.parent_id is None,
            },
    {
        self.parent_id.as_ref()
    }

    /// The sampling decision.
    pub fn sampling_decision(&self) -> (decision: SamplingDecision)
        ensures
            decision == self@.sampling_decision,
    {
        self.sampling_decision
    }

    /// The value that the additional data has under `key`, if it has one.
    pub fn get(&self, key: &str) -> (value: Option<&String>)
        ensures
            match value {
                Some(value) => self@.data().contains_key(key@) && self@.data()[key@] == value@,
                None => !self@.data().contains_key(key@),
            },
    {
        let wanted = key.to_owned();
        proof {
            lemma_find(keys_of(self@.additional_data), key@);
        }
        match position_of(&self.additional_data, &wanted) {
            Some(at) => Some(&self.additional_data[at].1),
            None => None,
        }
    }
}

/// Puts `value` under `key` in `pairs`.
fn put_pair(pairs: &mut Vec<(String, String)>, key: String, value: String)
    ensures
        pairs_view(final(pairs)@) == put(pairs_view(old(pairs)@), key@, value@),
{
    let ghost before = pairs_view(pairs@);
    let mut at: usize = 0;
    while at < pairs.len() && pairs[at].0 != key
        invariant
            at <= pairs.len(),
            pairs_view(pairs@) == before,
            forall|j: int| 0 <= j < at ==> keys_of(before)[j] != key@,
        decreases pairs.len() - at,
    {
        at += 1;
    }
    proof {
        lemma_find_is(keys_of(before), key@, at as int);
    }
    if at < pairs.len() {
        pairs.set(at, (key, value));
    } else {
        pairs.push((key, value));
    }
    assert(pairs_view(pairs@) =~= put(before, key@, value@));
}

/// The place of `key` among the keys of `pairs`, if it is one of them.
fn position_of(pairs: &Vec<(String, String)>, key: &String) -> (place: Option<usize>)
    ensures
        match place {
            Some(at) => at < pairs.len() && at == find(keys_of(pairs_view(pairs@)), key@),
            None => find(keys_of(pairs_view(pairs@)), key@) == pairs.len(),
        },
{
    let mut at: usize = 0;
    while at < pairs.len() && pairs[at].0 != *key
        invariant
            at <= pairs.len(),
            forall|j: int| 0 <= j < at ==> keys_of(pairs_view(pairs@))[j] != key@,
        decreases pairs.len() - at,
    {
        at += 1;
    }
    proof {
        lemma_find_is(keys_of(pairs_view(pairs@)), key@, at as int);
    }
    if at < pairs.len() {
        Some(at)
    } else {
        None
    }
}

/// Whether every pair of `part` has its key in `whole`, with the same value.
fn all_within(part: &Vec<(String, String)>, whole: &Vec<(String, String)>) -> (yes: bool)
    ensures
        yes == pairs_within(pairs_view(part@), pairs_view(whole@)),
{
    let mut i: usize = 0;
    while i < part.len()
        invariant
            i <= part.len(),
            pairs_within(pairs_view(part@).take(i as int), pairs_view(whole@)),
        decreases part.len() - i,
    {
        let same = match position_of(whole, &part[i].0) {
            Some(at) => whole[at].1 == part[i].1,
            None => false,
        };
        if !same {
            assert(pairs_view(part@)[i as int] == (part@[i as int].0@, part@[i as int].1@));
            return false;
        }
        i += 1;
        assert forall|j: int| 0 <= j < i implies {
            let at = find(
                keys_of(pairs_view(whole@)),
                (#[trigger] pairs_view(part@).take(i as int)[j]).0,
            );
            0 <= at < whole@.len() && pairs_view(whole@)[at].1 == pairs_view(part@).take(
                i as int,
            )[j].1
        } by {
            if j < i - 1 {
                assert(pairs_view(part@).take(i as int)[j] == pairs_view(part@).take(
                    i as int - 1,
                )[j]);
            }
        }
    }
    assert(pairs_view(part@).take(i as int) =~= pairs_view(part@));
    true
}

impl Default for Header {
    /// A header that holds a newly generated trace id and nothing else.
    fn default() -> (header: Header)
        ensures
            header@ == HeaderView::blank(header@.trace_id),
            is_generated_trace_id(header@.trace_id),
    {
        let trace_id = TraceId::new();
        assert(is_generated_trace_id(trace_id@)) by {
            let bytes = trace_id->New_1;
            assert(trace_id@ == trace_id_text(trace_id->New_0, bytes@));
        }
        Header::new(trace_id)
    }
}

impl PartialEq for Header {
    /// Two headers are equal when their ids have the same texts, their
    /// decisions are the same, and their additional data has the same values
    /// under the same keys.
    fn eq(&self, other: &Header) -> (equal: bool) {
        let same_parent = match (&self.parent_id, &other.parent_id) {
            (Some(mine), Some(theirs)) => *mine == *theirs,
            (None, None) => true,
            _ => false,
        };
        let equal = self.trace_id == other.trace_id && same_parent && self.sampling_decision
            == other.sampling_decision && all_within(&self.additional_data, &other.additional_data)
            && all_within(&other.additional_data, &self.additional_data);
        proof {
            use_type_invariant(self);
            use_type_invariant(other);
            if equal {
                lemma_pairs_within_each_other(self@.additional_data, other@.additional_data);
            }
            if self@.data() == other@.data() {
                lemma_same_map_within(self@.additional_data, other@.additional_data);
                lemma_same_map_within(other@.additional_data, self@.additional_data);
            }
        }
        equal
    }
}

impl vstd::std_specs::cmp::PartialEqSpecImpl for Header {
    open spec fn obeys_eq_spec() -> bool {
        true
    }

    open spec fn eq_spec(&self, other: &Header) -> bool {
        &&& self@.trace_id == other@.trace_id
        &&& self@.parent_id == other@.parent_id
        &&& self@.sampling_decision == other@.sampling_decision
        &&& self@.data() == other@.data()
    }
}

impl core::str::FromStr for Header {
    type Err = ParseError;

    /// Reads a header text, as `Header::parse` does.
    fn from_str(text: &str) -> (r: Result<Header, ParseError>)
        ensures
            match HeaderView::blank(Seq::empty()).parse(text@) {
                Ok(parsed) => {
                    &&& r matches Ok(header)
                    &&& header@ == (HeaderView { trace_id: header@.trace_id, ..parsed })
                    &&& sets_root(split(text@, ';')) ==> header@.trace_id == parsed.trace_id
                    &&& !sets_root(split(text@, ';')) ==> is_generated_trace_id(header@.trace_id)
                },
                Err(bad) => r matches Err(ParseError::MalformedField(field)) && field@ == bad,
            },
    {
        Header::parse(text)
    }
}

} // verus!
