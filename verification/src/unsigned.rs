//! Unsigned event data: the extra information a server attaches to an
//! event outside its hash, and its reconstruction from a JSON body.
//!
//! An `age` is carried as a JSON integer; this module parses it from
//! its raw text and bounds it to the range JSON integers interoperate
//! in, two to the fifty-third less one either way.

use vstd::prelude::*;
use vstd::string::StrSliceExecFns;
use crate::json::JsonV;
use crate::json::JsonVal;
use crate::json::field_lookup;
use crate::json::json_field_views;
use crate::json::json_object_fields;
use crate::json::json_object_parsing;
use crate::json::spec_field_lookup;
use vstd::utf8::encode_utf8;

verus! {

/// The largest JSON integer magnitude every peer reads exactly.
pub const MAX_SAFE_INT: i64 = 9007199254740991;

pub open spec fn spec_is_digit(c: char) -> bool {
    '0' <= c && c <= '9'
}

/// The value of a digit string, most significant first.
pub open spec fn spec_digits_val(s: Seq<char>) -> int
    decreases s.len(),
{
    if s.len() == 0 {
        0
    } else {
        spec_digits_val(s.drop_last()) * 10 + (s.last() as int - 48)
    }
}

pub open spec fn spec_all_digits(s: Seq<char>) -> bool {
    forall|i: int| 0 <= i < s.len() ==> spec_is_digit(#[trigger] s[i])
}

/// The integer a piece of JSON number text denotes: an optional `-`
/// followed by digits.  Fractions and exponents denote no integer.
pub open spec fn spec_int_text(s: Seq<char>) -> Option<int> {
    if s.len() >= 1 && s[0] == '-' {
        if s.len() >= 2 && spec_all_digits(s.skip(1)) {
            Option::Some(-spec_digits_val(s.skip(1)))
        } else {
            Option::None
        }
    } else if s.len() >= 1 && spec_all_digits(s) {
        Option::Some(spec_digits_val(s))
    } else {
        Option::None
    }
}

/// A digit string's value is never negative.
proof fn lemma_digits_val_nonneg(s: Seq<char>)
    requires
        spec_all_digits(s),
    ensures
        spec_digits_val(s) >= 0,
    decreases s.len(),
{
    if s.len() > 0 {
        assert(spec_is_digit(s.last()));
        assert(spec_all_digits(s.drop_last()));
        lemma_digits_val_nonneg(s.drop_last());
    }
}

/// Extending a digit string never shrinks its value.
proof fn lemma_digits_val_prefix(s: Seq<char>, i: int)
    requires
        spec_all_digits(s),
        0 <= i <= s.len(),
    ensures
        spec_digits_val(s.take(i)) <= spec_digits_val(s),
    decreases s.len() - i,
{
    if i == s.len() {
        assert(s.take(i) =~= s);
    } else {
        lemma_digits_val_prefix(s, i + 1);
        assert(s.take(i + 1).drop_last() =~= s.take(i));
        assert(s.take(i + 1).last() == s[i]);
        assert(spec_is_digit(s[i]));
        assert(spec_all_digits(s.take(i))) by {
            assert(forall|j: int| 0 <= j < i ==> s.take(i)[j] == s[j]);
        }
        lemma_digits_val_nonneg(s.take(i));
        assert(spec_digits_val(s.take(i + 1)) == spec_digits_val(s.take(i)) * 10 + (
        s[i] as int - 48));
        assert(spec_digits_val(s.take(i)) * 10 >= spec_digits_val(s.take(i))) by {
            lemma_digits_val_nonneg(s.take(i));
        }
    }
}

/// Parses JSON integer text, rejecting values beyond
/// [`MAX_SAFE_INT`] in magnitude.
pub fn parse_json_int(s: &str) -> (r: Option<i64>)
    ensures
        match r {
            Option::Some(v) => spec_int_text(s@) == Option::Some(v as int) && -MAX_SAFE_INT <= v
                <= MAX_SAFE_INT,
            Option::None => spec_int_text(s@) is None || spec_int_text(s@).unwrap()
                > MAX_SAFE_INT as int || spec_int_text(s@).unwrap() < -(MAX_SAFE_INT as int),
        },
{
    let n = s.unicode_len();
    if n == 0 {
        return None;
    }
    let neg = s.get_char(0) == '-';
    let start: usize = if neg {
        1
    } else {
        0
    };
    if n == start {
        return None;
    }
    let ghost digits = if neg {
        s@.skip(1)
    } else {
        s@
    };
    let mut val: i64 = 0;
    let mut i: usize = start;
    proof {
        assert(digits.take(0) =~= Seq::<char>::empty());
    }
    while i < n
        invariant
            start <= i <= n,
            n == s@.len(),
            n >= 1,
            neg <==> s@[0] == '-',
            start == if neg {
                1int
            } else {
                0int
            },
            digits == if neg {
                s@.skip(1)
            } else {
                s@
            },
            digits.len() == n - start,
            forall|j: int| 0 <= j < i - start ==> spec_is_digit(#[trigger] digits[j]),
            0 <= val <= MAX_SAFE_INT,
            val == spec_digits_val(digits.take(i - start)),
        decreases n - i,
    {
        let c = s.get_char(i);
        proof {
            assert(digits[i - start] == s@[i as int]);
        }
        if !('0' <= c && c <= '9') {
            proof {
                assert(!spec_is_digit(digits[i - start]));
                assert(!spec_all_digits(digits));
            }
            return None;
        }
        let d: i64 = (c as u32 as i64) - 48;
        assert(0 <= d <= 9);
        if val > (MAX_SAFE_INT - d) / 10 {
            proof {
                assert(spec_digits_val(digits.take(i - start + 1)) == val * 10 + d) by {
                    assert(digits.take(i - start + 1).drop_last() =~= digits.take(i - start));
                    assert(digits.take(i - start + 1).last() == digits[i - start]);
                }
                assert(val * 10 + d > MAX_SAFE_INT) by (nonlinear_arith)
                    requires
                        val > (MAX_SAFE_INT - d) / 10,
                        0 <= d <= 9,
                        val <= MAX_SAFE_INT,
                        MAX_SAFE_INT == 9007199254740991i64,
                ;
                if spec_all_digits(digits) {
                    lemma_digits_val_prefix(digits, i - start + 1);
                    assert(spec_digits_val(digits) > MAX_SAFE_INT);
                }
            }
            return None;
        }
        proof {
            assert(val * 10 + d <= MAX_SAFE_INT) by (nonlinear_arith)
                requires
                    val <= (MAX_SAFE_INT - d) / 10,
                    0 <= d <= 9,
                    0 <= val,
                    MAX_SAFE_INT == 9007199254740991i64,
            ;
            assert(val * 10 >= 0) by (nonlinear_arith)
                requires
                    val >= 0,
            ;
            assert(digits.take(i - start + 1).drop_last() =~= digits.take(i - start));
            assert(digits.take(i - start + 1).last() == digits[i - start]);
        }
        val = val * 10 + d;
        i = i + 1;
    }
    proof {
        assert(digits.take(n - start) =~= digits);
        assert(spec_all_digits(digits));
        if neg {
            assert(s@[0] == '-');
            assert(digits.len() >= 1);
        } else {
            assert(s@.len() >= 1);
            assert(spec_is_digit(digits[0]));
            assert(s@[0] != '-');
        }
    }
    if neg {
        Some(-val)
    } else {
        Some(val)
    }
}

/// Extra information about a message event that is not incorporated
/// into the event's hash.
pub struct MessageLikeUnsigned {
    /// Milliseconds since the event was sent, as the local server
    /// reckons it.
    pub age: Option<i64>,
    /// The client-supplied transaction ID, when the receiving client
    /// sent the event.
    pub transaction_id: Option<String>,
    /// Bundled aggregations of related child events, as raw JSON
    /// fields.
    pub relations: Vec<(String, JsonVal)>,
}

impl MessageLikeUnsigned {
    /// Creates unsigned data with every field unset.
    pub fn new() -> (r: Self)
        ensures
            r.age is None,
            r.transaction_id is None,
            r.relations@.len() == 0,
    {
        MessageLikeUnsigned { age: None, transaction_id: None, relations: Vec::new() }
    }

    /// Whether the unsigned data carries nothing: every field unset.
    ///
    /// This decides whether an `unsigned` object is serialized at all;
    /// it says nothing about whether an incoming one was present.
    pub fn is_empty(&self) -> (r: bool)
        ensures
            r == (self.age is None && self.transaction_id is None && self.relations@.len() == 0),
    {
        self.age.is_none() && self.transaction_id.is_none() && self.relations.len() == 0
    }
}

impl Default for MessageLikeUnsigned {
    fn default() -> (r: Self)
        ensures
            r.age is None,
            r.transaction_id is None,
            r.relations@.len() == 0,
    {
        MessageLikeUnsigned::new()
    }
}

/// A typed state event content, reconstructible from the named fields
/// of its JSON form.
pub trait StateEventContent: Sized {
    /// The content the fields denote, or `None` when they do not form
    /// one.
    spec fn spec_parse(event_type: Seq<char>, fields: Seq<(Seq<char>, JsonV)>) -> Option<Self>;

    /// Reconstructs the content from JSON fields.
    fn from_json_fields(event_type: &str, fields: &Vec<(String, JsonVal)>) -> (r: Option<Self>)
        ensures
            r == Self::spec_parse(event_type@, json_field_views(fields@)),
    ;
}

/// Extra information about a state event that is not incorporated into
/// the event's hash.
pub struct StateUnsigned<C: StateEventContent> {
    /// Milliseconds since the event was sent, as the local server
    /// reckons it.
    pub age: Option<i64>,
    /// The client-supplied transaction ID, when the receiving client
    /// sent the event.
    pub transaction_id: Option<String>,
    /// The previous content of the state event, when there was one.
    pub prev_content: Option<C>,
    /// Bundled aggregations of related child events, as raw JSON
    /// fields.
    pub relations: Vec<(String, JsonVal)>,
}

impl<C: StateEventContent> StateUnsigned<C> {
    /// Creates unsigned data with every field unset.
    pub fn new() -> (r: Self)
        ensures
            r.age is None,
            r.transaction_id is None,
            r.prev_content is None,
            r.relations@.len() == 0,
    {
        StateUnsigned { age: None, transaction_id: None, prev_content: None, relations: Vec::new() }
    }

    /// Whether the unsigned data carries nothing: every field unset.
    pub fn is_empty(&self) -> (r: bool)
        ensures
            r == (self.age is None && self.transaction_id is None && self.prev_content is None
                && self.relations@.len() == 0),
    {
        self.age.is_none() && self.transaction_id.is_none() && self.prev_content.is_none()
            && self.relations.len() == 0
    }
}

impl<C: StateEventContent> Default for StateUnsigned<C> {
    fn default() -> (r: Self)
        ensures
            r.age is None,
            r.transaction_id is None,
            r.prev_content is None,
            r.relations@.len() == 0,
    {
        StateUnsigned::new()
    }
}

/// An optional integer field: unset or null is absent; number text in
/// range is its value; anything else is an error.
pub open spec fn spec_opt_int_field(fields: Seq<(Seq<char>, JsonV)>, name: Seq<char>) -> Option<
    Option<i64>,
> {
    match spec_field_lookup(fields, name) {
        Option::None => Option::Some(Option::None),
        Option::Some(JsonV::Null) => Option::Some(Option::None),
        Option::Some(JsonV::Raw(s)) => match spec_int_text(s) {
            Option::Some(v) => if -(MAX_SAFE_INT as int) <= v <= MAX_SAFE_INT as int {
                Option::Some(Option::Some(v as i64))
            } else {
                Option::None
            },
            Option::None => Option::None,
        },
        _ => Option::None,
    }
}

/// An optional text field: unset or null is absent; a string is its
/// value; anything else is an error.
pub open spec fn spec_opt_str_field(fields: Seq<(Seq<char>, JsonV)>, name: Seq<char>) -> Option<
    Option<Seq<char>>,
> {
    match spec_field_lookup(fields, name) {
        Option::None => Option::Some(Option::None),
        Option::Some(JsonV::Null) => Option::Some(Option::None),
        Option::Some(JsonV::Str(s)) => Option::Some(Option::Some(s)),
        _ => Option::None,
    }
}

/// The relations field: unset is empty; a nested object gives its
/// fields; anything else is an error.
pub open spec fn spec_relations_field(fields: Seq<(Seq<char>, JsonV)>) -> Option<
    Seq<(Seq<char>, JsonV)>,
> {
    match spec_field_lookup(fields, "m.relations"@) {
        Option::None => Option::Some(Seq::empty()),
        Option::Some(JsonV::Raw(s)) => json_object_parsing(encode_utf8(s)),
        _ => Option::None,
    }
}

/// The previous-content field: unset or null is absent; a nested
/// object is parsed as the content type; anything else is an error.
pub open spec fn spec_prev_content_field<C: StateEventContent>(
    event_type: Seq<char>,
    fields: Seq<(Seq<char>, JsonV)>,
) -> Option<Option<C>> {
    match spec_field_lookup(fields, "prev_content"@) {
        Option::None => Option::Some(Option::None),
        Option::Some(JsonV::Null) => Option::Some(Option::None),
        Option::Some(JsonV::Raw(s)) => match json_object_parsing(encode_utf8(s)) {
            Option::Some(inner) => match C::spec_parse(event_type, inner) {
                Option::Some(c) => Option::Some(Option::Some(c)),
                Option::None => Option::None,
            },
            Option::None => Option::None,
        },
        _ => Option::None,
    }
}

/// Reconstruction of state-event unsigned data from a raw JSON object.
pub trait StateUnsignedFromParts: Sized {
    /// Reconstructs the unsigned data of an event of the given type
    /// from the raw bytes of its `unsigned` object.
    fn _from_parts(event_type: &str, object: &[u8]) -> Option<Self>;
}

impl<C: StateEventContent> StateUnsignedFromParts for StateUnsigned<C> {
    fn _from_parts(event_type: &str, object: &[u8]) -> Option<Self> {
        StateUnsigned::<C>::from_parts(event_type, object)
    }
}

impl<C: StateEventContent> StateUnsigned<C> {
    /// Reconstructs the unsigned data of an event of the given type
    /// from the raw bytes of its `unsigned` object: `age` from its
    /// number text, bounded to interoperable magnitude; the transaction
    /// ID as text; the previous content parsed as the content type; the
    /// relations as the nested object's fields, empty when unset.
    /// `None` exactly when the bytes are not a JSON object or some
    /// present field has the wrong shape.
    pub fn from_parts(event_type: &str, object: &[u8]) -> (r: Option<Self>)
        ensures
            ({
                let parsed = json_object_parsing(object@);
                match r {
                    Option::Some(u) => parsed is Some && {
                        let fields = parsed.unwrap();
                        &&& spec_opt_int_field(fields, "age"@) == Option::Some(u.age)
                        &&& spec_opt_str_field(fields, "transaction_id"@) == Option::Some(
                            match u.transaction_id {
                                Option::Some(t) => Option::Some(t@),
                                Option::None => Option::None,
                            },
                        )
                        &&& spec_prev_content_field::<C>(event_type@, fields) == Option::Some(
                            u.prev_content,
                        )
                        &&& spec_relations_field(fields) == Option::Some(
                            json_field_views(u.relations@),
                        )
                    },
                    Option::None => parsed is None || spec_opt_int_field(
                        parsed.unwrap(),
                        "age"@,
                    ) is None || spec_opt_str_field(parsed.unwrap(), "transaction_id"@) is None
                        || spec_prev_content_field::<C>(event_type@, parsed.unwrap()) is None
                        || spec_relations_field(parsed.unwrap()) is None,
                }
            }),
    {
        let fields = match json_object_fields(object) {
            Option::Some(f) => f,
            Option::None => {
                return None;
            },
        };
        let age: Option<i64> = match field_lookup(&fields, "age") {
            Option::None => None,
            Option::Some(JsonVal::Null) => None,
            Option::Some(JsonVal::Raw(s)) => match parse_json_int(s.as_str()) {
                Option::Some(v) => Some(v),
                Option::None => {
                    return None;
                },
            },
            Option::Some(_) => {
                return None;
            },
        };
        let transaction_id: Option<String> = match field_lookup(&fields, "transaction_id") {
            Option::None => None,
            Option::Some(JsonVal::Null) => None,
            Option::Some(JsonVal::Str(s)) => Some(s.clone()),
            Option::Some(_) => {
                return None;
            },
        };
        let prev_content: Option<C> = match field_lookup(&fields, "prev_content") {
            Option::None => None,
            Option::Some(JsonVal::Null) => None,
            Option::Some(JsonVal::Raw(s)) => {
                let inner = match json_object_fields(s.as_str().as_bytes()) {
                    Option::Some(f) => f,
                    Option::None => {
                        return None;
                    },
                };
                match C::from_json_fields(event_type, &inner) {
                    Option::Some(c) => Some(c),
                    Option::None => {
                        return None;
                    },
                }
            },
            Option::Some(_) => {
                return None;
            },
        };
        let relations: Vec<(String, JsonVal)> = match field_lookup(&fields, "m.relations") {
            Option::None => Vec::new(),
            Option::Some(JsonVal::Raw(s)) => match json_object_fields(s.as_str().as_bytes()) {
                Option::Some(f) => f,
                Option::None => {
                    return None;
                },
            },
            Option::Some(_) => {
                return None;
            },
        };
        proof {
            assert(json_field_views(Seq::<(String, JsonVal)>::empty())
                =~= Seq::<(Seq<char>, JsonV)>::empty());
        }
        Some(StateUnsigned { age, transaction_id, prev_content, relations })
    }
}

/// Extra information about a redacted event that is not incorporated
/// into the event's hash.
pub struct RedactedUnsigned {
    /// The event that redacted this event.
    pub redacted_because: UnsignedRoomRedactionEvent,
}

impl RedactedUnsigned {
    /// Creates redacted-event unsigned data from the redaction event.
    pub fn new(redacted_because: UnsignedRoomRedactionEvent) -> (r: Self)
        ensures
            r.redacted_because == redacted_because,
    {
        RedactedUnsigned { redacted_because }
    }
}

/// A redaction event as found under `unsigned.redacted_because`.  The
/// redacted event's ID is known from context, so it is not carried
/// here.
pub struct UnsignedRoomRedactionEvent {
    /// The redaction's own content fields.
    pub content: Vec<(String, JsonVal)>,
    /// The globally unique identifier of the redaction event.
    pub event_id: String,
    /// The fully qualified ID of the user who sent it.
    pub sender: String,
    /// Milliseconds since the epoch on the originating server when it
    /// was sent.
    pub origin_server_ts: i64,
    /// Key-value pairs not signed by the server.
    pub unsigned: MessageLikeUnsigned,
}

} // verus!
