use vstd::prelude::*;
use vstd::string::StrSliceExecFns;
use vstd::string::StringExecFns;

use crate::counter::SharedState;
use crate::jsonio::debug_quoted;
use crate::jsonio::json_int_list_of;
use crate::jsonio::json_list_debug_of;
use crate::jsonio::json_string_list_of;
use crate::jsonio::json_value_debug_of;
use crate::jsonio::number_canon_of;
use crate::jsonio::parse_int_list;
use crate::jsonio::parse_json_debug;
use crate::jsonio::parse_json_list_debug;
use crate::jsonio::parse_number_text;
use crate::jsonio::parse_string_list;
use crate::jsonio::str_debug_of;
use crate::numtext::dec_int;
use crate::numtext::dec_nat;
use crate::numtext::lemma_dec_nat_digits;
use crate::numtext::int_lit_body;
use crate::numtext::is_int_lit;
use crate::numtext::parse_i32;
use crate::numtext::parses_as_i32;
use crate::numtext::int_lit_value;
use crate::numtext::render_i32;
use crate::textfmt::bracket_join;
use crate::textfmt::bracketed;
use crate::textfmt::starts_with;
use crate::textfmt::starts_with_tag;

verus! {

/// The payload of one parsed value: a closed set of variants, one per
/// tag prefix.
///
/// The two JSON-bearing variants `Object` and `ArrayOfObjects` hold the
/// debug rendering of the parsed JSON value (element by element for the
/// list): that rendering is all the rest of the system ever reads of
/// them.  `Float` likewise holds the canonical rendering of the parsed
/// number.
#[derive(Debug)]
pub enum Payload {
    Integer(i32),
    Float(String),
    Text(String),
    SliceOfStrings(Vec<String>),
    Array(Vec<i32>),
    Object(String),
    ArrayOfObjects(Vec<String>),
}

/// The mathematical model of a payload.
pub enum PayloadModel {
    Integer(int),
    Float(Seq<char>),
    Text(Seq<char>),
    SliceOfStrings(Seq<Seq<char>>),
    Array(Seq<int>),
    Object(Seq<char>),
    ArrayOfObjects(Seq<Seq<char>>),
}

impl View for Payload {
    type V = PayloadModel;

    open spec fn view(&self) -> PayloadModel {
        match self {
            Payload::Integer(v) => PayloadModel::Integer(*v as int),
            Payload::Float(t) => PayloadModel::Float(t@),
            Payload::Text(t) => PayloadModel::Text(t@),
            Payload::SliceOfStrings(xs) => PayloadModel::SliceOfStrings(xs.deep_view()),
            Payload::Array(ns) => PayloadModel::Array(ns@.map_values(|x: i32| x as int)),
            Payload::Object(t) => PayloadModel::Object(t@),
            Payload::ArrayOfObjects(ts) => PayloadModel::ArrayOfObjects(ts.deep_view()),
        }
    }
}

/// Why an input failed to parse: one reason per malformed-variant case,
/// and one for an unrecognized tag.
#[derive(Clone, Copy, Debug, PartialEq, Eq, Structural)]
pub enum ComplexDataParseError {
    InvalidInteger,
    InvalidFloat,
    InvalidText,
    InvalidSliceOfStrings,
    InvalidArray,
    InvalidObject,
    InvalidArrayOfObjects,
    InvalidFormat,
}

/// The fixed diagnostic sentence for each parse failure.
pub open spec fn message_spec(e: ComplexDataParseError) -> Seq<char> {
    match e {
        ComplexDataParseError::InvalidInteger => "Invalid Integer format"@,
        ComplexDataParseError::InvalidFloat => "Invalid Float format"@,
        ComplexDataParseError::InvalidText => "Invalid Text format"@,
        ComplexDataParseError::InvalidSliceOfStrings => "Invalid Slice of Strings format"@,
        ComplexDataParseError::InvalidArray => "Invalid Array format"@,
        ComplexDataParseError::InvalidObject => "Invalid Object format"@,
        ComplexDataParseError::InvalidArrayOfObjects => "Invalid Array of Objects format"@,
        ComplexDataParseError::InvalidFormat => "Invalid format"@,
    }
}

impl ComplexDataParseError {
    /// The fixed human-readable sentence for this failure.
    pub fn message(&self) -> (r: String)
        ensures
            r@ == message_spec(*self),
    {
        match self {
            ComplexDataParseError::InvalidInteger => "Invalid Integer format".to_owned(),
            ComplexDataParseError::InvalidFloat => "Invalid Float format".to_owned(),
            ComplexDataParseError::InvalidText => "Invalid Text format".to_owned(),
            ComplexDataParseError::InvalidSliceOfStrings => "Invalid Slice of Strings format".to_owned(),
            ComplexDataParseError::InvalidArray => "Invalid Array format".to_owned(),
            ComplexDataParseError::InvalidObject => "Invalid Object format".to_owned(),
            ComplexDataParseError::InvalidArrayOfObjects => "Invalid Array of Objects format".to_owned(),
            ComplexDataParseError::InvalidFormat => "Invalid format".to_owned(),
        }
    }
}

/// What parsing a tagged input yields.
///
/// The tag prefixes are tried in the fixed order below, and the first
/// match wins.  No tag in this set is a prefix of another (proved by
/// `lemma_tags_prefix_free`), so the order never causes ambiguity today;
/// a newly added tag that is a prefix of an existing one would break
/// that invariant and silently misclassify inputs.
pub open spec fn parse_spec(s: Seq<char>) -> Result<PayloadModel, ComplexDataParseError> {
    if starts_with(s, "Integer: "@) {
        let rest = s.subrange("Integer: "@.len() as int, s.len() as int);
        if parses_as_i32(rest) {
            Result::Ok(PayloadModel::Integer(int_lit_value(rest)))
        } else {
            Result::Err(ComplexDataParseError::InvalidInteger)
        }
    } else if starts_with(s, "Float: "@) {
        let rest = s.subrange("Float: "@.len() as int, s.len() as int);
        match number_canon_of(rest) {
            Option::Some(t) => Result::Ok(PayloadModel::Float(t)),
            Option::None => Result::Err(ComplexDataParseError::InvalidFloat),
        }
    } else if starts_with(s, "Text: "@) {
        let rest = s.subrange("Text: "@.len() as int, s.len() as int);
        Result::Ok(PayloadModel::Text(rest))
    } else if starts_with(s, "Slice of Strings: "@) {
        let rest = s.subrange("Slice of Strings: "@.len() as int, s.len() as int);
        match json_string_list_of(rest) {
            Option::Some(xs) => Result::Ok(PayloadModel::SliceOfStrings(xs)),
            Option::None => Result::Err(ComplexDataParseError::InvalidSliceOfStrings),
        }
    } else if starts_with(s, "Array: "@) {
        let rest = s.subrange("Array: "@.len() as int, s.len() as int);
        match json_int_list_of(rest) {
            Option::Some(ns) => Result::Ok(
                PayloadModel::Array(ns.map_values(|x: i32| x as int)),
            ),
            Option::None => Result::Err(ComplexDataParseError::InvalidArray),
        }
    } else if starts_with(s, "Object: "@) {
        let rest = s.subrange("Object: "@.len() as int, s.len() as int);
        match json_value_debug_of(rest) {
            Option::Some(t) => Result::Ok(PayloadModel::Object(t)),
            Option::None => Result::Err(ComplexDataParseError::InvalidObject),
        }
    } else if starts_with(s, "Array of Objects: "@) {
        let rest = s.subrange("Array of Objects: "@.len() as int, s.len() as int);
        match json_list_debug_of(rest) {
            Option::Some(ts) => Result::Ok(PayloadModel::ArrayOfObjects(ts)),
            Option::None => Result::Err(ComplexDataParseError::InvalidArrayOfObjects),
        }
    } else {
        Result::Err(ComplexDataParseError::InvalidFormat)
    }
}

/// The seven tag prefixes, in the order in which parsing tries them.
pub open spec fn tag_list() -> Seq<Seq<char>> {
    seq![
        "Integer: "@,
        "Float: "@,
        "Text: "@,
        "Slice of Strings: "@,
        "Array: "@,
        "Object: "@,
        "Array of Objects: "@,
    ]
}

proof fn lemma_differ_at(a: Seq<char>, b: Seq<char>, k: int)
    requires
        0 <= k < a.len(),
        k < b.len(),
        a[k] != b[k],
    ensures
        !starts_with(a, b),
        !starts_with(b, a),
{
    if starts_with(a, b) {
        assert(a.subrange(0, b.len() as int)[k] == b[k]);
    }
    if starts_with(b, a) {
        assert(b.subrange(0, a.len() as int)[k] == a[k]);
    }
}

/// Law: no tag prefix is a prefix of another, so whichever order the
/// tags are tried in, at most one can match a given input.
pub proof fn lemma_tags_prefix_free()
    ensures
        forall|i: int, j: int|
            0 <= i < tag_list().len() && 0 <= j < tag_list().len() && i != j
                ==> !#[trigger] starts_with(tag_list()[i], tag_list()[j]),
{
    reveal_strlit("Integer: ");
    reveal_strlit("Float: ");
    reveal_strlit("Text: ");
    reveal_strlit("Slice of Strings: ");
    reveal_strlit("Array: ");
    reveal_strlit("Object: ");
    reveal_strlit("Array of Objects: ");
    let t = tag_list();
    lemma_differ_at(t[0], t[1], 0);
    lemma_differ_at(t[0], t[2], 0);
    lemma_differ_at(t[0], t[3], 0);
    lemma_differ_at(t[0], t[4], 0);
    lemma_differ_at(t[0], t[5], 0);
    lemma_differ_at(t[0], t[6], 0);
    lemma_differ_at(t[1], t[2], 0);
    lemma_differ_at(t[1], t[3], 0);
    lemma_differ_at(t[1], t[4], 0);
    lemma_differ_at(t[1], t[5], 0);
    lemma_differ_at(t[1], t[6], 0);
    lemma_differ_at(t[2], t[3], 0);
    lemma_differ_at(t[2], t[4], 0);
    lemma_differ_at(t[2], t[5], 0);
    lemma_differ_at(t[2], t[6], 0);
    lemma_differ_at(t[3], t[4], 0);
    lemma_differ_at(t[3], t[5], 0);
    lemma_differ_at(t[3], t[6], 0);
    lemma_differ_at(t[4], t[5], 0);
    lemma_differ_at(t[4], t[6], 5);
    lemma_differ_at(t[5], t[6], 0);
}

/// The display string of a payload: its variant name, a colon and a
/// space, then the payload, with collections bracketed and
/// comma-separated in their original order.
pub open spec fn render_spec(p: PayloadModel) -> Seq<char> {
    match p {
        PayloadModel::Integer(n) => "Integer: "@ + dec_int(n),
        PayloadModel::Float(t) => "Float: "@ + t,
        PayloadModel::Text(t) => "Text: "@ + t,
        PayloadModel::SliceOfStrings(xs) => "Slice of Strings: "@ + bracketed(
            xs.map_values(|x: Seq<char>| str_debug_of(x)),
        ),
        PayloadModel::Array(ns) => "Array: "@ + bracketed(ns.map_values(|n: int| dec_int(n))),
        PayloadModel::Object(t) => "Object: "@ + t,
        PayloadModel::ArrayOfObjects(ts) => "Array of Objects: "@ + bracketed(ts),
    }
}

/// Law: rendering an integer value yields a tagged string that parses
/// back to the same value, so the display form of this variant loses
/// nothing.
pub proof fn lemma_render_integer_parses_back(n: int)
    requires
        i32::MIN <= n <= i32::MAX,
    ensures
        parse_spec(render_spec(PayloadModel::Integer(n))) == Result::<
            PayloadModel,
            ComplexDataParseError,
        >::Ok(PayloadModel::Integer(n)),
{
    reveal_strlit("Integer: ");
    let tag = "Integer: "@;
    let r = render_spec(PayloadModel::Integer(n));
    assert(r == tag + dec_int(n));
    assert(r.subrange(0, 9) =~= tag);
    assert(starts_with(r, tag));
    let rest = r.subrange(9, r.len() as int);
    assert(rest =~= dec_int(n));
    if n >= 0 {
        lemma_dec_nat_digits(n);
        assert(rest == dec_nat(n));
        assert(rest[0] != '-' && rest[0] != '+');
        assert(int_lit_body(rest) == rest);
        assert(is_int_lit(rest));
        assert(int_lit_value(rest) == n);
    } else {
        lemma_dec_nat_digits(-n);
        assert(rest == seq!['-'] + dec_nat(-n));
        assert(rest[0] == '-');
        assert(int_lit_body(rest) =~= dec_nat(-n));
        assert(is_int_lit(rest));
        assert(int_lit_value(rest) == n);
    }
    assert(parses_as_i32(rest));
}

/// One parsed value: a payload together with its own mutation counter,
/// fresh at zero when the value is created by a successful parse.
#[derive(Debug)]
pub struct ComplexData {
    pub payload: Payload,
    pub shared_state: SharedState,
}

impl ComplexData {
    /// Parses one tagged input.  The input must begin with one of the
    /// seven fixed tag prefixes; the remainder is read per variant, and a
    /// failure reports the reason without giving anything else up.
    pub fn from_str(s: &str) -> (r: Result<ComplexData, ComplexDataParseError>)
        ensures
            r is Ok <==> parse_spec(s@) is Ok,
            r is Ok ==> r->Ok_0.payload@ == parse_spec(s@)->Ok_0,
            r is Ok ==> r->Ok_0.shared_state.counter == 0,
            r is Err ==> r->Err_0 == parse_spec(s@)->Err_0,
    {
        let n = s.unicode_len();
        if starts_with_tag(s, "Integer: ") {
            let rest = s.substring_char("Integer: ".unicode_len(), n);
            match parse_i32(rest) {
                Option::Some(v) => Result::Ok(ComplexData {
                    payload: Payload::Integer(v),
                    shared_state: SharedState::new(),
                }),
                Option::None => Result::Err(ComplexDataParseError::InvalidInteger),
            }
        } else if starts_with_tag(s, "Float: ") {
            let rest = s.substring_char("Float: ".unicode_len(), n);
            match parse_number_text(rest) {
                Option::Some(t) => Result::Ok(ComplexData {
                    payload: Payload::Float(t),
                    shared_state: SharedState::new(),
                }),
                Option::None => Result::Err(ComplexDataParseError::InvalidFloat),
            }
        } else if starts_with_tag(s, "Text: ") {
            let rest = s.substring_char("Text: ".unicode_len(), n);
            Result::Ok(ComplexData {
                payload: Payload::Text(rest.to_owned()),
                shared_state: SharedState::new(),
            })
        } else if starts_with_tag(s, "Slice of Strings: ") {
            let rest = s.substring_char("Slice of Strings: ".unicode_len(), n);
            match parse_string_list(rest) {
                Option::Some(xs) => Result::Ok(ComplexData {
                    payload: Payload::SliceOfStrings(xs),
                    shared_state: SharedState::new(),
                }),
                Option::None => Result::Err(ComplexDataParseError::InvalidSliceOfStrings),
            }
        } else if starts_with_tag(s, "Array: ") {
            let rest = s.substring_char("Array: ".unicode_len(), n);
            match parse_int_list(rest) {
                Option::Some(ns) => Result::Ok(ComplexData {
                    payload: Payload::Array(ns),
                    shared_state: SharedState::new(),
                }),
                Option::None => Result::Err(ComplexDataParseError::InvalidArray),
            }
        } else if starts_with_tag(s, "Object: ") {
            let rest = s.substring_char("Object: ".unicode_len(), n);
            match parse_json_debug(rest) {
                Option::Some(t) => Result::Ok(ComplexData {
                    payload: Payload::Object(t),
                    shared_state: SharedState::new(),
                }),
                Option::None => Result::Err(ComplexDataParseError::InvalidObject),
            }
        } else if starts_with_tag(s, "Array of Objects: ") {
            let rest = s.substring_char("Array of Objects: ".unicode_len(), n);
            match parse_json_list_debug(rest) {
                Option::Some(ts) => Result::Ok(ComplexData {
                    payload: Payload::ArrayOfObjects(ts),
                    shared_state: SharedState::new(),
                }),
                Option::None => Result::Err(ComplexDataParseError::InvalidArrayOfObjects),
            }
        } else {
            Result::Err(ComplexDataParseError::InvalidFormat)
        }
    }

    /// Renders this value as its display string.
    pub fn to_display_string(&self) -> (r: String)
        ensures
            r@ == render_spec(self.payload@),
    {
        let mut s = String::new();
        match &self.payload {
            Payload::Integer(v) => {
                s.append("Integer: ");
                let t = render_i32(*v);
                s.append(t.as_str());
            },
            Payload::Float(t) => {
                s.append("Float: ");
                s.append(t.as_str());
            },
            Payload::Text(t) => {
                s.append("Text: ");
                s.append(t.as_str());
            },
            Payload::SliceOfStrings(xs) => {
                let mut parts: Vec<String> = Vec::new();
                let mut i: usize = 0;
                while i < xs.len()
                    invariant
                        0 <= i <= xs.len(),
                        parts@.len() == i,
                        forall|j: int| 0 <= j < i ==> (#[trigger] parts@[j])@ == str_debug_of(
                            xs@[j]@,
                        ),
                    decreases xs.len() - i,
                {
                    let q = debug_quoted(xs[i].as_str());
                    parts.push(q);
                    i = i + 1;
                }
                proof {
                    let f = |x: Seq<char>| str_debug_of(x);
                    assert forall|j: int| 0 <= j < parts@.len() implies parts.deep_view()[j]
                        == xs.deep_view().map_values(f)[j] by {
                        assert(parts@[j]@ == str_debug_of(xs@[j]@));
                    }
                    assert(parts.deep_view() =~= xs.deep_view().map_values(f));
                }
                let body = bracket_join(&parts);
                s.append("Slice of Strings: ");
                s.append(body.as_str());
            },
            Payload::Array(ns) => {
                let mut parts: Vec<String> = Vec::new();
                let mut i: usize = 0;
                while i < ns.len()
                    invariant
                        0 <= i <= ns.len(),
                        parts@.len() == i,
                        forall|j: int| 0 <= j < i ==> (#[trigger] parts@[j])@ == dec_int(
                            ns@[j] as int,
                        ),
                    decreases ns.len() - i,
                {
                    let t = render_i32(ns[i]);
                    parts.push(t);
                    i = i + 1;
                }
                proof {
                    let mapped = ns@.map_values(|x: i32| x as int).map_values(|m: int| dec_int(m));
                    assert forall|j: int| 0 <= j < parts@.len() implies parts.deep_view()[j]
                        == mapped[j] by {
                        assert(parts@[j]@ == dec_int(ns@[j] as int));
                    }
                    assert(parts.deep_view() =~= mapped);
                }
                let body = bracket_join(&parts);
                s.append("Array: ");
                s.append(body.as_str());
            },
            Payload::Object(t) => {
                s.append("Object: ");
                s.append(t.as_str());
            },
            Payload::ArrayOfObjects(ts) => {
                let body = bracket_join(ts);
                s.append("Array of Objects: ");
                s.append(body.as_str());
            },
        }
        s
    }

    /// Adds one to this value's mutation counter and returns the updated
    /// count; the payload itself never changes.
    pub fn increment_shared_counter(&mut self) -> (r: usize)
        requires
            old(self).shared_state.counter < usize::MAX,
        ensures
            final(self).payload == old(self).payload,
            final(self).shared_state.counter == old(self).shared_state.counter + 1,
            r == final(self).shared_state.counter,
    {
        self.shared_state.increment()
    }
}

} // verus!
