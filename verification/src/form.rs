//! Reading and writing API bodies in their query-parameter form: `key,value`
//! pairs joined by commas (OpenAPI's `style=form, explode=false`).
//!
//! A body is written as the pairs of its plain fields, in declaration order;
//! fields that hold objects, lists of objects, UUIDs, times or enums are left
//! out, and a list of texts is written as its items joined by commas.
//!
//! The pairs are read in order. A key without a value, a key the body does
//! not have, a list or nullable field, or a value that does not parse ends the
//! reading with an error; a key given twice keeps its first value. Then each
//! field, in declaration order, must have been given.
use vstd::prelude::*;

use crate::game_progress::Instant;
use crate::ids::{uuid_from_str, uuid_from_str_of};
use crate::openapi;
use crate::problem::judge::strings_value;
use crate::text::{chars_eq, concat_str, decimal, decimal_digits, digit_char, from_chars, str_eq, to_chars};

verus! {

/// Whether `c` is one of the ASCII digits `0` to `9`.
pub open spec fn is_ascii_digit(c: char) -> bool {
    '0' <= c && c <= '9'
}

/// Whether `s` is one or more ASCII digits.
pub open spec fn is_digits(s: Seq<char>) -> bool {
    s.len() > 0 && forall|i: int| 0 <= i < s.len() ==> is_ascii_digit(#[trigger] s[i])
}

/// The number that the ASCII digits `s` spell in base ten.
pub open spec fn digits_value(s: Seq<char>) -> int
    decreases s.len(),
{
    if s.len() == 0 {
        0
    } else {
        10 * digits_value(s.drop_last()) + (s.last() as int - '0' as int)
    }
}

/// The integer that `s` spells in base ten: an optional `+` (or, where
/// `signed`, `-`) and then one or more ASCII digits. Any other text, white
/// space and underscores included, spells none.
pub open spec fn integer_text_value(s: Seq<char>, signed: bool) -> Option<int> {
    if signed && s.len() > 0 && s[0] == '-' {
        if is_digits(s.drop_first()) {
            Some(-digits_value(s.drop_first()))
        } else {
            None
        }
    } else if s.len() > 0 && s[0] == '+' {
        if is_digits(s.drop_first()) {
            Some(digits_value(s.drop_first()))
        } else {
            None
        }
    } else if is_digits(s) {
        Some(digits_value(s))
    } else {
        None
    }
}

/// The `i32` that `s` spells, if it spells one in range.
pub open spec fn i32_value(s: Seq<char>) -> Option<i32> {
    match integer_text_value(s, true) {
        Some(n) => if i32::MIN <= n <= i32::MAX {
            Some(n as i32)
        } else {
            None
        },
        None => None,
    }
}

/// The `u32` that `s` spells, if it spells one in range.
pub open spec fn u32_value(s: Seq<char>) -> Option<u32> {
    match integer_text_value(s, false) {
        Some(n) => if n <= u32::MAX {
            Some(n as u32)
        } else {
            None
        },
        None => None,
    }
}

/// The `u64` that `s` spells, if it spells one in range.
pub open spec fn u64_value(s: Seq<char>) -> Option<u64> {
    match integer_text_value(s, false) {
        Some(n) => if n <= u64::MAX {
            Some(n as u64)
        } else {
            None
        },
        None => None,
    }
}

/// The `bool` that `s` spells: only `true` and `false` spell one.
pub open spec fn bool_value(s: Seq<char>) -> Option<bool> {
    if s == "true"@ {
        Some(true)
    } else if s == "false"@ {
        Some(false)
    } else {
        None
    }
}

/// The text of the error that `<i32 as FromStr>::from_str` gives for `s`.
pub uninterp spec fn i32_parse_error_of(s: Seq<char>) -> Seq<char>;

/// The text of the error that `<u32 as FromStr>::from_str` gives for `s`.
pub uninterp spec fn u32_parse_error_of(s: Seq<char>) -> Seq<char>;

/// The text of the error that `<u64 as FromStr>::from_str` gives for `s`.
pub uninterp spec fn u64_parse_error_of(s: Seq<char>) -> Seq<char>;

/// The text of the error that `<bool as FromStr>::from_str` gives for `s`.
pub uninterp spec fn bool_parse_error_of(s: Seq<char>) -> Seq<char>;

/// What `<i32 as FromStr>::from_str` makes of `s`: the number, or the text of
/// the error.
pub open spec fn i32_from_str_of(s: Seq<char>) -> Result<i32, Seq<char>> {
    match i32_value(s) {
        Some(v) => Ok(v),
        None => Err(i32_parse_error_of(s)),
    }
}

/// What `<u32 as FromStr>::from_str` makes of `s`.
pub open spec fn u32_from_str_of(s: Seq<char>) -> Result<u32, Seq<char>> {
    match u32_value(s) {
        Some(v) => Ok(v),
        None => Err(u32_parse_error_of(s)),
    }
}

/// What `<u64 as FromStr>::from_str` makes of `s`.
pub open spec fn u64_from_str_of(s: Seq<char>) -> Result<u64, Seq<char>> {
    match u64_value(s) {
        Some(v) => Ok(v),
        None => Err(u64_parse_error_of(s)),
    }
}

/// What `<bool as FromStr>::from_str` makes of `s`.
pub open spec fn bool_from_str_of(s: Seq<char>) -> Result<bool, Seq<char>> {
    match bool_value(s) {
        Some(v) => Ok(v),
        None => Err(bool_parse_error_of(s)),
    }
}

/// Calls `<i32 as FromStr>::from_str`, which reads an optional sign and
/// ASCII digits in base ten and fails on any other text or on a number out
/// of range; an error becomes its `Display` text.
///
/// Trusted: the number is the one std's documentation describes; the text of
/// an error is a function of `s` alone, named `i32_parse_error_of`.
#[verifier::external_body]
pub(crate) fn i32_from_str(s: &str) -> (r: Result<i32, String>)
    ensures
        match i32_value(s@) {
            Some(v) => r matches Ok(x) && x == v,
            None => r matches Err(e) && e@ == i32_parse_error_of(s@),
        },
{
    match <i32 as std::str::FromStr>::from_str(s) {
        Ok(v) => Ok(v),
        Err(e) => Err(e.to_string()),
    }
}

/// Calls `<u32 as FromStr>::from_str`, which reads an optional `+` and ASCII
/// digits in base ten and fails on any other text or on a number out of
/// range; an error becomes its `Display` text.
///
/// Trusted: the number is the one std's documentation describes; the text of
/// an error is a function of `s` alone, named `u32_parse_error_of`.
#[verifier::external_body]
fn u32_from_str(s: &str) -> (r: Result<u32, String>)
    ensures
        match u32_value(s@) {
            Some(v) => r matches Ok(x) && x == v,
            None => r matches Err(e) && e@ == u32_parse_error_of(s@),
        },
{
    match <u32 as std::str::FromStr>::from_str(s) {
        Ok(v) => Ok(v),
        Err(e) => Err(e.to_string()),
    }
}

/// Calls `<u64 as FromStr>::from_str`, which reads an optional `+` and ASCII
/// digits in base ten and fails on any other text or on a number out of
/// range; an error becomes its `Display` text.
///
/// Trusted: the number is the one std's documentation describes; the text of
/// an error is a function of `s` alone, named `u64_parse_error_of`.
#[verifier::external_body]
fn u64_from_str(s: &str) -> (r: Result<u64, String>)
    ensures
        match u64_value(s@) {
            Some(v) => r matches Ok(x) && x == v,
            None => r matches Err(e) && e@ == u64_parse_error_of(s@),
        },
{
    match <u64 as std::str::FromStr>::from_str(s) {
        Ok(v) => Ok(v),
        Err(e) => Err(e.to_string()),
    }
}

/// Calls `<bool as FromStr>::from_str`, which accepts only `true` and
/// `false`; an error becomes its `Display` text.
///
/// Trusted: the value is the one std's documentation describes; the text of
/// an error is a function of `s` alone, named `bool_parse_error_of`.
#[verifier::external_body]
fn bool_from_str(s: &str) -> (r: Result<bool, String>)
    ensures
        match bool_value(s@) {
            Some(v) => r matches Ok(x) && x == v,
            None => r matches Err(e) && e@ == bool_parse_error_of(s@),
        },
{
    match <bool as std::str::FromStr>::from_str(s) {
        Ok(v) => Ok(v),
        Err(e) => Err(e.to_string()),
    }
}

/// The instant that chrono's `<DateTime<Utc> as FromStr>::from_str` reads
/// from `s`, as seconds since the Unix epoch and nanoseconds within the
/// second, if it reads one.
pub uninterp spec fn utc_datetime_of(s: Seq<char>) -> Option<(i64, u32)>;

/// The text of the error that chrono's `<DateTime<Utc> as FromStr>::from_str`
/// gives for `s`.
pub uninterp spec fn utc_datetime_error_of(s: Seq<char>) -> Seq<char>;

/// Calls chrono's `<DateTime<Utc> as FromStr>::from_str`, which reads an
/// RFC 3339 date and time (with a relaxed separator), and returns the instant
/// read or the error's `Display` text.
///
/// Trusted: whether it reads an instant, which one, and the text of an error
/// are functions of `s` alone, named `utc_datetime_of` and
/// `utc_datetime_error_of`.
#[verifier::external_body]
pub(crate) fn utc_datetime_from_str(s: &str) -> (r: Result<Instant, String>)
    ensures
        match utc_datetime_of(s@) {
            Some(v) => r matches Ok(t) && t.seconds == v.0 && t.subsec_nanos == v.1,
            None => r matches Err(e) && e@ == utc_datetime_error_of(s@),
        },
{
    match <chrono::DateTime<chrono::Utc> as std::str::FromStr>::from_str(s) {
        Ok(t) => Ok(Instant { seconds: t.timestamp(), subsec_nanos: t.timestamp_subsec_nanos() }),
        Err(e) => Err(e.to_string()),
    }
}

/// Makes the JSON string value `serde_json::Value::String(text)`.
///
/// Trusted: nothing is stated of the value, which Verus cannot see into.
#[verifier::external_body]
fn json_text(text: String) -> (r: serde_json::Value) {
    serde_json::Value::String(text)
}

// ---------------------------------------------------------------------------
// Pieces and pairs
// ---------------------------------------------------------------------------

/// The pieces of `s` between commas, as `str::split(',')` yields them.
pub open spec fn comma_pieces(s: Seq<char>) -> Seq<Seq<char>>
    decreases s.len(),
{
    if s.len() == 0 {
        seq![Seq::empty()]
    } else {
        let p = comma_pieces(s.drop_last());
        if s.last() == ',' {
            p.push(Seq::empty())
        } else {
            p.update(p.len() - 1, p.last().push(s.last()))
        }
    }
}

/// The pieces joined by commas.
pub open spec fn join_commas(items: Seq<Seq<char>>) -> Seq<char>
    decreases items.len(),
{
    if items.len() == 0 {
        Seq::empty()
    } else if items.len() == 1 {
        items[0]
    } else {
        join_commas(items.drop_last()) + seq![','] + items.last()
    }
}

/// Appending text without commas extends the last piece.
proof fn lemma_pieces_extend(s: Seq<char>, b: Seq<char>)
    requires
        !b.contains(','),
    ensures
        comma_pieces(s + b) == comma_pieces(s).update(
            comma_pieces(s).len() - 1,
            comma_pieces(s).last() + b,
        ),
    decreases b.len(),
{
    lemma_pieces_nonempty(s);
    if b.len() == 0 {
        assert(s + b =~= s);
        assert(comma_pieces(s).last() + b =~= comma_pieces(s).last());
        assert(comma_pieces(s).update(comma_pieces(s).len() - 1, comma_pieces(s).last())
            =~= comma_pieces(s));
    } else {
        let init = b.drop_last();
        let c = b.last();
        assert(!init.contains(',')) by {
            if init.contains(',') {
                let k = choose|k: int| 0 <= k < init.len() && init[k] == ',';
                assert(b[k] == ',');
            }
        }
        assert(c != ',') by {
            assert(b[b.len() - 1] == c);
        }
        lemma_pieces_extend(s, init);
        assert((s + b).drop_last() =~= s + init);
        assert((s + b).last() == c);
        let p = comma_pieces(s);
        assert((p.last() + init).push(c) =~= p.last() + b);
    }
}

/// Splitting texts joined by commas gives them back, when none of them
/// holds a comma: writing a body's pieces and reading them again loses
/// nothing.
pub proof fn lemma_split_joined(items: Seq<Seq<char>>)
    requires
        items.len() >= 1,
        forall|i: int| 0 <= i < items.len() ==> !(#[trigger] items[i]).contains(','),
    ensures
        comma_pieces(join_commas(items)) == items,
    decreases items.len(),
{
    if items.len() == 1 {
        lemma_pieces_extend(Seq::empty(), items[0]);
        assert(Seq::<char>::empty() + items[0] =~= items[0]);
        assert(comma_pieces(Seq::<char>::empty()) =~= seq![Seq::<char>::empty()]);
        assert(Seq::<char>::empty() + items[0] =~= items[0]);
        assert(seq![Seq::<char>::empty()].update(0, Seq::<char>::empty() + items[0]) =~= items);
    } else {
        let init = items.drop_last();
        assert forall|i: int| 0 <= i < init.len() implies !(#[trigger] init[i]).contains(',') by {
            assert(init[i] == items[i]);
        }
        lemma_split_joined(init);
        let head = join_commas(init) + seq![','];
        assert(head.drop_last() =~= join_commas(init));
        assert(comma_pieces(head) == init.push(Seq::<char>::empty()));
        assert(!items.last().contains(',')) by {
            assert(items.last() == items[items.len() - 1]);
        }
        lemma_pieces_extend(head, items.last());
        assert(Seq::<char>::empty() + items.last() =~= items.last());
        assert(init.push(Seq::<char>::empty()).update(init.len() as int, Seq::<char>::empty() + items.last())
            =~= items);
    }
}

/// The texts joined by commas.
pub fn join_with_commas(items: &Vec<String>) -> (r: String)
    ensures
        r@ == join_commas(strings_value(items@)),
{
    let n = items.len();
    if n == 0 {
        assert(strings_value(items@) =~= Seq::<Seq<char>>::empty());
        return String::new();
    }
    let mut out = items[0].clone();
    assert(strings_value(items@).take(1) =~= seq![items@[0]@]);
    for i in 1..n
        invariant
            n == items@.len(),
            out@ == join_commas(strings_value(items@).take(i as int)),
    {
        let ghost before = out@;
        out.append(",");
        out.append(items[i].as_str());
        proof {
            let xs = strings_value(items@);
            assert(xs.take(i + 1).drop_last() =~= xs.take(i as int));
            assert(xs.take(i + 1).last() == items@[i as int]@);
            reveal_strlit(",");
            assert(out@ =~= before + seq![','] + items@[i as int]@);
        }
    }
    assert(strings_value(items@).take(n as int) =~= strings_value(items@));
    out
}

/// The decimal text of `n`, with a minus sign when it is negative.
pub open spec fn signed_decimal(n: int) -> Seq<char> {
    if n < 0 {
        seq!['-'] + decimal((-n) as nat)
    } else {
        decimal(n as nat)
    }
}

/// The decimal text of `n`.
pub fn u64_text(n: u64) -> (r: String)
    ensures
        r@ == decimal(n as nat),
{
    let digits = decimal_digits(n);
    from_chars(&digits)
}

/// The decimal text of `n`, with a minus sign when it is negative.
pub fn i32_text(n: i32) -> (r: String)
    ensures
        r@ == signed_decimal(n as int),
{
    if n < 0 {
        let magnitude: u64 = (0i64 - n as i64) as u64;
        let digits = decimal_digits(magnitude);
        let mut s = String::from_str("-");
        crate::text::append_chars(&mut s, &digits);
        proof {
            reveal_strlit("-");
        }
        assert(s@ =~= signed_decimal(n as int));
        s
    } else {
        u64_text(n as u64)
    }
}

/// `true` or `false`.
pub open spec fn bool_text(b: bool) -> Seq<char> {
    if b {
        "true"@
    } else {
        "false"@
    }
}

/// `true` or `false`.
pub fn bool_string(b: bool) -> (r: String)
    ensures
        r@ == bool_text(b),
{
    if b {
        String::from_str("true")
    } else {
        String::from_str("false")
    }
}

/// There is always at least one piece.
proof fn lemma_pieces_nonempty(s: Seq<char>)
    ensures
        comma_pieces(s).len() >= 1,
    decreases s.len(),
{
    if s.len() > 0 {
        lemma_pieces_nonempty(s.drop_last());
    }
}

/// The pieces of `s` between commas.
fn split_commas(s: &str) -> (r: Vec<String>)
    ensures
        strings_value(r@) == comma_pieces(s@),
{
    let chars = to_chars(s);
    let n = chars.len();
    let mut done: Vec<String> = Vec::new();
    let mut current: Vec<char> = Vec::new();
    assert(chars@.take(0) =~= Seq::<char>::empty());
    assert(strings_value(done@).push(current@) =~= seq![Seq::<char>::empty()]);
    for i in 0..n
        invariant
            n == chars@.len(),
            chars@ == s@,
            comma_pieces(chars@.take(i as int)) == strings_value(done@).push(current@),
    {
        let c = chars[i];
        proof {
            assert(chars@.take(i + 1).drop_last() =~= chars@.take(i as int));
            assert(chars@.take(i + 1).last() == c);
        }
        if c == ',' {
            let piece = from_chars(&current);
            let ghost before = strings_value(done@).push(current@);
            done.push(piece);
            current = Vec::new();
            assert(strings_value(done@).push(current@) =~= before.push(Seq::<char>::empty()));
        } else {
            let ghost before = strings_value(done@).push(current@);
            current.push(c);
            assert(strings_value(done@).push(current@) =~= before.update(
                before.len() - 1,
                before.last().push(c),
            ));
        }
    }
    let last = from_chars(&current);
    let ghost before = strings_value(done@).push(current@);
    done.push(last);
    assert(chars@.take(n as int) =~= chars@);
    assert(strings_value(done@) =~= before);
    done
}

// ---------------------------------------------------------------------------
// Fields and values
// ---------------------------------------------------------------------------

/// How a field of a body is read from its value.
#[derive(Clone, Copy, Debug, PartialEq, Eq, Structural)]
pub enum FieldKind {
    Text,
    I32,
    U32,
    U64,
    Bool,
    Uuid,
    ProblemType,
    SubmissionType,
    ProblemStatus,
    ProgressStatus,
    RunStatus,
    /// A UTC date and time.
    DateTime,
    /// The JSON `null`, a field's only value.
    Null,
    /// A JSON object, taken as its text.
    Object,
    /// A body of its own, whose name the field's `nested` gives.
    Nested,
    /// A list, which this form cannot carry.
    Container,
    /// A field that may be null, which this form cannot carry.
    Nullable,
}

/// A field of a body: its key, how its value is read and, for a nested body,
/// that body's name.
#[derive(Clone, Copy, Debug)]
pub struct FieldSpec {
    pub name: &'static str,
    pub kind: FieldKind,
    pub nested: &'static str,
}

/// A value read for a field.
#[derive(Clone, Debug, PartialEq)]
pub enum FieldValue {
    Text(String),
    I32(i32),
    U32(u32),
    U64(u64),
    Bool(bool),
    Uuid(u128),
    ProblemType(openapi::ProblemType),
    SubmissionType(openapi::SubmissionType),
    ProblemStatus(openapi::ProblemStatus),
    ProgressStatus(openapi::ProgressStatus),
    RunStatus(openapi::RunStatus),
    DateTime(Instant),
    Null,
    Object(String),
}

/// The mathematical value of a field value.
pub enum FormValue {
    Text(Seq<char>),
    I32(i32),
    U32(u32),
    U64(u64),
    Bool(bool),
    Uuid(u128),
    ProblemType(openapi::ProblemType),
    SubmissionType(openapi::SubmissionType),
    ProblemStatus(openapi::ProblemStatus),
    ProgressStatus(openapi::ProgressStatus),
    RunStatus(openapi::RunStatus),
    DateTime(Instant),
    Null,
    Object(Seq<char>),
}

impl FieldValue {
    /// The mathematical value of this value.
    pub open spec fn form(self) -> FormValue {
        match self {
            FieldValue::Text(s) => FormValue::Text(s@),
            FieldValue::I32(v) => FormValue::I32(v),
            FieldValue::U32(v) => FormValue::U32(v),
            FieldValue::U64(v) => FormValue::U64(v),
            FieldValue::Bool(v) => FormValue::Bool(v),
            FieldValue::Uuid(v) => FormValue::Uuid(v),
            FieldValue::ProblemType(v) => FormValue::ProblemType(v),
            FieldValue::SubmissionType(v) => FormValue::SubmissionType(v),
            FieldValue::ProblemStatus(v) => FormValue::ProblemStatus(v),
            FieldValue::ProgressStatus(v) => FormValue::ProgressStatus(v),
            FieldValue::RunStatus(v) => FormValue::RunStatus(v),
            FieldValue::DateTime(v) => FormValue::DateTime(v),
            FieldValue::Null => FormValue::Null,
            FieldValue::Object(s) => FormValue::Object(s@),
        }
    }
}

/// An enum value read from its wire name, or the error for an unknown name.
pub open spec fn named<T>(v: Option<T>, s: Seq<char>) -> Result<T, Seq<char>> {
    match v {
        Some(t) => Ok(t),
        None => Err("Value not valid: "@ + s),
    }
}

/// What the value `val` of a field of kind `kind` reads as. A nested body
/// fails, for its one piece holds a key and no value.
pub open spec fn value_of(kind: FieldKind, nested: Seq<char>, val: Seq<char>) -> Result<
    FormValue,
    Seq<char>,
> {
    match kind {
        FieldKind::Text => Ok(FormValue::Text(val)),
        FieldKind::I32 => match i32_from_str_of(val) {
            Ok(v) => Ok(FormValue::I32(v)),
            Err(e) => Err(e),
        },
        FieldKind::U32 => match u32_from_str_of(val) {
            Ok(v) => Ok(FormValue::U32(v)),
            Err(e) => Err(e),
        },
        FieldKind::U64 => match u64_from_str_of(val) {
            Ok(v) => Ok(FormValue::U64(v)),
            Err(e) => Err(e),
        },
        FieldKind::Bool => match bool_from_str_of(val) {
            Ok(v) => Ok(FormValue::Bool(v)),
            Err(e) => Err(e),
        },
        FieldKind::Uuid => match uuid_from_str_of(val) {
            Ok(v) => Ok(FormValue::Uuid(v)),
            Err(e) => Err(e),
        },
        FieldKind::ProblemType => match named(openapi::ProblemType::from_name(val), val) {
            Ok(v) => Ok(FormValue::ProblemType(v)),
            Err(e) => Err(e),
        },
        FieldKind::SubmissionType => match named(openapi::SubmissionType::from_name(val), val) {
            Ok(v) => Ok(FormValue::SubmissionType(v)),
            Err(e) => Err(e),
        },
        FieldKind::ProblemStatus => match named(openapi::ProblemStatus::from_name(val), val) {
            Ok(v) => Ok(FormValue::ProblemStatus(v)),
            Err(e) => Err(e),
        },
        FieldKind::ProgressStatus => match named(openapi::ProgressStatus::from_name(val), val) {
            Ok(v) => Ok(FormValue::ProgressStatus(v)),
            Err(e) => Err(e),
        },
        FieldKind::RunStatus => match named(openapi::RunStatus::from_name(val), val) {
            Ok(v) => Ok(FormValue::RunStatus(v)),
            Err(e) => Err(e),
        },
        FieldKind::DateTime => match utc_datetime_of(val) {
            Some(v) => Ok(FormValue::DateTime(Instant { seconds: v.0, subsec_nanos: v.1 })),
            None => Err(utc_datetime_error_of(val)),
        },
        FieldKind::Null => match openapi::NullValue::from_name(val) {
            Some(_) => Ok(FormValue::Null),
            None => Err("Value not valid: "@ + val),
        },
        FieldKind::Object => Ok(FormValue::Object(val)),
        FieldKind::Nested => Err("Missing value while parsing "@ + nested),
        FieldKind::Container => Err(Seq::empty()),
        FieldKind::Nullable => Err(Seq::empty()),
    }
}

/// Reads the value `val` of a field of kind `kind` (neither a list nor
/// nullable).
fn read_value(kind: FieldKind, nested: &str, val: &str) -> (r: Result<FieldValue, String>)
    requires
        kind != FieldKind::Container,
        kind != FieldKind::Nullable,
    ensures
        match value_of(kind, nested@, val@) {
            Ok(v) => r matches Ok(x) && x.form() == v,
            Err(e) => r matches Err(m) && m@ == e,
        },
{
    match kind {
        FieldKind::Text => Ok(FieldValue::Text(String::from_str(val))),
        FieldKind::I32 => match i32_from_str(val) {
            Ok(v) => Ok(FieldValue::I32(v)),
            Err(e) => Err(e),
        },
        FieldKind::U32 => match u32_from_str(val) {
            Ok(v) => Ok(FieldValue::U32(v)),
            Err(e) => Err(e),
        },
        FieldKind::U64 => match u64_from_str(val) {
            Ok(v) => Ok(FieldValue::U64(v)),
            Err(e) => Err(e),
        },
        FieldKind::Bool => match bool_from_str(val) {
            Ok(v) => Ok(FieldValue::Bool(v)),
            Err(e) => Err(e),
        },
        FieldKind::Uuid => match uuid_from_str(val) {
            Ok(v) => Ok(FieldValue::Uuid(v)),
            Err(e) => Err(e),
        },
        FieldKind::ProblemType => match openapi::ProblemType::parse(val) {
            Ok(v) => Ok(FieldValue::ProblemType(v)),
            Err(e) => Err(e),
        },
        FieldKind::SubmissionType => match openapi::SubmissionType::parse(val) {
            Ok(v) => Ok(FieldValue::SubmissionType(v)),
            Err(e) => Err(e),
        },
        FieldKind::ProblemStatus => match openapi::ProblemStatus::parse(val) {
            Ok(v) => Ok(FieldValue::ProblemStatus(v)),
            Err(e) => Err(e),
        },
        FieldKind::ProgressStatus => match openapi::ProgressStatus::parse(val) {
            Ok(v) => Ok(FieldValue::ProgressStatus(v)),
            Err(e) => Err(e),
        },
        FieldKind::RunStatus => match openapi::RunStatus::parse(val) {
            Ok(v) => Ok(FieldValue::RunStatus(v)),
            Err(e) => Err(e),
        },
        FieldKind::DateTime => match utc_datetime_from_str(val) {
            Ok(v) => Ok(FieldValue::DateTime(v)),
            Err(e) => Err(e),
        },
        FieldKind::Null => match openapi::NullValue::parse(val) {
            Ok(_) => Ok(FieldValue::Null),
            Err(e) => Err(e),
        },
        FieldKind::Object => Ok(FieldValue::Object(String::from_str(val))),
        _ => Err(concat_str("Missing value while parsing ", nested)),
    }
}

/// The first field from `i` on whose key is `key`, or -1.
pub open spec fn position_from(fields: Seq<FieldSpec>, key: Seq<char>, i: int) -> int
    decreases fields.len() - i,
{
    if i < 0 || i >= fields.len() {
        -1
    } else if fields[i].name@ == key {
        i
    } else {
        position_from(fields, key, i + 1)
    }
}

/// No two fields share a key.
pub open spec fn keys_unique(fields: Seq<FieldSpec>) -> bool {
    forall|a: int, b: int| 0 <= a < b < fields.len() ==> fields[a].name@ != fields[b].name@
}

/// The error that reading pairs `j` and later of the pieces `ps` of a body
/// named `t` ends in, if any.
pub open spec fn form_error(ps: Seq<Seq<char>>, t: Seq<char>, fields: Seq<FieldSpec>, j: int) -> Option<
    Seq<char>,
>
    decreases ps.len() - 2 * j,
{
    if j < 0 || 2 * j >= ps.len() {
        None
    } else if 2 * j + 1 >= ps.len() {
        Some("Missing value while parsing "@ + t)
    } else {
        let k = position_from(fields, ps[2 * j], 0);
        if k < 0 {
            Some("Unexpected key while parsing "@ + t)
        } else if fields[k].kind == FieldKind::Container {
            Some("Parsing a container in this style is not supported in "@ + t)
        } else if fields[k].kind == FieldKind::Nullable {
            Some("Parsing a nullable type in this style is not supported in "@ + t)
        } else {
            match value_of(fields[k].kind, fields[k].nested@, ps[2 * j + 1]) {
                Err(e) => Some(e),
                Ok(_) => form_error(ps, t, fields, j + 1),
            }
        }
    }
}

/// The key of pair `a`.
pub open spec fn key_at(ps: Seq<Seq<char>>, a: int) -> Seq<char> {
    ps[2 * a]
}

/// The first pair from `j` on whose key is `key`, or -1.
pub open spec fn first_pair(ps: Seq<Seq<char>>, key: Seq<char>, j: int) -> int
    decreases ps.len() - 2 * j,
{
    if j < 0 || 2 * j + 1 >= ps.len() {
        -1
    } else if ps[2 * j] == key {
        j
    } else {
        first_pair(ps, key, j + 1)
    }
}

/// The value read for field `i`, if its key was given.
pub open spec fn form_value(ps: Seq<Seq<char>>, fields: Seq<FieldSpec>, i: int) -> Option<FormValue> {
    let j = first_pair(ps, fields[i].name@, 0);
    if j < 0 {
        None
    } else {
        match value_of(fields[i].kind, fields[i].nested@, ps[2 * j + 1]) {
            Ok(v) => Some(v),
            Err(_) => None,
        }
    }
}

/// Skipping pairs whose key differs keeps the first pair with the key.
proof fn lemma_first_pair_skip(ps: Seq<Seq<char>>, key: Seq<char>, j: int)
    requires
        0 <= j,
        2 * j <= ps.len(),
        forall|a: int| 0 <= a < j ==> #[trigger] key_at(ps, a) != key,
    ensures
        first_pair(ps, key, 0) == first_pair(ps, key, j),
    decreases j,
{
    if j > 0 {
        lemma_first_pair_skip(ps, key, j - 1);
        assert(key_at(ps, j - 1) != key);
    }
}

/// Where no error ends the reading, pairs `j` and later are whole.
proof fn lemma_pairs_whole(ps: Seq<Seq<char>>, t: Seq<char>, fields: Seq<FieldSpec>, j: int)
    requires
        0 <= j,
        form_error(ps, t, fields, j) is None,
    ensures
        ps.len() % 2 == 0 || 2 * j >= ps.len(),
    decreases ps.len() - 2 * j,
{
    if 2 * j < ps.len() && 2 * j + 1 < ps.len() {
        let k = position_from(fields, ps[2 * j], 0);
        lemma_pairs_whole(ps, t, fields, j + 1);
    }
}

/// The position of the field whose key is `key`, or -1.
fn find_field(fields: &Vec<FieldSpec>, key: &str) -> (r: i64)
    requires
        fields@.len() < 0x7fff_ffff_ffff_ffff,
    ensures
        r == position_from(fields@, key@, 0),
        -1 <= r < fields@.len(),
        r >= 0 ==> fields@[r as int].name@ == key@,
{
    let n = fields.len();
    let mut i: usize = 0;
    while i < n
        invariant
            n == fields@.len(),
            n < 0x7fff_ffff_ffff_ffff,
            i <= n,
            position_from(fields@, key@, 0) == position_from(fields@, key@, i as int),
        decreases n - i,
    {
        if str_eq(fields[i].name, key) {
            return i as i64;
        }
        i += 1;
    }
    -1
}

/// Reads the pairs of `s`, a body named `t` with the given fields, and
/// returns the first value given for each field.
#[verifier::loop_isolation(false)]
#[verifier::rlimit(30)]
pub fn read_form(s: &str, t: &str, fields: &Vec<FieldSpec>) -> (r: Result<
    Vec<Option<FieldValue>>,
    String,
>)
    requires
        keys_unique(fields@),
        fields@.len() < 0x7fff_ffff_ffff_ffff,
    ensures
        match form_error(comma_pieces(s@), t@, fields@, 0) {
            Some(e) => r matches Err(m) && m@ == e,
            None => r matches Ok(vals) && vals@.len() == fields@.len() && forall|i: int|
                0 <= i < vals@.len() ==> match #[trigger] vals@[i] {
                    Some(v) => form_value(comma_pieces(s@), fields@, i) == Some(v.form()),
                    None => form_value(comma_pieces(s@), fields@, i) is None,
                },
        },
{
    let pieces = split_commas(s);
    let ghost ps = comma_pieces(s@);
    let nf = fields.len();
    let mut vals: Vec<Option<FieldValue>> = Vec::new();
    for i in 0..nf
        invariant
            nf == fields@.len(),
            vals@.len() == i,
            forall|k: int| 0 <= k < i ==> vals@[k] is None,
    {
        vals.push(None);
    }
    let np = pieces.len();
    let mut p: usize = 0;
    let ghost mut j: int = 0;
    while p < np
        invariant
            np == pieces@.len(),
            strings_value(pieces@) == ps,
            p == 2 * j,
            0 <= j,
            p <= np,
            vals@.len() == nf,
            form_error(ps, t@, fields@, 0) == form_error(ps, t@, fields@, j as int),
            forall|i: int|
                0 <= i < nf ==> match #[trigger] vals@[i] {
                    Some(v) => {
                        let f = first_pair(ps, fields@[i].name@, 0);
                        0 <= f < j && value_of(fields@[i].kind, fields@[i].nested@, ps[2 * f + 1])
                            == Ok::<FormValue, Seq<char>>(v.form())
                    },
                    None => forall|a: int| 0 <= a < j ==> #[trigger] key_at(ps, a) != fields@[i].name@,
                },
        decreases np - p,
    {
        if p + 1 >= np {
            return Err(concat_str("Missing value while parsing ", t));
        }
        let key = pieces[p].as_str();
        let val = pieces[p + 1].as_str();
        assert(key@ == ps[2 * j] && val@ == ps[2 * j + 1]);
        let k = find_field(fields, key);
        if k < 0 {
            return Err(concat_str("Unexpected key while parsing ", t));
        }
        let k = k as usize;
        let field = fields[k];
        if field.kind == FieldKind::Container {
            return Err(concat_str("Parsing a container in this style is not supported in ", t));
        }
        if field.kind == FieldKind::Nullable {
            return Err(concat_str("Parsing a nullable type in this style is not supported in ", t));
        }
        let value = match read_value(field.kind, field.nested, val) {
            Ok(v) => v,
            Err(e) => {
                return Err(e);
            },
        };
        proof {
            assert(fields@[k as int].name@ == ps[2 * j]);
            assert(key_at(ps, j) == fields@[k as int].name@);
            assert(forall|i: int| 0 <= i < nf && i != k ==> fields@[i].name@ != fields@[k as int].name@);
        }
        if vals[k].is_none() {
            proof {
                lemma_first_pair_skip(ps, fields@[k as int].name@, j);
            }
            vals.set(k, Some(value));
        }
        p += 2;
        proof {
            j = j + 1;
        }
    }
    proof {
        assert forall|i: int| 0 <= i < nf implies match #[trigger] vals@[i] {
            Some(v) => form_value(ps, fields@, i) == Some(v.form()),
            None => form_value(ps, fields@, i) is None,
        } by {
            match vals@[i] {
                Some(v) => {},
                None => {
                    lemma_first_pair_skip(ps, fields@[i].name@, j);
                },
            }
        }
    }
    Ok(vals)
}


// ---------------------------------------------------------------------------
// Whole bodies
// ---------------------------------------------------------------------------

/// The error of the first field, in order from `i`, that the body lacks; a
/// nullable field cannot be carried at all.
pub open spec fn missing_error(ps: Seq<Seq<char>>, fields: Seq<FieldSpec>, t: Seq<char>, i: int) -> Option<
    Seq<char>,
>
    decreases fields.len() - i,
{
    if i < 0 || i >= fields.len() {
        None
    } else if fields[i].kind == FieldKind::Nullable {
        Some("Nullable types not supported in "@ + t)
    } else if form_value(ps, fields, i) is None {
        Some(fields[i].name@ + " missing in "@ + t)
    } else {
        missing_error(ps, fields, t, i + 1)
    }
}

/// The error that reading the form `s` of a body named `t` ends in, if any.
pub open spec fn form_outcome(s: Seq<char>, t: Seq<char>, fields: Seq<FieldSpec>) -> Option<Seq<char>> {
    match form_error(comma_pieces(s), t, fields, 0) {
        Some(e) => Some(e),
        None => missing_error(comma_pieces(s), fields, t, 0),
    }
}

/// Where nothing is missing, every field has a value and none is nullable.
proof fn lemma_nothing_missing(ps: Seq<Seq<char>>, fields: Seq<FieldSpec>, t: Seq<char>, i: int)
    requires
        0 <= i,
        missing_error(ps, fields, t, i) is None,
    ensures
        forall|k: int|
            i <= k < fields.len() ==> fields[k].kind != FieldKind::Nullable && form_value(ps, fields, k) is Some,
    decreases fields.len() - i,
{
    if i < fields.len() {
        lemma_nothing_missing(ps, fields, t, i + 1);
    }
}

/// Checks, in order, that every field was given.
#[verifier::loop_isolation(false)]
fn check_missing(s: &str, vals: &Vec<Option<FieldValue>>, fields: &Vec<FieldSpec>, t: &str) -> (r:
    Result<(), String>)
    requires
        vals@.len() == fields@.len(),
        forall|i: int|
            0 <= i < vals@.len() ==> match #[trigger] vals@[i] {
                Some(v) => form_value(comma_pieces(s@), fields@, i) == Some(v.form()),
                None => form_value(comma_pieces(s@), fields@, i) is None,
            },
    ensures
        match missing_error(comma_pieces(s@), fields@, t@, 0) {
            Some(e) => r matches Err(m) && m@ == e,
            None => r is Ok,
        },
{
    let ghost ps = comma_pieces(s@);
    let n = fields.len();
    for i in 0..n
        invariant
            n == fields@.len(),
            vals@.len() == n,
            missing_error(ps, fields@, t@, 0) == missing_error(ps, fields@, t@, i as int),
    {
        if fields[i].kind == FieldKind::Nullable {
            return Err(concat_str("Nullable types not supported in ", t));
        }
        if vals[i].is_none() {
            assert(vals@[i as int] is None);
            let head = concat_str(fields[i].name, " missing in ");
            return Err(concat_str(head.as_str(), t));
        }
        assert(vals@[i as int] is Some);
    }
    Ok(())
}


/// The object text read for field `i`.
fn object_text_at(vals: &Vec<Option<FieldValue>>, i: usize) -> (r: String)
    requires
        i < vals@.len(),
        vals@[i as int] matches Some(v) && v.form() is Object,
    ensures
        vals@[i as int] matches Some(v) && v.form() == FormValue::Object(r@),
{
    match &vals[i] {
        Some(FieldValue::Object(s)) => s.clone(),
        _ => String::new(),
    }
}

/// The text read for field `i`.
fn text_at(vals: &Vec<Option<FieldValue>>, i: usize) -> (r: String)
    requires
        i < vals@.len(),
        vals@[i as int] matches Some(v) && v.form() is Text,
    ensures
        vals@[i as int] matches Some(v) && v.form() == FormValue::Text(r@),
{
    match &vals[i] {
        Some(FieldValue::Text(s)) => s.clone(),
        _ => String::new(),
    }
}

/// The value read for field `i`.
fn i32_at(vals: &Vec<Option<FieldValue>>, i: usize) -> (r: i32)
    requires
        i < vals@.len(),
        vals@[i as int] matches Some(v) && v.form() is I32,
    ensures
        vals@[i as int] matches Some(v) && v.form() == FormValue::I32(r),
{
    match &vals[i] {
        Some(FieldValue::I32(x)) => *x,
        _ => 0,
    }
}

/// The value read for field `i`.
fn u32_at(vals: &Vec<Option<FieldValue>>, i: usize) -> (r: u32)
    requires
        i < vals@.len(),
        vals@[i as int] matches Some(v) && v.form() is U32,
    ensures
        vals@[i as int] matches Some(v) && v.form() == FormValue::U32(r),
{
    match &vals[i] {
        Some(FieldValue::U32(x)) => *x,
        _ => 0,
    }
}

/// The value read for field `i`.
fn u64_at(vals: &Vec<Option<FieldValue>>, i: usize) -> (r: u64)
    requires
        i < vals@.len(),
        vals@[i as int] matches Some(v) && v.form() is U64,
    ensures
        vals@[i as int] matches Some(v) && v.form() == FormValue::U64(r),
{
    match &vals[i] {
        Some(FieldValue::U64(x)) => *x,
        _ => 0,
    }
}

/// The value read for field `i`.
fn bool_at(vals: &Vec<Option<FieldValue>>, i: usize) -> (r: bool)
    requires
        i < vals@.len(),
        vals@[i as int] matches Some(v) && v.form() is Bool,
    ensures
        vals@[i as int] matches Some(v) && v.form() == FormValue::Bool(r),
{
    match &vals[i] {
        Some(FieldValue::Bool(x)) => *x,
        _ => false,
    }
}

/// The value read for field `i`.
fn uuid_at(vals: &Vec<Option<FieldValue>>, i: usize) -> (r: u128)
    requires
        i < vals@.len(),
        vals@[i as int] matches Some(v) && v.form() is Uuid,
    ensures
        vals@[i as int] matches Some(v) && v.form() == FormValue::Uuid(r),
{
    match &vals[i] {
        Some(FieldValue::Uuid(x)) => *x,
        _ => 0,
    }
}

/// The value read for field `i`.
fn progress_status_at(vals: &Vec<Option<FieldValue>>, i: usize) -> (r: crate::openapi::ProgressStatus)
    requires
        i < vals@.len(),
        vals@[i as int] matches Some(v) && v.form() is ProgressStatus,
    ensures
        vals@[i as int] matches Some(v) && v.form() == FormValue::ProgressStatus(r),
{
    match &vals[i] {
        Some(FieldValue::ProgressStatus(x)) => *x,
        _ => crate::openapi::ProgressStatus::NotStarted,
    }
}

/// The fields of the form of `ActiveRunResponse`.
pub open spec fn active_run_response_fields() -> Seq<FieldSpec> {
    seq![FieldSpec { name: "status", kind: FieldKind::Text, nested: "" }, FieldSpec { name: "started_at", kind: FieldKind::DateTime, nested: "" }, FieldSpec { name: "elapsed_ms", kind: FieldKind::U64, nested: "" }, FieldSpec { name: "cleared_problem_ids", kind: FieldKind::Container, nested: "" }]
}

/// The fields of the form of `ActiveRunResponse`.
fn active_run_response_table() -> (r: Vec<FieldSpec>)
    ensures
        r@ == active_run_response_fields(),
        keys_unique(r@),
{
    let mut v: Vec<FieldSpec> = Vec::new();
    v.push(FieldSpec { name: "status", kind: FieldKind::Text, nested: "" });
    v.push(FieldSpec { name: "started_at", kind: FieldKind::DateTime, nested: "" });
    v.push(FieldSpec { name: "elapsed_ms", kind: FieldKind::U64, nested: "" });
    v.push(FieldSpec { name: "cleared_problem_ids", kind: FieldKind::Container, nested: "" });
    proof {
        reveal_strlit("status");
        reveal_strlit("started_at");
        reveal_strlit("elapsed_ms");
        reveal_strlit("cleared_problem_ids");
        assert("status"@.len() != "started_at"@.len());
        assert("status"@.len() != "elapsed_ms"@.len());
        assert("status"@.len() != "cleared_problem_ids"@.len());
        assert("started_at"@[1] != "elapsed_ms"@[1]);
        assert("started_at"@.len() != "cleared_problem_ids"@.len());
        assert("elapsed_ms"@.len() != "cleared_problem_ids"@.len());
        assert(v@ =~= active_run_response_fields());
    }
    v
}

/// Reads an `ActiveRunResponse` from its query-parameter form. The form cannot carry every
/// field of an `ActiveRunResponse`, so this always fails, with the error that the reading
/// meets first.
pub fn active_run_response_from_form(s: &str) -> (r: Result<crate::openapi::ActiveRunResponse, String>)
    ensures
        form_outcome(s@, "ActiveRunResponse"@, active_run_response_fields()) is Some,
        r matches Err(m) && Some(m@) == form_outcome(s@, "ActiveRunResponse"@, active_run_response_fields()),
{
    let fields = active_run_response_table();
    let vals = read_form(s, "ActiveRunResponse", &fields)?;
    check_missing(s, &vals, &fields, "ActiveRunResponse")?;
    proof {
        lemma_nothing_missing(comma_pieces(s@), fields@, "ActiveRunResponse"@, 0);
        assert(fields@[3].kind != FieldKind::Nullable && form_value(comma_pieces(s@), fields@, 3) is Some);
    }
    Err(String::new())
}

impl std::str::FromStr for crate::openapi::ActiveRunResponse {
    type Err = String;

    fn from_str(s: &str) -> (r: Result<crate::openapi::ActiveRunResponse, String>)
        ensures
            form_outcome(s@, "ActiveRunResponse"@, active_run_response_fields()) is Some,
            r matches Err(m) && Some(m@) == form_outcome(s@, "ActiveRunResponse"@, active_run_response_fields()),
    {
        active_run_response_from_form(s)
    }
}

/// The fields of the form of `AnswerInputSchema`.
pub open spec fn answer_input_schema_fields() -> Seq<FieldSpec> {
    seq![FieldSpec { name: "type", kind: FieldKind::Text, nested: "" }, FieldSpec { name: "max_length", kind: FieldKind::I32, nested: "" }]
}

/// The fields of the form of `AnswerInputSchema`.
fn answer_input_schema_table() -> (r: Vec<FieldSpec>)
    ensures
        r@ == answer_input_schema_fields(),
        keys_unique(r@),
{
    let mut v: Vec<FieldSpec> = Vec::new();
    v.push(FieldSpec { name: "type", kind: FieldKind::Text, nested: "" });
    v.push(FieldSpec { name: "max_length", kind: FieldKind::I32, nested: "" });
    proof {
        reveal_strlit("type");
        reveal_strlit("max_length");
        assert("type"@.len() != "max_length"@.len());
        assert(v@ =~= answer_input_schema_fields());
    }
    v
}

impl crate::openapi::AnswerInputSchema {
    /// Reads the value from its query-parameter form.
    pub fn from_form(s: &str) -> (r: Result<crate::openapi::AnswerInputSchema, String>)
        ensures
            match form_outcome(s@, "AnswerInputSchema"@, answer_input_schema_fields()) {
                Some(e) => r matches Err(m) && m@ == e,
                None => r matches Ok(v)
                && form_value(comma_pieces(s@), answer_input_schema_fields(), 0) == Some(FormValue::Text(v.r_type@))
                && form_value(comma_pieces(s@), answer_input_schema_fields(), 1) == Some(FormValue::I32(v.max_length)),
            },
    {
        let fields = answer_input_schema_table();
        let vals = read_form(s, "AnswerInputSchema", &fields)?;
        check_missing(s, &vals, &fields, "AnswerInputSchema")?;
        proof {
            lemma_nothing_missing(comma_pieces(s@), fields@, "AnswerInputSchema"@, 0);
        }
        let r_type = text_at(&vals, 0);
        let max_length = i32_at(&vals, 1);
        Ok(crate::openapi::AnswerInputSchema { r_type, max_length })
    }
}

impl std::str::FromStr for crate::openapi::AnswerInputSchema {
    type Err = String;

    fn from_str(s: &str) -> (r: Result<crate::openapi::AnswerInputSchema, String>)
        ensures
            match form_outcome(s@, "AnswerInputSchema"@, answer_input_schema_fields()) {
                Some(e) => r matches Err(m) && m@ == e,
                None => r matches Ok(v)
                && form_value(comma_pieces(s@), answer_input_schema_fields(), 0) == Some(FormValue::Text(v.r_type@))
                && form_value(comma_pieces(s@), answer_input_schema_fields(), 1) == Some(FormValue::I32(v.max_length)),
            },
    {
        crate::openapi::AnswerInputSchema::from_form(s)
    }
}

/// The fields of the form of `AnswerRequest`.
pub open spec fn answer_request_fields() -> Seq<FieldSpec> {
    seq![FieldSpec { name: "answer", kind: FieldKind::Text, nested: "" }]
}

/// The fields of the form of `AnswerRequest`.
fn answer_request_table() -> (r: Vec<FieldSpec>)
    ensures
        r@ == answer_request_fields(),
        keys_unique(r@),
{
    let mut v: Vec<FieldSpec> = Vec::new();
    v.push(FieldSpec { name: "answer", kind: FieldKind::Text, nested: "" });
    proof {
        reveal_strlit("answer");
        assert(v@ =~= answer_request_fields());
    }
    v
}

impl crate::openapi::AnswerRequest {
    /// Reads the value from its query-parameter form.
    pub fn from_form(s: &str) -> (r: Result<crate::openapi::AnswerRequest, String>)
        ensures
            match form_outcome(s@, "AnswerRequest"@, answer_request_fields()) {
                Some(e) => r matches Err(m) && m@ == e,
                None => r matches Ok(v)
                && form_value(comma_pieces(s@), answer_request_fields(), 0) == Some(FormValue::Text(v.answer@)),
            },
    {
        let fields = answer_request_table();
        let vals = read_form(s, "AnswerRequest", &fields)?;
        check_missing(s, &vals, &fields, "AnswerRequest")?;
        proof {
            lemma_nothing_missing(comma_pieces(s@), fields@, "AnswerRequest"@, 0);
        }
        let answer = text_at(&vals, 0);
        Ok(crate::openapi::AnswerRequest { answer })
    }
}

impl std::str::FromStr for crate::openapi::AnswerRequest {
    type Err = String;

    fn from_str(s: &str) -> (r: Result<crate::openapi::AnswerRequest, String>)
        ensures
            match form_outcome(s@, "AnswerRequest"@, answer_request_fields()) {
                Some(e) => r matches Err(m) && m@ == e,
                None => r matches Ok(v)
                && form_value(comma_pieces(s@), answer_request_fields(), 0) == Some(FormValue::Text(v.answer@)),
            },
    {
        crate::openapi::AnswerRequest::from_form(s)
    }
}

/// The fields of the form of `Asset`.
pub open spec fn asset_fields() -> Seq<FieldSpec> {
    seq![FieldSpec { name: "type", kind: FieldKind::Text, nested: "" }, FieldSpec { name: "url", kind: FieldKind::Text, nested: "" }, FieldSpec { name: "alt", kind: FieldKind::Text, nested: "" }]
}

/// The fields of the form of `Asset`.
fn asset_table() -> (r: Vec<FieldSpec>)
    ensures
        r@ == asset_fields(),
        keys_unique(r@),
{
    let mut v: Vec<FieldSpec> = Vec::new();
    v.push(FieldSpec { name: "type", kind: FieldKind::Text, nested: "" });
    v.push(FieldSpec { name: "url", kind: FieldKind::Text, nested: "" });
    v.push(FieldSpec { name: "alt", kind: FieldKind::Text, nested: "" });
    proof {
        reveal_strlit("type");
        reveal_strlit("url");
        reveal_strlit("alt");
        assert("type"@.len() != "url"@.len());
        assert("type"@.len() != "alt"@.len());
        assert("url"@[0] != "alt"@[0]);
        assert(v@ =~= asset_fields());
    }
    v
}

impl crate::openapi::Asset {
    /// Reads the value from its query-parameter form.
    pub fn from_form(s: &str) -> (r: Result<crate::openapi::Asset, String>)
        ensures
            match form_outcome(s@, "Asset"@, asset_fields()) {
                Some(e) => r matches Err(m) && m@ == e,
                None => r matches Ok(v)
                && form_value(comma_pieces(s@), asset_fields(), 0) == Some(FormValue::Text(v.r_type@))
                && form_value(comma_pieces(s@), asset_fields(), 1) == Some(FormValue::Text(v.url@))
                && form_value(comma_pieces(s@), asset_fields(), 2) == Some(FormValue::Text(v.alt@)),
            },
    {
        let fields = asset_table();
        let vals = read_form(s, "Asset", &fields)?;
        check_missing(s, &vals, &fields, "Asset")?;
        proof {
            lemma_nothing_missing(comma_pieces(s@), fields@, "Asset"@, 0);
        }
        let r_type = text_at(&vals, 0);
        let url = text_at(&vals, 1);
        let alt = text_at(&vals, 2);
        Ok(crate::openapi::Asset { r_type, url, alt })
    }
}

impl std::str::FromStr for crate::openapi::Asset {
    type Err = String;

    fn from_str(s: &str) -> (r: Result<crate::openapi::Asset, String>)
        ensures
            match form_outcome(s@, "Asset"@, asset_fields()) {
                Some(e) => r matches Err(m) && m@ == e,
                None => r matches Ok(v)
                && form_value(comma_pieces(s@), asset_fields(), 0) == Some(FormValue::Text(v.r_type@))
                && form_value(comma_pieces(s@), asset_fields(), 1) == Some(FormValue::Text(v.url@))
                && form_value(comma_pieces(s@), asset_fields(), 2) == Some(FormValue::Text(v.alt@)),
            },
    {
        crate::openapi::Asset::from_form(s)
    }
}

/// The fields of the form of `BestRecord`.
pub open spec fn best_record_fields() -> Seq<FieldSpec> {
    seq![FieldSpec { name: "elapsed_ms", kind: FieldKind::U64, nested: "" }, FieldSpec { name: "rank", kind: FieldKind::U32, nested: "" }, FieldSpec { name: "query_count", kind: FieldKind::U64, nested: "" }]
}

/// The fields of the form of `BestRecord`.
fn best_record_table() -> (r: Vec<FieldSpec>)
    ensures
        r@ == best_record_fields(),
        keys_unique(r@),
{
    let mut v: Vec<FieldSpec> = Vec::new();
    v.push(FieldSpec { name: "elapsed_ms", kind: FieldKind::U64, nested: "" });
    v.push(FieldSpec { name: "rank", kind: FieldKind::U32, nested: "" });
    v.push(FieldSpec { name: "query_count", kind: FieldKind::U64, nested: "" });
    proof {
        reveal_strlit("elapsed_ms");
        reveal_strlit("rank");
        reveal_strlit("query_count");
        assert("elapsed_ms"@.len() != "rank"@.len());
        assert("elapsed_ms"@.len() != "query_count"@.len());
        assert("rank"@.len() != "query_count"@.len());
        assert(v@ =~= best_record_fields());
    }
    v
}

impl crate::openapi::BestRecord {
    /// Reads the value from its query-parameter form.
    pub fn from_form(s: &str) -> (r: Result<crate::openapi::BestRecord, String>)
        ensures
            match form_outcome(s@, "BestRecord"@, best_record_fields()) {
                Some(e) => r matches Err(m) && m@ == e,
                None => r matches Ok(v)
                && form_value(comma_pieces(s@), best_record_fields(), 0) == Some(FormValue::U64(v.elapsed_ms))
                && form_value(comma_pieces(s@), best_record_fields(), 1) == Some(FormValue::U32(v.rank))
                && form_value(comma_pieces(s@), best_record_fields(), 2) == Some(FormValue::U64(v.query_count)),
            },
    {
        let fields = best_record_table();
        let vals = read_form(s, "BestRecord", &fields)?;
        check_missing(s, &vals, &fields, "BestRecord")?;
        proof {
            lemma_nothing_missing(comma_pieces(s@), fields@, "BestRecord"@, 0);
        }
        let elapsed_ms = u64_at(&vals, 0);
        let rank = u32_at(&vals, 1);
        let query_count = u64_at(&vals, 2);
        Ok(crate::openapi::BestRecord { elapsed_ms, rank, query_count })
    }
}

impl std::str::FromStr for crate::openapi::BestRecord {
    type Err = String;

    fn from_str(s: &str) -> (r: Result<crate::openapi::BestRecord, String>)
        ensures
            match form_outcome(s@, "BestRecord"@, best_record_fields()) {
                Some(e) => r matches Err(m) && m@ == e,
                None => r matches Ok(v)
                && form_value(comma_pieces(s@), best_record_fields(), 0) == Some(FormValue::U64(v.elapsed_ms))
                && form_value(comma_pieces(s@), best_record_fields(), 1) == Some(FormValue::U32(v.rank))
                && form_value(comma_pieces(s@), best_record_fields(), 2) == Some(FormValue::U64(v.query_count)),
            },
    {
        crate::openapi::BestRecord::from_form(s)
    }
}

/// The fields of the form of `CorrectAnswerResponse`.
pub open spec fn correct_answer_response_fields() -> Seq<FieldSpec> {
    seq![FieldSpec { name: "correct", kind: FieldKind::Bool, nested: "" }, FieldSpec { name: "problem_status", kind: FieldKind::Text, nested: "" }, FieldSpec { name: "unlocked_problem_ids", kind: FieldKind::Container, nested: "" }, FieldSpec { name: "run_status", kind: FieldKind::RunStatus, nested: "" }, FieldSpec { name: "progress", kind: FieldKind::Nested, nested: "Progress" }, FieldSpec { name: "elapsed_ms", kind: FieldKind::U64, nested: "" }]
}

/// The fields of the form of `CorrectAnswerResponse`.
fn correct_answer_response_table() -> (r: Vec<FieldSpec>)
    ensures
        r@ == correct_answer_response_fields(),
        keys_unique(r@),
{
    let mut v: Vec<FieldSpec> = Vec::new();
    v.push(FieldSpec { name: "correct", kind: FieldKind::Bool, nested: "" });
    v.push(FieldSpec { name: "problem_status", kind: FieldKind::Text, nested: "" });
    v.push(FieldSpec { name: "unlocked_problem_ids", kind: FieldKind::Container, nested: "" });
    v.push(FieldSpec { name: "run_status", kind: FieldKind::RunStatus, nested: "" });
    v.push(FieldSpec { name: "progress", kind: FieldKind::Nested, nested: "Progress" });
    v.push(FieldSpec { name: "elapsed_ms", kind: FieldKind::U64, nested: "" });
    proof {
        reveal_strlit("correct");
        reveal_strlit("problem_status");
        reveal_strlit("unlocked_problem_ids");
        reveal_strlit("run_status");
        reveal_strlit("progress");
        reveal_strlit("elapsed_ms");
        assert("correct"@.len() != "problem_status"@.len());
        assert("correct"@.len() != "unlocked_problem_ids"@.len());
        assert("correct"@.len() != "run_status"@.len());
        assert("correct"@.len() != "progress"@.len());
        assert("correct"@.len() != "elapsed_ms"@.len());
        assert("problem_status"@.len() != "unlocked_problem_ids"@.len());
        assert("problem_status"@.len() != "run_status"@.len());
        assert("problem_status"@.len() != "progress"@.len());
        assert("problem_status"@.len() != "elapsed_ms"@.len());
        assert("unlocked_problem_ids"@.len() != "run_status"@.len());
        assert("unlocked_problem_ids"@.len() != "progress"@.len());
        assert("unlocked_problem_ids"@.len() != "elapsed_ms"@.len());
        assert("run_status"@.len() != "progress"@.len());
        assert("run_status"@[0] != "elapsed_ms"@[0]);
        assert("progress"@.len() != "elapsed_ms"@.len());
        assert(v@ =~= correct_answer_response_fields());
    }
    v
}

/// Reads a `CorrectAnswerResponse` from its query-parameter form. The form cannot carry every
/// field of a `CorrectAnswerResponse`, so this always fails, with the error that the reading
/// meets first.
pub fn correct_answer_response_from_form(s: &str) -> (r: Result<crate::openapi::CorrectAnswerResponse, String>)
    ensures
        form_outcome(s@, "CorrectAnswerResponse"@, correct_answer_response_fields()) is Some,
        r matches Err(m) && Some(m@) == form_outcome(s@, "CorrectAnswerResponse"@, correct_answer_response_fields()),
{
    let fields = correct_answer_response_table();
    let vals = read_form(s, "CorrectAnswerResponse", &fields)?;
    check_missing(s, &vals, &fields, "CorrectAnswerResponse")?;
    proof {
        lemma_nothing_missing(comma_pieces(s@), fields@, "CorrectAnswerResponse"@, 0);
        assert(fields@[2].kind != FieldKind::Nullable && form_value(comma_pieces(s@), fields@, 2) is Some);
    }
    Err(String::new())
}

impl std::str::FromStr for crate::openapi::CorrectAnswerResponse {
    type Err = String;

    fn from_str(s: &str) -> (r: Result<crate::openapi::CorrectAnswerResponse, String>)
        ensures
            form_outcome(s@, "CorrectAnswerResponse"@, correct_answer_response_fields()) is Some,
            r matches Err(m) && Some(m@) == form_outcome(s@, "CorrectAnswerResponse"@, correct_answer_response_fields()),
    {
        correct_answer_response_from_form(s)
    }
}

/// The fields of the form of `CorrectQueryResponse`.
pub open spec fn correct_query_response_fields() -> Seq<FieldSpec> {
    seq![FieldSpec { name: "query_id", kind: FieldKind::Uuid, nested: "" }, FieldSpec { name: "correct", kind: FieldKind::Bool, nested: "" }, FieldSpec { name: "normalized_operations", kind: FieldKind::Container, nested: "" }, FieldSpec { name: "remaining_pattern_count", kind: FieldKind::I32, nested: "" }, FieldSpec { name: "query_count", kind: FieldKind::U64, nested: "" }, FieldSpec { name: "problem_status", kind: FieldKind::Text, nested: "" }]
}

/// The fields of the form of `CorrectQueryResponse`.
fn correct_query_response_table() -> (r: Vec<FieldSpec>)
    ensures
        r@ == correct_query_response_fields(),
        keys_unique(r@),
{
    let mut v: Vec<FieldSpec> = Vec::new();
    v.push(FieldSpec { name: "query_id", kind: FieldKind::Uuid, nested: "" });
    v.push(FieldSpec { name: "correct", kind: FieldKind::Bool, nested: "" });
    v.push(FieldSpec { name: "normalized_operations", kind: FieldKind::Container, nested: "" });
    v.push(FieldSpec { name: "remaining_pattern_count", kind: FieldKind::I32, nested: "" });
    v.push(FieldSpec { name: "query_count", kind: FieldKind::U64, nested: "" });
    v.push(FieldSpec { name: "problem_status", kind: FieldKind::Text, nested: "" });
    proof {
        reveal_strlit("query_id");
        reveal_strlit("correct");
        reveal_strlit("normalized_operations");
        reveal_strlit("remaining_pattern_count");
        reveal_strlit("query_count");
        reveal_strlit("problem_status");
        assert("query_id"@.len() != "correct"@.len());
        assert("query_id"@.len() != "normalized_operations"@.len());
        assert("query_id"@.len() != "remaining_pattern_count"@.len());
        assert("query_id"@.len() != "query_count"@.len());
        assert("query_id"@.len() != "problem_status"@.len());
        assert("correct"@.len() != "normalized_operations"@.len());
        assert("correct"@.len() != "remaining_pattern_count"@.len());
        assert("correct"@.len() != "query_count"@.len());
        assert("correct"@.len() != "problem_status"@.len());
        assert("normalized_operations"@.len() != "remaining_pattern_count"@.len());
        assert("normalized_operations"@.len() != "query_count"@.len());
        assert("normalized_operations"@.len() != "problem_status"@.len());
        assert("remaining_pattern_count"@.len() != "query_count"@.len());
        assert("remaining_pattern_count"@.len() != "problem_status"@.len());
        assert("query_count"@.len() != "problem_status"@.len());
        assert(v@ =~= correct_query_response_fields());
    }
    v
}

/// Reads a `CorrectQueryResponse` from its query-parameter form. The form cannot carry every
/// field of a `CorrectQueryResponse`, so this always fails, with the error that the reading
/// meets first.
pub fn correct_query_response_from_form(s: &str) -> (r: Result<crate::openapi::CorrectQueryResponse, String>)
    ensures
        form_outcome(s@, "CorrectQueryResponse"@, correct_query_response_fields()) is Some,
        r matches Err(m) && Some(m@) == form_outcome(s@, "CorrectQueryResponse"@, correct_query_response_fields()),
{
    let fields = correct_query_response_table();
    let vals = read_form(s, "CorrectQueryResponse", &fields)?;
    check_missing(s, &vals, &fields, "CorrectQueryResponse")?;
    proof {
        lemma_nothing_missing(comma_pieces(s@), fields@, "CorrectQueryResponse"@, 0);
        assert(fields@[2].kind != FieldKind::Nullable && form_value(comma_pieces(s@), fields@, 2) is Some);
    }
    Err(String::new())
}

impl std::str::FromStr for crate::openapi::CorrectQueryResponse {
    type Err = String;

    fn from_str(s: &str) -> (r: Result<crate::openapi::CorrectQueryResponse, String>)
        ensures
            form_outcome(s@, "CorrectQueryResponse"@, correct_query_response_fields()) is Some,
            r matches Err(m) && Some(m@) == form_outcome(s@, "CorrectQueryResponse"@, correct_query_response_fields()),
    {
        correct_query_response_from_form(s)
    }
}

/// The fields of the form of `ErrorResponse`.
pub open spec fn error_response_fields() -> Seq<FieldSpec> {
    seq![FieldSpec { name: "error", kind: FieldKind::Nested, nested: "ErrorResponseError" }]
}

/// The fields of the form of `ErrorResponse`.
fn error_response_table() -> (r: Vec<FieldSpec>)
    ensures
        r@ == error_response_fields(),
        keys_unique(r@),
{
    let mut v: Vec<FieldSpec> = Vec::new();
    v.push(FieldSpec { name: "error", kind: FieldKind::Nested, nested: "ErrorResponseError" });
    proof {
        reveal_strlit("error");
        assert(v@ =~= error_response_fields());
    }
    v
}

/// Reads a `ErrorResponse` from its query-parameter form. The form cannot carry every
/// field of a `ErrorResponse`, so this always fails, with the error that the reading
/// meets first.
pub fn error_response_from_form(s: &str) -> (r: Result<crate::openapi::ErrorResponse, String>)
    ensures
        form_outcome(s@, "ErrorResponse"@, error_response_fields()) is Some,
        r matches Err(m) && Some(m@) == form_outcome(s@, "ErrorResponse"@, error_response_fields()),
{
    let fields = error_response_table();
    let vals = read_form(s, "ErrorResponse", &fields)?;
    check_missing(s, &vals, &fields, "ErrorResponse")?;
    proof {
        lemma_nothing_missing(comma_pieces(s@), fields@, "ErrorResponse"@, 0);
        assert(fields@[0].kind != FieldKind::Nullable && form_value(comma_pieces(s@), fields@, 0) is Some);
    }
    Err(String::new())
}

impl std::str::FromStr for crate::openapi::ErrorResponse {
    type Err = String;

    fn from_str(s: &str) -> (r: Result<crate::openapi::ErrorResponse, String>)
        ensures
            form_outcome(s@, "ErrorResponse"@, error_response_fields()) is Some,
            r matches Err(m) && Some(m@) == form_outcome(s@, "ErrorResponse"@, error_response_fields()),
    {
        error_response_from_form(s)
    }
}

/// The fields of the form of `ErrorResponseError`.
pub open spec fn error_response_error_fields() -> Seq<FieldSpec> {
    seq![FieldSpec { name: "code", kind: FieldKind::Text, nested: "" }, FieldSpec { name: "message", kind: FieldKind::Text, nested: "" }, FieldSpec { name: "details", kind: FieldKind::Object, nested: "" }]
}

/// The fields of the form of `ErrorResponseError`.
fn error_response_error_table() -> (r: Vec<FieldSpec>)
    ensures
        r@ == error_response_error_fields(),
        keys_unique(r@),
{
    let mut v: Vec<FieldSpec> = Vec::new();
    v.push(FieldSpec { name: "code", kind: FieldKind::Text, nested: "" });
    v.push(FieldSpec { name: "message", kind: FieldKind::Text, nested: "" });
    v.push(FieldSpec { name: "details", kind: FieldKind::Object, nested: "" });
    proof {
        reveal_strlit("code");
        reveal_strlit("message");
        reveal_strlit("details");
        assert("code"@.len() != "message"@.len());
        assert("code"@.len() != "details"@.len());
        assert("message"@[0] != "details"@[0]);
        assert(v@ =~= error_response_error_fields());
    }
    v
}

impl crate::openapi::ErrorResponseError {
    /// Reads the value from its query-parameter form.
    pub fn from_form(s: &str) -> (r: Result<crate::openapi::ErrorResponseError, String>)
        ensures
            match form_outcome(s@, "ErrorResponseError"@, error_response_error_fields()) {
                Some(e) => r matches Err(m) && m@ == e,
                None => r matches Ok(v)
                && form_value(comma_pieces(s@), error_response_error_fields(), 0) == Some(FormValue::Text(v.code@))
                && form_value(comma_pieces(s@), error_response_error_fields(), 1) == Some(FormValue::Text(v.message@))
                && form_value(comma_pieces(s@), error_response_error_fields(), 2) is Some,
            },
    {
        let fields = error_response_error_table();
        let vals = read_form(s, "ErrorResponseError", &fields)?;
        check_missing(s, &vals, &fields, "ErrorResponseError")?;
        proof {
            lemma_nothing_missing(comma_pieces(s@), fields@, "ErrorResponseError"@, 0);
        }
        let code = text_at(&vals, 0);
        let message = text_at(&vals, 1);
        let details = json_text(object_text_at(&vals, 2));
        Ok(crate::openapi::ErrorResponseError { code, message, details })
    }
}

impl std::str::FromStr for crate::openapi::ErrorResponseError {
    type Err = String;

    fn from_str(s: &str) -> (r: Result<crate::openapi::ErrorResponseError, String>)
        ensures
            match form_outcome(s@, "ErrorResponseError"@, error_response_error_fields()) {
                Some(e) => r matches Err(m) && m@ == e,
                None => r matches Ok(v)
                && form_value(comma_pieces(s@), error_response_error_fields(), 0) == Some(FormValue::Text(v.code@))
                && form_value(comma_pieces(s@), error_response_error_fields(), 1) == Some(FormValue::Text(v.message@))
                && form_value(comma_pieces(s@), error_response_error_fields(), 2) is Some,
            },
    {
        crate::openapi::ErrorResponseError::from_form(s)
    }
}

/// The fields of the form of `MeDemoAuthenticated`.
pub open spec fn me_demo_authenticated_fields() -> Seq<FieldSpec> {
    seq![FieldSpec { name: "authenticated", kind: FieldKind::Bool, nested: "" }, FieldSpec { name: "auth_mode", kind: FieldKind::Text, nested: "" }, FieldSpec { name: "user", kind: FieldKind::Nested, nested: "User" }, FieldSpec { name: "login_url", kind: FieldKind::Null, nested: "" }, FieldSpec { name: "logout_url", kind: FieldKind::Null, nested: "" }]
}

/// The fields of the form of `MeDemoAuthenticated`.
fn me_demo_authenticated_table() -> (r: Vec<FieldSpec>)
    ensures
        r@ == me_demo_authenticated_fields(),
        keys_unique(r@),
{
    let mut v: Vec<FieldSpec> = Vec::new();
    v.push(FieldSpec { name: "authenticated", kind: FieldKind::Bool, nested: "" });
    v.push(FieldSpec { name: "auth_mode", kind: FieldKind::Text, nested: "" });
    v.push(FieldSpec { name: "user", kind: FieldKind::Nested, nested: "User" });
    v.push(FieldSpec { name: "login_url", kind: FieldKind::Null, nested: "" });
    v.push(FieldSpec { name: "logout_url", kind: FieldKind::Null, nested: "" });
    proof {
        reveal_strlit("authenticated");
        reveal_strlit("auth_mode");
        reveal_strlit("user");
        reveal_strlit("login_url");
        reveal_strlit("logout_url");
        assert("authenticated"@.len() != "auth_mode"@.len());
        assert("authenticated"@.len() != "user"@.len());
        assert("authenticated"@.len() != "login_url"@.len());
        assert("authenticated"@.len() != "logout_url"@.len());
        assert("auth_mode"@.len() != "user"@.len());
        assert("auth_mode"@[0] != "login_url"@[0]);
        assert("auth_mode"@.len() != "logout_url"@.len());
        assert("user"@.len() != "login_url"@.len());
        assert("user"@.len() != "logout_url"@.len());
        assert("login_url"@.len() != "logout_url"@.len());
        assert(v@ =~= me_demo_authenticated_fields());
    }
    v
}

/// Reads a `MeDemoAuthenticated` from its query-parameter form. The form cannot carry every
/// field of a `MeDemoAuthenticated`, so this always fails, with the error that the reading
/// meets first.
pub fn me_demo_authenticated_from_form(s: &str) -> (r: Result<crate::openapi::MeDemoAuthenticated, String>)
    ensures
        form_outcome(s@, "MeDemoAuthenticated"@, me_demo_authenticated_fields()) is Some,
        r matches Err(m) && Some(m@) == form_outcome(s@, "MeDemoAuthenticated"@, me_demo_authenticated_fields()),
{
    let fields = me_demo_authenticated_table();
    let vals = read_form(s, "MeDemoAuthenticated", &fields)?;
    check_missing(s, &vals, &fields, "MeDemoAuthenticated")?;
    proof {
        lemma_nothing_missing(comma_pieces(s@), fields@, "MeDemoAuthenticated"@, 0);
        assert(fields@[2].kind != FieldKind::Nullable && form_value(comma_pieces(s@), fields@, 2) is Some);
    }
    Err(String::new())
}

impl std::str::FromStr for crate::openapi::MeDemoAuthenticated {
    type Err = String;

    fn from_str(s: &str) -> (r: Result<crate::openapi::MeDemoAuthenticated, String>)
        ensures
            form_outcome(s@, "MeDemoAuthenticated"@, me_demo_authenticated_fields()) is Some,
            r matches Err(m) && Some(m@) == form_outcome(s@, "MeDemoAuthenticated"@, me_demo_authenticated_fields()),
    {
        me_demo_authenticated_from_form(s)
    }
}

/// The fields of the form of `MeDemoUnauthenticated`.
pub open spec fn me_demo_unauthenticated_fields() -> Seq<FieldSpec> {
    seq![FieldSpec { name: "authenticated", kind: FieldKind::Bool, nested: "" }, FieldSpec { name: "auth_mode", kind: FieldKind::Text, nested: "" }, FieldSpec { name: "user", kind: FieldKind::Null, nested: "" }, FieldSpec { name: "login_url", kind: FieldKind::Null, nested: "" }, FieldSpec { name: "logout_url", kind: FieldKind::Null, nested: "" }]
}

/// The fields of the form of `MeDemoUnauthenticated`.
fn me_demo_unauthenticated_table() -> (r: Vec<FieldSpec>)
    ensures
        r@ == me_demo_unauthenticated_fields(),
        keys_unique(r@),
{
    let mut v: Vec<FieldSpec> = Vec::new();
    v.push(FieldSpec { name: "authenticated", kind: FieldKind::Bool, nested: "" });
    v.push(FieldSpec { name: "auth_mode", kind: FieldKind::Text, nested: "" });
    v.push(FieldSpec { name: "user", kind: FieldKind::Null, nested: "" });
    v.push(FieldSpec { name: "login_url", kind: FieldKind::Null, nested: "" });
    v.push(FieldSpec { name: "logout_url", kind: FieldKind::Null, nested: "" });
    proof {
        reveal_strlit("authenticated");
        reveal_strlit("auth_mode");
        reveal_strlit("user");
        reveal_strlit("login_url");
        reveal_strlit("logout_url");
        assert("authenticated"@.len() != "auth_mode"@.len());
        assert("authenticated"@.len() != "user"@.len());
        assert("authenticated"@.len() != "login_url"@.len());
        assert("authenticated"@.len() != "logout_url"@.len());
        assert("auth_mode"@.len() != "user"@.len());
        assert("auth_mode"@[0] != "login_url"@[0]);
        assert("auth_mode"@.len() != "logout_url"@.len());
        assert("user"@.len() != "login_url"@.len());
        assert("user"@.len() != "logout_url"@.len());
        assert("login_url"@.len() != "logout_url"@.len());
        assert(v@ =~= me_demo_unauthenticated_fields());
    }
    v
}

impl crate::openapi::MeDemoUnauthenticated {
    /// Reads the value from its query-parameter form.
    pub fn from_form(s: &str) -> (r: Result<crate::openapi::MeDemoUnauthenticated, String>)
        ensures
            match form_outcome(s@, "MeDemoUnauthenticated"@, me_demo_unauthenticated_fields()) {
                Some(e) => r matches Err(m) && m@ == e,
                None => r matches Ok(v)
                && form_value(comma_pieces(s@), me_demo_unauthenticated_fields(), 0) == Some(FormValue::Bool(v.authenticated))
                && form_value(comma_pieces(s@), me_demo_unauthenticated_fields(), 1) == Some(FormValue::Text(v.auth_mode@)),
            },
    {
        let fields = me_demo_unauthenticated_table();
        let vals = read_form(s, "MeDemoUnauthenticated", &fields)?;
        check_missing(s, &vals, &fields, "MeDemoUnauthenticated")?;
        proof {
            lemma_nothing_missing(comma_pieces(s@), fields@, "MeDemoUnauthenticated"@, 0);
        }
        let authenticated = bool_at(&vals, 0);
        let auth_mode = text_at(&vals, 1);
        Ok(crate::openapi::MeDemoUnauthenticated {
            authenticated,
            auth_mode,
            user: crate::openapi::NullValue,
            login_url: crate::openapi::NullValue,
            logout_url: crate::openapi::NullValue,
        })
    }
}

impl std::str::FromStr for crate::openapi::MeDemoUnauthenticated {
    type Err = String;

    fn from_str(s: &str) -> (r: Result<crate::openapi::MeDemoUnauthenticated, String>)
        ensures
            match form_outcome(s@, "MeDemoUnauthenticated"@, me_demo_unauthenticated_fields()) {
                Some(e) => r matches Err(m) && m@ == e,
                None => r matches Ok(v)
                && form_value(comma_pieces(s@), me_demo_unauthenticated_fields(), 0) == Some(FormValue::Bool(v.authenticated))
                && form_value(comma_pieces(s@), me_demo_unauthenticated_fields(), 1) == Some(FormValue::Text(v.auth_mode@)),
            },
    {
        crate::openapi::MeDemoUnauthenticated::from_form(s)
    }
}

/// The fields of the form of `MeNeoshowcaseAuthenticated`.
pub open spec fn me_neoshowcase_authenticated_fields() -> Seq<FieldSpec> {
    seq![FieldSpec { name: "authenticated", kind: FieldKind::Bool, nested: "" }, FieldSpec { name: "auth_mode", kind: FieldKind::Text, nested: "" }, FieldSpec { name: "user", kind: FieldKind::Nested, nested: "User" }, FieldSpec { name: "login_url", kind: FieldKind::Null, nested: "" }, FieldSpec { name: "logout_url", kind: FieldKind::Text, nested: "" }]
}

/// The fields of the form of `MeNeoshowcaseAuthenticated`.
fn me_neoshowcase_authenticated_table() -> (r: Vec<FieldSpec>)
    ensures
        r@ == me_neoshowcase_authenticated_fields(),
        keys_unique(r@),
{
    let mut v: Vec<FieldSpec> = Vec::new();
    v.push(FieldSpec { name: "authenticated", kind: FieldKind::Bool, nested: "" });
    v.push(FieldSpec { name: "auth_mode", kind: FieldKind::Text, nested: "" });
    v.push(FieldSpec { name: "user", kind: FieldKind::Nested, nested: "User" });
    v.push(FieldSpec { name: "login_url", kind: FieldKind::Null, nested: "" });
    v.push(FieldSpec { name: "logout_url", kind: FieldKind::Text, nested: "" });
    proof {
        reveal_strlit("authenticated");
        reveal_strlit("auth_mode");
        reveal_strlit("user");
        reveal_strlit("login_url");
        reveal_strlit("logout_url");
        assert("authenticated"@.len() != "auth_mode"@.len());
        assert("authenticated"@.len() != "user"@.len());
        assert("authenticated"@.len() != "login_url"@.len());
        assert("authenticated"@.len() != "logout_url"@.len());
        assert("auth_mode"@.len() != "user"@.len());
        assert("auth_mode"@[0] != "login_url"@[0]);
        assert("auth_mode"@.len() != "logout_url"@.len());
        assert("user"@.len() != "login_url"@.len());
        assert("user"@.len() != "logout_url"@.len());
        assert("login_url"@.len() != "logout_url"@.len());
        assert(v@ =~= me_neoshowcase_authenticated_fields());
    }
    v
}

/// Reads a `MeNeoshowcaseAuthenticated` from its query-parameter form. The form cannot carry every
/// field of a `MeNeoshowcaseAuthenticated`, so this always fails, with the error that the reading
/// meets first.
pub fn me_neoshowcase_authenticated_from_form(s: &str) -> (r: Result<crate::openapi::MeNeoshowcaseAuthenticated, String>)
    ensures
        form_outcome(s@, "MeNeoshowcaseAuthenticated"@, me_neoshowcase_authenticated_fields()) is Some,
        r matches Err(m) && Some(m@) == form_outcome(s@, "MeNeoshowcaseAuthenticated"@, me_neoshowcase_authenticated_fields()),
{
    let fields = me_neoshowcase_authenticated_table();
    let vals = read_form(s, "MeNeoshowcaseAuthenticated", &fields)?;
    check_missing(s, &vals, &fields, "MeNeoshowcaseAuthenticated")?;
    proof {
        lemma_nothing_missing(comma_pieces(s@), fields@, "MeNeoshowcaseAuthenticated"@, 0);
        assert(fields@[2].kind != FieldKind::Nullable && form_value(comma_pieces(s@), fields@, 2) is Some);
    }
    Err(String::new())
}

impl std::str::FromStr for crate::openapi::MeNeoshowcaseAuthenticated {
    type Err = String;

    fn from_str(s: &str) -> (r: Result<crate::openapi::MeNeoshowcaseAuthenticated, String>)
        ensures
            form_outcome(s@, "MeNeoshowcaseAuthenticated"@, me_neoshowcase_authenticated_fields()) is Some,
            r matches Err(m) && Some(m@) == form_outcome(s@, "MeNeoshowcaseAuthenticated"@, me_neoshowcase_authenticated_fields()),
    {
        me_neoshowcase_authenticated_from_form(s)
    }
}

/// The fields of the form of `MeNeoshowcaseUnauthenticated`.
pub open spec fn me_neoshowcase_unauthenticated_fields() -> Seq<FieldSpec> {
    seq![FieldSpec { name: "authenticated", kind: FieldKind::Bool, nested: "" }, FieldSpec { name: "auth_mode", kind: FieldKind::Text, nested: "" }, FieldSpec { name: "user", kind: FieldKind::Null, nested: "" }, FieldSpec { name: "login_url", kind: FieldKind::Text, nested: "" }, FieldSpec { name: "logout_url", kind: FieldKind::Null, nested: "" }]
}

/// The fields of the form of `MeNeoshowcaseUnauthenticated`.
fn me_neoshowcase_unauthenticated_table() -> (r: Vec<FieldSpec>)
    ensures
        r@ == me_neoshowcase_unauthenticated_fields(),
        keys_unique(r@),
{
    let mut v: Vec<FieldSpec> = Vec::new();
    v.push(FieldSpec { name: "authenticated", kind: FieldKind::Bool, nested: "" });
    v.push(FieldSpec { name: "auth_mode", kind: FieldKind::Text, nested: "" });
    v.push(FieldSpec { name: "user", kind: FieldKind::Null, nested: "" });
    v.push(FieldSpec { name: "login_url", kind: FieldKind::Text, nested: "" });
    v.push(FieldSpec { name: "logout_url", kind: FieldKind::Null, nested: "" });
    proof {
        reveal_strlit("authenticated");
        reveal_strlit("auth_mode");
        reveal_strlit("user");
        reveal_strlit("login_url");
        reveal_strlit("logout_url");
        assert("authenticated"@.len() != "auth_mode"@.len());
        assert("authenticated"@.len() != "user"@.len());
        assert("authenticated"@.len() != "login_url"@.len());
        assert("authenticated"@.len() != "logout_url"@.len());
        assert("auth_mode"@.len() != "user"@.len());
        assert("auth_mode"@[0] != "login_url"@[0]);
        assert("auth_mode"@.len() != "logout_url"@.len());
        assert("user"@.len() != "login_url"@.len());
        assert("user"@.len() != "logout_url"@.len());
        assert("login_url"@.len() != "logout_url"@.len());
        assert(v@ =~= me_neoshowcase_unauthenticated_fields());
    }
    v
}

impl crate::openapi::MeNeoshowcaseUnauthenticated {
    /// Reads the value from its query-parameter form.
    pub fn from_form(s: &str) -> (r: Result<crate::openapi::MeNeoshowcaseUnauthenticated, String>)
        ensures
            match form_outcome(s@, "MeNeoshowcaseUnauthenticated"@, me_neoshowcase_unauthenticated_fields()) {
                Some(e) => r matches Err(m) && m@ == e,
                None => r matches Ok(v)
                && form_value(comma_pieces(s@), me_neoshowcase_unauthenticated_fields(), 0) == Some(FormValue::Bool(v.authenticated))
                && form_value(comma_pieces(s@), me_neoshowcase_unauthenticated_fields(), 1) == Some(FormValue::Text(v.auth_mode@))
                && form_value(comma_pieces(s@), me_neoshowcase_unauthenticated_fields(), 3) == Some(FormValue::Text(v.login_url@)),
            },
    {
        let fields = me_neoshowcase_unauthenticated_table();
        let vals = read_form(s, "MeNeoshowcaseUnauthenticated", &fields)?;
        check_missing(s, &vals, &fields, "MeNeoshowcaseUnauthenticated")?;
        proof {
            lemma_nothing_missing(comma_pieces(s@), fields@, "MeNeoshowcaseUnauthenticated"@, 0);
        }
        let authenticated = bool_at(&vals, 0);
        let auth_mode = text_at(&vals, 1);
        let login_url = text_at(&vals, 3);
        Ok(crate::openapi::MeNeoshowcaseUnauthenticated {
            authenticated,
            auth_mode,
            user: crate::openapi::NullValue,
            login_url,
            logout_url: crate::openapi::NullValue,
        })
    }
}

impl std::str::FromStr for crate::openapi::MeNeoshowcaseUnauthenticated {
    type Err = String;

    fn from_str(s: &str) -> (r: Result<crate::openapi::MeNeoshowcaseUnauthenticated, String>)
        ensures
            match form_outcome(s@, "MeNeoshowcaseUnauthenticated"@, me_neoshowcase_unauthenticated_fields()) {
                Some(e) => r matches Err(m) && m@ == e,
                None => r matches Ok(v)
                && form_value(comma_pieces(s@), me_neoshowcase_unauthenticated_fields(), 0) == Some(FormValue::Bool(v.authenticated))
                && form_value(comma_pieces(s@), me_neoshowcase_unauthenticated_fields(), 1) == Some(FormValue::Text(v.auth_mode@))
                && form_value(comma_pieces(s@), me_neoshowcase_unauthenticated_fields(), 3) == Some(FormValue::Text(v.login_url@)),
            },
    {
        crate::openapi::MeNeoshowcaseUnauthenticated::from_form(s)
    }
}

/// The fields of the form of `GuestLoginRequest`.
pub open spec fn guest_login_request_fields() -> Seq<FieldSpec> {
    seq![FieldSpec { name: "display_name", kind: FieldKind::Text, nested: "" }]
}

/// The fields of the form of `GuestLoginRequest`.
fn guest_login_request_table() -> (r: Vec<FieldSpec>)
    ensures
        r@ == guest_login_request_fields(),
        keys_unique(r@),
{
    let mut v: Vec<FieldSpec> = Vec::new();
    v.push(FieldSpec { name: "display_name", kind: FieldKind::Text, nested: "" });
    proof {
        reveal_strlit("display_name");
        assert(v@ =~= guest_login_request_fields());
    }
    v
}

impl crate::openapi::GuestLoginRequest {
    /// Reads the value from its query-parameter form.
    pub fn from_form(s: &str) -> (r: Result<crate::openapi::GuestLoginRequest, String>)
        ensures
            match form_outcome(s@, "GuestLoginRequest"@, guest_login_request_fields()) {
                Some(e) => r matches Err(m) && m@ == e,
                None => r matches Ok(v)
                && form_value(comma_pieces(s@), guest_login_request_fields(), 0) == Some(FormValue::Text(v.display_name@)),
            },
    {
        let fields = guest_login_request_table();
        let vals = read_form(s, "GuestLoginRequest", &fields)?;
        check_missing(s, &vals, &fields, "GuestLoginRequest")?;
        proof {
            lemma_nothing_missing(comma_pieces(s@), fields@, "GuestLoginRequest"@, 0);
        }
        let display_name = text_at(&vals, 0);
        Ok(crate::openapi::GuestLoginRequest { display_name })
    }
}

impl std::str::FromStr for crate::openapi::GuestLoginRequest {
    type Err = String;

    fn from_str(s: &str) -> (r: Result<crate::openapi::GuestLoginRequest, String>)
        ensures
            match form_outcome(s@, "GuestLoginRequest"@, guest_login_request_fields()) {
                Some(e) => r matches Err(m) && m@ == e,
                None => r matches Ok(v)
                && form_value(comma_pieces(s@), guest_login_request_fields(), 0) == Some(FormValue::Text(v.display_name@)),
            },
    {
        crate::openapi::GuestLoginRequest::from_form(s)
    }
}

/// The fields of the form of `GuestLoginResponse`.
pub open spec fn guest_login_response_fields() -> Seq<FieldSpec> {
    seq![FieldSpec { name: "authenticated", kind: FieldKind::Bool, nested: "" }, FieldSpec { name: "user", kind: FieldKind::Nested, nested: "User" }]
}

/// The fields of the form of `GuestLoginResponse`.
fn guest_login_response_table() -> (r: Vec<FieldSpec>)
    ensures
        r@ == guest_login_response_fields(),
        keys_unique(r@),
{
    let mut v: Vec<FieldSpec> = Vec::new();
    v.push(FieldSpec { name: "authenticated", kind: FieldKind::Bool, nested: "" });
    v.push(FieldSpec { name: "user", kind: FieldKind::Nested, nested: "User" });
    proof {
        reveal_strlit("authenticated");
        reveal_strlit("user");
        assert("authenticated"@.len() != "user"@.len());
        assert(v@ =~= guest_login_response_fields());
    }
    v
}

/// Reads a `GuestLoginResponse` from its query-parameter form. The form cannot carry every
/// field of a `GuestLoginResponse`, so this always fails, with the error that the reading
/// meets first.
pub fn guest_login_response_from_form(s: &str) -> (r: Result<crate::openapi::GuestLoginResponse, String>)
    ensures
        form_outcome(s@, "GuestLoginResponse"@, guest_login_response_fields()) is Some,
        r matches Err(m) && Some(m@) == form_outcome(s@, "GuestLoginResponse"@, guest_login_response_fields()),
{
    let fields = guest_login_response_table();
    let vals = read_form(s, "GuestLoginResponse", &fields)?;
    check_missing(s, &vals, &fields, "GuestLoginResponse")?;
    proof {
        lemma_nothing_missing(comma_pieces(s@), fields@, "GuestLoginResponse"@, 0);
        assert(fields@[1].kind != FieldKind::Nullable && form_value(comma_pieces(s@), fields@, 1) is Some);
    }
    Err(String::new())
}

impl std::str::FromStr for crate::openapi::GuestLoginResponse {
    type Err = String;

    fn from_str(s: &str) -> (r: Result<crate::openapi::GuestLoginResponse, String>)
        ensures
            form_outcome(s@, "GuestLoginResponse"@, guest_login_response_fields()) is Some,
            r matches Err(m) && Some(m@) == form_outcome(s@, "GuestLoginResponse"@, guest_login_response_fields()),
    {
        guest_login_response_from_form(s)
    }
}

/// The fields of the form of `IncorrectAnswerResponse`.
pub open spec fn incorrect_answer_response_fields() -> Seq<FieldSpec> {
    seq![FieldSpec { name: "correct", kind: FieldKind::Bool, nested: "" }, FieldSpec { name: "answer_attempt_count", kind: FieldKind::I32, nested: "" }, FieldSpec { name: "problem_status", kind: FieldKind::Text, nested: "" }, FieldSpec { name: "run_status", kind: FieldKind::Text, nested: "" }]
}

/// The fields of the form of `IncorrectAnswerResponse`.
fn incorrect_answer_response_table() -> (r: Vec<FieldSpec>)
    ensures
        r@ == incorrect_answer_response_fields(),
        keys_unique(r@),
{
    let mut v: Vec<FieldSpec> = Vec::new();
    v.push(FieldSpec { name: "correct", kind: FieldKind::Bool, nested: "" });
    v.push(FieldSpec { name: "answer_attempt_count", kind: FieldKind::I32, nested: "" });
    v.push(FieldSpec { name: "problem_status", kind: FieldKind::Text, nested: "" });
    v.push(FieldSpec { name: "run_status", kind: FieldKind::Text, nested: "" });
    proof {
        reveal_strlit("correct");
        reveal_strlit("answer_attempt_count");
        reveal_strlit("problem_status");
        reveal_strlit("run_status");
        assert("correct"@.len() != "answer_attempt_count"@.len());
        assert("correct"@.len() != "problem_status"@.len());
        assert("correct"@.len() != "run_status"@.len());
        assert("answer_attempt_count"@.len() != "problem_status"@.len());
        assert("answer_attempt_count"@.len() != "run_status"@.len());
        assert("problem_status"@.len() != "run_status"@.len());
        assert(v@ =~= incorrect_answer_response_fields());
    }
    v
}

impl crate::openapi::IncorrectAnswerResponse {
    /// Reads the value from its query-parameter form.
    pub fn from_form(s: &str) -> (r: Result<crate::openapi::IncorrectAnswerResponse, String>)
        ensures
            match form_outcome(s@, "IncorrectAnswerResponse"@, incorrect_answer_response_fields()) {
                Some(e) => r matches Err(m) && m@ == e,
                None => r matches Ok(v)
                && form_value(comma_pieces(s@), incorrect_answer_response_fields(), 0) == Some(FormValue::Bool(v.correct))
                && form_value(comma_pieces(s@), incorrect_answer_response_fields(), 1) == Some(FormValue::I32(v.answer_attempt_count))
                && form_value(comma_pieces(s@), incorrect_answer_response_fields(), 2) == Some(FormValue::Text(v.problem_status@))
                && form_value(comma_pieces(s@), incorrect_answer_response_fields(), 3) == Some(FormValue::Text(v.run_status@)),
            },
    {
        let fields = incorrect_answer_response_table();
        let vals = read_form(s, "IncorrectAnswerResponse", &fields)?;
        check_missing(s, &vals, &fields, "IncorrectAnswerResponse")?;
        proof {
            lemma_nothing_missing(comma_pieces(s@), fields@, "IncorrectAnswerResponse"@, 0);
        }
        let correct = bool_at(&vals, 0);
        let answer_attempt_count = i32_at(&vals, 1);
        let problem_status = text_at(&vals, 2);
        let run_status = text_at(&vals, 3);
        Ok(crate::openapi::IncorrectAnswerResponse { correct, answer_attempt_count, problem_status, run_status })
    }
}

impl std::str::FromStr for crate::openapi::IncorrectAnswerResponse {
    type Err = String;

    fn from_str(s: &str) -> (r: Result<crate::openapi::IncorrectAnswerResponse, String>)
        ensures
            match form_outcome(s@, "IncorrectAnswerResponse"@, incorrect_answer_response_fields()) {
                Some(e) => r matches Err(m) && m@ == e,
                None => r matches Ok(v)
                && form_value(comma_pieces(s@), incorrect_answer_response_fields(), 0) == Some(FormValue::Bool(v.correct))
                && form_value(comma_pieces(s@), incorrect_answer_response_fields(), 1) == Some(FormValue::I32(v.answer_attempt_count))
                && form_value(comma_pieces(s@), incorrect_answer_response_fields(), 2) == Some(FormValue::Text(v.problem_status@))
                && form_value(comma_pieces(s@), incorrect_answer_response_fields(), 3) == Some(FormValue::Text(v.run_status@)),
            },
    {
        crate::openapi::IncorrectAnswerResponse::from_form(s)
    }
}

/// The fields of the form of `IncorrectQueryResponse`.
pub open spec fn incorrect_query_response_fields() -> Seq<FieldSpec> {
    seq![FieldSpec { name: "query_id", kind: FieldKind::Uuid, nested: "" }, FieldSpec { name: "correct", kind: FieldKind::Bool, nested: "" }, FieldSpec { name: "normalized_operations", kind: FieldKind::Container, nested: "" }, FieldSpec { name: "remaining_pattern_count", kind: FieldKind::I32, nested: "" }, FieldSpec { name: "query_count", kind: FieldKind::U64, nested: "" }, FieldSpec { name: "problem_status", kind: FieldKind::Text, nested: "" }]
}

/// The fields of the form of `IncorrectQueryResponse`.
fn incorrect_query_response_table() -> (r: Vec<FieldSpec>)
    ensures
        r@ == incorrect_query_response_fields(),
        keys_unique(r@),
{
    let mut v: Vec<FieldSpec> = Vec::new();
    v.push(FieldSpec { name: "query_id", kind: FieldKind::Uuid, nested: "" });
    v.push(FieldSpec { name: "correct", kind: FieldKind::Bool, nested: "" });
    v.push(FieldSpec { name: "normalized_operations", kind: FieldKind::Container, nested: "" });
    v.push(FieldSpec { name: "remaining_pattern_count", kind: FieldKind::I32, nested: "" });
    v.push(FieldSpec { name: "query_count", kind: FieldKind::U64, nested: "" });
    v.push(FieldSpec { name: "problem_status", kind: FieldKind::Text, nested: "" });
    proof {
        reveal_strlit("query_id");
        reveal_strlit("correct");
        reveal_strlit("normalized_operations");
        reveal_strlit("remaining_pattern_count");
        reveal_strlit("query_count");
        reveal_strlit("problem_status");
        assert("query_id"@.len() != "correct"@.len());
        assert("query_id"@.len() != "normalized_operations"@.len());
        assert("query_id"@.len() != "remaining_pattern_count"@.len());
        assert("query_id"@.len() != "query_count"@.len());
        assert("query_id"@.len() != "problem_status"@.len());
        assert("correct"@.len() != "normalized_operations"@.len());
        assert("correct"@.len() != "remaining_pattern_count"@.len());
        assert("correct"@.len() != "query_count"@.len());
        assert("correct"@.len() != "problem_status"@.len());
        assert("normalized_operations"@.len() != "remaining_pattern_count"@.len());
        assert("normalized_operations"@.len() != "query_count"@.len());
        assert("normalized_operations"@.len() != "problem_status"@.len());
        assert("remaining_pattern_count"@.len() != "query_count"@.len());
        assert("remaining_pattern_count"@.len() != "problem_status"@.len());
        assert("query_count"@.len() != "problem_status"@.len());
        assert(v@ =~= incorrect_query_response_fields());
    }
    v
}

/// Reads a `IncorrectQueryResponse` from its query-parameter form. The form cannot carry every
/// field of a `IncorrectQueryResponse`, so this always fails, with the error that the reading
/// meets first.
pub fn incorrect_query_response_from_form(s: &str) -> (r: Result<crate::openapi::IncorrectQueryResponse, String>)
    ensures
        form_outcome(s@, "IncorrectQueryResponse"@, incorrect_query_response_fields()) is Some,
        r matches Err(m) && Some(m@) == form_outcome(s@, "IncorrectQueryResponse"@, incorrect_query_response_fields()),
{
    let fields = incorrect_query_response_table();
    let vals = read_form(s, "IncorrectQueryResponse", &fields)?;
    check_missing(s, &vals, &fields, "IncorrectQueryResponse")?;
    proof {
        lemma_nothing_missing(comma_pieces(s@), fields@, "IncorrectQueryResponse"@, 0);
        assert(fields@[2].kind != FieldKind::Nullable && form_value(comma_pieces(s@), fields@, 2) is Some);
    }
    Err(String::new())
}

impl std::str::FromStr for crate::openapi::IncorrectQueryResponse {
    type Err = String;

    fn from_str(s: &str) -> (r: Result<crate::openapi::IncorrectQueryResponse, String>)
        ensures
            form_outcome(s@, "IncorrectQueryResponse"@, incorrect_query_response_fields()) is Some,
            r matches Err(m) && Some(m@) == form_outcome(s@, "IncorrectQueryResponse"@, incorrect_query_response_fields()),
    {
        incorrect_query_response_from_form(s)
    }
}

/// The fields of the form of `Operation`.
pub open spec fn operation_fields() -> Seq<FieldSpec> {
    seq![FieldSpec { name: "control", kind: FieldKind::Text, nested: "" }, FieldSpec { name: "count", kind: FieldKind::I32, nested: "" }]
}

/// The fields of the form of `Operation`.
fn operation_table() -> (r: Vec<FieldSpec>)
    ensures
        r@ == operation_fields(),
        keys_unique(r@),
{
    let mut v: Vec<FieldSpec> = Vec::new();
    v.push(FieldSpec { name: "control", kind: FieldKind::Text, nested: "" });
    v.push(FieldSpec { name: "count", kind: FieldKind::I32, nested: "" });
    proof {
        reveal_strlit("control");
        reveal_strlit("count");
        assert("control"@.len() != "count"@.len());
        assert(v@ =~= operation_fields());
    }
    v
}

impl crate::openapi::Operation {
    /// Reads the value from its query-parameter form.
    pub fn from_form(s: &str) -> (r: Result<crate::openapi::Operation, String>)
        ensures
            match form_outcome(s@, "Operation"@, operation_fields()) {
                Some(e) => r matches Err(m) && m@ == e,
                None => r matches Ok(v)
                && form_value(comma_pieces(s@), operation_fields(), 0) == Some(FormValue::Text(v.control@))
                && form_value(comma_pieces(s@), operation_fields(), 1) == Some(FormValue::I32(v.count)),
            },
    {
        let fields = operation_table();
        let vals = read_form(s, "Operation", &fields)?;
        check_missing(s, &vals, &fields, "Operation")?;
        proof {
            lemma_nothing_missing(comma_pieces(s@), fields@, "Operation"@, 0);
        }
        let control = text_at(&vals, 0);
        let count = i32_at(&vals, 1);
        Ok(crate::openapi::Operation { control, count })
    }
}

impl std::str::FromStr for crate::openapi::Operation {
    type Err = String;

    fn from_str(s: &str) -> (r: Result<crate::openapi::Operation, String>)
        ensures
            match form_outcome(s@, "Operation"@, operation_fields()) {
                Some(e) => r matches Err(m) && m@ == e,
                None => r matches Ok(v)
                && form_value(comma_pieces(s@), operation_fields(), 0) == Some(FormValue::Text(v.control@))
                && form_value(comma_pieces(s@), operation_fields(), 1) == Some(FormValue::I32(v.count)),
            },
    {
        crate::openapi::Operation::from_form(s)
    }
}

/// The fields of the form of `ProblemHintResponse`.
pub open spec fn problem_hint_response_fields() -> Seq<FieldSpec> {
    seq![FieldSpec { name: "level", kind: FieldKind::I32, nested: "" }, FieldSpec { name: "body_markdown", kind: FieldKind::Text, nested: "" }]
}

/// The fields of the form of `ProblemHintResponse`.
fn problem_hint_response_table() -> (r: Vec<FieldSpec>)
    ensures
        r@ == problem_hint_response_fields(),
        keys_unique(r@),
{
    let mut v: Vec<FieldSpec> = Vec::new();
    v.push(FieldSpec { name: "level", kind: FieldKind::I32, nested: "" });
    v.push(FieldSpec { name: "body_markdown", kind: FieldKind::Text, nested: "" });
    proof {
        reveal_strlit("level");
        reveal_strlit("body_markdown");
        assert("level"@.len() != "body_markdown"@.len());
        assert(v@ =~= problem_hint_response_fields());
    }
    v
}

impl crate::openapi::ProblemHintResponse {
    /// Reads the value from its query-parameter form.
    pub fn from_form(s: &str) -> (r: Result<crate::openapi::ProblemHintResponse, String>)
        ensures
            match form_outcome(s@, "ProblemHintResponse"@, problem_hint_response_fields()) {
                Some(e) => r matches Err(m) && m@ == e,
                None => r matches Ok(v)
                && form_value(comma_pieces(s@), problem_hint_response_fields(), 0) == Some(FormValue::I32(v.level))
                && form_value(comma_pieces(s@), problem_hint_response_fields(), 1) == Some(FormValue::Text(v.body_markdown@)),
            },
    {
        let fields = problem_hint_response_table();
        let vals = read_form(s, "ProblemHintResponse", &fields)?;
        check_missing(s, &vals, &fields, "ProblemHintResponse")?;
        proof {
            lemma_nothing_missing(comma_pieces(s@), fields@, "ProblemHintResponse"@, 0);
        }
        let level = i32_at(&vals, 0);
        let body_markdown = text_at(&vals, 1);
        Ok(crate::openapi::ProblemHintResponse { level, body_markdown })
    }
}

impl std::str::FromStr for crate::openapi::ProblemHintResponse {
    type Err = String;

    fn from_str(s: &str) -> (r: Result<crate::openapi::ProblemHintResponse, String>)
        ensures
            match form_outcome(s@, "ProblemHintResponse"@, problem_hint_response_fields()) {
                Some(e) => r matches Err(m) && m@ == e,
                None => r matches Ok(v)
                && form_value(comma_pieces(s@), problem_hint_response_fields(), 0) == Some(FormValue::I32(v.level))
                && form_value(comma_pieces(s@), problem_hint_response_fields(), 1) == Some(FormValue::Text(v.body_markdown@)),
            },
    {
        crate::openapi::ProblemHintResponse::from_form(s)
    }
}

/// The fields of the form of `ProblemInputSchema`.
pub open spec fn problem_input_schema_fields() -> Seq<FieldSpec> {
    seq![FieldSpec { name: "query", kind: FieldKind::Nested, nested: "QueryInputSchema" }, FieldSpec { name: "answer", kind: FieldKind::Nested, nested: "AnswerInputSchema" }]
}

/// The fields of the form of `ProblemInputSchema`.
fn problem_input_schema_table() -> (r: Vec<FieldSpec>)
    ensures
        r@ == problem_input_schema_fields(),
        keys_unique(r@),
{
    let mut v: Vec<FieldSpec> = Vec::new();
    v.push(FieldSpec { name: "query", kind: FieldKind::Nested, nested: "QueryInputSchema" });
    v.push(FieldSpec { name: "answer", kind: FieldKind::Nested, nested: "AnswerInputSchema" });
    proof {
        reveal_strlit("query");
        reveal_strlit("answer");
        assert("query"@.len() != "answer"@.len());
        assert(v@ =~= problem_input_schema_fields());
    }
    v
}

/// Reads a `ProblemInputSchema` from its query-parameter form. The form cannot carry every
/// field of a `ProblemInputSchema`, so this always fails, with the error that the reading
/// meets first.
pub fn problem_input_schema_from_form(s: &str) -> (r: Result<crate::openapi::ProblemInputSchema, String>)
    ensures
        form_outcome(s@, "ProblemInputSchema"@, problem_input_schema_fields()) is Some,
        r matches Err(m) && Some(m@) == form_outcome(s@, "ProblemInputSchema"@, problem_input_schema_fields()),
{
    let fields = problem_input_schema_table();
    let vals = read_form(s, "ProblemInputSchema", &fields)?;
    check_missing(s, &vals, &fields, "ProblemInputSchema")?;
    proof {
        lemma_nothing_missing(comma_pieces(s@), fields@, "ProblemInputSchema"@, 0);
        assert(fields@[0].kind != FieldKind::Nullable && form_value(comma_pieces(s@), fields@, 0) is Some);
    }
    Err(String::new())
}

impl std::str::FromStr for crate::openapi::ProblemInputSchema {
    type Err = String;

    fn from_str(s: &str) -> (r: Result<crate::openapi::ProblemInputSchema, String>)
        ensures
            form_outcome(s@, "ProblemInputSchema"@, problem_input_schema_fields()) is Some,
            r matches Err(m) && Some(m@) == form_outcome(s@, "ProblemInputSchema"@, problem_input_schema_fields()),
    {
        problem_input_schema_from_form(s)
    }
}

/// The fields of the form of `ProblemResponse`.
pub open spec fn problem_response_fields() -> Seq<FieldSpec> {
    seq![FieldSpec { name: "id", kind: FieldKind::Uuid, nested: "" }, FieldSpec { name: "number", kind: FieldKind::I32, nested: "" }, FieldSpec { name: "type", kind: FieldKind::ProblemType, nested: "" }, FieldSpec { name: "title", kind: FieldKind::Text, nested: "" }, FieldSpec { name: "body_markdown", kind: FieldKind::Text, nested: "" }, FieldSpec { name: "submission_type", kind: FieldKind::SubmissionType, nested: "" }, FieldSpec { name: "assets", kind: FieldKind::Container, nested: "" }, FieldSpec { name: "status", kind: FieldKind::ProblemStatus, nested: "" }, FieldSpec { name: "input_schema", kind: FieldKind::Nested, nested: "ProblemInputSchema" }, FieldSpec { name: "hint_count", kind: FieldKind::I32, nested: "" }]
}

/// The fields of the form of `ProblemResponse`.
fn problem_response_table() -> (r: Vec<FieldSpec>)
    ensures
        r@ == problem_response_fields(),
        keys_unique(r@),
{
    let mut v: Vec<FieldSpec> = Vec::new();
    v.push(FieldSpec { name: "id", kind: FieldKind::Uuid, nested: "" });
    v.push(FieldSpec { name: "number", kind: FieldKind::I32, nested: "" });
    v.push(FieldSpec { name: "type", kind: FieldKind::ProblemType, nested: "" });
    v.push(FieldSpec { name: "title", kind: FieldKind::Text, nested: "" });
    v.push(FieldSpec { name: "body_markdown", kind: FieldKind::Text, nested: "" });
    v.push(FieldSpec { name: "submission_type", kind: FieldKind::SubmissionType, nested: "" });
    v.push(FieldSpec { name: "assets", kind: FieldKind::Container, nested: "" });
    v.push(FieldSpec { name: "status", kind: FieldKind::ProblemStatus, nested: "" });
    v.push(FieldSpec { name: "input_schema", kind: FieldKind::Nested, nested: "ProblemInputSchema" });
    v.push(FieldSpec { name: "hint_count", kind: FieldKind::I32, nested: "" });
    proof {
        reveal_strlit("id");
        reveal_strlit("number");
        reveal_strlit("type");
        reveal_strlit("title");
        reveal_strlit("body_markdown");
        reveal_strlit("submission_type");
        reveal_strlit("assets");
        reveal_strlit("status");
        reveal_strlit("input_schema");
        reveal_strlit("hint_count");
        assert("id"@.len() != "number"@.len());
        assert("id"@.len() != "type"@.len());
        assert("id"@.len() != "title"@.len());
        assert("id"@.len() != "body_markdown"@.len());
        assert("id"@.len() != "submission_type"@.len());
        assert("id"@.len() != "assets"@.len());
        assert("id"@.len() != "status"@.len());
        assert("id"@.len() != "input_schema"@.len());
        assert("id"@.len() != "hint_count"@.len());
        assert("number"@.len() != "type"@.len());
        assert("number"@.len() != "title"@.len());
        assert("number"@.len() != "body_markdown"@.len());
        assert("number"@.len() != "submission_type"@.len());
        assert("number"@[0] != "assets"@[0]);
        assert("number"@[0] != "status"@[0]);
        assert("number"@.len() != "input_schema"@.len());
        assert("number"@.len() != "hint_count"@.len());
        assert("type"@.len() != "title"@.len());
        assert("type"@.len() != "body_markdown"@.len());
        assert("type"@.len() != "submission_type"@.len());
        assert("type"@.len() != "assets"@.len());
        assert("type"@.len() != "status"@.len());
        assert("type"@.len() != "input_schema"@.len());
        assert("type"@.len() != "hint_count"@.len());
        assert("title"@.len() != "body_markdown"@.len());
        assert("title"@.len() != "submission_type"@.len());
        assert("title"@.len() != "assets"@.len());
        assert("title"@.len() != "status"@.len());
        assert("title"@.len() != "input_schema"@.len());
        assert("title"@.len() != "hint_count"@.len());
        assert("body_markdown"@.len() != "submission_type"@.len());
        assert("body_markdown"@.len() != "assets"@.len());
        assert("body_markdown"@.len() != "status"@.len());
        assert("body_markdown"@.len() != "input_schema"@.len());
        assert("body_markdown"@.len() != "hint_count"@.len());
        assert("submission_type"@.len() != "assets"@.len());
        assert("submission_type"@.len() != "status"@.len());
        assert("submission_type"@.len() != "input_schema"@.len());
        assert("submission_type"@.len() != "hint_count"@.len());
        assert("assets"@[0] != "status"@[0]);
        assert("assets"@.len() != "input_schema"@.len());
        assert("assets"@.len() != "hint_count"@.len());
        assert("status"@.len() != "input_schema"@.len());
        assert("status"@.len() != "hint_count"@.len());
        assert("input_schema"@.len() != "hint_count"@.len());
        assert(v@ =~= problem_response_fields());
    }
    v
}

/// Reads a `ProblemResponse` from its query-parameter form. The form cannot carry every
/// field of a `ProblemResponse`, so this always fails, with the error that the reading
/// meets first.
pub fn problem_response_from_form(s: &str) -> (r: Result<crate::openapi::ProblemResponse, String>)
    ensures
        form_outcome(s@, "ProblemResponse"@, problem_response_fields()) is Some,
        r matches Err(m) && Some(m@) == form_outcome(s@, "ProblemResponse"@, problem_response_fields()),
{
    let fields = problem_response_table();
    let vals = read_form(s, "ProblemResponse", &fields)?;
    check_missing(s, &vals, &fields, "ProblemResponse")?;
    proof {
        lemma_nothing_missing(comma_pieces(s@), fields@, "ProblemResponse"@, 0);
        assert(fields@[6].kind != FieldKind::Nullable && form_value(comma_pieces(s@), fields@, 6) is Some);
    }
    Err(String::new())
}

impl std::str::FromStr for crate::openapi::ProblemResponse {
    type Err = String;

    fn from_str(s: &str) -> (r: Result<crate::openapi::ProblemResponse, String>)
        ensures
            form_outcome(s@, "ProblemResponse"@, problem_response_fields()) is Some,
            r matches Err(m) && Some(m@) == form_outcome(s@, "ProblemResponse"@, problem_response_fields()),
    {
        problem_response_from_form(s)
    }
}

/// The fields of the form of `Progress`.
pub open spec fn progress_fields() -> Seq<FieldSpec> {
    seq![FieldSpec { name: "status", kind: FieldKind::ProgressStatus, nested: "" }, FieldSpec { name: "cleared_count", kind: FieldKind::U32, nested: "" }, FieldSpec { name: "required_count", kind: FieldKind::U32, nested: "" }]
}

/// The fields of the form of `Progress`.
fn progress_table() -> (r: Vec<FieldSpec>)
    ensures
        r@ == progress_fields(),
        keys_unique(r@),
{
    let mut v: Vec<FieldSpec> = Vec::new();
    v.push(FieldSpec { name: "status", kind: FieldKind::ProgressStatus, nested: "" });
    v.push(FieldSpec { name: "cleared_count", kind: FieldKind::U32, nested: "" });
    v.push(FieldSpec { name: "required_count", kind: FieldKind::U32, nested: "" });
    proof {
        reveal_strlit("status");
        reveal_strlit("cleared_count");
        reveal_strlit("required_count");
        assert("status"@.len() != "cleared_count"@.len());
        assert("status"@.len() != "required_count"@.len());
        assert("cleared_count"@.len() != "required_count"@.len());
        assert(v@ =~= progress_fields());
    }
    v
}

impl crate::openapi::Progress {
    /// Reads the value from its query-parameter form.
    pub fn from_form(s: &str) -> (r: Result<crate::openapi::Progress, String>)
        ensures
            match form_outcome(s@, "Progress"@, progress_fields()) {
                Some(e) => r matches Err(m) && m@ == e,
                None => r matches Ok(v)
                && form_value(comma_pieces(s@), progress_fields(), 0) == Some(FormValue::ProgressStatus(v.status))
                && form_value(comma_pieces(s@), progress_fields(), 1) == Some(FormValue::U32(v.cleared_count))
                && form_value(comma_pieces(s@), progress_fields(), 2) == Some(FormValue::U32(v.required_count)),
            },
    {
        let fields = progress_table();
        let vals = read_form(s, "Progress", &fields)?;
        check_missing(s, &vals, &fields, "Progress")?;
        proof {
            lemma_nothing_missing(comma_pieces(s@), fields@, "Progress"@, 0);
        }
        let status = progress_status_at(&vals, 0);
        let cleared_count = u32_at(&vals, 1);
        let required_count = u32_at(&vals, 2);
        Ok(crate::openapi::Progress { status, cleared_count, required_count })
    }
}

impl std::str::FromStr for crate::openapi::Progress {
    type Err = String;

    fn from_str(s: &str) -> (r: Result<crate::openapi::Progress, String>)
        ensures
            match form_outcome(s@, "Progress"@, progress_fields()) {
                Some(e) => r matches Err(m) && m@ == e,
                None => r matches Ok(v)
                && form_value(comma_pieces(s@), progress_fields(), 0) == Some(FormValue::ProgressStatus(v.status))
                && form_value(comma_pieces(s@), progress_fields(), 1) == Some(FormValue::U32(v.cleared_count))
                && form_value(comma_pieces(s@), progress_fields(), 2) == Some(FormValue::U32(v.required_count)),
            },
    {
        crate::openapi::Progress::from_form(s)
    }
}

/// The fields of the form of `QueryInputSchema`.
pub open spec fn query_input_schema_fields() -> Seq<FieldSpec> {
    seq![FieldSpec { name: "type", kind: FieldKind::Text, nested: "" }, FieldSpec { name: "allowed_controls", kind: FieldKind::Container, nested: "" }, FieldSpec { name: "max_operations", kind: FieldKind::I32, nested: "" }]
}

/// The fields of the form of `QueryInputSchema`.
fn query_input_schema_table() -> (r: Vec<FieldSpec>)
    ensures
        r@ == query_input_schema_fields(),
        keys_unique(r@),
{
    let mut v: Vec<FieldSpec> = Vec::new();
    v.push(FieldSpec { name: "type", kind: FieldKind::Text, nested: "" });
    v.push(FieldSpec { name: "allowed_controls", kind: FieldKind::Container, nested: "" });
    v.push(FieldSpec { name: "max_operations", kind: FieldKind::I32, nested: "" });
    proof {
        reveal_strlit("type");
        reveal_strlit("allowed_controls");
        reveal_strlit("max_operations");
        assert("type"@.len() != "allowed_controls"@.len());
        assert("type"@.len() != "max_operations"@.len());
        assert("allowed_controls"@.len() != "max_operations"@.len());
        assert(v@ =~= query_input_schema_fields());
    }
    v
}

/// Reads a `QueryInputSchema` from its query-parameter form. The form cannot carry every
/// field of a `QueryInputSchema`, so this always fails, with the error that the reading
/// meets first.
pub fn query_input_schema_from_form(s: &str) -> (r: Result<crate::openapi::QueryInputSchema, String>)
    ensures
        form_outcome(s@, "QueryInputSchema"@, query_input_schema_fields()) is Some,
        r matches Err(m) && Some(m@) == form_outcome(s@, "QueryInputSchema"@, query_input_schema_fields()),
{
    let fields = query_input_schema_table();
    let vals = read_form(s, "QueryInputSchema", &fields)?;
    check_missing(s, &vals, &fields, "QueryInputSchema")?;
    proof {
        lemma_nothing_missing(comma_pieces(s@), fields@, "QueryInputSchema"@, 0);
        assert(fields@[1].kind != FieldKind::Nullable && form_value(comma_pieces(s@), fields@, 1) is Some);
    }
    Err(String::new())
}

impl std::str::FromStr for crate::openapi::QueryInputSchema {
    type Err = String;

    fn from_str(s: &str) -> (r: Result<crate::openapi::QueryInputSchema, String>)
        ensures
            form_outcome(s@, "QueryInputSchema"@, query_input_schema_fields()) is Some,
            r matches Err(m) && Some(m@) == form_outcome(s@, "QueryInputSchema"@, query_input_schema_fields()),
    {
        query_input_schema_from_form(s)
    }
}

/// The fields of the form of `QueryRequest`.
pub open spec fn query_request_fields() -> Seq<FieldSpec> {
    seq![FieldSpec { name: "source", kind: FieldKind::Text, nested: "" }, FieldSpec { name: "operations", kind: FieldKind::Container, nested: "" }]
}

/// The fields of the form of `QueryRequest`.
fn query_request_table() -> (r: Vec<FieldSpec>)
    ensures
        r@ == query_request_fields(),
        keys_unique(r@),
{
    let mut v: Vec<FieldSpec> = Vec::new();
    v.push(FieldSpec { name: "source", kind: FieldKind::Text, nested: "" });
    v.push(FieldSpec { name: "operations", kind: FieldKind::Container, nested: "" });
    proof {
        reveal_strlit("source");
        reveal_strlit("operations");
        assert("source"@.len() != "operations"@.len());
        assert(v@ =~= query_request_fields());
    }
    v
}

/// Reads a `QueryRequest` from its query-parameter form. The form cannot carry every
/// field of a `QueryRequest`, so this always fails, with the error that the reading
/// meets first.
pub fn query_request_from_form(s: &str) -> (r: Result<crate::openapi::QueryRequest, String>)
    ensures
        form_outcome(s@, "QueryRequest"@, query_request_fields()) is Some,
        r matches Err(m) && Some(m@) == form_outcome(s@, "QueryRequest"@, query_request_fields()),
{
    let fields = query_request_table();
    let vals = read_form(s, "QueryRequest", &fields)?;
    check_missing(s, &vals, &fields, "QueryRequest")?;
    proof {
        lemma_nothing_missing(comma_pieces(s@), fields@, "QueryRequest"@, 0);
        assert(fields@[1].kind != FieldKind::Nullable && form_value(comma_pieces(s@), fields@, 1) is Some);
    }
    Err(String::new())
}

impl std::str::FromStr for crate::openapi::QueryRequest {
    type Err = String;

    fn from_str(s: &str) -> (r: Result<crate::openapi::QueryRequest, String>)
        ensures
            form_outcome(s@, "QueryRequest"@, query_request_fields()) is Some,
            r matches Err(m) && Some(m@) == form_outcome(s@, "QueryRequest"@, query_request_fields()),
    {
        query_request_from_form(s)
    }
}

/// The fields of the form of `RoomItem`.
pub open spec fn room_item_fields() -> Seq<FieldSpec> {
    seq![FieldSpec { name: "room_id", kind: FieldKind::Uuid, nested: "" }, FieldSpec { name: "number", kind: FieldKind::U32, nested: "" }, FieldSpec { name: "name", kind: FieldKind::Text, nested: "" }, FieldSpec { name: "genre", kind: FieldKind::Text, nested: "" }, FieldSpec { name: "description", kind: FieldKind::Text, nested: "" }, FieldSpec { name: "problem_count", kind: FieldKind::U32, nested: "" }, FieldSpec { name: "progress", kind: FieldKind::Nested, nested: "Progress" }, FieldSpec { name: "best_record", kind: FieldKind::Nullable, nested: "" }]
}

/// The fields of the form of `RoomItem`.
fn room_item_table() -> (r: Vec<FieldSpec>)
    ensures
        r@ == room_item_fields(),
        keys_unique(r@),
{
    let mut v: Vec<FieldSpec> = Vec::new();
    v.push(FieldSpec { name: "room_id", kind: FieldKind::Uuid, nested: "" });
    v.push(FieldSpec { name: "number", kind: FieldKind::U32, nested: "" });
    v.push(FieldSpec { name: "name", kind: FieldKind::Text, nested: "" });
    v.push(FieldSpec { name: "genre", kind: FieldKind::Text, nested: "" });
    v.push(FieldSpec { name: "description", kind: FieldKind::Text, nested: "" });
    v.push(FieldSpec { name: "problem_count", kind: FieldKind::U32, nested: "" });
    v.push(FieldSpec { name: "progress", kind: FieldKind::Nested, nested: "Progress" });
    v.push(FieldSpec { name: "best_record", kind: FieldKind::Nullable, nested: "" });
    proof {
        reveal_strlit("room_id");
        reveal_strlit("number");
        reveal_strlit("name");
        reveal_strlit("genre");
        reveal_strlit("description");
        reveal_strlit("problem_count");
        reveal_strlit("progress");
        reveal_strlit("best_record");
        assert("room_id"@.len() != "number"@.len());
        assert("room_id"@.len() != "name"@.len());
        assert("room_id"@.len() != "genre"@.len());
        assert("room_id"@.len() != "description"@.len());
        assert("room_id"@.len() != "problem_count"@.len());
        assert("room_id"@.len() != "progress"@.len());
        assert("room_id"@.len() != "best_record"@.len());
        assert("number"@.len() != "name"@.len());
        assert("number"@.len() != "genre"@.len());
        assert("number"@.len() != "description"@.len());
        assert("number"@.len() != "problem_count"@.len());
        assert("number"@.len() != "progress"@.len());
        assert("number"@.len() != "best_record"@.len());
        assert("name"@.len() != "genre"@.len());
        assert("name"@.len() != "description"@.len());
        assert("name"@.len() != "problem_count"@.len());
        assert("name"@.len() != "progress"@.len());
        assert("name"@.len() != "best_record"@.len());
        assert("genre"@.len() != "description"@.len());
        assert("genre"@.len() != "problem_count"@.len());
        assert("genre"@.len() != "progress"@.len());
        assert("genre"@.len() != "best_record"@.len());
        assert("description"@.len() != "problem_count"@.len());
        assert("description"@.len() != "progress"@.len());
        assert("description"@[0] != "best_record"@[0]);
        assert("problem_count"@.len() != "progress"@.len());
        assert("problem_count"@.len() != "best_record"@.len());
        assert("progress"@.len() != "best_record"@.len());
        assert(v@ =~= room_item_fields());
    }
    v
}

/// Reads a `RoomItem` from its query-parameter form. The form cannot carry every
/// field of a `RoomItem`, so this always fails, with the error that the reading
/// meets first.
pub fn room_item_from_form(s: &str) -> (r: Result<crate::openapi::RoomItem, String>)
    ensures
        form_outcome(s@, "RoomItem"@, room_item_fields()) is Some,
        r matches Err(m) && Some(m@) == form_outcome(s@, "RoomItem"@, room_item_fields()),
{
    let fields = room_item_table();
    let vals = read_form(s, "RoomItem", &fields)?;
    check_missing(s, &vals, &fields, "RoomItem")?;
    proof {
        lemma_nothing_missing(comma_pieces(s@), fields@, "RoomItem"@, 0);
        assert(fields@[6].kind != FieldKind::Nullable && form_value(comma_pieces(s@), fields@, 6) is Some);
    }
    Err(String::new())
}

impl std::str::FromStr for crate::openapi::RoomItem {
    type Err = String;

    fn from_str(s: &str) -> (r: Result<crate::openapi::RoomItem, String>)
        ensures
            form_outcome(s@, "RoomItem"@, room_item_fields()) is Some,
            r matches Err(m) && Some(m@) == form_outcome(s@, "RoomItem"@, room_item_fields()),
    {
        room_item_from_form(s)
    }
}

/// The fields of the form of `RoomsResponse`.
pub open spec fn rooms_response_fields() -> Seq<FieldSpec> {
    seq![FieldSpec { name: "items", kind: FieldKind::Container, nested: "" }]
}

/// The fields of the form of `RoomsResponse`.
fn rooms_response_table() -> (r: Vec<FieldSpec>)
    ensures
        r@ == rooms_response_fields(),
        keys_unique(r@),
{
    let mut v: Vec<FieldSpec> = Vec::new();
    v.push(FieldSpec { name: "items", kind: FieldKind::Container, nested: "" });
    proof {
        reveal_strlit("items");
        assert(v@ =~= rooms_response_fields());
    }
    v
}

/// Reads a `RoomsResponse` from its query-parameter form. The form cannot carry every
/// field of a `RoomsResponse`, so this always fails, with the error that the reading
/// meets first.
pub fn rooms_response_from_form(s: &str) -> (r: Result<crate::openapi::RoomsResponse, String>)
    ensures
        form_outcome(s@, "RoomsResponse"@, rooms_response_fields()) is Some,
        r matches Err(m) && Some(m@) == form_outcome(s@, "RoomsResponse"@, rooms_response_fields()),
{
    let fields = rooms_response_table();
    let vals = read_form(s, "RoomsResponse", &fields)?;
    check_missing(s, &vals, &fields, "RoomsResponse")?;
    proof {
        lemma_nothing_missing(comma_pieces(s@), fields@, "RoomsResponse"@, 0);
        assert(fields@[0].kind != FieldKind::Nullable && form_value(comma_pieces(s@), fields@, 0) is Some);
    }
    Err(String::new())
}

impl std::str::FromStr for crate::openapi::RoomsResponse {
    type Err = String;

    fn from_str(s: &str) -> (r: Result<crate::openapi::RoomsResponse, String>)
        ensures
            form_outcome(s@, "RoomsResponse"@, rooms_response_fields()) is Some,
            r matches Err(m) && Some(m@) == form_outcome(s@, "RoomsResponse"@, rooms_response_fields()),
    {
        rooms_response_from_form(s)
    }
}

/// The fields of the form of `User`.
pub open spec fn user_fields() -> Seq<FieldSpec> {
    seq![FieldSpec { name: "id", kind: FieldKind::Uuid, nested: "" }, FieldSpec { name: "display_name", kind: FieldKind::Text, nested: "" }]
}

/// The fields of the form of `User`.
fn user_table() -> (r: Vec<FieldSpec>)
    ensures
        r@ == user_fields(),
        keys_unique(r@),
{
    let mut v: Vec<FieldSpec> = Vec::new();
    v.push(FieldSpec { name: "id", kind: FieldKind::Uuid, nested: "" });
    v.push(FieldSpec { name: "display_name", kind: FieldKind::Text, nested: "" });
    proof {
        reveal_strlit("id");
        reveal_strlit("display_name");
        assert("id"@.len() != "display_name"@.len());
        assert(v@ =~= user_fields());
    }
    v
}

impl crate::openapi::User {
    /// Reads the value from its query-parameter form.
    pub fn from_form(s: &str) -> (r: Result<crate::openapi::User, String>)
        ensures
            match form_outcome(s@, "User"@, user_fields()) {
                Some(e) => r matches Err(m) && m@ == e,
                None => r matches Ok(v)
                && form_value(comma_pieces(s@), user_fields(), 0) == Some(FormValue::Uuid(v.id))
                && form_value(comma_pieces(s@), user_fields(), 1) == Some(FormValue::Text(v.display_name@)),
            },
    {
        let fields = user_table();
        let vals = read_form(s, "User", &fields)?;
        check_missing(s, &vals, &fields, "User")?;
        proof {
            lemma_nothing_missing(comma_pieces(s@), fields@, "User"@, 0);
        }
        let id = uuid_at(&vals, 0);
        let display_name = text_at(&vals, 1);
        Ok(crate::openapi::User { id, display_name })
    }
}

impl std::str::FromStr for crate::openapi::User {
    type Err = String;

    fn from_str(s: &str) -> (r: Result<crate::openapi::User, String>)
        ensures
            match form_outcome(s@, "User"@, user_fields()) {
                Some(e) => r matches Err(m) && m@ == e,
                None => r matches Ok(v)
                && form_value(comma_pieces(s@), user_fields(), 0) == Some(FormValue::Uuid(v.id))
                && form_value(comma_pieces(s@), user_fields(), 1) == Some(FormValue::Text(v.display_name@)),
            },
    {
        crate::openapi::User::from_form(s)
    }
}


// ---------------------------------------------------------------------------
// Reading back what was written
// ---------------------------------------------------------------------------

/// The first field from `i` on whose key is that of field `j` is field `j`.
proof fn lemma_position_of_key(fields: Seq<FieldSpec>, i: int, j: int)
    requires
        keys_unique(fields),
        0 <= i <= j < fields.len(),
    ensures
        position_from(fields, fields[j].name@, i) == j,
    decreases j - i,
{
    if i < j {
        assert(fields[i].name@ != fields[j].name@);
        lemma_position_of_key(fields, i + 1, j);
    }
}

/// The pieces give each field's key, in the fields' order, each followed by
/// one text.
pub open spec fn keyed_in_order(ps: Seq<Seq<char>>, fields: Seq<FieldSpec>) -> bool {
    &&& ps.len() == 2 * fields.len()
    &&& forall|i: int| 0 <= i < fields.len() ==> ps[2 * i] == (#[trigger] fields[i]).name@
}

/// The text after each key reads as a value of its field's kind.
pub open spec fn texts_read(ps: Seq<Seq<char>>, fields: Seq<FieldSpec>) -> bool {
    forall|i: int|
        0 <= i < fields.len() ==> value_of(
            (#[trigger] fields[i]).kind,
            fields[i].nested@,
            ps[2 * i + 1],
        ) is Ok
}

/// What the text after the key of field `i` reads as.
pub open spec fn text_value(ps: Seq<Seq<char>>, fields: Seq<FieldSpec>, i: int) -> Option<FormValue> {
    match value_of(fields[i].kind, fields[i].nested@, ps[2 * i + 1]) {
        Ok(v) => Some(v),
        Err(_) => None,
    }
}

/// Pairs `j` and later meet no error.
proof fn lemma_no_form_error(ps: Seq<Seq<char>>, t: Seq<char>, fields: Seq<FieldSpec>, j: int)
    requires
        keys_unique(fields),
        keyed_in_order(ps, fields),
        texts_read(ps, fields),
        0 <= j <= fields.len(),
    ensures
        form_error(ps, t, fields, j) is None,
    decreases fields.len() - j,
{
    if j < fields.len() {
        let f = fields[j];
        lemma_position_of_key(fields, 0, j);
        assert(ps[2 * j] == f.name@);
        lemma_no_form_error(ps, t, fields, j + 1);
    }
}

/// The first pair from `j` on with the key of field `i` is pair `i`.
proof fn lemma_first_pair_of_key(ps: Seq<Seq<char>>, fields: Seq<FieldSpec>, i: int, j: int)
    requires
        keys_unique(fields),
        keyed_in_order(ps, fields),
        0 <= j <= i < fields.len(),
    ensures
        first_pair(ps, fields[i].name@, j) == i,
    decreases i - j,
{
    let fi = fields[i];
    let fj = fields[j];
    if j < i {
        assert(fields[j].name@ != fields[i].name@);
        lemma_first_pair_of_key(ps, fields, i, j + 1);
    }
}

/// No field from `i` on is missing.
proof fn lemma_none_missing(ps: Seq<Seq<char>>, t: Seq<char>, fields: Seq<FieldSpec>, i: int)
    requires
        keys_unique(fields),
        keyed_in_order(ps, fields),
        texts_read(ps, fields),
        0 <= i <= fields.len(),
    ensures
        missing_error(ps, fields, t, i) is None,
    decreases fields.len() - i,
{
    if i < fields.len() {
        let f = fields[i];
        lemma_first_pair_of_key(ps, fields, i, 0);
        lemma_none_missing(ps, t, fields, i + 1);
    }
}

/// Reading pieces that give each field's key, in order, each followed by a
/// text that reads as a value of the field's kind meets no error and gives
/// each field the value of its text.
pub proof fn lemma_read_in_order(ps: Seq<Seq<char>>, t: Seq<char>, fields: Seq<FieldSpec>)
    requires
        keys_unique(fields),
        keyed_in_order(ps, fields),
        texts_read(ps, fields),
    ensures
        form_error(ps, t, fields, 0) is None,
        missing_error(ps, fields, t, 0) is None,
        forall|i: int|
            0 <= i < fields.len() ==> #[trigger] form_value(ps, fields, i) == text_value(ps, fields, i),
{
    lemma_no_form_error(ps, t, fields, 0);
    lemma_none_missing(ps, t, fields, 0);
    assert forall|i: int| 0 <= i < fields.len() implies #[trigger] form_value(ps, fields, i)
        == text_value(ps, fields, i) by {
        lemma_first_pair_of_key(ps, fields, i, 0);
    }
}

/// The digit of `d` is an ASCII digit worth `d`.
proof fn lemma_digit_char(d: nat)
    requires
        d < 10,
    ensures
        is_ascii_digit(digit_char(d)),
        digit_char(d) as int - '0' as int == d,
{
}

/// The decimal text of `n` is ASCII digits that spell `n`.
pub proof fn lemma_decimal_digits(n: nat)
    ensures
        is_digits(decimal(n)),
        digits_value(decimal(n)) == n,
    decreases n,
{
    if n < 10 {
        lemma_digit_char(n);
        let s = decimal(n);
        assert(s.drop_last() =~= Seq::<char>::empty());
        assert(s.last() == digit_char(n));
        assert(digits_value(s.drop_last()) == 0);
    } else {
        lemma_decimal_digits(n / 10);
        lemma_digit_char(n % 10);
        let d = decimal(n / 10);
        let s = decimal(n);
        assert(s.drop_last() =~= d);
        assert(s.last() == digit_char(n % 10));
        assert(digits_value(s) == 10 * (n / 10) + n % 10);
        assert forall|i: int| 0 <= i < s.len() implies is_ascii_digit(#[trigger] s[i]) by {
            if i < d.len() {
                assert(s[i] == d[i]);
            }
        }
    }
}

/// The decimal text of `n` holds no comma and reads back as `n`.
proof fn lemma_decimal_reads(n: nat, signed: bool)
    ensures
        !decimal(n).contains(','),
        integer_text_value(decimal(n), signed) == Some(n as int),
{
    lemma_decimal_digits(n);
    let s = decimal(n);
    assert(!is_ascii_digit(','));
    assert(!is_ascii_digit('+'));
    assert(!is_ascii_digit('-'));
    assert(s[0] != '+' && s[0] != '-');
    if s.contains(',') {
        let k = choose|k: int| 0 <= k < s.len() && s[k] == ',';
        assert(is_ascii_digit(s[k]));
    }
}

/// The signed decimal text of `n` holds no comma and reads back as `n`.
proof fn lemma_signed_decimal_reads(n: int)
    ensures
        !signed_decimal(n).contains(','),
        integer_text_value(signed_decimal(n), true) == Some(n),
{
    if n < 0 {
        let m = (-n) as nat;
        lemma_decimal_reads(m, true);
        lemma_decimal_digits(m);
        let s = signed_decimal(n);
        assert(s.drop_first() =~= decimal(m));
        assert(s[0] == '-');
        assert(is_digits(s.drop_first()));
        assert(-digits_value(s.drop_first()) == n);
        if s.contains(',') {
            let k = choose|k: int| 0 <= k < s.len() && s[k] == ',';
            assert(k > 0);
            assert(decimal(m)[k - 1] == ',');
        }
    } else {
        lemma_decimal_reads(n as nat, true);
    }
}

/// `true` and `false` read back as themselves, and hold no comma.
proof fn lemma_bool_text_reads(b: bool)
    ensures
        !bool_text(b).contains(','),
        bool_value(bool_text(b)) == Some(b),
{
    reveal_strlit("true");
    reveal_strlit("false");
    assert("true"@.len() != "false"@.len());
    if bool_text(b).contains(',') {
        let k = choose|k: int| 0 <= k < bool_text(b).len() && bool_text(b)[k] == ',';
    }
}


/// Reading back the query-parameter form of a `BestRecord` meets no error
/// and gives back each of its fields.
pub proof fn lemma_best_record_round_trip(b: openapi::BestRecord)
    ensures
        form_outcome(b.form_text(), "BestRecord"@, best_record_fields()) is None,
        form_value(comma_pieces(b.form_text()), best_record_fields(), 0) == Some(FormValue::U64(b.elapsed_ms)),
        form_value(comma_pieces(b.form_text()), best_record_fields(), 1) == Some(FormValue::U32(b.rank)),
        form_value(comma_pieces(b.form_text()), best_record_fields(), 2) == Some(FormValue::U64(b.query_count)),
{
    let ps = seq!["elapsed_ms"@, decimal(b.elapsed_ms as nat), "rank"@, decimal(b.rank as nat), "query_count"@, decimal(b.query_count as nat)];
    let fields = best_record_fields();
    reveal_strlit("elapsed_ms");
    reveal_strlit("rank");
    reveal_strlit("query_count");
    lemma_decimal_reads(b.elapsed_ms as nat, false);
    lemma_decimal_reads(b.rank as nat, false);
    lemma_decimal_reads(b.query_count as nat, false);
    assert(!ps[0].contains(',') && !ps[2].contains(',') && !ps[4].contains(','));
    assert forall|i: int| 0 <= i < ps.len() implies !(#[trigger] ps[i]).contains(',') by {}
    lemma_split_joined(ps);
    assert(keys_unique(fields)) by {
        assert("elapsed_ms"@.len() != "rank"@.len());
        assert("elapsed_ms"@.len() != "query_count"@.len());
        assert("rank"@.len() != "query_count"@.len());
    }
    assert(keyed_in_order(ps, fields));
    assert(texts_read(ps, fields));
    lemma_read_in_order(ps, "BestRecord"@, fields);
    assert(text_value(ps, fields, 0) == Some(FormValue::U64(b.elapsed_ms)));
    assert(text_value(ps, fields, 1) == Some(FormValue::U32(b.rank)));
    assert(text_value(ps, fields, 2) == Some(FormValue::U64(b.query_count)));
}

/// Reading back the query-parameter form of a `AnswerInputSchema` meets no error
/// and gives back each of its fields when none of its texts holds a comma.
pub proof fn lemma_answer_input_schema_round_trip(a: openapi::AnswerInputSchema)
    requires
        !a.r_type@.contains(','),
    ensures
        form_outcome(a.form_text(), "AnswerInputSchema"@, answer_input_schema_fields()) is None,
        form_value(comma_pieces(a.form_text()), answer_input_schema_fields(), 0) == Some(FormValue::Text(a.r_type@)),
        form_value(comma_pieces(a.form_text()), answer_input_schema_fields(), 1) == Some(FormValue::I32(a.max_length)),
{
    let ps = seq!["type"@, a.r_type@, "max_length"@, signed_decimal(a.max_length as int)];
    let fields = answer_input_schema_fields();
    reveal_strlit("type");
    reveal_strlit("max_length");
    lemma_signed_decimal_reads(a.max_length as int);
    assert(!ps[0].contains(',') && !ps[2].contains(','));
    assert forall|i: int| 0 <= i < ps.len() implies !(#[trigger] ps[i]).contains(',') by {}
    lemma_split_joined(ps);
    assert(keys_unique(fields)) by {
        assert("type"@.len() != "max_length"@.len());
    }
    assert(keyed_in_order(ps, fields));
    assert(texts_read(ps, fields));
    lemma_read_in_order(ps, "AnswerInputSchema"@, fields);
    assert(text_value(ps, fields, 0) == Some(FormValue::Text(a.r_type@)));
    assert(text_value(ps, fields, 1) == Some(FormValue::I32(a.max_length)));
}

/// Reading back the query-parameter form of a `AnswerRequest` meets no error
/// and gives back each of its fields when none of its texts holds a comma.
pub proof fn lemma_answer_request_round_trip(a: openapi::AnswerRequest)
    requires
        !a.answer@.contains(','),
    ensures
        form_outcome(a.form_text(), "AnswerRequest"@, answer_request_fields()) is None,
        form_value(comma_pieces(a.form_text()), answer_request_fields(), 0) == Some(FormValue::Text(a.answer@)),
{
    let ps = seq!["answer"@, a.answer@];
    let fields = answer_request_fields();
    reveal_strlit("answer");
    assert(!ps[0].contains(','));
    assert forall|i: int| 0 <= i < ps.len() implies !(#[trigger] ps[i]).contains(',') by {}
    lemma_split_joined(ps);
    assert(keyed_in_order(ps, fields));
    assert(texts_read(ps, fields));
    lemma_read_in_order(ps, "AnswerRequest"@, fields);
    assert(text_value(ps, fields, 0) == Some(FormValue::Text(a.answer@)));
}

/// Reading back the query-parameter form of a `Asset` meets no error
/// and gives back each of its fields when none of its texts holds a comma.
pub proof fn lemma_asset_round_trip(a: openapi::Asset)
    requires
        !a.r_type@.contains(','),
        !a.url@.contains(','),
        !a.alt@.contains(','),
    ensures
        form_outcome(a.form_text(), "Asset"@, asset_fields()) is None,
        form_value(comma_pieces(a.form_text()), asset_fields(), 0) == Some(FormValue::Text(a.r_type@)),
        form_value(comma_pieces(a.form_text()), asset_fields(), 1) == Some(FormValue::Text(a.url@)),
        form_value(comma_pieces(a.form_text()), asset_fields(), 2) == Some(FormValue::Text(a.alt@)),
{
    let ps = seq!["type"@, a.r_type@, "url"@, a.url@, "alt"@, a.alt@];
    let fields = asset_fields();
    reveal_strlit("type");
    reveal_strlit("url");
    reveal_strlit("alt");
    assert(!ps[0].contains(',') && !ps[2].contains(',') && !ps[4].contains(','));
    assert forall|i: int| 0 <= i < ps.len() implies !(#[trigger] ps[i]).contains(',') by {}
    lemma_split_joined(ps);
    assert(keys_unique(fields)) by {
        assert("type"@.len() != "url"@.len());
        assert("type"@.len() != "alt"@.len());
        assert("url"@[0] != "alt"@[0]);
    }
    assert(keyed_in_order(ps, fields));
    assert(texts_read(ps, fields));
    lemma_read_in_order(ps, "Asset"@, fields);
    assert(text_value(ps, fields, 0) == Some(FormValue::Text(a.r_type@)));
    assert(text_value(ps, fields, 1) == Some(FormValue::Text(a.url@)));
    assert(text_value(ps, fields, 2) == Some(FormValue::Text(a.alt@)));
}

/// Reading back the query-parameter form of a `GuestLoginRequest` meets no error
/// and gives back each of its fields when none of its texts holds a comma.
pub proof fn lemma_guest_login_request_round_trip(g: openapi::GuestLoginRequest)
    requires
        !g.display_name@.contains(','),
    ensures
        form_outcome(g.form_text(), "GuestLoginRequest"@, guest_login_request_fields()) is None,
        form_value(comma_pieces(g.form_text()), guest_login_request_fields(), 0) == Some(FormValue::Text(g.display_name@)),
{
    let ps = seq!["display_name"@, g.display_name@];
    let fields = guest_login_request_fields();
    reveal_strlit("display_name");
    assert(!ps[0].contains(','));
    assert forall|i: int| 0 <= i < ps.len() implies !(#[trigger] ps[i]).contains(',') by {}
    lemma_split_joined(ps);
    assert(keyed_in_order(ps, fields));
    assert(texts_read(ps, fields));
    lemma_read_in_order(ps, "GuestLoginRequest"@, fields);
    assert(text_value(ps, fields, 0) == Some(FormValue::Text(g.display_name@)));
}

/// Reading back the query-parameter form of a `IncorrectAnswerResponse` meets no error
/// and gives back each of its fields when none of its texts holds a comma.
pub proof fn lemma_incorrect_answer_response_round_trip(a: openapi::IncorrectAnswerResponse)
    requires
        !a.problem_status@.contains(','),
        !a.run_status@.contains(','),
    ensures
        form_outcome(a.form_text(), "IncorrectAnswerResponse"@, incorrect_answer_response_fields()) is None,
        form_value(comma_pieces(a.form_text()), incorrect_answer_response_fields(), 0) == Some(FormValue::Bool(a.correct)),
        form_value(comma_pieces(a.form_text()), incorrect_answer_response_fields(), 1) == Some(FormValue::I32(a.answer_attempt_count)),
        form_value(comma_pieces(a.form_text()), incorrect_answer_response_fields(), 2) == Some(FormValue::Text(a.problem_status@)),
        form_value(comma_pieces(a.form_text()), incorrect_answer_response_fields(), 3) == Some(FormValue::Text(a.run_status@)),
{
    let ps = seq!["correct"@, bool_text(a.correct), "answer_attempt_count"@, signed_decimal(a.answer_attempt_count as int), "problem_status"@, a.problem_status@, "run_status"@, a.run_status@];
    let fields = incorrect_answer_response_fields();
    reveal_strlit("correct");
    reveal_strlit("answer_attempt_count");
    reveal_strlit("problem_status");
    reveal_strlit("run_status");
    lemma_bool_text_reads(a.correct);
    lemma_signed_decimal_reads(a.answer_attempt_count as int);
    assert(!ps[0].contains(',') && !ps[2].contains(',') && !ps[4].contains(',') && !ps[6].contains(','));
    assert forall|i: int| 0 <= i < ps.len() implies !(#[trigger] ps[i]).contains(',') by {}
    lemma_split_joined(ps);
    assert(keys_unique(fields)) by {
        assert("correct"@.len() != "answer_attempt_count"@.len());
        assert("correct"@.len() != "problem_status"@.len());
        assert("correct"@.len() != "run_status"@.len());
        assert("answer_attempt_count"@.len() != "problem_status"@.len());
        assert("answer_attempt_count"@.len() != "run_status"@.len());
        assert("problem_status"@.len() != "run_status"@.len());
    }
    assert(keyed_in_order(ps, fields));
    assert(texts_read(ps, fields));
    lemma_read_in_order(ps, "IncorrectAnswerResponse"@, fields);
    assert(text_value(ps, fields, 0) == Some(FormValue::Bool(a.correct)));
    assert(text_value(ps, fields, 1) == Some(FormValue::I32(a.answer_attempt_count)));
    assert(text_value(ps, fields, 2) == Some(FormValue::Text(a.problem_status@)));
    assert(text_value(ps, fields, 3) == Some(FormValue::Text(a.run_status@)));
}

/// Reading back the query-parameter form of a `Operation` meets no error
/// and gives back each of its fields when none of its texts holds a comma.
pub proof fn lemma_operation_round_trip(o: crate::problem::model::Operation)
    requires
        !o.control@.contains(','),
    ensures
        form_outcome(o.form_text(), "Operation"@, operation_fields()) is None,
        form_value(comma_pieces(o.form_text()), operation_fields(), 0) == Some(FormValue::Text(o.control@)),
        form_value(comma_pieces(o.form_text()), operation_fields(), 1) == Some(FormValue::I32(o.count)),
{
    let ps = seq!["control"@, o.control@, "count"@, signed_decimal(o.count as int)];
    let fields = operation_fields();
    reveal_strlit("control");
    reveal_strlit("count");
    lemma_signed_decimal_reads(o.count as int);
    assert(!ps[0].contains(',') && !ps[2].contains(','));
    assert forall|i: int| 0 <= i < ps.len() implies !(#[trigger] ps[i]).contains(',') by {}
    lemma_split_joined(ps);
    assert(keys_unique(fields)) by {
        assert("control"@.len() != "count"@.len());
    }
    assert(keyed_in_order(ps, fields));
    assert(texts_read(ps, fields));
    lemma_read_in_order(ps, "Operation"@, fields);
    assert(text_value(ps, fields, 0) == Some(FormValue::Text(o.control@)));
    assert(text_value(ps, fields, 1) == Some(FormValue::I32(o.count)));
}

/// Reading back the query-parameter form of a `ProblemHintResponse` meets no error
/// and gives back each of its fields when none of its texts holds a comma.
pub proof fn lemma_problem_hint_response_round_trip(h: openapi::ProblemHintResponse)
    requires
        !h.body_markdown@.contains(','),
    ensures
        form_outcome(h.form_text(), "ProblemHintResponse"@, problem_hint_response_fields()) is None,
        form_value(comma_pieces(h.form_text()), problem_hint_response_fields(), 0) == Some(FormValue::I32(h.level)),
        form_value(comma_pieces(h.form_text()), problem_hint_response_fields(), 1) == Some(FormValue::Text(h.body_markdown@)),
{
    let ps = seq!["level"@, signed_decimal(h.level as int), "body_markdown"@, h.body_markdown@];
    let fields = problem_hint_response_fields();
    reveal_strlit("level");
    reveal_strlit("body_markdown");
    lemma_signed_decimal_reads(h.level as int);
    assert(!ps[0].contains(',') && !ps[2].contains(','));
    assert forall|i: int| 0 <= i < ps.len() implies !(#[trigger] ps[i]).contains(',') by {}
    lemma_split_joined(ps);
    assert(keys_unique(fields)) by {
        assert("level"@.len() != "body_markdown"@.len());
    }
    assert(keyed_in_order(ps, fields));
    assert(texts_read(ps, fields));
    lemma_read_in_order(ps, "ProblemHintResponse"@, fields);
    assert(text_value(ps, fields, 0) == Some(FormValue::I32(h.level)));
    assert(text_value(ps, fields, 1) == Some(FormValue::Text(h.body_markdown@)));
}

} // verus!
