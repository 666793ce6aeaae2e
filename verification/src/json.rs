//! JSON values, built, printed and read by serde_json.
use crate::text::opt_text;
use vstd::prelude::*;

verus! {

/// `serde_json::Value`, a JSON value.
#[verifier::external_type_specification]
#[verifier::external_body]
pub struct ExValue(serde_json::Value);

/// `serde_json::Map`, the fields of a JSON object.
#[verifier::external_type_specification]
#[verifier::external_body]
#[verifier::reject_recursive_types(K)]
#[verifier::reject_recursive_types(V)]
pub struct ExFields<K, V>(serde_json::Map<K, V>);

/// A JSON value by its contents.
pub enum Json {
    Null,
    Flag(bool),
    Int(int),
    /// A number with a fraction or an exponent: the bits of an IEEE-754 binary64
    /// value.
    Real(u64),
    Text(Seq<char>),
    List(Seq<Json>),
    Object(Map<Seq<char>, Json>),
}

/// What a `serde_json::Value` holds.
pub uninterp spec fn json_of(v: serde_json::Value) -> Json;

/// What a `serde_json::Map` holds.
pub uninterp spec fn fields_of(m: serde_json::Map<String, serde_json::Value>) -> Map<
    Seq<char>,
    Json,
>;

/// The text that serde_json prints for a value.
pub uninterp spec fn printed(j: Json) -> Seq<char>;

/// The value that serde_json reads from a text, if it is JSON.
pub uninterp spec fn parsed(t: Seq<char>) -> Option<Json>;

/// The number that a text spells, as serde_json reads it; null, if it spells none.
pub uninterp spec fn number_read(t: Seq<char>) -> Json;

/// The bits of the IEEE-754 binary64 value nearest to an integer.
pub uninterp spec fn nearest(n: int) -> u64;

pub open spec fn opt_json_of(v: Option<serde_json::Value>) -> Option<Json> {
    match v {
        Some(v) => Some(json_of(v)),
        None => None,
    }
}

pub open spec fn opt_json_at(v: Option<&serde_json::Value>) -> Option<Json> {
    match v {
        Some(v) => Some(json_of(*v)),
        None => None,
    }
}

/// A value of modest size: its exponent is far from the largest.
pub open spec fn modest(bits: u64) -> bool {
    bits / 0x10_0000_0000_0000 % 0x800 < 2000
}

/// A value without values in it, and of modest size if it has a fraction.
pub open spec fn is_plain(j: Json) -> bool {
    match j {
        Json::List(_) | Json::Object(_) => false,
        Json::Real(bits) => modest(bits),
        _ => true,
    }
}

pub open spec fn all_plain(m: Map<Seq<char>, Json>) -> bool {
    forall|k: Seq<char>| m.contains_key(k) ==> is_plain(#[trigger] m[k])
}

/// A number written in at most 200 characters without an exponent.
pub open spec fn is_short(t: Seq<char>) -> bool {
    &&& t.len() <= 200
    &&& forall|i: int| 0 <= i < t.len() ==> (#[trigger] t[i]) != 'e' && t[i] != 'E'
}

pub open spec fn opt_short(t: Option<Seq<char>>) -> bool {
    t matches Some(t) ==> is_short(t)
}

/// A number of at most fifteen digits with a decimal point, without an exponent: it is
/// written in at most sixteen characters, all of them digits, points or signs.
pub open spec fn is_fine(t: Seq<char>) -> bool {
    &&& t.len() <= 16
    &&& forall|i: int|
        0 <= i < t.len() ==> '0' <= (#[trigger] t[i]) <= '9' || t[i] == '.' || t[i] == '-'
}

pub open spec fn opt_fine(t: Option<Seq<char>>) -> bool {
    t matches Some(t) ==> is_fine(t)
}

/// A value that a number of so few digits spells.
pub open spec fn is_spelled(bits: u64) -> bool {
    exists|t: Seq<char>| is_fine(t) && #[trigger] number_read(t) == Json::Real(bits)
}

/// The bits of the number that a text spells.
pub open spec fn figure_bits(t: Option<Seq<char>>) -> Option<u64> {
    match t {
        Some(t) => real_in(number_read(t), nearest(whole(number_read(t)))),
        None => None,
    }
}

/// No fields.
pub open spec fn nothing() -> Map<Seq<char>, Json> {
    Map::empty()
}

/// The field of an object, if it has one.
pub open spec fn field(m: Map<Seq<char>, Json>, k: Seq<char>) -> Option<Json> {
    if m.contains_key(k) {
        Some(m[k])
    } else {
        None
    }
}

/// The field of a value, if it is an object that has one.
pub open spec fn member(j: Json, k: Seq<char>) -> Option<Json> {
    match j {
        Json::Object(m) => field(m, k),
        _ => None,
    }
}

pub open spec fn text_in(j: Json) -> Option<Seq<char>> {
    match j {
        Json::Text(t) => Some(t),
        _ => None,
    }
}

pub open spec fn uint_in(j: Json) -> Option<u64> {
    match j {
        Json::Int(n) => if 0 <= n <= u64::MAX {
            Some(n as u64)
        } else {
            None
        },
        _ => None,
    }
}

pub open spec fn flag_in(j: Json) -> Option<bool> {
    match j {
        Json::Flag(b) => Some(b),
        _ => None,
    }
}

/// The bits of a number; `near` are those of the value nearest to an integer.
pub open spec fn real_in(j: Json, near: u64) -> Option<u64> {
    match j {
        Json::Real(bits) => Some(bits),
        Json::Int(_) => Some(near),
        _ => None,
    }
}

/// The integer in a value that is one.
pub open spec fn whole(j: Json) -> int {
    j->Int_0
}

/// The field of what a text was read as.
pub open spec fn member_of(p: Option<Json>, k: Seq<char>) -> Option<Json> {
    match p {
        Some(j) => member(j, k),
        None => None,
    }
}

#[verifier::opaque]
pub open spec fn text_at(p: Option<Json>, k: Seq<char>) -> Option<Seq<char>> {
    match member_of(p, k) {
        Some(j) => text_in(j),
        None => None,
    }
}

#[verifier::opaque]
pub open spec fn uint_at(p: Option<Json>, k: Seq<char>) -> Option<u64> {
    match member_of(p, k) {
        Some(j) => uint_in(j),
        None => None,
    }
}

#[verifier::opaque]
pub open spec fn flag_at(p: Option<Json>, k: Seq<char>) -> Option<bool> {
    match member_of(p, k) {
        Some(j) => flag_in(j),
        None => None,
    }
}

#[verifier::opaque]
pub open spec fn real_at(p: Option<Json>, k: Seq<char>) -> Option<u64> {
    match member_of(p, k) {
        Some(j) => real_in(j, nearest(whole(j))),
        None => None,
    }
}

/// The text of a field in a line of JSON.
pub open spec fn json_text(line: Seq<char>, key: Seq<char>) -> Option<Seq<char>> {
    text_at(parsed(line), key)
}

/// The unsigned integer of a field in a line of JSON.
pub open spec fn json_uint(line: Seq<char>, key: Seq<char>) -> Option<u64> {
    uint_at(parsed(line), key)
}

/// The number of a field in a line of JSON: the bits of an IEEE-754 binary64 value.
pub open spec fn json_real(line: Seq<char>, key: Seq<char>) -> Option<u64> {
    real_at(parsed(line), key)
}

/// The truth value of a field in a line of JSON.
pub open spec fn json_flag(line: Seq<char>, key: Seq<char>) -> Option<bool> {
    flag_at(parsed(line), key)
}

/// Whether what was read holds the fields of an object as they were, but that
/// numbers with a fraction need not be the same unless a few digits spell them.
pub open spec fn comes_as(p: Option<Json>, m: Map<Seq<char>, Json>) -> bool {
    match p {
        Some(Json::Object(n)) => {
            &&& n.dom() == m.dom()
            &&& forall|k: Seq<char>| #[trigger]
                m.contains_key(k) ==> n[k] == m[k] || (n[k] is Real && m[k] is Real
                    && !is_spelled(m[k]->Real_0))
        },
        _ => false,
    }
}

/// Whether a line of JSON reads back as the object with these fields: text, unsigned
/// integers and truth values as they are, and nothing of these in the place of
/// anything else.
pub open spec fn reads_back(l: Seq<char>, m: Map<Seq<char>, Json>) -> bool {
    &&& forall|k: Seq<char>| #[trigger]
        json_text(l, k) == match field(m, k) {
            Some(j) => text_in(j),
            None => None,
        }
    &&& forall|k: Seq<char>| #[trigger]
        json_uint(l, k) == match field(m, k) {
            Some(j) => uint_in(j),
            None => None,
        }
    &&& forall|k: Seq<char>| #[trigger]
        json_flag(l, k) == match field(m, k) {
            Some(j) => flag_in(j),
            None => None,
        }
}

pub(crate) proof fn lemma_reads_back(l: Seq<char>, m: Map<Seq<char>, Json>)
    requires
        comes_as(parsed(l), m),
    ensures
        reads_back(l, m),
{
    reveal(text_at);
    reveal(uint_at);
    reveal(flag_at);
    let n = parsed(l)->Some_0->Object_0;
    assert forall|k: Seq<char>| #[trigger] n.contains_key(k) == m.contains_key(k) by {
        assert(n.dom().contains(k) == m.dom().contains(k));
    }
    assert forall|k: Seq<char>| #[trigger] json_text(l, k) == (match field(m, k) {
        Some(j) => text_in(j),
        None => None,
    }) by {
        assert(m.contains_key(k) == n.contains_key(k));
    }
    assert forall|k: Seq<char>| #[trigger] json_uint(l, k) == (match field(m, k) {
        Some(j) => uint_in(j),
        None => None,
    }) by {
        assert(m.contains_key(k) == n.contains_key(k));
    }
    assert forall|k: Seq<char>| #[trigger] json_flag(l, k) == (match field(m, k) {
        Some(j) => flag_in(j),
        None => None,
    }) by {
        assert(m.contains_key(k) == n.contains_key(k));
    }
}

/// A figure of few digits is read back from a line as the number that it spells.
pub(crate) proof fn lemma_figure_back(
    l: Seq<char>,
    m: Map<Seq<char>, Json>,
    k: Seq<char>,
    t: Option<Seq<char>>,
)
    requires
        comes_as(parsed(l), m),
        field(m, k) == Some(number_json(t)),
        opt_fine(t),
    ensures
        json_real(l, k) == figure_bits(t),
{
    reveal(real_at);
    let n = parsed(l)->Some_0->Object_0;
    assert(n.dom().contains(k) == m.dom().contains(k));
    assert(m.contains_key(k));
    if let Some(t) = t {
        if m[k] is Real {
            let bits = m[k]->Real_0;
            assert(is_fine(t) && number_read(t) == Json::Real(bits));
            assert(is_spelled(bits));
        }
    }
}

/// One line with nothing around the object.
pub open spec fn is_one_line(l: Seq<char>) -> bool {
    &&& l.len() >= 2
    &&& l[0] == '{'
    &&& l.last() == '}'
    &&& forall|i: int| 0 <= i < l.len() ==> (#[trigger] l[i]) as int >= 0x20
}

/// Calls `Value::from` for the unit value, which makes null.
#[verifier::external_body]
pub(crate) fn null() -> (r: serde_json::Value)
    ensures
        json_of(r) == Json::Null,
{
    serde_json::Value::from(())
}

/// Calls `Value::from` for a truth value.
#[verifier::external_body]
pub(crate) fn flag(b: bool) -> (r: serde_json::Value)
    ensures
        json_of(r) == Json::Flag(b),
{
    serde_json::Value::from(b)
}

/// Calls `Value::from` for an unsigned integer.
#[verifier::external_body]
pub(crate) fn uint(n: u64) -> (r: serde_json::Value)
    ensures
        json_of(r) == Json::Int(n as int),
{
    serde_json::Value::from(n)
}

/// Calls `Value::from` for a signed integer.
#[verifier::external_body]
pub(crate) fn int_of(n: i32) -> (r: serde_json::Value)
    ensures
        json_of(r) == Json::Int(n as int),
{
    serde_json::Value::from(n)
}

/// Calls `Value::from` for a text.
#[verifier::external_body]
pub(crate) fn text(t: &str) -> (r: serde_json::Value)
    ensures
        json_of(r) == Json::Text(t@),
{
    serde_json::Value::from(t)
}

/// Calls `serde_json::from_str` for a `serde_json::Number`. Claimed of it: the
/// result depends on the text alone, and is a number or, where the text spells
/// none, null; and the number that a short text without an exponent spells is of
/// modest size.
#[verifier::external_body]
pub(crate) fn number(t: &str) -> (r: serde_json::Value)
    ensures
        json_of(r) == number_read(t@),
        json_of(r) is Null || json_of(r) is Int || json_of(r) is Real,
        is_short(t@) ==> is_plain(json_of(r)),
{
    match serde_json::from_str::<serde_json::Number>(t) {
        Ok(n) => serde_json::Value::Number(n),
        Err(_) => serde_json::Value::Null,
    }
}

/// Makes a `Value::Array`.
#[verifier::external_body]
pub(crate) fn list(v: Vec<serde_json::Value>) -> (r: serde_json::Value)
    ensures
        json_of(r) == Json::List(v@.map_values(|x: serde_json::Value| json_of(x))),
{
    serde_json::Value::Array(v)
}

/// Calls `serde_json::Map::new`, which makes a map without fields.
#[verifier::external_body]
pub(crate) fn no_fields() -> (r: serde_json::Map<String, serde_json::Value>)
    ensures
        fields_of(r) == nothing(),
{
    serde_json::Map::new()
}

/// Calls `serde_json::Map::insert`, which sets a field, whether it was there or
/// not.
#[verifier::external_body]
pub(crate) fn put(m: &mut serde_json::Map<String, serde_json::Value>, k: &str, v: serde_json::Value)
    ensures
        fields_of(*final(m)) == fields_of(*old(m)).insert(k@, json_of(v)),
{
    m.insert(k.to_string(), v);
}

/// Makes a `Value::Object`.
#[verifier::external_body]
pub(crate) fn object(m: serde_json::Map<String, serde_json::Value>) -> (r: serde_json::Value)
    ensures
        json_of(r) == Json::Object(fields_of(m)),
{
    serde_json::Value::Object(m)
}

/// Calls `to_string` of a `Value`, which prints it in one line. Claimed of it: the
/// text depends on the value alone; an object is printed between braces without
/// control characters, which are escaped; and an object of plain values is read
/// back by `serde_json::from_str` with the same fields. Numbers with a fraction are
/// read back as such. One that a text of at most fifteen digits spells comes back as it
/// is: it is printed in these digits again, the shortest that stand for it, and reading
/// them divides two integers that binary64 holds exactly. Of others it is not claimed
/// which ones come back, since reading does not round to the nearest, and the largest
/// are read as out of range.
#[verifier::external_body]
pub(crate) fn print(v: &serde_json::Value) -> (r: String)
    ensures
        r@ == printed(json_of(*v)),
        json_of(*v) is Object ==> is_one_line(r@),
        json_of(*v) matches Json::Object(m) ==> all_plain(m) ==> comes_as(parsed(r@), m),
{
    v.to_string()
}

/// Calls `serde_json::from_str` for a `Value`. Claimed of it: the result depends on
/// the text alone.
#[verifier::external_body]
pub(crate) fn parse(t: &str) -> (r: Option<serde_json::Value>)
    ensures
        opt_json_of(r) == parsed(t@),
{
    serde_json::from_str::<serde_json::Value>(t).ok()
}

/// Calls `Value::get`, which finds a field of an object, and nothing in another
/// value.
#[verifier::external_body]
fn get<'a>(v: &'a serde_json::Value, k: &str) -> (r: Option<&'a serde_json::Value>)
    ensures
        opt_json_at(r) == member(json_of(*v), k@),
{
    v.get(k)
}

/// Calls `Value::as_str`, which gives the text of a text.
#[verifier::external_body]
fn as_text(v: &serde_json::Value) -> (r: Option<String>)
    ensures
        opt_text(r) == text_in(json_of(*v)),
{
    v.as_str().map(String::from)
}

/// Calls `Value::as_u64`, which gives an integer that is not negative.
#[verifier::external_body]
fn as_uint(v: &serde_json::Value) -> (r: Option<u64>)
    ensures
        r == uint_in(json_of(*v)),
{
    v.as_u64()
}

/// Calls `Value::as_bool`, which gives a truth value.
#[verifier::external_body]
fn as_flag(v: &serde_json::Value) -> (r: Option<bool>)
    ensures
        r == flag_in(json_of(*v)),
{
    v.as_bool()
}

/// Calls `Value::as_f64`, which gives a number, and takes its bits. Claimed of it: a
/// number with a fraction is given as it is, and for an integer what is given
/// depends on the integer alone.
#[verifier::external_body]
fn as_real(v: &serde_json::Value) -> (r: Option<u64>)
    ensures
        r == real_in(json_of(*v), nearest(whole(json_of(*v)))),
{
    Some(v.as_f64()?.to_bits())
}

/// The text of a field.
pub(crate) fn text_field(v: &Option<serde_json::Value>, k: &str) -> (r: Option<String>)
    ensures
        opt_text(r) == text_at(opt_json_of(*v), k@),
{
    reveal(text_at);
    match v {
        Some(v) => match get(v, k) {
            Some(x) => as_text(x),
            None => None,
        },
        None => None,
    }
}

/// The unsigned integer of a field.
pub(crate) fn uint_field(v: &Option<serde_json::Value>, k: &str) -> (r: Option<u64>)
    ensures
        r == uint_at(opt_json_of(*v), k@),
{
    reveal(uint_at);
    match v {
        Some(v) => match get(v, k) {
            Some(x) => as_uint(x),
            None => None,
        },
        None => None,
    }
}

/// The number of a field, by its bits.
pub(crate) fn real_field(v: &Option<serde_json::Value>, k: &str) -> (r: Option<u64>)
    ensures
        r == real_at(opt_json_of(*v), k@),
{
    reveal(real_at);
    match v {
        Some(v) => match get(v, k) {
            Some(x) => as_real(x),
            None => None,
        },
        None => None,
    }
}

/// The truth value of a field.
pub(crate) fn flag_field(v: &Option<serde_json::Value>, k: &str) -> (r: Option<bool>)
    ensures
        r == flag_at(opt_json_of(*v), k@),
{
    reveal(flag_at);
    match v {
        Some(v) => match get(v, k) {
            Some(x) => as_flag(x),
            None => None,
        },
        None => None,
    }
}

pub open spec fn opt_json(t: Option<Seq<char>>) -> Json {
    match t {
        Some(t) => Json::Text(t),
        None => Json::Null,
    }
}

/// A text, or null.
pub(crate) fn text_or_null(t: &Option<String>) -> (r: serde_json::Value)
    ensures
        json_of(r) == opt_json(opt_text(*t)),
{
    match t {
        Some(t) => text(t.as_str()),
        None => null(),
    }
}

pub open spec fn uint_json(n: Option<u64>) -> Json {
    match n {
        Some(n) => Json::Int(n as int),
        None => Json::Null,
    }
}

/// An unsigned integer, or null.
pub(crate) fn uint_or_null(n: Option<u64>) -> (r: serde_json::Value)
    ensures
        json_of(r) == uint_json(n),
{
    match n {
        Some(n) => uint(n),
        None => null(),
    }
}

pub open spec fn small_json(n: Option<u32>) -> Json {
    match n {
        Some(n) => Json::Int(n as int),
        None => Json::Null,
    }
}

pub(crate) fn small_or_null(n: Option<u32>) -> (r: serde_json::Value)
    ensures
        json_of(r) == small_json(n),
{
    match n {
        Some(n) => uint(n as u64),
        None => null(),
    }
}

pub open spec fn number_json(t: Option<Seq<char>>) -> Json {
    match t {
        Some(t) => number_read(t),
        None => Json::Null,
    }
}

/// The number that a text spells, or null.
pub(crate) fn number_or_null(t: &Option<String>) -> (r: serde_json::Value)
    ensures
        json_of(r) == number_json(opt_text(*t)),
        opt_short(opt_text(*t)) ==> is_plain(json_of(r)),
        !(json_of(r) is Text) && !(json_of(r) is Flag),
{
    match t {
        Some(t) => number(t.as_str()),
        None => null(),
    }
}

} // verus!
