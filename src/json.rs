//! A JSON tree owned by this library, and the two crossings between it and
//! JSON text, which serde_json performs.
use vstd::prelude::*;
use crate::text::same_text;

verus! {

/// A JSON document. Numbers keep the text that serde_json writes for them;
/// object members keep their order.
pub enum JsonValue {
    Null,
    Bool(bool),
    Number(String),
    Str(String),
    Array(Vec<JsonValue>),
    Object(Vec<(String, JsonValue)>),
}

/// The mathematical form of a JSON document.
pub enum Json {
    Null,
    Bool(bool),
    Number(Seq<char>),
    Str(Seq<char>),
    Array(Seq<Json>),
    Object(Seq<(Seq<char>, Json)>),
}

impl JsonValue {
    pub open spec fn view(&self) -> Json
        decreases self,
    {
        match self {
            JsonValue::Null => Json::Null,
            JsonValue::Bool(b) => Json::Bool(*b),
            JsonValue::Number(t) => Json::Number(t@),
            JsonValue::Str(t) => Json::Str(t@),
            JsonValue::Array(a) => Json::Array(
                Seq::new(a@.len(), |i: int| if 0 <= i < a@.len() { a@[i].view() } else { Json::Null }),
            ),
            JsonValue::Object(ms) => Json::Object(
                Seq::new(ms@.len(), |i: int| if 0 <= i < ms@.len() { (ms@[i].0@, ms@[i].1.view()) } else { (Seq::empty(), Json::Null) }),
            ),
        }
    }
}

#[verifier::external_type_specification]
#[verifier::external_body]
pub struct ExSerdeValue(serde_json::Value);

/// The tree that serde_json reads from a text, if the text is JSON.
pub uninterp spec fn parsed_json(text: Seq<char>) -> Option<Json>;

/// The text that serde_json writes for a tree, if every number in it is one
/// that serde_json can read.
pub uninterp spec fn printed_json(v: Json) -> Option<Seq<char>>;

/// Copies serde_json's tree into the library's, node for node.
#[verifier::external_body]
fn from_serde(v: serde_json::Value) -> JsonValue {
    match v {
        serde_json::Value::Null => JsonValue::Null,
        serde_json::Value::Bool(b) => JsonValue::Bool(b),
        serde_json::Value::Number(n) => JsonValue::Number(n.to_string()),
        serde_json::Value::String(s) => JsonValue::Str(s),
        serde_json::Value::Array(a) => JsonValue::Array(a.into_iter().map(from_serde).collect()),
        serde_json::Value::Object(m) => JsonValue::Object(
            m.into_iter().map(|(k, x)| (k, from_serde(x))).collect(),
        ),
    }
}

/// Copies the library's tree into serde_json's, node for node; a number text
/// that serde_json's `Number::from_str` refuses gives `None`.
#[verifier::external_body]
fn to_serde(v: &JsonValue) -> Option<serde_json::Value> {
    Some(match v {
        JsonValue::Null => serde_json::Value::Null,
        JsonValue::Bool(b) => serde_json::Value::Bool(*b),
        JsonValue::Number(t) => serde_json::Value::Number(t.parse().ok()?),
        JsonValue::Str(s) => serde_json::Value::String(s.clone()),
        JsonValue::Array(a) => serde_json::Value::Array(a.iter().map(to_serde).collect::<Option<_>>()?),
        JsonValue::Object(m) => serde_json::Value::Object(
            m.iter().map(|(k, x)| Some((k.clone(), to_serde(x)?))).collect::<Option<_>>()?,
        ),
    })
}

/// Relies on serde_json::from_str into `serde_json::Value`: `None` exactly
/// when serde_json refuses the text.
#[verifier::external_body]
pub(crate) fn parse_json(text: &str) -> (r: Option<JsonValue>)
    ensures
        r matches Some(v) ==> parsed_json(text@) == Some(v@),
        r is None ==> parsed_json(text@) is None,
{
    serde_json::from_str::<serde_json::Value>(text).ok().map(from_serde)
}

/// The message serde_json gives for a text it refuses as JSON; empty for a
/// text it reads.
pub uninterp spec fn json_error_text(text: Seq<char>) -> Seq<char>;

/// Relies on the error of serde_json::from_str into `serde_json::Value` and
/// its `Display`: where and why the text is not JSON.
#[verifier::external_body]
pub(crate) fn json_error(text: &str) -> (r: String)
    ensures
        r@ == json_error_text(text@),
{
    match serde_json::from_str::<serde_json::Value>(text) {
        Ok(_) => String::new(),
        Err(e) => e.to_string(),
    }
}

/// Relies on serde_json::to_string of a `serde_json::Value`, which writes
/// the tree on one line: its compact writer puts no whitespace between
/// tokens, and strings escape line feeds and carriage returns.
#[verifier::external_body]
pub(crate) fn print_json(v: &JsonValue) -> (r: Option<String>)
    ensures
        r matches Some(t) ==> printed_json(v@) == Some(t@),
        r is None ==> printed_json(v@) is None,
        r matches Some(t) ==> crate::text::one_line(t@),
{
    to_serde(v).and_then(|s| serde_json::to_string(&s).ok())
}

/// The value of a decimal digit.
pub open spec fn digit_value(c: char) -> nat {
    (c as nat - '0' as nat) as nat
}

pub open spec fn is_digit(c: char) -> bool {
    '0' <= c && c <= '9'
}

/// The number that a string of decimal digits denotes.
pub open spec fn digits_value(s: Seq<char>) -> nat
    decreases s.len(),
{
    if s.len() == 0 {
        0
    } else {
        digits_value(s.drop_last()) * 10 + digit_value(s.last())
    }
}

/// The digit of a number below ten.
pub open spec fn digit_char(d: nat) -> char {
    ((d + '0' as nat) as u32) as char
}

/// The decimal text of a number, without leading zeros.
pub open spec fn decimal(n: nat) -> Seq<char>
    decreases n,
{
    if n < 10 {
        seq![digit_char(n)]
    } else {
        decimal(n / 10).push(digit_char(n % 10))
    }
}

/// The number that a JSON number text denotes, when it is a whole number
/// that fits in a `u64`.
pub open spec fn number_as_u64(t: Seq<char>) -> Option<u64> {
    if t.len() > 0 && (forall|i: int| 0 <= i < t.len() ==> is_digit(#[trigger] t[i]))
        && digits_value(t) <= u64::MAX {
        Some(digits_value(t) as u64)
    } else {
        None
    }
}

/// The member that an object's member list gives for `key`: the first one.
pub open spec fn member(ms: Seq<(String, JsonValue)>, key: Seq<char>) -> Option<JsonValue>
    decreases ms.len(),
{
    if ms.len() == 0 {
        None
    } else if ms[0].0@ == key {
        Some(ms[0].1)
    } else {
        member(ms.drop_first(), key)
    }
}

/// The member that the mathematical form of an object gives for `key`: the
/// first one.
pub open spec fn member_view(ms: Seq<(Seq<char>, Json)>, key: Seq<char>) -> Option<Json>
    decreases ms.len(),
{
    if ms.len() == 0 {
        None
    } else if ms[0].0 == key {
        Some(ms[0].1)
    } else {
        member_view(ms.drop_first(), key)
    }
}

/// The mathematical form of an object's member list.
pub open spec fn members_view(ms: Seq<(String, JsonValue)>) -> Seq<(Seq<char>, Json)> {
    Seq::new(ms.len(), |i: int| (ms[i].0@, ms[i].1@))
}

/// A lookup in an object agrees with the lookup in its mathematical form.
pub proof fn lemma_member_view(ms: Seq<(String, JsonValue)>, key: Seq<char>)
    ensures
        member_view(members_view(ms), key) == match member(ms, key) {
            Some(x) => Some(x@),
            None => None,
        },
    decreases ms.len(),
{
    if ms.len() > 0 {
        lemma_member_view(ms.drop_first(), key);
        assert(members_view(ms).drop_first() =~= members_view(ms.drop_first()));
    }
}

/// The mathematical form of an object's members with `key` set to `v`.
pub open spec fn with_member_view(ms: Seq<(Seq<char>, Json)>, key: Seq<char>, v: Json) -> Seq<(Seq<char>, Json)>
    decreases ms.len(),
{
    if ms.len() == 0 {
        seq![(key, v)]
    } else if ms[0].0 == key {
        ms.update(0, (ms[0].0, v))
    } else {
        seq![ms[0]] + with_member_view(ms.drop_first(), key, v)
    }
}

/// Setting a member commutes with taking the mathematical form.
pub proof fn lemma_with_member_view(ms: Seq<(String, JsonValue)>, key: String, v: JsonValue)
    ensures
        members_view(with_member(ms, key, v)) == with_member_view(members_view(ms), key@, v@),
    decreases ms.len(),
{
    if ms.len() == 0 {
        assert(members_view(seq![(key, v)]) =~= seq![(key@, v@)]);
    } else if ms[0].0@ == key@ {
        assert(members_view(ms.update(0, (ms[0].0, v))) =~= members_view(ms).update(0, (ms[0].0@, v@)));
    } else {
        lemma_with_member_view(ms.drop_first(), key, v);
        assert(members_view(ms).drop_first() =~= members_view(ms.drop_first()));
        assert(members_view(seq![ms[0]] + with_member(ms.drop_first(), key, v))
            =~= seq![members_view(ms)[0]] + members_view(with_member(ms.drop_first(), key, v)));
    }
}

/// Adds a member at the end of a member list.
pub fn push_member(ms: &mut Vec<(String, JsonValue)>, key: &str, v: JsonValue)
    ensures
        members_view(final(ms)@) == members_view(old(ms)@).push((key@, v@)),
{
    ms.push((key.to_owned(), v));
    assert(members_view(ms@) =~= members_view(old(ms)@).push((key@, v@)));
}

/// An object from its member list.
pub fn object(ms: Vec<(String, JsonValue)>) -> (r: JsonValue)
    ensures
        r@ == Json::Object(members_view(ms@)),
{
    let r = JsonValue::Object(ms);
    proof { lemma_object_view(r); }
    r
}

/// A JSON string.
pub fn json_string(s: &str) -> (r: JsonValue)
    ensures
        r@ == Json::Str(s@),
{
    JsonValue::Str(s.to_owned())
}

/// The mathematical form of an object is the form of its members.
pub proof fn lemma_object_view(v: JsonValue)
    requires
        v is Object,
    ensures
        v@ == Json::Object(members_view(v->Object_0@)),
{
    assert(v@->Object_0 =~= members_view(v->Object_0@));
}

/// The member list with `key` set to `v`: its first member of that name is
/// replaced, or a member is added at the end.
pub open spec fn with_member(ms: Seq<(String, JsonValue)>, key: String, v: JsonValue) -> Seq<(String, JsonValue)>
    decreases ms.len(),
{
    if ms.len() == 0 {
        seq![(key, v)]
    } else if ms[0].0@ == key@ {
        ms.update(0, (ms[0].0, v))
    } else {
        seq![ms[0]] + with_member(ms.drop_first(), key, v)
    }
}

/// Relies on `u64`'s `to_string`: its decimal text.
#[verifier::external_body]
pub(crate) fn u64_text(n: u64) -> (r: String)
    ensures
        r@ == decimal(n as nat),
{
    n.to_string()
}

pub proof fn lemma_digits_value_push(s: Seq<char>, c: char)
    ensures
        digits_value(s.push(c)) == digits_value(s) * 10 + digit_value(c),
{
    assert(s.push(c).drop_last() =~= s);
}

pub proof fn lemma_decimal_digits(n: nat)
    ensures
        decimal(n).len() > 0,
        forall|i: int| 0 <= i < decimal(n).len() ==> is_digit(#[trigger] decimal(n)[i]),
        digits_value(decimal(n)) == n,
    decreases n,
{
    if n < 10 {
        assert(decimal(n) =~= seq![digit_char(n)]);
        lemma_digits_value_push(Seq::empty(), digit_char(n));
        assert(Seq::<char>::empty().push(digit_char(n)) =~= seq![digit_char(n)]);
    } else {
        lemma_decimal_digits(n / 10);
        lemma_digits_value_push(decimal(n / 10), digit_char(n % 10));
        let d = decimal(n);
        assert forall|i: int| 0 <= i < d.len() implies is_digit(#[trigger] d[i]) by {
            if i < d.len() - 1 {
                assert(d[i] == decimal(n / 10)[i]);
            }
        }
    }
}

impl JsonValue {
    /// Reads a JSON text; `None` when it is not JSON.
    pub fn from_text(text: &str) -> (r: Option<JsonValue>)
        ensures
            r matches Some(v) ==> parsed_json(text@) == Some(v@),
            r is None ==> parsed_json(text@) is None,
    {
        parse_json(text)
    }

    /// Writes the value as JSON text on one line; `None` when a number in it
    /// cannot be written.
    pub fn to_text(&self) -> (r: Option<String>)
        ensures
            r matches Some(t) ==> printed_json(self@) == Some(t@),
            r is None ==> printed_json(self@) is None,
    {
        print_json(self)
    }

    /// A copy of this value, node for node.
    pub fn duplicate(&self) -> (r: JsonValue)
        ensures
            r@ == self@,
        decreases self,
    {
        match self {
            JsonValue::Null => JsonValue::Null,
            JsonValue::Bool(b) => JsonValue::Bool(*b),
            JsonValue::Number(t) => JsonValue::Number(t.clone()),
            JsonValue::Str(t) => JsonValue::Str(t.clone()),
            JsonValue::Array(a) => {
                let mut out: Vec<JsonValue> = Vec::new();
                let mut i: usize = 0;
                while i < a.len()
                    invariant
                        0 <= i <= a.len(),
                        out@.len() == i,
                        *self == JsonValue::Array(*a),
                        forall|j: int| 0 <= j < i ==> #[trigger] out@[j]@ == a@[j]@,
                    decreases a.len() - i,
                {
                    proof {
                        vstd::std_specs::vec::axiom_vec_index_decreases(*a, i as int);
                        assert(decreases_to!(*self => (*self)->Array_0));
                    }
                    out.push(a[i].duplicate());
                    i = i + 1;
                }
                let r = JsonValue::Array(out);
                assert(forall|j: int| 0 <= j < a@.len() ==> r@->Array_0[j] == out@[j]@);
                assert(r@->Array_0 =~= self@->Array_0);
                r
            },
            JsonValue::Object(ms) => {
                let mut out: Vec<(String, JsonValue)> = Vec::new();
                let mut i: usize = 0;
                while i < ms.len()
                    invariant
                        0 <= i <= ms.len(),
                        out@.len() == i,
                        *self == JsonValue::Object(*ms),
                        forall|j: int| 0 <= j < i ==> #[trigger] out@[j].0 == ms@[j].0,
                        forall|j: int| 0 <= j < i ==> #[trigger] out@[j].1@ == ms@[j].1@,
                    decreases ms.len() - i,
                {
                    proof {
                        vstd::std_specs::vec::axiom_vec_index_decreases(*ms, i as int);
                        assert(decreases_to!(*self => (*self)->Object_0));
                        assert(decreases_to!(ms[i as int] => ms[i as int].1));
                    }
                    let v = ms[i].1.duplicate();
                    let k = ms[i].0.clone();
                    let ghost prev = out@;
                    out.push((k, v));
                    assert forall|j: int| 0 <= j < i + 1 implies #[trigger] out@[j].1@ == ms@[j].1@ by {
                        if j < i {
                            assert(out@[j] == prev[j]);
                            assert(prev[j].1@ == ms@[j].1@);
                        }
                    }
                    i = i + 1;
                }
                let r = JsonValue::Object(out);
                assert(forall|j: int| 0 <= j < ms@.len() ==> self@->Object_0[j] == (ms@[j].0@, ms@[j].1@));
                assert(forall|j: int| 0 <= j < ms@.len() ==> r@->Object_0[j] == (out@[j].0@, out@[j].1@));
                assert(r@->Object_0 =~= self@->Object_0);
                r
            },
        }
    }

    /// The number `n`, as serde_json writes it.
    pub fn from_u64(n: u64) -> (r: JsonValue)
        ensures
            r matches JsonValue::Number(t) && t@ == decimal(n as nat),
    {
        JsonValue::Number(u64_text(n))
    }

    /// Reads a JSON number as a `u64`: `Some` exactly for a whole number in
    /// range, written in digits.
    pub fn as_u64(&self) -> (r: Option<u64>)
        ensures
            r == (match self {
                JsonValue::Number(t) => number_as_u64(t@),
                _ => None,
            }),
    {
        match self {
            JsonValue::Number(t) => digits_to_u64(t.as_str()),
            _ => None,
        }
    }

    /// The string that this value holds, if it is a string.
    pub fn as_str(&self) -> (r: Option<&str>)
        ensures
            r matches Some(s) ==> (self matches JsonValue::Str(x) && s@ == x@),
            r is None ==> !(self is Str),
    {
        match self {
            JsonValue::Str(s) => Some(s.as_str()),
            _ => None,
        }
    }

    /// The member `key` of an object; `None` for a missing member or a value
    /// that is not an object.
    pub fn get(&self, key: &str) -> (r: Option<&JsonValue>)
        ensures
            match r {
                Some(x) => self matches JsonValue::Object(ms) && member(ms@, key@) == Some(*x),
                None => !(self matches JsonValue::Object(ms) && member(ms@, key@) is Some),
            },
    {
        match self {
            JsonValue::Object(ms) => member_of(ms, key),
            _ => None,
        }
    }
}

/// The first member named `key`.
pub fn member_of<'a>(ms: &'a Vec<(String, JsonValue)>, key: &str) -> (r: Option<&'a JsonValue>)
    ensures
        match r {
            Some(x) => member(ms@, key@) == Some(*x),
            None => member(ms@, key@) is None,
        },
{
    let mut i: usize = 0;
    assert(ms@.subrange(0, ms@.len() as int) =~= ms@);
    while i < ms.len()
        invariant
            0 <= i <= ms.len(),
            member(ms@, key@) == member(ms@.subrange(i as int, ms@.len() as int), key@),
        decreases ms.len() - i,
    {
        let ghost rest = ms@.subrange(i as int, ms@.len() as int);
        if same_text(ms[i].0.as_str(), key) {
            return Some(&ms[i].1);
        }
        assert(rest.drop_first() =~= ms@.subrange(i + 1, ms@.len() as int));
        i = i + 1;
    }
    None
}

/// Sets member `key` of a member list to `v`, as `with_member` says.
pub fn set_member(ms: &mut Vec<(String, JsonValue)>, key: String, v: JsonValue)
    ensures
        final(ms)@ == with_member(old(ms)@, key, v),
{
    let ghost orig = ms@;
    let mut i: usize = 0;
    while i < ms.len()
        invariant
            0 <= i <= ms.len(),
            ms@ == orig,
            orig == old(ms)@,
            forall|j: int| 0 <= j < i ==> ms@[j].0@ != key@,
        decreases ms.len() - i,
    {
        if same_text(ms[i].0.as_str(), key.as_str()) {
            proof { lemma_with_member_at(orig, key, v, i as int); }
            let name = ms[i].0.clone();
            assert(name == orig[i as int].0);
            ms.set(i, (name, v));
            assert(ms@ =~= orig.update(i as int, (orig[i as int].0, v)));
            return;
        }
        i = i + 1;
    }
    proof { lemma_with_member_absent(orig, key, v); }
    ms.push((key, v));
}

proof fn lemma_with_member_at(ms: Seq<(String, JsonValue)>, key: String, v: JsonValue, i: int)
    requires
        0 <= i < ms.len(),
        ms[i].0@ == key@,
        forall|j: int| 0 <= j < i ==> ms[j].0@ != key@,
    ensures
        with_member(ms, key, v) == ms.update(i, (ms[i].0, v)),
    decreases i,
{
    if i > 0 {
        let t = ms.drop_first();
        assert forall|j: int| 0 <= j < i - 1 implies t[j].0@ != key@ by {
            assert(t[j] == ms[j + 1]);
        }
        lemma_with_member_at(t, key, v, i - 1);
        assert(seq![ms[0]] + t.update(i - 1, (t[i - 1].0, v)) =~= ms.update(i, (ms[i].0, v)));
    }
}

proof fn lemma_with_member_absent(ms: Seq<(String, JsonValue)>, key: String, v: JsonValue)
    requires
        forall|j: int| 0 <= j < ms.len() ==> ms[j].0@ != key@,
    ensures
        with_member(ms, key, v) == ms.push((key, v)),
    decreases ms.len(),
{
    if ms.len() > 0 {
        let t = ms.drop_first();
        assert forall|j: int| 0 <= j < t.len() implies t[j].0@ != key@ by {
            assert(t[j] == ms[j + 1]);
        }
        lemma_with_member_absent(t, key, v);
        assert(ms[0].0@ != key@);
        assert(seq![ms[0]] + t.push((key, v)) =~= ms.push((key, v)));
    } else {
        assert(seq![(key, v)] =~= ms.push((key, v)));
    }
}

/// The member list without its first member named `key`.
pub open spec fn without_member(ms: Seq<(String, JsonValue)>, key: Seq<char>) -> Seq<(String, JsonValue)>
    decreases ms.len(),
{
    if ms.len() == 0 {
        ms
    } else if ms[0].0@ == key {
        ms.drop_first()
    } else {
        seq![ms[0]] + without_member(ms.drop_first(), key)
    }
}

/// Taking out one member leaves the others where a lookup finds them.
pub proof fn lemma_member_without(ms: Seq<(String, JsonValue)>, k: Seq<char>, other: Seq<char>)
    requires
        k != other,
    ensures
        member(without_member(ms, k), other) == member(ms, other),
    decreases ms.len(),
{
    if ms.len() > 0 && ms[0].0@ != k {
        lemma_member_without(ms.drop_first(), k, other);
        let w = seq![ms[0]] + without_member(ms.drop_first(), k);
        assert(w.drop_first() =~= without_member(ms.drop_first(), k));
    }
}

proof fn lemma_without_member_at(ms: Seq<(String, JsonValue)>, key: Seq<char>, i: int)
    requires
        0 <= i < ms.len(),
        ms[i].0@ == key,
        forall|j: int| 0 <= j < i ==> ms[j].0@ != key,
    ensures
        without_member(ms, key) == ms.remove(i),
        member(ms, key) == Some(ms[i].1),
    decreases i,
{
    if i > 0 {
        let t = ms.drop_first();
        assert forall|j: int| 0 <= j < i - 1 implies t[j].0@ != key by {
            assert(t[j] == ms[j + 1]);
        }
        lemma_without_member_at(t, key, i - 1);
        assert(seq![ms[0]] + t.remove(i - 1) =~= ms.remove(i));
    } else {
        assert(ms.drop_first() =~= ms.remove(0));
    }
}

proof fn lemma_without_member_absent(ms: Seq<(String, JsonValue)>, key: Seq<char>)
    requires
        forall|j: int| 0 <= j < ms.len() ==> ms[j].0@ != key,
    ensures
        without_member(ms, key) == ms,
        member(ms, key) is None,
    decreases ms.len(),
{
    if ms.len() > 0 {
        let t = ms.drop_first();
        assert forall|j: int| 0 <= j < t.len() implies t[j].0@ != key by {
            assert(t[j] == ms[j + 1]);
        }
        lemma_without_member_absent(t, key);
        assert(ms[0].0@ != key);
        assert(seq![ms[0]] + t =~= ms);
    }
}

/// Takes the first member named `key` out of a member list.
pub fn take_member(ms: &mut Vec<(String, JsonValue)>, key: &str) -> (r: Option<JsonValue>)
    ensures
        r == member(old(ms)@, key@),
        final(ms)@ == without_member(old(ms)@, key@),
{
    let ghost orig = ms@;
    let mut i: usize = 0;
    while i < ms.len()
        invariant
            0 <= i <= ms.len(),
            ms@ == orig,
            orig == old(ms)@,
            forall|j: int| 0 <= j < i ==> ms@[j].0@ != key@,
        decreases ms.len() - i,
    {
        if same_text(ms[i].0.as_str(), key) {
            proof { lemma_without_member_at(orig, key@, i as int); }
            let (_, v) = ms.remove(i);
            return Some(v);
        }
        i = i + 1;
    }
    proof { lemma_without_member_absent(orig, key@); }
    None
}

/// Reads a string of decimal digits as a `u64`, as `number_as_u64` says.
pub fn digits_to_u64(t: &str) -> (r: Option<u64>)
    ensures
        r == number_as_u64(t@),
{
    let n = t.unicode_len();
    if n == 0 {
        return None;
    }
    let mut acc: u64 = 0;
    let mut i: usize = 0;
    while i < n
        invariant
            n == t@.len(),
            0 <= i <= n,
            acc as nat == digits_value(t@.subrange(0, i as int)),
            forall|j: int| 0 <= j < i ==> is_digit(#[trigger] t@[j]),
        decreases n - i,
    {
        let c = t.get_char(i);
        proof {
            lemma_digits_value_push(t@.subrange(0, i as int), c);
            assert(t@.subrange(0, i as int).push(c) =~= t@.subrange(0, i + 1));
        }
        if !('0' <= c && c <= '9') {
            assert(!is_digit(t@[i as int]));
            return None;
        }
        let d = (c as u32 - '0' as u32) as u64;
        if acc > (u64::MAX - d) / 10 {
            proof {
                assert(digits_value(t@.subrange(0, i + 1)) > u64::MAX) by (nonlinear_arith)
                    requires
                        acc > (u64::MAX - d) / 10,
                        digits_value(t@.subrange(0, i + 1)) == acc * 10 + d,
                        d <= 9;
                if forall|j: int| 0 <= j < t@.len() ==> is_digit(#[trigger] t@[j]) {
                    lemma_prefix_value_bound(t@, i as int + 1);
                }
            }
            return None;
        }
        acc = acc * 10 + d;
        i = i + 1;
    }
    assert(t@.subrange(0, n as int) =~= t@);
    Some(acc)
}

/// The value of a digit string is at least the value of any of its prefixes.
proof fn lemma_prefix_value_bound(s: Seq<char>, k: int)
    requires
        0 <= k <= s.len(),
        forall|j: int| 0 <= j < s.len() ==> is_digit(#[trigger] s[j]),
    ensures
        digits_value(s) >= digits_value(s.subrange(0, k)),
    decreases s.len() - k,
{
    if k < s.len() {
        lemma_prefix_value_bound(s, k + 1);
        lemma_digits_value_push(s.subrange(0, k), s[k]);
        assert(s.subrange(0, k).push(s[k]) =~= s.subrange(0, k + 1));
    } else {
        assert(s.subrange(0, k) =~= s);
    }
}

/// A number written by `from_u64` reads back as itself.
pub proof fn lemma_u64_text_round_trip(n: u64)
    ensures
        number_as_u64(decimal(n as nat)) == Some(n),
{
    lemma_decimal_digits(n as nat);
}

} // verus!
