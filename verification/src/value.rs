//! JSON values, the payload of a frame.
use crate::table::Fields;
use vstd::prelude::*;
use vstd::std_specs::cmp::PartialEqSpecImpl;

verus! {

/// A JSON number.
///
/// An integer that is not negative is a `PosInt`, a negative one a `NegInt`.
/// Any other number is held by the bits of its binary64 representation, and is
/// finite. The two zeros among these are equal; other numbers are equal if they
/// are held alike.
#[derive(Clone, Copy, Debug, Eq)]
pub enum Number {
    PosInt(u64),
    NegInt(i64),
    Float(u64),
}

/// A JSON value.
///
/// Two objects are equal if they hold equal values under the same names, in
/// whatever order. Of two members under one name, the later counts.
#[derive(Debug, Eq)]
pub enum Value {
    Null,
    Bool(bool),
    Number(Number),
    String(String),
    Array(Vec<Value>),
    Object(Vec<(String, Value)>),
}

/// What a [`Value`] holds.
pub enum Json {
    Null,
    Bool(bool),
    Number(Number),
    String(Seq<char>),
    Array(Seq<Json>),
    Object(Seq<(Seq<char>, Json)>),
}

/// What the items of an array hold.
pub open spec fn items_view(items: Seq<Value>) -> Seq<Json>
    decreases items,
{
    Seq::new(
        items.len(),
        |i: int|
            if 0 <= i < items.len() {
                value_view(items[i])
            } else {
                Json::Null
            },
    )
}

/// What the members of an object hold.
pub open spec fn members_view(members: Seq<(String, Value)>) -> Seq<(Seq<char>, Json)>
    decreases members,
{
    Seq::new(
        members.len(),
        |i: int|
            if 0 <= i < members.len() {
                (members[i].0@, value_view(members[i].1))
            } else {
                (seq![], Json::Null)
            },
    )
}

/// What a value holds.
pub open spec fn value_view(value: Value) -> Json
    decreases value,
{
    match value {
        Value::Null => Json::Null,
        Value::Bool(b) => Json::Bool(b),
        Value::Number(n) => Json::Number(n),
        Value::String(s) => Json::String(s@),
        Value::Array(items) => Json::Array(items_view(items@)),
        Value::Object(members) => Json::Object(members_view(members@)),
    }
}

impl View for Value {
    type V = Json;

    open spec fn view(&self) -> Json {
        value_view(*self)
    }
}

impl Clone for Value {
    /// A value that holds the same.
    fn clone(&self) -> (copy: Self)
        ensures
            copy@ == self@,
        decreases self,
    {
        match self {
            Value::Null => Value::Null,
            Value::Bool(b) => Value::Bool(*b),
            Value::Number(n) => Value::Number(*n),
            Value::String(s) => Value::String(s.clone()),
            Value::Array(items) => {
                let mut copies: Vec<Value> = Vec::new();
                let mut i: usize = 0;
                while i < items.len()
                    invariant
                        i == copies@.len(),
                        i <= items@.len(),
                        decreases_to!(self => items),
                        forall|j: int| 0 <= j < i ==> (#[trigger] copies@[j])@ == items@[j]@,
                    decreases items@.len() - i,
                {
                    let copy = items[i].clone();
                    copies.push(copy);
                    i += 1;
                }
                assert(items_view(copies@) =~= items_view(items@));
                Value::Array(copies)
            },
            Value::Object(members) => {
                let mut copies: Vec<(String, Value)> = Vec::new();
                let mut i: usize = 0;
                while i < members.len()
                    invariant
                        i == copies@.len(),
                        i <= members@.len(),
                        decreases_to!(self => members),
                        forall|j: int|
                            0 <= j < i ==> (#[trigger] copies@[j]).0@ == members@[j].0@
                                && copies@[j].1@ == members@[j].1@,
                    decreases members@.len() - i,
                {
                    let copy = (members[i].0.clone(), members[i].1.clone());
                    copies.push(copy);
                    i += 1;
                }
                assert(members_view(copies@) =~= members_view(members@));
                Value::Object(copies)
            },
        }
    }
}

// ---- Equality ----

/// What a JSON value means: the order of the members of an object, and the sign
/// of a zero, do not matter.
pub enum Meaning {
    Null,
    Bool(bool),
    Number(Number),
    String(Seq<char>),
    Array(Seq<Meaning>),
    Object(Map<Seq<char>, Meaning>),
}

/// The bits of the negative zero.
pub const NEGATIVE_ZERO: u64 = 0x8000_0000_0000_0000;

/// What a number means.
pub open spec fn number_meaning(number: Number) -> Number {
    if number == Number::Float(NEGATIVE_ZERO) {
        Number::Float(0)
    } else {
        number
    }
}

/// What the items of an array mean.
pub open spec fn items_meaning(items: Seq<Json>) -> Seq<Meaning>
    decreases items,
{
    Seq::new(
        items.len(),
        |i: int|
            if 0 <= i < items.len() {
                meaning(items[i])
            } else {
                Meaning::Null
            },
    )
}

/// What the members of an object mean, by name; of two under one name, the later.
pub open spec fn members_meaning(members: Seq<(Seq<char>, Json)>) -> Map<Seq<char>, Meaning>
    decreases members,
{
    if members.len() == 0 {
        Map::empty()
    } else {
        members_meaning(members.subrange(0, members.len() - 1)).insert(
            members[members.len() - 1].0,
            meaning(members[members.len() - 1].1),
        )
    }
}

/// What a value means.
pub open spec fn meaning(value: Json) -> Meaning
    decreases value,
{
    match value {
        Json::Null => Meaning::Null,
        Json::Bool(b) => Meaning::Bool(b),
        Json::Number(n) => Meaning::Number(number_meaning(n)),
        Json::String(s) => Meaning::String(s),
        Json::Array(items) => Meaning::Array(items_meaning(items)),
        Json::Object(members) => Meaning::Object(members_meaning(members)),
    }
}

/// The names of the members, and for each the value of its last member, are what
/// an object means.
proof fn lemma_members_meaning(members: Seq<(Seq<char>, Json)>, i: int)
    requires
        0 <= i < members.len(),
    ensures
        members_meaning(members).contains_key(members[i].0),
        (forall|k: int| i < k < members.len() ==> (#[trigger] members[k]).0 != members[i].0)
            ==> members_meaning(members)[members[i].0] == meaning(members[i].1),
    decreases members.len(),
{
    if i < members.len() - 1 {
        let front = members.subrange(0, members.len() - 1);
        lemma_members_meaning(front, i);
        if forall|k: int| i < k < members.len() ==> (#[trigger] members[k]).0 != members[i].0 {
            assert(forall|k: int|
                i < k < front.len() ==> (#[trigger] front[k]) == members[k] && members[k].0
                    != members[i].0);
            assert(members[members.len() - 1].0 != members[i].0);
        }
    }
}

/// Every name of what an object means is that of a member.
proof fn lemma_meaning_in_members(members: Seq<(Seq<char>, Json)>, name: Seq<char>)
    requires
        members_meaning(members).contains_key(name),
    ensures
        exists|i: int| 0 <= i < members.len() && (#[trigger] members[i]).0 == name,
    decreases members.len(),
{
    if members[members.len() - 1].0 != name {
        let front = members.subrange(0, members.len() - 1);
        lemma_meaning_in_members(front, name);
        let i = choose|i: int| 0 <= i < front.len() && (#[trigger] front[i]).0 == name;
        assert(members[i].0 == name);
    }
}

impl Number {
    /// Whether two numbers are equal.
    fn same(&self, other: &Number) -> (same: bool)
        ensures
            same == (number_meaning(*self) == number_meaning(*other)),
    {
        match (self, other) {
            (Number::PosInt(a), Number::PosInt(b)) => *a == *b,
            (Number::NegInt(a), Number::NegInt(b)) => *a == *b,
            (Number::Float(a), Number::Float(b)) => {
                let a_zero = *a == 0 || *a == NEGATIVE_ZERO;
                let b_zero = *b == 0 || *b == NEGATIVE_ZERO;
                *a == *b || (a_zero && b_zero)
            },
            _ => false,
        }
    }
}

impl PartialEq for Number {
    fn eq(&self, other: &Number) -> (equal: bool) {
        self.same(other)
    }
}

impl PartialEqSpecImpl for Number {
    open spec fn obeys_eq_spec() -> bool {
        true
    }

    open spec fn eq_spec(&self, other: &Number) -> bool {
        number_meaning(*self) == number_meaning(*other)
    }
}

/// The last member under `name`.
fn last_under(members: &Vec<(String, Value)>, name: &str) -> (index: Option<usize>)
    ensures
        match index {
            Some(i) => {
                &&& i < members@.len()
                &&& members@[i as int].0@ == name@
                &&& forall|k: int| i < k < members@.len() ==> (#[trigger] members@[k]).0@ != name@
            },
            None => forall|k: int|
                0 <= k < members@.len() ==> (#[trigger] members@[k]).0@ != name@,
        },
{
    let mut i: usize = members.len();
    while i > 0
        invariant
            i <= members@.len(),
            forall|k: int| i <= k < members@.len() ==> (#[trigger] members@[k]).0@ != name@,
        decreases i,
    {
        i -= 1;
        if crate::text::str_eq(members[i].0.as_str(), name) {
            return Some(i);
        }
    }
    None
}

impl Value {
    /// Whether two values are equal.
    fn same(&self, other: &Value) -> (same: bool)
        ensures
            same == (meaning(self@) == meaning(other@)),
        decreases self,
    {
        match (self, other) {
            (Value::Null, Value::Null) => true,
            (Value::Bool(a), Value::Bool(b)) => *a == *b,
            (Value::Number(a), Value::Number(b)) => a.same(b),
            (Value::String(a), Value::String(b)) => crate::text::str_eq(a.as_str(), b.as_str()),
            (Value::Array(a), Value::Array(b)) => {
                let ghost left = items_meaning(items_view(a@));
                let ghost right = items_meaning(items_view(b@));
                if a.len() != b.len() {
                    assert(left.len() != right.len());
                    return false;
                }
                let mut i: usize = 0;
                while i < a.len()
                    invariant
                        i <= a@.len(),
                        a@.len() == b@.len(),
                        left == items_meaning(items_view(a@)),
                        right == items_meaning(items_view(b@)),
                        meaning(self@) == Meaning::Array(left),
                        meaning(other@) == Meaning::Array(right),
                        decreases_to!(self => a),
                        forall|j: int| 0 <= j < i ==> #[trigger] left[j] == right[j],
                    decreases a@.len() - i,
                {
                    assert(left[i as int] == meaning(a@[i as int]@));
                    assert(right[i as int] == meaning(b@[i as int]@));
                    if !a[i].same(&b[i]) {
                        return false;
                    }
                    i += 1;
                }
                assert(left =~= right);
                true
            },
            (Value::Object(a), Value::Object(b)) => {
                let ghost left = members_view(a@);
                let ghost right = members_view(b@);
                let mut i: usize = 0;
                while i < a.len()
                    invariant
                        i <= a@.len(),
                        left == members_view(a@),
                        right == members_view(b@),
                        meaning(self@) == Meaning::Object(members_meaning(left)),
                        meaning(other@) == Meaning::Object(members_meaning(right)),
                        decreases_to!(self => a),
                        forall|j: int|
                            0 <= j < i ==> members_meaning(right).contains_key(
                                (#[trigger] left[j]).0,
                            ) && members_meaning(left)[left[j].0] == members_meaning(
                                right,
                            )[left[j].0],
                    decreases a@.len() - i,
                {
                    let ghost name = left[i as int].0;
                    proof {
                        lemma_members_meaning(left, i as int);
                    }
                    let here = last_under(a, a[i].0.as_str());
                    let there = last_under(b, a[i].0.as_str());
                    match (here, there) {
                        (Some(m), Some(n)) => {
                            proof {
                                lemma_last_member(a@, m as int);
                                lemma_last_member(b@, n as int);
                            }
                            if !a[m].1.same(&b[n].1) {
                                assert(members_meaning(left)[name] != members_meaning(right)[name]);
                                return false;
                            }
                        },
                        _ => {
                            proof {
                                assert(a@[i as int].0@ == name);
                                if members_meaning(right).contains_key(name) {
                                    lemma_meaning_in_members(right, name);
                                    let k = choose|k: int|
                                        0 <= k < right.len() && (#[trigger] right[k]).0 == name;
                                    assert(b@[k].0@ == name);
                                }
                            }
                            return false;
                        },
                    }
                    i += 1;
                }
                let mut j: usize = 0;
                while j < b.len()
                    invariant
                        j <= b@.len(),
                        left == members_view(a@),
                        right == members_view(b@),
                        meaning(self@) == Meaning::Object(members_meaning(left)),
                        meaning(other@) == Meaning::Object(members_meaning(right)),
                        forall|k: int|
                            0 <= k < j ==> members_meaning(left).contains_key(
                                (#[trigger] right[k]).0,
                            ),
                    decreases b@.len() - j,
                {
                    let ghost name = right[j as int].0;
                    match last_under(a, b[j].0.as_str()) {
                        Some(m) => {
                            proof {
                                lemma_last_member(a@, m as int);
                            }
                        },
                        None => {
                            proof {
                                lemma_members_meaning(right, j as int);
                                if members_meaning(left).contains_key(name) {
                                    lemma_meaning_in_members(left, name);
                                    let k = choose|k: int|
                                        0 <= k < left.len() && (#[trigger] left[k]).0 == name;
                                    assert(a@[k].0@ == name);
                                }
                            }
                            return false;
                        },
                    }
                    j += 1;
                }
                proof {
                    lemma_same_members(left, right);
                }
                true
            },
            _ => false,
        }
    }
}

/// The value of the last member under a name is what the object means there.
proof fn lemma_last_member(members: Seq<(String, Value)>, i: int)
    requires
        0 <= i < members.len(),
        forall|k: int| i < k < members.len() ==> (#[trigger] members[k]).0@ != members[i].0@,
    ensures
        members_meaning(members_view(members)).contains_key(members[i].0@),
        members_meaning(members_view(members))[members[i].0@] == meaning(members[i].1@),
{
    let view = members_view(members);
    assert forall|k: int| i < k < view.len() implies (#[trigger] view[k]).0 != view[i].0 by {
        assert(view[k].0 == members[k].0@);
    }
    lemma_members_meaning(view, i);
}

/// Objects with the same names and equal values under them mean the same.
proof fn lemma_same_members(left: Seq<(Seq<char>, Json)>, right: Seq<(Seq<char>, Json)>)
    requires
        forall|j: int|
            0 <= j < left.len() ==> members_meaning(right).contains_key((#[trigger] left[j]).0)
                && members_meaning(left)[left[j].0] == members_meaning(right)[left[j].0],
        forall|k: int|
            0 <= k < right.len() ==> members_meaning(left).contains_key((#[trigger] right[k]).0),
    ensures
        members_meaning(left) == members_meaning(right),
{
    let a = members_meaning(left);
    let b = members_meaning(right);
    assert forall|name: Seq<char>| #[trigger] a.contains_key(name) implies b.contains_key(name)
        && a[name] == b[name] by {
        lemma_meaning_in_members(left, name);
    }
    assert forall|name: Seq<char>| #[trigger] b.contains_key(name) implies a.contains_key(
        name,
    ) by {
        lemma_meaning_in_members(right, name);
    }
    assert(a =~= b);
}

impl PartialEq for Value {
    fn eq(&self, other: &Value) -> (equal: bool) {
        self.same(other)
    }
}

impl PartialEqSpecImpl for Value {
    open spec fn obeys_eq_spec() -> bool {
        true
    }

    open spec fn eq_spec(&self, other: &Value) -> bool {
        meaning(self@) == meaning(other@)
    }
}

/// The order of two neighbouring members of an object does not matter, unless
/// they stand under one name.
pub proof fn law_order_of_members_is_immaterial(
    front: Seq<(Seq<char>, Json)>,
    x: (Seq<char>, Json),
    y: (Seq<char>, Json),
    rest: Seq<(Seq<char>, Json)>,
)
    requires
        x.0 != y.0,
    ensures
        meaning(Json::Object(front + seq![x, y] + rest)) == meaning(
            Json::Object(front + seq![y, x] + rest),
        ),
    decreases rest.len(),
{
    let a = front + seq![x, y] + rest;
    let b = front + seq![y, x] + rest;
    if rest.len() == 0 {
        reveal_with_fuel(members_meaning, 3);
        assert(a.subrange(0, a.len() - 1).subrange(0, a.len() - 2) =~= front);
        assert(b.subrange(0, b.len() - 1).subrange(0, b.len() - 2) =~= front);
        assert(members_meaning(a) =~= members_meaning(b));
    } else {
        let shorter = rest.subrange(0, rest.len() - 1);
        law_order_of_members_is_immaterial(front, x, y, shorter);
        assert(a.subrange(0, a.len() - 1) =~= front + seq![x, y] + shorter);
        assert(b.subrange(0, b.len() - 1) =~= front + seq![y, x] + shorter);
        assert(a[a.len() - 1] == b[b.len() - 1]);
    }
}

/// Flat payload of a frame: values under names.
pub type Data = Fields<Value>;

/// What a payload holds under each name.
pub open spec fn data_view(data: Map<Seq<char>, Value>) -> Map<Seq<char>, Json> {
    Map::new(|name: Seq<char>| data.contains_key(name), |name: Seq<char>| data[name]@)
}

/// The payload without an entry.
pub open spec fn empty_data() -> Map<Seq<char>, Json> {
    Map::empty()
}

/// The payload without an entry.
pub fn no_data() -> (data: Data)
    ensures
        data_view(data@) == empty_data(),
{
    let data = Fields::new();
    assert(data_view(data@) =~= empty_data());
    data
}

/// The members of an object by name; of two under one name, the later.
pub open spec fn object_map(members: Seq<(Seq<char>, Json)>) -> Map<Seq<char>, Json>
    decreases members.len(),
{
    if members.len() == 0 {
        Map::empty()
    } else {
        object_map(members.drop_last()).insert(members.last().0, members.last().1)
    }
}

/// The payload that a value makes: the members of an object; any other value
/// under the name `value`.
pub open spec fn payload_of(value: Json) -> Map<Seq<char>, Json> {
    match value {
        Json::Object(members) => object_map(members),
        other => map!["value"@ => other],
    }
}

impl Clone for Fields<Value> {
    /// A payload that holds the same.
    fn clone(&self) -> (copy: Self)
        ensures
            data_view(copy@) == data_view(self@),
    {
        let entries = self.entries();
        let mut copy = Fields::new();
        let mut i: usize = 0;
        assert(data_view(copy@) =~= data_view(
            crate::table::entries_map(entries@.take(0)),
        ));
        while i < entries.len()
            invariant
                i <= entries@.len(),
                data_view(copy@) == data_view(crate::table::entries_map(entries@.take(i as int))),
            decreases entries@.len() - i,
        {
            proof {
                assert(entries@.take(i + 1).drop_last() =~= entries@.take(i as int));
                assert(data_view(copy@).dom() =~= copy@.dom());
                assert(data_view(crate::table::entries_map(entries@.take(i as int))).dom()
                    =~= crate::table::entries_map(entries@.take(i as int)).dom());
            }
            let ghost before = copy@;
            copy.insert(entries[i].0.clone(), entries[i].1.clone());
            i += 1;
            assert(data_view(copy@) =~= data_view(before).insert(
                entries@[i - 1].0@,
                entries@[i - 1].1@,
            ));
            assert(data_view(crate::table::entries_map(entries@.take(i as int))) =~= data_view(
                before,
            ).insert(entries@[i - 1].0@, entries@[i - 1].1@));
        }
        assert(entries@.take(entries@.len() as int) =~= entries@);
        copy
    }
}

/// Makes a flat payload of a value.
///
/// The members of an object become the entries of the payload; any other value
/// is put under the name `value`.
pub fn flatten(value: Value) -> (data: Data)
    ensures
        data_view(data@) == payload_of(value@),
{
    let mut data: Data = Fields::new();
    match value {
        Value::Object(members) => {
            let ghost all = members@;
            assert(data_view(data@) =~= object_map(members_view(all).take(0)));
            for member in iter: members
                invariant
                    iter.seq() == all,
                    data_view(data@) == object_map(members_view(all).take(iter.index())),
            {
                let ghost before = data@;
                let (name, member_value) = member;
                data.insert(name, member_value);
                assert(data_view(data@) =~= data_view(before).insert(name@, member_value@));
                assert(members_view(all).take(iter.index() + 1).drop_last() =~= members_view(
                    all,
                ).take(iter.index()));
            }
            assert(members_view(all).take(all.len() as int) =~= members_view(all));
        },
        other => {
            data.insert("value".to_owned(), other);
            assert(data_view(data@) =~= payload_of(other@));
        },
    }
    data
}

/// Makes a flat payload of what serializing a value gave.
///
/// A failure to serialize is handed on as it is.
pub fn to_data<E>(serialized: Result<Value, E>) -> (data: Result<Data, E>)
    ensures
        match serialized {
            Ok(value) => data is Ok && data_view(data->Ok_0@) == payload_of(value@),
            Err(error) => data == Err::<Data, E>(error),
        },
{
    match serialized {
        Ok(value) => Ok(flatten(value)),
        Err(error) => Err(error),
    }
}

} // verus!
