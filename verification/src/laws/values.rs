//! Laws of values, payloads and errors.
use crate::error::KernelError;
use crate::error::PipeError;
use crate::error::SigcallError;
use crate::frame::ErrorCode;
use crate::value::Data;
use crate::value::Json;
use crate::value::Number;
use crate::value::Value;
use vstd::prelude::*;
use vstd::std_specs::cmp::PartialEqSpec;

verus! {

/// The view of a value holds all that the value holds.
pub proof fn law_view_of_a_value(value: Value)
    ensures
        match value {
            Value::Null => value@ == Json::Null,
            Value::Bool(b) => value@ == Json::Bool(b),
            Value::Number(n) => value@ == Json::Number(n),
            Value::String(s) => value@ == Json::String(s@),
            Value::Array(items) => {
                &&& value@ is Array
                &&& value@->Array_0.len() == items@.len()
                &&& forall|i: int|
                    0 <= i < items@.len() ==> (#[trigger] value@->Array_0[i]) == items@[i]@
            },
            Value::Object(members) => {
                &&& value@ is Object
                &&& value@->Object_0.len() == members@.len()
                &&& forall|i: int|
                    0 <= i < members@.len() ==> (#[trigger] value@->Object_0[i]).0
                        == members@[i].0@ && value@->Object_0[i].1 == members@[i].1@
            },
        },
{
    match value {
        Value::Array(items) => {
            let view = value@->Array_0;
            assert(view == crate::value::items_view(items@));
        },
        Value::Object(members) => {
            let view = value@->Object_0;
            assert(view == crate::value::members_view(members@));
        },
        _ => {},
    }
}

/// A copy of a value holds what the value holds.
pub proof fn law_copy_of_a_value(value: Value, copy: Value)
    requires
        call_ensures(<Value as Clone>::clone, (&value,), copy),
    ensures
        copy@ == value@,
{
}

/// A copy of a payload holds equal values under the same names.
pub proof fn law_copy_of_a_payload(data: Data, copy: Data, name: Seq<char>)
    requires
        call_ensures(<Data as Clone>::clone, (&data,), copy),
    ensures
        copy@.contains_key(name) == data@.contains_key(name),
        data@.contains_key(name) ==> copy@[name]@ == data@[name]@,
{
    let of_data = crate::value::data_view(data@);
    let of_copy = crate::value::data_view(copy@);
    assert(of_data == of_copy);
    assert(of_data.contains_key(name) == data@.contains_key(name));
    assert(of_copy.contains_key(name) == copy@.contains_key(name));
    if data@.contains_key(name) {
        assert(of_data[name] == data@[name]@);
        assert(of_copy[name] == copy@[name]@);
    }
}

/// A value that is not an object makes a payload that holds the value itself under
/// the name `value`, and nothing else.
pub proof fn law_payload_of_a_plain_value(value: Value, data: Data, name: Seq<char>)
    requires
        call_ensures(crate::value::flatten, (value,), data),
        !(value is Object),
    ensures
        data@.contains_key(name) <==> name == "value"@,
        data@["value"@]@ == value@,
{
    let of_data = crate::value::data_view(data@);
    assert(of_data.contains_key(name) == data@.contains_key(name));
    assert(of_data.contains_key("value"@));
    assert(of_data["value"@] == data@["value"@]@);
}

/// A member's name is that of an entry, with its value if it is the last one.
proof fn lemma_member_in_map(members: Seq<(Seq<char>, Json)>, i: int)
    requires
        0 <= i < members.len(),
    ensures
        crate::value::object_map(members).contains_key(members[i].0),
        (forall|k: int| i < k < members.len() ==> (#[trigger] members[k]).0 != members[i].0)
            ==> crate::value::object_map(members)[members[i].0] == members[i].1,
    decreases members.len(),
{
    if i < members.len() - 1 {
        let front = members.drop_last();
        lemma_member_in_map(front, i);
        if forall|k: int| i < k < members.len() ==> (#[trigger] members[k]).0 != members[i].0 {
            assert(forall|k: int|
                i < k < front.len() ==> (#[trigger] front[k]) == members[k] && members[k].0
                    != members[i].0);
            assert(members[members.len() - 1].0 != members[i].0);
        }
    }
}

/// An entry's name is that of a member.
proof fn lemma_map_in_members(members: Seq<(Seq<char>, Json)>, name: Seq<char>)
    requires
        crate::value::object_map(members).contains_key(name),
    ensures
        exists|i: int| 0 <= i < members.len() && (#[trigger] members[i]).0 == name,
    decreases members.len(),
{
    if members.last().0 != name {
        let front = members.drop_last();
        lemma_map_in_members(front, name);
        let i = choose|i: int| 0 <= i < front.len() && (#[trigger] front[i]).0 == name;
        assert(members[i].0 == name);
    } else {
        assert(members[members.len() - 1].0 == name);
    }
}

/// An object makes a payload with a name for each of its members, and under each
/// name the value of the last member that has it.
pub proof fn law_payload_of_an_object(
    members: Vec<(String, Value)>,
    data: Data,
    name: Seq<char>,
    last: int,
)
    requires
        call_ensures(crate::value::flatten, (Value::Object(members),), data),
    ensures
        data@.contains_key(name) <==> exists|i: int|
            0 <= i < members@.len() && (#[trigger] members@[i]).0@ == name,
        0 <= last < members@.len() && members@[last].0@ == name && (forall|k: int|
            last < k < members@.len() ==> (#[trigger] members@[k]).0@ != name)
            ==> data@[name]@ == members@[last].1@,
{
    let value = Value::Object(members);
    let view = value@->Object_0;
    assert(view == crate::value::members_view(members@));
    let of_data = crate::value::data_view(data@);
    assert(of_data == crate::value::object_map(view));
    assert(of_data.contains_key(name) == data@.contains_key(name));
    if exists|i: int| 0 <= i < members@.len() && (#[trigger] members@[i]).0@ == name {
        let i = choose|i: int| 0 <= i < members@.len() && (#[trigger] members@[i]).0@ == name;
        lemma_member_in_map(view, i);
    }
    if of_data.contains_key(name) {
        lemma_map_in_members(view, name);
        let i = choose|i: int| 0 <= i < view.len() && (#[trigger] view[i]).0 == name;
        assert(members@[i].0@ == name);
    }
    if 0 <= last < members@.len() && members@[last].0@ == name && (forall|k: int|
        last < k < members@.len() ==> (#[trigger] members@[k]).0@ != name) {
        assert(view[last].0 == name);
        assert forall|k: int| last < k < view.len() implies (#[trigger] view[k]).0 != name by {
            assert(members@[k].0@ != name);
        }
        lemma_member_in_map(view, last);
        assert(of_data[name] == data@[name]@);
    }
}

/// What serializing gave makes the payload that the value makes, and a failure to
/// serialize is handed on.
pub proof fn law_payload_of_what_serializing_gave<E>(
    serialized: Result<Value, E>,
    data: Result<Data, E>,
    flat: Data,
    name: Seq<char>,
)
    requires
        call_ensures(crate::value::to_data::<E>, (serialized,), data),
        serialized is Ok ==> call_ensures(crate::value::flatten, (serialized->Ok_0,), flat),
    ensures
        serialized is Ok ==> data is Ok && data->Ok_0@.contains_key(name)
            == flat@.contains_key(name) && (flat@.contains_key(name)
            ==> data->Ok_0@[name]@ == flat@[name]@),
        serialized is Err ==> data is Err && data->Err_0 == serialized->Err_0,
{
    if serialized is Ok {
        let a = crate::value::data_view(data->Ok_0@);
        let b = crate::value::data_view(flat@);
        assert(a == b);
        assert(a.contains_key(name) == data->Ok_0@.contains_key(name));
        assert(b.contains_key(name) == flat@.contains_key(name));
        if flat@.contains_key(name) {
            assert(a[name] == data->Ok_0@[name]@);
            assert(b[name] == flat@[name]@);
        }
    }
}

/// When two values are equal: only values of one variety are. Numbers are equal if
/// they are held alike or are the two zeros, texts if they have the same
/// characters, and arrays if they have equal items in the same places.
pub proof fn law_equal_values(a: Value, b: Value, equal: bool)
    requires
        call_ensures(<Value as PartialEq>::eq, (&a, &b), equal),
    ensures
        match (a, b) {
            (Value::Null, Value::Null) => equal,
            (Value::Bool(x), Value::Bool(y)) => equal == (x == y),
            (Value::Number(x), Value::Number(y)) => equal == (x == y || ((x == Number::Float(0)
                || x == Number::Float(0x8000_0000_0000_0000)) && (y == Number::Float(0) || y
                == Number::Float(0x8000_0000_0000_0000)))),
            (Value::String(x), Value::String(y)) => equal == (x@ == y@),
            (Value::Array(x), Value::Array(y)) => equal <==> x@.len() == y@.len() && forall|i: int|
                0 <= i < x@.len() ==> x@[i].eq_spec(#[trigger] &y@[i]),
            (Value::Object(_), Value::Object(_)) => true,
            _ => !equal,
        },
{
    match (a, b) {
        (Value::Array(x), Value::Array(y)) => {
            let left = crate::value::items_meaning(crate::value::items_view(x@));
            let right = crate::value::items_meaning(crate::value::items_view(y@));
            assert(equal == (left == right));
            if equal {
                assert(left.len() == x@.len());
                assert(right.len() == y@.len());
                assert forall|i: int| 0 <= i < x@.len() implies x@[i].eq_spec(
                    #[trigger] &y@[i],
                ) by {
                    assert(left[i] == crate::value::meaning(x@[i]@));
                    assert(right[i] == crate::value::meaning(y@[i]@));
                }
            }
            if x@.len() == y@.len() && forall|i: int|
                0 <= i < x@.len() ==> x@[i].eq_spec(#[trigger] &y@[i]) {
                assert forall|i: int| 0 <= i < left.len() implies left[i] == right[i] by {
                    assert(x@[i].eq_spec(&y@[i]));
                }
                assert(left =~= right);
            }
        },
        _ => {},
    }
}

/// What an object means under a name is what its entry there means.
proof fn lemma_meaning_of_entries(members: Seq<(Seq<char>, Json)>, name: Seq<char>)
    ensures
        crate::value::members_meaning(members).contains_key(name)
            == crate::value::object_map(members).contains_key(name),
        crate::value::object_map(members).contains_key(name)
            ==> crate::value::members_meaning(members)[name] == crate::value::meaning(
            crate::value::object_map(members)[name],
        ),
    decreases members.len(),
{
    if members.len() > 0 {
        lemma_meaning_of_entries(members.drop_last(), name);
        assert(members.drop_last() =~= members.subrange(0, members.len() - 1));
    }
}

/// Two objects are equal exactly if the payloads that they make hold equal values
/// under the same names.
pub proof fn law_equal_objects(
    a: Vec<(String, Value)>,
    b: Vec<(String, Value)>,
    equal: bool,
    left: Data,
    right: Data,
)
    requires
        call_ensures(<Value as PartialEq>::eq, (&Value::Object(a), &Value::Object(b)), equal),
        call_ensures(crate::value::flatten, (Value::Object(a),), left),
        call_ensures(crate::value::flatten, (Value::Object(b),), right),
    ensures
        equal <==> forall|name: Seq<char>|
            {
                &&& #[trigger] left@.contains_key(name) == right@.contains_key(name)
                &&& left@.contains_key(name) ==> left@[name].eq_spec(&right@[name])
            },
{
    let of_a = crate::value::members_view(a@);
    let of_b = crate::value::members_view(b@);
    let x = crate::value::members_meaning(of_a);
    let y = crate::value::members_meaning(of_b);
    assert(equal == (x == y));
    assert forall|name: Seq<char>| #[trigger] left@.contains_key(name) == x.contains_key(name) && (
    left@.contains_key(name) ==> x[name] == crate::value::meaning(left@[name]@)) by {
        lemma_meaning_of_entries(of_a, name);
        lemma_entry_of_payload(left, of_a, name);
    }
    assert forall|name: Seq<char>| #[trigger] right@.contains_key(name) == y.contains_key(name) && (
    right@.contains_key(name) ==> y[name] == crate::value::meaning(right@[name]@)) by {
        lemma_meaning_of_entries(of_b, name);
        lemma_entry_of_payload(right, of_b, name);
    }
    if equal {
        assert forall|name: Seq<char>|
            {
                &&& #[trigger] left@.contains_key(name) == right@.contains_key(name)
                &&& left@.contains_key(name) ==> left@[name].eq_spec(&right@[name])
            } by {
            assert(right@.contains_key(name) == y.contains_key(name));
        }
    }
    if forall|name: Seq<char>|
        {
            &&& #[trigger] left@.contains_key(name) == right@.contains_key(name)
            &&& left@.contains_key(name) ==> left@[name].eq_spec(&right@[name])
        } {
        assert forall|name: Seq<char>| #[trigger] x.contains_key(name) == y.contains_key(name) by {
            assert(left@.contains_key(name) == right@.contains_key(name));
            assert(right@.contains_key(name) == y.contains_key(name));
        }
        assert forall|name: Seq<char>| #[trigger] x.contains_key(name) implies x[name]
            == y[name] by {
            assert(left@.contains_key(name));
            assert(right@.contains_key(name));
        }
        assert(x =~= y);
    }
}

/// The payload that an object makes holds its entries.
proof fn lemma_entry_of_payload(data: Data, members: Seq<(Seq<char>, Json)>, name: Seq<char>)
    requires
        crate::value::data_view(data@) == crate::value::object_map(members),
    ensures
        data@.contains_key(name) == crate::value::object_map(members).contains_key(name),
        data@.contains_key(name) ==> data@[name]@ == crate::value::object_map(members)[name],
{
    let of_data = crate::value::data_view(data@);
    assert(of_data.contains_key(name) == data@.contains_key(name));
    if data@.contains_key(name) {
        assert(of_data[name] == data@[name]@);
    }
}

// ---- Errors ----

/// The codes of the kernel's errors, their messages, and which of them advises to
/// retry.
pub proof fn law_kernel_errors(message: &str, error: KernelError)
    ensures
        call_ensures(KernelError::invalid_args, (message,), error) ==> error.code@
            == "E_INVALID_ARGS"@ && error.message@ == message@ && !error.retryable,
        call_ensures(KernelError::not_found, (message,), error) ==> error.code@ == "E_NOT_FOUND"@
            && error.message@ == message@ && !error.retryable,
        call_ensures(KernelError::forbidden, (message,), error) ==> error.code@ == "E_FORBIDDEN"@
            && error.message@ == message@ && !error.retryable,
        call_ensures(KernelError::timeout, (message,), error) ==> error.code@ == "E_TIMEOUT"@
            && error.message@ == message@ && error.retryable,
        call_ensures(KernelError::internal, (message,), error) ==> error.code@ == "E_INTERNAL"@
            && error.message@ == message@ && !error.retryable,
        call_ensures(KernelError::no_route, (message,), error) ==> error.code@ == "E_NO_ROUTE"@
            && error.message@ == message@ && !error.retryable,
        call_ensures(KernelError::cancelled, (), error) ==> error.code@ == "E_CANCELLED"@
            && error.message@ == "operation cancelled"@ && !error.retryable,
{
}

/// What a kernel error tells of itself.
pub proof fn law_kernel_error_tells_itself(
    error: KernelError,
    code: &'static str,
    message: String,
    retry: bool,
    data: Data,
    name: Seq<char>,
)
    requires
        call_ensures(<KernelError as ErrorCode>::error_code, (&error,), code),
        call_ensures(<KernelError as ErrorCode>::message, (&error,), message),
        call_ensures(<KernelError as ErrorCode>::retryable, (&error,), retry),
        call_ensures(KernelError::to_data, (&error,), data),
    ensures
        code@ == error.code@,
        message@ == error.code@ + ": "@ + error.message@,
        retry == error.retryable,
        data@.contains_key(name) <==> name == "code"@ || name == "message"@ || name
            == "retryable"@,
        data@["code"@]@ == Json::String(error.code@),
        data@["message"@]@ == Json::String(error.message@),
        data@["retryable"@]@ == Json::Bool(error.retryable),
{
    reveal_strlit("code");
    reveal_strlit("message");
    reveal_strlit("retryable");
    let of_data = crate::value::data_view(data@);
    assert("code"@.len() == 4 && "message"@.len() == 7 && "retryable"@.len() == 9);
    assert(of_data.contains_key(name) == data@.contains_key(name));
    assert(of_data.contains_key("code"@) && of_data.contains_key("message"@)
        && of_data.contains_key("retryable"@));
    assert(of_data["code"@] == data@["code"@]@);
    assert(of_data["message"@] == data@["message"@]@);
    assert(of_data["retryable"@] == data@["retryable"@]@);
}

/// The texts of the errors of pipes and of the registry.
pub proof fn law_error_texts(
    pipe: PipeError,
    pipe_text: String,
    sigcall: SigcallError,
    sigcall_text: String,
)
    requires
        call_ensures(PipeError::message, (&pipe,), pipe_text),
        call_ensures(SigcallError::message, (&sigcall,), sigcall_text),
    ensures
        match pipe {
            PipeError::Closed => pipe_text@ == "channel closed"@,
            PipeError::SendFailed => pipe_text@ == "send failed: channel full or closed"@,
            PipeError::Serialization(reason) => pipe_text@ == "serialization failed: "@ + reason@,
        },
        match sigcall {
            SigcallError::AlreadyRegistered { name, owner } => sigcall_text@ == "sigcall "@
                + crate::error::quoted_text(name@) + " already registered by "@
                + crate::error::quoted_text(owner@),
            SigcallError::NotRegistered { name } => sigcall_text@ == "sigcall "@
                + crate::error::quoted_text(name@) + " not registered"@,
            SigcallError::NotOwner { name, owner, caller } => sigcall_text@ == "sigcall "@
                + crate::error::quoted_text(name@) + " owned by "@ + crate::error::quoted_text(
                owner@,
            ) + ", not "@ + crate::error::quoted_text(caller@),
            SigcallError::Reserved { name } => sigcall_text@ == "cannot register reserved prefix: "@
                + crate::error::quoted_text(name@),
        },
{
}

/// A copy of a kernel error holds the same.
pub proof fn law_copy_of_an_error(error: KernelError, copy: KernelError)
    requires
        call_ensures(<KernelError as Clone>::clone, (&error,), copy),
    ensures
        copy.code@ == error.code@,
        copy.message@ == error.message@,
        copy.retryable == error.retryable,
{
}

/// Two numbers are equal if they are held alike or are the two zeros.
pub proof fn law_equal_numbers(a: Number, b: Number, equal: bool)
    requires
        call_ensures(<Number as PartialEq>::eq, (&a, &b), equal),
    ensures
        equal == (a == b || ((a == Number::Float(0) || a == Number::Float(0x8000_0000_0000_0000))
            && (b == Number::Float(0) || b == Number::Float(0x8000_0000_0000_0000)))),
{
}

/// The payload without an entry has none.
pub proof fn law_no_payload(data: Data, name: Seq<char>)
    requires
        call_ensures(crate::value::no_data, (), data),
    ensures
        !data@.contains_key(name),
{
    let view = crate::value::data_view(data@);
    assert(view.contains_key(name) == data@.contains_key(name));
}

} // verus!
