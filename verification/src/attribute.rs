//! Attribute values of OpenTelemetry: their shape, their JSON form and their text.
use crate::json;
use crate::json::Json;
use crate::number;
use vstd::prelude::*;

verus! {

/// A floating-point attribute, as what is written of it: its plain text, and the JSON number for
/// it where it is finite.
#[derive(Debug, PartialEq)]
pub struct Double {
    pub text: String,
    pub number: Option<serde_json::Number>,
}

/// The value of an attribute.
#[derive(Debug, PartialEq)]
pub enum AttributeValue {
    StringValue(String),
    BoolValue(bool),
    IntValue(i64),
    DoubleValue(Double),
    ArrayValue(Vec<AttributeValue>),
    KvlistValue(Vec<Attribute>),
    BytesValue(Vec<u8>),
    StringValueStrindex(i32),
    Unset,
}

/// A named attribute.
#[derive(Debug, PartialEq)]
pub struct Attribute {
    pub key: String,
    pub value: Option<AttributeValue>,
}

/// What an attribute value holds.
pub enum AnyModel {
    Text(Seq<char>),
    Bool(bool),
    Int(i64),
    Double(Seq<char>, Option<serde_json::Number>),
    Array(Seq<AnyModel>),
    KeyValues(Seq<KeyModel>),
    Bytes(Seq<u8>),
    Index(i32),
    Unset,
}

/// What a named attribute holds.
pub struct KeyModel {
    pub key: Seq<char>,
    pub value: Option<AnyModel>,
}

/// What an attribute value holds.
pub open spec fn any_model(value: AttributeValue) -> AnyModel
    decreases value,
{
    match value {
        AttributeValue::StringValue(s) => AnyModel::Text(s@),
        AttributeValue::BoolValue(b) => AnyModel::Bool(b),
        AttributeValue::IntValue(n) => AnyModel::Int(n),
        AttributeValue::DoubleValue(d) => AnyModel::Double(d.text@, d.number),
        AttributeValue::ArrayValue(values) => AnyModel::Array(
            Seq::new(
                values@.len(),
                |i: int|
                    if 0 <= i < values@.len() {
                        any_model(values@[i])
                    } else {
                        AnyModel::Unset
                    },
            ),
        ),
        AttributeValue::KvlistValue(items) => AnyModel::KeyValues(
            Seq::new(
                items@.len(),
                |i: int|
                    if 0 <= i < items@.len() {
                        key_model(items@[i])
                    } else {
                        KeyModel { key: Seq::empty(), value: None }
                    },
            ),
        ),
        AttributeValue::BytesValue(bytes) => AnyModel::Bytes(bytes@),
        AttributeValue::StringValueStrindex(n) => AnyModel::Index(n),
        AttributeValue::Unset => AnyModel::Unset,
    }
}

/// What a named attribute holds.
pub open spec fn key_model(item: Attribute) -> KeyModel
    decreases item,
{
    KeyModel {
        key: item.key@,
        value: match item.value {
            Some(value) => Some(any_model(value)),
            None => None,
        },
    }
}

impl View for AttributeValue {
    type V = AnyModel;

    open spec fn view(&self) -> AnyModel {
        any_model(*self)
    }
}

impl View for Attribute {
    type V = KeyModel;

    open spec fn view(&self) -> KeyModel {
        key_model(*self)
    }
}

/// What the attributes of a sequence hold.
pub open spec fn key_models(items: Seq<Attribute>) -> Seq<KeyModel> {
    Seq::new(items.len(), |i: int| items[i]@)
}

/// What the values of a sequence hold.
pub open spec fn any_models(values: Seq<AttributeValue>) -> Seq<AnyModel> {
    Seq::new(values.len(), |i: int| values[i]@)
}

/// The JSON form of an attribute value. Bytes are written in hexadecimal; a number that JSON
/// cannot write is written as its text.
pub open spec fn any_json(model: AnyModel) -> Json
    decreases model,
{
    match model {
        AnyModel::Text(s) => Json::Str(s),
        AnyModel::Bool(b) => Json::Bool(b),
        AnyModel::Int(n) => Json::Int(n as int),
        AnyModel::Double(s, Some(n)) => json::number_of(n),
        AnyModel::Double(s, None) => Json::Str(s),
        AnyModel::Array(values) => Json::Array(
            Seq::new(
                values.len(),
                |i: int|
                    if 0 <= i < values.len() {
                        any_json(values[i])
                    } else {
                        Json::Null
                    },
            ),
        ),
        AnyModel::KeyValues(items) => Json::Object(members(items)),
        AnyModel::Bytes(bytes) => Json::Str(number::hex_of(bytes)),
        AnyModel::Index(_) => Json::Null,
        AnyModel::Unset => Json::Null,
    }
}

/// The members that named attributes spell out: those with a value, a later one in place of an
/// earlier one of the same name.
pub open spec fn members(items: Seq<KeyModel>) -> Map<Seq<char>, Json>
    decreases items,
{
    if items.len() == 0 {
        Map::empty()
    } else {
        let before = members(items.drop_last());
        match items.last().value {
            Some(value) => before.insert(items.last().key, any_json(value)),
            None => before,
        }
    }
}

/// The text of an attribute value: scalars plainly, bytes in hexadecimal, lists as JSON, and
/// nothing where there is no value.
pub open spec fn any_text(model: AnyModel) -> Seq<char> {
    match model {
        AnyModel::Text(s) => s,
        AnyModel::Bool(b) => if b {
            "true"@
        } else {
            "false"@
        },
        AnyModel::Int(n) => number::integer(n as int),
        AnyModel::Double(s, _) => s,
        AnyModel::Array(_) => json::json_text(any_json(model)),
        AnyModel::KeyValues(_) => json::json_text(any_json(model)),
        AnyModel::Bytes(bytes) => number::hex_of(bytes),
        AnyModel::Index(_) => Seq::empty(),
        AnyModel::Unset => Seq::empty(),
    }
}

/// `serde_json::Number::clone` gives the same number.
pub assume_specification[ <serde_json::Number as Clone>::clone ](n: &serde_json::Number) -> (r:
    serde_json::Number)
    ensures
        r == *n,
;

/// The JSON form of an attribute value.
pub fn any_value_to_json(value: &AttributeValue) -> (r: serde_json::Value)
    ensures
        json::json_of(r) == any_json(value@),
    decreases *value,
{
    match value {
        AttributeValue::StringValue(s) => json::json_string(s.clone()),
        AttributeValue::BoolValue(b) => json::json_bool(*b),
        AttributeValue::IntValue(n) => json::json_int(*n),
        AttributeValue::DoubleValue(d) => match &d.number {
            Some(n) => json::json_number(n.clone()),
            None => json::json_string(d.text.clone()),
        },
        AttributeValue::BytesValue(bytes) => json::json_string(number::hex(bytes.as_slice())),
        AttributeValue::ArrayValue(values) => {
            let mut elements: Vec<serde_json::Value> = Vec::new();
            let mut i: usize = 0;
            while i < values.len()
                invariant
                    i <= values.len(),
                    *value == AttributeValue::ArrayValue(*values),
                    elements.len() == i,
                    forall|j: int|
                        0 <= j < i ==> json::json_of(#[trigger] elements@[j]) == any_json(
                            values@[j]@,
                        ),
                decreases values.len() - i,
            {
                proof {
                    assert(decreases_to!(*value => value->ArrayValue_0));
                    assert(decreases_to!(*values => values@));
                    assert(decreases_to!(values@ => values@[i as int]));
                }
                elements.push(any_value_to_json(&values[i]));
                i += 1;
            }
            assert(json::jsons_of(elements@) =~= any_json(value@)->Array_0);
            json::json_array(elements)
        },
        AttributeValue::KvlistValue(items) => {
            let mut entries: serde_json::Map<String, serde_json::Value> = json::no_entries();
            let mut i: usize = 0;
            assert(key_models(items@).take(0) =~= Seq::empty());
            while i < items.len()
                invariant
                    i <= items.len(),
                    *value == AttributeValue::KvlistValue(*items),
                    json::entries_of(entries) == members(key_models(items@).take(i as int)),
                decreases items.len() - i,
            {
                let ghost next = key_models(items@).take(i + 1);
                assert(next.drop_last() =~= key_models(items@).take(i as int));
                assert(next.last() == items@[i as int]@);
                if let Some(member) = &items[i].value {
                    proof {
                        assert(decreases_to!(*value => value->KvlistValue_0));
                        assert(decreases_to!(*items => items@));
                        assert(decreases_to!(items@ => items@[i as int]));
                        assert(decreases_to!(items@[i as int] => items@[i as int].value));
                        assert(decreases_to!(items@[i as int].value => items@[i as int].value->0));
                    }
                    json::insert_entry(
                        &mut entries,
                        items[i].key.clone(),
                        any_value_to_json(member),
                    );
                }
                i += 1;
            }
            assert(key_models(items@).take(items.len() as int) =~= value@->KeyValues_0);
            json::json_object(entries)
        },
        AttributeValue::StringValueStrindex(_) => json::json_null(),
        AttributeValue::Unset => json::json_null(),
    }
}

/// The text of an attribute value.
pub fn any_value_to_string(value: &AttributeValue) -> (r: String)
    ensures
        r@ == any_text(value@),
{
    match value {
        AttributeValue::StringValue(s) => s.clone(),
        AttributeValue::BoolValue(b) => if *b {
            "true".to_owned()
        } else {
            "false".to_owned()
        },
        AttributeValue::IntValue(n) => number::integer_text(*n),
        AttributeValue::DoubleValue(d) => d.text.clone(),
        AttributeValue::BytesValue(bytes) => number::hex(bytes.as_slice()),
        AttributeValue::ArrayValue(_) => json::write_json(&any_value_to_json(value)),
        AttributeValue::KvlistValue(_) => json::write_json(&any_value_to_json(value)),
        AttributeValue::StringValueStrindex(_) => String::new(),
        AttributeValue::Unset => String::new(),
    }
}

/// Scalars are written plainly: texts and floating-point numbers as they are, truth values as words,
/// whole numbers in decimal and bytes in hexadecimal; lists are written as the JSON of the value, and
/// where there is no value nothing is.
pub proof fn values_are_written_plainly(
    value: &AttributeValue,
    r: String,
    converted: serde_json::Value,
)
    requires
        call_ensures(any_value_to_string, (value,), r),
        call_ensures(any_value_to_json, (value,), converted),
    ensures
        *value is StringValue ==> r@ == value->StringValue_0@,
        *value is BoolValue && value->BoolValue_0 ==> r@ == "true"@,
        *value is BoolValue && !value->BoolValue_0 ==> r@ == "false"@,
        *value is IntValue && value->IntValue_0 >= 0 ==> r@ == number::decimal(
            value->IntValue_0 as nat,
        ),
        *value is IntValue && value->IntValue_0 < 0 ==> r@ == seq!['-'] + number::decimal(
            (-value->IntValue_0) as nat,
        ),
        *value is DoubleValue ==> r@ == value->DoubleValue_0.text@,
        *value is BytesValue ==> r@ == number::hex_of(value->BytesValue_0@),
        *value is ArrayValue || *value is KvlistValue ==> r@ == json::json_text(
            json::json_of(converted),
        ),
        *value is StringValueStrindex || *value is Unset ==> r@.len() == 0,
{
}

/// The JSON of a value: scalars as themselves, bytes as their hexadecimal text, a number that JSON
/// cannot write as its text, a list as the JSON of its elements in order, and null where there is no
/// value.
pub proof fn values_become_json(value: &AttributeValue, r: serde_json::Value, i: int)
    requires
        call_ensures(any_value_to_json, (value,), r),
    ensures
        *value is StringValue ==> json::json_of(r) == Json::Str(value->StringValue_0@),
        *value is BoolValue ==> json::json_of(r) == Json::Bool(value->BoolValue_0),
        *value is IntValue ==> json::json_of(r) == Json::Int(value->IntValue_0 as int),
        *value is DoubleValue && value->DoubleValue_0.number is Some ==> json::json_of(r)
            == json::number_of(value->DoubleValue_0.number->0),
        *value is DoubleValue && value->DoubleValue_0.number is None ==> json::json_of(r)
            == Json::Str(value->DoubleValue_0.text@),
        *value is BytesValue ==> json::json_of(r) == Json::Str(
            number::hex_of(value->BytesValue_0@),
        ),
        *value is StringValueStrindex || *value is Unset ==> json::json_of(r) == Json::Null,
        *value is ArrayValue ==> {
            &&& json::json_of(r) is Array
            &&& json::json_of(r)->Array_0.len() == value->ArrayValue_0@.len()
            &&& 0 <= i < value->ArrayValue_0@.len() ==> json::json_of(r)->Array_0[i] == any_json(
                value->ArrayValue_0@[i]@,
            )
        },
        *value is KvlistValue ==> json::json_of(r) == Json::Object(
            members(key_models(value->KvlistValue_0@)),
        ),
{
    if let AttributeValue::KvlistValue(items) = *value {
        assert(value@->KeyValues_0 =~= key_models(items@));
    }
}

/// One more named attribute adds its member, in place of an earlier one of its name; one without a
/// value adds nothing.
pub proof fn the_last_member_of_a_name_counts(items: Seq<KeyModel>, item: KeyModel)
    ensures
        members(Seq::empty()) == Map::<Seq<char>, Json>::empty(),
        item.value is None ==> members(items.push(item)) == members(items),
        item.value is Some ==> members(items.push(item)) == members(items).insert(
            item.key,
            any_json(item.value->0),
        ),
{
    assert(items.push(item).drop_last() =~= items);
}

} // verus!
