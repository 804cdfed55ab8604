//! Values as they travel through the arena: a small tree-shaped data model,
//! its binary encoding, and the conversion of typed values to and from it.

pub mod stack;

use ciborium::value::Value;
use vstd::prelude::*;

verus! {

/// A self-describing value: what a frame holds once it is decoded.
#[derive(Debug, PartialEq, Eq)]
pub enum Datum {
    Null,
    Bool(bool),
    Integer(i128),
    Bytes(Vec<u8>),
    Text(String),
    Array(Vec<Datum>),
    /// Key and value pairs in the order in which they are written.
    Dict(Vec<(Datum, Datum)>),
}

/// The mathematical content of a [`Datum`].
pub enum DatumModel {
    Null,
    Bool(bool),
    Integer(int),
    Bytes(Seq<u8>),
    Text(Seq<char>),
    Array(Seq<DatumModel>),
    Dict(Seq<(DatumModel, DatumModel)>),
}

impl View for Datum {
    type V = DatumModel;

    open spec fn view(&self) -> DatumModel
        decreases self,
    {
        match self {
            Datum::Null => DatumModel::Null,
            Datum::Bool(b) => DatumModel::Bool(*b),
            Datum::Integer(i) => DatumModel::Integer(*i as int),
            Datum::Bytes(b) => DatumModel::Bytes(b@),
            Datum::Text(s) => DatumModel::Text(s@),
            Datum::Array(items) => DatumModel::Array(
                Seq::new(
                    items@.len(),
                    |i: int|
                        if 0 <= i < items@.len() {
                            items@[i].view()
                        } else {
                            DatumModel::Null
                        },
                ),
            ),
            Datum::Dict(entries) => DatumModel::Dict(
                Seq::new(
                    entries@.len(),
                    |i: int|
                        if 0 <= i < entries@.len() {
                            (entries@[i].0.view(), entries@[i].1.view())
                        } else {
                            (DatumModel::Null, DatumModel::Null)
                        },
                ),
            ),
        }
    }
}

/// The views of the entries of a dictionary, pair by pair.
pub open spec fn entry_views(entries: Seq<(Datum, Datum)>) -> Seq<(DatumModel, DatumModel)> {
    Seq::new(entries.len(), |i: int| (entries[i].0@, entries[i].1@))
}

/// A dictionary's view holds the views of its entries.
pub proof fn lemma_dict_view(entries: Vec<(Datum, Datum)>)
    ensures
        Datum::Dict(entries)@ == DatumModel::Dict(entry_views(entries@)),
{
    reveal_with_fuel(<Datum as View>::view, 2);
    assert(Datum::Dict(entries)@->Dict_0 =~= entry_views(entries@));
}

/// The entries of a record: each field's name, as a text, with its value.
pub open spec fn record_entries(fields: Seq<(Seq<char>, DatumModel)>) -> Seq<
    (DatumModel, DatumModel),
> {
    Seq::new(fields.len(), |i: int| (DatumModel::Text(fields[i].0), fields[i].1))
}

/// A record: a dictionary whose keys are texts, here the field names.
pub open spec fn record(fields: Seq<(Seq<char>, DatumModel)>) -> DatumModel {
    DatumModel::Dict(record_entries(fields))
}

/// The key under which a record that stands for a task names the task's kind.
pub const TYPE_KEY: &'static str = "type";

/// The leading field of a tagged record, or no field where there is no tag.
pub open spec fn tag_fields(tag: Option<Seq<char>>) -> Seq<(Seq<char>, DatumModel)> {
    match tag {
        Some(t) => seq![(TYPE_KEY@, DatumModel::Text(t))],
        None => Seq::empty(),
    }
}

/// Fields that hold unsigned integers: `keys[i]` holds `values[i]`.
pub open spec fn unsigned_fields(keys: Seq<Seq<char>>, values: Seq<int>) -> Seq<
    (Seq<char>, DatumModel),
> {
    Seq::new(keys.len(), |i: int| (keys[i], DatumModel::Integer(values[i])))
}

/// A record of unsigned fields behind an optional type tag.
pub open spec fn unsigned_record_model(
    tag: Option<Seq<char>>,
    keys: Seq<Seq<char>>,
    values: Seq<int>,
) -> DatumModel {
    record(tag_fields(tag) + unsigned_fields(keys, values))
}

/// The names of a list of named numbers.
pub open spec fn field_keys(fields: Seq<(&str, u64)>) -> Seq<Seq<char>> {
    Seq::new(fields.len(), |i: int| fields[i].0@)
}

/// The numbers of a list of named numbers.
pub open spec fn field_values(fields: Seq<(&str, u64)>) -> Seq<int> {
    Seq::new(fields.len(), |i: int| fields[i].1 as int)
}

/// The views of a list of texts.
pub open spec fn key_views(keys: Seq<&str>) -> Seq<Seq<char>> {
    Seq::new(keys.len(), |i: int| keys[i]@)
}

/// The view of an optional text.
pub open spec fn tag_view(tag: Option<&str>) -> Option<Seq<char>> {
    match tag {
        Some(t) => Some(t@),
        None => None,
    }
}

/// Every number of `values` lies between 0 and `max`.
pub open spec fn all_within(values: Seq<int>, max: int) -> bool {
    forall|i: int| 0 <= i < values.len() ==> 0 <= #[trigger] values[i] <= max
}

/// `m` is a dictionary whose entry `index` has the text `key` as its key and
/// `value` as its value.
pub open spec fn is_field(m: DatumModel, index: int, key: Seq<char>, value: DatumModel) -> bool {
    &&& m is Dict
    &&& 0 <= index < m->Dict_0.len()
    &&& m->Dict_0[index] == (DatumModel::Text(key), value)
}

/// `m` is a dictionary of `len` entries.
pub open spec fn is_dict_of(m: DatumModel, len: nat) -> bool {
    m is Dict && m->Dict_0.len() == len
}

/// A dictionary whose entries are, one by one, the fields of a record is that record.
pub proof fn lemma_record_from_fields(m: DatumModel, fields: Seq<(Seq<char>, DatumModel)>)
    requires
        is_dict_of(m, fields.len()),
        forall|i: int| 0 <= i < fields.len() ==> is_field(m, i, fields[i].0, #[trigger] fields[i].1),
    ensures
        m == record(fields),
{
    assert(m->Dict_0 =~= record(fields)->Dict_0);
}

/// A record has its fields as entries, in their order.
pub proof fn lemma_record_fields(fields: Seq<(Seq<char>, DatumModel)>)
    ensures
        is_dict_of(record(fields), fields.len()),
        forall|i: int|
            0 <= i < fields.len() ==> is_field(record(fields), i, fields[i].0, #[trigger] fields[i].1),
{
}

impl Datum {
    /// An unsigned integer.
    pub fn unsigned(value: u64) -> (d: Datum)
        ensures
            d@ == DatumModel::Integer(value as int),
    {
        Datum::Integer(value as i128)
    }

    /// A text.
    pub fn text(value: &str) -> (d: Datum)
        ensures
            d@ == DatumModel::Text(value@),
    {
        Datum::Text(String::from_str(value))
    }

    /// Returns true if this is a dictionary of exactly `len` entries.
    pub fn is_dict_of(&self, len: usize) -> (b: bool)
        ensures
            b == is_dict_of(self@, len as nat),
    {
        match self {
            Datum::Dict(entries) => {
                proof {
                    lemma_dict_view(*entries);
                }
                entries.len() == len
            },
            _ => false,
        }
    }

    /// Returns the value of entry `index` if this is a dictionary and that
    /// entry's key is the text `key`.
    pub fn field_at(&self, index: usize, key: &str) -> (r: Option<&Datum>)
        ensures
            match r {
                Some(value) => is_field(self@, index as int, key@, value@),
                None => forall|value: DatumModel| !is_field(self@, index as int, key@, value),
            },
    {
        match self {
            Datum::Dict(entries) => {
                proof {
                    lemma_dict_view(*entries);
                }
                if index >= entries.len() {
                    return None;
                }
                let entry = &entries[index];
                match &entry.0 {
                    Datum::Text(name) => {
                        if *name == String::from_str(key) {
                            Some(&entry.1)
                        } else {
                            None
                        }
                    },
                    _ => None,
                }
            },
            _ => None,
        }
    }

    /// Returns the value of entry `index` if this is a dictionary, that
    /// entry's key is the text `key` and its value an integer from 0 to `max`.
    pub fn unsigned_at(&self, index: usize, key: &str, max: u64) -> (r: Option<u64>)
        ensures
            match r {
                Some(x) => x <= max && is_field(
                    self@,
                    index as int,
                    key@,
                    DatumModel::Integer(x as int),
                ),
                None => forall|x: int|
                    0 <= x <= max ==> !#[trigger] is_field(
                        self@,
                        index as int,
                        key@,
                        DatumModel::Integer(x),
                    ),
            },
    {
        match self.field_at(index, key) {
            Some(Datum::Integer(i)) => {
                if 0 <= *i && *i <= max as i128 {
                    Some(*i as u64)
                } else {
                    None
                }
            },
            _ => None,
        }
    }
}

/// Builds a record of unsigned fields, behind a type tag if one is given.
pub fn unsigned_record(tag: Option<&str>, fields: &[(&str, u64)]) -> (d: Datum)
    ensures
        d@ == unsigned_record_model(tag_view(tag), field_keys(fields@), field_values(fields@)),
{
    let ghost target = record_entries(
        tag_fields(tag_view(tag)) + unsigned_fields(field_keys(fields@), field_values(fields@)),
    );
    let mut entries: Vec<(Datum, Datum)> = Vec::new();
    if let Some(t) = tag {
        entries.push((Datum::text(TYPE_KEY), Datum::text(t)));
    }
    let ghost offset = entries@.len();
    let mut i: usize = 0;
    while i < fields.len()
        invariant
            i <= fields@.len(),
            offset == tag_fields(tag_view(tag)).len(),
            target == record_entries(
                tag_fields(tag_view(tag)) + unsigned_fields(
                    field_keys(fields@),
                    field_values(fields@),
                ),
            ),
            entries@.len() == offset + i,
            forall|j: int| 0 <= j < entries@.len() ==> entry_views(entries@)[j] == target[j],
        decreases fields.len() - i,
    {
        entries.push((Datum::text(fields[i].0), Datum::unsigned(fields[i].1)));
        proof {
            let all = tag_fields(tag_view(tag)) + unsigned_fields(
                field_keys(fields@),
                field_values(fields@),
            );
            assert(all[offset + i] == (fields@[i as int].0@, DatumModel::Integer(fields@[i as int].1 as int)));
        }
        i += 1;
    }
    proof {
        lemma_dict_view(entries);
        assert(entry_views(entries@) =~= target);
    }
    Datum::Dict(entries)
}

/// Reads a record of unsigned fields: succeeds exactly on a record that has
/// the given tag, if any, then the given keys in their order and nothing
/// else, with every value between 0 and `max`.
pub fn read_unsigned_record(d: &Datum, tag: Option<&str>, keys: &[&str], max: u64) -> (r: Option<
    Vec<u64>,
>)
    ensures
        match r {
            Some(values) => {
                &&& values@.len() == keys@.len()
                &&& forall|i: int| 0 <= i < values@.len() ==> values@[i] <= max
                &&& d@ == unsigned_record_model(
                    tag_view(tag),
                    key_views(keys@),
                    Seq::new(values@.len(), |i: int| values@[i] as int),
                )
            },
            None => forall|values: Seq<int>|
                values.len() == keys@.len() && all_within(values, max as int) ==> d@
                    != #[trigger] unsigned_record_model(tag_view(tag), key_views(keys@), values),
        },
{
    let ghost tagv = tag_view(tag);
    let ghost keyv = key_views(keys@);
    let entries = match d {
        Datum::Dict(entries) => entries,
        _ => {
            return None;
        },
    };
    proof {
        lemma_dict_view(*entries);
    }
    let offset: usize = match tag {
        Some(_) => 1,
        None => 0,
    };
    if entries.len() < offset || entries.len() - offset != keys.len() {
        proof {
            assert forall|values: Seq<int>|
                values.len() == keys@.len() && all_within(values, max as int) implies d@
                != #[trigger] unsigned_record_model(tagv, keyv, values) by {
                lemma_record_fields(tag_fields(tagv) + unsigned_fields(keyv, values));
            }
        }
        return None;
    }
    if let Some(t) = tag {
        let tagged = match d.field_at(0, TYPE_KEY) {
            Some(Datum::Text(name)) => *name == String::from_str(t),
            _ => false,
        };
        if !tagged {
            proof {
                assert forall|values: Seq<int>|
                    values.len() == keys@.len() && all_within(values, max as int) implies d@
                    != #[trigger] unsigned_record_model(tagv, keyv, values) by {
                    let fields = tag_fields(tagv) + unsigned_fields(keyv, values);
                    lemma_record_fields(fields);
                    if d@ == record(fields) {
                        assert(is_field(d@, 0, fields[0].0, fields[0].1));
                    }
                }
            }
            return None;
        }
    }
    let mut values: Vec<u64> = Vec::new();
    let mut i: usize = 0;
    while i < keys.len()
        invariant
            i <= keys@.len(),
            values@.len() == i,
            entries@.len() == offset + keys@.len(),
            d == Datum::Dict(*entries),
            d@ == DatumModel::Dict(entry_views(entries@)),
            offset == tag_fields(tagv).len(),
            tagv == tag_view(tag),
            keyv == key_views(keys@),
            forall|j: int| 0 <= j < offset ==> is_field(d@, j, tag_fields(tagv)[j].0, tag_fields(tagv)[j].1),
            forall|j: int| 0 <= j < i ==> values@[j] <= max && is_field(
                d@,
                offset + j,
                keyv[j],
                DatumModel::Integer(#[trigger] values@[j] as int),
            ),
        decreases keys.len() - i,
    {
        match d.unsigned_at(offset + i, keys[i], max) {
            Some(x) => {
                values.push(x);
            },
            None => {
                proof {
                    assert forall|vals: Seq<int>|
                        vals.len() == keys@.len() && all_within(vals, max as int) implies d@
                        != #[trigger] unsigned_record_model(tagv, keyv, vals) by {
                        let fields = tag_fields(tagv) + unsigned_fields(keyv, vals);
                        lemma_record_fields(fields);
                        if d@ == record(fields) {
                            assert(fields[offset + i] == (keyv[i as int], DatumModel::Integer(vals[i as int])));
                            assert(is_field(d@, offset + i, fields[offset + i].0, fields[offset + i].1));
                            assert(0 <= vals[i as int] <= max);
                        }
                    }
                }
                return None;
            },
        }
        i += 1;
    }
    proof {
        let ints = Seq::new(values@.len(), |i: int| values@[i] as int);
        let fields = tag_fields(tagv) + unsigned_fields(keyv, ints);
        assert forall|j: int| 0 <= j < fields.len() implies is_field(
            d@,
            j,
            fields[j].0,
            #[trigger] fields[j].1,
        ) by {
            if j >= offset {
                assert(fields[j] == (keyv[j - offset], DatumModel::Integer(values@[j - offset] as int)));
            }
        }
        lemma_record_from_fields(d@, fields);
    }
    Some(values)
}

/// A typed value that can be written as a [`Datum`] and read back from one.
///
/// `datum` says which datum stands for a value. Reading is strict: it
/// succeeds on exactly the data that stand for some value of the type.
pub trait Payload: Sized {
    /// The datum that stands for this value.
    spec fn datum(&self) -> DatumModel;

    /// Writes this value as a datum.
    fn to_datum(&self) -> (d: Datum)
        ensures
            d@ == self.datum(),
    ;

    /// Reads a value from the datum that stands for it.
    fn from_datum(d: &Datum) -> (r: Option<Self>)
        ensures
            match r {
                Some(value) => value.datum() == d@,
                None => forall|value: Self| #[trigger] value.datum() != d@,
            },
    ;
}

/// Why a value could not be turned into bytes or bytes into a value.
#[derive(Debug)]
pub enum CodecError {
    /// The encoder refused the value; the text is the encoder's message.
    SerializationError(String),
    /// The bytes are not an encoding, or not one of a value of the expected
    /// type; the text says which.
    DeserializationError(String),
    /// There was no frame to decode.
    EmptyStack,
}

/// `ciborium::value::Value`, the encoder's own tree of values. It is opaque
/// here: a value of it is only made from a datum, handed to the encoder, got
/// from the decoder and turned into a datum.
#[verifier::external_type_specification]
#[verifier::external_body]
pub struct ExValue(ciborium::value::Value);

/// The bytes that `ciborium::ser::into_writer` writes for a datum, or `None`
/// where it reports an error.
pub uninterp spec fn cbor_encoding(d: DatumModel) -> Option<Seq<u8>>;

/// The datum that `ciborium::de::from_reader` reads from the front of some
/// bytes, or `None` where it reports an error or reads a float or a tagged
/// value, which a datum cannot hold.
pub uninterp spec fn cbor_decoding(bytes: Seq<u8>) -> Option<DatumModel>;

/// Turns a datum into a `ciborium::value::Value`, variant by variant; an
/// integer goes through `Value::from`. Nothing is claimed of the result.
#[verifier::external_body]
fn outside_value(d: &Datum) -> Value {
    match d {
        Datum::Null => Value::Null,
        Datum::Bool(b) => Value::Bool(*b),
        Datum::Integer(i) => Value::from(*i),
        Datum::Bytes(b) => Value::Bytes(b.clone()),
        Datum::Text(s) => Value::Text(s.clone()),
        Datum::Array(items) => Value::Array(items.iter().map(outside_value).collect()),
        Datum::Dict(entries) => Value::Map(entries.iter().map(outside_pair).collect()),
    }
}

/// Turns both halves of a dictionary entry into `ciborium::value::Value`s.
/// Nothing is claimed of the result.
#[verifier::external_body]
fn outside_pair(entry: &(Datum, Datum)) -> (Value, Value) {
    (outside_value(&entry.0), outside_value(&entry.1))
}

/// Turns a `ciborium::value::Value` into a datum, variant by variant, or
/// into `None` where it holds a float or a tag. Nothing is claimed of the result.
#[verifier::external_body]
fn inside_datum(v: Value) -> Option<Datum> {
    Some(match v {
        Value::Null => Datum::Null,
        Value::Bool(b) => Datum::Bool(b),
        Value::Integer(i) => Datum::Integer(i.into()),
        Value::Bytes(b) => Datum::Bytes(b),
        Value::Text(s) => Datum::Text(s),
        Value::Array(items) => Datum::Array(items.into_iter().map(inside_datum).collect::<Option<_>>()?),
        Value::Map(entries) => Datum::Dict(entries.into_iter().map(inside_pair).collect::<Option<_>>()?),
        _ => return None,
    })
}

/// Turns both halves of a `ciborium::value::Value` map entry into data.
/// Nothing is claimed of the result.
#[verifier::external_body]
fn inside_pair(entry: (Value, Value)) -> Option<(Datum, Datum)> {
    Some((inside_datum(entry.0)?, inside_datum(entry.1)?))
}

/// Calls `ciborium::ser::into_writer` on the datum, writing into a fresh
/// vector, and hands back the bytes or the text of the error. The contract
/// names what was written: the same datum always gives the same bytes or,
/// each time, an error.
#[verifier::external_body]
fn cbor_encode(d: &Datum) -> (r: Result<Vec<u8>, String>)
    ensures
        match r {
            Ok(bytes) => cbor_encoding(d@) == Some(bytes@),
            Err(_) => cbor_encoding(d@) is None,
        },
{
    let mut out = Vec::new();
    match ciborium::ser::into_writer(&outside_value(d), &mut out) {
        Ok(()) => Ok(out),
        Err(e) => Err(format!("{}", e)),
    }
}

/// Calls `ciborium::de::from_reader` on the bytes, which reads one value from
/// their front, and hands back the datum, if the value is one, or the text of
/// the error. The contract names what was read: the same bytes always give the
/// same datum or, each time, none.
#[verifier::external_body]
fn cbor_decode(bytes: &[u8]) -> (r: Result<Option<Datum>, String>)
    ensures
        match r {
            Ok(Some(d)) => cbor_decoding(bytes@) == Some(d@),
            _ => cbor_decoding(bytes@) is None,
        },
{
    match ciborium::de::from_reader::<Value, &[u8]>(bytes) {
        Ok(value) => Ok(inside_datum(value)),
        Err(e) => Err(format!("{}", e)),
    }
}

/// The bytes of `bytes` are an encoding of `value`.
pub open spec fn decodes_to<T: Payload>(bytes: Seq<u8>, value: T) -> bool {
    cbor_decoding(bytes) == Some(value.datum())
}

/// Encodes a datum.
pub fn encode_datum(d: &Datum) -> (r: Result<Vec<u8>, CodecError>)
    ensures
        match r {
            Ok(bytes) => cbor_encoding(d@) == Some(bytes@),
            Err(e) => e is SerializationError && cbor_encoding(d@) is None,
        },
{
    match cbor_encode(d) {
        Ok(bytes) => Ok(bytes),
        Err(text) => Err(CodecError::SerializationError(text)),
    }
}

/// Decodes the datum at the front of `bytes`.
pub fn decode_datum(bytes: &[u8]) -> (r: Result<Datum, CodecError>)
    ensures
        match r {
            Ok(d) => cbor_decoding(bytes@) == Some(d@),
            Err(e) => e is DeserializationError && cbor_decoding(bytes@) is None,
        },
{
    match cbor_decode(bytes) {
        Ok(Some(d)) => Ok(d),
        Ok(None) => Err(
            CodecError::DeserializationError(String::from_str("value outside the data model")),
        ),
        Err(text) => Err(CodecError::DeserializationError(text)),
    }
}

/// Converts a value to bytes.
pub fn to_bytes<T: Payload>(value: &T) -> (r: Result<Vec<u8>, CodecError>)
    ensures
        match r {
            Ok(bytes) => cbor_encoding(value.datum()) == Some(bytes@),
            Err(e) => e is SerializationError && cbor_encoding(value.datum()) is None,
        },
{
    let d = value.to_datum();
    encode_datum(&d)
}

/// Converts bytes to a value: succeeds exactly where the bytes decode to the
/// datum of some value of the type, and returns such a value.
pub fn from_bytes<T: Payload>(bytes: &[u8]) -> (r: Result<T, CodecError>)
    ensures
        match r {
            Ok(value) => decodes_to(bytes@, value),
            Err(e) => e is DeserializationError && forall|value: T| !#[trigger] decodes_to(bytes@, value),
        },
{
    let d = decode_datum(bytes)?;
    match T::from_datum(&d) {
        Some(value) => Ok(value),
        None => Err(
            CodecError::DeserializationError(String::from_str("datum of another type")),
        ),
    }
}

} // verus!
