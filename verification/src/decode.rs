//! Reading single fields out of a reply.
//!
//! A field that is absent and a field of the wrong type are told apart, and
//! the error names the field.

use vstd::prelude::*;

use crate::error::{Error, Fault, Field};
use crate::json::{Json, JsonView};
use crate::kind::{Type, type_of_code};
use crate::views::views;

verus! {

/// The error for a field that is not there.
pub open spec fn missing(field: Field) -> Error {
    Error::Protocol(Fault::Missing(field))
}

/// The error for a field that holds the wrong kind of value.
pub open spec fn wrong_type(field: Field) -> Error {
    Error::Protocol(Fault::WrongType(field))
}

/// The value under a field's name.
pub open spec fn field_of(j: JsonView, field: Field) -> Result<JsonView, Error> {
    match j.member(field.wire_name()) {
        Some(v) => Ok(v),
        None => Err(missing(field)),
    }
}

/// A JSON value read as a machine word.
pub open spec fn word_of(v: JsonView, field: Field) -> Result<usize, Error> {
    match v.unsigned() {
        Some(n) => if n <= usize::MAX {
            Ok(n as usize)
        } else {
            Err(wrong_type(field))
        },
        None => Err(wrong_type(field)),
    }
}

/// A JSON value read as the code of a type tag. A code that names no type is
/// refused.
pub open spec fn type_of(v: JsonView, field: Field) -> Result<Type, Error> {
    match v.unsigned() {
        Some(n) => if n <= 255 {
            match type_of_code(n as u8) {
                Some(t) => Ok(t),
                None => Err(wrong_type(field)),
            }
        } else {
            Err(wrong_type(field))
        },
        None => Err(wrong_type(field)),
    }
}

/// The text under a field's name.
pub open spec fn text_field(j: JsonView, field: Field) -> Result<Seq<char>, Error> {
    match field_of(j, field) {
        Ok(v) => match v.text() {
            Some(s) => Ok(s),
            None => Err(wrong_type(field)),
        },
        Err(e) => Err(e),
    }
}

/// The machine word under a field's name.
pub open spec fn word_field(j: JsonView, field: Field) -> Result<usize, Error> {
    match field_of(j, field) {
        Ok(v) => word_of(v, field),
        Err(e) => Err(e),
    }
}

/// The unsigned number under a field's name.
pub open spec fn number_field(j: JsonView, field: Field) -> Result<u64, Error> {
    match field_of(j, field) {
        Ok(v) => match v.unsigned() {
            Some(n) => Ok(n),
            None => Err(wrong_type(field)),
        },
        Err(e) => Err(e),
    }
}

/// The truth value under a field's name.
pub open spec fn flag_field(j: JsonView, field: Field) -> Result<bool, Error> {
    match field_of(j, field) {
        Ok(v) => match v.boolean() {
            Some(b) => Ok(b),
            None => Err(wrong_type(field)),
        },
        Err(e) => Err(e),
    }
}

/// The type tag under a field's name.
pub open spec fn type_field(j: JsonView, field: Field) -> Result<Type, Error> {
    match field_of(j, field) {
        Ok(v) => type_of(v, field),
        Err(e) => Err(e),
    }
}

/// The elements of the array under a field's name.
pub open spec fn list_field(j: JsonView, field: Field) -> Result<Seq<JsonView>, Error> {
    match field_of(j, field) {
        Ok(v) => match v.items() {
            Some(items) => Ok(items),
            None => Err(wrong_type(field)),
        },
        Err(e) => Err(e),
    }
}

/// A run of type codes read as type tags; the first code that fails decides.
pub open spec fn types_of(items: Seq<JsonView>, field: Field) -> Result<Seq<Type>, Error>
    decreases items.len(),
{
    if items.len() == 0 {
        Ok(Seq::empty())
    } else {
        match types_of(items.drop_last(), field) {
            Ok(front) => match type_of(items.last(), field) {
                Ok(t) => Ok(front.push(t)),
                Err(e) => Err(e),
            },
            Err(e) => Err(e),
        }
    }
}

/// A run of numbers read as machine words; the first that fails decides.
pub open spec fn words_of(items: Seq<JsonView>, field: Field) -> Result<Seq<usize>, Error>
    decreases items.len(),
{
    if items.len() == 0 {
        Ok(Seq::empty())
    } else {
        match words_of(items.drop_last(), field) {
            Ok(front) => match word_of(items.last(), field) {
                Ok(n) => Ok(front.push(n)),
                Err(e) => Err(e),
            },
            Err(e) => Err(e),
        }
    }
}

/// The type tags under a field's name.
pub open spec fn types_field(j: JsonView, field: Field) -> Result<Seq<Type>, Error> {
    match list_field(j, field) {
        Ok(items) => types_of(items, field),
        Err(e) => Err(e),
    }
}

/// The machine words under a field's name.
pub open spec fn words_field(j: JsonView, field: Field) -> Result<Seq<usize>, Error> {
    match list_field(j, field) {
        Ok(items) => words_of(items, field),
        Err(e) => Err(e),
    }
}

/// Looks a field up.
pub fn get_field<'a>(j: &'a Json, field: Field) -> (r: Result<&'a Json, Error>)
    ensures
        match r {
            Ok(v) => field_of(j@, field) == Ok::<JsonView, Error>(v@),
            Err(e) => field_of(j@, field) == Err::<JsonView, Error>(e),
        },
{
    match j.get(field.name()) {
        Some(v) => Ok(v),
        None => Err(Error::Protocol(Fault::Missing(field))),
    }
}

/// Reads a JSON number as a machine word.
pub fn get_word(v: &Json, field: Field) -> (r: Result<usize, Error>)
    ensures
        r == word_of(v@, field),
{
    match v.as_u64() {
        Some(n) => if n <= usize::MAX as u64 {
            Ok(n as usize)
        } else {
            Err(Error::Protocol(Fault::WrongType(field)))
        },
        None => Err(Error::Protocol(Fault::WrongType(field))),
    }
}

/// Reads a JSON number as a type tag.
pub fn get_type(v: &Json, field: Field) -> (r: Result<Type, Error>)
    ensures
        r == type_of(v@, field),
{
    match v.as_u64() {
        Some(n) => if n <= 255 {
            match Type::from_code(n as u8) {
                Some(t) => Ok(t),
                None => Err(Error::Protocol(Fault::WrongType(field))),
            }
        } else {
            Err(Error::Protocol(Fault::WrongType(field)))
        },
        None => Err(Error::Protocol(Fault::WrongType(field))),
    }
}

/// Reads the text of a field.
pub fn get_text(j: &Json, field: Field) -> (r: Result<String, Error>)
    ensures
        match r {
            Ok(s) => text_field(j@, field) == Ok::<Seq<char>, Error>(s@),
            Err(e) => text_field(j@, field) == Err::<Seq<char>, Error>(e),
        },
{
    let v = get_field(j, field)?;
    match v.as_str() {
        Some(s) => Ok(s.to_string()),
        None => Err(Error::Protocol(Fault::WrongType(field))),
    }
}

/// Reads the machine word of a field.
pub fn get_word_field(j: &Json, field: Field) -> (r: Result<usize, Error>)
    ensures
        r == word_field(j@, field),
{
    let v = get_field(j, field)?;
    get_word(v, field)
}

/// Reads the unsigned number of a field.
pub fn get_number(j: &Json, field: Field) -> (r: Result<u64, Error>)
    ensures
        r == number_field(j@, field),
{
    let v = get_field(j, field)?;
    match v.as_u64() {
        Some(n) => Ok(n),
        None => Err(Error::Protocol(Fault::WrongType(field))),
    }
}

/// Reads the truth value of a field.
pub fn get_flag(j: &Json, field: Field) -> (r: Result<bool, Error>)
    ensures
        r == flag_field(j@, field),
{
    let v = get_field(j, field)?;
    match v.as_bool() {
        Some(b) => Ok(b),
        None => Err(Error::Protocol(Fault::WrongType(field))),
    }
}

/// Reads the type tag of a field.
pub fn get_type_field(j: &Json, field: Field) -> (r: Result<Type, Error>)
    ensures
        r == type_field(j@, field),
{
    let v = get_field(j, field)?;
    get_type(v, field)
}

/// Reads the elements of the array under a field's name.
pub fn get_list<'a>(j: &'a Json, field: Field) -> (r: Result<&'a Vec<Json>, Error>)
    ensures
        match r {
            Ok(items) => list_field(j@, field) == Ok::<Seq<JsonView>, Error>(views(items@)),
            Err(e) => list_field(j@, field) == Err::<Seq<JsonView>, Error>(e),
        },
{
    let v = get_field(j, field)?;
    match v.as_array() {
        Some(items) => Ok(items),
        None => Err(Error::Protocol(Fault::WrongType(field))),
    }
}

/// Reads the type tags under a field's name.
pub fn get_types(j: &Json, field: Field) -> (r: Result<Vec<Type>, Error>)
    ensures
        match r {
            Ok(types) => types_field(j@, field) == Ok::<Seq<Type>, Error>(types@),
            Err(e) => types_field(j@, field) == Err::<Seq<Type>, Error>(e),
        },
{
    let items = get_list(j, field)?;
    let ghost all = views(items@);
    let mut out: Vec<Type> = Vec::new();
    let mut i: usize = 0;
    proof {
        assert(all.take(0) =~= Seq::<JsonView>::empty());
    }
    while i < items.len()
        invariant
            i <= items.len(),
            all == views(items@),
            list_field(j@, field) == Ok::<Seq<JsonView>, Error>(all),
            types_of(all.take(i as int), field) == Ok::<Seq<Type>, Error>(out@),
        decreases items.len() - i,
    {
        proof {
            assert(all.take(i + 1).drop_last() =~= all.take(i as int));
            assert(all.take(i + 1).last() == items@[i as int]@);
        }
        match get_type(&items[i], field) {
            Ok(t) => {
                out.push(t);
            },
            Err(e) => {
                proof {
                    assert(types_of(all.take(i + 1), field) == Err::<Seq<Type>, Error>(e));
                    failed_type(all, i + 1, field);
                }
                return Err(e);
            },
        }
        i = i + 1;
    }
    proof {
        assert(all.take(items@.len() as int) =~= all);
    }
    Ok(out)
}

/// Reads the machine words under a field's name.
pub fn get_words(j: &Json, field: Field) -> (r: Result<Vec<usize>, Error>)
    ensures
        match r {
            Ok(words) => words_field(j@, field) == Ok::<Seq<usize>, Error>(words@),
            Err(e) => words_field(j@, field) == Err::<Seq<usize>, Error>(e),
        },
{
    let items = get_list(j, field)?;
    let ghost all = views(items@);
    let mut out: Vec<usize> = Vec::new();
    let mut i: usize = 0;
    proof {
        assert(all.take(0) =~= Seq::<JsonView>::empty());
    }
    while i < items.len()
        invariant
            i <= items.len(),
            all == views(items@),
            list_field(j@, field) == Ok::<Seq<JsonView>, Error>(all),
            words_of(all.take(i as int), field) == Ok::<Seq<usize>, Error>(out@),
        decreases items.len() - i,
    {
        proof {
            assert(all.take(i + 1).drop_last() =~= all.take(i as int));
            assert(all.take(i + 1).last() == items@[i as int]@);
        }
        match get_word(&items[i], field) {
            Ok(n) => {
                out.push(n);
            },
            Err(e) => {
                proof {
                    assert(words_of(all.take(i + 1), field) == Err::<Seq<usize>, Error>(e));
                    failed_word(all, i + 1, field);
                }
                return Err(e);
            },
        }
        i = i + 1;
    }
    proof {
        assert(all.take(items@.len() as int) =~= all);
    }
    Ok(out)
}

/// Once a front part of a run of type codes fails, the whole run fails the
/// same way.
pub proof fn failed_type(items: Seq<JsonView>, k: int, field: Field)
    requires
        0 <= k <= items.len(),
        types_of(items.take(k), field) is Err,
    ensures
        types_of(items, field) == types_of(items.take(k), field),
    decreases items.len(),
{
    if k == items.len() {
        assert(items.take(k) =~= items);
    } else {
        assert(items.drop_last().take(k) =~= items.take(k));
        failed_type(items.drop_last(), k, field);
    }
}

/// Once a front part of a run of numbers fails, the whole run fails the same
/// way.
pub proof fn failed_word(items: Seq<JsonView>, k: int, field: Field)
    requires
        0 <= k <= items.len(),
        words_of(items.take(k), field) is Err,
    ensures
        words_of(items, field) == words_of(items.take(k), field),
    decreases items.len(),
{
    if k == items.len() {
        assert(items.take(k) =~= items);
    } else {
        assert(items.drop_last().take(k) =~= items.take(k));
        failed_word(items.drop_last(), k, field);
    }
}

} // verus!
