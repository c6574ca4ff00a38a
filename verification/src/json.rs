use vstd::prelude::*;

use crate::allocator::Bakery;
use crate::error::RecipeParseError;
use crate::ingredients::IngredientMap;

verus! {

/// A decoded JSON document, as a closed tagged value.
///
/// A number is carried as the non-negative integer it denotes when it
/// denotes one within `u64` range, and as `None` otherwise: the quantity
/// coercion below reads nothing finer than that.
#[derive(Debug, PartialEq, Eq)]
pub enum JsonValue {
    Null,
    Bool(bool),
    Number(Option<u64>),
    Text(String),
    Array(Vec<JsonValue>),
    Object(Vec<(String, JsonValue)>),
}

/// The value at a field name in an object's entry list; a later entry with
/// the same name overrides an earlier one.
pub open spec fn lookup_field(
    entries: Seq<(String, JsonValue)>,
    name: Seq<char>,
) -> Option<JsonValue>
    decreases entries.len(),
{
    if entries.len() == 0 {
        None
    } else if entries.last().0@ == name {
        Some(entries.last().1)
    } else {
        lookup_field(entries.drop_last(), name)
    }
}

/// Finds the value at a field name, scanning from the overriding end.
fn lookup_entry<'a>(entries: &'a Vec<(String, JsonValue)>, name: &String) -> (r: Option<
    &'a JsonValue,
>)
    ensures
        match r {
            Some(v) => lookup_field(entries@, name@) == Some(*v),
            None => lookup_field(entries@, name@) is None,
        },
{
    proof {
        assert(entries@.take(entries@.len() as int) =~= entries@);
    }
    let mut i = entries.len();
    while i > 0
        invariant
            i <= entries@.len(),
            lookup_field(entries@, name@) == lookup_field(entries@.take(i as int), name@),
        decreases i,
    {
        i -= 1;
        proof {
            assert(entries@.take(i as int + 1).last() == entries@[i as int]);
            assert(entries@.take(i as int + 1).drop_last() =~= entries@.take(i as int));
        }
        let hit: bool = entries[i].0 == *name;
        if hit {
            return Some(&entries[i].1);
        }
    }
    None
}

/// The non-negative integer a JSON value stands for as a quantity: the value
/// of an exact in-range number, and zero for everything else.
pub open spec fn spec_quantity(v: JsonValue) -> u64 {
    match v {
        JsonValue::Number(Some(q)) => q,
        _ => 0,
    }
}

/// Coerces a JSON value to an ingredient quantity.
///
/// The coercion is lenient by design: a fractional, negative or out-of-range
/// number, or a value of any other shape, counts as zero rather than failing.
pub fn coerce_quantity(v: &JsonValue) -> (q: u64)
    ensures
        q == spec_quantity(*v),
{
    match v {
        JsonValue::Number(Some(q)) => *q,
        _ => 0,
    }
}

/// The ingredient map an object's entries describe: each field name mapped to
/// the quantity its value coerces to; a later entry overrides an earlier one.
pub open spec fn quantities_of(entries: Seq<(String, JsonValue)>) -> Map<Seq<char>, u64>
    decreases entries.len(),
{
    if entries.len() == 0 {
        Map::empty()
    } else {
        quantities_of(entries.drop_last()).insert(
            entries.last().0@,
            spec_quantity(entries.last().1),
        )
    }
}

/// Builds the ingredient map an object's entries describe.
fn object_to_map(entries: &Vec<(String, JsonValue)>) -> (m: IngredientMap)
    ensures
        m.wf(),
        m@ == quantities_of(entries@),
{
    let mut m = IngredientMap::new();
    let n = entries.len();
    let mut i: usize = 0;
    while i < n
        invariant
            i <= n,
            n == entries@.len(),
            m.wf(),
            m@ == quantities_of(entries@.take(i as int)),
        decreases n - i,
    {
        let q = coerce_quantity(&entries[i].1);
        m.insert(entries[i].0.clone(), q);
        proof {
            assert(entries@.take(i as int + 1).last() == entries@[i as int]);
            assert(entries@.take(i as int + 1).drop_last() =~= entries@.take(i as int));
        }
        i += 1;
    }
    proof {
        assert(entries@.take(n as int) =~= entries@);
    }
    m
}

/// The document's field of the given name, when the document is an object.
pub open spec fn object_field(doc: JsonValue, name: Seq<char>) -> Option<JsonValue> {
    if doc is Object {
        lookup_field(doc->Object_0@, name)
    } else {
        None
    }
}

/// The document holds the two required mappings: it is an object whose
/// `recipe` and `pantry` fields are present and are themselves objects.
pub open spec fn schema_ok(doc: JsonValue) -> bool {
    &&& doc is Object
    &&& object_field(doc, "recipe"@) matches Some(r) && r is Object
    &&& object_field(doc, "pantry"@) matches Some(p) && p is Object
}

/// The entries of the document's `recipe` object, when the schema holds.
pub open spec fn recipe_object_entries(doc: JsonValue) -> Seq<(String, JsonValue)> {
    object_field(doc, "recipe"@)->Some_0->Object_0@
}

/// The entries of the document's `pantry` object, when the schema holds.
pub open spec fn pantry_object_entries(doc: JsonValue) -> Seq<(String, JsonValue)> {
    object_field(doc, "pantry"@)->Some_0->Object_0@
}

/// Splits a decoded document into its recipe and pantry ingredient maps.
///
/// Succeeds exactly when the document is an object holding `recipe` and
/// `pantry` object fields; each field entry becomes an ingredient with the
/// quantity its value leniently coerces to.  Any other shape is the schema
/// failure.
pub fn split_recipe_from_pantry(input: JsonValue) -> (r: Result<Bakery, RecipeParseError>)
    ensures
        r is Ok <==> schema_ok(input),
        r is Err ==> r->Err_0 == RecipeParseError::SchemaError,
        r matches Ok(b) ==> {
            &&& b.wf()
            &&& b.recipe@ == quantities_of(recipe_object_entries(input))
            &&& b.pantry@ == quantities_of(pantry_object_entries(input))
        },
{
    let entries = match input {
        JsonValue::Object(entries) => entries,
        _ => {
            return Err(RecipeParseError::SchemaError);
        },
    };
    let recipe_name: String = "recipe".to_owned();
    let pantry_name: String = "pantry".to_owned();
    let recipe_entries = match lookup_entry(&entries, &recipe_name) {
        Some(JsonValue::Object(o)) => o,
        _ => {
            return Err(RecipeParseError::SchemaError);
        },
    };
    let pantry_entries = match lookup_entry(&entries, &pantry_name) {
        Some(JsonValue::Object(o)) => o,
        _ => {
            return Err(RecipeParseError::SchemaError);
        },
    };
    let recipe = object_to_map(recipe_entries);
    let pantry = object_to_map(pantry_entries);
    Ok(Bakery { recipe, pantry })
}

} // verus!
