use bakery::allocator::{calculate_cookies, BakeReply, Bakery};
use bakery::codec::{bake, decode, decode_built_token, encode_token};
use bakery::error::RecipeParseError;
use bakery::ingredients::IngredientMap;
use bakery::json::{coerce_quantity, split_recipe_from_pantry, JsonValue};

fn map_of(pairs: &[(&str, u64)]) -> IngredientMap {
    let mut m = IngredientMap::new();
    for (name, qty) in pairs {
        m.insert(name.to_string(), *qty);
    }
    m
}

fn qty(m: &IngredientMap, name: &str) -> Option<u64> {
    m.get(&name.to_string())
}

fn token_for(json: &[u8]) -> Vec<u8> {
    encode_token(&b"recipe".to_vec(), &json.to_vec())
}

#[test]
fn ingredient_map_insert_and_get() {
    let mut m = IngredientMap::new();
    assert_eq!(m.len(), 0);
    assert_eq!(qty(&m, "flour"), None);
    m.insert("flour".to_string(), 3);
    m.insert("sugar".to_string(), 7);
    assert_eq!(m.len(), 2);
    assert_eq!(qty(&m, "flour"), Some(3));
    assert_eq!(qty(&m, "sugar"), Some(7));
    m.insert("flour".to_string(), 11);
    assert_eq!(m.len(), 2);
    assert_eq!(qty(&m, "flour"), Some(11));
}

#[test]
fn bakery_default_is_empty() {
    let b = Bakery::default();
    assert_eq!(b.recipe.len(), 0);
    assert_eq!(b.pantry.len(), 0);
}

#[test]
fn single_ingredient_scenario() {
    let reply = calculate_cookies(Bakery {
        recipe: map_of(&[("flour", 2)]),
        pantry: map_of(&[("flour", 5)]),
    });
    assert_eq!(reply.cookies, 2);
    assert_eq!(reply.pantry.len(), 1);
    assert_eq!(qty(&reply.pantry, "flour"), Some(1));
}

#[test]
fn missing_ingredient_returns_pantry_unchanged() {
    let reply = calculate_cookies(Bakery {
        recipe: map_of(&[("flour", 2), ("sugar", 1)]),
        pantry: map_of(&[("flour", 5)]),
    });
    assert_eq!(reply.cookies, 0);
    assert_eq!(reply.pantry.len(), 1);
    assert_eq!(qty(&reply.pantry, "flour"), Some(5));
}

#[test]
fn short_stock_returns_pantry_unchanged() {
    let reply = calculate_cookies(Bakery {
        recipe: map_of(&[("flour", 2), ("sugar", 4)]),
        pantry: map_of(&[("flour", 9), ("sugar", 3), ("salt", 6)]),
    });
    assert_eq!(reply.cookies, 0);
    assert_eq!(reply.pantry.len(), 3);
    assert_eq!(qty(&reply.pantry, "flour"), Some(9));
    assert_eq!(qty(&reply.pantry, "sugar"), Some(3));
    assert_eq!(qty(&reply.pantry, "salt"), Some(6));
}

#[test]
fn count_is_minimum_over_ingredients() {
    let reply = calculate_cookies(Bakery {
        recipe: map_of(&[("flour", 3), ("sugar", 2), ("butter", 1)]),
        pantry: map_of(&[("flour", 10), ("sugar", 9), ("butter", 5), ("salt", 1)]),
    });
    assert_eq!(reply.cookies, 3);
    assert_eq!(reply.pantry.len(), 3);
    assert_eq!(qty(&reply.pantry, "flour"), Some(1));
    assert_eq!(qty(&reply.pantry, "sugar"), Some(3));
    assert_eq!(qty(&reply.pantry, "butter"), Some(2));
    assert_eq!(qty(&reply.pantry, "salt"), None);
}

#[test]
fn empty_recipe_produces_nothing() {
    let reply = calculate_cookies(Bakery {
        recipe: IngredientMap::new(),
        pantry: map_of(&[("flour", 5)]),
    });
    assert_eq!(reply.cookies, 0);
    assert_eq!(reply.pantry.len(), 0);
}

#[test]
fn zero_requirement_bounds_nothing() {
    let reply = calculate_cookies(Bakery {
        recipe: map_of(&[("flour", 0), ("sugar", 2)]),
        pantry: map_of(&[("flour", 1), ("sugar", 10)]),
    });
    assert_eq!(reply.cookies, 5);
    assert_eq!(qty(&reply.pantry, "flour"), Some(1));
    assert_eq!(qty(&reply.pantry, "sugar"), Some(0));
}

#[test]
fn all_zero_recipe_produces_nothing() {
    let reply = calculate_cookies(Bakery {
        recipe: map_of(&[("flour", 0)]),
        pantry: map_of(&[("flour", 5)]),
    });
    assert_eq!(reply.cookies, 0);
    assert_eq!(qty(&reply.pantry, "flour"), Some(5));
}

fn replies_equal(a: &BakeReply, b: &BakeReply) -> bool {
    if a.cookies != b.cookies || a.pantry.len() != b.pantry.len() {
        return false;
    }
    for i in 0..a.pantry.len() {
        let pair = a.pantry.pair_at(i);
        if b.pantry.get(&pair.0) != Some(pair.1) {
            return false;
        }
    }
    true
}

#[test]
fn computing_twice_gives_identical_results() {
    let make = || Bakery {
        recipe: map_of(&[("flour", 3), ("sugar", 2)]),
        pantry: map_of(&[("flour", 10), ("sugar", 9)]),
    };
    let first = calculate_cookies(make());
    let second = calculate_cookies(make());
    assert!(replies_equal(&first, &second));
}

#[test]
fn token_round_trip_reproduces_document() {
    let json = br#"{"recipe":{"flour":2},"pantry":{"flour":5}}"#;
    let doc = decode(&token_for(json)).expect("built token must decode");
    let expected = JsonValue::Object(vec![
        (
            "pantry".to_string(),
            JsonValue::Object(vec![("flour".to_string(), JsonValue::Number(Some(5)))]),
        ),
        (
            "recipe".to_string(),
            JsonValue::Object(vec![("flour".to_string(), JsonValue::Number(Some(2)))]),
        ),
    ]);
    assert_eq!(doc, expected);
}

#[test]
fn built_token_has_expected_text() {
    let token = encode_token(&b"r".to_vec(), &b"{}".to_vec());
    assert_eq!(token, b"r=e30=".to_vec());
}

#[test]
fn round_trip_helper_agrees_with_decode() {
    let json = br#"{"a":null,"b":[true,"x"]}"#.to_vec();
    let through = decode_built_token(&b"recipe".to_vec(), &json);
    let direct = decode(&token_for(&json));
    assert_eq!(through, direct);
    assert!(through.is_ok());
}

#[test]
fn token_without_separator_is_malformed() {
    assert_eq!(
        decode(&b"no separator here".to_vec()),
        Err(RecipeParseError::MalformedToken)
    );
}

#[test]
fn invalid_base64_is_encoding_error() {
    assert_eq!(
        decode(&b"recipe=not-base64!!".to_vec()),
        Err(RecipeParseError::EncodingError)
    );
}

#[test]
fn non_json_payload_is_format_error() {
    let token = token_for(b"this is not json");
    assert_eq!(decode(&token), Err(RecipeParseError::FormatError));
}

#[test]
fn missing_pantry_field_is_schema_error() {
    let token = token_for(br#"{"recipe":{"flour":2}}"#);
    assert!(decode(&token).is_ok());
    match bake(&token) {
        Err(e) => assert_eq!(e, RecipeParseError::SchemaError),
        Ok(_) => panic!("schema failure expected"),
    }
}

#[test]
fn non_object_document_is_schema_error() {
    let doc = JsonValue::Array(vec![JsonValue::Null]);
    match split_recipe_from_pantry(doc) {
        Err(e) => assert_eq!(e, RecipeParseError::SchemaError),
        Ok(_) => panic!("schema failure expected"),
    }
}

#[test]
fn lenient_coercion_defaults_to_zero() {
    assert_eq!(coerce_quantity(&JsonValue::Number(Some(4))), 4);
    assert_eq!(coerce_quantity(&JsonValue::Number(None)), 0);
    assert_eq!(coerce_quantity(&JsonValue::Text("5".to_string())), 0);
    assert_eq!(coerce_quantity(&JsonValue::Null), 0);
    assert_eq!(coerce_quantity(&JsonValue::Bool(true)), 0);
}

#[test]
fn split_reads_both_objects_leniently() {
    let token = token_for(br#"{"recipe":{"flour":2,"salt":"x"},"pantry":{"flour":5}}"#);
    let doc = decode(&token).expect("token decodes");
    let bakery = split_recipe_from_pantry(doc).expect("schema holds");
    assert_eq!(qty(&bakery.recipe, "flour"), Some(2));
    assert_eq!(qty(&bakery.recipe, "salt"), Some(0));
    assert_eq!(qty(&bakery.pantry, "flour"), Some(5));
}

#[test]
fn bake_full_pipeline() {
    let token = token_for(br#"{"recipe":{"flour":2,"sugar":1},"pantry":{"flour":9,"sugar":4,"chocolate":3}}"#);
    let reply = bake(&token).expect("feasible bake");
    assert_eq!(reply.cookies, 4);
    assert_eq!(reply.pantry.len(), 2);
    assert_eq!(qty(&reply.pantry, "flour"), Some(1));
    assert_eq!(qty(&reply.pantry, "sugar"), Some(0));
    assert_eq!(qty(&reply.pantry, "chocolate"), None);
}

#[test]
fn bake_twice_gives_identical_results() {
    let token = token_for(br#"{"recipe":{"flour":2},"pantry":{"flour":5}}"#);
    let first = bake(&token).expect("feasible bake");
    let second = bake(&token).expect("feasible bake");
    assert!(replies_equal(&first, &second));
}

#[test]
fn fractional_quantities_coerce_to_zero_in_decode() {
    let token = token_for(br#"{"recipe":{"flour":1.5},"pantry":{"flour":5}}"#);
    let reply = bake(&token).expect("schema holds");
    assert_eq!(reply.cookies, 0);
    assert_eq!(qty(&reply.pantry, "flour"), Some(5));
}

#[test]
fn error_descriptions_are_distinct() {
    let all = [
        RecipeParseError::MalformedToken,
        RecipeParseError::EncodingError,
        RecipeParseError::FormatError,
        RecipeParseError::SchemaError,
    ];
    for (i, a) in all.iter().enumerate() {
        for (j, b) in all.iter().enumerate() {
            assert_eq!(i == j, a.describe() == b.describe());
        }
    }
}
