use std::collections::HashMap;

use minecraft_assets::BlockStates;
use minecraft_assets::Case;
use minecraft_assets::Condition;
use minecraft_assets::ModelProperties;
use minecraft_assets::StateValue;
use minecraft_assets::Variant;
use minecraft_assets::WhenClause;

fn properties(model: &str) -> ModelProperties {
    ModelProperties {
        model: String::from(model),
        ..Default::default()
    }
}

#[test]
fn variants_accessor() {
    let mut variants = HashMap::new();
    variants.insert(
        String::from(""),
        Variant::Single(properties("block/oak_planks")),
    );
    let states = BlockStates::Variants { variants };

    let map = states.variants().unwrap();
    assert_eq!(map.len(), 1);
    assert_eq!(map[""].models()[0].model, "block/oak_planks");
    assert!(states.cases().is_none());
}

#[test]
fn multiple_variants_by_state() {
    let mut variants = HashMap::new();
    variants.insert(
        String::from("powered=false"),
        Variant::Single(properties("block/stone_pressure_plate")),
    );
    variants.insert(
        String::from("powered=true"),
        Variant::Single(properties("block/stone_pressure_plate_down")),
    );
    let states = BlockStates::Variants { variants };

    let map = states.variants().unwrap();
    assert_eq!(map.len(), 2);
    assert_eq!(
        map["powered=false"].models()[0].model,
        "block/stone_pressure_plate"
    );
    assert_eq!(
        map["powered=true"].models()[0].model,
        "block/stone_pressure_plate_down"
    );
}

#[test]
fn cases_accessor() {
    let mut and = HashMap::new();
    and.insert(String::from("up"), StateValue::Bool(true));
    let case = Case {
        when: Some(WhenClause::Single(Condition { and })),
        apply: Variant::Single(properties("block/mossy_cobblestone_wall_post")),
    };
    let states = BlockStates::Multipart { multipart: vec![case] };

    assert!(states.variants().is_none());
    let cases = states.cases().unwrap();
    assert_eq!(cases.len(), 1);
    let when = cases[0].when.as_ref().unwrap();
    let conditions = when.conditions();
    assert_eq!(conditions.len(), 1);
    assert_eq!(conditions[0].and["up"], StateValue::Bool(true));
    assert_eq!(
        cases[0].apply.models()[0].model,
        "block/mossy_cobblestone_wall_post"
    );
}

#[test]
fn or_clause_lists_all_conditions() {
    let mut first = HashMap::new();
    first.insert(String::from("north"), StateValue::String(String::from("none")));
    let mut second = HashMap::new();
    second.insert(String::from("north"), StateValue::String(String::from("side|up")));
    second.insert(String::from("east"), StateValue::String(String::from("side|up")));

    let clause = WhenClause::Or(vec![
        Condition { and: first },
        Condition { and: second },
    ]);
    let conditions = clause.conditions();
    assert_eq!(conditions.len(), 2);
    assert_eq!(
        conditions[0].and["north"],
        StateValue::String(String::from("none"))
    );
    assert_eq!(conditions[1].and.len(), 2);
}

#[test]
fn variant_models_single_and_multiple() {
    let single = Variant::Single(properties("block/stone"));
    assert_eq!(single.models().len(), 1);

    let multiple = Variant::Multiple(vec![
        properties("block/stone"),
        ModelProperties {
            y: 180,
            ..properties("block/stone_mirrored")
        },
    ]);
    let models = multiple.models();
    assert_eq!(models.len(), 2);
    assert_eq!(models[0].model, "block/stone");
    assert_eq!(models[1].model, "block/stone_mirrored");
    assert_eq!(models[1].y, 180);
}

#[test]
fn documented_defaults() {
    let p = ModelProperties::default();
    assert_eq!(p.model, "");
    assert_eq!(p.x, 0);
    assert_eq!(p.y, 0);
    assert!(!p.uv_lock);
    assert_eq!(p.weight, 1);
    assert_eq!(ModelProperties::default_rotation(), 0);
    assert!(!ModelProperties::default_uv_lock());
    assert_eq!(ModelProperties::default_weight(), 1);

    let v = Variant::default();
    assert_eq!(v.models().len(), 1);
    assert_eq!(v.models()[0].model, "");

    let s = BlockStates::default();
    assert_eq!(s.variants().unwrap().len(), 0);

    let c = Condition::default();
    assert_eq!(c.and.len(), 0);
}
