use minecraft_assets::Model;
use minecraft_assets::ModelLoader;
use minecraft_assets::ModelResolver;
use minecraft_assets::ModelStore;
use minecraft_assets::ResourceKind;
use minecraft_assets::ResourceLocation;
use minecraft_assets::Textures;
use minecraft_assets::WalkError;

fn textures_of(pairs: &[(&str, &str)]) -> Textures {
    let mut t = Textures::new();
    for (name, value) in pairs {
        t.insert(String::from(*name), String::from(*value));
    }
    t
}

fn model(parent: Option<&str>, textures: Option<&[(&str, &str)]>) -> Model {
    Model {
        parent: parent.map(String::from),
        textures: textures.map(textures_of),
    }
}

#[test]
fn walk_visits_child_then_parent_and_stops_at_builtin() {
    // Model A has parent B; model B's parent is the builtin sentinel. The
    // walk visits [A, B] in that order and never tries to load
    // "builtin/generated".
    let mut store = ModelStore::new(ResourceKind::BlockModel);
    store.insert(String::from("a"), model(Some("b"), None));
    store.insert(String::from("b"), model(Some("builtin/generated"), None));

    let start = ResourceLocation::block_model("a");
    let models = ModelResolver::load_model_recursive(&store, &start).unwrap();
    assert_eq!(models.len(), 2);
    assert_eq!(models[0].parent, Some(String::from("b")));
    assert_eq!(models[1].parent, Some(String::from("builtin/generated")));
}

#[test]
fn walk_of_parentless_model_visits_it_alone() {
    // A model without a parent is the whole chain.
    let mut store = ModelStore::new(ResourceKind::BlockModel);
    store.insert(String::from("a"), model(None, None));

    let start = ResourceLocation::block_model("a");
    let models = ModelResolver::load_model_recursive(&store, &start).unwrap();
    assert_eq!(models.len(), 1);
    assert_eq!(models[0].parent, None);
}

#[test]
fn walk_propagates_a_failing_load() {
    let mut store = ModelStore::new(ResourceKind::BlockModel);
    store.insert(String::from("a"), model(Some("missing"), None));

    let start = ResourceLocation::block_model("a");
    let r = ModelResolver::load_model_recursive(&store, &start);
    assert!(matches!(r, Err(WalkError::Load(_))));

    let start = ResourceLocation::block_model("nowhere");
    let r = ModelResolver::load_model_recursive(&store, &start);
    assert!(matches!(r, Err(WalkError::Load(_))));
}

#[test]
fn walk_stops_on_a_cyclic_parent_chain() {
    let mut store = ModelStore::new(ResourceKind::BlockModel);
    store.insert(String::from("a"), model(Some("b"), None));
    store.insert(String::from("b"), model(Some("a"), None));

    let start = ResourceLocation::block_model("a");
    let r = ModelResolver::load_model_recursive(&store, &start);
    assert!(matches!(r, Err(WalkError::Cycle)));

    // A self-referencing model is the shortest cycle.
    let mut store = ModelStore::new(ResourceKind::ItemModel);
    store.insert(String::from("x"), model(Some("x"), None));
    let start = ResourceLocation::item_model("x");
    let r = ModelResolver::load_model_recursive(&store, &start);
    assert!(matches!(r, Err(WalkError::Cycle)));
}

#[test]
fn store_serves_only_its_own_kind() {
    let mut store = ModelStore::new(ResourceKind::BlockModel);
    store.insert(String::from("a"), model(None, None));

    let as_item = ResourceLocation::item_model("a");
    assert!(store.load_model(&as_item).is_err());

    let as_block = ResourceLocation::block_model("a");
    assert!(store.load_model(&as_block).is_ok());
}

#[test]
fn resolve_textures_merges_both_directions() {
    // The documented example: the child binds `bar` to an indirection the
    // parent defines, and the parent binds `foo` to an indirection the child
    // defines. Both resolve, and the child's concrete values are kept.
    let mut store = ModelStore::new(ResourceKind::BlockModel);
    store.insert(
        String::from("child"),
        model(
            Some("parent"),
            Some(&[("child_texture", "textures/child"), ("bar", "#parent_texture")]),
        ),
    );
    store.insert(
        String::from("parent"),
        model(
            None,
            Some(&[("parent_texture", "textures/parent"), ("foo", "#child_texture")]),
        ),
    );

    let start = ResourceLocation::block_model("child");
    let resolved = ModelResolver::resolve_textures(&store, &start).unwrap();

    assert_eq!(resolved.len(), 4);
    assert_eq!(resolved.get("parent_texture").unwrap(), "textures/parent");
    assert_eq!(resolved.get("foo").unwrap(), "textures/child");
    assert_eq!(resolved.get("child_texture").unwrap(), "textures/child");
    assert_eq!(resolved.get("bar").unwrap(), "textures/parent");
}

#[test]
fn child_value_wins_over_parent_value() {
    // Merge precedence: when child and parent bind the same variable to
    // different concrete values, the child's value is kept.
    let mut store = ModelStore::new(ResourceKind::BlockModel);
    store.insert(
        String::from("child"),
        model(Some("parent"), Some(&[("side", "textures/child_side")])),
    );
    store.insert(
        String::from("parent"),
        model(None, Some(&[("side", "textures/parent_side"), ("top", "textures/top")])),
    );

    let start = ResourceLocation::block_model("child");
    let resolved = ModelResolver::resolve_textures(&store, &start).unwrap();

    assert_eq!(resolved.len(), 2);
    assert_eq!(resolved.get("side").unwrap(), "textures/child_side");
    assert_eq!(resolved.get("top").unwrap(), "textures/top");
}

#[test]
fn unresolved_indirection_is_kept_verbatim() {
    // A variable whose indirection target no level defines keeps the literal
    // `#missing` value.
    let mut store = ModelStore::new(ResourceKind::BlockModel);
    store.insert(
        String::from("child"),
        model(Some("parent"), Some(&[("dangling", "#missing")])),
    );
    store.insert(String::from("parent"), model(None, Some(&[("top", "textures/top")])));

    let start = ResourceLocation::block_model("child");
    let resolved = ModelResolver::resolve_textures(&store, &start).unwrap();

    assert_eq!(resolved.len(), 2);
    assert_eq!(resolved.get("dangling").unwrap(), "#missing");
    assert_eq!(resolved.get("top").unwrap(), "textures/top");
}

#[test]
fn levels_without_textures_contribute_nothing() {
    let mut store = ModelStore::new(ResourceKind::BlockModel);
    store.insert(String::from("a"), model(Some("b"), None));
    store.insert(String::from("b"), model(Some("c"), Some(&[("top", "textures/top")])));
    store.insert(String::from("c"), model(None, None));

    let start = ResourceLocation::block_model("a");
    let resolved = ModelResolver::resolve_textures(&store, &start).unwrap();
    assert_eq!(resolved.len(), 1);
    assert_eq!(resolved.get("top").unwrap(), "textures/top");
}

#[test]
fn merge_textures_folds_a_given_chain() {
    // The resolver core can be driven directly with an already-loaded chain,
    // child first.
    let models = vec![
        model(Some("mid"), Some(&[("a", "#b")])),
        model(Some("root"), Some(&[("b", "#c")])),
        model(None, Some(&[("c", "textures/leaf")])),
    ];
    let resolved = ModelResolver::merge_textures(&models);
    // Substitution is a single pass per level, not a fixpoint: `a` picks up
    // `#c` one level later, then resolves at the root level.
    assert_eq!(resolved.len(), 3);
    assert_eq!(resolved.get("c").unwrap(), "textures/leaf");
    assert_eq!(resolved.get("b").unwrap(), "textures/leaf");
    assert_eq!(resolved.get("a").unwrap(), "textures/leaf");
}

#[test]
fn textures_insert_get_and_len() {
    let mut t = Textures::new();
    assert_eq!(t.len(), 0);
    assert!(!t.contains_key("top"));
    assert!(t.get("top").is_none());

    t.insert(String::from("top"), String::from("textures/a"));
    assert_eq!(t.len(), 1);
    assert!(t.contains_key("top"));
    assert_eq!(t.get("top").unwrap(), "textures/a");

    // Inserting again replaces the binding.
    t.insert(String::from("top"), String::from("textures/b"));
    assert_eq!(t.len(), 1);
    assert_eq!(t.get("top").unwrap(), "textures/b");

    let copy = t.clone();
    assert_eq!(copy.len(), 1);
    assert_eq!(copy.get("top").unwrap(), "textures/b");
}

#[test]
fn textures_resolve_is_a_single_pass() {
    // Only indirections whose target the other map defines are substituted,
    // and only once: the substituted value is not chased further.
    let mut t = textures_of(&[("a", "#b"), ("c", "#none")]);
    let other = textures_of(&[("b", "#d"), ("d", "x")]);
    t.resolve(&other);
    assert_eq!(t.get("a").unwrap(), "#d");
    assert_eq!(t.get("c").unwrap(), "#none");
}

#[test]
fn textures_merge_keeps_existing_bindings() {
    let mut t = textures_of(&[("side", "child")]);
    let other = textures_of(&[("side", "parent"), ("top", "parent_top")]);
    t.merge(other);
    assert_eq!(t.len(), 2);
    assert_eq!(t.get("side").unwrap(), "child");
    assert_eq!(t.get("top").unwrap(), "parent_top");
}

#[test]
fn parent_location_follows_the_walk_rules() {
    let m = model(Some("block/oak"), None);
    let loc = m.parent_location(ResourceKind::BlockModel).unwrap();
    assert_eq!(loc.as_str(), "block/oak");
    assert_eq!(loc.kind(), ResourceKind::BlockModel);

    // The kind comes from the walk, never from the parent string.
    let loc = m.parent_location(ResourceKind::ItemModel).unwrap();
    assert_eq!(loc.kind(), ResourceKind::ItemModel);

    assert!(model(None, None).parent_location(ResourceKind::BlockModel).is_none());
    assert!(model(Some("builtin/generated"), None)
        .parent_location(ResourceKind::BlockModel)
        .is_none());

    // The builtin check looks at the path portion of the parent identifier.
    assert!(model(Some("minecraft:builtin/generated"), None)
        .parent_location(ResourceKind::BlockModel)
        .is_none());

    let m = Model::new();
    assert!(m.parent.is_none());
    assert!(m.textures.is_none());
}
