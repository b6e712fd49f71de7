use minecraft_assets::ResourceCategory;
use minecraft_assets::ResourceKind;
use minecraft_assets::ResourceLocation;

#[test]
fn category_directories() {
    assert_eq!(ResourceCategory::Assets.directory(), "assets");
    assert_eq!(ResourceCategory::Data.directory(), "data");
}

#[test]
fn kind_tables() {
    assert_eq!(ResourceKind::BlockStates.extension(), "json");
    assert_eq!(ResourceKind::BlockModel.extension(), "json");
    assert_eq!(ResourceKind::ItemModel.extension(), "json");
    assert_eq!(ResourceKind::Texture.extension(), "png");
    assert_eq!(ResourceKind::TextureMeta.extension(), "mcmeta");

    assert_eq!(ResourceKind::BlockStates.directory(), "blockstates");
    assert_eq!(ResourceKind::BlockModel.directory(), "models/block");
    assert_eq!(ResourceKind::ItemModel.directory(), "models/item");
    assert_eq!(ResourceKind::Texture.directory(), "textures");
    assert_eq!(ResourceKind::TextureMeta.directory(), "textures");

    assert_eq!(ResourceKind::BlockStates.category(), ResourceCategory::Assets);
    assert_eq!(ResourceKind::Texture.category(), ResourceCategory::Assets);
}

#[test]
fn blockstates_file_path() {
    // Path computation for a block-state table.
    let location = ResourceLocation::blockstates("stone");
    assert_eq!(location.kind(), ResourceKind::BlockStates);
    assert_eq!(location.as_str(), "stone");
    assert_eq!(location.namespace(), "minecraft");
    assert_eq!(location.name(), "stone");
    assert_eq!(location.directory(), "assets/minecraft/blockstates");
    assert_eq!(location.file_path(), "assets/minecraft/blockstates/stone.json");
}

#[test]
fn block_model_file_path() {
    // Path computation for a block model: the leading `block/` prefix is
    // stripped from the name but the directory already encodes it.
    let location = ResourceLocation::block_model("block/cube_all");
    assert_eq!(location.kind(), ResourceKind::BlockModel);
    assert_eq!(location.name(), "cube_all");
    assert_eq!(location.file_path(), "assets/minecraft/models/block/cube_all.json");
}

#[test]
fn item_model_and_texture_paths() {
    let location = ResourceLocation::item_model("item/diamond_hoe");
    assert_eq!(location.name(), "diamond_hoe");
    assert_eq!(location.file_path(), "assets/minecraft/models/item/diamond_hoe.json");

    let location = ResourceLocation::texture("block/stone");
    assert_eq!(location.kind(), ResourceKind::Texture);
    // Texture names keep their path: only model kinds strip a prefix.
    assert_eq!(location.name(), "block/stone");
    assert_eq!(location.file_path(), "assets/minecraft/textures/block/stone.png");
}

#[test]
fn explicit_namespace_in_paths() {
    let location = ResourceLocation::blockstates("foo:bar");
    assert!(location.has_namespace());
    assert_eq!(location.namespace(), "foo");
    assert_eq!(location.file_path(), "assets/foo/blockstates/bar.json");

    // A namespaced model identifier without a slash: the file name is the
    // path portion alone, never "namespace:name".
    let location = ResourceLocation::block_model("foo:cube");
    assert_eq!(location.name(), "cube");
    assert_eq!(location.file_path(), "assets/foo/models/block/cube.json");

    let location = ResourceLocation::blockstates("bar");
    assert!(!location.has_namespace());

    let location = ResourceLocation::blockstates(":bar");
    assert_eq!(location.namespace(), "");
}

#[test]
fn location_path_is_model_aware() {
    let location = ResourceLocation::block_model("block/cube_all");
    assert_eq!(location.path(), "cube_all");
    assert!(location.is_model());
    assert_eq!(location.model_name(), Some("cube_all"));

    // For model kinds the namespace is dropped along with the prefix.
    let location = ResourceLocation::block_model("foo:bar");
    assert_eq!(location.path(), "bar");
    assert_eq!(location.model_name(), Some("bar"));

    let location = ResourceLocation::blockstates("minecraft:stone");
    assert_eq!(location.path(), "minecraft:stone");
    assert!(!location.is_model());
    assert_eq!(location.model_name(), None);
}

#[test]
fn location_is_builtin() {
    assert!(ResourceLocation::item_model("builtin/generated").is_builtin());
    assert!(ResourceLocation::block_model("builtin/generated").is_builtin());
    // The builtin test reads the path portion of the identifier.
    assert!(ResourceLocation::block_model("minecraft:builtin/generated").is_builtin());
    assert!(!ResourceLocation::block_model("block/cube").is_builtin());
    // Non-model kinds are never builtin.
    assert!(!ResourceLocation::texture("builtin/generated").is_builtin());
    assert!(!ResourceLocation::blockstates("builtin/generated").is_builtin());
}

#[test]
fn location_to_canonical() {
    let location = ResourceLocation::blockstates("stone");
    let canonical = location.to_canonical();
    assert_eq!(canonical.as_str(), "minecraft:stone");
    assert_eq!(canonical.kind(), ResourceKind::BlockStates);

    let location = ResourceLocation::blockstates("foo:bar");
    let canonical = location.to_canonical();
    assert_eq!(canonical.as_str(), "foo:bar");
}

#[test]
fn location_to_owned_keeps_value() {
    let source = String::from("my:resource");
    let location = ResourceLocation::new(ResourceKind::BlockModel, source.as_str());
    let owned = location.to_owned();
    drop(source);
    assert_eq!(owned.as_str(), "my:resource");
    assert_eq!(owned.kind(), ResourceKind::BlockModel);

    let owned2 = ResourceLocation::new_owned(ResourceKind::ItemModel, String::from("x"));
    assert_eq!(owned2.as_str(), "x");
    assert_eq!(owned2.extension(), "json");
    assert_eq!(owned2.id().as_str(), "x");
}
