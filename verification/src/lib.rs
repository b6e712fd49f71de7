//! Locating and resolving namespaced game assets.
//!
//! Assets (block-state tables, block and item models, textures) live in a
//! file-per-resource store laid out as
//! `assets/<namespace>/<kind-directory>/<name>.<extension>`. This crate
//! provides the identifier and location types that map a namespaced
//! identifier plus a resource kind to that canonical path, and a model
//! resolver that walks a model's parent chain and merges the texture
//! variables inherited along it.

pub mod assoc;
pub mod blockstates;
pub mod identifier;
pub mod kind;
pub mod location;
pub mod models;
pub mod resolve;
pub mod strings;

pub use blockstates::BlockStates;
pub use blockstates::Case;
pub use blockstates::Condition;
pub use blockstates::ModelProperties;
pub use blockstates::StateValue;
pub use blockstates::Variant;
pub use blockstates::WhenClause;
pub use identifier::ModelIdentifier;
pub use identifier::ResourceIdentifier;
pub use identifier::MINECRAFT_NAMESPACE;
pub use kind::ResourceCategory;
pub use kind::ResourceKind;
pub use location::ResourceLocation;
pub use models::Model;
pub use models::Textures;
pub use resolve::ModelLoader;
pub use resolve::ModelNotFound;
pub use resolve::ModelResolver;
pub use resolve::ModelStore;
pub use resolve::WalkError;
