//! The closed set of resource categories and kinds, and their fixed places in
//! the on-disk layout.

use vstd::prelude::*;

verus! {

/// The top-level category a resource belongs to.
#[derive(Debug, Clone, Copy, PartialEq, Eq, Hash, Structural)]
pub enum ResourceCategory {
    /// Resources located under the `assets/` directory.
    Assets,
    /// Resources located under the `data/` directory.
    Data,
}

impl ResourceCategory {
    /// The name of the category's top-level directory.
    pub open spec fn spec_directory(self) -> Seq<char> {
        match self {
            ResourceCategory::Assets => "assets"@,
            ResourceCategory::Data => "data"@,
        }
    }

    /// The name of the top-level directory containing this category of
    /// resource.
    pub fn directory(&self) -> (r: &'static str)
        ensures
            r@ == self.spec_directory(),
    {
        match self {
            ResourceCategory::Assets => "assets",
            ResourceCategory::Data => "data",
        }
    }
}

/// The kind of a resource. Each kind maps to a fixed category, sub-directory
/// and file extension; the mapping is a static table, not configurable at
/// runtime.
#[derive(Debug, Clone, Copy, PartialEq, Eq, Hash, Structural)]
pub enum ResourceKind {
    /// Block-state tables (`.json`) in `assets/<namespace>/blockstates/`.
    BlockStates,
    /// Block models (`.json`) in `assets/<namespace>/models/block/`.
    BlockModel,
    /// Item models (`.json`) in `assets/<namespace>/models/item/`.
    ItemModel,
    /// Textures (`.png`) in `assets/<namespace>/textures/`.
    Texture,
    /// Texture metadata (`.mcmeta`) in `assets/<namespace>/textures/`.
    TextureMeta,
}

impl ResourceKind {
    /// The category every kind in scope belongs to.
    pub open spec fn spec_category(self) -> ResourceCategory {
        ResourceCategory::Assets
    }

    /// Returns the category of this resource kind.
    pub fn category(&self) -> (r: ResourceCategory)
        ensures
            r == self.spec_category(),
    {
        match self {
            ResourceKind::BlockStates
            | ResourceKind::BlockModel
            | ResourceKind::ItemModel
            | ResourceKind::Texture
            | ResourceKind::TextureMeta => ResourceCategory::Assets,
        }
    }

    /// The file extension used for this kind of resource.
    pub open spec fn spec_extension(self) -> Seq<char> {
        match self {
            ResourceKind::BlockStates | ResourceKind::BlockModel | ResourceKind::ItemModel => {
                "json"@
            },
            ResourceKind::Texture => "png"@,
            ResourceKind::TextureMeta => "mcmeta"@,
        }
    }

    /// Returns the file extension used for this resource's file.
    pub fn extension(&self) -> (r: &'static str)
        ensures
            r@ == self.spec_extension(),
    {
        match self {
            ResourceKind::BlockStates | ResourceKind::BlockModel | ResourceKind::ItemModel => {
                "json"
            },
            ResourceKind::Texture => "png",
            ResourceKind::TextureMeta => "mcmeta",
        }
    }

    /// The sub-directory, relative to `assets/<namespace>/`, in which
    /// resources of this kind reside.
    pub open spec fn spec_directory(self) -> Seq<char> {
        match self {
            ResourceKind::BlockStates => "blockstates"@,
            ResourceKind::BlockModel => "models/block"@,
            ResourceKind::ItemModel => "models/item"@,
            ResourceKind::Texture | ResourceKind::TextureMeta => "textures"@,
        }
    }

    /// Returns the path relative to `assets/<namespace>/` in which resources
    /// of this kind reside.
    pub fn directory(&self) -> (r: &'static str)
        ensures
            r@ == self.spec_directory(),
    {
        match self {
            ResourceKind::BlockStates => "blockstates",
            ResourceKind::BlockModel => "models/block",
            ResourceKind::ItemModel => "models/item",
            ResourceKind::Texture | ResourceKind::TextureMeta => "textures",
        }
    }

    /// Whether this kind references a block or item model.
    pub open spec fn spec_is_model(self) -> bool {
        self == ResourceKind::BlockModel || self == ResourceKind::ItemModel
    }
}

} // verus!
