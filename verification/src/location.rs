//! A resource location: an identifier paired with a resource kind, from which
//! the canonical on-disk path is derived.

use vstd::prelude::*;
use vstd::string::StringExecFns;

use crate::identifier::spec_canonical;
use crate::identifier::spec_has_namespace;
use crate::identifier::spec_is_builtin;
use crate::identifier::spec_model_name;
use crate::identifier::spec_namespace;
use crate::identifier::spec_path;
use crate::identifier::ModelIdentifier;
use crate::identifier::ResourceIdentifier;
use crate::kind::ResourceKind;

verus! {

/// The mathematical content of a resource location: its kind and the
/// characters of its identifier.
pub ghost struct LocationView {
    pub kind: ResourceKind,
    pub id: Seq<char>,
}

/// The path portion of the location: the model name (the identifier's path
/// portion, prefix-stripped) for model kinds, the raw identifier otherwise.
pub open spec fn spec_location_path(l: LocationView) -> Seq<char> {
    if l.kind.spec_is_model() {
        spec_model_name(l.id)
    } else {
        l.id
    }
}

/// The file name of the location: the model name for model kinds, the path
/// portion of the identifier otherwise.
pub open spec fn spec_location_name(l: LocationView) -> Seq<char> {
    if l.kind.spec_is_model() {
        spec_model_name(l.id)
    } else {
        spec_path(l.id)
    }
}

/// Whether the location references a built-in, non-file-backed resource:
/// the leading segment of the identifier's path portion is `builtin`. Only
/// model kinds can be builtin.
pub open spec fn spec_location_is_builtin(l: LocationView) -> bool {
    l.kind.spec_is_model() && spec_is_builtin(l.id)
}

/// The directory that should contain the location's file:
/// `<category>/<namespace>/<kind-directory>`.
pub open spec fn spec_location_directory(l: LocationView) -> Seq<char> {
    l.kind.spec_category().spec_directory() + "/"@ + spec_namespace(l.id) + "/"@
        + l.kind.spec_directory()
}

/// The path of the location's file, relative to the asset root:
/// `<category>/<namespace>/<kind-directory>/<name>.<extension>`.
pub open spec fn spec_location_file_path(l: LocationView) -> Seq<char> {
    spec_location_directory(l) + "/"@ + spec_location_name(l) + "."@ + l.kind.spec_extension()
}

/// An identifier paired with the kind of resource it references. The file
/// path is a pure function of the two fields.
#[derive(Debug, Clone, Hash)]
pub struct ResourceLocation {
    id: ResourceIdentifier,
    kind: ResourceKind,
}

impl View for ResourceLocation {
    type V = LocationView;

    closed spec fn view(&self) -> LocationView {
        LocationView { kind: self.kind, id: self.id@ }
    }
}

impl ResourceLocation {
    /// Constructs a new location of the given kind from a borrowed
    /// identifier string.
    pub fn new(kind: ResourceKind, id: &str) -> (r: ResourceLocation)
        ensures
            r@.kind == kind,
            r@.id == id@,
    {
        ResourceLocation { id: ResourceIdentifier::from_str(id), kind }
    }

    /// Like [`Self::new`], but takes ownership of the identifier string.
    pub fn new_owned(kind: ResourceKind, id: String) -> (r: ResourceLocation)
        ensures
            r@.kind == kind,
            r@.id == id@,
    {
        ResourceLocation { id: ResourceIdentifier::new(id), kind }
    }

    /// The location of the block-state table of the given block id.
    pub fn blockstates(block_id: &str) -> (r: ResourceLocation)
        ensures
            r@.kind == ResourceKind::BlockStates,
            r@.id == block_id@,
    {
        Self::new(ResourceKind::BlockStates, block_id)
    }

    /// The location of the block model with the given name or path.
    pub fn block_model(block_id: &str) -> (r: ResourceLocation)
        ensures
            r@.kind == ResourceKind::BlockModel,
            r@.id == block_id@,
    {
        Self::new(ResourceKind::BlockModel, block_id)
    }

    /// The location of the item model with the given name or path.
    pub fn item_model(item_id: &str) -> (r: ResourceLocation)
        ensures
            r@.kind == ResourceKind::ItemModel,
            r@.id == item_id@,
    {
        Self::new(ResourceKind::ItemModel, item_id)
    }

    /// The location of the texture at the given path.
    pub fn texture(path: &str) -> (r: ResourceLocation)
        ensures
            r@.kind == ResourceKind::Texture,
            r@.id == path@,
    {
        Self::new(ResourceKind::Texture, path)
    }

    /// A reference to the underlying identifier.
    pub fn id(&self) -> (r: &ResourceIdentifier)
        ensures
            r@ == self@.id,
    {
        &self.id
    }

    /// The underlying identifier as a string slice.
    pub fn as_str(&self) -> (r: &str)
        ensures
            r@ == self@.id,
    {
        self.id.as_str()
    }

    /// Whether the location's identifier includes an explicit namespace.
    pub fn has_namespace(&self) -> (r: bool)
        ensures
            r == spec_has_namespace(self@.id),
    {
        self.id.has_namespace()
    }

    /// The namespace portion of the identifier, or `"minecraft"` when no
    /// explicit namespace is present.
    pub fn namespace(&self) -> (r: &str)
        ensures
            r@ == spec_namespace(self@.id),
    {
        self.id.namespace()
    }

    /// The path portion of the location. For model kinds this is the model
    /// name: the identifier's path portion with a leading prefix such as
    /// `block/` or `item/` stripped.
    pub fn path(&self) -> (r: &str)
        ensures
            r@ == spec_location_path(self@),
    {
        if self.is_model() {
            ModelIdentifier::model_name(self.id.as_str())
        } else {
            self.id.as_str()
        }
    }

    /// The kind of resource referenced by this location.
    pub fn kind(&self) -> (r: ResourceKind)
        ensures
            r == self@.kind,
    {
        self.kind
    }

    /// Whether the location refers to a built-in resource, one that no file
    /// backs.
    pub fn is_builtin(&self) -> (r: bool)
        ensures
            r == spec_location_is_builtin(self@),
    {
        if self.is_model() {
            ModelIdentifier::is_builtin(self.id.as_str())
        } else {
            false
        }
    }

    /// A location whose identifier is canonical (carries an explicit
    /// namespace); the kind is unchanged.
    pub fn to_canonical(&self) -> (r: ResourceLocation)
        ensures
            r@.kind == self@.kind,
            r@.id == spec_canonical(self@.id),
    {
        ResourceLocation { id: self.id.to_canonical(), kind: self.kind }
    }

    /// A location with its own copy of the underlying string.
    pub fn to_owned(&self) -> (r: ResourceLocation)
        ensures
            r@ == self@,
    {
        ResourceLocation { id: self.id.to_owned(), kind: self.kind }
    }

    /// Whether the location references a block or item model.
    pub fn is_model(&self) -> (r: bool)
        ensures
            r == self@.kind.spec_is_model(),
    {
        self.kind == ResourceKind::BlockModel || self.kind == ResourceKind::ItemModel
    }

    /// The name of the resource's file, without directory or extension. For
    /// model kinds this is the model name, with any leading prefix stripped.
    pub fn name(&self) -> (r: &str)
        ensures
            r@ == spec_location_name(self@),
    {
        if self.is_model() {
            ModelIdentifier::model_name(self.id.as_str())
        } else {
            self.id.path()
        }
    }

    /// The name of the model referenced by this location, or `None` for
    /// non-model kinds.
    pub fn model_name(&self) -> (r: Option<&str>)
        ensures
            match r {
                Some(s) => self@.kind.spec_is_model() && s@ == spec_model_name(self@.id),
                None => !self@.kind.spec_is_model(),
            },
    {
        if self.is_model() {
            Some(ModelIdentifier::model_name(self.id.as_str()))
        } else {
            None
        }
    }

    /// The directory that should contain this resource's file, relative to
    /// the asset root.
    pub fn directory(&self) -> (r: String)
        ensures
            r@ == spec_location_directory(self@),
    {
        let mut d = self.kind.category().directory().to_owned();
        d.append("/");
        d.append(self.namespace());
        d.append("/");
        d.append(self.kind.directory());
        d
    }

    /// The file extension used for this resource's file.
    pub fn extension(&self) -> (r: &'static str)
        ensures
            r@ == self@.kind.spec_extension(),
    {
        self.kind.extension()
    }

    /// The path of the file that should contain this resource, relative to
    /// the asset root. This exact segment order and separator convention is
    /// the wire contract with the storage layer.
    pub fn file_path(&self) -> (r: String)
        ensures
            r@ == spec_location_file_path(self@),
    {
        let mut p = self.directory();
        p.append("/");
        p.append(self.name());
        p.append(".");
        p.append(self.kind.extension());
        p
    }
}

} // verus!
