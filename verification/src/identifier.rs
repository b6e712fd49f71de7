//! Namespaced resource identifiers.
//!
//! An identifier has the form `"namespace:path"`. When the `namespace`
//! portion is left out, the fixed default namespace `"minecraft"` is implied.

use vstd::prelude::*;
use vstd::string::StrSliceExecFns;
use vstd::string::StringExecFns;

use crate::strings::find_char;
use crate::strings::str_eq;

verus! {

/// The namespace implied when an identifier has no explicit `namespace:`
/// prefix.
pub const MINECRAFT_NAMESPACE: &'static str = "minecraft";

/// The default namespace, as a sequence of characters.
pub open spec fn default_namespace() -> Seq<char> {
    "minecraft"@
}

/// Whether the identifier string carries an explicit namespace.
pub open spec fn spec_has_namespace(s: Seq<char>) -> bool {
    s.contains(':')
}

/// The namespace portion: the text before the first `:`, or the default
/// namespace if there is no `:`. An identifier starting with `:` has the
/// empty namespace.
pub open spec fn spec_namespace(s: Seq<char>) -> Seq<char> {
    match s.index_of_first(':') {
        Some(i) => s.subrange(0, i),
        None => default_namespace(),
    }
}

/// The path portion: the text after the first `:`, or the whole string if
/// there is no `:`.
pub open spec fn spec_path(s: Seq<char>) -> Seq<char> {
    match s.index_of_first(':') {
        Some(i) => s.subrange(i + 1, s.len() as int),
        None => s,
    }
}

/// The canonical form: the string itself when it already has a namespace,
/// otherwise the default namespace prepended with a `:` separator.
pub open spec fn spec_canonical(s: Seq<char>) -> Seq<char> {
    if spec_has_namespace(s) {
        s
    } else {
        default_namespace() + ":"@ + s
    }
}

/// The path portion of a raw identifier string, as a borrowed slice.
fn path_of(id: &str) -> (r: &str)
    ensures
        r@ == spec_path(id@),
{
    proof {
        id@.index_of_first_ensures(':');
    }
    match find_char(id, ':') {
        Some(i) => {
            let n = id.unicode_len();
            id.substring_char(i + 1, n)
        },
        None => id,
    }
}

/// A namespaced identifier for an undetermined kind of resource.
///
/// The namespace and path are pure derivations of the stored string: no
/// separate fields duplicate them. Equality is defined on the literal string
/// form, so `"stone"` and `"minecraft:stone"` are distinct identifiers until
/// canonicalized.
#[derive(Debug, Clone, Hash, PartialEq, Eq)]
pub struct ResourceIdentifier {
    id: String,
}

impl View for ResourceIdentifier {
    type V = Seq<char>;

    closed spec fn view(&self) -> Seq<char> {
        self.id@
    }
}

impl ResourceIdentifier {
    /// Wraps an owned string as an identifier.
    pub fn new(id: String) -> (r: ResourceIdentifier)
        ensures
            r@ == id@,
    {
        ResourceIdentifier { id }
    }

    /// Copies a borrowed string into an identifier.
    pub fn from_str(id: &str) -> (r: ResourceIdentifier)
        ensures
            r@ == id@,
    {
        ResourceIdentifier { id: id.to_owned() }
    }

    /// The identifier's underlying string representation.
    pub fn as_str(&self) -> (r: &str)
        ensures
            r@ == self@,
    {
        self.id.as_str()
    }

    /// Position of the first `:`, if any.
    fn colon_position(&self) -> (r: Option<usize>)
        ensures
            match r {
                Some(i) => self@.index_of_first(':') == Some(i as int),
                None => self@.index_of_first(':') is None,
            },
    {
        find_char(self.id.as_str(), ':')
    }

    /// Whether the identifier includes an explicit namespace.
    pub fn has_namespace(&self) -> (r: bool)
        ensures
            r == spec_has_namespace(self@),
    {
        proof {
            self@.index_of_first_ensures(':');
        }
        match self.colon_position() {
            Some(_) => true,
            None => false,
        }
    }

    /// The namespace portion, or `"minecraft"` when the identifier has no
    /// explicit namespace.
    pub fn namespace(&self) -> (r: &str)
        ensures
            r@ == spec_namespace(self@),
    {
        proof {
            self@.index_of_first_ensures(':');
        }
        match self.colon_position() {
            Some(i) => self.id.as_str().substring_char(0, i),
            None => "minecraft",
        }
    }

    /// The path portion of the identifier.
    pub fn path(&self) -> (r: &str)
        ensures
            r@ == spec_path(self@),
    {
        path_of(self.id.as_str())
    }

    /// A canonical identifier: equal to `self` when a namespace is already
    /// present, otherwise the default namespace is prepended.
    pub fn to_canonical(&self) -> (r: ResourceIdentifier)
        ensures
            r@ == spec_canonical(self@),
            spec_has_namespace(self@) ==> r@ == self@,
    {
        if self.has_namespace() {
            ResourceIdentifier { id: self.id.clone() }
        } else {
            let mut id = self.namespace().to_owned();
            id.append(":");
            id.append(self.id.as_str());
            proof {
                self@.index_of_first_ensures(':');
                assert(id@ =~= spec_canonical(self@));
            }
            ResourceIdentifier { id }
        }
    }

    /// An identifier with its own copy of the underlying string.
    pub fn to_owned(&self) -> (r: ResourceIdentifier)
        ensures
            r@ == self@,
    {
        ResourceIdentifier { id: self.id.clone() }
    }

    /// An identifier with its own copy of the underlying string.
    pub fn into_owned(&self) -> (r: ResourceIdentifier)
        ensures
            r@ == self@,
    {
        ResourceIdentifier { id: self.id.clone() }
    }
}

/// Model references name a block or item model, optionally carrying a leading
/// disambiguating path segment such as `block/` or `item/`; older asset
/// layouts carry none. The operations here strip that segment and recognize
/// the `builtin/` sentinel, which names an engine-internal renderer that no
/// file backs.
#[derive(Debug, Clone, Hash)]
pub struct ModelIdentifier;

/// The model name: the text of the path portion after its first `/`, or the
/// whole path portion when it has no `/`. The leading segment is stripped
/// uniformly, whatever it is; the namespace plays no part.
pub open spec fn spec_model_name(s: Seq<char>) -> Seq<char> {
    match spec_path(s).index_of_first('/') {
        Some(i) => spec_path(s).subrange(i + 1, spec_path(s).len() as int),
        None => spec_path(s),
    }
}

/// Whether the leading `/`-delimited segment of the path portion is exactly
/// `builtin`. The namespace plays no part; a path without a `/` is never
/// builtin.
pub open spec fn spec_is_builtin(s: Seq<char>) -> bool {
    match spec_path(s).index_of_first('/') {
        Some(i) => spec_path(s).subrange(0, i) == "builtin"@,
        None => false,
    }
}

impl ModelIdentifier {
    /// The name of the model: the path portion of the identifier, with its
    /// leading segment stripped if there is one.
    pub fn model_name(id: &str) -> (r: &str)
        ensures
            r@ == spec_model_name(id@),
    {
        let path = path_of(id);
        proof {
            path@.index_of_first_ensures('/');
        }
        match find_char(path, '/') {
            Some(i) => {
                let n = path.unicode_len();
                path.substring_char(i + 1, n)
            },
            None => path,
        }
    }

    /// Whether the reference names a built-in, non-file-backed model.
    pub fn is_builtin(id: &str) -> (r: bool)
        ensures
            r == spec_is_builtin(id@),
    {
        let path = path_of(id);
        proof {
            path@.index_of_first_ensures('/');
        }
        match find_char(path, '/') {
            Some(i) => {
                let prefix = path.substring_char(0, i);
                str_eq(prefix, "builtin")
            },
            None => false,
        }
    }
}

/// An identifier without a `:` has the default namespace, and its path is the
/// whole string.
pub proof fn lemma_implicit_namespace(s: Seq<char>)
    requires
        !s.contains(':'),
    ensures
        spec_namespace(s) == default_namespace(),
        spec_path(s) == s,
{
    s.index_of_first_ensures(':');
}

/// An identifier of the form `"ns:rest"`, with `ns` itself free of `:`, has
/// namespace `ns` and path `rest`.
pub proof fn lemma_explicit_namespace(ns: Seq<char>, rest: Seq<char>)
    requires
        !ns.contains(':'),
    ensures
        spec_has_namespace(ns + ":"@ + rest),
        spec_namespace(ns + ":"@ + rest) == ns,
        spec_path(ns + ":"@ + rest) == rest,
{
    reveal_strlit(":");
    let s = ns + ":"@ + rest;
    assert(s[ns.len() as int] == ':');
    assert(s.contains(':'));
    s.index_of_first_ensures(':');
    let i = s.index_of_first(':').unwrap();
    assert forall|j: int| 0 <= j < ns.len() implies s[j] != ':' by {
        assert(s[j] == ns[j]);
        if ns[j] == ':' {
            assert(ns.contains(':'));
        }
    }
    assert(i == ns.len());
    assert(s.subrange(0, i) =~= ns);
    assert(s.subrange(i + 1, s.len() as int) =~= rest);
}

/// Canonicalization is idempotent.
pub proof fn lemma_to_canonical_idempotent(s: Seq<char>)
    ensures
        spec_canonical(spec_canonical(s)) == spec_canonical(s),
{
    if !spec_has_namespace(s) {
        reveal_strlit(":");
        reveal_strlit("minecraft");
        let c = default_namespace() + ":"@ + s;
        assert(c[9] == ':');
        assert(c.contains(':'));
    }
}

/// Canonicalization returns the identifier itself when a namespace is
/// already explicit.
pub proof fn lemma_to_canonical_identity(s: Seq<char>)
    requires
        spec_has_namespace(s),
    ensures
        spec_canonical(s) == s,
{
}

} // verus!
