//! Model records and texture-variable maps.
//!
//! A model record has an optional `parent` (the identifier of another model
//! of the same kind) and an optional map of texture variables. A texture
//! variable is bound either to a concrete texture path or to an indirection
//! `#other`, referencing another variable.

use vstd::prelude::*;
use vstd::string::StrSliceExecFns;

use crate::assoc::find_entry;
use crate::assoc::lemma_map_of_contains;
use crate::assoc::lemma_map_of_index;
use crate::assoc::lemma_map_of_len;
use crate::assoc::lemma_map_of_push;
use crate::assoc::lemma_map_of_update;
use crate::assoc::map_of;
use crate::assoc::unique_keys;
use crate::identifier::spec_is_builtin;
use crate::identifier::ModelIdentifier;
use crate::kind::ResourceKind;
use crate::location::ResourceLocation;

verus! {

/// Whether a texture value is an indirection `#name` rather than a concrete
/// path.
pub open spec fn spec_is_variable_ref(v: Seq<char>) -> bool {
    v.len() > 0 && v[0] == '#'
}

/// The variable name an indirection refers to: the text after the leading
/// `#`.
pub open spec fn spec_ref_target(v: Seq<char>) -> Seq<char> {
    v.subrange(1, v.len() as int)
}

/// A single substitution step: an indirection whose target `other` defines is
/// replaced by `other`'s value; any other value is left unchanged.
pub open spec fn spec_subst(v: Seq<char>, other: Map<Seq<char>, Seq<char>>) -> Seq<char> {
    if spec_is_variable_ref(v) && other.contains_key(spec_ref_target(v)) {
        other[spec_ref_target(v)]
    } else {
        v
    }
}

/// One substitution pass over a whole map: every value of `m` is substituted
/// once against `other`. The domain is unchanged.
pub open spec fn spec_resolve(
    m: Map<Seq<char>, Seq<char>>,
    other: Map<Seq<char>, Seq<char>>,
) -> Map<Seq<char>, Seq<char>> {
    Map::new(|k: Seq<char>| m.contains_key(k), |k: Seq<char>| spec_subst(m[k], other))
}

/// A mapping from texture-variable name to texture value. Values may be
/// concrete paths or indirections `#name`; unresolved indirections are a
/// valid, representable state, not an error.
pub struct Textures {
    entries: Vec<(String, String)>,
}

impl Textures {
    /// Entries carry pairwise distinct keys.
    #[verifier::type_invariant]
    spec fn wf(self) -> bool {
        unique_keys(self.entries@)
    }
}

impl View for Textures {
    type V = Map<Seq<char>, Seq<char>>;

    closed spec fn view(&self) -> Map<Seq<char>, Seq<char>> {
        map_of(self.entries@)
    }
}

/// Whether a texture value is an indirection `#name`.
pub fn is_variable_ref(v: &str) -> (r: bool)
    ensures
        r == spec_is_variable_ref(v@),
{
    v.unicode_len() > 0 && v.get_char(0) == '#'
}

/// The variable name an indirection refers to.
pub fn ref_target(v: &str) -> (r: &str)
    requires
        spec_is_variable_ref(v@),
    ensures
        r@ == spec_ref_target(v@),
{
    let n = v.unicode_len();
    v.substring_char(1, n)
}

/// Two entry sequences with equal keys and values related pointwise by `f`
/// describe pointwise-related maps.
proof fn lemma_map_of_pointwise(
    a: Seq<(String, String)>,
    b: Seq<(String, String)>,
    f: spec_fn(Seq<char>) -> Seq<char>,
)
    requires
        unique_keys(a),
        a.len() == b.len(),
        forall|i: int| 0 <= i < a.len() ==> #[trigger] b[i].0@ == a[i].0@ && b[i].1@ == f(a[i].1@),
    ensures
        map_of(b) == Map::new(
            |k: Seq<char>| map_of(a).contains_key(k),
            |k: Seq<char>| f(map_of(a)[k]),
        ),
{
    assert(unique_keys(b));
    let target = Map::new(
        |k: Seq<char>| map_of(a).contains_key(k),
        |k: Seq<char>| f(map_of(a)[k]),
    );
    assert forall|k: Seq<char>| #[trigger]
        map_of(b).contains_key(k) == map_of(a).contains_key(k) by {
        lemma_map_of_contains(a, k);
        lemma_map_of_contains(b, k);
        if map_of(a).contains_key(k) {
            let i = choose|i: int| 0 <= i < a.len() && a[i].0@ == k;
            assert(b[i].0@ == a[i].0@);
        }
        if map_of(b).contains_key(k) {
            let i = choose|i: int| 0 <= i < b.len() && b[i].0@ == k;
            assert(b[i].0@ == a[i].0@);
        }
    }
    assert forall|k: Seq<char>| map_of(b).contains_key(k) implies #[trigger] map_of(b)[k]
        == f(map_of(a)[k]) by {
        lemma_map_of_contains(b, k);
        let i = choose|i: int| 0 <= i < b.len() && b[i].0@ == k;
        lemma_map_of_index(a, i);
        lemma_map_of_index(b, i);
    }
    assert(map_of(b) =~= target);
}

impl Clone for Textures {
    /// A copy with its own entry storage and an equal view.
    fn clone(&self) -> (r: Textures)
        ensures
            r@ == self@,
    {
        proof {
            use_type_invariant(&*self);
        }
        let n = self.entries.len();
        let mut entries: Vec<(String, String)> = Vec::new();
        let mut i: usize = 0;
        while i < n
            invariant
                0 <= i <= n,
                n == self.entries@.len(),
                unique_keys(self.entries@),
                entries@.len() == i,
                forall|j: int|
                    0 <= j < i ==> #[trigger] entries@[j].0@ == self.entries@[j].0@
                        && entries@[j].1@ == self.entries@[j].1@,
            decreases n - i,
        {
            let key = self.entries[i].0.clone();
            let value = self.entries[i].1.clone();
            entries.push((key, value));
            i = i + 1;
        }
        proof {
            lemma_map_of_pointwise(self.entries@, entries@, |v: Seq<char>| v);
            assert(map_of(entries@) =~= map_of(self.entries@));
        }
        Textures { entries }
    }
}

impl Textures {
    /// An empty texture map.
    pub fn new() -> (r: Textures)
        ensures
            r@ == Map::<Seq<char>, Seq<char>>::empty(),
    {
        Textures { entries: Vec::new() }
    }

    /// The number of variables bound by the map.
    pub fn len(&self) -> (r: usize)
        ensures
            r == self@.dom().len(),
    {
        proof {
            use_type_invariant(&*self);
            lemma_map_of_len(self.entries@);
        }
        self.entries.len()
    }

    /// Whether the map binds the given variable name.
    pub fn contains_key(&self, name: &str) -> (r: bool)
        ensures
            r == self@.contains_key(name@),
    {
        proof {
            lemma_map_of_contains(self.entries@, name@);
        }
        match find_entry(&self.entries, name) {
            Some(_) => true,
            None => false,
        }
    }

    /// The value bound to the given variable name, if any.
    pub fn get(&self, name: &str) -> (r: Option<&String>)
        ensures
            match r {
                Some(v) => self@.contains_key(name@) && v@ == self@[name@],
                None => !self@.contains_key(name@),
            },
    {
        proof {
            use_type_invariant(&*self);
            lemma_map_of_contains(self.entries@, name@);
        }
        match find_entry(&self.entries, name) {
            Some(i) => {
                proof {
                    lemma_map_of_index(self.entries@, i as int);
                }
                Some(&self.entries[i].1)
            },
            None => None,
        }
    }

    /// The binding at position `i`, for enumerating the map: a name the map
    /// binds, together with its value.
    pub fn entry(&self, i: usize) -> (r: &(String, String))
        requires
            i < self@.dom().len(),
        ensures
            self@.contains_key(r.0@),
            self@[r.0@] == r.1@,
    {
        proof {
            use_type_invariant(&*self);
            lemma_map_of_len(self.entries@);
            lemma_map_of_index(self.entries@, i as int);
        }
        &self.entries[i]
    }

    /// Binds `name` to `value`, replacing any existing binding.
    pub fn insert(&mut self, name: String, value: String)
        ensures
            final(self)@ == old(self)@.insert(name@, value@),
    {
        proof {
            use_type_invariant(&*self);
        }
        let ghost es = self.entries@;
        let mut entries: Vec<(String, String)> = Vec::new();
        core::mem::swap(&mut entries, &mut self.entries);
        match find_entry(&entries, name.as_str()) {
            Some(i) => {
                proof {
                    lemma_map_of_update(es, i as int, (name, value));
                }
                entries[i] = (name, value);
            },
            None => {
                proof {
                    lemma_map_of_push(es, (name, value));
                }
                entries.push((name, value));
            },
        }
        self.entries = entries;
    }

    /// One substitution pass of this map's values against `other`: every
    /// indirection whose target `other` defines is replaced with `other`'s
    /// value. A single pass, not an exhaustive closure.
    pub fn resolve(&mut self, other: &Textures)
        ensures
            final(self)@ == spec_resolve(old(self)@, other@),
    {
        proof {
            use_type_invariant(&*self);
        }
        let ghost es = old(self).entries@;
        let mut entries: Vec<(String, String)> = Vec::new();
        core::mem::swap(&mut entries, &mut self.entries);
        let n = entries.len();
        let mut i: usize = 0;
        while i < n
            invariant
                0 <= i <= n,
                n == entries@.len(),
                es.len() == n,
                unique_keys(es),
                unique_keys(entries@),
                forall|j: int| 0 <= j < n ==> #[trigger] entries@[j].0@ == es[j].0@,
                forall|j: int|
                    0 <= j < i ==> #[trigger] entries@[j].1@ == spec_subst(es[j].1@, other@),
                forall|j: int| i <= j < n ==> #[trigger] entries@[j] == es[j],
            decreases n - i,
        {
            let replacement: Option<String> = {
                let v = entries[i].1.as_str();
                if is_variable_ref(v) {
                    let target = ref_target(v);
                    match other.get(target) {
                        Some(value) => Some(value.clone()),
                        None => None,
                    }
                } else {
                    None
                }
            };
            match replacement {
                Some(value) => {
                    let key = entries[i].0.clone();
                    let ghost cur = entries@;
                    proof {
                        lemma_map_of_update(cur, i as int, (key, value));
                    }
                    entries[i] = (key, value);
                },
                None => {
                },
            }
            i = i + 1;
        }
        proof {
            lemma_map_of_pointwise(es, entries@, |v: Seq<char>| spec_subst(v, other@));
            assert(map_of(entries@) =~= spec_resolve(map_of(es), other@));
        }
        self.entries = entries;
    }

    /// Key-wise union: bindings of `other` are added for names this map does
    /// not already bind. Existing bindings are never overwritten, so entries
    /// already present take precedence.
    pub fn merge(&mut self, other: Textures)
        ensures
            final(self)@ == other@.union_prefer_right(old(self)@),
    {
        proof {
            use_type_invariant(&*self);
            use_type_invariant(&other);
        }
        let ghost sm = old(self)@;
        let ghost om = other@;
        let mut entries: Vec<(String, String)> = Vec::new();
        core::mem::swap(&mut entries, &mut self.entries);
        let n = other.entries.len();
        let mut j: usize = 0;
        while j < n
            invariant
                0 <= j <= n,
                n == other.entries@.len(),
                unique_keys(other.entries@),
                om == map_of(other.entries@),
                sm == map_of(old(self).entries@),
                unique_keys(entries@),
                forall|k: Seq<char>| #[trigger]
                    map_of(entries@).contains_key(k) <==> sm.contains_key(k) || exists|i: int|
                        0 <= i < j && other.entries@[i].0@ == k,
                forall|k: Seq<char>|
                    sm.contains_key(k) ==> #[trigger] map_of(entries@)[k] == sm[k],
                forall|k: Seq<char>|
                    map_of(entries@).contains_key(k) && !sm.contains_key(k) ==> #[trigger] map_of(
                        entries@,
                    )[k] == om[k],
            decreases n - j,
        {
            let key_present = {
                let key = other.entries[j].0.as_str();
                proof {
                    lemma_map_of_contains(entries@, key@);
                }
                match find_entry(&entries, key) {
                    Some(_) => true,
                    None => false,
                }
            };
            if !key_present {
                let key = other.entries[j].0.clone();
                let value = other.entries[j].1.clone();
                let ghost cur = entries@;
                proof {
                    lemma_map_of_contains(cur, key@);
                    lemma_map_of_push(cur, (key, value));
                    lemma_map_of_index(other.entries@, j as int);
                }
                entries.push((key, value));
            } else {
                proof {
                    lemma_map_of_index(other.entries@, j as int);
                }
            }
            j = j + 1;
        }
        proof {
            assert forall|k: Seq<char>| #[trigger]
                om.contains_key(k) implies exists|i: int|
                0 <= i < n && other.entries@[i].0@ == k by {
                lemma_map_of_contains(other.entries@, k);
            }
            assert forall|k: Seq<char>|
                (exists|i: int| 0 <= i < n && other.entries@[i].0@ == k) implies #[trigger]
                om.contains_key(k) by {
                lemma_map_of_contains(other.entries@, k);
            }
            assert(map_of(entries@) =~= om.union_prefer_right(sm));
        }
        self.entries = entries;
    }
}

/// The mathematical content of a model record.
pub ghost struct ModelView {
    pub parent: Option<Seq<char>>,
    pub textures: Option<Map<Seq<char>, Seq<char>>>,
}

/// A model record, as decoded from a model file: an optional parent
/// reference and an optional texture-variable map. Only these two fields
/// take part in parent-chain resolution.
pub struct Model {
    /// The identifier of the parent model, of the same kind as this model.
    pub parent: Option<String>,
    /// The texture variables this model declares.
    pub textures: Option<Textures>,
}

impl View for Model {
    type V = ModelView;

    open spec fn view(&self) -> ModelView {
        ModelView {
            parent: match self.parent {
                Some(p) => Some(p@),
                None => None,
            },
            textures: match self.textures {
                Some(t) => Some(t@),
                None => None,
            },
        }
    }
}

impl DeepView for Model {
    type V = ModelView;

    open spec fn deep_view(&self) -> ModelView {
        self.view()
    }
}

impl Clone for Model {
    /// A copy with an equal view.
    fn clone(&self) -> (r: Model)
        ensures
            r@ == self@,
    {
        Model {
            parent: match &self.parent {
                Some(p) => Some(p.clone()),
                None => None,
            },
            textures: match &self.textures {
                Some(t) => Some(t.clone()),
                None => None,
            },
        }
    }
}

/// Whether a chain walk stops at this model: it has no parent, or its parent
/// is a builtin reference, which no file backs.
pub open spec fn spec_parent_terminal(m: ModelView) -> bool {
    match m.parent {
        Some(p) => spec_is_builtin(p),
        None => true,
    }
}

impl Model {
    /// A model without parent or textures.
    pub fn new() -> (r: Model)
        ensures
            r@.parent is None,
            r@.textures is None,
    {
        Model { parent: None, textures: None }
    }

    /// The location of this model's parent: a location of the given kind
    /// whose identifier is the raw parent string. Returns `None` when the
    /// chain stops here, that is, when there is no parent or the parent is a
    /// builtin reference.
    pub fn parent_location(&self, kind: ResourceKind) -> (r: Option<ResourceLocation>)
        ensures
            match r {
                Some(loc) => {
                    &&& !spec_parent_terminal(self@)
                    &&& self@.parent matches Some(p) && loc@.id == p
                    &&& loc@.kind == kind
                },
                None => spec_parent_terminal(self@),
            },
    {
        match &self.parent {
            Some(p) => {
                if ModelIdentifier::is_builtin(p.as_str()) {
                    None
                } else {
                    Some(ResourceLocation::new(kind, p.as_str()))
                }
            },
            None => None,
        }
    }
}

} // verus!
