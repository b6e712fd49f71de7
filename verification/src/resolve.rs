//! The model parent-chain walker and the texture resolver.
//!
//! A walk starts at a model location, loads the record there through a
//! caller-supplied [`ModelLoader`], and follows `parent` references until a
//! record has no parent or the parent is a builtin reference. The walk is
//! storage-agnostic: the loader capability is the only way records are
//! obtained. Parents are always resolved with the kind of the starting
//! location; the kind is never inferred from the parent string.
//!
//! The walk keeps the set of locations it has visited and stops with
//! [`WalkError::Cycle`] when a location repeats. A cyclic parent chain would
//! otherwise loop forever; the visited-set safeguard makes every walk
//! terminate.

use vstd::prelude::*;

use crate::assoc::find_entry;
use crate::assoc::lemma_map_of_contains;
use crate::assoc::lemma_map_of_index;
use crate::assoc::lemma_map_of_push;
use crate::assoc::lemma_map_of_update;
use crate::assoc::map_of;
use crate::assoc::unique_keys;
use crate::kind::ResourceKind;
use crate::location::LocationView;
use crate::location::ResourceLocation;
use crate::models::spec_parent_terminal;
use crate::models::spec_is_variable_ref;
use crate::models::spec_ref_target;
use crate::models::spec_resolve;
use crate::models::Model;
use crate::models::ModelView;
use crate::models::Textures;
use crate::strings::vec_contains_str;

verus! {

/// Why a walk stopped without producing a chain.
#[derive(Debug)]
pub enum WalkError<E> {
    /// A load failed; the loader's failure is carried unchanged.
    Load(E),
    /// The parent chain revisited a location it had already loaded.
    Cycle,
}

/// A capability that produces one model record per location. The walker and
/// the texture resolver are written against this interface alone and never
/// touch a storage mechanism themselves.
pub trait ModelLoader {
    /// The loader's own failure type, propagated unchanged through a walk.
    type Error;

    /// The record this loader yields at a location, or `None` where loading
    /// fails.
    spec fn loads(&self, loc: LocationView) -> Option<ModelView>;

    /// The set of locations this loader can serve. A loader serves finitely
    /// many records.
    spec fn loadable(&self) -> Set<LocationView>;

    /// The loadable set is finite and covers every location that loads.
    proof fn lemma_loadable(&self)
        ensures
            self.loadable().finite(),
            forall|loc: LocationView| self.loads(loc) is Some ==> self.loadable().contains(loc);

    /// Loads the record at `location`, or fails exactly where [`Self::loads`]
    /// is `None`.
    fn load_model(&self, location: &ResourceLocation) -> (r: Result<Model, Self::Error>)
        ensures
            match r {
                Ok(m) => self.loads(location@) == Some(m@),
                Err(_) => self.loads(location@) is None,
            };
}

/// The location a model's parent reference points at: same kind as the walk,
/// identifier taken raw from the parent string.
pub open spec fn spec_next_loc(kind: ResourceKind, m: ModelView) -> LocationView
    recommends
        m.parent is Some,
{
    LocationView { kind, id: m.parent->0 }
}

/// The location visited at step `i` of a walk from `start` that loaded the
/// records `ms`: the start itself at step 0, afterwards the location named
/// by the previous record's parent.
pub open spec fn spec_chain_loc(start: LocationView, ms: Seq<ModelView>, i: int) -> LocationView
    recommends
        0 <= i <= ms.len(),
{
    if i == 0 {
        start
    } else {
        spec_next_loc(start.kind, ms[i - 1])
    }
}

/// `ms` are the first records of the walk from `start`, in child-to-root
/// order: each is what the loader yields at its step's location, and every
/// record before the last has a parent that is neither absent nor builtin.
pub open spec fn spec_chain_prefix<L: ModelLoader>(
    loader: &L,
    start: LocationView,
    ms: Seq<ModelView>,
) -> bool {
    forall|i: int|
        0 <= i < ms.len() ==> {
            &&& (i > 0 ==> !spec_parent_terminal(ms[i - 1]))
            &&& loader.loads(#[trigger] spec_chain_loc(start, ms, i)) == Some(ms[i])
        }
}

/// A complete walk: at least the starting record, consecutive records linked
/// by parent references, and a final record at which the walk stops, because
/// it has no parent or its parent is builtin.
pub open spec fn spec_model_chain<L: ModelLoader>(
    loader: &L,
    start: LocationView,
    ms: Seq<ModelView>,
) -> bool {
    &&& ms.len() >= 1
    &&& spec_chain_prefix(loader, start, ms)
    &&& spec_parent_terminal(ms.last())
}

/// A walk that stops on a failing load: after the records `ms`, the next
/// location — the start itself when `ms` is empty — fails to load.
pub open spec fn spec_chain_fails<L: ModelLoader>(
    loader: &L,
    start: LocationView,
    ms: Seq<ModelView>,
) -> bool {
    &&& spec_chain_prefix(loader, start, ms)
    &&& ms.len() > 0 ==> !spec_parent_terminal(ms.last())
    &&& loader.loads(spec_chain_loc(start, ms, ms.len() as int)) is None
}

/// A walk that closes a cycle: after the records `ms`, the next location is
/// one the walk has already visited.
pub open spec fn spec_chain_cycles<L: ModelLoader>(
    loader: &L,
    start: LocationView,
    ms: Seq<ModelView>,
) -> bool {
    &&& spec_chain_prefix(loader, start, ms)
    &&& ms.len() >= 1
    &&& !spec_parent_terminal(ms.last())
    &&& exists|i: int|
        0 <= i < ms.len() && #[trigger] spec_chain_loc(start, ms, i) == spec_chain_loc(
            start,
            ms,
            ms.len() as int,
        )
}

/// One level of texture resolution, executed as the walk hands over a
/// record's texture map: the accumulator's indirections are substituted once
/// against the level, the level's indirections once against the updated
/// accumulator, and the two are merged with the accumulator — the more-child
/// bindings — taking precedence. A record without textures contributes
/// nothing.
pub open spec fn spec_apply_level(
    resolved: Map<Seq<char>, Seq<char>>,
    level: Option<Map<Seq<char>, Seq<char>>>,
) -> Map<Seq<char>, Seq<char>> {
    match level {
        None => resolved,
        Some(l) => {
            let r2 = spec_resolve(resolved, l);
            let l2 = spec_resolve(l, r2);
            l2.union_prefer_right(r2)
        },
    }
}

/// The texture map of a whole chain: every level applied in child-to-root
/// order, starting from the empty accumulator.
pub open spec fn spec_resolve_chain(ms: Seq<ModelView>) -> Map<Seq<char>, Seq<char>>
    decreases ms.len(),
{
    if ms.len() == 0 {
        Map::empty()
    } else {
        spec_apply_level(spec_resolve_chain(ms.drop_last()), ms.last().textures)
    }
}

/// Appending a record does not change the locations of the steps already
/// taken.
proof fn lemma_chain_loc_push(start: LocationView, ms: Seq<ModelView>, m: ModelView, i: int)
    requires
        0 <= i <= ms.len(),
    ensures
        spec_chain_loc(start, ms.push(m), i) == spec_chain_loc(start, ms, i),
{
}

/// A chain prefix extends by one record when the next location loads it.
proof fn lemma_chain_prefix_push<L: ModelLoader>(
    loader: &L,
    start: LocationView,
    ms: Seq<ModelView>,
    m: ModelView,
)
    requires
        spec_chain_prefix(loader, start, ms),
        ms.len() > 0 ==> !spec_parent_terminal(ms.last()),
        loader.loads(spec_chain_loc(start, ms, ms.len() as int)) == Some(m),
    ensures
        spec_chain_prefix(loader, start, ms.push(m)),
{
    let p = ms.push(m);
    assert forall|i: int| 0 <= i < p.len() implies {
        &&& (i > 0 ==> !spec_parent_terminal(p[i - 1]))
        &&& loader.loads(#[trigger] spec_chain_loc(start, p, i)) == Some(p[i])
    } by {
        lemma_chain_loc_push(start, ms, m, i);
        if i < ms.len() {
            assert(p[i] == ms[i]);
            if i > 0 {
                assert(p[i - 1] == ms[i - 1]);
            }
        } else {
            assert(p[i] == m);
            if i > 0 {
                assert(p[i - 1] == ms[i - 1]);
                assert(ms[i - 1] == ms.last());
            }
        }
    }
}

/// Methods for resolving the properties of a model with respect to its
/// parents.
pub struct ModelResolver;

impl ModelResolver {
    /// Loads a model and all of its ancestors, child first, root last.
    ///
    /// Load failures are propagated unchanged; a parent chain that revisits
    /// a location stops with [`WalkError::Cycle`] instead of looping
    /// forever.
    pub fn load_model_recursive<L: ModelLoader>(loader: &L, start: &ResourceLocation) -> (r:
        Result<Vec<Model>, WalkError<L::Error>>)
        ensures
            match r {
                Ok(models) => spec_model_chain(loader, start@, models.deep_view()),
                Err(WalkError::Load(_)) => exists|ms: Seq<ModelView>|
                    spec_chain_fails(loader, start@, ms),
                Err(WalkError::Cycle) => exists|ms: Seq<ModelView>|
                    spec_chain_cycles(loader, start@, ms),
            },
    {
        let mut models: Vec<Model> = Vec::new();
        let mut seen: Vec<String> = Vec::new();
        let ghost mut visited: Set<LocationView> = Set::empty();
        let mut current: ResourceLocation = start.to_owned();

        loop
            invariant
                current@.kind == start@.kind,
                models@.len() == seen@.len(),
                spec_chain_prefix(loader, start@, models.deep_view()),
                current@ == spec_chain_loc(start@, models.deep_view(), models@.len() as int),
                models@.len() > 0 ==> !spec_parent_terminal(models.deep_view().last()),
                forall|i: int|
                    0 <= i < seen@.len() ==> #[trigger] seen@[i]@ == spec_chain_loc(
                        start@,
                        models.deep_view(),
                        i,
                    ).id,
                forall|l: LocationView| #[trigger] visited.contains(l) ==> exists|i: int|
                    0 <= i < seen@.len() && seen@[i]@ == l.id,
            decreases loader.loadable().difference(visited).len(),
        {
            let ghost ms_old = models.deep_view();
            let ghost len_old = models@.len() as int;
            let ghost cur0 = current@;
            let ghost seen0 = seen@;
            if vec_contains_str(&seen, current.as_str()) {
                proof {
                    let i = choose|i: int| 0 <= i < seen@.len() && seen@[i]@ == cur0.id;
                    assert(spec_chain_loc(start@, ms_old, i).kind == start@.kind);
                    assert(spec_chain_loc(start@, ms_old, i) == cur0);
                    assert(spec_chain_cycles(loader, start@, ms_old));
                }
                return Err(WalkError::Cycle);
            }
            proof {
                assert(!visited.contains(cur0));
            }
            seen.push(current.as_str().to_owned());
            let ghost visited_old = visited;
            proof {
                visited = visited.insert(cur0);
            }
            match loader.load_model(&current) {
                Err(e) => {
                    proof {
                        assert(spec_chain_fails(loader, start@, ms_old));
                    }
                    return Err(WalkError::Load(e));
                },
                Ok(model) => {
                    let ghost mv = model@;
                    let next = model.parent_location(current.kind());
                    models.push(model);
                    proof {
                        assert(models.deep_view() =~= ms_old.push(mv));
                        lemma_chain_prefix_push(loader, start@, ms_old, mv);
                    }
                    match next {
                        None => {
                            proof {
                                assert(models.deep_view().last() == mv);
                            }
                            return Ok(models);
                        },
                        Some(loc) => {
                            current = loc;
                            proof {
                                let ms_new = models.deep_view();
                                lemma_chain_loc_push(start@, ms_old, mv, len_old);
                                assert(ms_new[len_old] == mv);
                                assert(current@ == spec_chain_loc(start@, ms_new, len_old + 1));
                                assert forall|i: int| 0 <= i < seen@.len() implies #[trigger]
                                    seen@[i]@ == spec_chain_loc(start@, ms_new, i).id by {
                                    lemma_chain_loc_push(start@, ms_old, mv, i);
                                    if i == len_old {
                                        assert(seen@[i]@ == cur0.id);
                                        assert(spec_chain_loc(start@, ms_new, i) == cur0);
                                    } else {
                                        assert(seen@[i] == seen0[i]);
                                        assert(seen0[i]@ == spec_chain_loc(
                                            start@,
                                            ms_old,
                                            i,
                                        ).id);
                                    }
                                }
                                assert forall|l: LocationView| #[trigger]
                                    visited.contains(l) implies exists|i: int|
                                    0 <= i < seen@.len() && seen@[i]@ == l.id by {
                                    if l == cur0 {
                                        assert(seen@[len_old]@ == l.id);
                                    } else {
                                        assert(visited_old.contains(l));
                                        let i = choose|i: int|
                                            0 <= i < seen0.len() && seen0[i]@ == l.id;
                                        assert(seen@[i] == seen0[i]);
                                        assert(seen@[i]@ == l.id);
                                    }
                                }
                                loader.lemma_loadable();
                                assert(loader.loadable().contains(cur0));
                                loader.loadable().lemma_set_insert_diff_decreases(
                                    visited_old,
                                    cur0,
                                );
                            }
                        },
                    }
                },
            }
        }
    }

    /// The merged texture map of a loaded chain: every level's contribution
    /// applied in child-to-root order.
    pub fn merge_textures(models: &Vec<Model>) -> (t: Textures)
        ensures
            t@ == spec_resolve_chain(models.deep_view()),
    {
        let ghost ms = models.deep_view();
        let mut textures = Textures::new();
        let n = models.len();
        let mut i: usize = 0;
        proof {
            assert(ms.take(0) =~= Seq::<ModelView>::empty());
        }
        while i < n
            invariant
                0 <= i <= n,
                n == models@.len(),
                ms == models.deep_view(),
                ms.len() == n,
                textures@ == spec_resolve_chain(ms.take(i as int)),
            decreases n - i,
        {
            match &models[i].textures {
                Some(level) => {
                    let mut level_copy = level.clone();
                    textures.resolve(&level_copy);
                    level_copy.resolve(&textures);
                    textures.merge(level_copy);
                },
                None => {
                },
            }
            proof {
                assert(ms.take(i + 1).drop_last() =~= ms.take(i as int));
                assert(ms.take(i + 1).last() == ms[i as int]);
                assert(ms[i as int].textures == models@[i as int]@.textures);
            }
            i = i + 1;
        }
        proof {
            assert(ms.take(n as int) =~= ms);
        }
        textures
    }

    /// Walks the parent chain of the model at `start` and returns the fully
    /// merged mapping from texture-variable name to value. The first failing
    /// load aborts the walk; no partial map is returned.
    pub fn resolve_textures<L: ModelLoader>(loader: &L, start: &ResourceLocation) -> (r: Result<
        Textures,
        WalkError<L::Error>,
    >)
        ensures
            match r {
                Ok(t) => exists|ms: Seq<ModelView>|
                    spec_model_chain(loader, start@, ms) && t@ == spec_resolve_chain(ms),
                Err(WalkError::Load(_)) => exists|ms: Seq<ModelView>|
                    spec_chain_fails(loader, start@, ms),
                Err(WalkError::Cycle) => exists|ms: Seq<ModelView>|
                    spec_chain_cycles(loader, start@, ms),
            },
    {
        match Self::load_model_recursive(loader, start) {
            Ok(models) => {
                let textures = Self::merge_textures(&models);
                proof {
                    let ms = models.deep_view();
                    assert(spec_model_chain(loader, start@, ms) && textures@
                        == spec_resolve_chain(ms));
                }
                Ok(textures)
            },
            Err(e) => Err(e),
        }
    }
}

/// Whether a record's own texture map binds the variable `k`.
pub open spec fn spec_level_defines(m: ModelView, k: Seq<char>) -> bool {
    m.textures matches Some(l) && l.contains_key(k)
}

/// A variable no level of the chain defines is absent from the merged map.
proof fn lemma_chain_undefined(ms: Seq<ModelView>, k: Seq<char>)
    requires
        forall|j: int| 0 <= j < ms.len() ==> !spec_level_defines(#[trigger] ms[j], k),
    ensures
        !spec_resolve_chain(ms).contains_key(k),
    decreases ms.len(),
{
    if ms.len() > 0 {
        let pre = ms.drop_last();
        assert(forall|j: int| 0 <= j < pre.len() ==> #[trigger] pre[j] == ms[j]);
        lemma_chain_undefined(pre, k);
        assert(!spec_level_defines(ms.last(), k));
    }
}

/// Merge precedence at one level: a variable the accumulator binds to a
/// concrete value keeps that value when a more-ancestral level is applied,
/// whatever that level binds it to.
pub proof fn lemma_apply_level_precedence(
    resolved: Map<Seq<char>, Seq<char>>,
    level: Map<Seq<char>, Seq<char>>,
    k: Seq<char>,
)
    requires
        resolved.contains_key(k),
        !spec_is_variable_ref(resolved[k]),
    ensures
        spec_apply_level(resolved, Some(level)).contains_key(k),
        spec_apply_level(resolved, Some(level))[k] == resolved[k],
{
}

/// Merge precedence over a whole chain: a variable the child level binds to
/// a concrete value keeps that value in the final merged map, whatever any
/// more-ancestral level binds it to.
pub proof fn lemma_merge_precedence(ms: Seq<ModelView>, k: Seq<char>)
    requires
        ms.len() >= 1,
        spec_level_defines(ms[0], k),
        !spec_is_variable_ref(ms[0].textures->0[k]),
    ensures
        spec_resolve_chain(ms).contains_key(k),
        spec_resolve_chain(ms)[k] == ms[0].textures->0[k],
    decreases ms.len(),
{
    let v = ms[0].textures->0[k];
    if ms.len() == 1 {
        assert(ms.drop_last().len() == 0);
        assert(spec_resolve_chain(ms.drop_last()) == Map::<Seq<char>, Seq<char>>::empty());
        assert(ms.last() == ms[0]);
        let l = ms[0].textures->0;
        let r2 = spec_resolve(Map::<Seq<char>, Seq<char>>::empty(), l);
        assert(!r2.contains_key(k));
        assert(spec_resolve(l, r2)[k] == v);
        assert(spec_resolve_chain(ms) == spec_apply_level(
            Map::<Seq<char>, Seq<char>>::empty(),
            ms[0].textures,
        ));
    } else {
        let pre = ms.drop_last();
        assert(pre[0] == ms[0]);
        lemma_merge_precedence(pre, k);
        match ms.last().textures {
            None => {
            },
            Some(l) => {
                lemma_apply_level_precedence(spec_resolve_chain(pre), l, k);
            },
        }
    }
}

/// Unresolved indirection: a variable first bound, at some level, to an
/// indirection whose target no level in the chain defines keeps the literal
/// indirection, unchanged, in the final merged map.
pub proof fn lemma_unresolved_indirection(ms: Seq<ModelView>, n: int, k: Seq<char>, t: Seq<char>)
    requires
        0 <= n < ms.len(),
        spec_level_defines(ms[n], k),
        spec_is_variable_ref(ms[n].textures->0[k]),
        spec_ref_target(ms[n].textures->0[k]) == t,
        forall|j: int| 0 <= j < ms.len() ==> !spec_level_defines(#[trigger] ms[j], t),
        forall|j: int| 0 <= j < n ==> !spec_level_defines(#[trigger] ms[j], k),
    ensures
        spec_resolve_chain(ms).contains_key(k),
        spec_resolve_chain(ms)[k] == ms[n].textures->0[k],
    decreases ms.len(),
{
    let v = ms[n].textures->0[k];
    let pre = ms.drop_last();
    assert(forall|j: int| 0 <= j < pre.len() ==> #[trigger] pre[j] == ms[j]);
    if n == ms.len() - 1 {
        lemma_chain_undefined(pre, k);
        lemma_chain_undefined(pre, t);
        let resolved = spec_resolve_chain(pre);
        let l = ms[n].textures->0;
        let r2 = spec_resolve(resolved, l);
        assert(!r2.contains_key(k));
        assert(!r2.contains_key(t));
        assert(spec_resolve(l, r2)[k] == v);
    } else {
        lemma_unresolved_indirection(pre, n, k, t);
        match ms.last().textures {
            None => {
            },
            Some(l) => {
                let resolved = spec_resolve_chain(pre);
                let r2 = spec_resolve(resolved, l);
                assert(!spec_level_defines(ms.last(), t));
                assert(r2[k] == v);
            },
        }
    }
}

/// The mathematical content of a model store: the kind it serves and the
/// mapping from identifier to record.
pub ghost struct StoreView {
    pub kind: ResourceKind,
    pub models: Map<Seq<char>, ModelView>,
}

/// The store has no record at the requested location.
#[derive(Debug)]
pub struct ModelNotFound;

/// An in-memory model loader: records of one kind, keyed by the raw
/// identifier string of their location.
pub struct ModelStore {
    kind: ResourceKind,
    entries: Vec<(String, Model)>,
}

impl ModelStore {
    /// Entries carry pairwise distinct keys.
    #[verifier::type_invariant]
    spec fn wf(self) -> bool {
        unique_keys(self.entries@)
    }
}

impl View for ModelStore {
    type V = StoreView;

    closed spec fn view(&self) -> StoreView {
        StoreView { kind: self.kind, models: map_of(self.entries@) }
    }
}

impl ModelStore {
    /// An empty store of records of the given kind.
    pub fn new(kind: ResourceKind) -> (r: ModelStore)
        ensures
            r@.kind == kind,
            r@.models == Map::<Seq<char>, ModelView>::empty(),
    {
        ModelStore { kind, entries: Vec::new() }
    }

    /// Binds the identifier `id` to `model`, replacing any existing record.
    pub fn insert(&mut self, id: String, model: Model)
        ensures
            final(self)@.kind == old(self)@.kind,
            final(self)@.models == old(self)@.models.insert(id@, model@),
    {
        proof {
            use_type_invariant(&*self);
        }
        let ghost es = self.entries@;
        let mut entries: Vec<(String, Model)> = Vec::new();
        core::mem::swap(&mut entries, &mut self.entries);
        match find_entry(&entries, id.as_str()) {
            Some(i) => {
                proof {
                    lemma_map_of_update(es, i as int, (id, model));
                }
                entries[i] = (id, model);
            },
            None => {
                proof {
                    lemma_map_of_push(es, (id, model));
                }
                entries.push((id, model));
            },
        }
        self.entries = entries;
    }
}

impl ModelLoader for ModelStore {
    type Error = ModelNotFound;

    /// A location loads when its kind is the store's kind and its raw
    /// identifier is a key of the store.
    open spec fn loads(&self, loc: LocationView) -> Option<ModelView> {
        if loc.kind == self@.kind && self@.models.contains_key(loc.id) {
            Some(self@.models[loc.id])
        } else {
            None
        }
    }

    open spec fn loadable(&self) -> Set<LocationView> {
        Set::new(|loc: LocationView| loc.kind == self@.kind && self@.models.contains_key(loc.id))
    }

    proof fn lemma_loadable(&self) {
        let kind = self.kind;
        let es = self.entries@;
        let keys = es.map_values(|e: (String, Model)| LocationView { kind, id: e.0@ });
        vstd::seq_lib::seq_to_set_is_finite::<LocationView>(keys);
        assert forall|loc: LocationView| #[trigger]
            self.loadable().contains(loc) == keys.to_set().contains(loc) by {
            lemma_map_of_contains(es, loc.id);
            if self.loadable().contains(loc) {
                let i = choose|i: int| 0 <= i < es.len() && es[i].0@ == loc.id;
                assert(keys[i] == loc);
                assert(keys.contains(loc));
            }
            if keys.to_set().contains(loc) {
                let i = choose|i: int| 0 <= i < keys.len() && keys[i] == loc;
                assert(es[i].0@ == loc.id);
            }
        }
        assert(self.loadable() =~= keys.to_set());
    }

    fn load_model(&self, location: &ResourceLocation) -> (r: Result<Model, ModelNotFound>) {
        proof {
            use_type_invariant(&*self);
            lemma_map_of_contains(self.entries@, location@.id);
        }
        if location.kind() == self.kind {
            match find_entry(&self.entries, location.as_str()) {
                Some(i) => {
                    proof {
                        lemma_map_of_index(self.entries@, i as int);
                    }
                    Ok(self.entries[i].1.clone())
                },
                None => Err(ModelNotFound),
            }
        } else {
            Err(ModelNotFound)
        }
    }
}

} // verus!
