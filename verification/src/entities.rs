//! The entity registry: entities with their aliases and components, an index of
//! entities by location, and per-component change tracking.
use vstd::prelude::*;
use std::collections::HashMap;
use std::collections::HashSet;
use vstd::hash_map::StringHashMap;
use vstd::std_specs::cmp::PartialEqSpecImpl;
use vstd::std_specs::iter::IteratorSpec;
use crate::model::ids::{uuid_text, Alias, EntityId};
use crate::text::{cat3, debug_string, debug_text};
use crate::event::{EventTarget, EventTargetResolver};

verus! {

broadcast use vstd::std_specs::hash::group_hash_axioms;

/// A map keyed by raw identifiers, seen as a map keyed by `EntityId`.
pub open spec fn by_entity<V, W>(m: Map<u128, V>, f: spec_fn(V) -> W) -> Map<EntityId, W> {
    Map::new(|e: EntityId| m.contains_key(e.uuid), |e: EntityId| f(m[e.uuid]))
}

pub proof fn lemma_by_entity_insert<V, W>(m: Map<u128, V>, f: spec_fn(V) -> W, k: u128, v: V)
    ensures
        by_entity(m.insert(k, v), f) == by_entity(m, f).insert(EntityId { uuid: k }, f(v)),
{
    assert(by_entity(m.insert(k, v), f) =~= by_entity(m, f).insert(EntityId { uuid: k }, f(v)));
}

pub proof fn lemma_by_entity_remove<V, W>(m: Map<u128, V>, f: spec_fn(V) -> W, k: u128)
    ensures
        by_entity(m.remove(k), f) == by_entity(m, f).remove(EntityId { uuid: k }),
{
    assert(by_entity(m.remove(k), f) =~= by_entity(m, f).remove(EntityId { uuid: k }));
}

/// The position of an entity: the entity (a room, or a carrier) that holds it.
#[derive(Clone, Copy, PartialEq, Eq, Structural, Hash, Debug)]
pub struct Location {
    pub value: EntityId,
}

impl Location {
    pub fn new(id: EntityId) -> (location: Location)
        ensures
            location.value == id,
    {
        Location { value: id }
    }
}

/// The display name of an entity.
#[derive(Debug)]
pub struct Name {
    pub text: String,
}

impl View for Name {
    type V = Seq<char>;

    open spec fn view(&self) -> Seq<char> {
        self.text@
    }
}

impl Clone for Name {
    fn clone(&self) -> (copy: Name)
        ensures
            copy@ == self@,
    {
        Name { text: self.text.clone() }
    }
}

impl PartialEq for Name {
    fn eq(&self, other: &Self) -> (r: bool) {
        self.text == other.text
    }
}

impl PartialEqSpecImpl for Name {
    open spec fn obeys_eq_spec() -> bool {
        true
    }

    open spec fn eq_spec(&self, other: &Name) -> bool {
        self.text@ == other.text@
    }
}

impl From<String> for Name {
    fn from(value: String) -> (name: Name) {
        Name { text: value }
    }
}

impl vstd::std_specs::convert::FromSpecImpl<String> for Name {
    open spec fn obeys_from_spec() -> bool {
        true
    }

    open spec fn from_spec(v: String) -> Name {
        Name { text: v }
    }
}

impl Name {
    /// Makes a name from borrowed text.
    pub fn new(value: &str) -> (name: Name)
        ensures
            name@ == value@,
    {
        Name { text: value.to_string() }
    }

    pub fn as_str(&self) -> (text: &str)
        ensures
            text@ == self@,
    {
        self.text.as_str()
    }

    /// The display form of the name: its text.
    pub fn to_string(&self) -> (text: String)
        ensures
            text@ == self@,
    {
        self.text.clone()
    }
}

/// The description of an entity.
#[derive(Debug)]
pub struct Description {
    pub text: String,
}

impl View for Description {
    type V = Seq<char>;

    open spec fn view(&self) -> Seq<char> {
        self.text@
    }
}

impl Clone for Description {
    fn clone(&self) -> (copy: Description)
        ensures
            copy@ == self@,
    {
        Description { text: self.text.clone() }
    }
}

impl PartialEq for Description {
    fn eq(&self, other: &Self) -> (r: bool) {
        self.text == other.text
    }
}

impl PartialEqSpecImpl for Description {
    open spec fn obeys_eq_spec() -> bool {
        true
    }

    open spec fn eq_spec(&self, other: &Description) -> bool {
        self.text@ == other.text@
    }
}

impl From<String> for Description {
    fn from(value: String) -> (description: Description) {
        Description { text: value }
    }
}

impl vstd::std_specs::convert::FromSpecImpl<String> for Description {
    open spec fn obeys_from_spec() -> bool {
        true
    }

    open spec fn from_spec(v: String) -> Description {
        Description { text: v }
    }
}

impl Description {
    /// Makes a description from borrowed text.
    pub fn new(value: &str) -> (description: Description)
        ensures
            description@ == value@,
    {
        Description { text: value.to_string() }
    }

    /// The display form of the description: its text.
    pub fn to_string(&self) -> (text: String)
        ensures
            text@ == self@,
    {
        self.text.clone()
    }
}

/// Marker component for player characters.
#[derive(Clone, Copy, Debug)]
pub struct Player;

/// Marker component for items.
#[derive(Clone, Copy, Debug)]
pub struct Item;

/// Marker component for non-player characters.
#[derive(Clone, Copy, Debug)]
pub struct Npc;

/// The location where an entity is placed when it is (re)spawned.
#[derive(Clone, Copy, PartialEq, Eq, Structural, Hash, Debug)]
pub struct SpawnLocation {
    pub value: EntityId,
}

impl SpawnLocation {
    pub fn from_location(location: &Location) -> (spawn: SpawnLocation)
        ensures
            spawn.value == location.value,
    {
        SpawnLocation { value: location.value }
    }
}

/// The kinds of component an entity can have.
#[derive(Clone, Copy, PartialEq, Eq, Structural, Hash, Debug)]
pub enum ComponentKind {
    Location,
    SpawnLocation,
    Name,
    Description,
    Player,
    Item,
    Npc,
}

/// The value of a component, whatever its kind.
pub enum ComponentValue {
    Location(EntityId),
    SpawnLocation(EntityId),
    Name(Seq<char>),
    Description(Seq<char>),
    Player,
    Item,
    Npc,
}

pub open spec fn kind_code(k: ComponentKind) -> u8 {
    match k {
        ComponentKind::Location => 0,
        ComponentKind::SpawnLocation => 1,
        ComponentKind::Name => 2,
        ComponentKind::Description => 3,
        ComponentKind::Player => 4,
        ComponentKind::Item => 5,
        ComponentKind::Npc => 6,
    }
}

pub proof fn lemma_kind_code_injective(a: ComponentKind, b: ComponentKind)
    ensures
        kind_code(a) == kind_code(b) ==> a == b,
{
}

impl ComponentKind {
    pub fn code(&self) -> (c: u8)
        ensures
            c == kind_code(*self),
    {
        match self {
            ComponentKind::Location => 0,
            ComponentKind::SpawnLocation => 1,
            ComponentKind::Name => 2,
            ComponentKind::Description => 3,
            ComponentKind::Player => 4,
            ComponentKind::Item => 5,
            ComponentKind::Npc => 6,
        }
    }
}

/// The position of each positioned entity, and for each position the entities there.
pub struct LocationMap {
    location_by_id: HashMap<u128, Location>,
    id_by_location: HashMap<u128, HashSet<u128>>,
}

impl LocationMap {
    /// The position of each positioned entity.
    pub closed spec fn positions(&self) -> Map<EntityId, Location> {
        by_entity(self.location_by_id@, |l: Location| l)
    }

    /// The index agrees with the positions: an entity is listed under a position exactly
    /// when that is its position.
    pub closed spec fn wf(&self) -> bool {
        &&& forall|e: u128| #[trigger] self.location_by_id@.contains_key(e) ==> {
            let l = self.location_by_id@[e].value.uuid;
            self.id_by_location@.contains_key(l) && self.id_by_location@[l]@.contains(e)
        }
        &&& forall|l: u128, e: u128| #[trigger] self.id_by_location@.contains_key(l)
            && #[trigger] self.id_by_location@[l]@.contains(e) ==> self.location_by_id@.contains_key(e)
            && self.location_by_id@[e].value.uuid == l
    }

    pub fn new() -> (map: LocationMap)
        ensures
            map.wf(),
            map.positions() == Map::<EntityId, Location>::empty(),
    {
        let map = LocationMap { location_by_id: HashMap::new(), id_by_location: HashMap::new() };
        assert(map.positions() =~= Map::<EntityId, Location>::empty());
        map
    }

    /// Takes `id` out of the index entry of its current position, if it has one.
    fn unlist(&mut self, id: &EntityId)
        requires
            old(self).wf(),
        ensures
            final(self).location_by_id@ == old(self).location_by_id@,
            forall|l: u128, e: u128| #[trigger] final(self).id_by_location@.contains_key(l)
                && #[trigger] final(self).id_by_location@[l]@.contains(e) ==> e != id.uuid
                && old(self).id_by_location@.contains_key(l) && old(self).id_by_location@[l]@.contains(e),
            forall|l: u128, e: u128| #[trigger] old(self).id_by_location@.contains_key(l)
                && #[trigger] old(self).id_by_location@[l]@.contains(e) && e != id.uuid
                ==> final(self).id_by_location@.contains_key(l) && final(self).id_by_location@[l]@.contains(e),
    {
        match self.location_by_id.get(&id.uuid) {
            Some(p) => {
                let key = p.value.uuid;
                match self.id_by_location.remove(&key) {
                    Some(mut set) => {
                        let ghost before = set@;
                        set.remove(&id.uuid);
                        self.id_by_location.insert(key, set);
                        proof {
                            assert forall|l: u128, e: u128| #[trigger] self.id_by_location@.contains_key(l)
                                && #[trigger] self.id_by_location@[l]@.contains(e) implies e != id.uuid
                                && old(self).id_by_location@.contains_key(l) && old(self).id_by_location@[l]@.contains(e) by {
                                if l == key {
                                    assert(before.contains(e));
                                } else {
                                    assert(old(self).id_by_location@[l] == self.id_by_location@[l]);
                                    if e == id.uuid {
                                        assert(old(self).location_by_id@[e].value.uuid == l);
                                    }
                                }
                            }
                        }
                    },
                    None => {},
                }
            },
            None => {
                proof {
                    assert forall|l: u128, e: u128| #[trigger] self.id_by_location@.contains_key(l)
                        && #[trigger] self.id_by_location@[l]@.contains(e) implies e != id.uuid by {
                    }
                }
            },
        }
    }

    pub fn update_position(&mut self, id: &EntityId, new_location: Location)
        requires
            old(self).wf(),
        ensures
            final(self).wf(),
            final(self).positions() == old(self).positions().insert(*id, new_location),
    {
        self.unlist(id);
        let key = new_location.value.uuid;
        let mut set = match self.id_by_location.remove(&key) {
            Some(s) => s,
            None => HashSet::new(),
        };
        let ghost before = set@;
        set.insert(id.uuid);
        self.id_by_location.insert(key, set);
        self.location_by_id.insert(id.uuid, new_location);
        proof {
            lemma_by_entity_insert(old(self).location_by_id@, |l: Location| l, id.uuid, new_location);
            assert forall|e: u128| #[trigger] self.location_by_id@.contains_key(e) implies {
                let l = self.location_by_id@[e].value.uuid;
                self.id_by_location@.contains_key(l) && self.id_by_location@[l]@.contains(e)
            } by {
                if e != id.uuid {
                    let l = self.location_by_id@[e].value.uuid;
                    assert(old(self).id_by_location@.contains_key(l) && old(self).id_by_location@[l]@.contains(e));
                    if l == key {
                        assert(before.contains(e));
                    }
                }
            }
            assert forall|l: u128, e: u128| #[trigger] self.id_by_location@.contains_key(l)
                && #[trigger] self.id_by_location@[l]@.contains(e) implies self.location_by_id@.contains_key(e)
                && self.location_by_id@[e].value.uuid == l by {
                if e != id.uuid {
                    if l == key {
                        assert(before.contains(e));
                    }
                }
            }
        }
    }

    /// Removes the position of the given entity from the map.
    pub fn remove_position(&mut self, id: &EntityId)
        requires
            old(self).wf(),
        ensures
            final(self).wf(),
            final(self).positions() == old(self).positions().remove(*id),
    {
        self.unlist(id);
        self.location_by_id.remove(&id.uuid);
        proof {
            lemma_by_entity_remove(old(self).location_by_id@, |l: Location| l, id.uuid);
            assert forall|e: u128| #[trigger] self.location_by_id@.contains_key(e) implies {
                let l = self.location_by_id@[e].value.uuid;
                self.id_by_location@.contains_key(l) && self.id_by_location@[l]@.contains(e)
            } by {
                let l = self.location_by_id@[e].value.uuid;
                assert(old(self).id_by_location@.contains_key(l) && old(self).id_by_location@[l]@.contains(e));
            }
        }
    }

    /// The entities whose position is `position`, each once.
    pub fn get_at_position(&self, position: &Location) -> (r: Vec<EntityId>)
        ensures
            r@.no_duplicates(),
            self.wf() ==> forall|e: EntityId| #[trigger] r@.contains(e) <==> self.positions().contains_key(e)
                && self.positions()[e] == *position,
    {
        let mut r: Vec<EntityId> = Vec::new();
        match self.id_by_location.get(&position.value.uuid) {
            Some(set) => {
                let ghost sq = set.iter().remaining().unref();
                for x in it: set.iter()
                    invariant
                        it.seq().unref() == sq,
                        it.index() <= sq.len(),
                        sq.no_duplicates(),
                        sq.to_set() == set@,
                        r@.len() == it.index(),
                        forall|i: int| 0 <= i < r@.len() ==> r@[i].uuid == sq[i],
                {
                    r.push(EntityId { uuid: *x });
                }
                proof {
                    assert forall|i: int, j: int| 0 <= i < j < r@.len() implies r@[i] != r@[j] by {
                        assert(sq[i] != sq[j]);
                    }
                    assert forall|e: EntityId| self.wf() implies (#[trigger] r@.contains(e) <==> self.positions().contains_key(e)
                        && self.positions()[e] == *position) by {
                        if r@.contains(e) {
                            let i = choose|i: int| 0 <= i < r@.len() && r@[i] == e;
                            assert(sq.to_set().contains(sq[i]));
                            assert(set@.contains(e.uuid));
                        }
                        if self.positions().contains_key(e) && self.positions()[e] == *position {
                            assert(set@.contains(e.uuid));
                            assert(sq.to_set().contains(e.uuid));
                            let i = choose|i: int| 0 <= i < sq.len() && sq[i] == e.uuid;
                            assert(r@[i] == e);
                        }
                    }
                }
            },
            None => {
                proof {
                    assert forall|e: EntityId| self.wf() implies (#[trigger] r@.contains(e) <==> self.positions().contains_key(e)
                        && self.positions()[e] == *position) by {
                        if self.positions().contains_key(e) && self.positions()[e] == *position {
                            assert(self.location_by_id@.contains_key(e.uuid));
                        }
                    }
                }
            },
        }
        r
    }
}

/// The raw identifiers that are keys of `m`, each once.
fn keys_of<V>(m: &HashMap<u128, V>) -> (r: Vec<EntityId>)
    ensures
        r@.no_duplicates(),
        forall|e: EntityId| #[trigger] r@.contains(e) <==> m@.contains_key(e.uuid),
{
    let mut r: Vec<EntityId> = Vec::new();
    let ghost sq = m.keys().remaining().unref();
    for k in it: m.keys()
        invariant
            it.seq().unref() == sq,
            it.index() <= sq.len(),
            sq.no_duplicates(),
            sq.to_set() == m@.dom(),
            r@.len() == it.index(),
            forall|i: int| 0 <= i < r@.len() ==> r@[i].uuid == sq[i],
    {
        r.push(EntityId { uuid: *k });
    }
    proof {
        assert forall|i: int, j: int| 0 <= i < j < r@.len() implies r@[i] != r@[j] by {
            assert(sq[i] != sq[j]);
        }
        assert forall|e: EntityId| #[trigger] r@.contains(e) <==> m@.contains_key(e.uuid) by {
            if r@.contains(e) {
                let i = choose|i: int| 0 <= i < r@.len() && r@[i] == e;
                assert(sq.to_set().contains(sq[i]));
            }
            if m@.contains_key(e.uuid) {
                assert(sq.to_set().contains(e.uuid));
                let i = choose|i: int| 0 <= i < sq.len() && sq[i] == e.uuid;
                assert(r@[i] == e);
            }
        }
    }
    r
}

/// Errors from the entity registry.
#[derive(Debug)]
pub enum EntityRegistryError {
    UnknownEntity(EntityId),
    DuplicateSpawn(EntityId),
    DuplicateAlias(Alias),
    InconsistentInternalState,
}

/// The `Debug` form of an entity identifier: `EntityId(` and the hyphenated UUID, then `)`.
pub open spec fn entity_debug(e: EntityId) -> Seq<char> {
    "EntityId("@ + uuid_text(e.uuid) + ")"@
}

/// The `Debug` form of a registry error.
pub open spec fn registry_error_debug(e: EntityRegistryError) -> Seq<char> {
    match e {
        EntityRegistryError::UnknownEntity(id) => "UnknownEntity("@ + entity_debug(id) + ")"@,
        EntityRegistryError::DuplicateSpawn(id) => "DuplicateSpawn("@ + entity_debug(id) + ")"@,
        EntityRegistryError::DuplicateAlias(a) => "DuplicateAlias(Alias("@ + debug_text(a@) + "))"@,
        EntityRegistryError::InconsistentInternalState => "InconsistentInternalState"@,
    }
}

impl EntityId {
    /// The `Debug` form of the identifier.
    pub fn debug_string(&self) -> (text: String)
        ensures
            text@ == entity_debug(*self),
    {
        let id = self.to_string();
        cat3("EntityId(", id.as_str(), ")")
    }
}

impl EntityRegistryError {
    /// The `Debug` form of the error.
    pub fn debug_string(&self) -> (text: String)
        ensures
            text@ == registry_error_debug(*self),
    {
        match self {
            EntityRegistryError::UnknownEntity(id) => {
                let d = id.debug_string();
                cat3("UnknownEntity(", d.as_str(), ")")
            },
            EntityRegistryError::DuplicateSpawn(id) => {
                let d = id.debug_string();
                cat3("DuplicateSpawn(", d.as_str(), ")")
            },
            EntityRegistryError::DuplicateAlias(a) => {
                let d = debug_string(a.as_str());
                cat3("DuplicateAlias(Alias(", d.as_str(), "))")
            },
            EntityRegistryError::InconsistentInternalState => "InconsistentInternalState".to_string(),
        }
    }
}

/// All entities with their aliases and components.
pub struct EntityRegistry {
    id_to_alias: HashMap<u128, Alias>,
    alias_to_id: StringHashMap<EntityId>,
    locations: LocationMap,
    spawn_locations: HashMap<u128, SpawnLocation>,
    names: HashMap<u128, Name>,
    descriptions: HashMap<u128, Description>,
    players: HashMap<u128, Player>,
    items: HashMap<u128, Item>,
    npcs: HashMap<u128, Npc>,
    dirty: HashMap<u8, HashSet<u128>>,
}

impl EntityRegistry {
    /// The alias of each registered entity.
    pub closed spec fn aliases(&self) -> Map<EntityId, Seq<char>> {
        by_entity(self.id_to_alias@, |a: Alias| a@)
    }

    /// The entity that each alias resolves to.
    pub closed spec fn alias_index(&self) -> Map<Seq<char>, EntityId> {
        self.alias_to_id@
    }

    /// The components of one kind, by entity.
    pub closed spec fn table(&self, k: ComponentKind) -> Map<EntityId, ComponentValue> {
        match k {
            ComponentKind::Location => self.locations.positions().map_values(
                |l: Location| ComponentValue::Location(l.value),
            ),
            ComponentKind::SpawnLocation => by_entity(
                self.spawn_locations@,
                |l: SpawnLocation| ComponentValue::SpawnLocation(l.value),
            ),
            ComponentKind::Name => by_entity(self.names@, |n: Name| ComponentValue::Name(n@)),
            ComponentKind::Description => by_entity(
                self.descriptions@,
                |d: Description| ComponentValue::Description(d@),
            ),
            ComponentKind::Player => by_entity(self.players@, |p: Player| ComponentValue::Player),
            ComponentKind::Item => by_entity(self.items@, |i: Item| ComponentValue::Item),
            ComponentKind::Npc => by_entity(self.npcs@, |n: Npc| ComponentValue::Npc),
        }
    }

    /// The entities whose component of kind `k` changed since that kind was last collected.
    pub closed spec fn dirty_ids(&self, k: ComponentKind) -> Set<EntityId> {
        Set::new(
            |e: EntityId| self.dirty@.contains_key(kind_code(k)) && self.dirty@[kind_code(k)]@.contains(e.uuid),
        )
    }

    /// The location index agrees with the location components, and every entry of the
    /// alias index names a registered entity that has that alias. Every registry keeps this.
    #[verifier::type_invariant]
    pub closed spec fn wf(&self) -> bool {
        &&& self.locations.wf()
        &&& forall|a: Seq<char>| #[trigger] self.alias_to_id@.contains_key(a) ==> {
            &&& self.id_to_alias@.contains_key(self.alias_to_id@[a].uuid)
            &&& self.id_to_alias@[self.alias_to_id@[a].uuid]@ == a
        }
    }

    /// Aliases, alias index, change tracking and every component kind but `k` agree.
    pub open spec fn same_except(&self, other: &EntityRegistry, k: ComponentKind) -> bool {
        &&& self.aliases() == other.aliases()
        &&& self.alias_index() == other.alias_index()
        &&& forall|j: ComponentKind| j != k ==> #[trigger] self.table(j) == other.table(j)
        &&& forall|j: ComponentKind| #[trigger] self.dirty_ids(j) == other.dirty_ids(j)
    }

    /// Every component kind agrees.
    pub open spec fn same_tables(&self, other: &EntityRegistry) -> bool {
        forall|j: ComponentKind| #[trigger] self.table(j) == other.table(j)
    }

    /// Whether `e` is at `l` (has the location component `l`).
    pub open spec fn is_at(&self, e: EntityId, l: Location) -> bool {
        self.table(ComponentKind::Location).contains_key(e)
            && self.table(ComponentKind::Location)[e] == ComponentValue::Location(l.value)
    }
}

/// A type of component that the registry stores, one table per type.
pub trait ComponentStorage: Sized {
    spec fn kind() -> ComponentKind;

    spec fn value(&self) -> ComponentValue;

    fn kind_of() -> (k: ComponentKind)
        ensures
            k == Self::kind(),
    ;

    /// The component of this type that `entity` has, if any.
    fn get(registry: &EntityRegistry, entity: &EntityId) -> (r: Option<Self>)
        ensures
            match r {
                Some(c) => registry.table(Self::kind()).contains_key(*entity)
                    && registry.table(Self::kind())[*entity] == c.value(),
                None => !registry.table(Self::kind()).contains_key(*entity),
            },
    ;

    /// Sets the component of this type for `entity`.
    fn update(registry: &mut EntityRegistry, entity: &EntityId, component: Self)
        ensures
            final(registry).table(Self::kind()) == old(registry).table(Self::kind()).insert(
                *entity,
                component.value(),
            ),
            final(registry).same_except(old(registry), Self::kind()),
    ;

    /// Removes the component of this type from `entity`, if it has one.
    fn remove(registry: &mut EntityRegistry, entity: &EntityId)
        ensures
            final(registry).table(Self::kind()) == old(registry).table(Self::kind()).remove(*entity),
            final(registry).same_except(old(registry), Self::kind()),
    ;

    /// The entities that have a component of this type, each once.
    fn ids(registry: &EntityRegistry) -> (r: Vec<EntityId>)
        ensures
            r@.no_duplicates(),
            forall|e: EntityId| #[trigger] r@.contains(e) <==> registry.table(Self::kind()).contains_key(e),
    ;
}

impl ComponentStorage for Location {
    open spec fn kind() -> ComponentKind {
        ComponentKind::Location
    }

    open spec fn value(&self) -> ComponentValue {
        ComponentValue::Location(self.value)
    }

    fn kind_of() -> ComponentKind {
        ComponentKind::Location
    }

    fn get(registry: &EntityRegistry, entity: &EntityId) -> Option<Location> {
        match registry.locations.location_by_id.get(&entity.uuid) {
            Some(l) => Some(*l),
            None => None,
        }
    }

    fn update(registry: &mut EntityRegistry, entity: &EntityId, component: Location) {
        proof {
            use_type_invariant(&*registry);
        }
        let mut locations = LocationMap::new();
        std::mem::swap(&mut locations, &mut registry.locations);
        locations.update_position(entity, component);
        std::mem::swap(&mut locations, &mut registry.locations);
        proof {
            assert(registry.table(ComponentKind::Location) =~= old(registry).table(ComponentKind::Location).insert(*entity, component.value()));
        }
    }

    fn remove(registry: &mut EntityRegistry, entity: &EntityId) {
        proof {
            use_type_invariant(&*registry);
        }
        let mut locations = LocationMap::new();
        std::mem::swap(&mut locations, &mut registry.locations);
        locations.remove_position(entity);
        std::mem::swap(&mut locations, &mut registry.locations);
        proof {
            assert(registry.table(ComponentKind::Location) =~= old(registry).table(ComponentKind::Location).remove(*entity));
        }
    }

    fn ids(registry: &EntityRegistry) -> Vec<EntityId> {
        keys_of(&registry.locations.location_by_id)
    }
}

impl ComponentStorage for SpawnLocation {
    open spec fn kind() -> ComponentKind {
        ComponentKind::SpawnLocation
    }

    open spec fn value(&self) -> ComponentValue {
        ComponentValue::SpawnLocation(self.value)
    }

    fn kind_of() -> ComponentKind {
        ComponentKind::SpawnLocation
    }

    fn get(registry: &EntityRegistry, entity: &EntityId) -> Option<SpawnLocation> {
        match registry.spawn_locations.get(&entity.uuid) {
            Some(c) => Some(c.clone()),
            None => None,
        }
    }

    fn update(registry: &mut EntityRegistry, entity: &EntityId, component: SpawnLocation) {
        proof {
            use_type_invariant(&*registry);
        }
        let mut table: HashMap<u128, SpawnLocation> = HashMap::new();
        std::mem::swap(&mut table, &mut registry.spawn_locations);
        table.insert(entity.uuid, component);
        std::mem::swap(&mut table, &mut registry.spawn_locations);
        proof {
            lemma_by_entity_insert(old(registry).spawn_locations@, |l: SpawnLocation| ComponentValue::SpawnLocation(l.value), entity.uuid, component);
        }
    }

    fn remove(registry: &mut EntityRegistry, entity: &EntityId) {
        proof {
            use_type_invariant(&*registry);
        }
        let mut table: HashMap<u128, SpawnLocation> = HashMap::new();
        std::mem::swap(&mut table, &mut registry.spawn_locations);
        table.remove(&entity.uuid);
        std::mem::swap(&mut table, &mut registry.spawn_locations);
        proof {
            lemma_by_entity_remove(old(registry).spawn_locations@, |l: SpawnLocation| ComponentValue::SpawnLocation(l.value), entity.uuid);
        }
    }

    fn ids(registry: &EntityRegistry) -> Vec<EntityId> {
        keys_of(&registry.spawn_locations)
    }
}

impl ComponentStorage for Name {
    open spec fn kind() -> ComponentKind {
        ComponentKind::Name
    }

    open spec fn value(&self) -> ComponentValue {
        ComponentValue::Name(self@)
    }

    fn kind_of() -> ComponentKind {
        ComponentKind::Name
    }

    fn get(registry: &EntityRegistry, entity: &EntityId) -> Option<Name> {
        match registry.names.get(&entity.uuid) {
            Some(c) => Some(c.clone()),
            None => None,
        }
    }

    fn update(registry: &mut EntityRegistry, entity: &EntityId, component: Name) {
        proof {
            use_type_invariant(&*registry);
        }
        let mut table: HashMap<u128, Name> = HashMap::new();
        std::mem::swap(&mut table, &mut registry.names);
        table.insert(entity.uuid, component);
        std::mem::swap(&mut table, &mut registry.names);
        proof {
            lemma_by_entity_insert(old(registry).names@, |n: Name| ComponentValue::Name(n@), entity.uuid, component);
        }
    }

    fn remove(registry: &mut EntityRegistry, entity: &EntityId) {
        proof {
            use_type_invariant(&*registry);
        }
        let mut table: HashMap<u128, Name> = HashMap::new();
        std::mem::swap(&mut table, &mut registry.names);
        table.remove(&entity.uuid);
        std::mem::swap(&mut table, &mut registry.names);
        proof {
            lemma_by_entity_remove(old(registry).names@, |n: Name| ComponentValue::Name(n@), entity.uuid);
        }
    }

    fn ids(registry: &EntityRegistry) -> Vec<EntityId> {
        keys_of(&registry.names)
    }
}

impl ComponentStorage for Description {
    open spec fn kind() -> ComponentKind {
        ComponentKind::Description
    }

    open spec fn value(&self) -> ComponentValue {
        ComponentValue::Description(self@)
    }

    fn kind_of() -> ComponentKind {
        ComponentKind::Description
    }

    fn get(registry: &EntityRegistry, entity: &EntityId) -> Option<Description> {
        match registry.descriptions.get(&entity.uuid) {
            Some(c) => Some(c.clone()),
            None => None,
        }
    }

    fn update(registry: &mut EntityRegistry, entity: &EntityId, component: Description) {
        proof {
            use_type_invariant(&*registry);
        }
        let mut table: HashMap<u128, Description> = HashMap::new();
        std::mem::swap(&mut table, &mut registry.descriptions);
        table.insert(entity.uuid, component);
        std::mem::swap(&mut table, &mut registry.descriptions);
        proof {
            lemma_by_entity_insert(old(registry).descriptions@, |d: Description| ComponentValue::Description(d@), entity.uuid, component);
        }
    }

    fn remove(registry: &mut EntityRegistry, entity: &EntityId) {
        proof {
            use_type_invariant(&*registry);
        }
        let mut table: HashMap<u128, Description> = HashMap::new();
        std::mem::swap(&mut table, &mut registry.descriptions);
        table.remove(&entity.uuid);
        std::mem::swap(&mut table, &mut registry.descriptions);
        proof {
            lemma_by_entity_remove(old(registry).descriptions@, |d: Description| ComponentValue::Description(d@), entity.uuid);
        }
    }

    fn ids(registry: &EntityRegistry) -> Vec<EntityId> {
        keys_of(&registry.descriptions)
    }
}

impl ComponentStorage for Player {
    open spec fn kind() -> ComponentKind {
        ComponentKind::Player
    }

    open spec fn value(&self) -> ComponentValue {
        ComponentValue::Player
    }

    fn kind_of() -> ComponentKind {
        ComponentKind::Player
    }

    fn get(registry: &EntityRegistry, entity: &EntityId) -> Option<Player> {
        match registry.players.get(&entity.uuid) {
            Some(c) => Some(c.clone()),
            None => None,
        }
    }

    fn update(registry: &mut EntityRegistry, entity: &EntityId, component: Player) {
        proof {
            use_type_invariant(&*registry);
        }
        let mut table: HashMap<u128, Player> = HashMap::new();
        std::mem::swap(&mut table, &mut registry.players);
        table.insert(entity.uuid, component);
        std::mem::swap(&mut table, &mut registry.players);
        proof {
            lemma_by_entity_insert(old(registry).players@, |p: Player| ComponentValue::Player, entity.uuid, component);
        }
    }

    fn remove(registry: &mut EntityRegistry, entity: &EntityId) {
        proof {
            use_type_invariant(&*registry);
        }
        let mut table: HashMap<u128, Player> = HashMap::new();
        std::mem::swap(&mut table, &mut registry.players);
        table.remove(&entity.uuid);
        std::mem::swap(&mut table, &mut registry.players);
        proof {
            lemma_by_entity_remove(old(registry).players@, |p: Player| ComponentValue::Player, entity.uuid);
        }
    }

    fn ids(registry: &EntityRegistry) -> Vec<EntityId> {
        keys_of(&registry.players)
    }
}

impl ComponentStorage for Item {
    open spec fn kind() -> ComponentKind {
        ComponentKind::Item
    }

    open spec fn value(&self) -> ComponentValue {
        ComponentValue::Item
    }

    fn kind_of() -> ComponentKind {
        ComponentKind::Item
    }

    fn get(registry: &EntityRegistry, entity: &EntityId) -> Option<Item> {
        match registry.items.get(&entity.uuid) {
            Some(c) => Some(c.clone()),
            None => None,
        }
    }

    fn update(registry: &mut EntityRegistry, entity: &EntityId, component: Item) {
        proof {
            use_type_invariant(&*registry);
        }
        let mut table: HashMap<u128, Item> = HashMap::new();
        std::mem::swap(&mut table, &mut registry.items);
        table.insert(entity.uuid, component);
        std::mem::swap(&mut table, &mut registry.items);
        proof {
            lemma_by_entity_insert(old(registry).items@, |i: Item| ComponentValue::Item, entity.uuid, component);
        }
    }

    fn remove(registry: &mut EntityRegistry, entity: &EntityId) {
        proof {
            use_type_invariant(&*registry);
        }
        let mut table: HashMap<u128, Item> = HashMap::new();
        std::mem::swap(&mut table, &mut registry.items);
        table.remove(&entity.uuid);
        std::mem::swap(&mut table, &mut registry.items);
        proof {
            lemma_by_entity_remove(old(registry).items@, |i: Item| ComponentValue::Item, entity.uuid);
        }
    }

    fn ids(registry: &EntityRegistry) -> Vec<EntityId> {
        keys_of(&registry.items)
    }
}

impl ComponentStorage for Npc {
    open spec fn kind() -> ComponentKind {
        ComponentKind::Npc
    }

    open spec fn value(&self) -> ComponentValue {
        ComponentValue::Npc
    }

    fn kind_of() -> ComponentKind {
        ComponentKind::Npc
    }

    fn get(registry: &EntityRegistry, entity: &EntityId) -> Option<Npc> {
        match registry.npcs.get(&entity.uuid) {
            Some(c) => Some(c.clone()),
            None => None,
        }
    }

    fn update(registry: &mut EntityRegistry, entity: &EntityId, component: Npc) {
        proof {
            use_type_invariant(&*registry);
        }
        let mut table: HashMap<u128, Npc> = HashMap::new();
        std::mem::swap(&mut table, &mut registry.npcs);
        table.insert(entity.uuid, component);
        std::mem::swap(&mut table, &mut registry.npcs);
        proof {
            lemma_by_entity_insert(old(registry).npcs@, |n: Npc| ComponentValue::Npc, entity.uuid, component);
        }
    }

    fn remove(registry: &mut EntityRegistry, entity: &EntityId) {
        proof {
            use_type_invariant(&*registry);
        }
        let mut table: HashMap<u128, Npc> = HashMap::new();
        std::mem::swap(&mut table, &mut registry.npcs);
        table.remove(&entity.uuid);
        std::mem::swap(&mut table, &mut registry.npcs);
        proof {
            lemma_by_entity_remove(old(registry).npcs@, |n: Npc| ComponentValue::Npc, entity.uuid);
        }
    }

    fn ids(registry: &EntityRegistry) -> Vec<EntityId> {
        keys_of(&registry.npcs)
    }
}

impl EntityRegistry {
    pub fn new() -> (registry: EntityRegistry)
        ensures
            registry.aliases() == Map::<EntityId, Seq<char>>::empty(),
            registry.alias_index() == Map::<Seq<char>, EntityId>::empty(),
            forall|k: ComponentKind| #[trigger] registry.table(k) == Map::<EntityId, ComponentValue>::empty(),
            forall|k: ComponentKind| #[trigger] registry.dirty_ids(k) == Set::<EntityId>::empty(),
    {
        let registry = EntityRegistry {
            id_to_alias: HashMap::new(),
            alias_to_id: StringHashMap::new(),
            locations: LocationMap::new(),
            spawn_locations: HashMap::new(),
            names: HashMap::new(),
            descriptions: HashMap::new(),
            players: HashMap::new(),
            items: HashMap::new(),
            npcs: HashMap::new(),
            dirty: HashMap::new(),
        };
        proof {
            assert(registry.aliases() =~= Map::<EntityId, Seq<char>>::empty());
            assert forall|k: ComponentKind| #[trigger] registry.table(k) == Map::<EntityId, ComponentValue>::empty() by {
                assert(registry.table(k) =~= Map::<EntityId, ComponentValue>::empty());
            }
            assert forall|k: ComponentKind| #[trigger] registry.dirty_ids(k) == Set::<EntityId>::empty() by {
                assert(registry.dirty_ids(k) =~= Set::<EntityId>::empty());
            }
        }
        registry
    }

    /// Registers an entity under an alias. With `None` a new identifier is drawn.
    ///
    /// An identifier (given or drawn) that is already registered is refused and nothing
    /// changes. Otherwise the entity is registered with the alias; if the alias already
    /// resolves to an entity, the alias index keeps that entity and `DuplicateAlias` is
    /// returned.
    pub fn spawn(&mut self, entity_id: Option<EntityId>, alias: Alias) -> (r: Result<EntityId, EntityRegistryError>)
        ensures
            spawned(old(self), final(self), entity_id, alias@, r),
    {
        proof {
            use_type_invariant(&*self);
        }
        let id = match entity_id {
            Some(id) => id,
            None => EntityId::generate(),
        };
        if self.id_to_alias.contains_key(&id.uuid) {
            let r = Err(EntityRegistryError::DuplicateSpawn(id));
            proof {
                assert(spawned_as(old(self), self, alias@, r, id));
                assert forall|k: ComponentKind| #[trigger] self.dirty_ids(k) == old(self).dirty_ids(k) by {}
            }
            return r;
        }
        let ghost a = alias@;
        let mut index: StringHashMap<EntityId> = StringHashMap::new();
        std::mem::swap(&mut index, &mut self.alias_to_id);
        let mut ids: HashMap<u128, Alias> = HashMap::new();
        std::mem::swap(&mut ids, &mut self.id_to_alias);
        ids.insert(id.uuid, alias.clone());
        std::mem::swap(&mut ids, &mut self.id_to_alias);
        proof {
            lemma_by_entity_insert(old(self).id_to_alias@, |x: Alias| x@, id.uuid, alias);
            assert(self.aliases() == old(self).aliases().insert(id, a));
        }
        let taken = index.contains_key(alias.as_str());
        if !taken {
            index.insert(alias.text.clone(), id);
        }
        proof {
            assert forall|b: Seq<char>| #[trigger] index@.contains_key(b) implies {
                &&& self.id_to_alias@.contains_key(index@[b].uuid)
                &&& self.id_to_alias@[index@[b].uuid]@ == b
            } by {
                if b != a || taken {
                    assert(old(self).alias_to_id@.contains_key(b));
                    assert(old(self).id_to_alias@.contains_key(old(self).alias_to_id@[b].uuid));
                }
            }
        }
        std::mem::swap(&mut index, &mut self.alias_to_id);
        proof {
            assert(self.same_tables(old(self)));
            assert forall|k: ComponentKind| #[trigger] self.dirty_ids(k) == old(self).dirty_ids(k) by {
                assert(self.dirty_ids(k) =~= old(self).dirty_ids(k));
            }
        }
        let r = if taken {
            Err(EntityRegistryError::DuplicateAlias(alias))
        } else {
            Ok(id)
        };
        proof {
            assert(spawned_as(old(self), self, a, r, id));
        }
        r
    }

    /// `Ok` exactly when the entity is registered.
    fn validate_entity(&self, entity: &EntityId) -> (r: Result<(), EntityRegistryError>)
        ensures
            r is Ok <==> self.aliases().contains_key(*entity),
            r is Err ==> r == Err::<(), EntityRegistryError>(EntityRegistryError::UnknownEntity(*entity)),
    {
        if self.id_to_alias.contains_key(&entity.uuid) {
            Ok(())
        } else {
            Err(EntityRegistryError::UnknownEntity(*entity))
        }
    }

    /// Unregisters an entity: drops its alias, the entry of the alias index under that
    /// alias, and every component it has.
    pub fn despawn(&mut self, id: &EntityId) -> (r: Result<(), EntityRegistryError>)
        ensures
            despawned(old(self), final(self), *id, r),
    {
        match self.validate_entity(id) {
            Ok(()) => {},
            Err(e) => {
                return Err(e);
            },
        }
        Location::remove(self, id);
        let ghost s1 = *self;
        SpawnLocation::remove(self, id);
        let ghost s2 = *self;
        Name::remove(self, id);
        let ghost s3 = *self;
        Description::remove(self, id);
        let ghost s4 = *self;
        Player::remove(self, id);
        let ghost s5 = *self;
        Item::remove(self, id);
        let ghost s6 = *self;
        Npc::remove(self, id);
        let ghost s7 = *self;
        proof {
            use_type_invariant(&*self);
        }
        let alias = match self.id_to_alias.get(&id.uuid) {
            Some(a) => a.clone(),
            None => {
                return Err(EntityRegistryError::InconsistentInternalState);
            },
        };
        let mut index: StringHashMap<EntityId> = StringHashMap::new();
        std::mem::swap(&mut index, &mut self.alias_to_id);
        index.remove(alias.as_str());
        let mut ids: HashMap<u128, Alias> = HashMap::new();
        std::mem::swap(&mut ids, &mut self.id_to_alias);
        ids.remove(&id.uuid);
        std::mem::swap(&mut ids, &mut self.id_to_alias);
        proof {
            assert forall|b: Seq<char>| #[trigger] index@.contains_key(b) implies {
                &&& self.id_to_alias@.contains_key(index@[b].uuid)
                &&& self.id_to_alias@[index@[b].uuid]@ == b
            } by {
                assert(s7.alias_to_id@.contains_key(b));
                assert(s7.id_to_alias@.contains_key(s7.alias_to_id@[b].uuid));
            }
        }
        std::mem::swap(&mut index, &mut self.alias_to_id);
        proof {
            lemma_by_entity_remove(s7.id_to_alias@, |a: Alias| a@, id.uuid);
            assert forall|k: ComponentKind| #[trigger] self.dirty_ids(k) == old(self).dirty_ids(k) by {
                assert(s1.dirty_ids(k) == old(self).dirty_ids(k));
                assert(s2.dirty_ids(k) == s1.dirty_ids(k));
                assert(s3.dirty_ids(k) == s2.dirty_ids(k));
                assert(s4.dirty_ids(k) == s3.dirty_ids(k));
                assert(s5.dirty_ids(k) == s4.dirty_ids(k));
                assert(s6.dirty_ids(k) == s5.dirty_ids(k));
                assert(s7.dirty_ids(k) == s6.dirty_ids(k));
                assert(self.dirty_ids(k) =~= s7.dirty_ids(k));
            }
            assert forall|k: ComponentKind| #[trigger] self.table(k) == old(self).table(k).remove(*id) by {
                assert(s1.table(k) == if k == ComponentKind::Location { old(self).table(k).remove(*id) } else { old(self).table(k) });
                assert(s2.table(k) == if k == ComponentKind::SpawnLocation { s1.table(k).remove(*id) } else { s1.table(k) });
                assert(s3.table(k) == if k == ComponentKind::Name { s2.table(k).remove(*id) } else { s2.table(k) });
                assert(s4.table(k) == if k == ComponentKind::Description { s3.table(k).remove(*id) } else { s3.table(k) });
                assert(s5.table(k) == if k == ComponentKind::Player { s4.table(k).remove(*id) } else { s4.table(k) });
                assert(s6.table(k) == if k == ComponentKind::Item { s5.table(k).remove(*id) } else { s5.table(k) });
                assert(s7.table(k) == if k == ComponentKind::Npc { s6.table(k).remove(*id) } else { s6.table(k) });
                assert(self.table(k) == s7.table(k));
                match k {
                    ComponentKind::Location => {},
                    ComponentKind::SpawnLocation => {},
                    ComponentKind::Name => {},
                    ComponentKind::Description => {},
                    ComponentKind::Player => {},
                    ComponentKind::Item => {},
                    ComponentKind::Npc => {},
                }
            }
            assert(self.aliases() == old(self).aliases().remove(*id));
        }
        Ok(())
    }

    /// The alias of a registered entity.
    pub fn get_alias(&self, e: &EntityId) -> (r: Result<Alias, EntityRegistryError>)
        ensures
            match r {
                Ok(a) => self.aliases().contains_key(*e) && a@ == self.aliases()[*e],
                Err(err) => !self.aliases().contains_key(*e) && err == EntityRegistryError::UnknownEntity(*e),
            },
    {
        self.validate_entity(e)?;
        match self.id_to_alias.get(&e.uuid) {
            Some(a) => Ok(a.clone()),
            None => Err(EntityRegistryError::InconsistentInternalState),
        }
    }

    /// Whether a registered entity has a component of type `T`.
    pub fn has_component<T: ComponentStorage>(&self, e: &EntityId) -> (r: Result<bool, EntityRegistryError>)
        ensures
            match r {
                Ok(b) => self.aliases().contains_key(*e) && b == self.table(T::kind()).contains_key(*e),
                Err(err) => !self.aliases().contains_key(*e) && err == EntityRegistryError::UnknownEntity(*e),
            },
    {
        self.validate_entity(e)?;
        Ok(T::get(self, e).is_some())
    }

    /// A copy of the component of type `T` of a registered entity, if it has one.
    pub fn get_component<T: ComponentStorage>(&self, e: &EntityId) -> (r: Result<Option<T>, EntityRegistryError>)
        ensures
            component_of(self, *e, T::kind()) == match r {
                Ok(Some(c)) => Ok(Some(c.value())),
                Ok(None) => Ok(None),
                Err(err) => Err::<Option<ComponentValue>, EntityRegistryError>(err),
            },
    {
        self.validate_entity(e)?;
        Ok(T::get(self, e))
    }

    /// Removes the component of type `T` from a registered entity (nothing happens if it
    /// has none), and stops tracking a change of it.
    pub fn remove_component<T: ComponentStorage>(&mut self, e: &EntityId) -> (r: Result<(), EntityRegistryError>)
        ensures
            component_removed(old(self), final(self), *e, T::kind(), r),
    {
        self.validate_entity(e)?;
        T::remove(self, e);
        let code = T::kind_of().code();
        self.unmark_dirty(code, e);
        Ok(())
    }
    /// Sets the component of type `T` of a registered entity (adding it if missing), and
    /// records the change.
    pub fn update_component<T: ComponentStorage>(&mut self, e: &EntityId, c: T) -> (r: Result<(), EntityRegistryError>)
        ensures
            component_updated(old(self), final(self), *e, T::kind(), c.value(), r),
    {
        self.validate_entity(e)?;
        T::update(self, e, c);
        let code = T::kind_of().code();
        self.mark_dirty(code, e);
        Ok(())
    }

    fn mark_dirty(&mut self, code: u8, e: &EntityId)
        ensures
            final(self).aliases() == old(self).aliases(),
            final(self).alias_index() == old(self).alias_index(),
            final(self).same_tables(old(self)),
            forall|k: ComponentKind| #[trigger] final(self).dirty_ids(k) == if kind_code(k) == code {
                old(self).dirty_ids(k).insert(*e)
            } else {
                old(self).dirty_ids(k)
            },
    {
        proof {
            use_type_invariant(&*self);
        }
        let mut dirty: HashMap<u8, HashSet<u128>> = HashMap::new();
        std::mem::swap(&mut dirty, &mut self.dirty);
        let mut set = match dirty.remove(&code) {
            Some(s) => s,
            None => HashSet::new(),
        };
        set.insert(e.uuid);
        dirty.insert(code, set);
        std::mem::swap(&mut dirty, &mut self.dirty);
        proof {
            assert forall|k: ComponentKind| #[trigger] self.dirty_ids(k) == if kind_code(k) == code {
                old(self).dirty_ids(k).insert(*e)
            } else {
                old(self).dirty_ids(k)
            } by {
                if kind_code(k) == code {
                    assert(self.dirty_ids(k) =~= old(self).dirty_ids(k).insert(*e));
                } else {
                    assert(self.dirty_ids(k) =~= old(self).dirty_ids(k));
                }
            }
        }
    }

    fn unmark_dirty(&mut self, code: u8, e: &EntityId)
        ensures
            final(self).aliases() == old(self).aliases(),
            final(self).alias_index() == old(self).alias_index(),
            final(self).same_tables(old(self)),
            forall|k: ComponentKind| #[trigger] final(self).dirty_ids(k) == if kind_code(k) == code {
                old(self).dirty_ids(k).remove(*e)
            } else {
                old(self).dirty_ids(k)
            },
    {
        proof {
            use_type_invariant(&*self);
        }
        let mut dirty: HashMap<u8, HashSet<u128>> = HashMap::new();
        std::mem::swap(&mut dirty, &mut self.dirty);
        match dirty.remove(&code) {
            Some(mut set) => {
                set.remove(&e.uuid);
                dirty.insert(code, set);
            },
            None => {},
        }
        std::mem::swap(&mut dirty, &mut self.dirty);
        proof {
            assert forall|k: ComponentKind| #[trigger] self.dirty_ids(k) == if kind_code(k) == code {
                old(self).dirty_ids(k).remove(*e)
            } else {
                old(self).dirty_ids(k)
            } by {
                if kind_code(k) == code {
                    assert(self.dirty_ids(k) =~= old(self).dirty_ids(k).remove(*e));
                } else {
                    assert(self.dirty_ids(k) =~= old(self).dirty_ids(k));
                }
            }
        }
    }

    /// Every entity that has a component of type `T`, with a copy of it.
    pub fn query<T: ComponentStorage>(&self) -> (r: Vec<(EntityId, T)>)
        ensures
            lists(r@, self.table(T::kind()), |e: EntityId| true),
    {
        let ids = T::ids(self);
        self.collect::<T>(&ids, Ghost(|e: EntityId| true))
    }

    /// For each of `ids` that has a component of type `T`, the entity with a copy of it.
    fn collect<T: ComponentStorage>(&self, ids: &Vec<EntityId>, keep: Ghost<spec_fn(EntityId) -> bool>) -> (r: Vec<(EntityId, T)>)
        requires
            ids@.no_duplicates(),
            forall|e: EntityId| #[trigger] ids@.contains(e) ==> keep@(e),
            forall|e: EntityId| self.table(T::kind()).contains_key(e) && keep@(e) ==> #[trigger] ids@.contains(e),
        ensures
            lists(r@, self.table(T::kind()), keep@),
    {
        let mut r: Vec<(EntityId, T)> = Vec::new();
        let mut i: usize = 0;
        while i < ids.len()
            invariant
                i <= ids.len(),
                ids@.no_duplicates(),
                forall|e: EntityId| #[trigger] ids@.contains(e) ==> keep@(e),
                forall|k: int| 0 <= k < r@.len() ==> keep@(#[trigger] r@[k].0) && self.table(T::kind()).contains_key(r@[k].0)
                    && self.table(T::kind())[r@[k].0] == r@[k].1.value(),
                forall|j: int| 0 <= j < i && #[trigger] self.table(T::kind()).contains_key(ids@[j]) ==> exists|k: int| 0 <= k < r@.len() && r@[k].0 == ids@[j],
                forall|k: int, l: int| 0 <= k < l < r@.len() ==> r@[k].0 != r@[l].0,
                forall|k: int| 0 <= k < r@.len() ==> exists|j: int| 0 <= j < i && #[trigger] r@[k].0 == ids@[j],
            decreases ids.len() - i,
        {
            let id = ids[i];
            assert(ids@.contains(id));
            let ghost before = r@;
            match T::get(self, &id) {
                Some(c) => {
                    proof {
                        assert forall|k: int| 0 <= k < r@.len() implies r@[k].0 != id by {
                            let j = choose|j: int| 0 <= j < i && r@[k].0 == ids@[j];
                        }
                    }
                    r.push((id, c));
                },
                None => {},
            }
            proof {
                assert forall|j: int| 0 <= j < i + 1 && #[trigger] self.table(T::kind()).contains_key(ids@[j]) implies exists|k: int| 0 <= k < r@.len() && r@[k].0 == ids@[j] by {
                    if j < i {
                        let k = choose|k: int| 0 <= k < before.len() && before[k].0 == ids@[j];
                        assert(r@[k] == before[k]);
                    } else {
                        assert(r@[r@.len() - 1].0 == ids@[j]);
                    }
                }
                assert forall|k: int| 0 <= k < r@.len() implies exists|j: int| 0 <= j < i + 1 && #[trigger] r@[k].0 == ids@[j] by {
                    if k < before.len() {
                        assert(r@[k] == before[k]);
                        let j = choose|j: int| 0 <= j < i && before[k].0 == ids@[j];
                    } else {
                        assert(r@[k].0 == ids@[i as int]);
                    }
                }
            }
            i = i + 1;
        }
        proof {
            assert forall|e: EntityId| #[trigger] self.table(T::kind()).contains_key(e) && keep@(e) implies exists|k: int| 0 <= k < r@.len() && r@[k].0 == e by {
                assert(ids@.contains(e));
                let j = choose|j: int| 0 <= j < ids@.len() && ids@[j] == e;
                assert(self.table(T::kind()).contains_key(ids@[j]));
            }
        }
        r
    }

    /// Every entity at `location` that has a component of type `T`, with a copy of it.
    pub fn query_location<T: ComponentStorage>(&self, location: &Location) -> (r: Vec<(EntityId, T)>)
        ensures
            lists(r@, self.table(T::kind()), |e: EntityId| self.is_at(e, *location)),
    {
        proof {
            use_type_invariant(self);
        }
        let ids = self.locations.get_at_position(location);
        let ghost keep = |e: EntityId| self.is_at(e, *location);
        proof {
            assert forall|e: EntityId| #[trigger] ids@.contains(e) <==> keep(e) by {
                if self.locations.positions().contains_key(e) {
                    assert(self.table(ComponentKind::Location)[e] == ComponentValue::Location(self.locations.positions()[e].value));
                }
            }
        }
        self.collect::<T>(&ids, Ghost(keep))
    }

    /// Pairs each listed component of type `T1` with the entity's component of type `T2`,
    /// dropping the entities without one.
    fn pair_with<T1: ComponentStorage, T2: ComponentStorage>(
        &self,
        firsts: Vec<(EntityId, T1)>,
        keep: Ghost<spec_fn(EntityId) -> bool>,
    ) -> (r: Vec<(EntityId, (T1, T2))>)
        requires
            lists(firsts@, self.table(T1::kind()), keep@),
        ensures
            lists2(r@, self.table(T1::kind()), self.table(T2::kind()), keep@),
    {
        let ghost orig = firsts@;
        let ghost m1 = self.table(T1::kind());
        let ghost m2 = self.table(T2::kind());
        let mut firsts = firsts;
        let mut r: Vec<(EntityId, (T1, T2))> = Vec::new();
        let ghost mut src: Seq<int> = seq![];
        let ghost mut dst: Map<int, int> = Map::empty();
        while firsts.len() > 0
            invariant
                m2 == self.table(T2::kind()),
                forall|i: int, j: int| 0 <= i < j < orig.len() ==> orig[i].0 != orig[j].0,
                firsts.len() <= orig.len(),
                firsts@ == orig.take(firsts.len() as int),
                src.len() == r@.len(),
                forall|k: int| 0 <= k < r@.len() ==> firsts.len() <= #[trigger] src[k] < orig.len()
                    && r@[k].0 == orig[src[k]].0 && r@[k].1.0.value() == orig[src[k]].1.value()
                    && m2.contains_key(r@[k].0) && m2[r@[k].0] == r@[k].1.1.value(),
                forall|k: int, l: int| 0 <= k < l < r@.len() ==> src[k] > src[l],
                forall|j: int| #[trigger] dst.contains_key(j) ==> firsts.len() <= j < orig.len() && 0 <= dst[j] < r@.len()
                    && r@[dst[j]].0 == orig[j].0,
                forall|j: int| firsts.len() <= j < orig.len() && m2.contains_key(#[trigger] orig[j].0) ==> dst.contains_key(j),
            decreases firsts.len(),
        {
            let ghost n = firsts.len() as int;
            let (id, c1) = firsts.pop().unwrap();
            assert(firsts@ =~= orig.take(n - 1));
            match T2::get(self, &id) {
                Some(c2) => {
                    proof {
                        src = src.push(n - 1);
                        dst = dst.insert(n - 1, r@.len() as int);
                    }
                    r.push((id, (c1, c2)));
                },
                None => {},
            }
        }
        proof {
            assert forall|i: int, j: int| 0 <= i < j < r@.len() implies r@[i].0 != r@[j].0 by {
                assert(src[i] != src[j]);
            }
            assert forall|i: int| 0 <= i < r@.len() implies keep@(#[trigger] r@[i].0) && m1.contains_key(r@[i].0)
                && m1[r@[i].0] == r@[i].1.0.value() && m2.contains_key(r@[i].0) && m2[r@[i].0] == r@[i].1.1.value() by {
                assert(keep@(orig[src[i]].0));
            }
            assert forall|e: EntityId| #[trigger] m1.contains_key(e) && m2.contains_key(e) && keep@(e) implies exists|i: int| 0 <= i < r@.len() && r@[i].0 == e by {
                let j = choose|j: int| 0 <= j < orig.len() && orig[j].0 == e;
                assert(dst.contains_key(j));
                assert(r@[dst[j]].0 == e);
            }
        }
        r
    }

    /// Every entity that has components of both types `T1` and `T2`, with copies of them.
    pub fn query2<T1: ComponentStorage, T2: ComponentStorage>(&self) -> (r: Vec<(EntityId, (T1, T2))>)
        ensures
            lists2(r@, self.table(T1::kind()), self.table(T2::kind()), |e: EntityId| true),
    {
        let firsts = self.query::<T1>();
        self.pair_with::<T1, T2>(firsts, Ghost(|e: EntityId| true))
    }

    /// Every entity at `location` that has components of both types `T1` and `T2`, with
    /// copies of them.
    pub fn query2_location<T1: ComponentStorage, T2: ComponentStorage>(&self, location: &Location) -> (r: Vec<(EntityId, (T1, T2))>)
        ensures
            lists2(r@, self.table(T1::kind()), self.table(T2::kind()), |e: EntityId| self.is_at(e, *location)),
    {
        let firsts = self.query_location::<T1>(location);
        self.pair_with::<T1, T2>(firsts, Ghost(|e: EntityId| self.is_at(e, *location)))
    }

    /// Every entity that has components of all three types, with copies of them.
    pub fn query3<T1: ComponentStorage, T2: ComponentStorage, T3: ComponentStorage>(&self) -> (r: Vec<(EntityId, (T1, T2, T3))>)
        ensures
            lists3(r@, self.table(T1::kind()), self.table(T2::kind()), self.table(T3::kind())),
    {
        let pairs = self.query2::<T1, T2>();
        let ghost orig = pairs@;
        let ghost m1 = self.table(T1::kind());
        let ghost m2 = self.table(T2::kind());
        let ghost m3 = self.table(T3::kind());
        let mut pairs = pairs;
        let mut r: Vec<(EntityId, (T1, T2, T3))> = Vec::new();
        let ghost mut src: Seq<int> = seq![];
        let ghost mut dst: Map<int, int> = Map::empty();
        while pairs.len() > 0
            invariant
                m3 == self.table(T3::kind()),
                forall|i: int, j: int| 0 <= i < j < orig.len() ==> orig[i].0 != orig[j].0,
                pairs.len() <= orig.len(),
                pairs@ == orig.take(pairs.len() as int),
                src.len() == r@.len(),
                forall|k: int| 0 <= k < r@.len() ==> pairs.len() <= #[trigger] src[k] < orig.len()
                    && r@[k].0 == orig[src[k]].0 && r@[k].1.0.value() == orig[src[k]].1.0.value()
                    && r@[k].1.1.value() == orig[src[k]].1.1.value()
                    && m3.contains_key(r@[k].0) && m3[r@[k].0] == r@[k].1.2.value(),
                forall|k: int, l: int| 0 <= k < l < r@.len() ==> src[k] > src[l],
                forall|j: int| #[trigger] dst.contains_key(j) ==> pairs.len() <= j < orig.len() && 0 <= dst[j] < r@.len()
                    && r@[dst[j]].0 == orig[j].0,
                forall|j: int| pairs.len() <= j < orig.len() && m3.contains_key(#[trigger] orig[j].0) ==> dst.contains_key(j),
            decreases pairs.len(),
        {
            let ghost n = pairs.len() as int;
            let (id, (c1, c2)) = pairs.pop().unwrap();
            assert(pairs@ =~= orig.take(n - 1));
            match T3::get(self, &id) {
                Some(c3) => {
                    proof {
                        src = src.push(n - 1);
                        dst = dst.insert(n - 1, r@.len() as int);
                    }
                    r.push((id, (c1, c2, c3)));
                },
                None => {},
            }
        }
        proof {
            assert forall|i: int, j: int| 0 <= i < j < r@.len() implies r@[i].0 != r@[j].0 by {
                assert(src[i] != src[j]);
            }
            assert forall|i: int| 0 <= i < r@.len() implies m1.contains_key(#[trigger] r@[i].0)
                && m1[r@[i].0] == r@[i].1.0.value() && m2.contains_key(r@[i].0) && m2[r@[i].0] == r@[i].1.1.value()
                && m3.contains_key(r@[i].0) && m3[r@[i].0] == r@[i].1.2.value() by {
                assert(m1.contains_key(orig[src[i]].0));
            }
            assert forall|e: EntityId| #[trigger] m1.contains_key(e) && m2.contains_key(e) && m3.contains_key(e) implies exists|i: int| 0 <= i < r@.len() && r@[i].0 == e by {
                let j = choose|j: int| 0 <= j < orig.len() && orig[j].0 == e;
                assert(dst.contains_key(j));
                assert(r@[dst[j]].0 == e);
            }
        }
        r
    }

    /// Every entity whose component of type `T` changed since the last collection and that
    /// still has one, with a copy of it. Stops tracking changes of that type.
    pub fn take_dirty<T: ComponentStorage>(&mut self) -> (r: Vec<(EntityId, T)>)
        ensures
            dirty_taken(old(self), final(self), r@),
    {
        proof {
            use_type_invariant(&*self);
        }
        let code = T::kind_of().code();
        let mut dirty: HashMap<u8, HashSet<u128>> = HashMap::new();
        std::mem::swap(&mut dirty, &mut self.dirty);
        let taken = dirty.remove(&code);
        std::mem::swap(&mut dirty, &mut self.dirty);
        let ids = match taken {
            Some(set) => {
                let ghost sq = set.iter().remaining().unref();
                let mut v: Vec<EntityId> = Vec::new();
                for x in it: set.iter()
                    invariant
                        it.seq().unref() == sq,
                        it.index() <= sq.len(),
                        sq.no_duplicates(),
                        sq.to_set() == set@,
                        v@.len() == it.index(),
                        forall|i: int| 0 <= i < v@.len() ==> v@[i].uuid == sq[i],
                {
                    v.push(EntityId { uuid: *x });
                }
                proof {
                    assert forall|i: int, j: int| 0 <= i < j < v@.len() implies v@[i] != v@[j] by {
                        assert(sq[i] != sq[j]);
                    }
                    assert forall|e: EntityId| #[trigger] v@.contains(e) <==> set@.contains(e.uuid) by {
                        if v@.contains(e) {
                            let i = choose|i: int| 0 <= i < v@.len() && v@[i] == e;
                            assert(sq.to_set().contains(sq[i]));
                        }
                        if set@.contains(e.uuid) {
                            assert(sq.to_set().contains(e.uuid));
                            let i = choose|i: int| 0 <= i < sq.len() && sq[i] == e.uuid;
                            assert(v@[i] == e);
                        }
                    }
                }
                v
            },
            None => Vec::new(),
        };
        let ghost keep = |e: EntityId| old(self).dirty_ids(T::kind()).contains(e);
        proof {
            assert forall|e: EntityId| #[trigger] ids@.contains(e) <==> keep(e) by {}
            assert(self.dirty_ids(T::kind()) =~= Set::<EntityId>::empty());
            assert forall|j: ComponentKind| j != T::kind() implies #[trigger] self.dirty_ids(j) == old(self).dirty_ids(j) by {
                lemma_kind_code_injective(j, T::kind());
                assert(self.dirty_ids(j) =~= old(self).dirty_ids(j));
            }
        }
        self.collect::<T>(&ids, Ghost(keep))
    }

    /// The entity that an alias resolves to, if any.
    pub fn resolve_alias(&self, alias: &Alias) -> (r: Option<EntityId>)
        ensures
            r == resolved(self, alias@),
            r matches Some(id) ==> self.aliases().contains_key(id) && self.aliases()[id] == alias@,
    {
        proof {
            use_type_invariant(self);
            law_alias_index_names_registered(self);
        }
        match self.alias_to_id.get(alias.as_str()) {
            Some(id) => Some(*id),
            None => None,
        }
    }
}

/// What `get_component` gives for entity `e` and component kind `k`: the component, if
/// the entity has one, or the error for an unknown entity.
pub open spec fn component_of(reg: &EntityRegistry, e: EntityId, k: ComponentKind) -> Result<Option<ComponentValue>, EntityRegistryError> {
    if !reg.aliases().contains_key(e) {
        Err(EntityRegistryError::UnknownEntity(e))
    } else if reg.table(k).contains_key(e) {
        Ok(Some(reg.table(k)[e]))
    } else {
        Ok(None)
    }
}

/// The effect of `update_component` setting the component of kind `k` of `e` to `v`,
/// answering `r`: a registered entity gets the component and the change is recorded; an
/// unknown entity is refused and nothing that can be observed changes.
pub open spec fn component_updated(
    before: &EntityRegistry,
    after: &EntityRegistry,
    e: EntityId,
    k: ComponentKind,
    v: ComponentValue,
    r: Result<(), EntityRegistryError>,
) -> bool {
    if !before.aliases().contains_key(e) {
        &&& r == Err::<(), EntityRegistryError>(EntityRegistryError::UnknownEntity(e))
        &&& after.same_except(before, k)
        &&& after.table(k) == before.table(k)
    } else {
        &&& r is Ok
        &&& after.table(k) == before.table(k).insert(e, v)
        &&& after.aliases() == before.aliases()
        &&& after.alias_index() == before.alias_index()
        &&& forall|j: ComponentKind| j != k ==> #[trigger] after.table(j) == before.table(j)
        &&& after.dirty_ids(k) == before.dirty_ids(k).insert(e)
        &&& forall|j: ComponentKind| j != k ==> #[trigger] after.dirty_ids(j) == before.dirty_ids(j)
    }
}

/// The effect of `remove_component` removing the component of kind `k` of `e`, answering
/// `r`: a registered entity loses the component (if it had one) and its change of that
/// kind is no longer recorded; an unknown entity is refused and nothing that can be
/// observed changes.
pub open spec fn component_removed(
    before: &EntityRegistry,
    after: &EntityRegistry,
    e: EntityId,
    k: ComponentKind,
    r: Result<(), EntityRegistryError>,
) -> bool {
    if !before.aliases().contains_key(e) {
        &&& r == Err::<(), EntityRegistryError>(EntityRegistryError::UnknownEntity(e))
        &&& after.same_except(before, k)
        &&& after.table(k) == before.table(k)
    } else {
        &&& r is Ok
        &&& after.table(k) == before.table(k).remove(e)
        &&& after.aliases() == before.aliases()
        &&& after.alias_index() == before.alias_index()
        &&& forall|j: ComponentKind| j != k ==> #[trigger] after.table(j) == before.table(j)
        &&& after.dirty_ids(k) == before.dirty_ids(k).remove(e)
        &&& forall|j: ComponentKind| j != k ==> #[trigger] after.dirty_ids(j) == before.dirty_ids(j)
    }
}

/// The effect of `take_dirty` for component type `T`, giving `rows`: the entities whose
/// component of that type changed and that still have one, each once with it; that kind's
/// changes are forgotten, and nothing else changes.
pub open spec fn dirty_taken<T: ComponentStorage>(before: &EntityRegistry, after: &EntityRegistry, rows: Seq<(EntityId, T)>) -> bool {
    &&& lists(rows, before.table(T::kind()), |e: EntityId| before.dirty_ids(T::kind()).contains(e))
    &&& after.dirty_ids(T::kind()) == Set::<EntityId>::empty()
    &&& forall|j: ComponentKind| j != T::kind() ==> #[trigger] after.dirty_ids(j) == before.dirty_ids(j)
    &&& after.same_tables(before)
    &&& after.aliases() == before.aliases()
    &&& after.alias_index() == before.alias_index()
}

/// The effect of `spawn` once its identifier `id` is settled (the given one, or the one
/// drawn), answering `r`. An identifier that is already registered is refused and nothing
/// changes. Otherwise the entity is registered with the alias; if the alias already names
/// an entity, the alias index keeps that entity and `DuplicateAlias` is answered.
pub open spec fn spawned_as(
    before: &EntityRegistry,
    after: &EntityRegistry,
    alias: Seq<char>,
    r: Result<EntityId, EntityRegistryError>,
    id: EntityId,
) -> bool {
    if before.aliases().contains_key(id) {
        &&& r == Err::<EntityId, EntityRegistryError>(EntityRegistryError::DuplicateSpawn(id))
        &&& after.aliases() == before.aliases()
        &&& after.alias_index() == before.alias_index()
    } else {
        &&& after.aliases() == before.aliases().insert(id, alias)
        &&& if before.alias_index().contains_key(alias) {
            &&& r matches Err(EntityRegistryError::DuplicateAlias(a)) && a@ == alias
            &&& after.alias_index() == before.alias_index()
        } else {
            &&& r == Ok::<EntityId, EntityRegistryError>(id)
            &&& after.alias_index() == before.alias_index().insert(alias, id)
        }
    }
}

/// The effect of `spawn` with the given identifier (or none, for a newly drawn one of
/// version 7) and alias, answering `r`: `spawned_as` for that identifier. Components and
/// change records never change.
pub open spec fn spawned(
    before: &EntityRegistry,
    after: &EntityRegistry,
    entity_id: Option<EntityId>,
    alias: Seq<char>,
    r: Result<EntityId, EntityRegistryError>,
) -> bool {
    &&& after.same_tables(before)
    &&& forall|k: ComponentKind| #[trigger] after.dirty_ids(k) == before.dirty_ids(k)
    &&& match entity_id {
        Some(given) => spawned_as(before, after, alias, r, given),
        None => exists|id: EntityId| crate::model::ids::uuid_version(id.uuid) == 7
            && #[trigger] spawned_as(before, after, alias, r, id),
    }
}

/// The effect of `despawn` on entity `id`, answering `r`: an unknown entity is refused and
/// nothing changes; otherwise its alias, the alias index entry under that alias, and all
/// of its components go. Change records never change.
pub open spec fn despawned(before: &EntityRegistry, after: &EntityRegistry, id: EntityId, r: Result<(), EntityRegistryError>) -> bool {
    &&& forall|k: ComponentKind| #[trigger] after.dirty_ids(k) == before.dirty_ids(k)
    &&& !before.aliases().contains_key(id) ==> {
        &&& r == Err::<(), EntityRegistryError>(EntityRegistryError::UnknownEntity(id))
        &&& after.aliases() == before.aliases()
        &&& after.alias_index() == before.alias_index()
        &&& after.same_tables(before)
    }
    &&& before.aliases().contains_key(id) ==> {
        &&& r is Ok
        &&& after.aliases() == before.aliases().remove(id)
        &&& after.alias_index() == before.alias_index().remove(before.aliases()[id])
        &&& forall|k: ComponentKind| #[trigger] after.table(k) == before.table(k).remove(id)
    }
}

/// What `resolve_alias` gives: the entity that the alias names, if any.
pub open spec fn resolved(reg: &EntityRegistry, alias: Seq<char>) -> Option<EntityId> {
    if reg.alias_index().contains_key(alias) {
        Some(reg.alias_index()[alias])
    } else {
        None
    }
}

/// `r` lists, each once, exactly the entities `e` with `keep(e)` that have a component in
/// `m`, each with its component.
pub open spec fn lists<T: ComponentStorage>(
    r: Seq<(EntityId, T)>,
    m: Map<EntityId, ComponentValue>,
    keep: spec_fn(EntityId) -> bool,
) -> bool {
    &&& forall|i: int| 0 <= i < r.len() ==> keep(#[trigger] r[i].0) && m.contains_key(r[i].0) && m[r[i].0] == r[i].1.value()
    &&& forall|e: EntityId| #[trigger] m.contains_key(e) && keep(e) ==> exists|i: int| 0 <= i < r.len() && r[i].0 == e
    &&& forall|i: int, j: int| 0 <= i < j < r.len() ==> r[i].0 != r[j].0
}

/// `r` lists, each once, exactly the entities `e` with `keep(e)` that have a component in
/// both `m1` and `m2`, each with both components.
pub open spec fn lists2<T1: ComponentStorage, T2: ComponentStorage>(
    r: Seq<(EntityId, (T1, T2))>,
    m1: Map<EntityId, ComponentValue>,
    m2: Map<EntityId, ComponentValue>,
    keep: spec_fn(EntityId) -> bool,
) -> bool {
    &&& forall|i: int| 0 <= i < r.len() ==> keep(#[trigger] r[i].0) && m1.contains_key(r[i].0)
        && m1[r[i].0] == r[i].1.0.value() && m2.contains_key(r[i].0) && m2[r[i].0] == r[i].1.1.value()
    &&& forall|e: EntityId| #[trigger] m1.contains_key(e) && m2.contains_key(e) && keep(e) ==> exists|i: int| 0 <= i < r.len() && r[i].0 == e
    &&& forall|i: int, j: int| 0 <= i < j < r.len() ==> r[i].0 != r[j].0
}

/// `r` lists, each once, exactly the entities that have a component in all of `m1`,
/// `m2` and `m3`, each with the three components.
pub open spec fn lists3<T1: ComponentStorage, T2: ComponentStorage, T3: ComponentStorage>(
    r: Seq<(EntityId, (T1, T2, T3))>,
    m1: Map<EntityId, ComponentValue>,
    m2: Map<EntityId, ComponentValue>,
    m3: Map<EntityId, ComponentValue>,
) -> bool {
    &&& forall|i: int| 0 <= i < r.len() ==> m1.contains_key(#[trigger] r[i].0)
        && m1[r[i].0] == r[i].1.0.value() && m2.contains_key(r[i].0) && m2[r[i].0] == r[i].1.1.value()
        && m3.contains_key(r[i].0) && m3[r[i].0] == r[i].1.2.value()
    &&& forall|e: EntityId| #[trigger] m1.contains_key(e) && m2.contains_key(e) && m3.contains_key(e) ==> exists|i: int| 0 <= i < r.len() && r[i].0 == e
    &&& forall|i: int, j: int| 0 <= i < j < r.len() ==> r[i].0 != r[j].0
}

/// The entities that receive an event sent to `target`: the entity itself, or every
/// entity at the location except the named one.
pub open spec fn receives(registry: &EntityRegistry, target: EventTarget, e: EntityId) -> bool {
    match target {
        EventTarget::Entity(id) => e == id,
        EventTarget::LocationExcept(location, except) => registry.is_at(e, location) && e != except,
    }
}

impl EventTargetResolver<EntityRegistryError> for EntityRegistry {
    fn resolve(&self, target: &EventTarget) -> (r: Result<Vec<EntityId>, EntityRegistryError>)
        ensures
            r matches Ok(ids) && ids@.no_duplicates() && forall|e: EntityId| #[trigger] ids@.contains(e) <==> receives(self, *target, e),
    {
        proof {
            use_type_invariant(self);
        }
        match target {
            EventTarget::Entity(id) => {
                let mut v: Vec<EntityId> = Vec::new();
                v.push(*id);
                proof {
                    assert forall|e: EntityId| #[trigger] v@.contains(e) <==> receives(self, *target, e) by {
                        if e == *id {
                            assert(v@[0] == e);
                        }
                    }
                }
                Ok(v)
            },
            EventTarget::LocationExcept(location, except) => {
                let here = self.locations.get_at_position(location);
                let mut v: Vec<EntityId> = Vec::new();
                let mut i: usize = 0;
                while i < here.len()
                    invariant
                        i <= here.len(),
                        here@.no_duplicates(),
                        forall|k: int| 0 <= k < v@.len() ==> exists|j: int| 0 <= j < i && #[trigger] v@[k] == here@[j],
                        forall|k: int, l: int| 0 <= k < l < v@.len() ==> v@[k] != v@[l],
                        forall|k: int| 0 <= k < v@.len() ==> #[trigger] v@[k] != *except,
                        forall|j: int| 0 <= j < i && #[trigger] here@[j] != *except ==> v@.contains(here@[j]),
                    decreases here.len() - i,
                {
                    let e = here[i];
                    let ghost before = v@;
                    if e != *except {
                        proof {
                            assert forall|k: int| 0 <= k < before.len() implies before[k] != e by {
                                let j = choose|j: int| 0 <= j < i && before[k] == here@[j];
                            }
                        }
                        v.push(e);
                        proof {
                            assert(v@[v@.len() - 1] == e);
                        }
                    }
                    proof {
                        assert forall|k: int| 0 <= k < v@.len() implies exists|j: int| 0 <= j < i + 1 && #[trigger] v@[k] == here@[j] by {
                            if k < before.len() {
                                assert(v@[k] == before[k]);
                                let j = choose|j: int| 0 <= j < i && before[k] == here@[j];
                            } else {
                                assert(v@[k] == here@[i as int]);
                            }
                        }
                        assert forall|j: int| 0 <= j < i + 1 && #[trigger] here@[j] != *except implies v@.contains(here@[j]) by {
                            if j < i {
                                assert(before.contains(here@[j]));
                                let k = choose|k: int| 0 <= k < before.len() && before[k] == here@[j];
                                assert(v@[k] == before[k]);
                            }
                        }
                    }
                    i = i + 1;
                }
                proof {
                    assert forall|e: EntityId| #[trigger] v@.contains(e) <==> receives(self, *target, e) by {
                        if self.locations.positions().contains_key(e) {
                            assert(self.table(ComponentKind::Location)[e] == ComponentValue::Location(self.locations.positions()[e].value));
                        }
                        if v@.contains(e) {
                            let k = choose|k: int| 0 <= k < v@.len() && v@[k] == e;
                            let j = choose|j: int| 0 <= j < here@.len() && v@[k] == here@[j];
                            assert(here@.contains(e));
                        }
                        if receives(self, *target, e) {
                            assert(here@.contains(e));
                            let j = choose|j: int| 0 <= j < here@.len() && here@[j] == e;
                        }
                    }
                }
                Ok(v)
            },
        }
    }
}

/// Every entry of the alias index names a registered entity, and that entity's alias is
/// the entry's alias.
pub proof fn law_alias_index_names_registered(reg: &EntityRegistry)
    requires
        reg.wf(),
    ensures
        forall|a: Seq<char>| #[trigger] reg.alias_index().contains_key(a) ==> {
            &&& reg.aliases().contains_key(reg.alias_index()[a])
            &&& reg.aliases()[reg.alias_index()[a]] == a
        },
{
}

/// Setting a component of a registered entity and reading it back gives that component;
/// for an unknown entity the read is refused as the update was. Every other entity and
/// component kind reads as before.
pub proof fn law_read_after_update(
    before: &EntityRegistry,
    after: &EntityRegistry,
    e: EntityId,
    k: ComponentKind,
    v: ComponentValue,
    r: Result<(), EntityRegistryError>,
)
    requires
        component_updated(before, after, e, k, v, r),
    ensures
        component_of(after, e, k) == if before.aliases().contains_key(e) {
            Ok::<Option<ComponentValue>, EntityRegistryError>(Some(v))
        } else {
            Err::<Option<ComponentValue>, EntityRegistryError>(EntityRegistryError::UnknownEntity(e))
        },
        forall|e2: EntityId, k2: ComponentKind| (e2 != e || k2 != k) ==> #[trigger] component_of(after, e2, k2) == component_of(before, e2, k2),
{
    assert forall|e2: EntityId, k2: ComponentKind| (e2 != e || k2 != k) implies #[trigger] component_of(after, e2, k2) == component_of(before, e2, k2) by {
        if k2 != k {
            assert(after.table(k2) == before.table(k2));
        }
    }
}

/// After an entity's location is set to `l`, it is at `l` and nowhere else.
pub proof fn law_location_after_update(
    before: &EntityRegistry,
    after: &EntityRegistry,
    e: EntityId,
    l: Location,
    r: Result<(), EntityRegistryError>,
)
    requires
        before.aliases().contains_key(e),
        component_updated(before, after, e, ComponentKind::Location, ComponentValue::Location(l.value), r),
    ensures
        after.is_at(e, l),
        forall|l2: Location| l2 != l ==> !#[trigger] after.is_at(e, l2),
{
}

/// Spawning under an alias that names no entity makes the alias name the new entity.
pub proof fn law_resolve_after_spawn(
    before: &EntityRegistry,
    after: &EntityRegistry,
    entity_id: Option<EntityId>,
    alias: Seq<char>,
    id: EntityId,
)
    requires
        spawned(before, after, entity_id, alias, Ok(id)),
    ensures
        resolved(after, alias) == Some(id),
        after.aliases().contains_key(id) && after.aliases()[id] == alias,
{
}

/// Despawning an entity that was just spawned gives back the aliases and the alias index
/// from before the spawn, and leaves no component of that entity.
pub proof fn law_despawn_undoes_spawn(
    r0: &EntityRegistry,
    r1: &EntityRegistry,
    r2: &EntityRegistry,
    entity_id: Option<EntityId>,
    alias: Seq<char>,
    id: EntityId,
    d: Result<(), EntityRegistryError>,
)
    requires
        spawned(r0, r1, entity_id, alias, Ok(id)),
        despawned(r1, r2, id, d),
    ensures
        d is Ok,
        r2.aliases() == r0.aliases(),
        r2.alias_index() == r0.alias_index(),
        forall|k: ComponentKind| #[trigger] r2.table(k) == r0.table(k).remove(id),
{
    assert(r2.aliases() =~= r0.aliases());
    assert(r2.alias_index() =~= r0.alias_index());
}

/// Once the changes of a component type have been taken, taking them again gives nothing.
pub proof fn law_take_dirty_twice<T: ComponentStorage>(
    r0: &EntityRegistry,
    r1: &EntityRegistry,
    first: Seq<(EntityId, T)>,
    r2: &EntityRegistry,
    second: Seq<(EntityId, T)>,
)
    requires
        dirty_taken(r0, r1, first),
        dirty_taken(r1, r2, second),
    ensures
        second.len() == 0,
{
    if second.len() > 0 {
        assert(r1.dirty_ids(T::kind()).contains(second[0].0));
    }
}

/// Once the changes of a component type have been taken, updating that component of a
/// registered entity and taking the changes again gives exactly that entity with its new
/// component.
pub proof fn law_take_dirty_after_update<T: ComponentStorage>(
    r0: &EntityRegistry,
    r1: &EntityRegistry,
    first: Seq<(EntityId, T)>,
    r2: &EntityRegistry,
    e: EntityId,
    c: T,
    u: Result<(), EntityRegistryError>,
    r3: &EntityRegistry,
    second: Seq<(EntityId, T)>,
)
    requires
        dirty_taken(r0, r1, first),
        r1.aliases().contains_key(e),
        component_updated(r1, r2, e, T::kind(), c.value(), u),
        dirty_taken(r2, r3, second),
    ensures
        second.len() == 1,
        second[0].0 == e,
        second[0].1.value() == c.value(),
{
    assert(r2.dirty_ids(T::kind()) =~= set![e]);
    assert(r2.table(T::kind()).contains_key(e));
    let i = choose|i: int| 0 <= i < second.len() && second[i].0 == e;
    if second.len() > 1 {
        let j = if i == 0 { 1int } else { 0int };
        assert(r2.dirty_ids(T::kind()).contains(second[j].0));
        assert(second[j].0 != second[i].0);
    }
}

} // verus!
