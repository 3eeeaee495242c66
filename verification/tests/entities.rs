use fourthage_mud::entities::{
    Description, EntityRegistry, EntityRegistryError, Item, Location, Name, Npc, Player, SpawnLocation,
};
use fourthage_mud::model::ids::{Alias, EntityId, RoomId};

/// Tests that components can be updated and retrieved for entities.
#[test]
fn test_update_component() {
    let mut entities = EntityRegistry::new();

    let e1 = entities.spawn(None, Alias::new("e1")).unwrap();
    let e2 = entities.spawn(None, Alias::new("e2")).unwrap();

    entities.update_component(&e1, Name::new("entity 1")).unwrap();

    let name1 = entities.get_component::<Name>(&e1).unwrap().unwrap();
    assert_eq!("entity 1", name1.as_str());

    let name2 = entities.get_component::<Name>(&e2).unwrap();
    assert!(name2.is_none())
}

/// Tests that components can be queried by location.
#[test]
fn test_get_component_by_location() {
    let mut entities = EntityRegistry::new();

    let e1 = entities.spawn(None, Alias::new("e1")).unwrap();
    let e2 = entities.spawn(None, Alias::new("e2")).unwrap();
    let e3 = entities.spawn(None, Alias::new("e3")).unwrap();

    let room1 = RoomId::generate();
    let room2 = RoomId::generate();
    let loc1 = Location { value: room1.as_entity() };
    let loc2 = Location { value: room2.as_entity() };

    entities.update_component(&e1, loc1.clone()).unwrap();
    entities.update_component(&e1, Name::new("entity 1")).unwrap();
    entities.update_component(&e2, loc1.clone()).unwrap();
    entities.update_component(&e3, loc2.clone()).unwrap();
    entities.update_component(&e3, Name::new("entity 3")).unwrap();

    let found = entities.query_location::<Name>(&loc1);
    let mut iter = found.iter();
    let (e, n) = iter.next().unwrap();

    // Only one entity is expected since only one exists in the location with a Name.
    assert_eq!(&e1, e);
    assert_eq!("entity 1", n.as_str());

    assert!(iter.next().is_none());
}

#[test]
fn test_query3() {
    let mut entities = EntityRegistry::new();

    let e1 = entities.spawn(None, Alias::new("e1")).unwrap();
    let e2 = entities.spawn(None, Alias::new("e2")).unwrap();
    let e3 = entities.spawn(None, Alias::new("e3")).unwrap();

    let loc = Location { value: RoomId::generate().as_entity() };
    let name = Name::new("Some Name");

    // e1 has location and name but not item.
    entities.update_component(&e1, loc.clone()).unwrap();
    entities.update_component(&e1, name.clone()).unwrap();

    // e2 has name and item but not location.
    entities.update_component(&e2, name.clone()).unwrap();
    entities.update_component(&e2, Item).unwrap();

    // e3 has all three components.
    entities.update_component(&e3, loc.clone()).unwrap();
    entities.update_component(&e3, name.clone()).unwrap();
    entities.update_component(&e3, Item).unwrap();

    let found = entities.query3::<Name, Item, Location>();
    let mut iter = found.iter();
    let (e, _) = iter.next().unwrap();

    // Only one entity is expected since only one has all three components.
    assert_eq!(&e3, e);

    assert!(iter.next().is_none());
}

#[test]
fn test_query2_location() {
    let mut entities = EntityRegistry::new();

    let e1 = entities.spawn(None, Alias::new("e1")).unwrap();
    let e2 = entities.spawn(None, Alias::new("e2")).unwrap();
    let e3 = entities.spawn(None, Alias::new("e3")).unwrap();

    let room1 = RoomId::generate();
    let room2 = RoomId::generate();
    let loc1 = Location { value: room1.as_entity() };
    let loc2 = Location { value: room2.as_entity() };

    entities.update_component(&e1, loc1.clone()).unwrap();
    entities.update_component(&e1, Name::new("entity 1")).unwrap();
    entities.update_component(&e2, loc1.clone()).unwrap();
    entities.update_component(&e2, Name::new("entity 2")).unwrap();
    entities.update_component(&e2, Item).unwrap();
    entities.update_component(&e3, loc2.clone()).unwrap();
    entities.update_component(&e3, Name::new("entity 3")).unwrap();

    let found = entities.query2_location::<Name, Item>(&loc1);
    let mut iter = found.iter();
    let (e, (n, _i)) = iter.next().unwrap();

    // Only one entity is expected since only one exists in the location
    // with both Name and Item components.
    assert_eq!(&e2, e);
    assert_eq!("entity 2", n.as_str());

    assert!(iter.next().is_none());
}

#[test]
fn test_take_dirty() {
    let mut entities = EntityRegistry::new();

    let e1 = entities.spawn(None, Alias::new("e1")).unwrap();
    let e2 = entities.spawn(None, Alias::new("e2")).unwrap();

    entities.update_component(&e1, Name::new("name1")).unwrap();
    entities.update_component(&e2, Name::new("name2")).unwrap();

    let dirty = entities.take_dirty::<Name>();
    assert_eq!(2, dirty.len());
    assert!(dirty.contains(&(e1, Name::new("name1"))));
    assert!(dirty.contains(&(e2, Name::new("name2"))));

    assert_eq!(Some(Name::new("name1")), entities.get_component(&e1).unwrap());
    assert_eq!(Some(Name::new("name2")), entities.get_component(&e2).unwrap());

    entities.update_component(&e2, Name::new("name2*")).unwrap();

    let dirty = entities.take_dirty::<Name>();
    assert_eq!(1, dirty.len());
    assert!(dirty.contains(&(e2, Name::new("name2*"))));
}

#[test]
fn take_dirty_twice_gives_nothing() {
    let mut entities = EntityRegistry::new();
    let e1 = entities.spawn(None, Alias::new("e1")).unwrap();
    entities.update_component(&e1, Name::new("a")).unwrap();
    assert_eq!(1, entities.take_dirty::<Name>().len());
    assert_eq!(0, entities.take_dirty::<Name>().len());
}

#[test]
fn read_after_update_and_unknown_entity() {
    let mut entities = EntityRegistry::new();
    let e1 = entities.spawn(None, Alias::new("e1")).unwrap();
    entities.update_component(&e1, Description::new("a plain thing")).unwrap();
    let d = entities.get_component::<Description>(&e1).unwrap().unwrap();
    assert_eq!("a plain thing", d.to_string());

    let stranger = EntityId::from_uuid(42);
    match entities.update_component(&stranger, Name::new("x")) {
        Err(EntityRegistryError::UnknownEntity(id)) => assert_eq!(stranger, id),
        _ => panic!("update of an unknown entity must be refused"),
    }
    match entities.get_component::<Name>(&stranger) {
        Err(EntityRegistryError::UnknownEntity(id)) => assert_eq!(stranger, id),
        _ => panic!("read of an unknown entity must be refused"),
    }
    assert!(!entities.has_component::<Name>(&e1).unwrap());
    assert!(entities.has_component::<Description>(&e1).unwrap());
}

#[test]
fn spawn_then_resolve_and_duplicates() {
    let mut entities = EntityRegistry::new();
    let given = EntityId::from_uuid(7);
    let e = entities.spawn(Some(given), Alias::new("lamp")).unwrap();
    assert_eq!(given, e);
    assert_eq!(Some(given), entities.resolve_alias(&Alias::new("lamp")));
    assert_eq!("lamp", entities.get_alias(&given).unwrap().as_str());

    match entities.spawn(Some(given), Alias::new("other")) {
        Err(EntityRegistryError::DuplicateSpawn(id)) => assert_eq!(given, id),
        _ => panic!("a second spawn with the same identifier must be refused"),
    }

    // The alias is taken: the new entity is registered, the alias keeps naming the first.
    match entities.spawn(None, Alias::new("lamp")) {
        Err(EntityRegistryError::DuplicateAlias(a)) => assert_eq!("lamp", a.as_str()),
        _ => panic!("a taken alias must be reported"),
    }
    assert_eq!(Some(given), entities.resolve_alias(&Alias::new("lamp")));
}

#[test]
fn despawn_forgets_alias_and_components() {
    let mut entities = EntityRegistry::new();
    let e = entities.spawn(None, Alias::new("e")).unwrap();
    let room = RoomId::generate();
    entities.update_component(&e, Location::new(room.as_entity())).unwrap();
    entities.update_component(&e, Name::new("n")).unwrap();
    entities.update_component(&e, Player).unwrap();
    entities.update_component(&e, Npc).unwrap();
    entities.update_component(&e, Item).unwrap();
    entities.update_component(&e, Description::new("d")).unwrap();
    entities.update_component(&e, SpawnLocation::from_location(&Location::new(room.as_entity()))).unwrap();
    let other = entities.spawn(None, Alias::new("other")).unwrap();
    entities.update_component(&other, Description::new("kept")).unwrap();
    entities.despawn(&e).unwrap();
    assert_eq!(None, entities.resolve_alias(&Alias::new("e")));
    assert!(entities.get_alias(&e).is_err());
    assert!(entities.query_location::<Name>(&Location::new(room.as_entity())).is_empty());
    assert!(entities.query::<Location>().is_empty());
    assert!(entities.query::<Name>().is_empty());
    assert!(entities.query::<Player>().is_empty());
    assert!(entities.query::<Npc>().is_empty());
    assert!(entities.query::<Item>().is_empty());
    assert!(entities.query::<SpawnLocation>().is_empty());
    assert_eq!(vec![other], entities.query::<Description>().into_iter().map(|(id, _)| id).collect::<Vec<_>>());
    assert_eq!(Some(other), entities.resolve_alias(&Alias::new("other")));
    assert!(entities.despawn(&e).is_err());
}

#[test]
fn moving_updates_the_location_index() {
    let mut entities = EntityRegistry::new();
    let e = entities.spawn(None, Alias::new("e")).unwrap();
    entities.update_component(&e, Name::new("walker")).unwrap();
    let a = Location::new(RoomId::generate().as_entity());
    let b = Location::new(RoomId::generate().as_entity());
    entities.update_component(&e, a).unwrap();
    assert_eq!(1, entities.query_location::<Name>(&a).len());
    entities.update_component(&e, b).unwrap();
    assert!(entities.query_location::<Name>(&a).is_empty());
    assert_eq!(1, entities.query_location::<Name>(&b).len());
    entities.remove_component::<Location>(&e).unwrap();
    assert!(entities.query_location::<Name>(&b).is_empty());
}

#[test]
fn query2_and_spawn_locations() {
    let mut entities = EntityRegistry::new();
    let e1 = entities.spawn(None, Alias::new("e1")).unwrap();
    let e2 = entities.spawn(None, Alias::new("e2")).unwrap();
    let room = Location::new(RoomId::generate().as_entity());
    entities.update_component(&e1, Player).unwrap();
    entities.update_component(&e1, Name::new("p1")).unwrap();
    entities.update_component(&e2, Player).unwrap();
    entities.update_component(&e2, SpawnLocation::from_location(&room)).unwrap();
    let players = entities.query2::<Player, Name>();
    assert_eq!(1, players.len());
    assert_eq!(e1, players[0].0);
    let spawns = entities.query::<SpawnLocation>();
    assert_eq!(vec![(e2, SpawnLocation { value: room.value })], spawns);
}
