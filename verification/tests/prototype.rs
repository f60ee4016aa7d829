use krill::prototype::ecs::{EntityHandle, World};
use krill::prototype::events::{Event, EventBus, InputEvent};

#[test]
fn test_iterate_entities() {
    let mut world: World<()> = World::default();
    let mut entities: Vec<(bool, EntityHandle)> = (0..10).map(|_| (false, world.new_entity())).collect();

    for entity in world.entity_iter() {
        let (found, _) = entities.iter_mut()
            .find(|(_, handle)| *handle == entity.handle())
            .expect(&format!("world produced unknown entity handle: {:?}", entity.handle()));
        assert!(!*found, "world produced duplicate entity handle: {:?}", entity.handle());
        *found = true;
    }

    for (found, handle) in entities {
        assert!(found, "world did not produce entity handle: {:?}", handle);
    }
}

#[test]
fn killed_slot_is_reused() {
    let mut world: World<u8> = World::default();
    let a = world.new_entity();
    let b = world.new_entity();
    world.kill(a);
    assert!(world.entity(a).is_none());
    let c = world.new_entity();
    assert_eq!(c, a);
    assert_eq!(world.entity_iter().len(), 2);
    *world.entity_mut(b).unwrap() = 9;
    assert_eq!(world.entity(b), Some(&9));
}

#[test]
fn event_bus_drains_in_order() {
    let mut bus = EventBus::default();
    bus.push(Event::InputEvent(InputEvent::Keyboard { key: 1 }));
    bus.push(Event::InputEvent(InputEvent::Keyboard { key: 2 }));
    let keys: Vec<u32> = bus
        .drain()
        .into_iter()
        .map(|event| match event {
            Event::InputEvent(InputEvent::Keyboard { key }) => key,
        })
        .collect();
    assert_eq!(keys, vec![1, 2]);
    assert!(bus.drain().is_empty());
}
