use krill::ecs::store::ComponentStore;
use krill::ecs::view::WorldView;
use krill::ecs::world::World;

#[derive(PartialEq, Eq, Debug)]
struct Label(String);

struct Player {
    health: f32,
}

struct Enemy;

#[test]
fn world_drop_entity() {
    let mut world = World::default();
    let entity_a = world.new_entity();
    let entity_b = world.new_entity();
    let entity_c = world.new_entity();

    assert!(world.is_alive(entity_a));
    assert!(world.is_alive(entity_b));
    assert!(world.is_alive(entity_c));
    assert!(!world.is_dead(entity_a));
    assert!(!world.is_dead(entity_b));
    assert!(!world.is_dead(entity_c));

    world.drop_entity(entity_b);

    assert!(world.is_alive(entity_a));
    assert!(world.is_dead(entity_b));
    assert!(world.is_alive(entity_c));

    world.drop_entity(entity_c);

    assert!(world.is_alive(entity_a));
    assert!(world.is_dead(entity_b));
    assert!(world.is_dead(entity_c));

    world.drop_entity(entity_a);

    assert!(world.is_dead(entity_a));
    assert!(world.is_dead(entity_b));
    assert!(world.is_dead(entity_c));
}

#[test]
fn single_component() {
    let mut world = World::default().with_component::<Label>();
    let entity_a = world.new_entity();
    let entity_b = world.new_entity();
    let entity_c = world.new_entity();

    {
        let labels = world.components_mut::<Label, _>();
        labels.put(entity_a, Label("Entity A".to_owned()));
        // entity_b does not get label component
        labels.put(entity_c, Label("Entity C".to_owned()));
    }

    {
        let labels = world.components::<Label, _>();
        assert!(labels.has(entity_a));
        assert_eq!(labels.get(entity_a), Some(&Label("Entity A".to_owned())));

        assert!(!labels.has(entity_b));

        assert!(labels.has(entity_c));
        assert_eq!(labels.get(entity_c), Some(&Label("Entity C".to_owned())));
    }

    {
        let labels = world.components_mut::<Label, _>();
        assert_eq!(labels.remove(entity_a), Some(Label("Entity A".to_owned())));
    }

    {
        let labels = world.components::<Label, _>();
        assert!(!labels.has(entity_a));

        assert!(!labels.has(entity_b));

        assert!(labels.has(entity_c));
        assert_eq!(labels.get(entity_c), Some(&Label("Entity C".to_owned())));
    }
}

#[test]
fn system() {
    let mut world = World::default()
        .with_component::<Label>()
        .with_component::<Player>()
        .with_component::<Enemy>();

    let entity_a = world.new_entity();
    let entity_b = world.new_entity();
    let entity_c = world.new_entity();

    {
        let labels = world.components_mut::<Label, _>();
        labels.put(entity_a, Label("Entity A".to_owned()));
        labels.put(entity_b, Label("Entity B".to_owned()));
        labels.put(entity_c, Label("Entity C".to_owned()));
    }
    {
        let players = world.components_mut::<Player, _>();
        players.put(entity_a, Player { health: 5.5 });
    }
    {
        let enemies = world.components_mut::<Enemy, _>();
        enemies.put(entity_c, Enemy);
    }

    let view = WorldView::builder()
        .required::<Label>()
        .build(&world);

    let labels = view.iter();
    assert_eq!(vec![
        (entity_a, (&Label("Entity A".to_owned()), ())),
        (entity_b, (&Label("Entity B".to_owned()), ())),
        (entity_c, (&Label("Entity C".to_owned()), ())),
    ], labels);

    let view = WorldView::builder()
        .required::<Label>()
        .marked::<Player>()
        .build(&world);
    let players = view.iter();
    assert_eq!(vec![
        (entity_a, (&Label("Entity A".to_owned()), ())),
    ], players);

    let view = WorldView::builder()
        .required::<Label>()
        .marked::<Enemy>()
        .build(&world);
    let enemies = view.iter();
    assert_eq!(vec![
        (entity_c, (&Label("Entity C".to_owned()), ())),
    ], enemies);

    assert_eq!(world.components::<Player, _>().get(entity_a).map(|p| p.health), Some(5.5));
}

#[test]
fn optional_binding_yields_missing_components_as_none() {
    let mut world = World::default().with_component::<Label>().with_component::<u32>();
    let a = world.new_entity();
    let b = world.new_entity();
    world.components_mut::<Label, _>().put(a, Label("A".to_owned()));
    world.components_mut::<Label, _>().put(b, Label("B".to_owned()));
    world.components_mut::<u32, _>().put(b, 7);
    let view = WorldView::builder().required::<Label>().optional::<u32>().build(&world);
    assert_eq!(
        view.iter(),
        vec![
            (a, (&Label("A".to_owned()), (None, ()))),
            (b, (&Label("B".to_owned()), (Some(&7u32), ()))),
        ]
    );
}

#[test]
fn revived_slot_gets_next_generation() {
    let mut world = World::default().with_component::<u8>();
    let a = world.new_entity();
    world.components_mut::<u8, _>().put(a, 1);
    world.drop_entity(a);
    let b = world.new_entity();
    assert!(world.is_dead(a));
    assert!(world.is_alive(b));
    assert!(a != b);
    assert_eq!(world.components::<u8, _>().get(b), None);
    assert_eq!(world.entity_iter(), vec![b]);
}

#[test]
fn add_component_empties_the_store() {
    let mut world = World::default().with_component::<u8>();
    let a = world.new_entity();
    world.components_mut::<u8, _>().put(a, 1);
    world.add_component::<u8, _>();
    assert!(!world.components::<u8, _>().has(a));
    let store: ComponentStore<u8> = ComponentStore::default();
    assert!(!store.has(a));
}

#[test]
fn entity_iter_lists_alive_entities_in_slot_order() {
    let mut world = World::default();
    let a = world.new_entity();
    let b = world.new_entity();
    let c = world.new_entity();
    world.drop_entity(b);
    assert_eq!(world.entity_iter(), vec![a, c]);
}
