use glyph_world::ecs::{Component, ComponentKind, Health, Name, Text, World, WorldError};
use glyph_world::text::{TextAlignment, TextComponent};
use glyph_world::transform::{Anchor, Position, TransformComponent};

fn transform_at(x: i64, y: i64) -> TransformComponent {
    TransformComponent { position: Position { x, y }, anchor: Anchor::TopLeft, width: 100 }
}

#[test]
fn columns_stay_in_lockstep_with_entity_count() {
    let mut world = World::new();
    let e0 = world.new_entity();
    world.add_component_to_entity(e0, Component::Health(Health(7))).unwrap();
    assert_eq!(world.borrow_component_vec(ComponentKind::Health).unwrap().len(), 1);
    world.new_entity();
    assert_eq!(world.borrow_component_vec(ComponentKind::Health).unwrap().len(), 2);
    world.new_entity();
    assert_eq!(world.borrow_component_vec(ComponentKind::Health).unwrap().len(), 3);
}

#[test]
fn late_column_is_backfilled_with_absent_slots() {
    let mut world = World::new();
    world.new_entity();
    world.new_entity();
    let e2 = world.new_entity();
    world.add_component_to_entity(e2, Component::Health(Health(3))).unwrap();
    let column = world.borrow_component_vec(ComponentKind::Health).unwrap();
    assert_eq!(column.len(), 3);
    assert!(column[0].is_none());
    assert!(column[1].is_none());
    assert!(column[2].is_some());
}

#[test]
fn attach_then_borrow_returns_the_value() {
    let mut world = World::new();
    let e = world.new_entity();
    world.add_component_to_entity(e, Component::Health(Health(42))).unwrap();
    match world.borrow_component(e, ComponentKind::Health) {
        Some(Component::Health(h)) => assert_eq!(h.0, 42),
        _ => panic!("expected the attached health value"),
    }
}

#[test]
fn second_attach_overwrites_without_duplicating() {
    let mut world = World::new();
    let e = world.new_entity();
    world.add_component_to_entity(e, Component::Health(Health(1))).unwrap();
    world.add_component_to_entity(e, Component::Health(Health(2))).unwrap();
    let column = world.borrow_component_vec(ComponentKind::Health).unwrap();
    assert_eq!(column.len(), 1);
    match &column[0] {
        Some(Component::Health(h)) => assert_eq!(h.0, 2),
        _ => panic!("expected the overwritten health value"),
    }
}

#[test]
fn borrow_column_is_none_until_first_attach() {
    let mut world = World::new();
    let e = world.new_entity();
    assert!(world.borrow_component_vec(ComponentKind::Health).is_none());
    world.add_component_to_entity(e, Component::Health(Health(9))).unwrap();
    assert!(world.borrow_component_vec(ComponentKind::Health).is_some());
    assert!(world.borrow_component_vec(ComponentKind::Name).is_none());
}

#[test]
fn attach_to_unknown_entity_is_rejected() {
    let mut world = World::new();
    assert_eq!(
        world.add_component_to_entity(0, Component::Health(Health(1))),
        Err(WorldError::InvalidEntity)
    );
    let e = world.new_entity();
    assert_eq!(e, 0);
    assert_eq!(
        world.add_component_to_entity(1, Component::Health(Health(1))),
        Err(WorldError::InvalidEntity)
    );
    assert!(world.add_component_to_entity(0, Component::Health(Health(1))).is_ok());
}

#[test]
fn text_and_transform_pair_end_to_end() {
    let mut world = World::new();
    let e = world.new_entity();
    world
        .add_component_to_entity(e, Component::Text(Text { text: "Hi".to_string() }))
        .unwrap();
    world
        .add_component_to_entity(e, Component::Transform(transform_at(50, 50)))
        .unwrap();
    match world.borrow_component(0, ComponentKind::Text) {
        Some(Component::Text(t)) => assert_eq!(t.text, "Hi"),
        _ => panic!("expected the text component at index 0"),
    }
    match world.borrow_component(0, ComponentKind::Transform) {
        Some(Component::Transform(t)) => {
            assert_eq!(t.position.x, 50);
            assert_eq!(t.position.y, 50);
        }
        _ => panic!("expected the transform component at index 0"),
    }
    assert!(world.borrow_component(1, ComponentKind::Text).is_none());
    assert_eq!(world.entities_with(ComponentKind::Text, ComponentKind::Transform), vec![0]);

    let empty = World::new();
    assert!(empty.entities_with(ComponentKind::Text, ComponentKind::Transform).is_empty());
}

#[test]
fn name_column_marks_only_the_first_entity() {
    let mut world = World::new();
    let e0 = world.new_entity();
    world.new_entity();
    world.add_component_to_entity(e0, Component::Name(Name("first"))).unwrap();
    let names = world.borrow_component_vec(ComponentKind::Name).unwrap();
    assert_eq!(names.len(), 2);
    match &names[0] {
        Some(Component::Name(n)) => assert_eq!(n.0, "first"),
        _ => panic!("expected a name in slot 0"),
    }
    assert!(names[1].is_none());
}

#[test]
fn entities_with_walks_in_increasing_order() {
    let mut world = World::new();
    for _ in 0..4 {
        world.new_entity();
    }
    for e in [0usize, 2, 3] {
        world
            .add_component_to_entity(e, Component::Text(Text { text: format!("t{}", e) }))
            .unwrap();
    }
    for e in [1usize, 2, 3] {
        world
            .add_component_to_entity(e, Component::Transform(transform_at(0, 0)))
            .unwrap();
    }
    assert_eq!(world.entities_with(ComponentKind::Text, ComponentKind::Transform), vec![2, 3]);
}

#[test]
fn distinct_kinds_keep_distinct_columns() {
    let mut world = World::new();
    let e = world.new_entity();
    world.add_component_to_entity(e, Component::Health(Health(5))).unwrap();
    world
        .add_component_to_entity(
            e,
            Component::TextContent(TextComponent {
                text: "hello".to_string(),
                alignment: TextAlignment::Left,
                width: 200,
            }),
        )
        .unwrap();
    match world.borrow_component(e, ComponentKind::Health) {
        Some(Component::Health(h)) => assert_eq!(h.0, 5),
        _ => panic!("expected the health value"),
    }
    match world.borrow_component(e, ComponentKind::TextContent) {
        Some(Component::TextContent(t)) => {
            assert_eq!(t.text, "hello");
            assert_eq!(t.width, 200);
        }
        _ => panic!("expected the text content"),
    }
}
