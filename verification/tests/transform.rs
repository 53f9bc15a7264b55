use glyph_world::transform::{Anchor, Position, TransformComponent};

#[test]
fn a_fresh_transform_sits_at_the_origin() {
    let t = TransformComponent::new();
    assert_eq!(t.position, Position { x: 0, y: 0 });
    assert_eq!(t.width, 100);
    assert_eq!(t.anchor, Anchor::TopLeft);
}

#[test]
fn top_left_anchor_keeps_the_position() {
    let t = TransformComponent {
        position: Position { x: 12, y: 34 },
        anchor: Anchor::TopLeft,
        width: 300,
    };
    assert_eq!(t.absolute_position(512), Position { x: 12, y: 34 });
}

#[test]
fn top_middle_anchor_centers_the_block() {
    let t = TransformComponent {
        position: Position { x: 50, y: 20 },
        anchor: Anchor::TopMiddle,
        width: 300,
    };
    // 50 + 512 / 2 - 300 / 2
    assert_eq!(t.absolute_position(512), Position { x: 156, y: 20 });
}

#[test]
fn odd_halves_round_down() {
    let t = TransformComponent {
        position: Position { x: 0, y: 0 },
        anchor: Anchor::TopMiddle,
        width: 5,
    };
    assert_eq!(t.absolute_position(7), Position { x: 1, y: 0 });
}
