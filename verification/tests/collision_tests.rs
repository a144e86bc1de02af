use std::rc::Rc;
use tile_engine::animation::AnimationState;
use tile_engine::collision::gather_contacts;
use tile_engine::collision::restitute;
use tile_engine::collision::ColliderID;
use tile_engine::collision::Contact;
use tile_engine::sprite::Sprite;
use tile_engine::texture::Texture;
use tile_engine::tiles::Tile;
use tile_engine::tiles::Tilemap;
use tile_engine::tiles::Tileset;
use tile_engine::types::Effect;
use tile_engine::types::Rect;
use tile_engine::types::Vec2i;

fn texture() -> Rc<Texture> {
    Rc::new(Texture::new(vec![0u8; 32 * 32 * 4], 32, 32))
}

/// A one-tile map far away from the action, so corner tests see no tiles.
fn far_map() -> Tilemap {
    let ts = Rc::new(Tileset::new(
        vec![Tile { solid: false, collide: Effect::Nothing }],
        &texture(),
    ));
    Tilemap::new(Vec2i(100000, 100000), (1, 1), &ts, vec![0])
}

/// A map whose tiles can be chosen per test, at the origin.
fn map_with(tiles: Vec<Tile>, cols: usize, rows: usize, ids: Vec<usize>) -> Tilemap {
    let ts = Rc::new(Tileset::new(tiles, &texture()));
    Tilemap::new(Vec2i(0, 0), (cols, rows), &ts, ids)
}

fn sprite_at(x: i32, y: i32, w: u16, h: u16, effect: Effect) -> Sprite {
    Sprite::new(
        &texture(),
        Rect { x: 0, y: 0, w, h },
        Vec2i(x, y),
        true,
        0,
        0,
        AnimationState::Nothing,
        effect,
    )
}

fn plain_contact(effect: Effect) -> Contact {
    Contact {
        a: ColliderID::Dynamic(0),
        b: ColliderID::Static((0, Vec2i(0, 0), true)),
        mtv: None,
        effect,
    }
}

#[test]
fn hurt_always_overwrites_the_accumulated_effect() {
    let map = far_map();
    let mut spr = sprite_at(0, 0, 10, 10, Effect::Nothing);
    let contacts =
        vec![plain_contact(Effect::Speedup(1)), plain_contact(Effect::Hurt(2)), plain_contact(Effect::Speedup(3))];
    let eff = restitute(&map, &mut spr, &[], &contacts);
    assert_eq!(eff, Effect::Hurt(2));
}

#[test]
fn first_speedup_wins() {
    let map = far_map();
    let mut spr = sprite_at(0, 0, 10, 10, Effect::Nothing);
    let contacts = vec![plain_contact(Effect::Speedup(1)), plain_contact(Effect::Speedup(3))];
    let eff = restitute(&map, &mut spr, &[], &contacts);
    assert_eq!(eff, Effect::Speedup(1));
}

#[test]
fn fight_overwrites_hurt() {
    let map = far_map();
    let mut spr = sprite_at(0, 0, 10, 10, Effect::Nothing);
    let contacts = vec![plain_contact(Effect::Hurt(1)), plain_contact(Effect::Fight)];
    let eff = restitute(&map, &mut spr, &[], &contacts);
    assert_eq!(eff, Effect::Fight);
}

#[test]
fn hurt_overwrites_even_win() {
    let map = far_map();
    let mut spr = sprite_at(0, 0, 10, 10, Effect::Nothing);
    let contacts = vec![plain_contact(Effect::Win), plain_contact(Effect::Hurt(5))];
    let eff = restitute(&map, &mut spr, &[], &contacts);
    assert_eq!(eff, Effect::Hurt(5));
}

#[test]
fn speedup_does_not_displace_an_earlier_fight() {
    let map = far_map();
    let mut spr = sprite_at(0, 0, 10, 10, Effect::Nothing);
    let contacts = vec![plain_contact(Effect::Fight), plain_contact(Effect::Speedup(4))];
    let eff = restitute(&map, &mut spr, &[], &contacts);
    assert_eq!(eff, Effect::Fight);
}

#[test]
fn no_contacts_aggregate_to_nothing() {
    let map = far_map();
    let mut spr = sprite_at(3, 4, 10, 10, Effect::Nothing);
    let eff = restitute(&map, &mut spr, &[], &[]);
    assert_eq!(eff, Effect::Nothing);
    assert_eq!(spr.position, Vec2i(3, 4));
}

/// Runs one detect-and-resolve tick of the moving sprite against one
/// static sprite and returns the moved position.
fn resolve_against(moving: &mut Sprite, stat: Sprite, map: &Tilemap) -> Effect {
    let statics = vec![stat];
    let mut contacts: Vec<Contact> = Vec::new();
    gather_contacts(map, moving, &statics, &mut contacts);
    restitute(map, moving, &statics, &contacts)
}

#[test]
fn overlap_smaller_in_x_corrects_along_x() {
    let map = far_map();
    // boxes overlapping by (3, 5): push out along x, away from the static
    let mut a = sprite_at(0, 0, 10, 10, Effect::Nothing);
    let b = sprite_at(7, 5, 10, 10, Effect::Nothing);
    resolve_against(&mut a, b, &map);
    assert_eq!(a.position, Vec2i(-3, 0));
}

#[test]
fn overlap_smaller_in_y_corrects_along_y() {
    let map = far_map();
    // boxes overlapping by (5, 3): push out along y
    let mut a = sprite_at(0, 0, 10, 10, Effect::Nothing);
    let b = sprite_at(5, 7, 10, 10, Effect::Nothing);
    resolve_against(&mut a, b, &map);
    assert_eq!(a.position, Vec2i(0, -3));
}

#[test]
fn equal_overlap_tie_corrects_along_x() {
    let map = far_map();
    // boxes overlapping by (4, 4): the tie goes to x
    let mut a = sprite_at(0, 0, 10, 10, Effect::Nothing);
    let b = sprite_at(6, 6, 10, 10, Effect::Nothing);
    resolve_against(&mut a, b, &map);
    assert_eq!(a.position, Vec2i(-4, 0));
}

#[test]
fn zero_overlap_on_chosen_axis_suppresses_correction() {
    let map = far_map();
    // boxes sharing an edge: overlap (0, 10), x chosen, zero means no push
    let mut a = sprite_at(0, 0, 10, 10, Effect::Nothing);
    let b = sprite_at(10, 0, 10, 10, Effect::Nothing);
    resolve_against(&mut a, b, &map);
    assert_eq!(a.position, Vec2i(0, 0));
}

#[test]
fn static_sprite_contact_carries_its_effect() {
    let map = far_map();
    let mut a = sprite_at(0, 0, 10, 10, Effect::Nothing);
    let b = sprite_at(7, 5, 10, 10, Effect::Win);
    let eff = resolve_against(&mut a, b, &map);
    assert_eq!(eff, Effect::Win);
}

#[test]
fn solid_tile_blocks_and_pushes_out() {
    // a single solid tile covering world [0,32)x[0,32)
    let map = map_with(
        vec![Tile { solid: true, collide: Effect::Nothing }],
        1,
        1,
        vec![0],
    );
    // sprite 16x16 at (28, 28): only its top-left corner lies on the tile;
    // the overlap is (4, 4), a tie, so x is corrected away from the tile
    let mut a = sprite_at(28, 28, 16, 16, Effect::Nothing);
    let mut contacts: Vec<Contact> = Vec::new();
    gather_contacts(&map, &a, &[], &mut contacts);
    assert_eq!(contacts.len(), 1);
    assert_eq!(contacts[0].mtv, Some((4, 4)));
    restitute(&map, &mut a, &[], &contacts);
    assert_eq!(a.position, Vec2i(32, 28));
}

#[test]
fn non_solid_tile_applies_effect_without_blocking() {
    let map = map_with(
        vec![Tile { solid: false, collide: Effect::Speedup(2) }],
        1,
        1,
        vec![0],
    );
    let mut a = sprite_at(4, 4, 8, 8, Effect::Nothing);
    let mut contacts: Vec<Contact> = Vec::new();
    gather_contacts(&map, &a, &[], &mut contacts);
    // all four corners lie on the tile: four effect-only contacts
    assert_eq!(contacts.len(), 4);
    assert!(contacts.iter().all(|c| c.mtv.is_none()));
    let eff = restitute(&map, &mut a, &[], &contacts);
    assert_eq!(eff, Effect::Speedup(2));
    assert_eq!(a.position, Vec2i(4, 4));
}

#[test]
fn corners_outside_the_map_are_ignored() {
    let map = map_with(
        vec![Tile { solid: true, collide: Effect::Hurt(9) }],
        1,
        1,
        vec![0],
    );
    // sprite entirely left of the map
    let a = sprite_at(-100, 0, 8, 8, Effect::Nothing);
    let mut contacts: Vec<Contact> = Vec::new();
    gather_contacts(&map, &a, &[], &mut contacts);
    assert!(contacts.is_empty());
}

#[test]
fn already_separated_contact_is_not_corrected_twice() {
    let map = far_map();
    // two nearby static boxes: the first correction separates the sprite
    // from both, so the second contact no longer touches and must not push
    let mut a = sprite_at(0, 0, 10, 10, Effect::Nothing);
    let statics = vec![
        sprite_at(8, 0, 10, 10, Effect::Nothing),
        sprite_at(9, 0, 10, 10, Effect::Nothing),
    ];
    let mut contacts: Vec<Contact> = Vec::new();
    gather_contacts(&map, &a, &statics, &mut contacts);
    assert_eq!(contacts.len(), 2);
    restitute(&map, &mut a, &statics, &contacts);
    // pushed out once by the overlap of 2, then left alone
    assert_eq!(a.position, Vec2i(-2, 0));
}
