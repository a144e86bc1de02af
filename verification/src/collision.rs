//! Axis-aligned collision detection and restitution between one moving
//! sprite, static sprites, and the solid tiles of a tilemap.
//!
//! Detection against tiles tests the four corners of the moving sprite's
//! bounding box, a deliberate approximation for this genre: sub-tile gaps
//! can be missed, and that is accepted.

use crate::sprite::Sprite;
use crate::tiles::Tilemap;
use crate::types::spec_overlap_x;
use crate::types::spec_overlap_y;
use crate::types::spec_touching;
use crate::types::Effect;
use crate::types::Rect;
use crate::types::Vec2i;
use vstd::prelude::*;

verus! {

/// Identifies one collider of a contact: the moving sprite (`Dynamic`) or
/// a static collider (`Static`). A static collider carries the index into
/// the static-sprite list, the world position or corner point that
/// identified it, and an is-sprite-rect flag: true for a sprite's box,
/// false for a tile cell.
#[derive(PartialEq, Eq, Clone, Copy, Debug)]
pub enum ColliderID {
    Static((usize, Vec2i, bool)),
    Dynamic(usize),
}

/// An ephemeral per-tick record of one detected overlap: who touched
/// whom, the per-axis overlap extents when the static side blocks
/// movement (`mtv`), and the gameplay effect the static side applies.
#[derive(PartialEq, Eq, Clone, Copy, Debug)]
pub struct Contact {
    pub a: ColliderID,
    pub b: ColliderID,
    pub mtv: Option<(i32, i32)>,
    pub effect: Effect,
}

/// The moving sprite's world-space bounding box.
pub open spec fn spec_sprite_rect(s: Sprite) -> Rect {
    Rect { x: s.position.0, y: s.position.1, w: s.frame.w, h: s.frame.h }
}

/// The world rectangle of the tile cell at grid coordinates (tx, ty).
pub open spec fn tile_cell_rect(tm: Tilemap, tx: int, ty: int) -> Rect {
    Rect {
        x: (tx * 32 + tm.position.0) as i32,
        y: (ty * 32 + tm.position.1) as i32,
        w: 32 as u16,
        h: 32 as u16,
    }
}

/// The contact produced by static sprite `bi`: one record when its box
/// overlaps the moving sprite's box, nothing otherwise.
pub open spec fn static_contact(spr: Sprite, statics: Seq<Sprite>, bi: int) -> Seq<Contact> {
    let a = spec_sprite_rect(spr);
    let b = spec_sprite_rect(statics[bi]);
    if spec_overlap_x(a, b) >= 0 && spec_overlap_y(a, b) >= 0 {
        seq![
            Contact {
                a: ColliderID::Dynamic(0),
                b: ColliderID::Static((bi as usize, statics[bi].position, true)),
                mtv: Some((spec_overlap_x(a, b) as i32, spec_overlap_y(a, b) as i32)),
                effect: statics[bi].collision,
            },
        ]
    } else {
        Seq::empty()
    }
}

/// The contacts against the static sprites from index `bi` to the end.
pub open spec fn statics_contacts_from(spr: Sprite, statics: Seq<Sprite>, bi: int) -> Seq<Contact>
    decreases statics.len() - bi,
{
    if 0 <= bi < statics.len() {
        static_contact(spr, statics, bi) + statics_contacts_from(spr, statics, bi + 1)
    } else {
        Seq::empty()
    }
}

/// Corner `k` (0 top-left, 1 top-right, 2 bottom-right, 3 bottom-left) of
/// the moving sprite's bounding box, in test order.
pub open spec fn corner(spr: Sprite, k: int) -> (int, int) {
    let x = spr.position.0 as int;
    let y = spr.position.1 as int;
    let w = spr.frame.w as int;
    let h = spr.frame.h as int;
    if k == 0 {
        (x, y)
    } else if k == 1 {
        (x + w, y)
    } else if k == 2 {
        (x + w, y + h)
    } else {
        (x, y + h)
    }
}

/// The contact contributed by corner `k` of the moving sprite: nothing
/// when the corner lies outside the map; a blocking contact with overlap
/// extents when the tile under it is solid and the rectangles overlap;
/// an effect-only contact (no `mtv`) when the tile is not solid.
pub open spec fn corner_contact(tm: Tilemap, spr: Sprite, k: int) -> Seq<Contact> {
    let c = corner(spr, k);
    let p = Vec2i(c.0 as i32, c.1 as i32);
    if tm.in_extent(p) {
        let tx = tm.tile_coord_x(p);
        let ty = tm.tile_coord_y(p);
        let tile = tm.tileset.tiles@[tm.map@[ty * tm.dims.0 + tx].0 as int];
        if tile.solid {
            let a = spec_sprite_rect(spr);
            let cell = tile_cell_rect(tm, tx, ty);
            if spec_overlap_x(a, cell) >= 0 && spec_overlap_y(a, cell) >= 0 {
                seq![
                    Contact {
                        a: ColliderID::Dynamic(0),
                        b: ColliderID::Static((0, p, false)),
                        mtv: Some(
                            (spec_overlap_x(a, cell) as i32, spec_overlap_y(a, cell) as i32),
                        ),
                        effect: tile.collide,
                    },
                ]
            } else {
                Seq::empty()
            }
        } else {
            seq![
                Contact {
                    a: ColliderID::Dynamic(0),
                    b: ColliderID::Static((0, p, false)),
                    mtv: None,
                    effect: tile.collide,
                },
            ]
        }
    } else {
        Seq::empty()
    }
}

/// All contacts gathered in one tick: one per overlapping static sprite,
/// in list order, then one per corner whose tile demands it, in corner
/// order.
pub open spec fn contacts_spec(tm: Tilemap, spr: Sprite, statics: Seq<Sprite>) -> Seq<Contact> {
    statics_contacts_from(spr, statics, 0) + corner_contact(tm, spr, 0) + corner_contact(
        tm,
        spr,
        1,
    ) + corner_contact(tm, spr, 2) + corner_contact(tm, spr, 3)
}

/// A contact refers to real colliders: a sprite contact's index names a
/// static sprite, and a blocking tile contact's point lies in the map.
pub open spec fn wf_contact(tm: Tilemap, statics: Seq<Sprite>, c: Contact) -> bool {
    match c.b {
        ColliderID::Static(si) => {
            &&& (si.2 && c.mtv is Some && c.a is Dynamic ==> si.0 < statics.len())
            &&& (!si.2 && c.mtv is Some && c.a is Dynamic ==> tm.in_extent(si.1))
        },
        ColliderID::Dynamic(_) => true,
    }
}

/// Every contact of the list refers to real colliders.
pub open spec fn wf_contacts(tm: Tilemap, statics: Seq<Sprite>, contacts: Seq<Contact>) -> bool {
    forall|i: int| 0 <= i < contacts.len() ==> wf_contact(tm, statics, #[trigger] contacts[i])
}

/// Every recorded overlap extent is non-negative and at most one
/// rectangle side, so no single push moves a sprite farther than
/// `u16::MAX` pixels.
pub open spec fn bounded_mtv(contacts: Seq<Contact>) -> bool {
    forall|i: int|
        0 <= i < contacts.len() ==> match (#[trigger] contacts[i]).mtv {
            Some(m) => 0 <= m.0 <= u16::MAX && 0 <= m.1 <= u16::MAX,
            None => true,
        }
}

/// Everything `gather_contacts` pushes refers to real colliders and
/// carries bounded overlap extents.
pub proof fn lemma_contacts_spec_wf(tm: Tilemap, spr: Sprite, statics: Seq<Sprite>)
    ensures
        wf_contacts(tm, statics, contacts_spec(tm, spr, statics)),
        bounded_mtv(contacts_spec(tm, spr, statics)),
{
    let all = contacts_spec(tm, spr, statics);
    lemma_statics_contacts_wf(tm, spr, statics, 0);
    let s0 = statics_contacts_from(spr, statics, 0);
    assert forall|i: int| 0 <= i < all.len() implies wf_contact(tm, statics, #[trigger] all[i])
        && match all[i].mtv {
        Some(m) => 0 <= m.0 <= u16::MAX && 0 <= m.1 <= u16::MAX,
        None => true,
    } by {
        if i >= s0.len() {
            let j = i - s0.len();
            let c0 = corner_contact(tm, spr, 0);
            let c1 = corner_contact(tm, spr, 1);
            let c2 = corner_contact(tm, spr, 2);
            let c3 = corner_contact(tm, spr, 3);
            assert(all[i] == (c0 + c1 + c2 + c3)[j]);
        }
    }
}

/// Every contact against a static sprite names an index into the list and
/// carries overlap extents bounded by the sprite's box sides.
proof fn lemma_statics_contacts_wf(tm: Tilemap, spr: Sprite, statics: Seq<Sprite>, bi: int)
    ensures
        forall|i: int|
            0 <= i < statics_contacts_from(spr, statics, bi).len() ==> wf_contact(
                tm,
                statics,
                #[trigger] statics_contacts_from(spr, statics, bi)[i],
            ),
        bounded_mtv(statics_contacts_from(spr, statics, bi)),
    decreases statics.len() - bi,
{
    if 0 <= bi < statics.len() {
        lemma_statics_contacts_wf(tm, spr, statics, bi + 1);
        let cur = static_contact(spr, statics, bi);
        let rest = statics_contacts_from(spr, statics, bi + 1);
        assert forall|i: int| 0 <= i < (cur + rest).len() implies wf_contact(
            tm,
            statics,
            #[trigger] (cur + rest)[i],
        ) && match (cur + rest)[i].mtv {
            Some(m) => 0 <= m.0 <= u16::MAX && 0 <= m.1 <= u16::MAX,
            None => true,
        } by {
            if i < cur.len() {
                assert((cur + rest)[i] == cur[i]);
            } else {
                assert((cur + rest)[i] == rest[i - cur.len()]);
            }
        }
    }
}

/// The restitution chain drifts at most one overlap extent per contact in
/// each coordinate.
proof fn lemma_restitute_drift(
    tm: Tilemap,
    statics: Seq<Sprite>,
    fw: u16,
    fh: u16,
    start: (int, int),
    contacts: Seq<Contact>,
    n: int,
)
    requires
        bounded_mtv(contacts),
        0 <= n <= contacts.len(),
    ensures
        start.0 - n * 65535 <= restitute_pos(tm, statics, fw, fh, start, contacts, n).0 <= start.0
            + n * 65535,
        start.1 - n * 65535 <= restitute_pos(tm, statics, fw, fh, start, contacts, n).1 <= start.1
            + n * 65535,
    decreases n,
{
    if n > 0 {
        lemma_restitute_drift(tm, statics, fw, fh, start, contacts, n - 1);
    }
}

/// The position-range obligation of `restitute` is met whenever the start
/// position keeps a margin of `u16::MAX` per contact on each side, as
/// every push is by at most one overlap extent.
pub proof fn lemma_restitute_pos_in_range(
    tm: Tilemap,
    statics: Seq<Sprite>,
    fw: u16,
    fh: u16,
    start: (int, int),
    contacts: Seq<Contact>,
)
    requires
        bounded_mtv(contacts),
        i32::MIN + contacts.len() * 65535 <= start.0 <= i32::MAX - contacts.len() * 65535,
        i32::MIN + contacts.len() * 65535 <= start.1 <= i32::MAX - contacts.len() * 65535,
    ensures
        forall|n: int|
            0 <= n <= contacts.len() ==> pos_in_range(
                #[trigger] restitute_pos(tm, statics, fw, fh, start, contacts, n),
            ),
{
    assert forall|n: int| 0 <= n <= contacts.len() implies pos_in_range(
        #[trigger] restitute_pos(tm, statics, fw, fh, start, contacts, n),
    ) by {
        lemma_restitute_drift(tm, statics, fw, fh, start, contacts, n);
        assert(n * 65535 <= contacts.len() * 65535) by (nonlinear_arith)
            requires
                0 <= n <= contacts.len(),
        ;
    }
}

/// Detects this tick's overlaps: the moving sprite's box against every
/// static sprite's box, and its four corners against the tilemap; appends
/// one contact per detected overlap to `into`, in a deterministic order.
#[verifier::loop_isolation(false)]
pub fn gather_contacts(
    tilemap: &Tilemap,
    sprite: &Sprite,
    statics: &[Sprite],
    into: &mut Vec<Contact>,
)
    requires
        tilemap.wf(),
        sprite.position.0 + sprite.frame.w <= i32::MAX,
        sprite.position.1 + sprite.frame.h <= i32::MAX,
    ensures
        final(into)@ == old(into)@ + contacts_spec(*tilemap, *sprite, statics@),
{
    let a_rect = Rect {
        x: sprite.position.0,
        y: sprite.position.1,
        w: sprite.frame.w,
        h: sprite.frame.h,
    };
    let mut bi: usize = 0;
    while bi < statics.len()
        invariant
            bi <= statics@.len(),
            into@ + statics_contacts_from(*sprite, statics@, bi as int) == old(into)@
                + statics_contacts_from(*sprite, statics@, 0),
        decreases statics@.len() - bi,
    {
        let b = &statics[bi];
        let b_rect = Rect { x: b.position.0, y: b.position.1, w: b.frame.w, h: b.frame.h };
        let ghost pre = into@;
        if let Some(disp) = Rect::rect_displacement(a_rect, b_rect) {
            into.push(
                Contact {
                    a: ColliderID::Dynamic(0),
                    b: ColliderID::Static((bi, b.position, true)),
                    mtv: Some(disp),
                    effect: b.collision,
                },
            );
        }
        proof {
            assert(into@ =~= pre + static_contact(*sprite, statics@, bi as int));
            assert(into@ + statics_contacts_from(*sprite, statics@, bi as int + 1) =~= pre
                + statics_contacts_from(*sprite, statics@, bi as int));
        }
        bi = bi + 1;
    }
    let d = sprite.get_dimensions();
    let x0 = sprite.position.0;
    let y0 = sprite.position.1;
    let x1 = sprite.position.0 + d.0;
    let y1 = sprite.position.1 + d.1;
    corner_push(tilemap, sprite, into, x0, y0, Ghost(0));
    corner_push(tilemap, sprite, into, x1, y0, Ghost(1));
    corner_push(tilemap, sprite, into, x1, y1, Ghost(2));
    corner_push(tilemap, sprite, into, x0, y1, Ghost(3));
    proof {
        assert(into@ =~= old(into)@ + contacts_spec(*tilemap, *sprite, statics@));
    }
}

/// Tests one corner of the moving sprite against the tilemap and appends
/// its contact, if any.
fn corner_push(
    tilemap: &Tilemap,
    sprite: &Sprite,
    into: &mut Vec<Contact>,
    x: i32,
    y: i32,
    Ghost(k): Ghost<int>,
)
    requires
        tilemap.wf(),
        x as int == corner(*sprite, k).0,
        y as int == corner(*sprite, k).1,
    ensures
        final(into)@ == old(into)@ + corner_contact(*tilemap, *sprite, k),
{
    let px = tilemap.position.0 as i64;
    let py = tilemap.position.1 as i64;
    let (cols, rows) = tilemap.size();
    if x as i64 >= px && (x as i64) < px + (cols as i64) * 32 && y as i64 >= py && (y as i64) < py
        + (rows as i64) * 32 {
        let (tile, pos) = tilemap.tile_at(Vec2i(x, y));
        if tile.solid {
            let a_rect = Rect {
                x: sprite.position.0,
                y: sprite.position.1,
                w: sprite.frame.w,
                h: sprite.frame.h,
            };
            let cell = Rect {
                x: (pos.0 as i64 * 32 + px) as i32,
                y: (pos.1 as i64 * 32 + py) as i32,
                w: 32,
                h: 32,
            };
            if let Some(m) = Rect::rect_displacement(a_rect, cell) {
                into.push(
                    Contact {
                        a: ColliderID::Dynamic(0),
                        b: ColliderID::Static((0, Vec2i(x, y), false)),
                        mtv: Some(m),
                        effect: tile.collide,
                    },
                );
            }
        } else {
            into.push(
                Contact {
                    a: ColliderID::Dynamic(0),
                    b: ColliderID::Static((0, Vec2i(x, y), false)),
                    mtv: None,
                    effect: tile.collide,
                },
            );
        }
    }
    proof {
        assert(into@ =~= old(into)@ + corner_contact(*tilemap, *sprite, k));
    }
}

/// The effect accumulator after one contact: `Hurt`, `Fight` and `Win`
/// always overwrite, `Speedup` only fills an empty slot, `Nothing`
/// changes nothing. The order dependence is deliberate: the games rely
/// on it as it stands.
pub open spec fn effect_step(e: Effect, c: Effect) -> Effect {
    match c {
        Effect::Hurt(n) => Effect::Hurt(n),
        Effect::Speedup(n) => if e == Effect::Nothing {
            Effect::Speedup(n)
        } else {
            e
        },
        Effect::Fight => Effect::Fight,
        Effect::Win => Effect::Win,
        Effect::Nothing => e,
    }
}

/// The effect aggregated over the first `n` contacts, starting from
/// `Nothing`.
pub open spec fn effect_fold(contacts: Seq<Contact>, n: int) -> Effect
    decreases n,
{
    if n <= 0 {
        Effect::Nothing
    } else {
        effect_step(effect_fold(contacts, n - 1), contacts[n - 1].effect)
    }
}

/// The effect a whole contact list aggregates to.
pub open spec fn aggregate_effect(contacts: Seq<Contact>) -> Effect {
    effect_fold(contacts, contacts.len() as int)
}

/// The static-side rectangle a contact corrects against: the recorded
/// static sprite's box for a sprite contact, the tile cell under the
/// recorded point for a tile contact.
pub open spec fn contact_static_rect(
    tm: Tilemap,
    statics: Seq<Sprite>,
    si: (usize, Vec2i, bool),
) -> Rect {
    if si.2 {
        Rect {
            x: si.1.0,
            y: si.1.1,
            w: statics[si.0 as int].frame.w,
            h: statics[si.0 as int].frame.h,
        }
    } else {
        tile_cell_rect(tm, tm.tile_coord_x(si.1), tm.tile_coord_y(si.1))
    }
}

/// How one contact moves the sprite, given its current position: if the
/// contact blocks and the rectangles still touch, push out along the axis
/// of smaller overlap (ties go to x; a zero overlap on the chosen axis
/// suppresses the push), away from the static side.
pub open spec fn restitute_step(
    tm: Tilemap,
    statics: Seq<Sprite>,
    fw: u16,
    fh: u16,
    pos: (int, int),
    c: Contact,
) -> (int, int) {
    match c.mtv {
        Some(m) => match c.a {
            ColliderID::Dynamic(_) => match c.b {
                ColliderID::Static(si) => {
                    let a_rect = Rect { x: pos.0 as i32, y: pos.1 as i32, w: fw, h: fh };
                    let rect = contact_static_rect(tm, statics, si);
                    if spec_touching(a_rect, rect) {
                        if m.0 > m.1 && m.1 != 0 {
                            if a_rect.y > rect.y {
                                (pos.0, pos.1 + m.1)
                            } else if a_rect.y < rect.y {
                                (pos.0, pos.1 - m.1)
                            } else {
                                pos
                            }
                        } else if m.0 <= m.1 && m.0 != 0 {
                            if a_rect.x > rect.x {
                                (pos.0 + m.0, pos.1)
                            } else if a_rect.x < rect.x {
                                (pos.0 - m.0, pos.1)
                            } else {
                                pos
                            }
                        } else {
                            pos
                        }
                    } else {
                        pos
                    }
                },
                ColliderID::Dynamic(_) => pos,
            },
            ColliderID::Static(_) => pos,
        },
        None => pos,
    }
}

/// MTV axis selection, x case: when a blocking contact's rectangles
/// still touch and the x overlap is at most the y overlap (and nonzero),
/// the push is along x only — by exactly the x overlap, away from the
/// static side, and not at all when the two x coordinates are equal; y is
/// never moved.
pub proof fn lemma_mtv_corrects_x(
    tm: Tilemap,
    statics: Seq<Sprite>,
    fw: u16,
    fh: u16,
    pos: (int, int),
    c: Contact,
    m: (i32, i32),
    si: (usize, Vec2i, bool),
)
    requires
        c.mtv == Some(m),
        c.a is Dynamic,
        c.b == ColliderID::Static(si),
        spec_touching(
            Rect { x: pos.0 as i32, y: pos.1 as i32, w: fw, h: fh },
            contact_static_rect(tm, statics, si),
        ),
        m.0 <= m.1,
        m.0 != 0,
    ensures
        ({
            let a = Rect { x: pos.0 as i32, y: pos.1 as i32, w: fw, h: fh };
            let r = contact_static_rect(tm, statics, si);
            let p2 = restitute_step(tm, statics, fw, fh, pos, c);
            &&& p2.1 == pos.1
            &&& a.x > r.x ==> p2.0 == pos.0 + m.0
            &&& a.x < r.x ==> p2.0 == pos.0 - m.0
            &&& a.x == r.x ==> p2.0 == pos.0
        }),
{
}

/// MTV axis selection, y case: when a blocking contact's rectangles
/// still touch and the x overlap strictly exceeds the y overlap (which
/// is nonzero), the push is along y only — by exactly the y overlap,
/// away from the static side; x is never moved.
pub proof fn lemma_mtv_corrects_y(
    tm: Tilemap,
    statics: Seq<Sprite>,
    fw: u16,
    fh: u16,
    pos: (int, int),
    c: Contact,
    m: (i32, i32),
    si: (usize, Vec2i, bool),
)
    requires
        c.mtv == Some(m),
        c.a is Dynamic,
        c.b == ColliderID::Static(si),
        spec_touching(
            Rect { x: pos.0 as i32, y: pos.1 as i32, w: fw, h: fh },
            contact_static_rect(tm, statics, si),
        ),
        m.0 > m.1,
        m.1 != 0,
    ensures
        ({
            let a = Rect { x: pos.0 as i32, y: pos.1 as i32, w: fw, h: fh };
            let r = contact_static_rect(tm, statics, si);
            let p2 = restitute_step(tm, statics, fw, fh, pos, c);
            &&& p2.0 == pos.0
            &&& a.y > r.y ==> p2.1 == pos.1 + m.1
            &&& a.y < r.y ==> p2.1 == pos.1 - m.1
            &&& a.y == r.y ==> p2.1 == pos.1
        }),
{
}

/// MTV axis selection, tie case: equal nonzero overlaps go to x, never
/// to y.
pub proof fn lemma_mtv_tie_corrects_x(
    tm: Tilemap,
    statics: Seq<Sprite>,
    fw: u16,
    fh: u16,
    pos: (int, int),
    c: Contact,
    m: (i32, i32),
    si: (usize, Vec2i, bool),
)
    requires
        c.mtv == Some(m),
        c.a is Dynamic,
        c.b == ColliderID::Static(si),
        spec_touching(
            Rect { x: pos.0 as i32, y: pos.1 as i32, w: fw, h: fh },
            contact_static_rect(tm, statics, si),
        ),
        m.0 == m.1,
        m.0 != 0,
    ensures
        ({
            let a = Rect { x: pos.0 as i32, y: pos.1 as i32, w: fw, h: fh };
            let r = contact_static_rect(tm, statics, si);
            let p2 = restitute_step(tm, statics, fw, fh, pos, c);
            &&& p2.1 == pos.1
            &&& a.x > r.x ==> p2.0 == pos.0 + m.0
            &&& a.x < r.x ==> p2.0 == pos.0 - m.0
            &&& a.x == r.x ==> p2.0 == pos.0
        }),
{
    lemma_mtv_corrects_x(tm, statics, fw, fh, pos, c, m, si);
}

/// A zero overlap on the chosen axis suppresses the correction entirely:
/// the step leaves the position untouched.
pub proof fn lemma_mtv_zero_suppresses(
    tm: Tilemap,
    statics: Seq<Sprite>,
    fw: u16,
    fh: u16,
    pos: (int, int),
    c: Contact,
    m: (i32, i32),
)
    requires
        c.mtv == Some(m),
        m.0 <= m.1 ==> m.0 == 0,
        m.0 > m.1 ==> m.1 == 0,
    ensures
        restitute_step(tm, statics, fw, fh, pos, c) == pos,
{
}

/// The sprite's position after processing the first `n` contacts in
/// order, starting from `start`. Each step sees the position the previous
/// steps produced, so an overlap an earlier contact already resolved is
/// not corrected twice.
pub open spec fn restitute_pos(
    tm: Tilemap,
    statics: Seq<Sprite>,
    fw: u16,
    fh: u16,
    start: (int, int),
    contacts: Seq<Contact>,
    n: int,
) -> (int, int)
    decreases n,
{
    if n <= 0 {
        start
    } else {
        restitute_step(
            tm,
            statics,
            fw,
            fh,
            restitute_pos(tm, statics, fw, fh, start, contacts, n - 1),
            contacts[n - 1],
        )
    }
}

/// True iff both coordinates fit the coordinate type.
pub open spec fn pos_in_range(p: (int, int)) -> bool {
    i32::MIN <= p.0 <= i32::MAX && i32::MIN <= p.1 <= i32::MAX
}

/// Resolves this tick's contacts: pushes the sprite out of each still
/// overlapping blocking contact along the axis of least penetration, and
/// aggregates the contacts' effects into one outcome. No velocity is
/// stored or zeroed here; damping is the caller's responsibility.
#[verifier::loop_isolation(false)]
pub fn restitute(
    tilemap: &Tilemap,
    sprite: &mut Sprite,
    statics: &[Sprite],
    contacts: &[Contact],
) -> (eff: Effect)
    requires
        tilemap.wf(),
        wf_contacts(*tilemap, statics@, contacts@),
        forall|n: int|
            0 <= n <= contacts@.len() ==> pos_in_range(
                #[trigger] restitute_pos(
                    *tilemap,
                    statics@,
                    old(sprite).frame.w,
                    old(sprite).frame.h,
                    (old(sprite).position.0 as int, old(sprite).position.1 as int),
                    contacts@,
                    n,
                ),
            ),
    ensures
        final(sprite).image == old(sprite).image,
        final(sprite).frame == old(sprite).frame,
        final(sprite).drawable == old(sprite).drawable,
        final(sprite).animation == old(sprite).animation,
        final(sprite).animation_start == old(sprite).animation_start,
        final(sprite).animation_state == old(sprite).animation_state,
        final(sprite).collision == old(sprite).collision,
        ({
            let end = restitute_pos(
                *tilemap,
                statics@,
                old(sprite).frame.w,
                old(sprite).frame.h,
                (old(sprite).position.0 as int, old(sprite).position.1 as int),
                contacts@,
                contacts@.len() as int,
            );
            final(sprite).position.0 == end.0 && final(sprite).position.1 == end.1
        }),
        eff == aggregate_effect(contacts@),
{
    let ghost fw = old(sprite).frame.w;
    let ghost fh = old(sprite).frame.h;
    let ghost start = (old(sprite).position.0 as int, old(sprite).position.1 as int);
    let mut effect: Effect = Effect::Nothing;
    let mut i: usize = 0;
    while i < contacts.len()
        invariant
            i <= contacts@.len(),
            sprite.image == old(sprite).image,
            sprite.frame == old(sprite).frame,
            sprite.drawable == old(sprite).drawable,
            sprite.animation == old(sprite).animation,
            sprite.animation_start == old(sprite).animation_start,
            sprite.animation_state == old(sprite).animation_state,
            sprite.collision == old(sprite).collision,
            (sprite.position.0 as int, sprite.position.1 as int) == restitute_pos(
                *tilemap,
                statics@,
                fw,
                fh,
                start,
                contacts@,
                i as int,
            ),
            effect == effect_fold(contacts@, i as int),
        decreases contacts@.len() - i,
    {
        let contact = contacts[i];
        match contact.effect {
            Effect::Hurt(n) => {
                effect = Effect::Hurt(n);
            },
            Effect::Speedup(n) => {
                if effect == Effect::Nothing {
                    effect = Effect::Speedup(n);
                }
            },
            Effect::Fight => {
                effect = Effect::Fight;
            },
            Effect::Win => {
                effect = Effect::Win;
            },
            Effect::Nothing => {},
        }
        proof {
            assert(pos_in_range(
                restitute_pos(*tilemap, statics@, fw, fh, start, contacts@, i as int + 1),
            ));
        }
        if let Some(m) = contact.mtv {
            if let ColliderID::Dynamic(_di) = contact.a {
                if let ColliderID::Static(si) = contact.b {
                    let a_rect = Rect {
                        x: sprite.position.0,
                        y: sprite.position.1,
                        w: sprite.frame.w,
                        h: sprite.frame.h,
                    };
                    let rect = if si.2 {
                        Rect {
                            x: si.1.0,
                            y: si.1.1,
                            w: statics[si.0].frame.w,
                            h: statics[si.0].frame.h,
                        }
                    } else {
                        let t = tilemap.tile_at(si.1);
                        Rect {
                            x: (t.1.0 as i64 * 32 + tilemap.position.0 as i64) as i32,
                            y: (t.1.1 as i64 * 32 + tilemap.position.1 as i64) as i32,
                            w: 32,
                            h: 32,
                        }
                    };
                    if Rect::rect_touching(a_rect, rect) {
                        if m.0 > m.1 && m.1 != 0 {
                            if a_rect.y > rect.y {
                                sprite.position.1 = sprite.position.1 + m.1;
                            } else if a_rect.y < rect.y {
                                sprite.position.1 = sprite.position.1 - m.1;
                            }
                        } else if m.0 <= m.1 && m.0 != 0 {
                            if a_rect.x > rect.x {
                                sprite.position.0 = sprite.position.0 + m.0;
                            } else if a_rect.x < rect.x {
                                sprite.position.0 = sprite.position.0 - m.0;
                            }
                        }
                    }
                }
            }
        }
        i = i + 1;
    }
    effect
}

} // verus!
