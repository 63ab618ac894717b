//! Reactions to collisions: which body a collision event is about, and what
//! happens to it.
//!
//! Events handed to a tick were produced by the physics step from the wall of
//! the tick before, so a tick first rebuilds the wall and then reacts; the two
//! never touch the same state. There is no cooldown: every event that began
//! between a reactive body and something that is not one triggers a reaction.

use vstd::prelude::*;
use crate::boundary::{Boundary, BoundaryError, BoundaryShape, MIN_SIDES, is_tick};
use crate::pools::{pick_index, pick_spec, random_draw};

verus! {

/// Whether two colliders began or ceased to overlap.
#[derive(Clone, Copy, Debug, PartialEq, Eq, Structural)]
pub enum Phase {
    Started,
    Stopped,
}

/// A transition reported by the physics step for an unordered pair of
/// entities.
#[derive(Clone, Copy, Debug, PartialEq, Eq, Structural)]
pub struct CollisionEvent {
    pub phase: Phase,
    pub first: u64,
    pub second: u64,
}

/// A body whose look changes when it strikes something.
#[derive(Clone, Copy, Debug, PartialEq, Eq, Structural)]
pub struct ReactiveBody {
    pub entity: u64,
    /// Index into the visual pool; `None` while the body still shows the
    /// asset it was created with.
    pub visual_asset_id: Option<usize>,
}

/// A request to play one entry of the audio pool once, for one body.
#[derive(Clone, Copy, Debug, PartialEq, Eq, Structural)]
pub struct AudioCue {
    pub body: u64,
    /// Index into the audio pool.
    pub audio_asset_id: usize,
}

/// The two raw draws that one reaction consumes.
#[derive(Clone, Copy, Debug, PartialEq, Eq, Structural)]
pub struct Draw {
    pub visual: usize,
    pub audio: usize,
}

/// Why an arena operation was refused.
#[derive(Clone, Copy, Debug, PartialEq, Eq, Structural)]
pub enum ArenaError {
    /// One of the two pools has no entry.
    EmptyPool,
    /// The entity is the boundary or is already a reactive body.
    EntityTaken,
}

/// The wall, the reactive bodies inside it, and the sizes of the two pools.
#[derive(Clone, Debug, PartialEq, Eq)]
pub struct Arena {
    pub boundary: Boundary,
    pub boundary_entity: u64,
    pub bodies: Vec<ReactiveBody>,
    pub visual_pool_len: usize,
    pub audio_pool_len: usize,
}

/// What one tick hands to the collaborators: the wall for the physics step,
/// unless the tick of the boundary was refused, and the audio to play.
#[derive(Debug, PartialEq, Eq)]
pub struct Frame {
    pub wall: Result<BoundaryShape, BoundaryError>,
    pub cues: Vec<AudioCue>,
}

/// `entity` is one of `bodies`.
pub open spec fn is_reactive(bodies: Seq<ReactiveBody>, entity: u64) -> bool {
    exists|i: int| 0 <= i < bodies.len() && (#[trigger] bodies[i]).entity == entity
}

/// No entity occurs twice among `bodies`.
pub open spec fn distinct_entities(bodies: Seq<ReactiveBody>) -> bool {
    forall|i: int, j: int|
        0 <= i < j < bodies.len() ==> (#[trigger] bodies[i]).entity != (#[trigger] bodies[j]).entity
}

/// The body that reacts to `event`: the one participant of a started event
/// that is reactive, where exactly one of the two is.
pub open spec fn target_of(bodies: Seq<ReactiveBody>, event: CollisionEvent) -> Option<u64> {
    if event.phase != Phase::Started {
        None
    } else if is_reactive(bodies, event.first) && !is_reactive(bodies, event.second) {
        Some(event.first)
    } else if !is_reactive(bodies, event.first) && is_reactive(bodies, event.second) {
        Some(event.second)
    } else {
        None
    }
}

/// `bodies` with the visual asset of `entity` replaced.
pub open spec fn with_visual(bodies: Seq<ReactiveBody>, entity: u64, visual_asset_id: usize) -> Seq<
    ReactiveBody,
> {
    Seq::new(
        bodies.len(),
        |i: int|
            if bodies[i].entity == entity {
                ReactiveBody { entity, visual_asset_id: Some(visual_asset_id) }
            } else {
                bodies[i]
            },
    )
}

/// The bodies after one event.
pub open spec fn step_bodies(
    bodies: Seq<ReactiveBody>,
    event: CollisionEvent,
    draw: Draw,
    visual_pool_len: usize,
) -> Seq<ReactiveBody> {
    match target_of(bodies, event) {
        Some(entity) => with_visual(bodies, entity, pick_spec(draw.visual, visual_pool_len)),
        None => bodies,
    }
}

/// The audio cue that one event gives rise to, if any.
pub open spec fn step_cue(
    bodies: Seq<ReactiveBody>,
    event: CollisionEvent,
    draw: Draw,
    audio_pool_len: usize,
) -> Option<AudioCue> {
    match target_of(bodies, event) {
        Some(entity) => Some(
            AudioCue { body: entity, audio_asset_id: pick_spec(draw.audio, audio_pool_len) },
        ),
        None => None,
    }
}

/// The bodies after a tick's events, where event `k` consumes `draws[k]`.
pub open spec fn dispatch_bodies(
    bodies: Seq<ReactiveBody>,
    events: Seq<CollisionEvent>,
    draws: Seq<Draw>,
    visual_pool_len: usize,
) -> Seq<ReactiveBody>
    decreases events.len(),
{
    if events.len() == 0 {
        bodies
    } else {
        step_bodies(
            dispatch_bodies(bodies, events.drop_last(), draws, visual_pool_len),
            events.last(),
            draws[events.len() - 1],
            visual_pool_len,
        )
    }
}

/// The audio cues of a tick's events, in the order of the events.
pub open spec fn dispatch_cues(
    bodies: Seq<ReactiveBody>,
    events: Seq<CollisionEvent>,
    draws: Seq<Draw>,
    visual_pool_len: usize,
    audio_pool_len: usize,
) -> Seq<AudioCue>
    decreases events.len(),
{
    if events.len() == 0 {
        Seq::empty()
    } else {
        let earlier = dispatch_cues(
            bodies,
            events.drop_last(),
            draws,
            visual_pool_len,
            audio_pool_len,
        );
        let before = dispatch_bodies(bodies, events.drop_last(), draws, visual_pool_len);
        match step_cue(before, events.last(), draws[events.len() - 1], audio_pool_len) {
            Some(cue) => earlier.push(cue),
            None => earlier,
        }
    }
}

/// `draws` explains a tick: with them, `events` lead from `bodies` to
/// `bodies_after` and give `cues`.
pub open spec fn is_outcome(
    bodies: Seq<ReactiveBody>,
    events: Seq<CollisionEvent>,
    draws: Seq<Draw>,
    visual_pool_len: usize,
    audio_pool_len: usize,
    bodies_after: Seq<ReactiveBody>,
    cues: Seq<AudioCue>,
) -> bool {
    &&& draws.len() == events.len()
    &&& bodies_after == dispatch_bodies(bodies, events, draws, visual_pool_len)
    &&& cues == dispatch_cues(bodies, events, draws, visual_pool_len, audio_pool_len)
}

/// Every visual asset that a body of `bodies` was given lies within a pool
/// of `visual_pool_len`.
pub open spec fn visuals_in_pool(bodies: Seq<ReactiveBody>, visual_pool_len: usize) -> bool {
    forall|i: int|
        0 <= i < bodies.len() ==> match (#[trigger] bodies[i]).visual_asset_id {
            Some(id) => id < visual_pool_len,
            None => true,
        }
}

/// Every cue of `cues` names an entry of a pool of `audio_pool_len`.
pub open spec fn cues_in_pool(cues: Seq<AudioCue>, audio_pool_len: usize) -> bool {
    forall|i: int| 0 <= i < cues.len() ==> (#[trigger] cues[i]).audio_asset_id < audio_pool_len
}

/// `event` calls for no reaction: it reports an end of contact, or neither of
/// its participants is reactive.
pub open spec fn is_irrelevant(bodies: Seq<ReactiveBody>, event: CollisionEvent) -> bool {
    event.phase == Phase::Stopped || (!is_reactive(bodies, event.first) && !is_reactive(
        bodies,
        event.second,
    ))
}

/// Replacing a visual asset changes neither the number of bodies nor which
/// entities are reactive.
pub proof fn lemma_with_visual_keeps_entities(
    bodies: Seq<ReactiveBody>,
    entity: u64,
    visual_asset_id: usize,
)
    ensures
        with_visual(bodies, entity, visual_asset_id).len() == bodies.len(),
        forall|i: int|
            0 <= i < bodies.len() ==> (#[trigger] with_visual(
                bodies,
                entity,
                visual_asset_id,
            )[i]).entity == bodies[i].entity,
        forall|e: u64|
            is_reactive(with_visual(bodies, entity, visual_asset_id), e) == is_reactive(bodies, e),
        distinct_entities(bodies) ==> distinct_entities(
            with_visual(bodies, entity, visual_asset_id),
        ),
{
    let after = with_visual(bodies, entity, visual_asset_id);
    assert forall|e: u64| is_reactive(after, e) == is_reactive(bodies, e) by {
        if is_reactive(after, e) {
            let i = choose|i: int| 0 <= i < after.len() && (#[trigger] after[i]).entity == e;
            assert(bodies[i].entity == e);
        }
        if is_reactive(bodies, e) {
            let i = choose|i: int| 0 <= i < bodies.len() && (#[trigger] bodies[i]).entity == e;
            assert(after[i].entity == e);
        }
    }
}

impl Arena {
    /// The pools are not empty, every visual asset given to a body is an entry
    /// of the visual pool, no entity occurs twice, and the boundary is not a
    /// reactive body.
    pub open spec fn wf(self) -> bool {
        &&& self.boundary.wf()
        &&& self.visual_pool_len > 0
        &&& self.audio_pool_len > 0
        &&& visuals_in_pool(self.bodies@, self.visual_pool_len)
        &&& distinct_entities(self.bodies@)
        &&& !is_reactive(self.bodies@, self.boundary_entity)
    }

    /// Everything but the bodies' visual assets is as in `before`.
    pub open spec fn same_frame(self, before: Arena) -> bool {
        &&& self.boundary == before.boundary
        &&& self.boundary_entity == before.boundary_entity
        &&& self.visual_pool_len == before.visual_pool_len
        &&& self.audio_pool_len == before.audio_pool_len
        &&& self.bodies@.len() == before.bodies@.len()
        &&& forall|i: int|
            0 <= i < self.bodies@.len() ==> (#[trigger] self.bodies@[i]).entity
                == before.bodies@[i].entity
    }

    /// Creates an arena without bodies. Refused where a pool is empty.
    pub fn new(
        boundary: Boundary,
        boundary_entity: u64,
        visual_pool_len: usize,
        audio_pool_len: usize,
    ) -> (result: Result<Arena, ArenaError>)
        requires
            boundary.wf(),
        ensures
            match result {
                Ok(arena) => visual_pool_len > 0 && audio_pool_len > 0 && arena.wf()
                    && arena.boundary == boundary && arena.boundary_entity == boundary_entity
                    && arena.bodies@ == Seq::<ReactiveBody>::empty() && arena.visual_pool_len
                    == visual_pool_len && arena.audio_pool_len == audio_pool_len,
                Err(e) => e == ArenaError::EmptyPool && (visual_pool_len == 0 || audio_pool_len
                    == 0),
            },
    {
        if visual_pool_len == 0 || audio_pool_len == 0 {
            Err(ArenaError::EmptyPool)
        } else {
            Ok(
                Arena {
                    boundary,
                    boundary_entity,
                    bodies: Vec::new(),
                    visual_pool_len,
                    audio_pool_len,
                },
            )
        }
    }

    /// The position of `entity` among the bodies, if it is one of them.
    pub fn find_body(&self, entity: u64) -> (found: Option<usize>)
        ensures
            match found {
                Some(i) => i < self.bodies@.len() && self.bodies@[i as int].entity == entity,
                None => !is_reactive(self.bodies@, entity),
            },
    {
        let mut i: usize = 0;
        while i < self.bodies.len()
            invariant
                i <= self.bodies@.len(),
                forall|k: int| 0 <= k < i ==> (#[trigger] self.bodies@[k]).entity != entity,
            decreases self.bodies@.len() - i,
        {
            if self.bodies[i].entity == entity {
                return Some(i);
            }
            i = i + 1;
        }
        None
    }

    /// Adds a reactive body, which shows the asset it was created with until
    /// its first reaction. Refused, with nothing changed, where the entity is
    /// the boundary or already a body.
    pub fn add_body(&mut self, entity: u64) -> (result: Result<(), ArenaError>)
        requires
            old(self).wf(),
        ensures
            final(self).wf(),
            final(self).boundary == old(self).boundary,
            final(self).boundary_entity == old(self).boundary_entity,
            final(self).visual_pool_len == old(self).visual_pool_len,
            final(self).audio_pool_len == old(self).audio_pool_len,
            match result {
                Ok(_) => entity != old(self).boundary_entity && !is_reactive(
                    old(self).bodies@,
                    entity,
                ) && final(self).bodies@ == old(self).bodies@.push(
                    (ReactiveBody { entity, visual_asset_id: None }),
                ),
                Err(e) => e == ArenaError::EntityTaken && final(self).bodies@ == old(self).bodies@
                    && (entity == old(self).boundary_entity || is_reactive(
                    old(self).bodies@,
                    entity,
                )),
            },
    {
        if entity == self.boundary_entity || self.find_body(entity).is_some() {
            return Err(ArenaError::EntityTaken);
        }
        let ghost before = self.bodies@;
        self.bodies.push(ReactiveBody { entity, visual_asset_id: None });
        proof {
            let after = self.bodies@;
            if is_reactive(after, self.boundary_entity) {
                let i = choose|i: int|
                    0 <= i < after.len() && (#[trigger] after[i]).entity == self.boundary_entity;
                assert(before[i].entity == self.boundary_entity);
            }
            assert forall|i: int, j: int| 0 <= i < j < after.len() implies (#[trigger] after[i]).entity
                != (#[trigger] after[j]).entity by {
                if j == before.len() {
                    assert(before[i].entity != entity);
                } else {
                    assert(before[i].entity != before[j].entity);
                }
            }
        }
        Ok(())
    }

    /// Whether this arena is well formed.
    pub fn is_valid(&self) -> (valid: bool)
        ensures
            valid == self.wf(),
    {
        if self.boundary.side_count < MIN_SIDES || self.visual_pool_len == 0
            || self.audio_pool_len == 0 {
            return false;
        }
        if self.find_body(self.boundary_entity).is_some() {
            return false;
        }
        let mut i: usize = 0;
        while i < self.bodies.len()
            invariant
                i <= self.bodies@.len(),
                visuals_in_pool(self.bodies@.take(i as int), self.visual_pool_len),
                distinct_entities(self.bodies@.take(i as int)),
            decreases self.bodies@.len() - i,
        {
            match self.bodies[i].visual_asset_id {
                Some(id) => {
                    if id >= self.visual_pool_len {
                        return false;
                    }
                },
                None => {},
            }
            let mut j: usize = 0;
            while j < i
                invariant
                    j <= i < self.bodies@.len(),
                    forall|k: int|
                        0 <= k < j ==> (#[trigger] self.bodies@[k]).entity
                            != self.bodies@[i as int].entity,
                decreases i - j,
            {
                if self.bodies[j].entity == self.bodies[i].entity {
                    return false;
                }
                j = j + 1;
            }
            proof {
                let shorter = self.bodies@.take(i as int);
                let longer = self.bodies@.take(i + 1);
                assert forall|a: int, b: int| 0 <= a < b < longer.len() implies (
                #[trigger] longer[a]).entity != (#[trigger] longer[b]).entity by {
                    if b < i {
                        assert(shorter[a].entity != shorter[b].entity);
                    }
                }
                assert forall|k: int| 0 <= k < longer.len() implies match (
                #[trigger] longer[k]).visual_asset_id {
                    Some(id) => id < self.visual_pool_len,
                    None => true,
                } by {
                    if k < i {
                        assert(shorter[k] == longer[k]);
                    }
                }
            }
            i = i + 1;
        }
        assert(self.bodies@.take(i as int) =~= self.bodies@);
        true
    }

    /// The body that reacts to `event`, if the event calls for a reaction.
    pub fn target(&self, event: &CollisionEvent) -> (target: Option<u64>)
        ensures
            target == target_of(self.bodies@, *event),
    {
        match event.phase {
            Phase::Stopped => None,
            Phase::Started => {
                let first = self.find_body(event.first).is_some();
                let second = self.find_body(event.second).is_some();
                if first && !second {
                    Some(event.first)
                } else if !first && second {
                    Some(event.second)
                } else {
                    None
                }
            },
        }
    }

    /// Gives `entity` a new visual asset.
    fn set_visual(&mut self, entity: u64, visual_asset_id: usize)
        ensures
            final(self).bodies@ == with_visual(old(self).bodies@, entity, visual_asset_id),
            final(self).boundary == old(self).boundary,
            final(self).boundary_entity == old(self).boundary_entity,
            final(self).visual_pool_len == old(self).visual_pool_len,
            final(self).audio_pool_len == old(self).audio_pool_len,
    {
        let ghost before = self.bodies@;
        let mut i: usize = 0;
        while i < self.bodies.len()
            invariant
                i <= self.bodies@.len(),
                self.bodies@.len() == before.len(),
                self.boundary == old(self).boundary,
                self.boundary_entity == old(self).boundary_entity,
                self.visual_pool_len == old(self).visual_pool_len,
                self.audio_pool_len == old(self).audio_pool_len,
                forall|k: int|
                    0 <= k < i ==> self.bodies@[k] == with_visual(
                        before,
                        entity,
                        visual_asset_id,
                    )[k],
                forall|k: int| i <= k < before.len() ==> self.bodies@[k] == before[k],
            decreases self.bodies@.len() - i,
        {
            if self.bodies[i].entity == entity {
                self.bodies.set(i, ReactiveBody { entity, visual_asset_id: Some(visual_asset_id) });
            }
            i = i + 1;
        }
        assert(self.bodies@ =~= with_visual(before, entity, visual_asset_id));
    }

    /// Reacts to one event with the given draws: where the event has a
    /// target, that body gets the visual asset its draw selects and a cue is
    /// returned for the audio asset its draw selects; otherwise nothing
    /// changes and there is no cue. The boundary is never changed.
    pub fn apply(&mut self, event: &CollisionEvent, draw: Draw) -> (cue: Option<AudioCue>)
        requires
            old(self).wf(),
        ensures
            final(self).wf(),
            final(self).same_frame(*old(self)),
            final(self).bodies@ == step_bodies(
                old(self).bodies@,
                *event,
                draw,
                old(self).visual_pool_len,
            ),
            cue == step_cue(old(self).bodies@, *event, draw, old(self).audio_pool_len),
            cue is Some ==> cue->Some_0.audio_asset_id < old(self).audio_pool_len,
    {
        match self.target(event) {
            Some(entity) => {
                let visual_asset_id = pick_index(draw.visual, self.visual_pool_len);
                let audio_asset_id = pick_index(draw.audio, self.audio_pool_len);
                proof {
                    lemma_with_visual_keeps_entities(self.bodies@, entity, visual_asset_id);
                }
                self.set_visual(entity, visual_asset_id);
                Some(AudioCue { body: entity, audio_asset_id })
            },
            None => None,
        }
    }

    /// Reacts to a tick's events in order, event `k` with `draws[k]`.
    pub fn dispatch(&mut self, events: &Vec<CollisionEvent>, draws: &Vec<Draw>) -> (cues: Vec<
        AudioCue,
    >)
        requires
            old(self).wf(),
            draws@.len() == events@.len(),
        ensures
            final(self).wf(),
            final(self).same_frame(*old(self)),
            final(self).bodies@ == dispatch_bodies(
                old(self).bodies@,
                events@,
                draws@,
                old(self).visual_pool_len,
            ),
            cues@ == dispatch_cues(
                old(self).bodies@,
                events@,
                draws@,
                old(self).visual_pool_len,
                old(self).audio_pool_len,
            ),
            cues_in_pool(cues@, old(self).audio_pool_len),
    {
        let ghost before = self.bodies@;
        let mut cues: Vec<AudioCue> = Vec::new();
        let mut i: usize = 0;
        while i < events.len()
            invariant
                i <= events@.len(),
                draws@.len() == events@.len(),
                self.wf(),
                self.same_frame(*old(self)),
                before == old(self).bodies@,
                self.bodies@ == dispatch_bodies(
                    before,
                    events@.take(i as int),
                    draws@,
                    self.visual_pool_len,
                ),
                cues@ == dispatch_cues(
                    before,
                    events@.take(i as int),
                    draws@,
                    self.visual_pool_len,
                    self.audio_pool_len,
                ),
                cues_in_pool(cues@, self.audio_pool_len),
            decreases events@.len() - i,
        {
            proof {
                let upto = events@.take(i + 1);
                assert(upto.drop_last() =~= events@.take(i as int));
                assert(upto.last() == events@[i as int]);
            }
            match self.apply(&events[i], draws[i]) {
                Some(cue) => {
                    cues.push(cue);
                },
                None => {},
            }
            i = i + 1;
        }
        assert(events@.take(i as int) =~= events@);
        cues
    }

    /// Reacts to a tick's newly reported events, drawing afresh for every
    /// reaction. Whatever was drawn, the outcome is that of `dispatch` with
    /// some draws; the draws of two ticks are unrelated.
    pub fn on_tick(&mut self, events: &Vec<CollisionEvent>) -> (cues: Vec<AudioCue>)
        requires
            old(self).wf(),
        ensures
            final(self).wf(),
            final(self).same_frame(*old(self)),
            cues_in_pool(cues@, old(self).audio_pool_len),
            exists|draws: Seq<Draw>| #[trigger]
                is_outcome(
                    old(self).bodies@,
                    events@,
                    draws,
                    old(self).visual_pool_len,
                    old(self).audio_pool_len,
                    final(self).bodies@,
                    cues@,
                ),
    {
        let mut draws: Vec<Draw> = Vec::new();
        let mut i: usize = 0;
        while i < events.len()
            invariant
                i <= events@.len(),
                draws@.len() == i,
            decreases events@.len() - i,
        {
            let draw = match self.target(&events[i]) {
                Some(_) => {
                    let visual = random_draw();
                    let audio = random_draw();
                    Draw { visual, audio }
                },
                None => Draw { visual: 0, audio: 0 },
            };
            draws.push(draw);
            i = i + 1;
        }
        let cues = self.dispatch(events, &draws);
        assert(is_outcome(
            old(self).bodies@,
            events@,
            draws@,
            old(self).visual_pool_len,
            old(self).audio_pool_len,
            self.bodies@,
            cues@,
        ));
        cues
    }
}

impl Arena {
    /// One tick of the whole arena, in its fixed order: first the wall is
    /// rebuilt and shrunk, then the events are reacted to. The events are
    /// those that the physics step reported for the wall of the tick before.
    /// The reactions leave the boundary alone, and a refused tick of the
    /// boundary does not hold back the reactions.
    pub fn advance(&mut self, elapsed_micros: u32, events: &Vec<CollisionEvent>) -> (frame: Frame)
        requires
            old(self).wf(),
        ensures
            final(self).wf(),
            is_tick(old(self).boundary, elapsed_micros, final(self).boundary, frame.wall),
            final(self).boundary_entity == old(self).boundary_entity,
            final(self).visual_pool_len == old(self).visual_pool_len,
            final(self).audio_pool_len == old(self).audio_pool_len,
            cues_in_pool(frame.cues@, old(self).audio_pool_len),
            exists|draws: Seq<Draw>| #[trigger]
                is_outcome(
                    old(self).bodies@,
                    events@,
                    draws,
                    old(self).visual_pool_len,
                    old(self).audio_pool_len,
                    final(self).bodies@,
                    frame.cues@,
                ),
    {
        let wall = self.boundary.tick(elapsed_micros);
        let cues = self.on_tick(events);
        Frame { wall, cues }
    }
}

/// A started event between the boundary and a reactive body gives that body
/// the visual asset its draw selects, leaves every other body as it was, and
/// asks for the audio asset its draw selects, for that body.
pub proof fn lemma_boundary_hit_targets_the_body(
    bodies: Seq<ReactiveBody>,
    boundary_entity: u64,
    body: int,
    event: CollisionEvent,
    draw: Draw,
    visual_pool_len: usize,
    audio_pool_len: usize,
)
    requires
        distinct_entities(bodies),
        !is_reactive(bodies, boundary_entity),
        0 <= body < bodies.len(),
        event.phase == Phase::Started,
        (event.first == boundary_entity && event.second == bodies[body].entity) || (event.first
            == bodies[body].entity && event.second == boundary_entity),
    ensures
        target_of(bodies, event) == Some(bodies[body].entity),
        step_bodies(bodies, event, draw, visual_pool_len) == bodies.update(
            body,
            (ReactiveBody {
                entity: bodies[body].entity,
                visual_asset_id: Some(pick_spec(draw.visual, visual_pool_len)),
            }),
        ),
        step_cue(bodies, event, draw, audio_pool_len) == Some(
            (AudioCue {
                body: bodies[body].entity,
                audio_asset_id: pick_spec(draw.audio, audio_pool_len),
            }),
        ),
{
    let entity = bodies[body].entity;
    assert(is_reactive(bodies, entity));
    let after = with_visual(bodies, entity, pick_spec(draw.visual, visual_pool_len));
    let expected = bodies.update(
        body,
        ReactiveBody { entity, visual_asset_id: Some(pick_spec(draw.visual, visual_pool_len)) },
    );
    assert forall|i: int| 0 <= i < bodies.len() implies after[i] == expected[i] by {
        if i < body {
            assert(bodies[i].entity != bodies[body].entity);
        } else if i > body {
            assert(bodies[body].entity != bodies[i].entity);
        }
    }
    assert(after =~= expected);
}

/// An event that reports an end of contact, or one between two entities that
/// are not reactive, changes no body and asks for no audio.
pub proof fn lemma_irrelevant_event_changes_nothing(
    bodies: Seq<ReactiveBody>,
    event: CollisionEvent,
    draw: Draw,
    visual_pool_len: usize,
    audio_pool_len: usize,
)
    requires
        is_irrelevant(bodies, event),
    ensures
        step_bodies(bodies, event, draw, visual_pool_len) == bodies,
        step_cue(bodies, event, draw, audio_pool_len) is None,
{
}

/// A tick all of whose events are irrelevant changes no body and asks for no
/// audio, whatever the draws.
pub proof fn lemma_irrelevant_tick_changes_nothing(
    bodies: Seq<ReactiveBody>,
    events: Seq<CollisionEvent>,
    draws: Seq<Draw>,
    visual_pool_len: usize,
    audio_pool_len: usize,
)
    requires
        forall|k: int| 0 <= k < events.len() ==> is_irrelevant(bodies, #[trigger] events[k]),
    ensures
        dispatch_bodies(bodies, events, draws, visual_pool_len) == bodies,
        dispatch_cues(bodies, events, draws, visual_pool_len, audio_pool_len) == Seq::<
            AudioCue,
        >::empty(),
    decreases events.len(),
{
    if events.len() > 0 {
        let earlier = events.drop_last();
        assert forall|k: int| 0 <= k < earlier.len() implies is_irrelevant(
            bodies,
            #[trigger] earlier[k],
        ) by {
            assert(earlier[k] == events[k]);
        }
        lemma_irrelevant_tick_changes_nothing(
            bodies,
            earlier,
            draws,
            visual_pool_len,
            audio_pool_len,
        );
        assert(is_irrelevant(bodies, events[events.len() - 1]));
    }
}

/// The number of events of `events` that call for a reaction.
pub open spec fn reaction_count(bodies: Seq<ReactiveBody>, events: Seq<CollisionEvent>) -> nat
    decreases events.len(),
{
    if events.len() == 0 {
        0
    } else {
        reaction_count(bodies, events.drop_last()) + if target_of(bodies, events.last()) is Some {
            1nat
        } else {
            0nat
        }
    }
}

/// Whatever the events and the draws, a tick keeps the number of bodies,
/// their entities and their order, and so which entities are reactive and
/// which body an event is about.
pub proof fn lemma_dispatch_keeps_entities(
    bodies: Seq<ReactiveBody>,
    events: Seq<CollisionEvent>,
    draws: Seq<Draw>,
    visual_pool_len: usize,
)
    ensures
        dispatch_bodies(bodies, events, draws, visual_pool_len).len() == bodies.len(),
        forall|i: int|
            0 <= i < bodies.len() ==> (#[trigger] dispatch_bodies(
                bodies,
                events,
                draws,
                visual_pool_len,
            )[i]).entity == bodies[i].entity,
        forall|e: u64|
            is_reactive(dispatch_bodies(bodies, events, draws, visual_pool_len), e) == is_reactive(
                bodies,
                e,
            ),
        forall|event: CollisionEvent|
            target_of(dispatch_bodies(bodies, events, draws, visual_pool_len), event) == target_of(
                bodies,
                event,
            ),
        distinct_entities(bodies) ==> distinct_entities(
            dispatch_bodies(bodies, events, draws, visual_pool_len),
        ),
    decreases events.len(),
{
    if events.len() > 0 {
        let earlier = events.drop_last();
        lemma_dispatch_keeps_entities(bodies, earlier, draws, visual_pool_len);
        let before = dispatch_bodies(bodies, earlier, draws, visual_pool_len);
        let draw = draws[events.len() - 1];
        match target_of(before, events.last()) {
            Some(entity) => {
                lemma_with_visual_keeps_entities(
                    before,
                    entity,
                    pick_spec(draw.visual, visual_pool_len),
                );
            },
            None => {},
        }
    }
}

/// A body that no event of a tick is about looks after the tick as it did
/// before.
pub proof fn lemma_untargeted_body_is_unchanged(
    bodies: Seq<ReactiveBody>,
    events: Seq<CollisionEvent>,
    draws: Seq<Draw>,
    visual_pool_len: usize,
    body: int,
)
    requires
        0 <= body < bodies.len(),
        forall|k: int|
            0 <= k < events.len() ==> target_of(bodies, #[trigger] events[k]) != Some(
                bodies[body].entity,
            ),
    ensures
        dispatch_bodies(bodies, events, draws, visual_pool_len).len() == bodies.len(),
        dispatch_bodies(bodies, events, draws, visual_pool_len)[body] == bodies[body],
    decreases events.len(),
{
    if events.len() > 0 {
        let earlier = events.drop_last();
        assert forall|k: int| 0 <= k < earlier.len() implies target_of(
            bodies,
            #[trigger] earlier[k],
        ) != Some(bodies[body].entity) by {
            assert(earlier[k] == events[k]);
        }
        lemma_untargeted_body_is_unchanged(bodies, earlier, draws, visual_pool_len, body);
        lemma_dispatch_keeps_entities(bodies, earlier, draws, visual_pool_len);
        lemma_dispatch_keeps_entities(bodies, events, draws, visual_pool_len);
        assert(target_of(bodies, events[events.len() - 1]) != Some(bodies[body].entity));
    }
}

/// A tick asks for exactly one audio cue for each event that calls for a
/// reaction: none is dropped and none is applied twice.
pub proof fn lemma_one_cue_for_each_reaction(
    bodies: Seq<ReactiveBody>,
    events: Seq<CollisionEvent>,
    draws: Seq<Draw>,
    visual_pool_len: usize,
    audio_pool_len: usize,
)
    ensures
        dispatch_cues(bodies, events, draws, visual_pool_len, audio_pool_len).len()
            == reaction_count(bodies, events),
    decreases events.len(),
{
    if events.len() > 0 {
        let earlier = events.drop_last();
        lemma_one_cue_for_each_reaction(bodies, earlier, draws, visual_pool_len, audio_pool_len);
        lemma_dispatch_keeps_entities(bodies, earlier, draws, visual_pool_len);
    }
}

/// Whatever the events and the draws, a tick leaves every visual asset within
/// the visual pool and asks only for entries of the audio pool.
pub proof fn lemma_dispatch_stays_in_pools(
    bodies: Seq<ReactiveBody>,
    events: Seq<CollisionEvent>,
    draws: Seq<Draw>,
    visual_pool_len: usize,
    audio_pool_len: usize,
)
    requires
        visual_pool_len > 0,
        audio_pool_len > 0,
        visuals_in_pool(bodies, visual_pool_len),
    ensures
        visuals_in_pool(
            dispatch_bodies(bodies, events, draws, visual_pool_len),
            visual_pool_len,
        ),
        cues_in_pool(
            dispatch_cues(bodies, events, draws, visual_pool_len, audio_pool_len),
            audio_pool_len,
        ),
    decreases events.len(),
{
    if events.len() > 0 {
        let earlier = events.drop_last();
        lemma_dispatch_stays_in_pools(bodies, earlier, draws, visual_pool_len, audio_pool_len);
        let draw = draws[events.len() - 1];
        vstd::arithmetic::div_mod::lemma_mod_bound(draw.visual as int, visual_pool_len as int);
        vstd::arithmetic::div_mod::lemma_mod_bound(draw.audio as int, audio_pool_len as int);
    }
}

} // verus!
