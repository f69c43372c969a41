//! Which systems make up a frame in each mode of the game, and in which
//! order they run.

use vstd::prelude::*;
use crate::resources::Mode;
use crate::resources::Stage;

verus! {

/// A step of a frame.
#[derive(Clone, Copy, Debug, PartialEq, Eq, Structural)]
pub enum System {
    FinishStage,
    ConcludeStage,
    MoveBosses,
    ExplosionImages,
    TogglePaused,
    KillOffscreen,
    ExpandBombs,
    MoveEntities,
    CollectOrbs,
    Control,
    SetPlayerPositions,
    FireBullets,
    RepeatBackgroundLayers,
    TickTime,
    StartTowardsPlayer,
    AddOnscreen,
    Collisions,
    ApplyCollisions,
    SpawnBullets,
    ControlMenu,
    RenderSprite,
    RenderText,
    RenderBombs,
    RenderHitboxes,
    RenderUI,
    RenderPauseBackground,
    RenderMenu,
    /// The sync point: what was deleted goes, what was asked for comes.
    Maintain,
}

/// What a frame does, by the mode of the game.
#[derive(Clone, Copy, Debug, PartialEq, Eq, Structural)]
pub enum Pipeline {
    /// A menu is steered and drawn.
    Menu,
    /// The stage is played.
    Playing,
    /// The stage stands still behind the pause menu.
    Paused,
    /// The world is reset to the start of a stage.
    StartStage { stage: Stage, multiplayer: bool },
    /// The game ends.
    Quit,
}

/// The frame of a mode.
pub open spec fn pipeline_of(mode: Mode) -> Pipeline {
    match mode {
        Mode::Playing { .. } => Pipeline::Playing,
        Mode::Paused { .. } => Pipeline::Paused,
        Mode::StartStage { stage, multiplayer } => Pipeline::StartStage { stage, multiplayer },
        Mode::Quit => Pipeline::Quit,
        _ => Pipeline::Menu,
    }
}

/// Whether `first` comes before `second` in `order`.
pub open spec fn precedes(order: Seq<System>, first: System, second: System) -> bool {
    exists|i: int, j: int|
        0 <= i < j < order.len() && #[trigger] order[i] == first && #[trigger] order[j] == second
}

impl Pipeline {
    /// The steps of the frame, in the order in which they run. The reset of
    /// a stage is a step of its own, which is followed by the sync point; the
    /// end of the game has no steps.
    pub open spec fn order(self) -> Seq<System> {
        match self {
            Pipeline::Menu => seq![System::ControlMenu, System::RenderMenu, System::Maintain],
            Pipeline::Playing => seq![
                System::FinishStage,
                System::ConcludeStage,
                System::MoveBosses,
                System::ExplosionImages,
                System::TogglePaused,
                System::KillOffscreen,
                System::ExpandBombs,
                System::MoveEntities,
                System::CollectOrbs,
                System::Control,
                System::SetPlayerPositions,
                System::FireBullets,
                System::RepeatBackgroundLayers,
                System::TickTime,
                System::StartTowardsPlayer,
                System::AddOnscreen,
                System::Collisions,
                System::ApplyCollisions,
                System::SpawnBullets,
                System::RenderSprite,
                System::RenderText,
                System::RenderBombs,
                System::RenderHitboxes,
                System::RenderUI,
                System::Maintain,
            ],
            Pipeline::Paused => seq![
                System::TogglePaused,
                System::ControlMenu,
                System::RenderSprite,
                System::RenderText,
                System::RenderBombs,
                System::RenderHitboxes,
                System::RenderUI,
                System::RenderPauseBackground,
                System::RenderMenu,
                System::Maintain,
            ],
            Pipeline::StartStage { .. } => seq![System::Maintain],
            Pipeline::Quit => Seq::empty(),
        }
    }

    /// The steps of the frame, in the order in which they run.
    pub fn systems(self) -> (r: Vec<System>)
        ensures
            r@ == self.order(),
    {
        let mut steps: Vec<System> = Vec::new();
        match self {
            Pipeline::Menu => {
                steps.push(System::ControlMenu);
                steps.push(System::RenderMenu);
                steps.push(System::Maintain);
            },
            Pipeline::Playing => {
                steps.push(System::FinishStage);
                steps.push(System::ConcludeStage);
                steps.push(System::MoveBosses);
                steps.push(System::ExplosionImages);
                steps.push(System::TogglePaused);
                steps.push(System::KillOffscreen);
                steps.push(System::ExpandBombs);
                steps.push(System::MoveEntities);
                steps.push(System::CollectOrbs);
                steps.push(System::Control);
                steps.push(System::SetPlayerPositions);
                steps.push(System::FireBullets);
                steps.push(System::RepeatBackgroundLayers);
                steps.push(System::TickTime);
                steps.push(System::StartTowardsPlayer);
                steps.push(System::AddOnscreen);
                steps.push(System::Collisions);
                steps.push(System::ApplyCollisions);
                steps.push(System::SpawnBullets);
                steps.push(System::RenderSprite);
                steps.push(System::RenderText);
                steps.push(System::RenderBombs);
                steps.push(System::RenderHitboxes);
                steps.push(System::RenderUI);
                steps.push(System::Maintain);
            },
            Pipeline::Paused => {
                steps.push(System::TogglePaused);
                steps.push(System::ControlMenu);
                steps.push(System::RenderSprite);
                steps.push(System::RenderText);
                steps.push(System::RenderBombs);
                steps.push(System::RenderHitboxes);
                steps.push(System::RenderUI);
                steps.push(System::RenderPauseBackground);
                steps.push(System::RenderMenu);
                steps.push(System::Maintain);
            },
            Pipeline::StartStage { .. } => {
                steps.push(System::Maintain);
            },
            Pipeline::Quit => {},
        }
        assert(steps@ =~= self.order());
        steps
    }
}

impl Mode {
    /// The frame of the mode.
    pub fn pipeline(&self) -> (r: Pipeline)
        ensures
            r == pipeline_of(*self),
    {
        match *self {
            Mode::Playing { .. } => Pipeline::Playing,
            Mode::Paused { .. } => Pipeline::Paused,
            Mode::StartStage { stage, multiplayer } => Pipeline::StartStage { stage, multiplayer },
            Mode::Quit => Pipeline::Quit,
            _ => Pipeline::Menu,
        }
    }
}

/// The order of a played frame respects what the systems need of each
/// other. Entities lock onto players after the clock has ticked. Contacts
/// are found before they are resolved. Bullets are made after everything
/// that asks for them. The sprites are drawn after the entities and the
/// players have moved and the blast effects have their sprites, and
/// everything else is drawn over the sprites.
pub proof fn law_playing_order()
    ensures
        precedes(Pipeline::Playing.order(), System::TickTime, System::StartTowardsPlayer),
        precedes(Pipeline::Playing.order(), System::SetPlayerPositions, System::FireBullets),
        precedes(Pipeline::Playing.order(), System::SetPlayerPositions, System::StartTowardsPlayer),
        precedes(Pipeline::Playing.order(), System::Collisions, System::ApplyCollisions),
        precedes(Pipeline::Playing.order(), System::Control, System::SpawnBullets),
        precedes(Pipeline::Playing.order(), System::FireBullets, System::SpawnBullets),
        precedes(Pipeline::Playing.order(), System::MoveEntities, System::RenderSprite),
        precedes(Pipeline::Playing.order(), System::Control, System::RenderSprite),
        precedes(Pipeline::Playing.order(), System::ExplosionImages, System::RenderSprite),
        precedes(Pipeline::Playing.order(), System::RenderSprite, System::RenderText),
        precedes(Pipeline::Playing.order(), System::RenderSprite, System::RenderBombs),
        precedes(Pipeline::Playing.order(), System::RenderSprite, System::RenderHitboxes),
        precedes(Pipeline::Playing.order(), System::RenderSprite, System::RenderUI),
{
    let order = Pipeline::Playing.order();
    assert(order[13] == System::TickTime && order[14] == System::StartTowardsPlayer);
    assert(order[10] == System::SetPlayerPositions && order[11] == System::FireBullets);
    assert(order[16] == System::Collisions && order[17] == System::ApplyCollisions);
    assert(order[9] == System::Control && order[18] == System::SpawnBullets);
    assert(order[7] == System::MoveEntities && order[19] == System::RenderSprite);
    assert(order[3] == System::ExplosionImages);
    assert(order[20] == System::RenderText && order[21] == System::RenderBombs);
    assert(order[22] == System::RenderHitboxes && order[23] == System::RenderUI);
}

/// Every frame but the last one of the game ends with the sync point, and
/// has it nowhere else: what systems ask for and delete takes effect after
/// every system has run, and before the next frame.
pub proof fn law_sync_point_is_last(pipeline: Pipeline)
    ensures
        pipeline != Pipeline::Quit ==> pipeline.order().len() > 0 && pipeline.order().last()
            == System::Maintain,
        forall|i: int|
            0 <= i < pipeline.order().len() - 1 ==> #[trigger] pipeline.order()[i]
                != System::Maintain,
{
}

} // verus!
