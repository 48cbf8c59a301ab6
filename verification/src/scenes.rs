//! The shell around the simulation: title screen, running game, pause and
//! game over, and the keys that lead from one to the other.
use crate::controls::Controls;
use crate::game::{Game, GameState};
use crate::units::{LIMIT, LONGEST_STEP};
use vstd::prelude::*;

verus! {

/// The keys of the shell, as pressed since the last step.
#[derive(Clone, Copy, Debug, PartialEq, Eq, Structural)]
pub struct SceneKeys {
    /// The key that starts a session.
    pub start: bool,
    /// The key that pauses and resumes.
    pub pause: bool,
    /// The key that leads back to the title screen.
    pub menu: bool,
}

/// The title screen.
#[derive(Clone, Copy, Debug, PartialEq, Eq, Structural)]
pub struct MenuScene;

/// The running game.
#[derive(Clone, Copy, Debug, PartialEq, Eq, Structural)]
pub struct GameScene;

/// The game, held still.
#[derive(Clone, Copy, Debug, PartialEq, Eq, Structural)]
pub struct PauseScene;

/// The end of a session.
#[derive(Clone, Copy, Debug, PartialEq, Eq, Structural)]
pub struct GameOverScene;

/// The scene that is on.
#[derive(Clone, Copy, Debug, PartialEq, Eq, Structural)]
pub enum Scene {
    Menu(MenuScene),
    Game(GameScene),
    Pause(PauseScene),
    GameOver(GameOverScene),
}

/// The scene that the keys lead to from the title screen, if any.
pub open spec fn after_menu(keys: SceneKeys) -> Option<Scene> {
    if keys.start {
        Some(Scene::Game(GameScene))
    } else {
        None
    }
}

/// The scene that the keys lead to from the pause, if any: the pause key
/// wins over the menu key.
pub open spec fn after_pause(keys: SceneKeys) -> Option<Scene> {
    if keys.pause {
        Some(Scene::Game(GameScene))
    } else if keys.menu {
        Some(Scene::Menu(MenuScene))
    } else {
        None
    }
}

/// The scene that the keys lead to from the end of a session, if any: the
/// start key wins over the menu key.
pub open spec fn after_game_over(keys: SceneKeys) -> Option<Scene> {
    if keys.start {
        Some(Scene::Game(GameScene))
    } else if keys.menu {
        Some(Scene::Menu(MenuScene))
    } else {
        None
    }
}

/// `post` is `pre` after a step of the running game has been played and
/// shown: the simulation has advanced, its events have been turned into
/// effects, and a game that is over has left its score as the high score if
/// it is higher.
pub open spec fn played(pre: Game, post: Game, dt: int, c: Controls) -> bool {
    exists|stepped: Game|
        {
            &&& #[trigger] Game::stepped(pre, stepped, dt, c)
            &&& post.effects.shows(stepped.effects, stepped.event_queue@)
            &&& post.event_queue@.len() == 0
            &&& post.high_score == if stepped.state == GameState::GameOver && stepped.score
                > stepped.high_score {
                stepped.score
            } else {
                stepped.high_score
            }
            &&& post == (Game {
                effects: post.effects,
                event_queue: post.event_queue,
                high_score: post.high_score,
                ..stepped
            })
        }
}

/// `post` is `pre` after a step at the end of a session: the effects have
/// advanced, and what was left to show has been shown.
pub open spec fn faded_out(pre: Game, post: Game, dt: int) -> bool {
    exists|faded: Game|
        {
            &&& #[trigger] Game::effects_updated(pre, faded, dt)
            &&& post.effects.shows(faded.effects, faded.event_queue@)
            &&& post.event_queue@.len() == 0
            &&& post == (Game { effects: post.effects, event_queue: post.event_queue, ..faded })
        }
}

impl MenuScene {
    /// The title screen.
    pub fn new() -> (s: MenuScene)
        ensures
            s == MenuScene,
    {
        MenuScene
    }

    /// One step on the title screen: the start key starts a session.
    pub fn update(&mut self, game: &mut Game, keys: &SceneKeys) -> (next: Option<Scene>)
        requires
            old(game).wf(),
        ensures
            next == after_menu(*keys),
            keys.start ==> final(game).is_fresh(GameState::Playing),
            keys.start ==> final(game).screen == old(game).screen,
            keys.start ==> final(game).high_score == old(game).high_score,
            !keys.start ==> *final(game) == *old(game),
            final(game).wf(),
    {
        if keys.start {
            game.reset();
            return Some(Scene::Game(GameScene));
        }
        None
    }
}

impl GameScene {
    /// The running game.
    pub fn new() -> (s: GameScene)
        ensures
            s == GameScene,
    {
        GameScene
    }

    /// One step of the running game. The pause key and the menu key lead
    /// away at once, the pause key first. Otherwise the simulation advances
    /// and its events are shown; a game that is over then leads to the end
    /// of the session.
    pub fn update(
        &mut self,
        game: &mut Game,
        dt: i64,
        controls: &Controls,
        keys: &SceneKeys,
    ) -> (next: Option<Scene>)
        requires
            old(game).wf(),
            old(game).has_room(),
            0 <= dt <= LONGEST_STEP,
        ensures
            keys.pause ==> next == Some(Scene::Pause(PauseScene)) && *final(game) == *old(game),
            !keys.pause && keys.menu ==> next == Some(Scene::Menu(MenuScene)) && *final(game)
                == *old(game),
            !keys.pause && !keys.menu ==> played(*old(game), *final(game), dt as int, *controls),
            !keys.pause && !keys.menu ==> next == if final(game).state == GameState::GameOver {
                Some(Scene::GameOver(GameOverScene))
            } else {
                None
            },
            final(game).wf(),
    {
        if keys.pause {
            return Some(Scene::Pause(PauseScene));
        }
        if keys.menu {
            return Some(Scene::Menu(MenuScene));
        }
        game.update(dt, controls);
        game.effects.process_events(&mut game.event_queue);
        if game.state == GameState::GameOver {
            if game.score > game.high_score {
                game.high_score = game.score;
            }
            return Some(Scene::GameOver(GameOverScene));
        }
        None
    }
}

impl PauseScene {
    /// The pause.
    pub fn new() -> (s: PauseScene)
        ensures
            s == PauseScene,
    {
        PauseScene
    }

    /// One step of the pause: nothing moves; the pause key resumes the game,
    /// the menu key leads to the title screen.
    pub fn update(&mut self, keys: &SceneKeys) -> (next: Option<Scene>)
        ensures
            next == after_pause(*keys),
    {
        if keys.pause {
            return Some(Scene::Game(GameScene));
        }
        if keys.menu {
            return Some(Scene::Menu(MenuScene));
        }
        None
    }
}

impl GameOverScene {
    /// The end of a session.
    pub fn new() -> (s: GameOverScene)
        ensures
            s == GameOverScene,
    {
        GameOverScene
    }

    /// One step at the end of a session: the effects play out; the start key
    /// starts a new session, the menu key leads to the title screen.
    pub fn update(&mut self, game: &mut Game, dt: i64, keys: &SceneKeys) -> (next: Option<Scene>)
        requires
            old(game).wf(),
            0 <= dt <= LIMIT,
        ensures
            next == after_game_over(*keys),
            keys.start ==> final(game).is_fresh(GameState::Playing),
            keys.start ==> final(game).screen == old(game).screen,
            keys.start ==> final(game).high_score == old(game).high_score,
            !keys.start ==> faded_out(*old(game), *final(game), dt as int),
            final(game).wf(),
    {
        game.effects.update(dt);
        let ghost faded = *game;
        assert(Game::effects_updated(*old(game), faded, dt as int));
        game.effects.process_events(&mut game.event_queue);
        if keys.start {
            game.reset();
            return Some(Scene::Game(GameScene));
        }
        if keys.menu {
            return Some(Scene::Menu(MenuScene));
        }
        None
    }
}

impl Scene {
    /// One step of the scene that is on; returns the scene to change to, if
    /// any.
    pub fn update(
        &mut self,
        game: &mut Game,
        dt: i64,
        controls: &Controls,
        keys: &SceneKeys,
    ) -> (next: Option<Scene>)
        requires
            old(game).wf(),
            (*old(self) is Game) ==> old(game).has_room(),
            0 <= dt <= LONGEST_STEP,
        ensures
            *final(self) == *old(self),
            final(game).wf(),
            (*old(self) is Menu) ==> next == after_menu(*keys),
            (*old(self) is Pause) ==> next == after_pause(*keys) && *final(game) == *old(game),
            (*old(self) is GameOver) ==> next == after_game_over(*keys),
            (*old(self) is GameOver) && !keys.start ==> faded_out(
                *old(game),
                *final(game),
                dt as int,
            ),
            (*old(self) is Game) && keys.pause ==> next == Some(Scene::Pause(PauseScene)),
            (*old(self) is Game) && !keys.pause && keys.menu ==> next == Some(
                Scene::Menu(MenuScene),
            ),
            (*old(self) is Game) && !keys.pause && !keys.menu ==> played(
                *old(game),
                *final(game),
                dt as int,
                *controls,
            ),
    {
        match self {
            Scene::Menu(s) => s.update(game, keys),
            Scene::Game(s) => s.update(game, dt, controls, keys),
            Scene::Pause(s) => s.update(keys),
            Scene::GameOver(s) => s.update(game, dt, keys),
        }
    }
}

} // verus!
