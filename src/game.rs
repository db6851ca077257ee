//! The game's top-level state and the rules that move it on user input.
use crate::menu::{item_action, item_count, Menu, MenuAction, MenuType};
use vstd::prelude::*;

verus! {

/// What the game is doing.
#[derive(Debug, Clone, Copy, PartialEq, Eq, Structural)]
pub enum GameState {
    Menu,
    Playing,
    GameOver,
    Quit,
}

/// The skill levels, easiest first.
#[derive(Debug, Clone, Copy, PartialEq, Eq, Structural)]
pub enum Skill {
    TooYoungToDie,
    HeyNotTooRough,
    HurtMePlenty,
    UltraViolence,
    Nightmare,
}

/// The keys that the game reads, each down or not.
#[derive(Debug, Clone, Copy, PartialEq, Eq, Structural)]
pub struct Keys {
    pub down: bool,
    pub up: bool,
    pub enter: bool,
    pub escape: bool,
    pub space: bool,
}

/// What the caller is to do after the game has handled input.
#[derive(Debug, Clone, Copy, PartialEq, Eq, Structural)]
pub struct InputOutcome {
    /// The menu took the input: the input cooldown starts again.
    pub accepted: bool,
    /// A menu item was chosen: the selection sound is to be played.
    pub play_sound: bool,
}

/// The game's state as plain values.
pub struct GameView {
    pub state: GameState,
    pub menu_type: MenuType,
    pub selected: usize,
    pub episode: usize,
    pub skill: Skill,
}

/// The game state: what it is doing, its menu, and the chosen episode and skill.
pub struct Game {
    pub state: GameState,
    pub menu: Menu,
    pub episode: usize,
    pub skill: Skill,
}

impl View for Game {
    type V = GameView;

    open spec fn view(&self) -> GameView {
        GameView {
            state: self.state,
            menu_type: self.menu@.0,
            selected: self.menu@.1,
            episode: self.episode,
            skill: self.skill,
        }
    }
}

/// The game after it performs action `a`.
pub open spec fn apply_action(g: GameView, a: MenuAction) -> GameView {
    match a {
        MenuAction::EpisodeMenu => GameView { menu_type: MenuType::Episode, selected: 0, ..g },
        MenuAction::OptionsMenu => GameView { menu_type: MenuType::Options, selected: 0, ..g },
        MenuAction::Play => GameView { state: GameState::Playing, ..g },
        MenuAction::Quit => GameView { state: GameState::Quit, ..g },
        MenuAction::ChooseEpisode(e) => GameView {
            menu_type: MenuType::Skill,
            selected: 0,
            episode: e,
            ..g
        },
        MenuAction::ChooseSkill(s) => GameView { skill: s, state: GameState::Playing, ..g },
    }
}

/// The game after escape is pressed in a menu: the root menu starts play, the
/// skill menu goes back to the episode menu, the others to the root menu.
pub open spec fn escape_menu(g: GameView) -> GameView {
    match g.menu_type {
        MenuType::Root => GameView { state: GameState::Playing, ..g },
        MenuType::Skill => GameView { menu_type: MenuType::Episode, selected: 0, ..g },
        _ => GameView { menu_type: MenuType::Root, selected: 0, ..g },
    }
}

/// The game after the menu takes the keys `k`: down, up, enter and escape are
/// handled in that order, each on the outcome of the one before.
pub open spec fn menu_step(g: GameView, k: Keys) -> GameView {
    let n = item_count(g.menu_type) as int;
    let g1 = if k.down {
        GameView { selected: ((g.selected + 1) % n) as usize, ..g }
    } else {
        g
    };
    let g2 = if k.up {
        GameView {
            selected: if g1.selected > 0 {
                (g1.selected - 1) as usize
            } else {
                (n - 1) as usize
            },
            ..g1
        }
    } else {
        g1
    };
    let g3 = if k.enter {
        apply_action(g2, item_action(g2.menu_type, g2.selected as int))
    } else {
        g2
    };
    if k.escape {
        escape_menu(g3)
    } else {
        g3
    }
}

impl Game {
    /// A new game: in the root menu, episode 1, the easiest skill.
    pub fn new() -> (r: Game)
        ensures
            r@ == (GameView {
                state: GameState::Menu,
                menu_type: MenuType::Root,
                selected: 0,
                episode: 1,
                skill: Skill::TooYoungToDie,
            }),
    {
        Game { state: GameState::Menu, menu: Menu::root(), episode: 1, skill: Skill::TooYoungToDie }
    }

    pub fn set_state(&mut self, game_state: GameState)
        ensures
            final(self)@ == (GameView { state: game_state, ..old(self)@ }),
    {
        self.state = game_state;
    }

    pub fn set_episode(&mut self, episode: usize)
        ensures
            final(self)@ == (GameView { episode: episode, ..old(self)@ }),
    {
        self.episode = episode;
    }

    pub fn set_skill(&mut self, skill: Skill)
        ensures
            final(self)@ == (GameView { skill: skill, ..old(self)@ }),
    {
        self.skill = skill;
    }

    /// Performs a menu action.
    pub fn perform(&mut self, action: MenuAction)
        ensures
            final(self)@ == apply_action(old(self)@, action),
    {
        match action {
            MenuAction::EpisodeMenu => {
                self.menu = Menu::open(MenuType::Episode);
            },
            MenuAction::OptionsMenu => {
                self.menu = Menu::open(MenuType::Options);
            },
            MenuAction::Play => {
                self.set_state(GameState::Playing);
            },
            MenuAction::Quit => {
                self.set_state(GameState::Quit);
            },
            MenuAction::ChooseEpisode(e) => {
                self.menu = Menu::open(MenuType::Skill);
                self.set_episode(e);
            },
            MenuAction::ChooseSkill(s) => {
                self.set_skill(s);
                self.set_state(GameState::Playing);
            },
        }
    }

    /// Handles the keys in a menu. Nothing happens unless some key is down and
    /// the input cooldown is over; otherwise the keys are taken as `menu_step`
    /// says, and a chosen item asks for the selection sound.
    pub fn handle_menu_input(&mut self, any_key: bool, cooldown_over: bool, keys: Keys) -> (r:
        InputOutcome)
        ensures
            any_key && cooldown_over ==> {
                &&& final(self)@ == menu_step(old(self)@, keys)
                &&& r == (InputOutcome { accepted: true, play_sound: keys.enter })
            },
            !(any_key && cooldown_over) ==> {
                &&& final(self)@ == old(self)@
                &&& r == (InputOutcome { accepted: false, play_sound: false })
            },
    {
        if !any_key || !cooldown_over {
            return InputOutcome { accepted: false, play_sound: false };
        }
        if keys.down {
            self.menu.select_next();
        }
        if keys.up {
            self.menu.select_previous();
        }
        if keys.enter {
            let action = self.menu.selected_action();
            self.perform(action);
        }
        if keys.escape {
            match self.menu.menu_type() {
                MenuType::Root => self.set_state(GameState::Playing),
                MenuType::Skill => {
                    self.menu = Menu::open(MenuType::Episode);
                },
                _ => {
                    self.menu = Menu::root();
                },
            }
        }
        InputOutcome { accepted: true, play_sound: keys.enter }
    }

    /// Moves the game on one frame's input: the menu takes the keys while it
    /// is open, escape during play opens the menu, and the other states ignore
    /// the keys.
    pub fn update(&mut self, any_key: bool, cooldown_over: bool, keys: Keys) -> (r: InputOutcome)
        ensures
            old(self).state == GameState::Menu ==> {
                &&& any_key && cooldown_over ==> final(self)@ == menu_step(old(self)@, keys) && r
                    == (InputOutcome { accepted: true, play_sound: keys.enter })
                &&& !(any_key && cooldown_over) ==> final(self)@ == old(self)@ && r == (
                InputOutcome { accepted: false, play_sound: false })
            },
            old(self).state == GameState::Playing ==> {
                &&& final(self)@ == (if keys.escape {
                    GameView { state: GameState::Menu, ..old(self)@ }
                } else {
                    old(self)@
                })
                &&& r == (InputOutcome { accepted: false, play_sound: false })
            },
            (old(self).state == GameState::GameOver || old(self).state == GameState::Quit) ==> {
                &&& final(self)@ == old(self)@
                &&& r == (InputOutcome { accepted: false, play_sound: false })
            },
    {
        match self.state {
            GameState::Menu => self.handle_menu_input(any_key, cooldown_over, keys),
            GameState::Playing => {
                if keys.escape {
                    self.set_state(GameState::Menu);
                }
                InputOutcome { accepted: false, play_sound: false }
            },
            _ => InputOutcome { accepted: false, play_sound: false },
        }
    }
}

} // verus!
