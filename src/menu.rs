//! The menus: which items each one offers, and what choosing an item does.
use crate::game::Skill;
use vstd::prelude::*;

verus! {

/// The menus.
#[derive(Debug, Clone, Copy, PartialEq, Eq, Structural)]
pub enum MenuType {
    Root,
    Episode,
    Skill,
    Options,
}

/// What choosing a menu item does.
#[derive(Debug, Clone, Copy, PartialEq, Eq, Structural)]
pub enum MenuAction {
    /// Opens the episode menu.
    EpisodeMenu,
    /// Opens the options menu.
    OptionsMenu,
    /// Starts play.
    Play,
    /// Ends the game.
    Quit,
    /// Records the episode and opens the skill menu.
    ChooseEpisode(usize),
    /// Records the skill and starts play.
    ChooseSkill(Skill),
}

/// Number of items of each menu.
pub open spec fn item_count(t: MenuType) -> usize {
    match t {
        MenuType::Root => 5,
        MenuType::Episode => 3,
        MenuType::Skill => 5,
        MenuType::Options => 4,
    }
}

/// The skill that item `i` of the skill menu selects, easiest first.
pub open spec fn skill_at(i: int) -> Skill {
    if i == 0 {
        Skill::TooYoungToDie
    } else if i == 1 {
        Skill::HeyNotTooRough
    } else if i == 2 {
        Skill::HurtMePlenty
    } else if i == 3 {
        Skill::UltraViolence
    } else {
        Skill::Nightmare
    }
}

/// The action of item `i` of menu `t`. The root menu offers new game,
/// options, load, save and quit; load and save start play. The third episode
/// item records episode 2, like the second.
pub open spec fn item_action(t: MenuType, i: int) -> MenuAction {
    match t {
        MenuType::Root => if i == 0 {
            MenuAction::EpisodeMenu
        } else if i == 1 {
            MenuAction::OptionsMenu
        } else if i == 4 {
            MenuAction::Quit
        } else {
            MenuAction::Play
        },
        MenuType::Episode => MenuAction::ChooseEpisode(if i == 0 { 1 } else { 2 }),
        MenuType::Skill => MenuAction::ChooseSkill(skill_at(i)),
        MenuType::Options => MenuAction::Play,
    }
}

/// The number of items of menu `t`.
pub fn menu_item_count(t: MenuType) -> (r: usize)
    ensures
        r == item_count(t),
{
    match t {
        MenuType::Root => 5,
        MenuType::Episode => 3,
        MenuType::Skill => 5,
        MenuType::Options => 4,
    }
}

/// The action of item `i` of menu `t`.
pub fn menu_item_action(t: MenuType, i: usize) -> (r: MenuAction)
    ensures
        r == item_action(t, i as int),
{
    match t {
        MenuType::Root => if i == 0 {
            MenuAction::EpisodeMenu
        } else if i == 1 {
            MenuAction::OptionsMenu
        } else if i == 4 {
            MenuAction::Quit
        } else {
            MenuAction::Play
        },
        MenuType::Episode => MenuAction::ChooseEpisode(if i == 0 { 1 } else { 2 }),
        MenuType::Skill => MenuAction::ChooseSkill(
            if i == 0 {
                Skill::TooYoungToDie
            } else if i == 1 {
                Skill::HeyNotTooRough
            } else if i == 2 {
                Skill::HurtMePlenty
            } else if i == 3 {
                Skill::UltraViolence
            } else {
                Skill::Nightmare
            },
        ),
        MenuType::Options => MenuAction::Play,
    }
}

/// The open menu and its highlighted item.
pub struct Menu {
    menu_type: MenuType,
    selected: usize,
}

impl View for Menu {
    type V = (MenuType, usize);

    closed spec fn view(&self) -> (MenuType, usize) {
        (self.menu_type, self.selected)
    }
}

impl Menu {
    /// The highlighted item is one of the menu's items.
    #[verifier::type_invariant]
    closed spec fn inv(self) -> bool {
        self.selected < item_count(self.menu_type)
    }

    /// The menu `t` with its first item highlighted.
    pub fn open(t: MenuType) -> (r: Menu)
        ensures
            r@ == (t, 0usize),
    {
        Menu { menu_type: t, selected: 0 }
    }

    /// The root menu with its first item highlighted.
    pub fn root() -> (r: Menu)
        ensures
            r@ == (MenuType::Root, 0usize),
    {
        Menu::open(MenuType::Root)
    }

    pub fn menu_type(&self) -> (r: MenuType)
        ensures
            r == self@.0,
    {
        self.menu_type
    }

    pub fn selected(&self) -> (r: usize)
        ensures
            r == self@.1,
            r < item_count(self@.0),
    {
        proof {
            use_type_invariant(self);
        }
        self.selected
    }

    /// Highlights the next item, wrapping to the first.
    pub fn select_next(&mut self)
        ensures
            final(self)@ == (old(self)@.0, ((old(self)@.1 + 1) % item_count(old(self)@.0) as int) as usize),
    {
        proof {
            use_type_invariant(&*self);
        }
        let n = menu_item_count(self.menu_type);
        self.selected = (self.selected + 1) % n;
    }

    /// Highlights the previous item, wrapping to the last.
    pub fn select_previous(&mut self)
        ensures
            final(self)@ == (
                old(self)@.0,
                if old(self)@.1 > 0 {
                    (old(self)@.1 - 1) as usize
                } else {
                    (item_count(old(self)@.0) - 1) as usize
                },
            ),
    {
        proof {
            use_type_invariant(&*self);
        }
        let n = menu_item_count(self.menu_type);
        self.selected = if self.selected > 0 {
            self.selected - 1
        } else {
            n - 1
        };
    }

    /// The action of the highlighted item.
    pub fn selected_action(&self) -> (r: MenuAction)
        ensures
            r == item_action(self@.0, self@.1 as int),
    {
        menu_item_action(self.menu_type, self.selected)
    }
}

} // verus!
