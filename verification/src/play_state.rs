//! The game around the round: the menu, Blue's choice of cards, the toss
//! for the first move, the round itself and the banner with its result,
//! kept as a stack of phases of their own.

use std::rc::Rc;
use vstd::prelude::*;
use crate::board::model::{Board, GameModel, Input, State as Phase, TurnPhase};
use crate::board::setup::{lemma_opening_is_wf, opening_stack, tiles_drawn, toggled};
use crate::cards::{CardAtlas, DuelOutcome, Suit};
use crate::entity::ElementEntity;
use crate::events::{Event, Sfx};
use crate::hand::{count_cards, dealt_card, dealt_hand, lemma_count_cards_uniform, Hand, HandModel};
use crate::opponent::in_pool;
use crate::random::random_ratio;

verus! {

/// A phase of the game. The phases form a stack; the last one is active.
#[derive(Clone, Copy, Debug, PartialEq, Eq, Structural)]
pub enum State {
    Menu,
    CardPick,
    CoinFlip,
    Play,
    Fin,
}

/// A press on one of the two page buttons of the card list.
#[derive(Clone, Copy, Debug, PartialEq, Eq, Structural)]
pub enum PageNavEvent {
    Next,
    Prev,
}

/// The number of cards on a page of the card list.
pub const CARDS_PER_PAGE: usize = 11;

/// The number of pages of the card list.
pub const PAGES: usize = 10;

/// The list from which Blue chooses its cards, a page at a time.
#[derive(Clone, Copy, Debug, PartialEq, Eq, Structural)]
pub struct PickMenu {
    pub active: bool,
    pub page: usize,
    pub pages: usize,
    /// How many cards have been chosen.
    pub count: u8,
}

impl PickMenu {
    /// The page shown is one of the ten.
    pub open spec fn wf(self) -> bool {
        self.page < PAGES
    }

    /// The page after a press on a page button; the pages wrap around.
    pub open spec fn turned_to(page: usize, nav: PageNavEvent) -> usize {
        match nav {
            PageNavEvent::Next => if page == PAGES - 1 { 0 } else { (page + 1) as usize },
            PageNavEvent::Prev => if page == 0 { (PAGES - 1) as usize } else { (page - 1) as usize },
        }
    }

    /// What a tick does to the list. Without a press, or while the list is
    /// not active, nothing is chosen. A press on a row chooses the card of
    /// that row: the cards of page `p` are those with the ids from `11 * p`
    /// on. A press on a page button turns the page.
    pub open spec fn updated(
        self,
        pressed: bool,
        row: Option<usize>,
        nav: Option<PageNavEvent>,
    ) -> (PickMenu, Option<(usize, u8)>) {
        if !self.active {
            (self, None)
        } else if !pressed {
            (PickMenu { pages: PAGES, ..self }, None)
        } else if row is Some && row.unwrap() < CARDS_PER_PAGE {
            (
                PickMenu { pages: PAGES, count: (self.count + 1) as u8, ..self },
                Some(((self.page * CARDS_PER_PAGE + row.unwrap()) as usize, self.count)),
            )
        } else {
            (
                PickMenu {
                    pages: PAGES,
                    page: match nav {
                        Some(nav) => Self::turned_to(self.page, nav),
                        None => self.page,
                    },
                    ..self
                },
                None,
            )
        }
    }

    /// The list on its first page, with nothing chosen.
    pub fn new() -> (res: PickMenu)
        ensures
            res == (PickMenu { active: true, page: 0, pages: 0, count: 0 }),
            res.wf(),
    {
        PickMenu { active: true, page: 0, pages: 0, count: 0 }
    }

    /// The catalogue id of the card in the given row of the page shown.
    pub fn card_id(&self, row: usize) -> (id: Option<usize>)
        requires
            self.wf(),
        ensures
            id == (if row < CARDS_PER_PAGE {
                Some((self.page * CARDS_PER_PAGE + row) as usize)
            } else {
                None
            }),
            id is Some ==> id.unwrap() < 110,
    {
        if row < CARDS_PER_PAGE {
            Some(self.page * CARDS_PER_PAGE + row)
        } else {
            None
        }
    }

    /// One tick of the list. `pressed` says whether the primary button went
    /// down, `row` and `nav` what lies under the pointer. Returns the id of
    /// a card chosen now and how many were chosen before it.
    pub fn update(&mut self, pressed: bool, row: Option<usize>, nav: Option<PageNavEvent>) -> (res:
        Option<(usize, u8)>)
        requires
            old(self).wf(),
            old(self).count < u8::MAX,
        ensures
            *final(self) == old(self).updated(pressed, row, nav).0,
            res == old(self).updated(pressed, row, nav).1,
            final(self).wf(),
            res is Some ==> res.unwrap().0 < 110,
    {
        if !self.active {
            return None;
        }
        self.pages = PAGES;
        if !pressed {
            return None;
        }
        if let Some(row) = row {
            if let Some(id) = self.card_id(row) {
                self.count += 1;
                return Some((id, self.count - 1));
            }
        }
        match nav {
            Some(PageNavEvent::Next) => self.next_page(),
            Some(PageNavEvent::Prev) => self.prev_page(),
            None => {},
        }
        None
    }

    fn next_page(&mut self)
        requires
            old(self).wf(),
            old(self).pages == PAGES,
        ensures
            *final(self) == (PickMenu {
                page: Self::turned_to(old(self).page, PageNavEvent::Next),
                ..*old(self)
            }),
            final(self).wf(),
    {
        if self.page == self.pages - 1 {
            self.page = 0;
        } else {
            self.page += 1;
        }
    }

    fn prev_page(&mut self)
        requires
            old(self).wf(),
            old(self).pages == PAGES,
        ensures
            *final(self) == (PickMenu {
                page: Self::turned_to(old(self).page, PageNavEvent::Prev),
                ..*old(self)
            }),
            final(self).wf(),
    {
        if self.page == 0 {
            self.page = self.pages - 1;
        } else {
            self.page -= 1;
        }
    }
}

/// Blue's choice of cards.
#[derive(Clone, Copy, Debug, PartialEq, Eq, Structural)]
pub struct CardSelect {
    pub card_menu: PickMenu,
    pub active: bool,
}

impl CardSelect {
    /// A choice that has not begun.
    pub fn new() -> (res: CardSelect)
        ensures
            res == (CardSelect {
                card_menu: PickMenu { active: true, page: 0, pages: 0, count: 0 },
                active: true,
            }),
    {
        CardSelect { card_menu: PickMenu::new(), active: true }
    }

    /// Begins the choice anew: nothing is chosen.
    pub fn init(&mut self)
        ensures
            *final(self) == (CardSelect {
                card_menu: PickMenu { count: 0, ..old(self).card_menu },
                ..*old(self)
            }),
    {
        self.card_menu.count = 0;
    }

    /// One tick of the choice.
    pub fn update(&mut self, pressed: bool, row: Option<usize>, nav: Option<PageNavEvent>) -> (res:
        Option<(usize, u8)>)
        requires
            old(self).card_menu.wf(),
            old(self).card_menu.count < u8::MAX,
        ensures
            *final(self) == (CardSelect {
                card_menu: old(self).card_menu.updated(pressed, row, nav).0,
                ..*old(self)
            }),
            res == old(self).card_menu.updated(pressed, row, nav).1,
            res is Some ==> res.unwrap().0 < 110,
    {
        self.card_menu.update(pressed, row, nav)
    }
}

/// The toss for the first move.
#[derive(Clone, Copy, Debug)]
pub struct CoinFlip {}

impl CoinFlip {
    /// The side that a toss gives the first move to: Red on heads, Blue on
    /// tails.
    pub fn side_of(heads: bool) -> (side: Suit)
        ensures
            side == (if heads { Suit::Red } else { Suit::Blue }),
    {
        if heads {
            Suit::Red
        } else {
            Suit::Blue
        }
    }

    /// Tosses a fair coin for the first move.
    pub fn first() -> Suit {
        Self::side_of(random_ratio(1, 2))
    }
}

/// The banner with the result of the round.
#[derive(Clone, Copy, Debug, PartialEq, Eq, Structural)]
pub struct Banner {
    pub started: bool,
    pub outcome: DuelOutcome,
}

impl Banner {
    /// What a tick does to the banner. On its first tick a win is greeted
    /// with the fanfare. After that, and on the first tick of any other
    /// result, a press ends the game.
    pub open spec fn updated(self, pressed: bool) -> (Banner, Option<Event>) {
        let shown = Banner { started: true, ..self };
        if !self.started && self.outcome == DuelOutcome::Win {
            (shown, Some(Event::PlaySound(Sfx::Fanfare)))
        } else if pressed {
            (shown, Some(Event::Finished))
        } else {
            (shown, None)
        }
    }

    /// Back to a banner not yet shown.
    pub fn init(&mut self)
        ensures
            *final(self) == (Banner { started: false, outcome: DuelOutcome::Draw }),
    {
        self.started = false;
        self.outcome = DuelOutcome::Draw;
    }

    /// A banner not yet shown.
    pub fn new() -> (res: Banner)
        ensures
            res == (Banner { started: false, outcome: DuelOutcome::Draw }),
    {
        Banner { started: false, outcome: DuelOutcome::Draw }
    }

    /// One tick of the banner.
    pub fn update(&mut self, pressed: bool) -> (event: Option<Event>)
        ensures
            *final(self) == old(self).updated(pressed).0,
            event == old(self).updated(pressed).1,
    {
        if !self.started {
            self.started = true;
            match self.outcome {
                DuelOutcome::Win => {
                    return Some(Event::PlaySound(Sfx::Fanfare));
                },
                _ => {},
            }
        }
        if pressed {
            return Some(Event::Finished);
        }
        None
    }
}

/// What the presentation layer reports to the game for one tick.
#[derive(Clone, Copy, Debug)]
pub struct PlayInput {
    /// What it reports to the round.
    pub board: Input,
    /// The entry of the menu that was pressed in this tick.
    pub menu: Option<Event>,
    /// The row of the card list under the pointer.
    pub pick_row: Option<usize>,
    /// The page button of the card list under the pointer.
    pub pick_nav: Option<PageNavEvent>,
}

/// The game.
#[derive(Debug)]
pub struct PlayState {
    pub card_pick: CardSelect,
    pub play: Board,
    pub fin: Banner,
    pub state_stack: Vec<State>,
}

/// The mathematical content of the game.
pub struct PlayModel {
    pub card_pick: CardSelect,
    pub play: GameModel,
    pub fin: Banner,
    pub stack: Seq<State>,
}

impl View for PlayState {
    type V = PlayModel;

    open spec fn view(&self) -> PlayModel {
        PlayModel {
            card_pick: self.card_pick,
            play: self.play@,
            fin: self.fin,
            stack: self.state_stack@,
        }
    }
}

/// The catalogue holds the 110 cards of the ten levels, all of them valid.
pub open spec fn catalogue_ok(atlas: CardAtlas) -> bool {
    atlas.cards@.len() >= 110 && atlas.valid()
}

/// Every id of the hand drawn lies in an enabled level.
pub open spec fn drawn_from_pool(ids: Seq<usize>, levels: Seq<bool>) -> bool {
    ids.len() == 5 && forall|k: int| 0 <= k < 5 ==> in_pool(levels, (#[trigger] ids[k]) as int)
}

/// The depth of the search after a press on the difficulty entry: one
/// more, and from three on back to one.
pub open spec fn next_difficulty(current: usize) -> usize {
    if current >= 3 {
        1
    } else {
        (current + 1) as usize
    }
}

/// The stack of phases at the beginning of a game: the menu, beneath it the
/// toss, beneath that the round.
pub open spec fn opening_phases() -> Seq<State> {
    seq![State::Play, State::CoinFlip, State::Menu]
}

/// The stacks of phases that a game passes through.
pub enum Phases {
    /// No phase is left.
    Over,
    /// The round alone.
    Round,
    /// The banner above the round.
    Result,
    /// The toss above the round.
    Toss,
    /// The menu above the toss.
    Menu,
    /// Blue's choice of cards above the toss.
    Choice,
    /// Any other stack.
    Other,
}

/// Which of the stacks of a game the given stack is.
pub open spec fn phases(stack: Seq<State>) -> Phases {
    if stack.len() == 0 {
        Phases::Over
    } else if stack[0] != State::Play {
        Phases::Other
    } else if stack.len() == 1 {
        Phases::Round
    } else if stack.len() == 2 && stack[1] == State::Fin {
        Phases::Result
    } else if stack[1] != State::CoinFlip {
        Phases::Other
    } else if stack.len() == 2 {
        Phases::Toss
    } else if stack.len() == 3 && stack[2] == State::Menu {
        Phases::Menu
    } else if stack.len() == 3 && stack[2] == State::CardPick {
        Phases::Choice
    } else {
        Phases::Other
    }
}

impl PlayModel {
    /// The active phase.
    pub open spec fn top(self) -> State {
        self.stack.last()
    }

    /// The round while Blue chooses its cards: Red's hand is full, Blue's
    /// holds the cards chosen so far in its first slots, the board is
    /// empty, and the round waits above the deal.
    pub open spec fn picking(self) -> bool {
        &&& self.play.wf()
        &&& self.play.stack == opening_stack(Suit::Red).push(Phase::WaitingPick)
        &&& count_cards(self.play.red_hand.cards, 5) == 5
        &&& count_cards(self.play.cards, 9) == 0
        &&& self.card_pick.card_menu.count <= 4
        &&& forall|i: int|
            0 <= i < 5 ==> ((#[trigger] self.play.blue_hand.cards[i]) is Some <==> i
                < self.card_pick.card_menu.count)
        &&& self.play.blue_hand.selected is None
        &&& catalogue_ok(self.play.blue_hand.atlas)
    }

    /// The game is in a state that it can go on from. The stack of phases
    /// is empty, or one of those that a game passes through, and the round
    /// fits the active phase: in the menu the automated side rests and no
    /// card is chosen; while Blue chooses, the round waits; at the toss both
    /// hands are full and the board is empty; during the round play can go
    /// on.
    pub open spec fn wf(self) -> bool {
        &&& self.play.sound()
        &&& catalogue_ok(self.play.atlas)
        &&& self.card_pick.card_menu.wf()
        &&& match phases(self.stack) {
            Phases::Over => true,
            Phases::Round => self.play.wf(),
            Phases::Result => true,
            Phases::Toss => self.play.ready_to_start(),
            Phases::Menu => self.play.ai.idle() && self.card_pick.card_menu.count == 0,
            Phases::Choice => self.picking(),
            Phases::Other => false,
        }
    }

    /// The game after the menu's Play entry was pressed, where `elem` are
    /// the tiles drawn and `red_ids` and `blue_ids` the hands drawn: the
    /// round is cleared and Red is dealt its hand, face down. Under the
    /// Random rule Blue is dealt a hand too, face up, and the round begins
    /// with Red to move; else Blue goes on to choose its cards.
    pub open spec fn begun(
        self,
        elem: Seq<Option<ElementEntity>>,
        red_ids: Seq<usize>,
        blue_ids: Seq<usize>,
    ) -> PlayModel {
        let cleared = self.play.cleared(elem);
        let with_red = GameModel {
            red_hand: dealt_hand(Suit::Red, false, red_ids, self.play.atlas),
            ..cleared
        };
        if self.play.rules.random {
            PlayModel {
                play: GameModel {
                    blue_hand: dealt_hand(Suit::Blue, true, blue_ids, self.play.atlas),
                    ..with_red
                },
                stack: self.stack.drop_last().drop_last(),
                ..self
            }
        } else {
            PlayModel {
                play: GameModel { stack: with_red.stack.push(Phase::WaitingPick), ..with_red },
                stack: self.stack.drop_last().push(State::CardPick),
                ..self
            }
        }
    }

    /// What a press on an entry of the menu leads to, but for the Play
    /// entry. Quit empties the stack of phases; a rule entry switches the
    /// rule over; the difficulty entry moves the depth of the search on; a
    /// level entry switches the level on or off. Each comes with a sound.
    /// Anything else does nothing.
    pub open spec fn menu_pressed(self, entry: Event) -> (PlayModel, Option<Event>) {
        match entry {
            Event::Quit => (
                PlayModel { stack: Seq::empty(), ..self },
                Some(Event::PlaySound(Sfx::Cancel)),
            ),
            Event::ChangeRule(r) => (
                PlayModel {
                    play: GameModel { rules: toggled(self.play.rules, r), ..self.play },
                    ..self
                },
                Some(Event::PlaySound(Sfx::Select)),
            ),
            Event::ChangeDifficulty => (
                PlayModel {
                    play: GameModel {
                        ai: crate::ai::OpponentModel {
                            diffuculty: next_difficulty(self.play.ai.diffuculty),
                            ..self.play.ai
                        },
                        ..self.play
                    },
                    ..self
                },
                Some(Event::PlaySound(Sfx::Select)),
            ),
            Event::ToggleCards(n) => (
                PlayModel {
                    play: GameModel {
                        card_enabled: if n >= 10 || (crate::opponent::count_enabled(
                            self.play.card_enabled,
                            10,
                        ) <= 1 && self.play.card_enabled[n as int]) {
                            self.play.card_enabled
                        } else {
                            self.play.card_enabled.update(n as int, !self.play.card_enabled[n as int])
                        },
                        ..self.play
                    },
                    ..self
                },
                Some(Event::PlaySound(Sfx::Select)),
            ),
            _ => (self, None),
        }
    }

    /// The step of Blue's choice of cards. A card chosen is dealt into the
    /// next slot of Blue's hand, face up, with a sound; with the fifth card
    /// the choice ends and the round stops waiting. In a tick without a
    /// choice the round takes its own step, so that the cards dealt keep
    /// moving.
    pub open spec fn card_pick_step(self, input: PlayInput) -> (PlayModel, Option<Event>) {
        let (menu, chosen) = self.card_pick.card_menu.updated(
            input.board.left_pressed,
            input.pick_row,
            input.pick_nav,
        );
        let card_pick = CardSelect { card_menu: menu, ..self.card_pick };
        match chosen {
            Some((id, count)) => {
                let blue = HandModel {
                    cards: self.play.blue_hand.cards.update(
                        count as int,
                        Some(dealt_card(id as int, Suit::Blue, true, self.play.blue_hand.atlas)),
                    ),
                    ..self.play.blue_hand
                };
                let dealt = GameModel { blue_hand: blue, ..self.play };
                if count >= 4 {
                    (
                        PlayModel {
                            card_pick,
                            play: dealt.popped(),
                            stack: self.stack.drop_last(),
                            ..self
                        },
                        Some(Event::PlaySound(Sfx::Select)),
                    )
                } else {
                    (
                        PlayModel { card_pick, play: dealt, ..self },
                        Some(Event::PlaySound(Sfx::Select)),
                    )
                }
            },
            None => (PlayModel { card_pick, play: self.play.step(input.board).0, ..self }, None),
        }
    }

    /// The game after the toss gave `first` the first move: the round
    /// begins anew with the deal.
    pub open spec fn tossed(self, first: Suit) -> PlayModel {
        PlayModel {
            play: GameModel { stack: opening_stack(first), ..self.play },
            stack: self.stack.drop_last(),
            ..self
        }
    }

    /// The step of the banner.
    pub open spec fn fin_step(self, input: PlayInput) -> (PlayModel, Option<Event>) {
        let (fin, event) = self.fin.updated(input.board.left_pressed);
        (PlayModel { fin, ..self }, event)
    }

    /// Whether a tick can lead from this state of the game to `post` with
    /// the event `event`.
    ///
    /// With no phase left the game reports `Quit`. Else the active phase
    /// takes its step. The menu acts on the entry pressed. At the toss a
    /// coin decides who moves first. During the round, the round takes its
    /// step: a draw under the sudden-death rule resets the round and leads
    /// to another toss; any other result lights the banner; every other
    /// event of the round is passed on.
    pub open spec fn steps_to(self, input: PlayInput, post: PlayModel, event: Option<Event>) -> bool {
        if self.stack.len() == 0 {
            post == self && event == Some(Event::Quit)
        } else {
            match self.top() {
                State::Menu => match input.menu {
                    Some(Event::Play) => {
                        &&& tiles_drawn(post.play.elem, self.play.rules.elemental)
                        &&& exists|red_ids: Seq<usize>, blue_ids: Seq<usize>|
                            {
                                &&& drawn_from_pool(red_ids, self.play.card_enabled)
                                &&& drawn_from_pool(blue_ids, self.play.card_enabled)
                                &&& post == #[trigger] self.begun(post.play.elem, red_ids, blue_ids)
                            }
                        &&& event == Some(Event::PlaySound(Sfx::Select))
                    },
                    Some(entry) => (post, event) == self.menu_pressed(entry),
                    None => post == self && event is None,
                },
                State::CardPick => (post, event) == self.card_pick_step(input),
                State::CoinFlip => event is None && (post == self.tossed(Suit::Red) || post
                    == self.tossed(Suit::Blue)),
                State::Play => {
                    let (round, report) = self.play.step(input.board);
                    match report {
                        Some(Event::GameSummary(DuelOutcome::Draw, true)) => {
                            &&& tiles_drawn(post.play.elem, round.rules.elemental)
                            &&& post == (PlayModel {
                                play: round.reset_for_sudden_death(post.play.elem),
                                stack: self.stack.push(State::CoinFlip),
                                ..self
                            })
                            &&& event is None
                        },
                        Some(Event::GameSummary(outcome, _)) => {
                            &&& post == (PlayModel {
                                play: round,
                                fin: Banner { outcome, ..self.fin },
                                stack: self.stack.push(State::Fin),
                                ..self
                            })
                            &&& event is None
                        },
                        other => post == (PlayModel { play: round, ..self }) && event == other,
                    }
                },
                State::Fin => (post, event) == self.fin_step(input),
            }
        }
    }
}

impl PlayState {
    /// The game is in a state that it can go on from.
    pub open spec fn wf(&self) -> bool {
        self@.wf()
    }

    /// A game that has not been set up yet: `init` does that.
    pub fn new(card_atlas: &Rc<CardAtlas>) -> (res: PlayState)
        ensures
            res@ == (PlayModel {
                card_pick: CardSelect {
                    card_menu: PickMenu { active: true, page: 0, pages: 0, count: 0 },
                    active: true,
                },
                play: GameModel::initial(**card_atlas),
                fin: Banner { started: false, outcome: DuelOutcome::Draw },
                stack: seq![State::Play],
            }),
    {
        let mut state_stack = Vec::new();
        state_stack.push(State::Play);
        assert(state_stack@ =~= seq![State::Play]);
        PlayState {
            card_pick: CardSelect::new(),
            play: Board::empty(card_atlas),
            fin: Banner::new(),
            state_stack,
        }
    }

    /// Sets the game up from the beginning: a round with nothing dealt and
    /// every optional rule off, and the menu as the active phase.
    pub fn init(&mut self)
        requires
            catalogue_ok(old(self)@.play.atlas),
            old(self)@.card_pick.card_menu.wf(),
        ensures
            final(self)@ == (PlayModel {
                card_pick: CardSelect {
                    card_menu: PickMenu { count: 0, ..old(self)@.card_pick.card_menu },
                    ..old(self)@.card_pick
                },
                play: GameModel {
                    combo_message: old(self)@.play.combo_message,
                    ..GameModel::initial(old(self)@.play.atlas)
                },
                fin: Banner { started: false, outcome: DuelOutcome::Draw },
                stack: opening_phases(),
            }),
            final(self).wf(),
    {
        self.play.init();
        self.card_pick.init();
        self.state_stack.clear();
        self.fin.init();
        self.state_stack.push(State::Play);
        self.state_stack.push(State::CoinFlip);
        self.state_stack.push(State::Menu);
        assert(self.state_stack@ =~= opening_phases());
        proof {
            crate::opponent::lemma_all_enabled(self@.play.card_enabled, 10);
        }
    }

    /// Clears the round for a new one and leaves the toss and the round on
    /// the stack of phases. With no card dealt the game cannot go on from
    /// there: `init` sets it up.
    pub fn clear(&mut self)
        ensures
            tiles_drawn(final(self)@.play.elem, old(self)@.play.rules.elemental),
            final(self)@ == (PlayModel {
                play: old(self)@.play.cleared(final(self)@.play.elem),
                stack: seq![State::Play, State::CoinFlip],
                ..old(self)@
            }),
    {
        self.state_stack.clear();
        self.play.clear();
        self.state_stack.push(State::Play);
        self.state_stack.push(State::CoinFlip);
        assert(self.state_stack@ =~= seq![State::Play, State::CoinFlip]);
    }

    /// Which side's turn marker is lit: Red's, Blue's.
    pub fn turn_marker_status(&self) -> (res: [bool; 2])
        ensures
            res[0] == (self@.play.stack.len() > 0 && self@.play.top() is RedPlayerTurn),
            res[1] == (self@.play.stack.len() > 0 && self@.play.top() is BluePlayerTurn),
    {
        self.play.turn_marker_status()
    }
    /// Whether the round waits as it should while Blue chooses its cards.
    fn is_picking(&self) -> (res: bool)
        ensures
            res == self@.picking(),
    {
        if !self.play.is_wf() || self.play.state_stack.len() != 4 {
            return false;
        }
        let stacked = match (
            self.play.state_stack[0],
            self.play.state_stack[1],
            self.play.state_stack[2],
            self.play.state_stack[3],
        ) {
            (
                Phase::Finish,
                Phase::RedPlayerTurn(TurnPhase::Pick),
                Phase::Start,
                Phase::WaitingPick,
            ) => true,
            _ => false,
        };
        proof {
            if stacked {
                assert(self@.play.stack =~= opening_stack(Suit::Red).push(Phase::WaitingPick));
            } else {
                assert(opening_stack(Suit::Red).push(Phase::WaitingPick)[0] == Phase::Finish);
                assert(opening_stack(Suit::Red).push(Phase::WaitingPick)[1] == Phase::RedPlayerTurn(
                    TurnPhase::Pick,
                ));
                assert(opening_stack(Suit::Red).push(Phase::WaitingPick)[2] == Phase::Start);
                assert(opening_stack(Suit::Red).push(Phase::WaitingPick)[3] == Phase::WaitingPick);
            }
        }
        if !stacked {
            return false;
        }
        let count = self.card_pick.card_menu.count;
        if count > 4 || self.play.blue_hand.selected.is_some() {
            return false;
        }
        let mut i: usize = 0;
        while i < 5
            invariant
                i <= 5,
                count == self@.card_pick.card_menu.count,
                forall|k: int|
                    0 <= k < i ==> ((#[trigger] self@.play.blue_hand.cards[k]) is Some <==> k
                        < count),
            decreases 5 - i,
        {
            if self.play.blue_hand.cards[i].is_some() != (i < count as usize) {
                return false;
            }
            i += 1;
        }
        let on_board = crate::board::wellformed::count_row(&self.play.playing_field.cards);
        self.play.red_hand.count() == 5 && on_board.0 == 0
            && self.play.blue_hand.card_atlas.cards.len() >= 110
            && self.play.blue_hand.card_atlas.is_valid()
    }

    /// Whether everything is in place for the deal.
    fn is_ready_to_start(&self) -> (res: bool)
        ensures
            res == self@.play.ready_to_start(),
    {
        let on_board = crate::board::wellformed::count_row(&self.play.playing_field.cards);
        self.play.is_sound() && self.play.red_hand.count() == 5 && self.play.blue_hand.count() == 5
            && on_board.0 == 0 && self.play.opponent.ai.is_idle()
            && self.play.red_hand.selected.is_none() && self.play.blue_hand.selected.is_none()
    }

    /// Whether the game is in a state that it can go on from.
    pub fn is_wf(&self) -> (res: bool)
        ensures
            res == self.wf(),
    {
        if !(self.play.is_sound() && self.play.card_atlas.cards.len() >= 110
            && self.play.card_atlas.is_valid() && self.card_pick.card_menu.page < PAGES) {
            return false;
        }
        let len = self.state_stack.len();
        if len == 0 {
            return true;
        }
        match self.state_stack[0] {
            State::Play => {},
            _ => {
                return false;
            },
        }
        if len == 1 {
            return self.play.is_wf();
        }
        match self.state_stack[1] {
            State::Fin => {
                if len == 2 {
                    return true;
                }
                return false;
            },
            State::CoinFlip => {},
            _ => {
                return false;
            },
        }
        if len == 2 {
            return self.is_ready_to_start();
        }
        if len != 3 {
            return false;
        }
        match self.state_stack[2] {
            State::Menu => self.play.opponent.ai.is_idle() && self.card_pick.card_menu.count == 0,
            State::CardPick => self.is_picking(),
            _ => false,
        }
    }

    /// Deals a hand drawn from the enabled levels to the given side.
    fn deal(&mut self, side: Suit, open: bool) -> (ids: Ghost<Seq<usize>>)
        requires
            catalogue_ok(old(self)@.play.atlas),
            old(self).play.opponent.wf(),
        ensures
            drawn_from_pool(ids@, old(self)@.play.card_enabled),
            final(self)@ == (PlayModel {
                play: match side {
                    Suit::Red => GameModel {
                        red_hand: dealt_hand(side, open, ids@, old(self)@.play.atlas),
                        ..old(self)@.play
                    },
                    Suit::Blue => GameModel {
                        blue_hand: dealt_hand(side, open, ids@, old(self)@.play.atlas),
                        ..old(self)@.play
                    },
                },
                ..old(self)@
            }),
    {
        let ids = self.play.opponent.new_hand();
        let hand = Hand::from_ids(side, open, &ids, &self.play.card_atlas);
        match side {
            Suit::Red => {
                self.play.red_hand = hand;
            },
            Suit::Blue => {
                self.play.blue_hand = hand;
            },
        }
        Ghost(ids@)
    }

    /// The step of the menu for its Play entry.
    fn begin_round(&mut self, input: &PlayInput) -> (event: Option<Event>)
        requires
            old(self).wf(),
            old(self)@.stack.len() > 0,
            old(self)@.top() == State::Menu,
            input.menu == Some(Event::Play),
        ensures
            old(self)@.steps_to(*input, final(self)@, event),
            final(self).wf(),
    {
        self.play.clear();
        let red_ids = self.deal(Suit::Red, false);
        self.state_stack.pop();
        let ghost dealt = self@;
        proof {
            lemma_count_cards_uniform(dealt.play.red_hand.cards, 5);
            lemma_count_cards_uniform(dealt.play.blue_hand.cards, 5);
            lemma_count_cards_uniform(dealt.play.cards, 9);
            lemma_dealt_hand_sound(Suit::Red, false, red_ids@, dealt.play.atlas);
            assert(dealt.stack =~= seq![State::Play, State::CoinFlip]);
            assert(dealt.play.sound());
        }
        if self.play.rules.random {
            let blue_ids = self.deal(Suit::Blue, true);
            self.state_stack.pop();
            proof {
                lemma_count_cards_uniform(self@.play.blue_hand.cards, 5);
                lemma_dealt_hand_sound(Suit::Blue, true, blue_ids@, dealt.play.atlas);
                assert(self@.stack =~= seq![State::Play]);
                assert(self@.play.ready_to_start());
                lemma_opening_is_wf(self@.play, Suit::Red);
                assert(self@ == old(self)@.begun(self@.play.elem, red_ids@, blue_ids@));
            }
        } else {
            self.play.wait_for_pick();
            self.state_stack.push(State::CardPick);
            proof {
                assert(self@.stack =~= seq![State::Play, State::CoinFlip, State::CardPick]);
                assert(self@.play.stack =~= seq![
                    crate::board::model::State::Finish,
                    crate::board::model::State::RedPlayerTurn(TurnPhase::Pick),
                    crate::board::model::State::Start,
                    crate::board::model::State::WaitingPick,
                ]);
                assert(self@.play.wf());
                assert(self@.picking());
                assert(self@ == old(self)@.begun(self@.play.elem, red_ids@, red_ids@));
            }
        }
        Some(Event::PlaySound(Sfx::Select))
    }

    /// The step of the menu for the entry pressed, if any.
    fn update_menu(&mut self, input: &PlayInput) -> (event: Option<Event>)
        requires
            old(self).wf(),
            old(self)@.stack.len() > 0,
            old(self)@.top() == State::Menu,
        ensures
            old(self)@.steps_to(*input, final(self)@, event),
            final(self).wf(),
    {
        match input.menu {
            Some(Event::Play) => self.begin_round(input),
            Some(Event::Quit) => {
                self.state_stack.clear();
                Some(Event::PlaySound(Sfx::Cancel))
            },
            Some(Event::ChangeRule(r)) => {
                self.play.toggle_rule(r);
                Some(Event::PlaySound(Sfx::Select))
            },
            Some(Event::ChangeDifficulty) => {
                let curr = self.play.opponent.difficulty();
                let d = if curr >= 3 {
                    1
                } else {
                    curr + 1
                };
                self.play.opponent.set_difficulty(d);
                Some(Event::PlaySound(Sfx::Select))
            },
            Some(Event::ToggleCards(n)) => {
                if n < 10 {
                    self.play.opponent.toogle_cards(n);
                }
                Some(Event::PlaySound(Sfx::Select))
            },
            _ => None,
        }
    }

    /// The step of Blue's choice of cards.
    fn pick_cards(&mut self, input: &PlayInput) -> (event: Option<Event>)
        requires
            old(self).wf(),
            old(self)@.stack.len() > 0,
            old(self)@.top() == State::CardPick,
        ensures
            final(self)@ == old(self)@.card_pick_step(*input).0,
            event == old(self)@.card_pick_step(*input).1,
            final(self).wf(),
    {
        match self.card_pick.update(input.board.left_pressed, input.pick_row, input.pick_nav) {
            Some((id, count)) => {
                self.play.blue_hand.add_card(id, count, true);
                let ghost dealt = self@;
                proof {
                    assert(dealt.play.blue_hand.cards[count as int].unwrap().wf());
                    assert(dealt.play.sound());
                }
                if count >= 4 {
                    self.state_stack.pop();
                    self.play.next_state();
                    proof {
                        lemma_count_cards_uniform(self@.play.blue_hand.cards, 5);
                        assert(self@.play.stack =~= opening_stack(Suit::Red));
                        assert(self@.stack =~= seq![State::Play, State::CoinFlip]);
                        assert(self@.play.ready_to_start());
                    }
                } else {
                    proof {
                        assert(self@.play.wf());
                        assert(self@.picking());
                    }
                }
                Some(Event::PlaySound(Sfx::Select))
            },
            None => {
                proof {
                    lemma_waiting_step(old(self)@.play, input.board);
                }
                self.play.update(&input.board);
                proof {
                    assert(self@.picking());
                }
                None
            },
        }
    }

    /// The step of the round, with what follows from its result.
    fn play_round(&mut self, input: &PlayInput) -> (event: Option<Event>)
        requires
            old(self).wf(),
            old(self)@.stack.len() > 0,
            old(self)@.top() == State::Play,
        ensures
            old(self)@.steps_to(*input, final(self)@, event),
            final(self).wf(),
    {
        let report = self.play.update(&input.board);
        proof {
            lemma_summary_at_finish(old(self)@.play, input.board);
        }
        match report {
            Some(Event::GameSummary(DuelOutcome::Draw, true)) => {
                self.play.deal_sunnden_death();
                self.state_stack.push(State::CoinFlip);
                assert(self@.stack =~= seq![State::Play, State::CoinFlip]);
                None
            },
            Some(Event::GameSummary(outcome, _)) => {
                self.fin.outcome = outcome;
                self.state_stack.push(State::Fin);
                assert(self@.stack =~= seq![State::Play, State::Fin]);
                None
            },
            other => other,
        }
    }

    /// The step of the toss.
    fn toss(&mut self)
        requires
            old(self).wf(),
            old(self)@.stack.len() > 0,
            old(self)@.top() == State::CoinFlip,
        ensures
            final(self)@ == old(self)@.tossed(Suit::Red) || final(self)@ == old(self)@.tossed(
                Suit::Blue,
            ),
            final(self).wf(),
    {
        self.play.first_turn(CoinFlip::first());
        self.state_stack.pop();
        assert(self@.stack =~= seq![State::Play]);
    }

    /// One tick of the game.
    pub fn update(&mut self, input: &PlayInput) -> (event: Option<Event>)
        requires
            old(self).wf(),
        ensures
            old(self)@.steps_to(*input, final(self)@, event),
            final(self).wf(),
    {
        if self.state_stack.len() == 0 {
            return Some(Event::Quit);
        }
        match self.state_stack[self.state_stack.len() - 1] {
            State::Menu => self.update_menu(input),
            State::CardPick => self.pick_cards(input),
            State::CoinFlip => {
                self.toss();
                None
            },
            State::Play => self.play_round(input),
            State::Fin => self.fin.update(input.board.left_pressed),
        }
    }
}

/// A hand freshly dealt from valid cards of the catalogue is sound, and
/// full if five cards were dealt.
pub proof fn lemma_dealt_hand_sound(side: Suit, open: bool, ids: Seq<usize>, atlas: CardAtlas)
    requires
        ids.len() <= 5,
        forall|n: int|
            0 <= n < ids.len() ==> (#[trigger] ids[n]) < atlas.cards@.len() && atlas.cards@[ids[n] as int].valid(),
    ensures
        dealt_hand(side, open, ids, atlas).wf(),
        crate::board::model::hand_owned(dealt_hand(side, open, ids, atlas).cards, side),
        forall|n: int|
            0 <= n < 5 ==> ((#[trigger] dealt_hand(side, open, ids, atlas).cards[n]) is Some <==> n
                < ids.len()),
{
    let hand = dealt_hand(side, open, ids, atlas);
    assert forall|i: int| 0 <= i < hand.cards.len() implies match #[trigger] hand.cards[i] {
        Some(card) => card.wf(),
        None => true,
    } by {
        if i < ids.len() {
            assert(ids[i] < atlas.cards@.len() && atlas.cards@[ids[i] as int].valid());
        }
    }
}

/// While Blue chooses its cards, a tick of the round moves the animations
/// on and nothing else.
pub proof fn lemma_waiting_step(g: GameModel, input: Input)
    requires
        g.wf(),
        g.top() == Phase::WaitingPick,
    ensures
        g.step(input).0 == g.animated(input),
        g.step(input).0.stack == g.stack,
        g.step(input).0.ai == g.ai,
        g.step(input).0.atlas == g.atlas,
        g.step(input).0.blue_hand.atlas == g.blue_hand.atlas,
        g.step(input).0.blue_hand.selected == g.blue_hand.selected,
        count_cards(g.step(input).0.red_hand.cards, 5) == count_cards(g.red_hand.cards, 5),
        count_cards(g.step(input).0.cards, 9) == count_cards(g.cards, 9),
        forall|i: int|
            0 <= i < 5 ==> ((#[trigger] g.step(input).0.blue_hand.cards[i]) is Some
                <==> g.blue_hand.cards[i] is Some),
{
    crate::board::soundness::lemma_ticked_all(g.cards, input.field@);
    crate::board::soundness::lemma_ticked_all(g.red_hand.cards, input.red@);
    crate::board::soundness::lemma_ticked_all(g.blue_hand.cards, input.blue@);
    crate::board::soundness::lemma_layout_counts(g.animated(input).cards, g.cards, 9);
    crate::board::soundness::lemma_layout_counts(
        g.animated(input).red_hand.cards,
        g.red_hand.cards,
        5,
    );
}

/// The round reports its result only from its last phase, and that phase
/// changes nothing but the animations.
pub proof fn lemma_summary_at_finish(g: GameModel, input: Input)
    requires
        g.wf(),
    ensures
        g.step(input).1 is Some && g.step(input).1.unwrap() is GameSummary ==> g.top()
            == Phase::Finish && g.step(input).0 == g.animated(input),
{
}

} // verus!
