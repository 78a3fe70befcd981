//! The turn of the automated side: a queue of actions worked off tick by
//! tick. Each card of the hand is tried in a search of its own, which runs
//! away from the interactive loop; the best move found is then played.

use vstd::prelude::*;
use crate::cards::Rules;
use crate::entity::{all_wf, simples, tile_elements, CardEntity, ElementEntity};
use crate::hand::{count_cards, Hand, HandModel};
use crate::opponent::AiEvent;
use crate::search::{best_move, solve, Move};
use crate::snapshot::{BoardModel, BoardSimple};

verus! {

/// The pause after each visible step of the automated side, in
/// microseconds.
pub const TIMEOUT: i64 = 1_000_000;

/// A step of the automated side's turn.
#[derive(Clone, Copy, Debug, PartialEq, Eq, Structural)]
pub enum Action {
    /// Search the placements of the card in this hand slot.
    Check(usize),
    /// Play the card of this hand slot on this cell.
    Put(usize, usize),
    /// Settle on the best move that the searches have found.
    PutBest,
}

/// Where the search that runs beside the interactive loop stands.
#[derive(Clone, Copy, Debug, PartialEq, Eq, Structural)]
pub enum ThreadStatus {
    /// No search is under way and no result awaits collection.
    Waiting,
    /// A search is under way.
    Active,
    /// A search has delivered its result.
    Finished,
}

/// A search to be run: the hand slot whose card is to be placed, the
/// snapshot to search, and the depth.
#[derive(Clone, Copy, Debug)]
pub struct SearchJob {
    pub slot: usize,
    pub board: BoardSimple,
    pub depth: usize,
}

/// The mathematical content of a search job.
pub struct JobModel {
    pub slot: usize,
    pub board: BoardModel,
    pub depth: usize,
}

impl View for SearchJob {
    type V = JobModel;

    open spec fn view(&self) -> JobModel {
        JobModel { slot: self.slot, board: self.board@, depth: self.depth }
    }
}

impl SearchJob {
    /// The job can be run: the snapshot can be searched, the slot holds a
    /// card of Red, and the depth is at least one.
    pub open spec fn wf(&self) -> bool {
        &&& self.board.wf()
        &&& self.slot < 5
        &&& self.board@.red_hand[self.slot as int] is Some
        &&& self.depth >= 1
    }

    /// Whether the job can be run.
    pub fn runnable(&self) -> (res: bool)
        ensures
            res == self.wf(),
    {
        if !(self.slot < 5 && self.depth >= 1) {
            return false;
        }
        if self.board.red_hand[self.slot].is_none() {
            return false;
        }
        let mut i: usize = 0;
        while i < 5
            invariant
                i <= 5,
                forall|k: int|
                    0 <= k < i ==> match #[trigger] self.board.red_hand[k] {
                        Some(card) => card.rank_elem.can_rise(),
                        None => true,
                    },
                forall|k: int|
                    0 <= k < i ==> match #[trigger] self.board.blue_hand[k] {
                        Some(card) => card.rank_elem.can_rise(),
                        None => true,
                    },
            decreases 5 - i,
        {
            if let Some(card) = self.board.red_hand[i] {
                if !(card.rank_elem.t < u8::MAX && card.rank_elem.b < u8::MAX && card.rank_elem.l
                    < u8::MAX && card.rank_elem.r < u8::MAX) {
                    return false;
                }
            }
            if let Some(card) = self.board.blue_hand[i] {
                if !(card.rank_elem.t < u8::MAX && card.rank_elem.b < u8::MAX && card.rank_elem.l
                    < u8::MAX && card.rank_elem.r < u8::MAX) {
                    return false;
                }
            }
            i += 1;
        }
        true
    }

    /// Runs the search.
    pub fn run(&self) -> (found: Move)
        requires
            self.wf(),
        ensures
            found == best_move(self@.board, self@.slot as int, self@.depth as nat),
    {
        solve(self.slot, &self.board, self.depth)
    }
}

/// The automated side's turn in progress.
#[derive(Debug)]
pub struct Opponent {
    /// How many placements the search looks ahead.
    pub diffuculty: usize,
    /// The steps still to take; the last one is the next.
    pub actions: Vec<Action>,
    /// The best move that the searches of this turn have found so far.
    pub maybe_move: Option<Move>,
    /// The rest of the pause, in microseconds; negative once it is over.
    pub timer: i64,
    /// The result of the last search.
    pub solve_result: Move,
    pub thread_status: ThreadStatus,
    /// The search that is to be started beside the interactive loop.
    pub job: Option<SearchJob>,
}

/// The mathematical content of the automated side's turn.
pub struct OpponentModel {
    pub diffuculty: usize,
    pub actions: Seq<Action>,
    pub maybe_move: Option<Move>,
    pub timer: i64,
    pub solve_result: Move,
    pub thread_status: ThreadStatus,
    pub job: Option<JobModel>,
}

impl View for Opponent {
    type V = OpponentModel;

    open spec fn view(&self) -> OpponentModel {
        OpponentModel {
            diffuculty: self.diffuculty,
            actions: self.actions@,
            maybe_move: self.maybe_move,
            timer: self.timer,
            solve_result: self.solve_result,
            thread_status: self.thread_status,
            job: match self.job {
                Some(job) => Some(job@),
                None => None,
            },
        }
    }
}

/// What one tick of thinking leads to.
pub struct Thought {
    pub ai: OpponentModel,
    pub red_hand: HandModel,
    pub event: Option<AiEvent>,
}

/// The pause after `dt` more microseconds. Once it is over it stays at -1.
pub open spec fn cooled(timer: i64, dt: u32) -> i64 {
    if timer - dt < -1 {
        -1i64
    } else {
        (timer - dt) as i64
    }
}

/// The queue of a new turn after the slots from 4 down to `upto` have been
/// looked at: first `PutBest`, then a `Check` for every slot that holds a
/// card. The queue is worked off from its end, so the lowest slot is
/// searched first and `PutBest` comes last.
pub open spec fn queued(cards: Seq<Option<CardEntity>>, upto: int) -> Seq<Action>
    decreases 5 - upto,
{
    if upto >= 5 {
        seq![Action::PutBest]
    } else if cards[upto] is Some {
        queued(cards, upto + 1).push(Action::Check(upto as usize))
    } else {
        queued(cards, upto + 1)
    }
}

/// The better of the best move so far and a new result: the new one only if
/// there was none before or its score is strictly higher.
pub open spec fn better_move(best: Option<Move>, found: Move) -> Move {
    match best {
        Some(m) => if found.score > m.score { found } else { m },
        None => found,
    }
}

/// A move can be played: its slot holds a card and its cell is empty.
pub open spec fn playable_move(
    from: usize,
    to: usize,
    red: Seq<Option<CardEntity>>,
    field: Seq<Option<CardEntity>>,
) -> bool {
    from < 5 && red[from as int] is Some && to < 9 && field[to as int] is None
}

/// The snapshot that a search is given.
pub open spec fn snapshot(
    red: HandModel,
    blue: HandModel,
    field: Seq<Option<CardEntity>>,
    elem: Seq<Option<ElementEntity>>,
    rules: Rules,
) -> BoardModel {
    BoardModel {
        red_hand: simples(red.cards),
        blue_hand: simples(blue.cards),
        cards: simples(field),
        tiles: tile_elements(elem),
        rules,
    }
}

impl OpponentModel {
    /// The state of a new automated side: depth one, nothing queued, no
    /// pause, no search.
    pub open spec fn fresh() -> OpponentModel {
        OpponentModel {
            diffuculty: 1,
            actions: Seq::empty(),
            maybe_move: None,
            timer: 0,
            solve_result: Move { from: 0, to: 0, score: 0 },
            thread_status: ThreadStatus::Waiting,
            job: None,
        }
    }

    /// Between two turns: nothing is queued and no search is under way.
    pub open spec fn idle(self) -> bool {
        &&& self.diffuculty >= 1
        &&& -1 <= self.timer <= TIMEOUT
        &&& self.actions.len() == 0
        &&& self.thread_status == ThreadStatus::Waiting
    }

    /// The state fits Red's hand and the board, so that thinking can go on:
    /// the queue is empty and the hand holds a card; or it is a single
    /// `Put` of a playable move; or it is `PutBest` followed by `Check`s of
    /// slots that hold cards, where every move kept is playable, a search
    /// is only under way or delivered while a `Check` is next, and a best
    /// move has been found once no `Check` is left.
    pub open spec fn ready(self, red: HandModel, field: Seq<Option<CardEntity>>) -> bool {
        &&& self.diffuculty >= 1
        &&& -1 <= self.timer <= TIMEOUT
        &&& red.selected is None
        &&& if self.actions.len() == 0 {
            self.thread_status == ThreadStatus::Waiting && count_cards(red.cards, 5) > 0
        } else if self.actions.len() == 1 && self.actions[0] is Put {
            &&& self.thread_status == ThreadStatus::Waiting
            &&& playable_move(self.actions[0]->Put_0, self.actions[0]->Put_1, red.cards, field)
        } else {
            &&& self.actions[0] == Action::PutBest
            &&& forall|j: int|
                1 <= j < self.actions.len() ==> (#[trigger] self.actions[j]) is Check
                    && self.actions[j]->Check_0 < 5 && red.cards[self.actions[j]->Check_0 as int] is Some
            &&& self.actions.len() == 1 ==> self.maybe_move is Some && self.thread_status
                == ThreadStatus::Waiting
            &&& match self.maybe_move {
                Some(m) => playable_move(m.from, m.to, red.cards, field),
                None => true,
            }
            &&& self.thread_status == ThreadStatus::Finished ==> playable_move(
                self.solve_result.from,
                self.solve_result.to,
                red.cards,
                field,
            )
        }
    }

    /// One tick of thinking.
    ///
    /// Nothing happens while the pause lasts or a search is under way. When
    /// nothing is queued, a new turn is planned. Then the next action is
    /// taken: a `Check` starts the search for its slot, or collects its
    /// result once delivered and keeps the better move; `PutBest` turns the
    /// best move into a `Put`; a `Put` selects the card and asks for it to
    /// be placed.
    pub open spec fn think(
        self,
        dt: u32,
        red: HandModel,
        blue: HandModel,
        field: Seq<Option<CardEntity>>,
        elem: Seq<Option<ElementEntity>>,
        rules: Rules,
    ) -> Thought {
        let waited = OpponentModel { timer: cooled(self.timer, dt), ..self };
        if waited.timer >= 0 || self.thread_status == ThreadStatus::Active {
            Thought { ai: waited, red_hand: red, event: None }
        } else if self.actions.len() == 0 {
            (OpponentModel { maybe_move: None, actions: queued(red.cards, 0), ..waited }).act(
                red,
                blue,
                field,
                elem,
                rules,
            )
        } else {
            waited.act(red, blue, field, elem, rules)
        }
    }

    /// The next action of the queue, taken.
    pub open spec fn act(
        self,
        red: HandModel,
        blue: HandModel,
        field: Seq<Option<CardEntity>>,
        elem: Seq<Option<ElementEntity>>,
        rules: Rules,
    ) -> Thought {
        match self.actions.last() {
            Action::Check(i) => match self.thread_status {
                ThreadStatus::Waiting => Thought {
                    ai: OpponentModel {
                        thread_status: ThreadStatus::Active,
                        solve_result: Move { from: 0, to: 0, score: 0 },
                        job: Some(
                            JobModel {
                                slot: i,
                                board: snapshot(red, blue, field, elem, rules),
                                depth: self.diffuculty,
                            },
                        ),
                        timer: TIMEOUT,
                        ..self
                    },
                    red_hand: red.focused_on(i),
                    event: Some(AiEvent::Focus),
                },
                ThreadStatus::Active => Thought { ai: self, red_hand: red, event: None },
                ThreadStatus::Finished => Thought {
                    ai: OpponentModel {
                        thread_status: ThreadStatus::Waiting,
                        maybe_move: Some(better_move(self.maybe_move, self.solve_result)),
                        actions: self.actions.drop_last(),
                        ..self
                    },
                    red_hand: red,
                    event: None,
                },
            },
            Action::Put(from, to) => Thought {
                ai: OpponentModel { actions: Seq::empty(), ..self },
                red_hand: red.focused_on(from).selecting(red.focused_on(from).focus.unwrap()),
                event: Some(AiEvent::Put(to)),
            },
            Action::PutBest => Thought {
                ai: OpponentModel {
                    timer: TIMEOUT,
                    actions: self.actions.drop_last().push(
                        Action::Put(self.maybe_move.unwrap().from, self.maybe_move.unwrap().to),
                    ),
                    ..self
                },
                red_hand: red.focused_on(self.maybe_move.unwrap().from),
                event: Some(AiEvent::Focus),
            },
        }
    }
}

/// While a search is under way no other is asked for: thinking leaves the
/// search, the queue and the hand as they are, however much time has
/// passed.
pub proof fn lemma_one_search_at_a_time(
    ai: OpponentModel,
    dt: u32,
    red: HandModel,
    blue: HandModel,
    field: Seq<Option<CardEntity>>,
    elem: Seq<Option<ElementEntity>>,
    rules: Rules,
)
    requires
        ai.thread_status == ThreadStatus::Active,
    ensures
        ai.think(dt, red, blue, field, elem, rules).ai == (OpponentModel {
            timer: cooled(ai.timer, dt),
            ..ai
        }),
        ai.think(dt, red, blue, field, elem, rules).red_hand == red,
        ai.think(dt, red, blue, field, elem, rules).event is None,
{
}

/// The queue of a new turn begins with `PutBest`, holds after it only
/// `Check`s of slots that hold cards, and has such a `Check` if the hand
/// holds a card at all.
pub proof fn lemma_queued(cards: Seq<Option<CardEntity>>, upto: int)
    requires
        cards.len() == 5,
        0 <= upto <= 5,
    ensures
        queued(cards, upto).len() >= 1,
        queued(cards, upto)[0] == Action::PutBest,
        forall|j: int|
            1 <= j < queued(cards, upto).len() ==> (#[trigger] queued(cards, upto)[j]) is Check
                && queued(cards, upto)[j]->Check_0 < 5 && cards[queued(
                cards,
                upto,
            )[j]->Check_0 as int] is Some,
        (exists|i: int| upto <= i < 5 && cards[i] is Some) ==> queued(cards, upto).len() >= 2,
    decreases 5 - upto,
{
    if upto < 5 {
        lemma_queued(cards, upto + 1);
    }
}

/// A hand that counts at least one card holds a card.
pub proof fn lemma_counted_card(cards: Seq<Option<CardEntity>>, upto: int)
    requires
        0 <= upto <= cards.len(),
        count_cards(cards, upto) > 0,
    ensures
        exists|i: int| 0 <= i < upto && cards[i] is Some,
    decreases upto,
{
    if cards[upto - 1] is None {
        lemma_counted_card(cards, upto - 1);
        let i = choose|i: int| 0 <= i < upto - 1 && cards[i] is Some;
        assert(0 <= i < upto && cards[i] is Some);
    } else {
        assert(0 <= upto - 1 < upto && cards[upto - 1] is Some);
    }
}

impl Opponent {
    /// A new automated side.
    pub fn new() -> (res: Opponent)
        ensures
            res@ == OpponentModel::fresh(),
    {
        let res = Opponent {
            diffuculty: 1,
            actions: Vec::new(),
            maybe_move: None,
            timer: 0,
            solve_result: Move::new(),
            thread_status: ThreadStatus::Waiting,
            job: None,
        };
        assert(res@.actions =~= Seq::empty());
        res
    }

    /// Sets how many placements the search looks ahead, at most five.
    pub fn diffuculty(&mut self, value: usize)
        ensures
            final(self)@ == (OpponentModel {
                diffuculty: if value <= 5 { value } else { 5 },
                ..old(self)@
            }),
    {
        self.diffuculty = if value <= 5 { value } else { 5 };
    }

    /// Hands out the search that is to be started, if there is one.
    pub fn take_job(&mut self) -> (job: Option<SearchJob>)
        ensures
            job == old(self).job,
            final(self)@ == (OpponentModel { job: None, ..old(self)@ }),
    {
        self.job.take()
    }

    /// Takes delivery of the result of the search under way.
    pub fn finish_search(&mut self, result: Move)
        requires
            old(self).thread_status == ThreadStatus::Active,
        ensures
            final(self)@ == (OpponentModel {
                thread_status: ThreadStatus::Finished,
                solve_result: result,
                ..old(self)@
            }),
    {
        self.solve_result = result;
        self.thread_status = ThreadStatus::Finished;
    }

    /// Gives up the search under way, so that it is started again.
    pub fn abandon_search(&mut self)
        requires
            old(self).thread_status == ThreadStatus::Active,
        ensures
            final(self)@ == (OpponentModel { thread_status: ThreadStatus::Waiting, ..old(self)@ }),
    {
        self.thread_status = ThreadStatus::Waiting;
    }

    /// One tick of thinking, `dt` microseconds after the last.
    pub fn think(
        &mut self,
        dt: u32,
        red_hand: &mut Hand,
        blue_hand: &mut Hand,
        field: &[Option<CardEntity>; 9],
        elem: &[Option<ElementEntity>; 9],
        rules: &Rules,
    ) -> (event: Option<AiEvent>)
        requires
            old(self)@.ready(old(red_hand)@, field@),
            old(red_hand).wf(),
            old(blue_hand).wf(),
            all_wf(field@),
        ensures
            ({
                let thought = old(self)@.think(
                    dt,
                    old(red_hand)@,
                    old(blue_hand)@,
                    field@,
                    elem@,
                    *rules,
                );
                &&& final(self)@ == thought.ai
                &&& final(red_hand)@ == thought.red_hand
                &&& event == thought.event
            }),
            final(blue_hand)@ == old(blue_hand)@,
            final(red_hand).wf(),
            match event {
                Some(AiEvent::Put(to)) => {
                    &&& final(self)@.idle()
                    &&& final(red_hand)@.selected is Some
                    &&& to < 9
                    &&& field[to as int] is None
                },
                _ => final(self)@.ready(final(red_hand)@, field@),
            },
            match final(self).job {
                Some(job) => final(self)@.job != old(self)@.job ==> job.wf(),
                None => true,
            },
    {
        let left: i64 = self.timer - dt as i64;
        self.timer = if left < -1 { -1 } else { left };
        if self.timer >= 0 {
            return None;
        }
        match self.thread_status {
            ThreadStatus::Active => {
                return None;
            },
            _ => {},
        }
        let board = BoardSimple::new(red_hand, blue_hand, field, elem, rules);
        if self.actions.len() == 0 {
            self.maybe_move = None;
            self.actions.push(Action::PutBest);
            assert(self.actions@ =~= queued(red_hand@.cards, 5));
            let mut i: usize = 5;
            while i > 0
                invariant
                    i <= 5,
                    self@ == (OpponentModel {
                        maybe_move: None,
                        timer: cooled(old(self)@.timer, dt),
                        actions: queued(red_hand@.cards, i as int),
                        ..old(self)@
                    }),
                    self.job == old(self).job,
                    *red_hand == *old(red_hand),
                decreases i,
            {
                i -= 1;
                if red_hand.cards[i].is_some() {
                    self.actions.push(Action::Check(i));
                }
            }
            proof {
                lemma_queued(red_hand@.cards, 0);
                lemma_counted_card(red_hand@.cards, 5);
            }
        }
        let current = self.actions[self.actions.len() - 1];
        match current {
            Action::Check(i) => {
                match self.thread_status {
                    ThreadStatus::Waiting => {
                        self.thread_status = ThreadStatus::Active;
                        self.solve_result = Move::new();
                        red_hand.set_focus(i);
                        self.job = Some(SearchJob { slot: i, board, depth: self.diffuculty });
                        self.timer = TIMEOUT;
                        return Some(AiEvent::Focus);
                    },
                    ThreadStatus::Active => {
                        return None;
                    },
                    ThreadStatus::Finished => {
                        self.thread_status = ThreadStatus::Waiting;
                        let kept = match self.maybe_move {
                            None => self.solve_result,
                            Some(m) => {
                                if self.solve_result.score > m.score {
                                    self.solve_result
                                } else {
                                    m
                                }
                            },
                        };
                        self.maybe_move = Some(kept);
                        self.actions.pop();
                    },
                }
            },
            Action::Put(from, to) => {
                red_hand.set_focus(from);
                red_hand.select_focused();
                self.actions.clear();
                return Some(AiEvent::Put(to));
            },
            Action::PutBest => {
                let best = self.maybe_move.unwrap();
                let from = best.from;
                let to = best.to;
                red_hand.set_focus(from);
                self.timer = TIMEOUT;
                self.actions.pop();
                self.actions.push(Action::Put(from, to));
                return Some(AiEvent::Focus);
            },
        }
        None
    }
}

} // verus!
