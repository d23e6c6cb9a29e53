//! Paging through the question store.
//!
//! A page starts at a question and takes in the questions after it for as long as they
//! fit the display. The pager remembers where the current page starts and where the
//! page before it started: one step back, no further history.

use crate::commands::{pager_command, PagerCommand};
use crate::model::{Question, QuestionView};
use vstd::prelude::*;

verus! {

/// The lines of the display that are kept for the frame and the controls.
pub const RESERVED_LINES: usize = 4;

/// The lines that a question takes on the display: its prompt and one per answer option.
pub open spec fn line_cost(question: QuestionView) -> nat {
    1 + question.answers.len()
}

/// The lines that questions may fill on a display of `height` lines. Negative where
/// the display is too small to show any.
pub open spec fn page_budget(height: nat) -> int {
    height - RESERVED_LINES
}

/// The lines that the questions `store[from..to]` take together.
pub open spec fn page_lines(store: Seq<QuestionView>, from: int, to: int) -> nat
    decreases to - from,
{
    if to <= from {
        0
    } else {
        page_lines(store, from, to - 1) + line_cost(store[to - 1])
    }
}

/// Where a page that starts at `start` and has reached `end` stops: it takes in the
/// next question while there is one and the page with it still fits the budget.
pub open spec fn page_stop(store: Seq<QuestionView>, start: int, end: int, budget: int) -> int
    decreases store.len() - end,
{
    if start <= end < store.len() && page_lines(store, start, end + 1) <= budget {
        page_stop(store, start, end + 1, budget)
    } else {
        end
    }
}

/// The first question that a page starting at `start` does not show.
pub open spec fn page_end(store: Seq<QuestionView>, start: int, height: nat) -> int {
    page_stop(store, start, start, page_budget(height))
}

/// A page stops at or after the point it has reached, and within the store when it
/// started there. What it shows fits the budget, and the next question, if there is
/// one, would not.
pub proof fn lemma_page_stop(store: Seq<QuestionView>, start: int, end: int, budget: int)
    requires
        0 <= start <= end,
        page_lines(store, start, end) <= budget || end == start,
    ensures
        end <= page_stop(store, start, end, budget),
        end <= store.len() ==> page_stop(store, start, end, budget) <= store.len(),
        page_lines(store, start, page_stop(store, start, end, budget)) <= budget || page_stop(
            store,
            start,
            end,
            budget,
        ) == start,
        page_stop(store, start, end, budget) < store.len() ==> page_lines(
            store,
            start,
            page_stop(store, start, end, budget) + 1,
        ) > budget,
    decreases store.len() - end,
{
    if start <= end < store.len() && page_lines(store, start, end + 1) <= budget {
        lemma_page_stop(store, start, end + 1, budget);
    }
}

/// The first question that the page starting at `start` does not show on a display of
/// `height` lines.
///
/// The page shows `questions[start..end]`: it takes in questions greedily, stops before
/// the first that would overflow the budget, and stops at the end of the store. A start
/// beyond the store gives an empty page.
pub fn page_end_of(questions: &Vec<Question>, start: usize, height: usize) -> (end: usize)
    ensures
        end == page_end(questions.deep_view(), start as int, height as nat),
        start <= end,
        start <= questions.len() ==> end <= questions.len(),
        end > start ==> page_lines(questions.deep_view(), start as int, end as int) <= page_budget(
            height as nat,
        ),
        end < questions.len() ==> page_lines(questions.deep_view(), start as int, end + 1)
            > page_budget(height as nat),
{
    let ghost store = questions.deep_view();
    let ghost budget = page_budget(height as nat);
    proof {
        lemma_page_stop(store, start as int, start as int, budget);
    }
    if height < RESERVED_LINES {
        assert(page_lines(store, start as int, start + 1) >= 1) by {
            assert(page_lines(store, start as int, start as int) == 0);
        }
        return start;
    }
    let room: usize = height - RESERVED_LINES;
    let mut end: usize = start;
    let mut used: usize = 0;
    while end < questions.len()
        invariant
            start <= end,
            store == questions.deep_view(),
            budget == room,
            budget == page_budget(height as nat),
            used == page_lines(store, start as int, end as int),
            used <= room,
            page_stop(store, start as int, end as int, budget) == page_stop(
                store,
                start as int,
                start as int,
                budget,
            ),
        decreases questions.len() - end,
    {
        let lines_required: usize = questions[end].answers.len();
        assert(line_cost(store[end as int]) == 1 + lines_required) by {
            assert(store[end as int] == questions[end as int]@);
        }
        if lines_required < room - used {
            used = used + lines_required + 1;
            end += 1;
        } else {
            return end;
        }
    }
    end
}

/// Where the pager stands: the start of the current page and the start of the page
/// that was current before the last move forward.
#[derive(Clone, Copy, Debug, PartialEq, Eq, Structural)]
pub struct Pager {
    pub start: usize,
    pub previous: usize,
}

/// What the caller is to do after the pager has handled a key.
#[derive(Clone, Copy, Debug, PartialEq, Eq, Structural)]
pub enum PagerAction {
    /// Show the page that is now current.
    Show,
    /// Let the user edit a question, then show the current page again.
    Edit,
    /// Let the user duplicate a question, then show the current page again.
    Copy,
    /// Let the user delete a question, then show the current page again.
    Delete,
    /// Leave the pager.
    Quit,
    /// The key means nothing here: ask for another.
    Ignore,
}

/// The pager after `command`, on a store and a display height.
pub open spec fn pager_after(
    pager: Pager,
    command: PagerCommand,
    store: Seq<QuestionView>,
    height: nat,
) -> Pager {
    match command {
        PagerCommand::Next => Pager {
            start: page_end(store, pager.start as int, height) as usize,
            previous: pager.start,
        },
        PagerCommand::Previous => Pager { start: pager.previous, previous: pager.previous },
        PagerCommand::Restart => Pager { start: 0, previous: pager.previous },
        _ => pager,
    }
}

/// What the caller does after `command`.
pub open spec fn action_of(command: PagerCommand) -> PagerAction {
    match command {
        PagerCommand::Next => PagerAction::Show,
        PagerCommand::Previous => PagerAction::Show,
        PagerCommand::Restart => PagerAction::Show,
        PagerCommand::Edit => PagerAction::Edit,
        PagerCommand::Copy => PagerAction::Copy,
        PagerCommand::Delete => PagerAction::Delete,
        PagerCommand::Quit => PagerAction::Quit,
    }
}

impl Pager {
    /// A pager on the first page.
    pub fn new() -> (pager: Pager)
        ensures
            pager == (Pager { start: 0, previous: 0 }),
    {
        Pager { start: 0, previous: 0 }
    }

    /// The first question that the current page does not show.
    pub fn end(&self, questions: &Vec<Question>, height: usize) -> (end: usize)
        ensures
            end == page_end(questions.deep_view(), self.start as int, height as nat),
            self.start <= end,
            self.start <= questions.len() ==> end <= questions.len(),
    {
        page_end_of(questions, self.start, height)
    }

    /// Moves to the page that begins where the current one ends, and remembers where
    /// the current one began.
    pub fn next_page(&mut self, questions: &Vec<Question>, height: usize)
        ensures
            *final(self) == pager_after(
                *old(self),
                PagerCommand::Next,
                questions.deep_view(),
                height as nat,
            ),
            final(self).previous == old(self).start,
            final(self).start == page_end(
                questions.deep_view(),
                old(self).start as int,
                height as nat,
            ),
    {
        let end = page_end_of(questions, self.start, height);
        self.previous = self.start;
        self.start = end;
    }

    /// Moves back to the remembered page start, which stays remembered.
    pub fn previous_page(&mut self)
        ensures
            final(self).start == old(self).previous,
            final(self).previous == old(self).previous,
    {
        self.start = self.previous;
    }

    /// Moves to the first page.
    pub fn restart(&mut self)
        ensures
            final(self).start == 0,
            final(self).previous == old(self).previous,
    {
        self.start = 0;
    }

    /// Handles one key: moves the pager as the key's command says and tells the caller
    /// what to do next. A key that is no pager command changes nothing.
    pub fn handle(&mut self, key: char, questions: &Vec<Question>, height: usize) -> (action:
        PagerAction)
        ensures
            match pager_command(key) {
                Some(command) => {
                    &&& *final(self) == pager_after(
                        *old(self),
                        command,
                        questions.deep_view(),
                        height as nat,
                    )
                    &&& action == action_of(command)
                },
                None => *final(self) == *old(self) && action == PagerAction::Ignore,
            },
    {
        match PagerCommand::from_key(key) {
            Some(PagerCommand::Next) => {
                self.next_page(questions, height);
                PagerAction::Show
            },
            Some(PagerCommand::Previous) => {
                self.previous_page();
                PagerAction::Show
            },
            Some(PagerCommand::Restart) => {
                self.restart();
                PagerAction::Show
            },
            Some(PagerCommand::Edit) => PagerAction::Edit,
            Some(PagerCommand::Copy) => PagerAction::Copy,
            Some(PagerCommand::Delete) => PagerAction::Delete,
            Some(PagerCommand::Quit) => PagerAction::Quit,
            None => PagerAction::Ignore,
        }
    }
}

/// The positions `from..to`, in order.
pub open spec fn positions(from: int, to: int) -> Seq<int> {
    Seq::new((to - from) as nat, |i: int| from + i)
}

/// The positions of the questions shown while paging forward from the page that starts
/// at `start` until a page shows nothing.
pub open spec fn traversal(store: Seq<QuestionView>, start: int, height: nat) -> Seq<int>
    decreases store.len() - start,
{
    let end = page_end(store, start, height);
    if 0 <= start < end <= store.len() {
        positions(start, end) + traversal(store, end, height)
    } else {
        Seq::empty()
    }
}

/// Whether every question fits on a page of its own.
pub open spec fn each_fits(store: Seq<QuestionView>, height: nat) -> bool {
    forall|i: int| 0 <= i < store.len() ==> line_cost(#[trigger] store[i]) <= page_budget(height)
}

proof fn lemma_traversal_from(store: Seq<QuestionView>, start: int, height: nat)
    requires
        each_fits(store, height),
        0 <= start <= store.len(),
    ensures
        traversal(store, start, height) == positions(start, store.len() as int),
    decreases store.len() - start,
{
    let budget = page_budget(height);
    let end = page_end(store, start, height);
    lemma_page_stop(store, start, start, budget);
    if start < store.len() {
        assert(page_lines(store, start, start + 1) == line_cost(store[start])) by {
            assert(page_lines(store, start, start) == 0);
        }
        assert(end == page_stop(store, start, start + 1, budget));
        lemma_page_stop(store, start, start + 1, budget);
        lemma_traversal_from(store, end, height);
        assert(positions(start, end) + positions(end, store.len() as int) =~= positions(
            start,
            store.len() as int,
        ));
    } else {
        assert(positions(start, store.len() as int) =~= Seq::<int>::empty());
    }
}

/// Paging forward from the first page shows every question of the store exactly once
/// and in store order, provided that each question fits on a page of its own.
pub proof fn lemma_traversal_shows_store_in_order(store: Seq<QuestionView>, height: nat)
    requires
        each_fits(store, height),
    ensures
        traversal(store, 0, height) == Seq::new(store.len(), |i: int| i),
{
    lemma_traversal_from(store, 0, height);
    assert(positions(0, store.len() as int) =~= Seq::new(store.len(), |i: int| i));
}

} // verus!
