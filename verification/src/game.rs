use vstd::prelude::*;
use vstd::multiset::Multiset;
use rand::seq::SliceRandom;
use crate::board::{cell_index, mark_at, on_board};
use crate::piles::{extract_particular_item, item_at, particular_item, without_item};

verus! {

/// The random generator of `rand` that shuffles the face-down pile; nothing in it is read.
#[verifier::external_type_specification]
#[verifier::external_body]
pub struct ExThreadRng(rand::rngs::ThreadRng);

/// Board cell with nothing on it.
pub const CELL_EMPTY: u8 = 0;

/// Board cell marked by the player.
pub const CELL_X: u8 = 1;

/// Board cell marked by the computer.
pub const CELL_O: u8 = 2;

/// Number of cards in the face-down pile at the start of a round.
pub const HIDDEN_CARDS: u8 = 50;

/// A place on the screen board: column, then row, both from zero.
#[derive(Clone, Copy, PartialEq, Eq, Structural, Debug)]
pub struct Position(pub usize, pub usize);

/// Where the cursor stands when a round starts.
pub open spec fn spec_start_position() -> Position {
    Position(1, 1)
}

/// Where the cursor stands when a round starts.
#[verifier::when_used_as_spec(spec_start_position)]
pub fn start_position() -> (p: Position)
    ensures
        p == spec_start_position(),
{
    Position(1, 1)
}

/// What a screen cell shows: nothing, or the picture stored under an id.
#[derive(Clone, Copy, PartialEq, Eq, Structural, Debug)]
pub enum Cell {
    Empty,
    ResourceId(u16),
}

/// How the round ended, if it has.
#[derive(Clone, Copy, PartialEq, Eq, Structural, Debug)]
pub enum GameResult {
    Unknown,
    HumanWin,
    ComputerWin,
    Draw,
}

/// A key the player pressed: a character, or any other key.
#[derive(Clone, Copy, PartialEq, Eq, Structural, Debug)]
pub enum Key {
    Char(char),
    Other,
}

/// What the screen has to do after a key press: whether to stop listening to keys, and the
/// cells to redraw, if any.
pub struct KeyResponse {
    pub stop: bool,
    pub updates: Option<Vec<(Cell, Position)>>,
}

/// State of a round: the four piles of cards, the cursor, the three-by-three board of
/// marks, the number of turns played, the result and whether the player asked to leave.
pub struct App {
    pub hidden_cards: Vec<u8>,
    pub visible_cards: Vec<u8>,
    pub player1_cards: Vec<u8>,
    pub player2_cards: Vec<u8>,
    pub cursor_position: Position,
    pub board: [u8; 9],
    pub turn_num: u8,
    pub result: GameResult,
    pub exit: bool,
}

/// The face-down pile at the start of a round: the cards 0 to 49, in that order.
pub open spec fn initial_hidden() -> Seq<u8> {
    Seq::new(HIDDEN_CARDS as nat, |i: int| i as u8)
}

/// The board at the start of a round: nine empty cells.
pub open spec fn empty_board() -> Seq<u8> {
    Seq::new(9, |i: int| CELL_EMPTY)
}

/// A new face-down pile holding the cards 0 to 49, in that order.
fn initial_hidden_cards() -> (v: Vec<u8>)
    ensures
        v@ == initial_hidden(),
{
    let mut v: Vec<u8> = Vec::new();
    let mut i: u8 = 0;
    while i < HIDDEN_CARDS
        invariant
            i <= HIDDEN_CARDS,
            v@ == Seq::new(i as nat, |j: int| j as u8),
        decreases HIDDEN_CARDS - i,
    {
        v.push(i);
        i = i + 1;
    }
    v
}

/// The screen update that shows `card` at `pos`: its picture, or an empty cell.
pub open spec fn shown(card: Option<u8>, pos: Position) -> (Cell, Position) {
    match card {
        Some(c) => (Cell::ResourceId(c as u16), pos),
        None => (Cell::Empty, pos),
    }
}

/// Moving the top card of `from` onto `to`: both piles afterwards, and the card moved.
pub open spec fn moved(from: Seq<u8>, to: Seq<u8>) -> (Seq<u8>, Seq<u8>, Option<u8>) {
    if from.len() > 0 {
        (from.drop_last(), to.push(from.last()), Some(from.last()))
    } else {
        (from, to, None)
    }
}

/// Dealing the top card of `from` to the hand `to`, which is shown on row `row`: both piles
/// afterwards, and `updates` with the redraw of the hand's last cell added.
pub open spec fn dealt_to(from: Seq<u8>, to: Seq<u8>, updates: Seq<(Cell, Position)>, row: usize) -> (
    Seq<u8>,
    Seq<u8>,
    Seq<(Cell, Position)>,
) {
    let m = moved(from, to);
    (m.0, m.1, updates.push(shown(m.2, Position((m.1.len() - 1) as usize, row))))
}

/// `n` rounds of dealing one card to the first player (row 2) and one to the second (row
/// 0): the face-down pile, both hands and the updates afterwards.
pub open spec fn deal_rounds(
    hidden: Seq<u8>,
    hand1: Seq<u8>,
    hand2: Seq<u8>,
    updates: Seq<(Cell, Position)>,
    n: nat,
) -> (Seq<u8>, Seq<u8>, Seq<u8>, Seq<(Cell, Position)>)
    decreases n,
{
    if n == 0 {
        (hidden, hand1, hand2, updates)
    } else {
        let d = deal_rounds(hidden, hand1, hand2, updates, (n - 1) as nat);
        let a = dealt_to(d.0, d.1, d.3, 2);
        let b = dealt_to(a.0, d.2, a.2, 0);
        (b.0, a.1, b.1, b.2)
    }
}

/// Number of rounds in which each player is dealt a card.
pub open spec fn deal_round_count() -> nat {
    7
}

/// Dealing cannot reach a hand that is still empty once the face-down pile has run out.
pub open spec fn can_deal(hidden: nat, hand1: nat, hand2: nat) -> bool {
    hidden >= 2 || (hand2 > 0 && (hidden == 1 || hand1 > 0))
}

/// Dealing a round from the face-down pile `hidden`: seven cards to each player in turn,
/// then one face up. The face-down pile, the face-up pile, both hands and the cells to
/// redraw afterwards.
pub open spec fn deal_outcome(hidden: Seq<u8>, visible: Seq<u8>, hand1: Seq<u8>, hand2: Seq<u8>) -> (
    Seq<u8>,
    Seq<u8>,
    Seq<u8>,
    Seq<u8>,
    Seq<(Cell, Position)>,
) {
    let d = deal_rounds(hidden, hand1, hand2, Seq::empty(), deal_round_count());
    let m = moved(d.0, visible);
    (m.0, m.1, d.1, d.2, d.3.push(shown(m.2, Position(1, 1))))
}

/// `post` has the cursor, board, turn count, result and exit request of `pre`.
pub open spec fn keeps_all_but_piles(pre: App, post: App) -> bool {
    &&& post.cursor_position == pre.cursor_position
    &&& post.board@ == pre.board@
    &&& post.turn_num == pre.turn_num
    &&& post.result == pre.result
    &&& post.exit == pre.exit
}

/// `post` has the four piles of `pre`.
pub open spec fn keeps_piles(pre: App, post: App) -> bool {
    &&& post.hidden_cards@ == pre.hidden_cards@
    &&& post.visible_cards@ == pre.visible_cards@
    &&& post.player1_cards@ == pre.player1_cards@
    &&& post.player2_cards@ == pre.player2_cards@
}

/// `post` and `updates` are what dealing from the face-down pile `order` makes of `pre`.
pub open spec fn dealt_from(pre: App, post: App, updates: Seq<(Cell, Position)>, order: Seq<u8>) -> bool {
    let o = deal_outcome(order, pre.visible_cards@, pre.player1_cards@, pre.player2_cards@);
    &&& post.hidden_cards@ == o.0
    &&& post.visible_cards@ == o.1
    &&& post.player1_cards@ == o.2
    &&& post.player2_cards@ == o.3
    &&& updates == o.4
    &&& keeps_all_but_piles(pre, post)
}

/// `post` and `updates` are what dealing makes of `pre` once its face-down pile is shuffled:
/// dealing from some order of the same cards.
pub open spec fn dealt_after_shuffle(pre: App, post: App, updates: Seq<(Cell, Position)>) -> bool {
    exists|order: Seq<u8>|
        order.to_multiset() == pre.hidden_cards@.to_multiset() && #[trigger] dealt_from(
            pre,
            post,
            updates,
            order,
        )
}

/// The pile the player draws from with the cursor at `p`: 1 for the face-down pile at
/// column 0, row 1; 2 for the face-up pile at column 1, row 1; 0 for none.
pub open spec fn draw_pile(p: Position) -> int {
    if p.0 == 0 && p.1 == 1 {
        1
    } else if p.0 == 1 && p.1 == 1 {
        2
    } else {
        0
    }
}

/// The player's draw in `pre`, as it leaves `post` and `updates`.
pub open spec fn drew(pre: App, post: App, updates: Seq<(Cell, Position)>) -> bool {
    let pile = draw_pile(pre.cursor_position);
    if pile == 1 {
        let d = dealt_to(pre.hidden_cards@, pre.player1_cards@, Seq::empty(), 2);
        &&& post.hidden_cards@ == d.0
        &&& post.player1_cards@ == d.1
        &&& updates == d.2
        &&& post.visible_cards@ == pre.visible_cards@
        &&& post.player2_cards@ == pre.player2_cards@
    } else if pile == 2 {
        let d = dealt_to(pre.visible_cards@, pre.player1_cards@, Seq::empty(), 2);
        &&& post.visible_cards@ == d.0
        &&& post.player1_cards@ == d.1
        &&& updates == d.2
        &&& post.hidden_cards@ == pre.hidden_cards@
        &&& post.player2_cards@ == pre.player2_cards@
    } else {
        &&& keeps_piles(pre, post)
        &&& updates == Seq::<(Cell, Position)>::empty()
    }
}

/// What the player's turn makes of `pre`: the deal when no turn was played yet (from some
/// order of the face-down pile); else, when the cell under the cursor is empty, a player
/// mark there and a draw; else nothing.
pub open spec fn user_turn(pre: App, post: App, r: Option<Vec<(Cell, Position)>>) -> bool {
    if pre.turn_num == 0 {
        &&& post.turn_num == 1
        &&& r is Some
        &&& dealt_after_shuffle(pre, (App { turn_num: pre.turn_num, ..post }), r.unwrap()@)
    } else if mark_at(pre.board@, pre.cursor_position) != CELL_EMPTY {
        &&& r is None
        &&& keeps_piles(pre, post)
        &&& keeps_all_but_piles(pre, post)
    } else {
        &&& r matches Some(u) && drew(pre, post, u@)
        &&& post.board@ == pre.board@.update(
            cell_index(pre.cursor_position.0 as int, pre.cursor_position.1 as int),
            CELL_X,
        )
        &&& post.turn_num == pre.turn_num + 1
        &&& post.cursor_position == pre.cursor_position
        &&& post.result == pre.result
        &&& post.exit == pre.exit
    }
}

/// The player discarding the card under the cursor, in `pre`, as it leaves `post` and
/// `updates`: the card at the cursor's column leaves the hand for the face-up pile, whose
/// top is redrawn, and then the first eight places of the hand are redrawn.
pub open spec fn discarded(pre: App, post: App, updates: Seq<(Cell, Position)>) -> bool {
    let x = pre.cursor_position.0 as int;
    let card = item_at(pre.player1_cards@, x);
    let hand = without_item(pre.player1_cards@, x);
    &&& post.player1_cards@ == hand
    &&& post.visible_cards@ == (match card {
        Some(c) => pre.visible_cards@.push(c),
        None => pre.visible_cards@,
    })
    &&& post.hidden_cards@ == pre.hidden_cards@
    &&& post.player2_cards@ == pre.player2_cards@
    &&& keeps_all_but_piles(pre, post)
    &&& updates == seq![shown(card, Position(1, 1))] + Seq::new(
        8,
        |i: int| shown(item_at(hand, i), Position(i as usize, 2)),
    )
}

/// What answering `key` makes of `pre`, as `post` and the response `resp` show it.
pub open spec fn key_handled(pre: App, post: App, key: Key, resp: KeyResponse) -> bool {
    match key {
        Key::Char('q') => {
            &&& resp.stop
            &&& resp.updates is None
            &&& post.exit
            &&& keeps_piles(pre, post)
            &&& post.cursor_position == pre.cursor_position
            &&& post.board@ == pre.board@
            &&& post.turn_num == pre.turn_num
            &&& post.result == pre.result
        },
        Key::Char('r') => {
            &&& resp.stop == (pre.result != GameResult::Unknown)
            &&& resp.updates is None
            &&& keeps_piles(pre, post)
            &&& keeps_all_but_piles(pre, post)
        },
        Key::Char('j') => {
            &&& !resp.stop
            &&& user_turn(pre, post, resp.updates)
        },
        Key::Char('o') => {
            &&& !resp.stop
            &&& if pre.cursor_position.0 < 8 && pre.cursor_position.1 == 2 {
                resp.updates matches Some(u) && discarded(pre, post, u@)
            } else {
                &&& resp.updates is None
                &&& keeps_piles(pre, post)
                &&& keeps_all_but_piles(pre, post)
            }
        },
        _ => {
            &&& !resp.stop
            &&& resp.updates is None
            &&& keeps_piles(pre, post)
            &&& keeps_all_but_piles(pre, post)
        },
    }
}

/// The id under which the picture of card `c` is stored. Calls `cast::u16`, whose impl for a
/// `u8` argument converts with `as`; the contract states that the value is kept.
#[verifier::external_body]
fn card_resource_id(c: u8) -> (r: u16)
    ensures
        r == c as u16,
{
    cast::u16(c)
}

/// Calls `rand::thread_rng`: the random generator of the calling thread, seeded by the
/// system. Nothing is stated of it; the call panics where the system gives no seed.
#[verifier::external_body]
fn new_thread_rng() -> rand::rngs::ThreadRng {
    rand::thread_rng()
}

/// Calls `rand::seq::SliceRandom::shuffle` on the cards. The order that comes out depends on
/// the generator; what is stated is what holds of every outcome: the same cards, each as
/// often as before.
#[verifier::external_body]
fn shuffle_cards(cards: &mut Vec<u8>, rng: &mut rand::rngs::ThreadRng)
    ensures
        final(cards)@.len() == old(cards)@.len(),
        final(cards)@.to_multiset() == old(cards)@.to_multiset(),
{
    cards.shuffle(rng)
}

/// Moves the top card of `from` onto `to`, and gives it back.
fn move_top_card(from: &mut Vec<u8>, to: &mut Vec<u8>) -> (card: Option<u8>)
    ensures
        (final(from)@, final(to)@, card) == moved(old(from)@, old(to)@),
{
    match from.pop() {
        Some(c) => {
            to.push(c);
            Some(c)
        },
        None => None,
    }
}

/// Adds to `updates` the redraw of the cell at `column`, `row` with `card`.
fn show_card(card: Option<u8>, updates: &mut Vec<(Cell, Position)>, row: usize, column: usize)
    ensures
        final(updates)@ == old(updates)@.push(shown(card, Position(column, row))),
{
    match card {
        Some(c) => updates.push((Cell::ResourceId(card_resource_id(c)), Position(column, row))),
        None => updates.push((Cell::Empty, Position(column, row))),
    }
}

/// Deals the top card of `from` to the hand `to`, shown on row `row`, and adds the redraw of
/// the hand's last cell to `updates`.
fn deal_to_player(from: &mut Vec<u8>, to: &mut Vec<u8>, updates: &mut Vec<(Cell, Position)>, row: usize)
    requires
        old(from)@.len() > 0 || old(to)@.len() > 0,
    ensures
        (final(from)@, final(to)@, final(updates)@) == dealt_to(old(from)@, old(to)@, old(updates)@, row),
{
    let card = move_top_card(from, to);
    let column = to.len() - 1;
    show_card(card, updates, row, column);
}

impl App {
    /// The state is that of a round that has not started: all cards face down and in
    /// order, no card elsewhere, the cursor at its start, an empty board, no turn played,
    /// no result.
    pub open spec fn is_fresh(&self) -> bool {
        &&& self.hidden_cards@ == initial_hidden()
        &&& self.visible_cards@ == Seq::<u8>::empty()
        &&& self.player1_cards@ == Seq::<u8>::empty()
        &&& self.player2_cards@ == Seq::<u8>::empty()
        &&& self.cursor_position == start_position()
        &&& self.board@ == empty_board()
        &&& self.turn_num == 0
        &&& self.result == GameResult::Unknown
    }

    /// A round that has not started, with no request to leave.
    pub fn new() -> (app: Self)
        ensures
            app.is_fresh(),
            !app.exit,
    {
        let app = App {
            hidden_cards: initial_hidden_cards(),
            visible_cards: Vec::new(),
            player1_cards: Vec::new(),
            player2_cards: Vec::new(),
            cursor_position: start_position(),
            board: [CELL_EMPTY; 9],
            turn_num: 0,
            result: GameResult::Unknown,
            exit: false,
        };
        assert(app.board@ =~= empty_board());
        app
    }

    /// Starts the round over; a request to leave is kept.
    pub fn reset(&mut self)
        ensures
            final(self).is_fresh(),
            final(self).exit == old(self).exit,
    {
        self.hidden_cards = initial_hidden_cards();
        self.visible_cards.clear();
        self.player1_cards.clear();
        self.player2_cards.clear();
        self.cursor_position = start_position();
        self.board = [CELL_EMPTY; 9];
        self.turn_num = 0;
        self.result = GameResult::Unknown;
        assert(self.board@ =~= empty_board());
    }

    /// Every card of the round, wherever it lies: face down, face up or in a hand.
    pub open spec fn all_cards(&self) -> Multiset<u8> {
        self.hidden_cards@.to_multiset().add(self.visible_cards@.to_multiset()).add(
            self.player1_cards@.to_multiset(),
        ).add(self.player2_cards@.to_multiset())
    }

    /// The player's turn can be played without reaching an empty hand, a cell off the board
    /// or a turn count past 255: the first turn deals; a later one has the cursor on the
    /// board, and when it is played there (the cell is empty), the turn count can grow and the
    /// pile drawn from or the hand holds a card.
    pub open spec fn can_take_turn(&self) -> bool {
        &&& self.turn_num == 0 ==> can_deal(
            self.hidden_cards@.len(),
            self.player1_cards@.len(),
            self.player2_cards@.len(),
        )
        &&& self.turn_num != 0 ==> {
            &&& on_board(self.cursor_position)
            &&& mark_at(self.board@, self.cursor_position) == CELL_EMPTY ==> {
                &&& self.turn_num < 255
                &&& draw_pile(self.cursor_position) == 1 ==> self.hidden_cards@.len() > 0
                    || self.player1_cards@.len() > 0
                &&& draw_pile(self.cursor_position) == 2 ==> self.visible_cards@.len() > 0
                    || self.player1_cards@.len() > 0
            }
        }
    }

    /// Whether the player's turn can be played now (see `can_take_turn`).
    pub fn can_play_turn(&self) -> (r: bool)
        ensures
            r == self.can_take_turn(),
    {
        let hidden = self.hidden_cards.len();
        let hand1 = self.player1_cards.len();
        let hand2 = self.player2_cards.len();
        if self.turn_num == 0 {
            hidden >= 2 || (hand2 > 0 && (hidden == 1 || hand1 > 0))
        } else {
            let Position(x, y) = self.cursor_position;
            if y >= 3 || x >= 9 - y * 3 {
                false
            } else if self.get(x, y) != CELL_EMPTY {
                true
            } else if self.turn_num == 255 {
                false
            } else if x == 0 && y == 1 {
                hidden > 0 || hand1 > 0
            } else if x == 1 && y == 1 {
                self.visible_cards.len() > 0 || hand1 > 0
            } else {
                true
            }
        }
    }

    /// Deals the round from the face-down pile as it lies: seven rounds of one card to the
    /// first player, shown on row 2, and one to the second, shown on row 0; then one card
    /// face up, shown at column 1, row 1. Returns the cells to redraw.
    pub fn deal(&mut self) -> (updates: Vec<(Cell, Position)>)
        requires
            can_deal(
                old(self).hidden_cards@.len(),
                old(self).player1_cards@.len(),
                old(self).player2_cards@.len(),
            ),
        ensures
            dealt_from(*old(self), *final(self), updates@, old(self).hidden_cards@),
            final(self).all_cards() == old(self).all_cards(),
    {
        let mut updates: Vec<(Cell, Position)> = Vec::new();
        let mut round: usize = 0;
        while round < 7
            invariant
                round <= 7,
                (self.hidden_cards@, self.player1_cards@, self.player2_cards@, updates@)
                    == deal_rounds(
                    old(self).hidden_cards@,
                    old(self).player1_cards@,
                    old(self).player2_cards@,
                    Seq::empty(),
                    round as nat,
                ),
                can_deal(
                    self.hidden_cards@.len(),
                    self.player1_cards@.len(),
                    self.player2_cards@.len(),
                ),
                self.visible_cards@ == old(self).visible_cards@,
                keeps_all_but_piles(*old(self), *self),
            decreases 7 - round,
        {
            deal_to_player(&mut self.hidden_cards, &mut self.player1_cards, &mut updates, 2);
            deal_to_player(&mut self.hidden_cards, &mut self.player2_cards, &mut updates, 0);
            round = round + 1;
        }
        let card = move_top_card(&mut self.hidden_cards, &mut self.visible_cards);
        show_card(card, &mut updates, 1, 1);
        proof {
            lemma_deal_keeps_cards(
                old(self).hidden_cards@,
                old(self).visible_cards@,
                old(self).player1_cards@,
                old(self).player2_cards@,
            );
        }
        updates
    }

    /// Shuffles the face-down pile and deals the round from it (see `deal`). Returns the
    /// cells to redraw.
    pub fn dar_cartas(&mut self) -> (updates: Vec<(Cell, Position)>)
        requires
            can_deal(
                old(self).hidden_cards@.len(),
                old(self).player1_cards@.len(),
                old(self).player2_cards@.len(),
            ),
        ensures
            dealt_after_shuffle(*old(self), *final(self), updates@),
            final(self).all_cards() == old(self).all_cards(),
    {
        let mut rng = new_thread_rng();
        shuffle_cards(&mut self.hidden_cards, &mut rng);
        let ghost order = self.hidden_cards@;
        let updates = self.deal();
        assert(dealt_from(*old(self), *self, updates@, order));
        updates
    }

    /// The player's turn (key `j`). The first turn deals the round (see `dar_cartas`). A
    /// later one, when the cell under the cursor is empty, puts the player's mark there and
    /// draws a card into the first hand: from the face-down pile with the cursor at column
    /// 0, row 1; from the face-up pile at column 1, row 1; none elsewhere. Each turn played
    /// counts one more turn and returns the cells to redraw; with the cell taken, nothing
    /// happens and `None` comes back.
    pub fn process_user_turn(&mut self) -> (r: Option<Vec<(Cell, Position)>>)
        requires
            old(self).can_take_turn(),
        ensures
            user_turn(*old(self), *final(self), r),
            final(self).all_cards() == old(self).all_cards(),
    {
        if self.turn_num == 0 {
            self.turn_num += 1;
            let ghost dealing = *self;
            let updates = self.dar_cartas();
            proof {
                let order = choose|order: Seq<u8>|
                    order.to_multiset() == dealing.hidden_cards@.to_multiset() && #[trigger] dealt_from(
                        dealing,
                        *self,
                        updates@,
                        order,
                    );
                assert(dealt_from(*old(self), (App { turn_num: old(self).turn_num, ..*self }), updates@, order));
            }
            Some(updates)
        } else {
            let Position(x, y) = self.cursor_position;
            if self.get(x, y) == CELL_EMPTY {
                // The player's mark goes on the cell under the cursor.
                self.set(x, y, CELL_X);
                let mut updates: Vec<(Cell, Position)> = Vec::new();
                if x == 0 && y == 1 {
                    deal_to_player(&mut self.hidden_cards, &mut self.player1_cards, &mut updates, 2);
                    proof {
                        lemma_move_keeps_cards(old(self).hidden_cards@, old(self).player1_cards@);
                        lemma_pile_sum_count(*old(self), *self);
                    }
                } else if x == 1 && y == 1 {
                    deal_to_player(&mut self.visible_cards, &mut self.player1_cards, &mut updates, 2);
                    proof {
                        lemma_move_keeps_cards(old(self).visible_cards@, old(self).player1_cards@);
                        lemma_pile_sum_count(*old(self), *self);
                    }
                }
                self.turn_num += 1;
                Some(updates)
            } else {
                None
            }
        }
    }

    /// The computer's turn; it does not play, so nothing changes.
    pub fn make_turn(&mut self, updates: &mut Vec<(Cell, Position)>)
        ensures
            *final(self) == *old(self),
            final(updates)@ == old(updates)@,
    {
    }

    /// The player discards the card of the first hand at the cursor's column onto the
    /// face-up pile (key `o`). Returns the cells to redraw: the face-up pile's top, then the
    /// first eight places of the hand.
    fn discard_selected(&mut self) -> (updates: Vec<(Cell, Position)>)
        ensures
            discarded(*old(self), *final(self), updates@),
            final(self).all_cards() == old(self).all_cards(),
    {
        let x = self.cursor_position.0;
        let mut updates: Vec<(Cell, Position)> = Vec::new();
        let card = extract_particular_item(&mut self.player1_cards, x);
        match card {
            Some(c) => self.visible_cards.push(c),
            None => {},
        }
        show_card(card, &mut updates, 1, 1);
        let ghost hand = self.player1_cards@;
        let ghost before = *self;
        let mut i: usize = 0;
        while i < 8
            invariant
                i <= 8,
                self.player1_cards@ == hand,
                keeps_piles(before, *self),
                keeps_all_but_piles(before, *self),
                updates@ == seq![shown(card, Position(1, 1))] + Seq::new(
                    i as nat,
                    |j: int| shown(item_at(hand, j), Position(j as usize, 2)),
                ),
            decreases 8 - i,
        {
            let c = particular_item(&mut self.player1_cards, i);
            show_card(c, &mut updates, 2, i);
            i = i + 1;
        }
        proof {
            crate::piles::lemma_extract_keeps_cards(old(self).player1_cards@, x as int);
            broadcast use vstd::seq_lib::group_to_multiset_ensures, vstd::multiset::group_multiset_axioms;

            assert forall|v: u8|
                #[trigger] self.hidden_cards@.to_multiset().count(v) + self.visible_cards@.to_multiset().count(v)
                    + self.player1_cards@.to_multiset().count(v) + self.player2_cards@.to_multiset().count(v)
                    == old(self).hidden_cards@.to_multiset().count(v) + old(self).visible_cards@.to_multiset().count(v)
                    + old(self).player1_cards@.to_multiset().count(v) + old(self).player2_cards@.to_multiset().count(v) by {
                match card {
                    Some(c) => {
                        assert(self.visible_cards@ == old(self).visible_cards@.push(c));
                        assert(old(self).player1_cards@.to_multiset() == self.player1_cards@.to_multiset().insert(c));
                    },
                    None => {},
                }
            }
            lemma_pile_sum_count(*old(self), *self);
        }
        updates
    }

    /// Answers a key press: `q` stops the game and asks to leave; `r` stops it when the
    /// round has a result; `j` plays the player's turn (see `process_user_turn`); `o` with
    /// the cursor on the first hand's row (row 2, column below 8) discards the card there
    /// (see `discard_selected`); any other key does nothing.
    pub fn handle_key(&mut self, key: Key) -> (resp: KeyResponse)
        requires
            key == Key::Char('j') ==> old(self).can_take_turn(),
        ensures
            key_handled(*old(self), *final(self), key, resp),
            final(self).all_cards() == old(self).all_cards(),
    {
        match key {
            Key::Char('q') => {
                self.exit = true;
                KeyResponse { stop: true, updates: None }
            },
            Key::Char('r') => {
                KeyResponse { stop: self.result != GameResult::Unknown, updates: None }
            },
            Key::Char('j') => {
                let updates = self.process_user_turn();
                KeyResponse { stop: false, updates }
            },
            Key::Char('o') => {
                let Position(x, y) = self.cursor_position;
                if x < 8 && y == 2 {
                    let updates = self.discard_selected();
                    KeyResponse { stop: false, updates: Some(updates) }
                } else {
                    KeyResponse { stop: false, updates: None }
                }
            },
            _ => KeyResponse { stop: false, updates: None },
        }
    }

    /// The cursor moved to `position`.
    pub fn cursor_moved(&mut self, position: Position)
        ensures
            final(self).cursor_position == position,
            keeps_piles(*old(self), *final(self)),
            final(self).board@ == old(self).board@,
            final(self).turn_num == old(self).turn_num,
            final(self).result == old(self).result,
            final(self).exit == old(self).exit,
    {
        self.cursor_position = position;
    }
}

/// The cards of a round, counted: every card counts once for each pile that holds it.
proof fn lemma_pile_sum_count(pre: App, post: App)
    requires
        forall|v: u8|
            #[trigger] post.hidden_cards@.to_multiset().count(v) + post.visible_cards@.to_multiset().count(v)
                + post.player1_cards@.to_multiset().count(v) + post.player2_cards@.to_multiset().count(v)
                == pre.hidden_cards@.to_multiset().count(v) + pre.visible_cards@.to_multiset().count(v)
                + pre.player1_cards@.to_multiset().count(v) + pre.player2_cards@.to_multiset().count(v),
    ensures
        post.all_cards() == pre.all_cards(),
{
    broadcast use vstd::multiset::group_multiset_axioms;

    assert(post.all_cards() =~= pre.all_cards());
}

/// Rounds that have not started agree in everything but the request to leave, so `reset`
/// gives the round that `new` gives; such a round holds each of the cards 0 to 49 once.
pub proof fn lemma_fresh_rounds_agree(a: App, b: App)
    requires
        a.is_fresh(),
        b.is_fresh(),
    ensures
        keeps_piles(a, b),
        b.cursor_position == a.cursor_position,
        b.board@ == a.board@,
        b.turn_num == a.turn_num,
        b.result == a.result,
        a.all_cards() == initial_hidden().to_multiset(),
{
    broadcast use vstd::seq_lib::group_to_multiset_ensures, vstd::multiset::group_multiset_axioms;

    assert(Seq::<u8>::empty().to_multiset() =~= Multiset::empty());
    assert(a.all_cards() =~= initial_hidden().to_multiset());
}

/// Moving a card from one pile to another keeps the cards of the two piles together.
pub proof fn lemma_move_keeps_cards(from: Seq<u8>, to: Seq<u8>)
    ensures
        moved(from, to).0.to_multiset().add(moved(from, to).1.to_multiset()) == from.to_multiset().add(
            to.to_multiset(),
        ),
        forall|v: u8|
            #[trigger] moved(from, to).0.to_multiset().count(v) + moved(from, to).1.to_multiset().count(v)
                == from.to_multiset().count(v) + to.to_multiset().count(v),
{
    broadcast use vstd::seq_lib::group_to_multiset_ensures, vstd::multiset::group_multiset_axioms;

    if from.len() > 0 {
        assert(from.drop_last().push(from.last()) == from);
        assert(from.drop_last().to_multiset().add(to.push(from.last()).to_multiset()) =~= from.to_multiset().add(
            to.to_multiset(),
        ));
    }
}

/// Rounds of dealing keep the cards of the face-down pile and the two hands together.
pub proof fn lemma_deal_rounds_keep_cards(
    hidden: Seq<u8>,
    hand1: Seq<u8>,
    hand2: Seq<u8>,
    updates: Seq<(Cell, Position)>,
    n: nat,
)
    ensures
        ({
            let d = deal_rounds(hidden, hand1, hand2, updates, n);
            d.0.to_multiset().add(d.1.to_multiset()).add(d.2.to_multiset()) == hidden.to_multiset().add(
                hand1.to_multiset(),
            ).add(hand2.to_multiset())
        }),
    decreases n,
{
    broadcast use vstd::multiset::group_multiset_axioms;

    if n > 0 {
        let d = deal_rounds(hidden, hand1, hand2, updates, (n - 1) as nat);
        lemma_deal_rounds_keep_cards(hidden, hand1, hand2, updates, (n - 1) as nat);
        lemma_move_keeps_cards(d.0, d.1);
        let a = dealt_to(d.0, d.1, d.3, 2);
        lemma_move_keeps_cards(a.0, d.2);
        let b = dealt_to(a.0, d.2, a.2, 0);
        assert(deal_rounds(hidden, hand1, hand2, updates, n) == (b.0, a.1, b.1, b.2));
        assert(a.0 == moved(d.0, d.1).0 && a.1 == moved(d.0, d.1).1);
        assert(b.0 == moved(a.0, d.2).0 && b.1 == moved(a.0, d.2).1);
        assert forall|v: u8|
            #[trigger] b.0.to_multiset().add(a.1.to_multiset()).add(b.1.to_multiset()).count(v)
                == d.0.to_multiset().add(d.1.to_multiset()).add(d.2.to_multiset()).count(v) by {
            assert(a.0.to_multiset().add(a.1.to_multiset()).count(v) == d.0.to_multiset().add(
                d.1.to_multiset(),
            ).count(v));
            assert(b.0.to_multiset().add(b.1.to_multiset()).count(v) == a.0.to_multiset().add(
                d.2.to_multiset(),
            ).count(v));
        }
        assert(b.0.to_multiset().add(a.1.to_multiset()).add(b.1.to_multiset()) =~= d.0.to_multiset().add(
            d.1.to_multiset(),
        ).add(d.2.to_multiset()));
    }
}

/// Dealing a round keeps every card: the four piles afterwards hold the cards they held
/// before.
pub proof fn lemma_deal_keeps_cards(hidden: Seq<u8>, visible: Seq<u8>, hand1: Seq<u8>, hand2: Seq<u8>)
    ensures
        ({
            let o = deal_outcome(hidden, visible, hand1, hand2);
            o.0.to_multiset().add(o.1.to_multiset()).add(o.2.to_multiset()).add(o.3.to_multiset())
                == hidden.to_multiset().add(visible.to_multiset()).add(hand1.to_multiset()).add(
                hand2.to_multiset(),
            )
        }),
{
    broadcast use vstd::multiset::group_multiset_axioms;

    let d = deal_rounds(hidden, hand1, hand2, Seq::empty(), deal_round_count());
    lemma_deal_rounds_keep_cards(hidden, hand1, hand2, Seq::empty(), deal_round_count());
    lemma_move_keeps_cards(d.0, visible);
    let o = deal_outcome(hidden, visible, hand1, hand2);
    assert(o.0 == moved(d.0, visible).0 && o.1 == moved(d.0, visible).1);
    assert(o.2 == d.1 && o.3 == d.2);
    assert forall|v: u8|
        #[trigger] o.0.to_multiset().add(o.1.to_multiset()).add(o.2.to_multiset()).add(
            o.3.to_multiset(),
        ).count(v) == hidden.to_multiset().add(visible.to_multiset()).add(hand1.to_multiset()).add(
            hand2.to_multiset(),
        ).count(v) by {
        assert(o.0.to_multiset().add(o.1.to_multiset()).count(v) == d.0.to_multiset().add(
            visible.to_multiset(),
        ).count(v));
        assert(d.0.to_multiset().add(d.1.to_multiset()).add(d.2.to_multiset()).count(v)
            == hidden.to_multiset().add(hand1.to_multiset()).add(hand2.to_multiset()).count(v));
    }
    assert(o.0.to_multiset().add(o.1.to_multiset()).add(o.2.to_multiset()).add(o.3.to_multiset())
        =~= hidden.to_multiset().add(visible.to_multiset()).add(hand1.to_multiset()).add(
        hand2.to_multiset(),
    ));
}

/// `d` is what `r` rounds of dealing make of a face-down pile `hidden` of at least `2 * r`
/// cards: the pile loses its top `2 * r` cards; from the top down, the first, third, fifth...
/// go to the first hand and the second, fourth... to the second, each shown at its new place
/// in its hand, in the order dealt.
pub open spec fn dealt_from_top(
    hidden: Seq<u8>,
    hand1: Seq<u8>,
    hand2: Seq<u8>,
    updates: Seq<(Cell, Position)>,
    r: nat,
    d: (Seq<u8>, Seq<u8>, Seq<u8>, Seq<(Cell, Position)>),
) -> bool {
    let n = hidden.len() as int;
    &&& d.0 == hidden.subrange(0, n - 2 * r)
    &&& d.1 == hand1 + Seq::new(r, |i: int| hidden[n - 1 - 2 * i])
    &&& d.2 == hand2 + Seq::new(r, |i: int| hidden[n - 2 - 2 * i])
    &&& d.3.len() == updates.len() + 2 * r
    &&& d.3.subrange(0, updates.len() as int) == updates
    &&& forall|i: int|
        0 <= i < r ==> #[trigger] d.3[updates.len() + 2 * i] == (
            Cell::ResourceId(hidden[n - 1 - 2 * i] as u16),
            Position((hand1.len() + i) as usize, 2),
        ) && d.3[updates.len() + 2 * i + 1] == (
            Cell::ResourceId(hidden[n - 2 - 2 * i] as u16),
            Position((hand2.len() + i) as usize, 0),
        )
}

/// `r` rounds of dealing from a face-down pile of at least `2 * r` cards deal from the top.
proof fn lemma_deal_rounds_from_top(
    hidden: Seq<u8>,
    hand1: Seq<u8>,
    hand2: Seq<u8>,
    updates: Seq<(Cell, Position)>,
    r: nat,
)
    requires
        hidden.len() >= 2 * r,
        hand1.len() + r <= usize::MAX,
        hand2.len() + r <= usize::MAX,
    ensures
        dealt_from_top(hidden, hand1, hand2, updates, r, deal_rounds(hidden, hand1, hand2, updates, r)),
    decreases r,
{
    let n = hidden.len() as int;
    if r == 0 {
        assert(hidden.subrange(0, n) =~= hidden);
        assert(hand1 + Seq::new(0, |i: int| hidden[n - 1 - 2 * i]) =~= hand1);
        assert(hand2 + Seq::new(0, |i: int| hidden[n - 2 - 2 * i]) =~= hand2);
        assert(updates.subrange(0, updates.len() as int) =~= updates);
    } else {
        let r1 = (r - 1) as nat;
        lemma_deal_rounds_from_top(hidden, hand1, hand2, updates, r1);
        let d = deal_rounds(hidden, hand1, hand2, updates, r1);
        let a = dealt_to(d.0, d.1, d.3, 2);
        let b = dealt_to(a.0, d.2, a.2, 0);
        assert(d.0.last() == hidden[n - 1 - 2 * r1]);
        assert(a.0 =~= hidden.subrange(0, n - 2 * r1 - 1));
        assert(a.0.last() == hidden[n - 2 - 2 * r1]);
        assert(b.0 =~= hidden.subrange(0, n - 2 * r));
        assert(a.1 =~= hand1 + Seq::new(r, |i: int| hidden[n - 1 - 2 * i]));
        assert(b.1 =~= hand2 + Seq::new(r, |i: int| hidden[n - 2 - 2 * i]));
        assert(b.2.subrange(0, updates.len() as int) =~= updates);
        assert(deal_rounds(hidden, hand1, hand2, updates, r) == (b.0, a.1, b.1, b.2));
        assert forall|i: int|
            0 <= i < r implies #[trigger] b.2[updates.len() + 2 * i] == (
                Cell::ResourceId(hidden[n - 1 - 2 * i] as u16),
                Position((hand1.len() + i) as usize, 2),
            ) && b.2[updates.len() + 2 * i + 1] == (
                Cell::ResourceId(hidden[n - 2 - 2 * i] as u16),
                Position((hand2.len() + i) as usize, 0),
            ) by {
            if i < r1 {
                assert(b.2[updates.len() + 2 * i] == d.3[updates.len() + 2 * i]);
                assert(b.2[updates.len() + 2 * i + 1] == d.3[updates.len() + 2 * i + 1]);
            }
        }
        assert(dealt_from_top(hidden, hand1, hand2, updates, r, (b.0, a.1, b.1, b.2)));
    }
}

/// What dealing a round makes of a face-down pile of at least fifteen cards: the pile loses
/// its top fifteen cards; from the top down, the first, third, ... thirteenth go to the first
/// hand, the second, fourth, ... fourteenth to the second hand, and the fifteenth face up.
/// The updates show each card dealt at its new place, in the order dealt, then the face-up
/// card at column 1, row 1.
pub open spec fn full_deal(
    hidden: Seq<u8>,
    visible: Seq<u8>,
    hand1: Seq<u8>,
    hand2: Seq<u8>,
    o: (Seq<u8>, Seq<u8>, Seq<u8>, Seq<u8>, Seq<(Cell, Position)>),
) -> bool {
    let n = hidden.len() as int;
    &&& o.0 == hidden.subrange(0, n - 15)
    &&& o.1 == visible.push(hidden[n - 15])
    &&& dealt_from_top(hidden, hand1, hand2, Seq::empty(), 7, (o.0 + seq![hidden[n - 15]], o.2, o.3, o.4.drop_last()))
    &&& o.4.len() == 15
    &&& o.4[14] == (Cell::ResourceId(hidden[n - 15] as u16), Position(1, 1))
}

/// Dealing a round from a face-down pile of at least fifteen cards deals from the top, seven
/// cards to each hand in turn and one face up (see `full_deal`).
pub proof fn lemma_full_deal(hidden: Seq<u8>, visible: Seq<u8>, hand1: Seq<u8>, hand2: Seq<u8>)
    requires
        hidden.len() >= 15,
        hand1.len() + 7 <= usize::MAX,
        hand2.len() + 7 <= usize::MAX,
    ensures
        full_deal(hidden, visible, hand1, hand2, deal_outcome(hidden, visible, hand1, hand2)),
{
    let n = hidden.len() as int;
    lemma_deal_rounds_from_top(hidden, hand1, hand2, Seq::empty(), 7);
    let d = deal_rounds(hidden, hand1, hand2, Seq::empty(), 7);
    assert(d.0.last() == hidden[n - 15]);
    assert(d.0.drop_last() =~= hidden.subrange(0, n - 15));
    let o = deal_outcome(hidden, visible, hand1, hand2);
    assert(o.0 + seq![hidden[n - 15]] =~= d.0);
    assert(o.4.drop_last() =~= d.3);
}

/// A later turn played on an empty cell draws only at two places: with the cursor at column
/// 0, row 1, the top card of the face-down pile goes to the end of the first hand; at column
/// 1, row 1, the top card of the face-up pile does; anywhere else no pile changes and no cell
/// is redrawn. The card drawn is shown at its new place on row 2; when the pile is empty,
/// that place (the hand's last) is redrawn empty and no pile changes.
pub proof fn lemma_turn_draws_from_the_piles_only(pre: App, post: App, r: Option<Vec<(Cell, Position)>>)
    requires
        user_turn(pre, post, r),
        pre.turn_num != 0,
        mark_at(pre.board@, pre.cursor_position) == CELL_EMPTY,
    ensures
        r is Some,
        post.player2_cards@ == pre.player2_cards@,
        pre.cursor_position == Position(0, 1) ==> {
            &&& post.visible_cards@ == pre.visible_cards@
            &&& pre.hidden_cards@.len() > 0 ==> {
                &&& post.hidden_cards@ == pre.hidden_cards@.take(pre.hidden_cards@.len() - 1)
                &&& post.player1_cards@ == pre.player1_cards@ + seq![pre.hidden_cards@[pre.hidden_cards@.len() - 1]]
                &&& r.unwrap()@ == seq![(
                    Cell::ResourceId(pre.hidden_cards@[pre.hidden_cards@.len() - 1] as u16),
                    Position(pre.player1_cards@.len() as usize, 2),
                )]
            }
            &&& pre.hidden_cards@.len() == 0 ==> {
                &&& post.hidden_cards@ == pre.hidden_cards@
                &&& post.player1_cards@ == pre.player1_cards@
                &&& r.unwrap()@ == seq![(Cell::Empty, Position((pre.player1_cards@.len() - 1) as usize, 2))]
            }
        },
        pre.cursor_position == Position(1, 1) ==> {
            &&& post.hidden_cards@ == pre.hidden_cards@
            &&& pre.visible_cards@.len() > 0 ==> {
                &&& post.visible_cards@ == pre.visible_cards@.take(pre.visible_cards@.len() - 1)
                &&& post.player1_cards@ == pre.player1_cards@ + seq![pre.visible_cards@[pre.visible_cards@.len() - 1]]
                &&& r.unwrap()@ == seq![(
                    Cell::ResourceId(pre.visible_cards@[pre.visible_cards@.len() - 1] as u16),
                    Position(pre.player1_cards@.len() as usize, 2),
                )]
            }
            &&& pre.visible_cards@.len() == 0 ==> {
                &&& post.visible_cards@ == pre.visible_cards@
                &&& post.player1_cards@ == pre.player1_cards@
                &&& r.unwrap()@ == seq![(Cell::Empty, Position((pre.player1_cards@.len() - 1) as usize, 2))]
            }
        },
        pre.cursor_position != Position(0, 1) && pre.cursor_position != Position(1, 1) ==> {
            &&& post.hidden_cards@ == pre.hidden_cards@
            &&& post.visible_cards@ == pre.visible_cards@
            &&& post.player1_cards@ == pre.player1_cards@
            &&& r.unwrap()@.len() == 0
        },
{
    let h = pre.hidden_cards@;
    let v = pre.visible_cards@;
    let p1 = pre.player1_cards@;
    if h.len() > 0 {
        assert(h.drop_last() =~= h.take(h.len() - 1));
        assert(p1.push(h.last()) =~= p1 + seq![h[h.len() - 1]]);
    }
    if v.len() > 0 {
        assert(v.drop_last() =~= v.take(v.len() - 1));
        assert(p1.push(v.last()) =~= p1 + seq![v[v.len() - 1]]);
    }
    assert(Seq::<(Cell, Position)>::empty().push((Cell::Empty, Position((p1.len() - 1) as usize, 2)))
        =~= seq![(Cell::Empty, Position((p1.len() - 1) as usize, 2))]);
}

/// Key `o` with the cursor on the first hand's row (row 2) at a column `x` below 8: when the
/// hand holds a card at place `x`, that card leaves the hand (the others keep their order) and
/// goes on top of the face-up pile; otherwise no pile changes. The first cell redrawn is the
/// face-up pile's top at column 1, row 1, showing the card moved, or empty; then the places 0
/// to 7 of the hand, each showing the card now there, or empty. The face-down pile and the
/// second hand do not change.
pub proof fn lemma_discard_moves_the_card_under_the_cursor(pre: App, post: App, resp: KeyResponse)
    requires
        key_handled(pre, post, Key::Char('o'), resp),
        pre.cursor_position.1 == 2,
        pre.cursor_position.0 < 8,
    ensures
        resp.updates is Some,
        !resp.stop,
        post.hidden_cards@ == pre.hidden_cards@,
        post.player2_cards@ == pre.player2_cards@,
        resp.updates.unwrap()@.len() == 9,
        ({
            let x = pre.cursor_position.0 as int;
            let hand = pre.player1_cards@;
            if x < hand.len() {
                &&& post.player1_cards@ == hand.take(x) + hand.skip(x + 1)
                &&& post.visible_cards@ == pre.visible_cards@ + seq![hand[x]]
                &&& resp.updates.unwrap()@[0] == (Cell::ResourceId(hand[x] as u16), Position(1, 1))
            } else {
                &&& post.player1_cards@ == hand
                &&& post.visible_cards@ == pre.visible_cards@
                &&& resp.updates.unwrap()@[0] == (Cell::Empty, Position(1, 1))
            }
        }),
        forall|i: int|
            0 <= i < 8 ==> #[trigger] resp.updates.unwrap()@[i + 1] == (if i < post.player1_cards@.len() {
                (Cell::ResourceId(post.player1_cards@[i] as u16), Position(i as usize, 2))
            } else {
                (Cell::Empty, Position(i as usize, 2))
            }),
{
    let x = pre.cursor_position.0 as int;
    let hand = pre.player1_cards@;
    if x < hand.len() {
        assert(hand.remove(x) =~= hand.take(x) + hand.skip(x + 1));
        assert(pre.visible_cards@.push(hand[x]) =~= pre.visible_cards@ + seq![hand[x]]);
    }
    let u = resp.updates.unwrap()@;
    assert forall|i: int| 0 <= i < 8 implies #[trigger] u[i + 1] == (if i < post.player1_cards@.len() {
        (Cell::ResourceId(post.player1_cards@[i] as u16), Position(i as usize, 2))
    } else {
        (Cell::Empty, Position(i as usize, 2))
    }) by {
        assert(u[i + 1] == shown(item_at(post.player1_cards@, i), Position(i as usize, 2)));
    }
}

} // verus!
