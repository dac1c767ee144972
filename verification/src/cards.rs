use vstd::prelude::*;
use std::collections::HashMap;
use crate::art::{BACK_ROWS, FACE_ROWS};

verus! {

/// Suit of a Spanish deck card; `Comodin` is the joker.
#[derive(Clone, Copy, PartialEq, Eq, Structural, Debug)]
pub enum Palo {
    Oro,
    Basto,
    Espada,
    Copa,
    Comodin,
}

/// One card of the deck: its place in the deck, suit, value and the text drawn for it.
pub struct Carta {
    pub id: usize,
    pub palo: Palo,
    pub value: u8,
    pub str_visual: String,
}

/// The deck: its cards, in the order they were added, and the picture of a card's back.
pub struct Mazo {
    pub cartas: Vec<Carta>,
    pub dorso: String,
}

/// The characters of the rows of a card picture, written one after another.
pub open spec fn joined(rows: Seq<&str>) -> Seq<char>
    decreases rows.len(),
{
    if rows.len() == 0 {
        Seq::empty()
    } else {
        joined(rows.drop_last()) + rows.last()@
    }
}

/// Suit of the `k`-th card loaded into the deck: two jokers, then the swords, clubs, coins
/// and cups, twelve of each.
pub open spec fn deck_palo(k: int) -> Palo {
    if k < 2 {
        Palo::Comodin
    } else if k < 14 {
        Palo::Espada
    } else if k < 26 {
        Palo::Basto
    } else if k < 38 {
        Palo::Oro
    } else {
        Palo::Copa
    }
}

/// Value of the `k`-th card loaded into the deck: 0 for the jokers, then 12 down to 1 in
/// each suit.
pub open spec fn deck_value(k: int) -> u8 {
    if k < 2 {
        0
    } else {
        (12 - (k - 2) % 12) as u8
    }
}

/// Picture of the `k`-th card loaded into the deck.
pub open spec fn deck_face(k: int) -> Seq<char> {
    joined(FACE_ROWS@[k]@)
}

/// Picture of a card's back.
pub open spec fn back_face() -> Seq<char> {
    joined(BACK_ROWS@)
}

/// `c` is the `k`-th card of the full deck and carries the id `id`.
pub open spec fn is_deck_card(c: Carta, k: int, id: int) -> bool {
    &&& c.id == id
    &&& c.palo == deck_palo(k)
    &&& c.value == deck_value(k)
    &&& c.str_visual@ == deck_face(k)
}

/// Writes the nine rows of a card picture one after another into one string.
pub fn make_str_card(rows: &[&str; 9]) -> (s: String)
    ensures
        s@ == joined(rows@),
{
    let mut s = String::new();
    let mut i: usize = 0;
    while i < 9
        invariant
            i <= 9,
            s@ == joined(rows@.take(i as int)),
        decreases 9 - i,
    {
        assert(rows@.take(i as int + 1).drop_last() == rows@.take(i as int));
        s.append(rows[i]);
        i = i + 1;
    }
    assert(rows@.take(9) == rows@);
    s
}

/// The picture of a card's back.
pub fn str_dorso() -> (s: String)
    ensures
        s@ == back_face(),
{
    make_str_card(&BACK_ROWS)
}

/// Suit and value of the `k`-th card of the full deck.
fn deck_entry(k: usize) -> (r: (Palo, u8))
    requires
        k < 50,
    ensures
        r.0 == deck_palo(k as int),
        r.1 == deck_value(k as int),
{
    if k < 2 {
        (Palo::Comodin, 0)
    } else {
        let value: u8 = (12 - (k - 2) % 12) as u8;
        let palo = if k < 14 {
            Palo::Espada
        } else if k < 26 {
            Palo::Basto
        } else if k < 38 {
            Palo::Oro
        } else {
            Palo::Copa
        };
        (palo, value)
    }
}

/// Appends the fifty cards of the deck, in order, to `mazo`.
pub fn load_cards(mazo: &mut Mazo)
    ensures
        final(mazo).dorso == old(mazo).dorso,
        final(mazo).cartas@.len() == old(mazo).cartas@.len() + 50,
        final(mazo).cartas@.take(old(mazo).cartas@.len() as int) == old(mazo).cartas@,
        forall|k: int|
            0 <= k < 50 ==> is_deck_card(
                #[trigger] final(mazo).cartas@[old(mazo).cartas@.len() + k],
                k,
                old(mazo).cartas@.len() + k,
            ),
{
    let ghost start = mazo.cartas@;
    let mut k: usize = 0;
    while k < 50
        invariant
            k <= 50,
            mazo.dorso == old(mazo).dorso,
            start == old(mazo).cartas@,
            mazo.cartas@.len() == start.len() + k,
            mazo.cartas@.take(start.len() as int) == start,
            forall|j: int|
                0 <= j < k ==> is_deck_card(
                    #[trigger] mazo.cartas@[start.len() + j],
                    j,
                    start.len() + j,
                ),
        decreases 50 - k,
    {
        let (palo, value) = deck_entry(k);
        let rows = FACE_ROWS[k];
        assert(rows@ == FACE_ROWS@[k as int]@);
        let face = make_str_card(&rows);
        let ghost before = mazo.cartas@;
        mazo.agregar(palo, value, face);
        assert forall|j: int| 0 <= j < k + 1 implies is_deck_card(
            #[trigger] mazo.cartas@[start.len() + j],
            j,
            start.len() + j,
        ) by {
            if j < k {
                assert(is_deck_card(before[start.len() + j], j, start.len() + j));
            }
        }
        assert(mazo.cartas@.take(start.len() as int) == before.take(start.len() as int));
        k = k + 1;
    }
}

/// The pictures the screen can show, by id: the picture of each card under its place in the
/// deck, and the back's picture under the next id.
pub fn create_resources(mazo: &Mazo) -> (res: HashMap<u16, String>)
    requires
        mazo.cartas@.len() <= u16::MAX,
    ensures
        res@.dom() == Set::new(|k: u16| k <= mazo.cartas@.len()),
        forall|k: u16| k < mazo.cartas@.len() ==> #[trigger] res@[k] == mazo.cartas@[k as int].str_visual,
        res@[mazo.cartas@.len() as u16] == mazo.dorso,
{
    broadcast use vstd::std_specs::hash::group_hash_axioms;

    let mut res: HashMap<u16, String> = HashMap::new();
    let mut i: u16 = 0;
    let n = mazo.cartas.len();
    while (i as usize) < n
        invariant
            n == mazo.cartas@.len(),
            n <= u16::MAX,
            i <= n,
            res@.dom() == Set::new(|k: u16| k < i),
            forall|k: u16| k < i ==> #[trigger] res@[k] == mazo.cartas@[k as int].str_visual,
        decreases n - i,
    {
        res.insert(i, mazo.cartas[i as usize].str_visual.clone());
        i += 1;
        assert(res@.dom() =~= Set::new(|k: u16| k < i));
    }
    res.insert(i, mazo.dorso.clone());
    assert(res@.dom() =~= Set::new(|k: u16| k <= mazo.cartas@.len()));
    res
}

impl Mazo {
    /// Every card's id is its place in the deck.
    pub open spec fn wf(&self) -> bool {
        forall|i: int| 0 <= i < self.cartas@.len() ==> (#[trigger] self.cartas@[i]).id == i
    }

    /// The full deck of fifty cards, with the back picture.
    pub fn new() -> (m: Self)
        ensures
            m.wf(),
            m.cartas@.len() == 50,
            forall|k: int| 0 <= k < 50 ==> is_deck_card(#[trigger] m.cartas@[k], k, k),
            m.dorso@ == back_face(),
    {
        let mut me = Mazo { cartas: Vec::new(), dorso: str_dorso() };
        load_cards(&mut me);
        assert forall|k: int| 0 <= k < 50 implies is_deck_card(#[trigger] me.cartas@[k], k, k) by {
            assert(is_deck_card(me.cartas@[0 + k], k, 0 + k));
        }
        me
    }

    /// Puts a new card on top of the deck; its id is the number of cards below it.
    pub fn agregar(&mut self, palo: Palo, value: u8, str_visual: String)
        ensures
            final(self).cartas@ == old(self).cartas@.push(
                (Carta { id: old(self).cartas.len(), palo, value, str_visual }),
            ),
            final(self).dorso == old(self).dorso,
            old(self).wf() ==> final(self).wf(),
    {
        let id = self.cartas.len();
        self.cartas.push(Carta { id, palo, value, str_visual });
    }

    /// Takes the top card off the deck, if there is one.
    pub fn sacar(&mut self) -> (r: Option<Carta>)
        ensures
            final(self).dorso == old(self).dorso,
            old(self).cartas@.len() == 0 ==> r is None && final(self).cartas@ == old(self).cartas@,
            old(self).cartas@.len() > 0 ==> r == Some(old(self).cartas@.last())
                && final(self).cartas@ == old(self).cartas@.drop_last(),
            old(self).wf() ==> final(self).wf(),
    {
        self.cartas.pop()
    }
}

/// A row of a card picture: fourteen characters, none of them a line break.
pub open spec fn is_picture_row(row: Seq<char>) -> bool {
    row.len() == 14 && !row.contains('\n')
}

/// The rows of a card picture: nine picture rows.
pub open spec fn is_picture(rows: Seq<&str>) -> bool {
    rows.len() == 9 && forall|j: int| 0 <= j < 9 ==> is_picture_row(#[trigger] rows[j]@)
}

/// The back and every face are drawn with nine rows of fourteen characters.
proof fn lemma_picture_rows()
    ensures
        is_picture(BACK_ROWS@),
        forall|k: int| 0 <= k < 50 ==> is_picture(#[trigger] FACE_ROWS@[k]@),
{
    reveal_strlit(r#"┌────────────┐"#);
    reveal_strlit(r#"│╳╳╳╳╳╳╳╳╳╳╳╳│"#);
    reveal_strlit(r#"│╳CARDASCII!╳│"#);
    reveal_strlit(r#"└────────────┘"#);
    reveal_strlit(r#"│J    o   o  │"#);
    reveal_strlit(r#"│O  o |\  |\ │"#);
    reveal_strlit(r#"│K  |\/_|/_| │"#);
    reveal_strlit(r#"│E |;  x  o| │"#);
    reveal_strlit(r#"│R  \    _|  │"#);
    reveal_strlit(r#"│   | `-/    │"#);
    reveal_strlit(r#"│            │"#);
    reveal_strlit(r#"┌──  ────  ──┐"#);
    reveal_strlit(r#"│12  /┼^^^^\ │"#);
    reveal_strlit(r#"│|\ (o_.o   )│"#);
    reveal_strlit(r#"│ \\ \     / │"#);
    reveal_strlit(r#"│ _\\_-&---\ │"#);
    reveal_strlit(r#"│   B .@.   \│"#);
    reveal_strlit(r#"│  /  |@|    │"#);
    reveal_strlit(r#"│ /   |@|  12│"#);
    reveal_strlit(r#"└──  ────  ──┘"#);
    reveal_strlit(r#"│11    ┌─@──┐│"#);
    reveal_strlit(r#"│|\    (o_ o)│"#);
    reveal_strlit(r#"│ \\   /    \│"#);
    reveal_strlit(r#"│ _\\_D__D   │"#);
    reveal_strlit(r#"│   B(o  o)__│"#);
    reveal_strlit(r#"│    /  /    │"#);
    reveal_strlit(r#"│   (..) \ 11│"#);
    reveal_strlit(r#"│10   ┌@───┐ │"#);
    reveal_strlit(r#"│     │____│ │"#);
    reveal_strlit(r#"│ |\  (o_ o) │"#);
    reveal_strlit(r#"│  \\ /    \ │"#);
    reveal_strlit(r#"│  _\\_    / │"#);
    reveal_strlit(r#"│    B \  /B │"#);
    reveal_strlit(r#"│       || 10│"#);
    reveal_strlit(r#"│9           │"#);
    reveal_strlit(r#"│   |\       │"#);
    reveal_strlit(r#"│    \\      │"#);
    reveal_strlit(r#"│    _\\_    │"#);
    reveal_strlit(r#"│      \     │"#);
    reveal_strlit(r#"│           9│"#);
    reveal_strlit(r#"│8           │"#);
    reveal_strlit(r#"│           8│"#);
    reveal_strlit(r#"│7           │"#);
    reveal_strlit(r#"│           7│"#);
    reveal_strlit(r#"│6           │"#);
    reveal_strlit(r#"│           6│"#);
    reveal_strlit(r#"│5           │"#);
    reveal_strlit(r#"│           5│"#);
    reveal_strlit(r#"│4           │"#);
    reveal_strlit(r#"│           4│"#);
    reveal_strlit(r#"│3           │"#);
    reveal_strlit(r#"│           3│"#);
    reveal_strlit(r#"│2           │"#);
    reveal_strlit(r#"│           2│"#);
    reveal_strlit(r#"│1           │"#);
    reveal_strlit(r#"│           1│"#);
    reveal_strlit(r#"┌─  ──  ──  ─┐"#);
    reveal_strlit(r#"│.-.(o_.o   )│"#);
    reveal_strlit(r#"│(  )\     / │"#);
    reveal_strlit(r#"│ ( )/-&---\ │"#);
    reveal_strlit(r#"│  () .@.   \│"#);
    reveal_strlit(r#"└─  ──  ──  ─┘"#);
    reveal_strlit(r#"│.-.   (o_ o)│"#);
    reveal_strlit(r#"│(  )  /    \│"#);
    reveal_strlit(r#"│ ( ) D__D   │"#);
    reveal_strlit(r#"│  ()(o  o)__│"#);
    reveal_strlit(r#"│.-.  │____│ │"#);
    reveal_strlit(r#"│(  ) (o_ o) │"#);
    reveal_strlit(r#"│ ( ) /    \ │"#);
    reveal_strlit(r#"│  ()/\    / │"#);
    reveal_strlit(r#"│      \  /B │"#);
    reveal_strlit(r#"│    .-.     │"#);
    reveal_strlit(r#"│    (  )    │"#);
    reveal_strlit(r#"│     ( )    │"#);
    reveal_strlit(r#"│      ()    │"#);
    reveal_strlit(r#"│   (o_.o   )│"#);
    reveal_strlit(r#"│ .-.\     / │"#);
    reveal_strlit(r#"│( O )-&---\ │"#);
    reveal_strlit(r#"│B`-` .@.   \│"#);
    reveal_strlit(r#"│ .-.  (o_ o)│"#);
    reveal_strlit(r#"│( O ) /    \│"#);
    reveal_strlit(r#"│ `-` D__D   │"#);
    reveal_strlit(r#"│    (o  o)__│"#);
    reveal_strlit(r#"│ .-. (o_ o) │"#);
    reveal_strlit(r#"│( O )/    \ │"#);
    reveal_strlit(r#"│ `-` \    / │"#);
    reveal_strlit(r#"│   ( O )    │"#);
    reveal_strlit(r#"│    `-`     │"#);
    reveal_strlit(r#"┌────    ────┐"#);
    reveal_strlit(r#"│ ___\     / │"#);
    reveal_strlit(r#"│(___)-&---\ │"#);
    reveal_strlit(r#"│B\_/ .@.   \│"#);
    reveal_strlit(r#"└────    ────┘"#);
    reveal_strlit(r#"│ ___  (o_ o)│"#);
    reveal_strlit(r#"│(___) /    \│"#);
    reveal_strlit(r#"│ \_/ D__D   │"#);
    reveal_strlit(r#"│ ___ (o_ o) │"#);
    reveal_strlit(r#"│(___)/    \ │"#);
    reveal_strlit(r#"│ \_/ \    / │"#);
    reveal_strlit(r#"│    ___     │"#);
    reveal_strlit(r#"│   (___)    │"#);
    reveal_strlit(r#"│    \_/     │"#);
    assert(is_picture(BACK_ROWS@));
    assert(is_picture(FACE_ROWS@[0]@));
    assert(is_picture(FACE_ROWS@[1]@));
    assert(is_picture(FACE_ROWS@[2]@));
    assert(is_picture(FACE_ROWS@[3]@));
    assert(is_picture(FACE_ROWS@[4]@));
    assert(is_picture(FACE_ROWS@[5]@));
    assert(is_picture(FACE_ROWS@[6]@));
    assert(is_picture(FACE_ROWS@[7]@));
    assert(is_picture(FACE_ROWS@[8]@));
    assert(is_picture(FACE_ROWS@[9]@));
    assert(is_picture(FACE_ROWS@[10]@));
    assert(is_picture(FACE_ROWS@[11]@));
    assert(is_picture(FACE_ROWS@[12]@));
    assert(is_picture(FACE_ROWS@[13]@));
    assert(is_picture(FACE_ROWS@[14]@));
    assert(is_picture(FACE_ROWS@[15]@));
    assert(is_picture(FACE_ROWS@[16]@));
    assert(is_picture(FACE_ROWS@[17]@));
    assert(is_picture(FACE_ROWS@[18]@));
    assert(is_picture(FACE_ROWS@[19]@));
    assert(is_picture(FACE_ROWS@[20]@));
    assert(is_picture(FACE_ROWS@[21]@));
    assert(is_picture(FACE_ROWS@[22]@));
    assert(is_picture(FACE_ROWS@[23]@));
    assert(is_picture(FACE_ROWS@[24]@));
    assert(is_picture(FACE_ROWS@[25]@));
    assert(is_picture(FACE_ROWS@[26]@));
    assert(is_picture(FACE_ROWS@[27]@));
    assert(is_picture(FACE_ROWS@[28]@));
    assert(is_picture(FACE_ROWS@[29]@));
    assert(is_picture(FACE_ROWS@[30]@));
    assert(is_picture(FACE_ROWS@[31]@));
    assert(is_picture(FACE_ROWS@[32]@));
    assert(is_picture(FACE_ROWS@[33]@));
    assert(is_picture(FACE_ROWS@[34]@));
    assert(is_picture(FACE_ROWS@[35]@));
    assert(is_picture(FACE_ROWS@[36]@));
    assert(is_picture(FACE_ROWS@[37]@));
    assert(is_picture(FACE_ROWS@[38]@));
    assert(is_picture(FACE_ROWS@[39]@));
    assert(is_picture(FACE_ROWS@[40]@));
    assert(is_picture(FACE_ROWS@[41]@));
    assert(is_picture(FACE_ROWS@[42]@));
    assert(is_picture(FACE_ROWS@[43]@));
    assert(is_picture(FACE_ROWS@[44]@));
    assert(is_picture(FACE_ROWS@[45]@));
    assert(is_picture(FACE_ROWS@[46]@));
    assert(is_picture(FACE_ROWS@[47]@));
    assert(is_picture(FACE_ROWS@[48]@));
    assert(is_picture(FACE_ROWS@[49]@));
}

/// Rows of fourteen characters with no line break join into a text of fourteen characters
/// per row with no line break.
proof fn lemma_joined_rows(rows: Seq<&str>)
    requires
        forall|j: int| 0 <= j < rows.len() ==> is_picture_row(#[trigger] rows[j]@),
    ensures
        joined(rows).len() == 14 * rows.len(),
        !joined(rows).contains('\n'),
    decreases rows.len(),
{
    if rows.len() > 0 {
        let front = rows.drop_last();
        assert forall|j: int| 0 <= j < front.len() implies is_picture_row(#[trigger] front[j]@) by {
            assert(front[j] == rows[j]);
        }
        lemma_joined_rows(front);
        let a = joined(front);
        let b = rows.last()@;
        assert(is_picture_row(rows[rows.len() - 1]@));
        if (a + b).contains('\n') {
            let i = choose|i: int| 0 <= i < (a + b).len() && (a + b)[i] == '\n';
            if i < a.len() {
                assert(a[i] == '\n');
            } else {
                assert(b[i - a.len()] == '\n');
            }
        }
    }
}

/// Every card picture, and the picture of the back, is nine rows of fourteen characters
/// written one after another: 126 characters, none of them a line break.
pub proof fn lemma_pictures_are_nine_by_fourteen()
    ensures
        back_face().len() == 126,
        !back_face().contains('\n'),
        forall|k: int|
            0 <= k < 50 ==> (#[trigger] deck_face(k)).len() == 126 && !deck_face(k).contains('\n'),
{
    lemma_picture_rows();
    lemma_joined_rows(BACK_ROWS@);
    assert forall|k: int| 0 <= k < 50 implies (#[trigger] deck_face(k)).len() == 126 && !deck_face(
        k,
    ).contains('\n') by {
        assert(is_picture(FACE_ROWS@[k]@));
        lemma_joined_rows(FACE_ROWS@[k]@);
    }
}

/// Taking the top card off the deck right after adding one gives back the card added and
/// leaves the deck as it was before.
pub proof fn lemma_sacar_undoes_agregar(cards: Seq<Carta>, added: Carta)
    ensures
        cards.push(added).len() > 0,
        cards.push(added).last() == added,
        cards.push(added).drop_last() == cards,
{
    assert(cards.push(added).drop_last() =~= cards);
}

} // verus!
