use chinchon::art::{BACK_ROWS, FACE_ROWS};
use chinchon::cards::{create_resources, load_cards, make_str_card, str_dorso, Mazo, Palo};

fn joined(rows: &[&str]) -> String {
    let mut s = String::new();
    for r in rows {
        s.push_str(r);
    }
    s
}

#[test]
fn make_str_card_writes_the_rows_one_after_another() {
    let rows = ["ab", "c", "", "def", "g", "h", "i", "j", "k"];
    assert_eq!(make_str_card(&rows), "abcdefghijk".to_string());
}

#[test]
fn str_dorso_is_the_back_picture() {
    let back = str_dorso();
    assert_eq!(back, joined(&BACK_ROWS));
    assert!(back.starts_with("┌────────────┐│╳╳╳╳╳╳╳╳╳╳╳╳│"));
    assert!(back.contains("│╳CARDASCII!╳│"));
    assert!(back.ends_with("└────────────┘"));
    assert_eq!(back.chars().count(), 9 * 14);
}

#[test]
fn new_deck_holds_fifty_cards_in_order() {
    let mazo = Mazo::new();
    assert_eq!(mazo.cartas.len(), 50);
    assert_eq!(mazo.dorso, str_dorso());
    let suits = [Palo::Espada, Palo::Basto, Palo::Oro, Palo::Copa];
    for (k, carta) in mazo.cartas.iter().enumerate() {
        assert_eq!(carta.id, k);
        if k < 2 {
            assert_eq!(carta.palo, Palo::Comodin);
            assert_eq!(carta.value, 0);
        } else {
            assert_eq!(carta.palo, suits[(k - 2) / 12]);
            assert_eq!(carta.value as usize, 12 - (k - 2) % 12);
        }
        assert_eq!(carta.str_visual, joined(&FACE_ROWS[k]));
        assert_eq!(carta.str_visual.chars().count(), 9 * 14);
    }
}

#[test]
fn new_deck_pictures() {
    let mazo = Mazo::new();
    assert!(mazo.cartas[0].str_visual.starts_with("┌────────────┐│J    o   o  ││O  o |\\  |\\ │"));
    assert!(mazo.cartas[2].str_visual.starts_with("┌──  ────  ──┐│12  /┼^^^^\\ │"));
    assert!(mazo.cartas[49].str_visual.contains("│1           │"));
    assert!(mazo.cartas[49].str_visual.ends_with("└────    ────┘"));
    assert!(mazo.cartas[29].str_visual.contains("│   ( O )    │"));
}

#[test]
fn agregar_numbers_the_card_by_its_place() {
    let mut mazo = Mazo { cartas: Vec::new(), dorso: String::new() };
    mazo.agregar(Palo::Oro, 5, "cinco".to_string());
    mazo.agregar(Palo::Copa, 11, "caballo".to_string());
    assert_eq!(mazo.cartas.len(), 2);
    assert_eq!(mazo.cartas[0].id, 0);
    assert_eq!(mazo.cartas[1].id, 1);
    assert_eq!(mazo.cartas[1].palo, Palo::Copa);
    assert_eq!(mazo.cartas[1].value, 11);
    assert_eq!(mazo.cartas[1].str_visual, "caballo");
}

#[test]
fn sacar_undoes_agregar() {
    let mut mazo = Mazo::new();
    mazo.agregar(Palo::Basto, 7, "siete".to_string());
    let c = mazo.sacar().unwrap();
    assert_eq!(c.id, 50);
    assert_eq!(c.palo, Palo::Basto);
    assert_eq!(c.value, 7);
    assert_eq!(c.str_visual, "siete");
    assert_eq!(mazo.cartas.len(), 50);
    assert_eq!(mazo.cartas[49].palo, Palo::Copa);
}

#[test]
fn sacar_takes_the_top_card() {
    let mut mazo = Mazo::new();
    let c = mazo.sacar().unwrap();
    assert_eq!(c.id, 49);
    assert_eq!(c.palo, Palo::Copa);
    assert_eq!(c.value, 1);
    assert_eq!(mazo.cartas.len(), 49);
}

#[test]
fn sacar_from_an_empty_deck_is_none() {
    let mut mazo = Mazo { cartas: Vec::new(), dorso: "x".to_string() };
    assert!(mazo.sacar().is_none());
    assert_eq!(mazo.cartas.len(), 0);
    assert_eq!(mazo.dorso, "x");
}

#[test]
fn load_cards_appends_after_the_cards_there() {
    let mut mazo = Mazo { cartas: Vec::new(), dorso: "d".to_string() };
    mazo.agregar(Palo::Oro, 1, "as".to_string());
    load_cards(&mut mazo);
    assert_eq!(mazo.cartas.len(), 51);
    assert_eq!(mazo.cartas[0].str_visual, "as");
    assert_eq!(mazo.cartas[1].id, 1);
    assert_eq!(mazo.cartas[1].palo, Palo::Comodin);
    assert_eq!(mazo.cartas[50].id, 50);
    assert_eq!(mazo.cartas[50].palo, Palo::Copa);
    assert_eq!(mazo.dorso, "d");
}

#[test]
fn create_resources_maps_ids_to_pictures() {
    let mazo = Mazo::new();
    let res = create_resources(&mazo);
    assert_eq!(res.len(), 51);
    for k in 0..50u16 {
        assert_eq!(res[&k], mazo.cartas[k as usize].str_visual);
    }
    assert_eq!(res[&50], mazo.dorso);
}

#[test]
fn create_resources_of_an_empty_deck_holds_the_back() {
    let mazo = Mazo { cartas: Vec::new(), dorso: "back".to_string() };
    let res = create_resources(&mazo);
    assert_eq!(res.len(), 1);
    assert_eq!(res[&0], "back");
}

#[test]
fn pictures_are_nine_rows_of_fourteen() {
    let mazo = Mazo::new();
    let back = str_dorso();
    assert_eq!(back.chars().count(), 126);
    assert!(!back.contains('\n'));
    for carta in &mazo.cartas {
        assert_eq!(carta.str_visual.chars().count(), 126);
        assert!(!carta.str_visual.contains('\n'));
    }
    for rows in FACE_ROWS.iter() {
        for row in rows.iter() {
            assert_eq!(row.chars().count(), 14);
        }
    }
}
