use card_trick::deck::{Card, Deck, Suit};
use card_trick::error::LogicError;
use card_trick::player::Player;
use card_trick::table::Table;

#[test]
fn test_is_greater() {
    let card_1 = Card {
        value: 5,
        suit: Suit::Spades,
    };
    let card_2 = Card {
        value: 5,
        suit: Suit::Hearts,
    };
    let card_3 = Card {
        value: 6,
        suit: Suit::Spades,
    };
    let card_4 = Card {
        value: 4,
        suit: Suit::Spades,
    };
    let card_5 = Card {
        value: 5,
        suit: Suit::Clubs,
    };

    assert!(card_1.is_greater(&card_2));
    assert!(card_3.is_greater(&card_1));
    assert!(!card_1.is_greater(&card_3));
    assert!(card_1.is_greater(&card_4));
    assert!(card_2.is_greater(&card_5));
}

fn test_players() -> [Player; 4] {
    [
        Player::with_hand(
            "Alice",
            vec![Card {
                value: 5,
                suit: Suit::Spades,
            }],
        ),
        Player::with_hand(
            "Bob",
            vec![Card {
                value: 5,
                suit: Suit::Hearts,
            }],
        ),
        Player::with_hand(
            "Charlie",
            vec![Card {
                value: 6,
                suit: Suit::Spades,
            }],
        ),
        Player::with_hand(
            "Dave",
            vec![Card {
                value: 4,
                suit: Suit::Spades,
            }],
        ),
    ]
}

#[test]
fn test_strongest_card_holder() {
    let players = test_players();
    let mut table = Table::new(test_players());

    for mut player in players {
        player.play_card_from_hand(&mut table, 0);
    }

    assert_eq!(table.strongest_card_holder(), Some(test_players()[2].clone()));
}

#[test]
fn test_deck_completeness() {
    let mut deck = Deck::new();
    let mut drawn: Vec<Card> = Vec::new();
    while let Some(card) = deck.draw() {
        drawn.push(card);
    }
    assert_eq!(drawn.len(), 48);
    for suit in [Suit::Spades, Suit::Hearts, Suit::Diamonds, Suit::Clubs] {
        for value in 2..14 {
            let wanted = Card { value, suit };
            let count = drawn.iter().filter(|c| **c == wanted).count();
            assert_eq!(count, 1, "card missing or duplicated: {:?}", wanted);
        }
    }
}

#[test]
fn test_deck_empty_draws_forever_none() {
    let mut deck = Deck::new();
    for _ in 0..48 {
        assert!(deck.draw().is_some());
    }
    assert_eq!(deck.draw(), None);
    assert_eq!(deck.draw(), None);
    assert_eq!(deck.draw(), None);
}

#[test]
fn test_player_new_has_empty_hand() {
    let player = Player::new("Erin");
    assert_eq!(player.name, "Erin".to_string());
    assert!(player.get_hand().is_empty());
}

#[test]
fn test_player_draw_appends_to_hand() {
    let mut deck = Deck::new();
    let mut player = Player::new("Erin");
    let first = player.draw(&mut deck).unwrap();
    let second = player.draw(&mut deck).unwrap();
    assert_eq!(player.get_hand(), vec![first, second]);
}

#[test]
fn test_player_draw_from_empty_deck() {
    let mut deck = Deck::new();
    while deck.draw().is_some() {}
    let mut player = Player::new("Erin");
    assert_eq!(player.draw(&mut deck), None);
    assert!(player.get_hand().is_empty());
}

#[test]
fn test_play_card_from_hand_removes_index() {
    let low = Card {
        value: 2,
        suit: Suit::Clubs,
    };
    let mid = Card {
        value: 7,
        suit: Suit::Hearts,
    };
    let high = Card {
        value: 13,
        suit: Suit::Spades,
    };
    let mut player = Player::with_hand("Alice", vec![low, mid, high]);
    let mut table = Table::new([
        Player::new("Alice"),
        Player::new("Bob"),
        Player::new("Charlie"),
        Player::new("Dave"),
    ]);
    player.play_card_from_hand(&mut table, 1);
    assert_eq!(player.get_hand(), vec![low, high]);
    assert_eq!(
        table.strongest_card_holder().map(|p| p.name),
        Some("Alice".to_string())
    );
}

#[test]
fn test_partial_trick_two_cards() {
    let mut table = Table::new([
        Player::new("Alice"),
        Player::new("Bob"),
        Player::new("Charlie"),
        Player::new("Dave"),
    ]);
    Player::new("Bob").play_card(
        &mut table,
        Card {
            value: 9,
            suit: Suit::Clubs,
        },
    );
    Player::new("Dave").play_card(
        &mut table,
        Card {
            value: 3,
            suit: Suit::Spades,
        },
    );
    assert_eq!(
        table.strongest_card_holder().map(|p| p.name),
        Some("Bob".to_string())
    );
}

#[test]
fn test_empty_table_has_no_winner() {
    let table = Table::new([
        Player::new("Alice"),
        Player::new("Bob"),
        Player::new("Charlie"),
        Player::new("Dave"),
    ]);
    assert_eq!(table.strongest_card_holder(), None);
}

#[test]
fn test_unknown_player_placement_is_ignored() {
    let players = test_players();
    let mut table = Table::new(test_players());
    for mut player in players {
        player.play_card_from_hand(&mut table, 0);
    }
    let stranger = Player::new("Mallory");
    stranger.play_card(
        &mut table,
        Card {
            value: 13,
            suit: Suit::Spades,
        },
    );
    // The stranger's stronger card must not land anywhere: Charlie's
    // 6 of Spades still wins and every slot is as it was.
    assert_eq!(table.strongest_card_holder(), Some(test_players()[2].clone()));
}

#[test]
fn test_replacing_a_played_card() {
    let mut table = Table::new([
        Player::new("Alice"),
        Player::new("Bob"),
        Player::new("Charlie"),
        Player::new("Dave"),
    ]);
    let alice = Player::new("Alice");
    let bob = Player::new("Bob");
    alice.play_card(
        &mut table,
        Card {
            value: 13,
            suit: Suit::Spades,
        },
    );
    bob.play_card(
        &mut table,
        Card {
            value: 5,
            suit: Suit::Hearts,
        },
    );
    // Alice replaces her own card with a weaker one; Bob now wins.
    alice.play_card(
        &mut table,
        Card {
            value: 2,
            suit: Suit::Clubs,
        },
    );
    assert_eq!(
        table.strongest_card_holder().map(|p| p.name),
        Some("Bob".to_string())
    );
}

#[test]
fn test_suit_to_string() {
    assert_eq!(Suit::Spades.to_string(), "Spades".to_string());
    assert_eq!(Suit::Hearts.to_string(), "Hearts".to_string());
    assert_eq!(Suit::Diamonds.to_string(), "Diamonds".to_string());
    assert_eq!(Suit::Clubs.to_string(), "Clubs".to_string());
}

#[test]
fn test_card_to_string() {
    let card = Card {
        value: 5,
        suit: Suit::Spades,
    };
    assert_eq!(card.to_string(), "5 of Spades".to_string());
    let negative = Card {
        value: -12,
        suit: Suit::Hearts,
    };
    assert_eq!(negative.to_string(), "-12 of Hearts".to_string());
}

#[test]
fn test_logic_error_message() {
    let err = LogicError::Generic("hand out of sync".to_string());
    assert_eq!(
        err.message(),
        "Generic logic error: hand out of sync".to_string()
    );
}
