use sigil_gen::glyph::{
    generate, generate_with, place_points, shuffle_with, GlyphDraws, GlyphPoint, FULL_TURN,
    MAX_JITTER,
};
use sigil_gen::normalize::{digit, digit_sequence, kept, lower, normalize};

fn sorted(mut v: Vec<u8>) -> Vec<u8> {
    v.sort();
    v
}

fn labels(points: &[GlyphPoint]) -> Vec<u8> {
    points.iter().map(|p| p.label).collect()
}

#[test]
fn kept_characters() {
    assert!(kept('h'));
    assert!(kept('H'));
    assert!(kept('7'));
    assert!(!kept('a'));
    assert!(!kept('E'));
    assert!(!kept(' '));
    assert!(!kept('!'));
    assert!(!kept('ñ'));
}

#[test]
fn lower_turns_capitals_only() {
    assert_eq!(lower('H'), 'h');
    assert_eq!(lower('Z'), 'z');
    assert_eq!(lower('h'), 'h');
    assert_eq!(lower('5'), '5');
}

#[test]
fn digit_of_each_symbol() {
    assert_eq!(digit('0'), 0);
    assert_eq!(digit('9'), 9);
    assert_eq!(digit('b'), 1);
    assert_eq!(digit('k'), 0);
    assert_eq!(digit('l'), 1);
    assert_eq!(digit('w'), 2);
    assert_eq!(digit('z'), 5);
}

#[test]
fn hello_world_normalizes_to_five_symbols() {
    let symbols: String = normalize("Hello World").into_iter().collect();
    assert_eq!(symbols, "hlwrd");
    assert_eq!(digit_sequence("Hello World"), vec![7, 1, 2, 7, 3]);
}

#[test]
fn normalize_keeps_first_occurrences() {
    let symbols: String = normalize("Banana bread B4 4 dawn!").into_iter().collect();
    assert_eq!(symbols, "bnrd4w");
    assert_eq!(digit_sequence("Banana bread B4 4 dawn!"), vec![1, 3, 7, 3, 4, 2]);
}

#[test]
fn hello_world_gives_five_points() {
    let points = generate("Hello World").expect("a glyph");
    assert_eq!(points.len(), 5);
    assert_eq!(sorted(labels(&points)), vec![1, 2, 3, 7, 7]);
    for p in &points {
        assert!(p.label <= 9);
        assert!([7u8, 1, 2, 3].contains(&p.label));
        assert!(-MAX_JITTER <= p.angle && p.angle < FULL_TURN + MAX_JITTER);
    }
}

#[test]
fn vowels_only_gives_no_glyph() {
    assert_eq!(generate("aeiou"), None);
    assert_eq!(generate("AEIOU aeiou"), None);
}

#[test]
fn blank_and_empty_give_no_glyph() {
    assert_eq!(generate(""), None);
    assert_eq!(generate("   \t "), None);
    assert_eq!(generate("!?-_"), None);
    assert_eq!(generate_with("", &GlyphDraws::still(1)), None);
}

#[test]
fn still_draws_keep_digits_in_order_at_even_places() {
    let draws = GlyphDraws::still(5);
    assert_eq!(draws.first, vec![4, 3, 2, 1]);
    assert_eq!(draws.second, vec![4, 3, 2, 1]);
    assert_eq!(draws.jitter, vec![0, 0, 0, 0, 0]);
    let points = generate_with("Hello World", &draws).expect("a glyph");
    assert_eq!(
        points,
        vec![
            GlyphPoint { angle: 0, label: 7 },
            GlyphPoint { angle: 1_256_637, label: 1 },
            GlyphPoint { angle: 2_513_274, label: 2 },
            GlyphPoint { angle: 3_769_911, label: 7 },
            GlyphPoint { angle: 5_026_548, label: 3 },
        ]
    );
}

#[test]
fn same_draws_give_the_same_glyph() {
    let draws = GlyphDraws {
        first: vec![1, 0, 2, 0],
        jitter: vec![-200_000, 5, 0, 199_999, -1],
        second: vec![4, 0, 0, 1],
    };
    let once = generate_with("Hello World", &draws);
    let again = generate_with("Hello World", &draws);
    assert_eq!(once, again);
}

#[test]
fn given_draws_give_the_expected_glyph() {
    let draws = GlyphDraws {
        first: vec![1, 0, 2, 0],
        jitter: vec![-200_000, 5, 0, 199_999, -1],
        second: vec![4, 0, 0, 1],
    };
    // digits 7 1 2 7 3: swap(4,1) -> 7 3 2 7 1; swap(3,0) -> 7 3 2 7 1;
    // swap(2,2); swap(1,0) -> 3 7 2 7 1.
    // angles a0..a4: swap(4,4); swap(3,0) -> a3 a1 a2 a0 a4;
    // swap(2,0) -> a2 a1 a3 a0 a4; swap(1,1).
    let points = generate_with("Hello World", &draws).expect("a glyph");
    assert_eq!(
        points,
        vec![
            GlyphPoint { angle: 2_513_274, label: 3 },
            GlyphPoint { angle: 1_256_642, label: 7 },
            GlyphPoint { angle: 3_969_910, label: 2 },
            GlyphPoint { angle: -200_000, label: 7 },
            GlyphPoint { angle: 5_026_547, label: 1 },
        ]
    );
}

#[test]
fn shuffle_from_the_right() {
    let mut v = vec!['a', 'b', 'c', 'd'];
    shuffle_with(&mut v, &vec![0, 1, 0]);
    // swap(3,0) -> d b c a; swap(2,1) -> d c b a; swap(1,0) -> c d b a
    assert_eq!(v, vec!['c', 'd', 'b', 'a']);
    let mut one = vec![9u8];
    shuffle_with(&mut one, &vec![]);
    assert_eq!(one, vec![9]);
}

#[test]
fn place_points_of_a_single_digit() {
    let draws = GlyphDraws { first: vec![], jitter: vec![123], second: vec![] };
    assert_eq!(place_points(&vec![4], &draws), vec![GlyphPoint { angle: 123, label: 4 }]);
}

#[test]
fn labels_are_the_digits_rearranged() {
    for phrase in ["Hello World", "the quick brown fox jumps over the lazy dog 0123456789", "x"] {
        let digits = digit_sequence(phrase);
        for _ in 0..20 {
            let points = generate(phrase).expect("a glyph");
            assert_eq!(points.len(), digits.len());
            assert_eq!(sorted(labels(&points)), sorted(digits.clone()));
        }
    }
}

#[test]
fn random_draws_fit_and_vary() {
    let mut saw_other_than_low = false;
    let mut saw_nonzero_index = false;
    for _ in 0..50 {
        let draws = GlyphDraws::random(31);
        assert_eq!(draws.first.len(), 30);
        assert_eq!(draws.second.len(), 30);
        assert_eq!(draws.jitter.len(), 31);
        for (k, j) in draws.first.iter().enumerate() {
            assert!(*j <= 30 - k);
            saw_nonzero_index |= *j != 0;
        }
        for (k, j) in draws.second.iter().enumerate() {
            assert!(*j <= 30 - k);
        }
        for j in &draws.jitter {
            assert!(-MAX_JITTER <= *j && *j < MAX_JITTER);
            saw_other_than_low |= *j != -MAX_JITTER;
        }
    }
    assert!(saw_other_than_low);
    assert!(saw_nonzero_index);
}

#[test]
fn a_long_phrase_has_at_most_thirty_one_points() {
    let phrase = "The Quick Brown Fox Jumps Over The Lazy Dog 0123456789 again and again";
    let points = generate(phrase).expect("a glyph");
    assert_eq!(points.len(), 31);
}
