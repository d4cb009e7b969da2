use sigil_gen::glyph::generate;

#[test]
fn same_seed_gives_the_same_glyph() {
    macroquad::rand::srand(20_240_102);
    let once = generate("Hello World 42");
    macroquad::rand::srand(20_240_102);
    let again = generate("Hello World 42");
    assert!(once.is_some());
    assert_eq!(once, again);
}
