use moss_decoder::MossHit;

#[test]
fn print_moss_hit() {
    let moss_hit = MossHit::default();

    println!("{str}", str = moss_hit.to_text());
    assert_eq!(moss_hit.to_text(), "reg: 0 row: 0 col: 0");
}

#[test]
fn moss_hit_text_has_all_digits() {
    let hit = MossHit::new(3, 301, 433);
    assert_eq!(hit.to_text(), "reg: 3 row: 301 col: 433");
    let hit = MossHit::new(1, 10, 511);
    assert_eq!(hit.to_text(), "reg: 1 row: 10 col: 511");
}
