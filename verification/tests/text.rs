use erlang_actors_rust::text::number;

#[test]
fn numbers_in_decimal() {
    assert_eq!(number(0), "0");
    assert_eq!(number(9), "9");
    assert_eq!(number(10), "10");
    assert_eq!(number(1_234_567_890), "1234567890");
    assert_eq!(number(usize::MAX), format!("{}", usize::MAX));
}
