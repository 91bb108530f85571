use game_client::content::ContentType;
use game_client::logic::InsertTypes;

#[test]
fn insert_types_getters() {
    assert_eq!(InsertTypes::Int(-4).get_int(), -4);
    assert_eq!(InsertTypes::UInt(4).get_int(), 0);
    assert_eq!(InsertTypes::UInt(9).get_uint(), 9);
    assert_eq!(InsertTypes::Bool(true).get_uint(), 0);
    assert_eq!(InsertTypes::Str("abc".to_string()).get_string(), "abc");
    assert_eq!(InsertTypes::Int(1).get_string(), "");
}

#[test]
fn content_types_differ() {
    assert!(ContentType::Menu != ContentType::Game);
}
