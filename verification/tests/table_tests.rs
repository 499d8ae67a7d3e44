use correlation_bridge::idgen::IdentifierGenerator;
use correlation_bridge::table::CorrelationTable;

#[test]
fn insert_then_take_returns_the_handle() {
    let mut t: CorrelationTable<&'static str> = CorrelationTable::new();
    assert_eq!(t.len(), 0);
    t.insert(1, "one");
    t.insert(2, "two");
    assert_eq!(t.len(), 2);
    assert_eq!(t.take(1), Some("one"));
    assert_eq!(t.len(), 1);
    // redundant take finds nothing and changes nothing
    assert_eq!(t.take(1), None);
    assert_eq!(t.len(), 1);
    assert_eq!(t.take(2), Some("two"));
    assert_eq!(t.len(), 0);
}

#[test]
fn take_of_never_inserted_id_is_none() {
    let mut t: CorrelationTable<u32> = CorrelationTable::new();
    t.insert(7, 70);
    assert_eq!(t.take(8), None);
    assert_eq!(t.len(), 1);
    assert_eq!(t.take(7), Some(70));
}

#[test]
fn identifiers_start_at_one_and_step() {
    let mut g = IdentifierGenerator::new();
    assert_eq!(g.next(), 1);
    assert_eq!(g.next(), 2);
    assert_eq!(g.next(), 3);
}
