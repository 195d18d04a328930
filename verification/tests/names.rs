use cypher_cli::cli::names::name_matches;
use cypher_cli::cli::perpetuals::book_order_index;

fn padded(name: &str) -> [u8; 32] {
    let mut b = [0u8; 32];
    b[..name.len()].copy_from_slice(name.as_bytes());
    b
}

#[test]
fn padded_names_match_their_symbol() {
    assert!(name_matches(&padded("SOL-PERP"), b"SOL-PERP"));
    assert!(!name_matches(&padded("SOL-PERP"), b"SOL"));
    assert!(!name_matches(&padded("SOL"), b"SOL-PERP"));
    let mut leading = [0u8; 8];
    leading[2..5].copy_from_slice(b"BTC");
    assert!(name_matches(&leading, b"BTC"));
    assert!(name_matches(&[0u8; 4], b""));
}

#[test]
fn book_orders_are_found_by_id() {
    assert_eq!(book_order_index(&[5, 9, 9], 9), Some(1));
    assert_eq!(book_order_index(&[5, 9], 7), None);
}
