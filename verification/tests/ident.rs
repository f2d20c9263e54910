//! Ids, names and maps in order.

use groundhog::ident::{text_against, AtomicMavlinkId, Ident, MavlinkId};
use groundhog::link::LinkId;
use groundhog::sorted::{Key, Rank, SortedMap};

fn id(system: u8, component: u8) -> MavlinkId {
    MavlinkId { system, component }
}

#[test]
fn a_packed_id_is_loaded_as_it_was_stored() {
    let mut cell = AtomicMavlinkId::new(255, 1);
    assert_eq!(cell.load(), id(255, 1));
    cell.store(id(3, 200));
    assert_eq!(cell.load(), id(3, 200));
}

#[test]
fn ids_are_ordered_by_system_then_by_component() {
    let ids = [id(0, 0), id(0, 255), id(1, 0), id(1, 1), id(255, 0)];
    for a in ids {
        for b in ids {
            let rank = match a.cmp(&b) {
                std::cmp::Ordering::Less => Rank::Before,
                std::cmp::Ordering::Equal => Rank::Same,
                std::cmp::Ordering::Greater => Rank::Behind,
            };
            assert_eq!(a.against(&b), rank);
        }
    }
}

#[test]
fn texts_are_ordered_as_std_orders_them() {
    let texts = ["", "a", "ab", "b", "B", "ä", "z", "a.b", "a_b", "\u{10000}", "\u{ffff}"];
    for a in texts {
        for b in texts {
            let rank = match a.cmp(b) {
                std::cmp::Ordering::Less => Rank::Before,
                std::cmp::Ordering::Equal => Rank::Same,
                std::cmp::Ordering::Greater => Rank::Behind,
            };
            assert_eq!(text_against(a, b), rank);
        }
    }
}

#[test]
fn a_name_has_at_most_sixteen_bytes() {
    assert_eq!(Ident::new("0123456789abcdef").map(|n| n.as_str().to_string()), Some("0123456789abcdef".to_string()));
    assert!(Ident::new("0123456789abcdefg").is_none());
    assert!(Ident::new("0123456789abcdeä").is_none());
    assert!(Ident::new("").is_some());
}

#[test]
fn a_map_keeps_its_entries_in_order() {
    let mut map: SortedMap<LinkId, &str> = SortedMap::new();
    assert!(map.is_empty());
    map.insert(LinkId(5), "five");
    map.insert(LinkId(1), "one");
    map.insert(LinkId(9), "nine");
    map.insert(LinkId(5), "FIVE");
    assert_eq!(map.entries, vec![(LinkId(1), "one"), (LinkId(5), "FIVE"), (LinkId(9), "nine")]);
    assert_eq!(map.len(), 3);
    assert_eq!(map.get(&LinkId(5)), Some(&"FIVE"));
    assert_eq!(map.get(&LinkId(2)), None);
    assert!(map.contains_key(&LinkId(9)));
    assert_eq!(map.find(&LinkId(9)), Some(2));
}

#[test]
fn a_value_is_changed_in_place() {
    let mut map: SortedMap<LinkId, i32> = SortedMap::new();
    *map.get_mut_or_insert(LinkId(7), 0) += 3;
    *map.get_mut_or_insert(LinkId(7), 100) += 4;
    *map.get_mut_or_insert(LinkId(2), 50) += 1;
    assert_eq!(map.entries, vec![(LinkId(2), 51), (LinkId(7), 7)]);
    match map.get_mut(&LinkId(7)) {
        Some(v) => *v = -1,
        None => panic!("the key is there"),
    }
    assert!(map.get_mut(&LinkId(8)).is_none());
    assert_eq!(map.entries, vec![(LinkId(2), 51), (LinkId(7), -1)]);
}
