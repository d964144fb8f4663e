use block_mining::game::descriptor::{AvailableBlock, AvailableBlockData, PlayerBlockData};
use block_mining::game::menus::mined_statistics_page;
use block_mining::game::registry::GlobalBlockRegistry;
use std::cmp::Ordering;
use std::collections::hash_map::DefaultHasher;
use std::hash::{Hash, Hasher};

fn data(ordinal: usize, health: u128) -> AvailableBlockData {
    AvailableBlockData {
        block_ordinal: ordinal,
        block_id: 10 * ordinal as i32,
        item_id: 10 * ordinal as i32 + 1,
        initial_health: health,
    }
}

fn entry(ordinal: usize, name: &str, is_default: bool) -> AvailableBlock {
    AvailableBlock {
        block_data: data(ordinal, 1 + ordinal as u128),
        friendly_name: name.to_string(),
        is_default,
    }
}

fn hash_of(value: &AvailableBlockData) -> u64 {
    let mut hasher = DefaultHasher::new();
    value.hash(&mut hasher);
    hasher.finish()
}

#[test]
fn descriptors_are_equal_when_their_ordinals_are() {
    let a = AvailableBlockData { block_ordinal: 4, block_id: 1, item_id: 2, initial_health: 3 };
    let b = AvailableBlockData { block_ordinal: 4, block_id: 9, item_id: 8, initial_health: 7 };
    let c = AvailableBlockData { block_ordinal: 5, block_id: 1, item_id: 2, initial_health: 3 };
    assert!(a == b);
    assert!(a != c);
    assert_eq!(hash_of(&a), hash_of(&b));
    assert_eq!(hash_of(&a), {
        let mut hasher = DefaultHasher::new();
        4usize.hash(&mut hasher);
        hasher.finish()
    });
}

#[test]
fn descriptors_are_ordered_by_ordinal() {
    let low = AvailableBlockData { block_ordinal: 1, block_id: 90, item_id: 90, initial_health: 90 };
    let high = AvailableBlockData { block_ordinal: 2, block_id: 0, item_id: 0, initial_health: 0 };
    let same = AvailableBlockData { block_ordinal: 2, block_id: 5, item_id: 5, initial_health: 5 };
    assert_eq!(low.partial_cmp(&high), Some(Ordering::Less));
    assert_eq!(high.partial_cmp(&low), Some(Ordering::Greater));
    assert_eq!(high.partial_cmp(&same), Some(Ordering::Equal));
    assert!(low < high);
    assert!(high >= same);
    assert!(!(high < same));
}

#[test]
fn registry_finds_blocks_by_ordinal_and_by_data() {
    let registry = GlobalBlockRegistry::create(vec![
        entry(0, "Stone", true),
        entry(3, "Granite", false),
        entry(7, "Diamond Ore", false),
    ]);
    assert_eq!(registry.search_by_ordinal(3).unwrap().friendly_name, "Granite");
    assert_eq!(registry.search_by_ordinal(7).unwrap().block_data.block_id, 70);
    assert!(registry.search_by_ordinal(1).is_none());
    assert!(registry.search_by_ordinal(usize::MAX).is_none());

    let probe = AvailableBlockData { block_ordinal: 0, block_id: -1, item_id: -1, initial_health: 0 };
    let found = registry.get(&probe).unwrap();
    assert_eq!(found.friendly_name, "Stone");
    assert_eq!(found.block_data.block_id, 0);
    assert_eq!(found.block_data.initial_health, 1);
    assert!(found.is_default);
    assert!(registry.get(&data(2, 1)).is_none());
}

#[test]
fn registry_keeps_the_later_of_two_blocks_with_one_ordinal() {
    let registry = GlobalBlockRegistry::create(vec![
        entry(2, "First", true),
        entry(5, "Other", true),
        entry(2, "Second", false),
    ]);
    let kept = registry.search_by_ordinal(2).unwrap();
    assert_eq!(kept.friendly_name, "Second");
    assert!(!kept.is_default);
    assert_eq!(registry.get_all().len(), 2);
}

#[test]
fn registry_lists_every_block_once() {
    let registry = GlobalBlockRegistry::create(
        (0..40).map(|i| entry(i, &format!("Block {}", i), i % 3 == 0)).collect(),
    );
    let mut ordinals: Vec<usize> =
        registry.get_all().iter().map(|b| b.block_data.block_ordinal).collect();
    ordinals.sort();
    assert_eq!(ordinals, (0..40).collect::<Vec<usize>>());
    assert!(GlobalBlockRegistry::create(Vec::new()).get_all().is_empty());
}

#[test]
fn default_blocks_are_the_registry_defaults() {
    let registry = GlobalBlockRegistry::create(
        (0..40).map(|i| entry(i, &format!("Block {}", i), i % 3 == 0)).collect(),
    );
    let mut unlocked = registry.default_blocks();
    unlocked.sort_by_key(|d| d.block_ordinal);
    let expected: Vec<usize> = (0..40).filter(|i| i % 3 == 0).collect();
    assert_eq!(unlocked.iter().map(|d| d.block_ordinal).collect::<Vec<usize>>(), expected);
    for d in &unlocked {
        assert_eq!(d.block_id, 10 * d.block_ordinal as i32);
        assert_eq!(d.item_id, 10 * d.block_ordinal as i32 + 1);
        assert_eq!(d.initial_health, 1 + d.block_ordinal as u128);
    }
    let none = GlobalBlockRegistry::create(vec![entry(1, "Locked", false)]);
    assert!(none.default_blocks().is_empty());
}

#[test]
fn item_of_a_block_shows_name_and_count() {
    let block = entry(3, "Deepslate", false);
    let item = block.create_item(1204);
    assert_eq!(item.item_id, 31);
    assert_eq!(item.display_name, "Deepslate");
    assert_eq!(item.mined_line, "Mined: x1204");
    assert_eq!(block.create_item(0).mined_line, "Mined: x0");
    assert_eq!(
        block.create_item(u128::MAX).mined_line,
        "Mined: x340282366920938463463374607431768211455"
    );
}

#[test]
fn new_block_data_is_empty_and_unchanged() {
    let fresh = PlayerBlockData::default();
    assert!(fresh.unlocked_blocks.is_empty());
    assert!(fresh.mined_blocks.is_empty());
    assert!(!fresh.changed);
}

#[test]
fn statistics_page_fills_rows_of_nine_with_the_known_blocks() {
    let registry = GlobalBlockRegistry::create(
        (0..30).filter(|i| i % 5 != 4).map(|i| entry(i, &format!("Block {}", i), false)).collect(),
    );
    let stats = PlayerBlockData {
        unlocked_blocks: Vec::new(),
        mined_blocks: (0..25).map(|i| 1000 + i as u128).collect(),
        changed: false,
    };
    let page = mined_statistics_page(&stats, &registry);
    let known: Vec<usize> = (0..25).filter(|i| i % 5 != 4).collect();
    assert_eq!(page.len(), known.len());
    assert_eq!(page.len(), 20);
    for (k, shown) in page.iter().enumerate() {
        assert_eq!(shown.block.block_data.block_ordinal, known[k]);
        assert_eq!(shown.block.friendly_name, format!("Block {}", known[k]));
        assert_eq!(shown.mined_count, 1000 + known[k] as u128);
        assert_eq!(shown.x, k % 9);
        assert_eq!(shown.y, k / 9);
    }
    assert_eq!((page[8].x, page[8].y), (8, 0));
    assert_eq!((page[9].x, page[9].y), (0, 1));
    assert_eq!((page[19].x, page[19].y), (1, 2));
}

#[test]
fn statistics_page_of_a_player_without_counts_is_empty() {
    let registry = GlobalBlockRegistry::create(vec![entry(0, "Stone", true)]);
    assert!(mined_statistics_page(&PlayerBlockData::default(), &registry).is_empty());
    let unknown = GlobalBlockRegistry::create(Vec::new());
    let stats = PlayerBlockData { unlocked_blocks: vec![], mined_blocks: vec![3, 4], changed: true };
    assert!(mined_statistics_page(&stats, &unknown).is_empty());
}
