use entity_index::{Index, IndexInfo, IndexStorage, Stamped};

struct Parity;

impl IndexInfo for Parity {
    type Component = u64;
    type Value = bool;

    fn value_spec(c: &u64) -> bool {
        *c % 2 == 0
    }

    fn value(c: &u64) -> bool {
        *c % 2 == 0
    }
}

fn view(parts: &[(u64, u64, u32)]) -> Vec<Stamped<'_, u64>> {
    parts.iter().map(|(e, c, s)| Stamped { entity: *e, component: c, last_changed: *s }).collect()
}

fn lookup(
    storage: &mut IndexStorage<Parity>,
    parts: &[(u64, u64, u32)],
    at: u32,
    key: bool,
) -> Vec<u64> {
    let live = view(parts);
    let mut index = Index { storage, components: &live, current_tick: at };
    let mut found = index.lookup(&key).to_vec();
    found.sort();
    found
}

fn refresh(storage: &mut IndexStorage<Parity>, parts: &[(u64, u64, u32)], at: u32) {
    let live = view(parts);
    let mut index = Index { storage, components: &live, current_tick: at };
    index.refresh();
}

#[test]
fn a_default_store_is_empty_and_never_refreshed() {
    let storage: IndexStorage<Parity> = IndexStorage::default();
    assert_eq!(storage.last_refresh_tick(), 0);
    assert!(storage.is_stale(1));
    assert!(!storage.is_stale(0));
    let mut storage = storage;
    assert_eq!(lookup(&mut storage, &[], 0, true), Vec::<u64>::new());
    assert_eq!(IndexStorage::<Parity>::new().last_refresh_tick(), 0);
}

#[test]
fn a_second_refresh_at_the_same_time_changes_nothing() {
    let before = [(1, 2, 1), (2, 3, 1)];
    let after = [(1, 5, 3), (2, 3, 1)];
    let mut once: IndexStorage<Parity> = IndexStorage::default();
    refresh(&mut once, &before, 3);
    let mut twice: IndexStorage<Parity> = IndexStorage::default();
    refresh(&mut twice, &before, 3);
    // Even a live view that has changed is not read again at the same time.
    refresh(&mut twice, &after, 3);
    assert_eq!(once.last_refresh_tick(), twice.last_refresh_tick());
    assert_eq!(lookup(&mut once, &before, 3, true), lookup(&mut twice, &after, 3, true));
    assert_eq!(lookup(&mut once, &before, 3, false), lookup(&mut twice, &after, 3, false));
    assert_eq!(lookup(&mut twice, &after, 3, true), vec![1]);
    assert_eq!(lookup(&mut twice, &after, 3, false), vec![2]);
}

#[test]
fn a_refresh_at_an_earlier_time_changes_nothing() {
    let mut storage: IndexStorage<Parity> = IndexStorage::default();
    refresh(&mut storage, &[(1, 2, 1)], 5);
    refresh(&mut storage, &[(1, 3, 4)], 4);
    assert_eq!(storage.last_refresh_tick(), 5);
    assert_eq!(lookup(&mut storage, &[(1, 3, 4)], 4, true), vec![1]);
}

#[test]
fn the_watermark_is_the_latest_time() {
    let mut storage: IndexStorage<Parity> = IndexStorage::default();
    let times: [u32; 6] = [1, 1, 4, 4, 9, 200];
    for t in times {
        refresh(&mut storage, &[(1, 2, 1)], t);
        assert_eq!(storage.last_refresh_tick(), t);
    }
    assert_eq!(storage.last_refresh_tick(), 200);
}

#[test]
fn lookup_finds_every_entity_under_the_key_of_its_component() {
    let mut storage: IndexStorage<Parity> = IndexStorage::default();
    let parts = [(7, 10, 1), (8, 11, 1), (9, 12, 2), (10, 13, 3)];
    assert_eq!(lookup(&mut storage, &parts, 3, true), vec![7, 9]);
    assert_eq!(lookup(&mut storage, &parts, 3, false), vec![8, 10]);
}

#[test]
fn lookup_gives_no_entity_under_a_key_it_has_left() {
    let mut storage: IndexStorage<Parity> = IndexStorage::default();
    let parts = [(7, 10, 1), (8, 11, 1)];
    assert_eq!(lookup(&mut storage, &parts, 2, true), vec![7]);
    let parts = [(7, 11, 3), (8, 11, 1)];
    assert_eq!(lookup(&mut storage, &parts, 4, true), Vec::<u64>::new());
    assert_eq!(lookup(&mut storage, &parts, 4, false), vec![7, 8]);
}

#[test]
fn a_change_in_the_step_of_the_last_refresh_is_seen() {
    let mut storage: IndexStorage<Parity> = IndexStorage::default();
    assert_eq!(lookup(&mut storage, &[(1, 2, 1)], 5, true), vec![1]);
    // Changed at time 5, after the refresh at time 5.
    let parts = [(1, 3, 5)];
    assert_eq!(lookup(&mut storage, &parts, 5, true), vec![1]);
    assert_eq!(lookup(&mut storage, &parts, 6, true), Vec::<u64>::new());
    assert_eq!(lookup(&mut storage, &parts, 6, false), vec![1]);
}

#[test]
fn a_change_in_the_step_before_the_last_refresh_is_read_again() {
    let mut storage: IndexStorage<Parity> = IndexStorage::default();
    refresh(&mut storage, &[(1, 2, 1)], 5);
    // A stamp of 4 lies in the window of the watermark 5, a stamp of 3 does
    // not: the first is filed again, the second is left as it was.
    assert_eq!(lookup(&mut storage, &[(1, 3, 4)], 6, false), vec![1]);
    let mut storage: IndexStorage<Parity> = IndexStorage::default();
    refresh(&mut storage, &[(1, 2, 1)], 5);
    assert_eq!(lookup(&mut storage, &[(1, 3, 3)], 6, false), Vec::<u64>::new());
    assert_eq!(lookup(&mut storage, &[(1, 3, 3)], 6, true), vec![1]);
}

#[test]
fn an_entity_that_left_the_live_view_stays_filed() {
    let mut storage: IndexStorage<Parity> = IndexStorage::default();
    assert_eq!(lookup(&mut storage, &[(1, 2, 1), (2, 4, 1)], 2, true), vec![1, 2]);
    assert_eq!(lookup(&mut storage, &[(2, 4, 1)], 3, true), vec![1, 2]);
}

#[test]
fn of_two_entries_for_one_entity_the_later_one_counts() {
    let mut storage: IndexStorage<Parity> = IndexStorage::default();
    let parts = [(1, 2, 1), (1, 3, 1)];
    assert_eq!(lookup(&mut storage, &parts, 2, true), Vec::<u64>::new());
    assert_eq!(lookup(&mut storage, &parts, 2, false), vec![1]);
}
