use entity_index::{Index, IndexInfo, IndexStorage, Stamped};

#[derive(Clone, Eq, Hash, PartialEq, Debug)]
struct Number(usize);

impl IndexInfo for Number {
    type Component = Self;
    type Value = Self;

    fn value_spec(c: &Self::Component) -> Self::Value {
        c.clone()
    }

    fn value(c: &Self::Component) -> Self::Value {
        c.clone()
    }
}

/// A small stand-in for the host: components with their stamps, and a
/// logical clock that advances once per system.
struct World {
    tick: u32,
    numbers: Vec<(u64, Number, u32)>,
    storage: IndexStorage<Number>,
}

impl World {
    fn new() -> World {
        World { tick: 0, numbers: Vec::new(), storage: IndexStorage::default() }
    }

    fn next_system(&mut self) -> u32 {
        self.tick += 1;
        self.tick
    }

    fn spawn(&mut self, n: Number, at: u32) {
        let id = self.numbers.len() as u64;
        self.numbers.push((id, n, at));
    }

    fn lookup(&mut self, number: usize, at: u32) -> Vec<u64> {
        let live: Vec<Stamped<Number>> = self
            .numbers
            .iter()
            .map(|(e, c, s)| Stamped { entity: *e, component: c, last_changed: *s })
            .collect();
        let mut index = Index { storage: &mut self.storage, components: &live, current_tick: at };
        let mut found = index.lookup(&Number(number)).to_vec();
        found.sort();
        found
    }
}

fn add_some_numbers(world: &mut World) {
    let at = world.next_system();
    world.spawn(Number(10), at);
    world.spawn(Number(10), at);
    world.spawn(Number(20), at);
    world.spawn(Number(30), at);
}

fn expect_matches(world: &mut World, number: usize, amount: usize) {
    let at = world.next_system();
    let set = world.lookup(number, at);
    assert_eq!(
        set.len(),
        amount,
        "Index returned {} matches for {}, expectd {}.",
        set.len(),
        number,
        amount,
    );
}

fn adder_all(world: &mut World, n: usize) {
    let at = world.next_system();
    for (_, num, stamp) in world.numbers.iter_mut() {
        num.0 += n;
        *stamp = at;
    }
}

fn adder_some(world: &mut World, n: usize, condition: usize) {
    let at = world.next_system();
    for entity in world.lookup(condition, at) {
        let (_, num, stamp) = &mut world.numbers[entity as usize];
        num.0 += n;
        *stamp = at;
    }
}

#[test]
fn test_index_lookup() {
    let mut world = World::new();
    add_some_numbers(&mut world);
    expect_matches(&mut world, 10, 2);
    expect_matches(&mut world, 20, 1);
    expect_matches(&mut world, 30, 1);
    expect_matches(&mut world, 40, 0);
}

#[test]
fn test_changing_values() {
    let mut world = World::new();
    add_some_numbers(&mut world);
    expect_matches(&mut world, 10, 2);
    expect_matches(&mut world, 20, 1);
    expect_matches(&mut world, 30, 1);
    adder_all(&mut world, 5);
    expect_matches(&mut world, 10, 0);
    expect_matches(&mut world, 20, 0);
    expect_matches(&mut world, 30, 0);
    expect_matches(&mut world, 15, 2);
    expect_matches(&mut world, 25, 1);
    expect_matches(&mut world, 35, 1);
}

#[test]
fn test_changing_with_index() {
    let mut world = World::new();
    add_some_numbers(&mut world);
    expect_matches(&mut world, 10, 2);
    expect_matches(&mut world, 20, 1);
    adder_some(&mut world, 10, 10);
    expect_matches(&mut world, 10, 0);
    expect_matches(&mut world, 20, 3);
}

#[test]
fn lookups_give_the_entities_themselves() {
    let mut world = World::new();
    add_some_numbers(&mut world);
    let at = world.next_system();
    assert_eq!(world.lookup(10, at), vec![0, 1]);
    assert_eq!(world.lookup(20, at), vec![2]);
    assert_eq!(world.lookup(30, at), vec![3]);
    assert_eq!(world.lookup(40, at), Vec::<u64>::new());
}

#[test]
fn a_change_made_after_a_lookup_in_the_same_system_is_seen_by_the_next() {
    let mut world = World::new();
    add_some_numbers(&mut world);
    let at = world.next_system();
    let tens = world.lookup(10, at);
    assert_eq!(tens, vec![0, 1]);
    for entity in tens {
        let (_, num, stamp) = &mut world.numbers[entity as usize];
        num.0 += 10;
        *stamp = at;
    }
    // Within the same system the store is not read again.
    assert_eq!(world.lookup(10, at), vec![0, 1]);
    let later = world.next_system();
    assert_eq!(world.lookup(20, later), vec![0, 1, 2]);
    assert_eq!(world.lookup(10, later), Vec::<u64>::new());
    assert_eq!(world.lookup(30, later), vec![3]);
}
