use cavernborn::interaction::{InteractionTable, InteractionType};
use cavernborn::particle::{Common, Direction, Liquid, Particle, Solid};

fn water(d: Direction) -> Particle {
    Particle::Liquid(Liquid::Water(d))
}

fn lava(d: Direction) -> Particle {
    Particle::Liquid(Liquid::Lava(d))
}

fn acid(d: Direction) -> Particle {
    Particle::Liquid(Liquid::Acid(d))
}

#[test]
fn lookup_is_symmetric_for_every_registered_pair() {
    let table = InteractionTable::standard();
    let probes = [
        (water(Direction::Still), lava(Direction::Still)),
        (water(Direction::Left), lava(Direction::Right)),
        (water(Direction::Still), acid(Direction::Still)),
        (acid(Direction::Left), water(Direction::Right)),
        (lava(Direction::Still), acid(Direction::Still)),
        (water(Direction::Still), Particle::Common(Common::Stone)),
    ];
    for (a, b) in probes {
        assert_eq!(
            table.lookup(a, b),
            table.lookup(b, a),
            "lookup must be symmetric for {:?} / {:?}",
            a,
            b
        );
    }
}

#[test]
fn water_and_lava_replace_to_obsidian() {
    let table = InteractionTable::standard();
    let rule = table.lookup(water(Direction::Still), lava(Direction::Still)).unwrap();
    assert_eq!(rule.interaction_type, InteractionType::Replace);
    assert_eq!(rule.result, Particle::Solid(Solid::Obsidian));
}

#[test]
fn liquid_direction_does_not_change_identity_in_lookups() {
    let table = InteractionTable::standard();
    let base = table.lookup(water(Direction::Still), lava(Direction::Still));
    assert!(base.is_some());
    assert_eq!(table.lookup(water(Direction::Left), lava(Direction::Right)), base);
    assert_eq!(table.lookup(water(Direction::Right), lava(Direction::Left)), base);
}

#[test]
fn water_preserves_over_acid() {
    let table = InteractionTable::standard();
    let rule = table.lookup(acid(Direction::Left), water(Direction::Right)).unwrap();
    assert_eq!(rule.interaction_type, InteractionType::Preserve);
    match rule.result {
        Particle::Liquid(Liquid::Water(d)) => {
            assert!(d == Direction::Left || d == Direction::Right);
        }
        other => panic!("water-acid must preserve water, got {:?}", other),
    }
}

#[test]
fn unregistered_pairs_have_no_rule() {
    let table = InteractionTable::standard();
    assert!(table.lookup(water(Direction::Still), Particle::Common(Common::Dirt)).is_none());
    assert!(table.lookup(lava(Direction::Still), acid(Direction::Still)).is_none());
    assert!(table
        .lookup(Particle::Solid(Solid::Obsidian), Particle::Common(Common::Stone))
        .is_none());
    assert!(!table.contains(water(Direction::Still), water(Direction::Still)));
}

#[test]
fn empty_table_never_matches() {
    let table = InteractionTable::new();
    assert!(table.lookup(water(Direction::Still), lava(Direction::Still)).is_none());
}
