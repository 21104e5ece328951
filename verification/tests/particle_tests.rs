use cavernborn::particle::{
    Common, Direction, Gem, Liquid, Ore, Particle, ParticleType, Solid, Special, WorldGenType,
};

#[test]
fn common_depth_selection_is_exact() {
    assert_eq!(Common::get_exclusive_at_depth(0), Common::Dirt);
    assert_eq!(Common::get_exclusive_at_depth(11), Common::Dirt);
    assert_eq!(Common::get_exclusive_at_depth(12), Common::Stone);
    assert_eq!(Common::get_exclusive_at_depth(1000), Common::Stone);
    assert_eq!(Common::get_exclusive_at_depth(u32::MAX - 1), Common::Stone);
}

#[test]
fn direction_opposites_and_steps() {
    assert_eq!(Direction::Left.get_opposite(), Direction::Right);
    assert_eq!(Direction::Right.get_opposite(), Direction::Left);
    assert_eq!(Direction::Still.get_opposite(), Direction::Still);
    assert_eq!(Direction::Left.as_int(), -1);
    assert_eq!(Direction::Right.as_int(), 1);
    assert_eq!(Direction::Still.as_int(), 0);
}

#[test]
fn random_direction_is_never_still_and_both_sides_appear() {
    let mut left = 0;
    let mut right = 0;
    for _ in 0..200 {
        match Direction::random() {
            Direction::Left => left += 1,
            Direction::Right => right += 1,
            Direction::Still => panic!("random direction must not be Still"),
        }
    }
    assert!(left > 0, "Left never drawn in 200 tries");
    assert!(right > 0, "Right never drawn in 200 tries");
}

#[test]
fn liquid_movement_parameters() {
    let water = Liquid::Water(Direction::Still);
    let lava = Liquid::Lava(Direction::Still);
    let acid = Liquid::Acid(Direction::Still);
    assert_eq!(water.get_buoyancy(), -1);
    assert_eq!(lava.get_buoyancy(), -1);
    assert_eq!(acid.get_buoyancy(), -1);
    assert_eq!(water.get_viscosity(), 5);
    assert_eq!(lava.get_viscosity(), 3);
    assert_eq!(acid.get_viscosity(), 4);
    assert_eq!(*Liquid::Water(Direction::Left).get_direction(), Direction::Left);
    assert_eq!(
        Liquid::Water(Direction::Left).get_flipped_direction(),
        Liquid::Water(Direction::Right)
    );
    assert_eq!(
        Liquid::Lava(Direction::Still).get_flipped_direction(),
        Liquid::Lava(Direction::Still)
    );
}

#[test]
fn spawn_parameters_of_specials() {
    let gold = Special::Ore(Ore::Gold);
    let ruby = Special::Gem(Gem::Ruby);
    assert_eq!(gold.min_depth(), 23);
    assert_eq!(gold.max_depth(), u32::MAX);
    assert_eq!(gold.spawn_chance(), 20);
    assert_eq!(ruby.min_depth(), 80);
    assert_eq!(ruby.max_depth(), 150);
    assert_eq!(ruby.spawn_chance(), 3);
    assert_eq!(Special::all_variants(), vec![gold, ruby]);
}

#[test]
fn spritesheet_indices_per_kind() {
    assert_eq!(Particle::Common(Common::Dirt).get_spritesheet_index(), 1);
    assert_eq!(Particle::Common(Common::Stone).get_spritesheet_index(), 2);
    assert_eq!(Particle::Special(Special::Gem(Gem::Ruby)).get_spritesheet_index(), 3);
    assert_eq!(Particle::Special(Special::Ore(Ore::Gold)).get_spritesheet_index(), 4);
    assert_eq!(Particle::Liquid(Liquid::Water(Direction::Left)).get_spritesheet_index(), 5);
    assert_eq!(Particle::Liquid(Liquid::Lava(Direction::Left)).get_spritesheet_index(), 6);
    assert_eq!(Particle::Solid(Solid::Obsidian).get_spritesheet_index(), 7);
    assert_eq!(Particle::Liquid(Liquid::Acid(Direction::Left)).get_spritesheet_index(), 8);
}

#[test]
fn particle_depth_accessors_match_kinds() {
    assert_eq!(Particle::Common(Common::Stone).min_depth(), 12);
    assert_eq!(Particle::Special(Special::Ore(Ore::Gold)).min_depth(), 23);
    assert_eq!(Particle::Liquid(Liquid::Water(Direction::Still)).min_depth(), 0);
    assert_eq!(Particle::Common(Common::Dirt).max_depth(), 12);
    assert_eq!(Particle::Special(Special::Gem(Gem::Ruby)).spawn_chance(), 3);
}
