//! Pairwise interaction rules: a lookup from an unordered pair of particle
//! kinds to the transformation that fires when the two become adjacent.
use vstd::prelude::*;

use crate::particle::{Direction, Liquid, Particle, Solid};

verus! {

/// What an interaction does to the pair that triggered it.
#[derive(Clone, Copy, PartialEq, Eq, Hash, Debug, Structural)]
pub enum InteractionType {
    /// Both particles are consumed; the result occupies the target cell.
    Replace,
    /// The source's kind survives over the target, with a fresh direction.
    Preserve,
}

/// An unordered key of two particle kinds.
#[derive(Clone, Copy, Debug)]
pub struct InteractionPair {
    pub source: Particle,
    pub target: Particle,
}

/// The outcome of a registered interaction.
#[derive(Clone, Copy, PartialEq, Eq, Hash, Debug, Structural)]
pub struct InteractionRule {
    pub interaction_type: InteractionType,
    pub result: Particle,
}

/// Whether two liquids are of the same kind, their directions aside.
pub open spec fn liquid_kind_eq(a: Liquid, b: Liquid) -> bool {
    match (a, b) {
        (Liquid::Water(_), Liquid::Water(_)) => true,
        (Liquid::Lava(_), Liquid::Lava(_)) => true,
        (Liquid::Acid(_), Liquid::Acid(_)) => true,
        _ => false,
    }
}

/// Particle identity as the rule table sees it: liquids compare by kind
/// alone, since their direction is simulation state, not identity.
pub open spec fn kind_eq(a: Particle, b: Particle) -> bool {
    match (a, b) {
        (Particle::Liquid(x), Particle::Liquid(y)) => liquid_kind_eq(x, y),
        _ => a == b,
    }
}

/// Whether the unordered key `p` matches the pair `(a, b)`.
pub open spec fn pair_matches(p: InteractionPair, a: Particle, b: Particle) -> bool {
    (kind_eq(p.source, a) && kind_eq(p.target, b)) || (kind_eq(p.source, b) && kind_eq(
        p.target,
        a,
    ))
}

/// The first registered rule for the unordered pair `(a, b)`, if any.
pub open spec fn lookup_spec(
    entries: Seq<(InteractionPair, InteractionRule)>,
    a: Particle,
    b: Particle,
) -> Option<InteractionRule>
    decreases entries.len(),
{
    if entries.len() == 0 {
        None
    } else if pair_matches(entries[0].0, a, b) {
        Some(entries[0].1)
    } else {
        lookup_spec(entries.skip(1), a, b)
    }
}

/// Whether every registered key pairs two liquids.
pub open spec fn rules_among_liquids(entries: Seq<(InteractionPair, InteractionRule)>) -> bool {
    forall|i: int|
        0 <= i < entries.len() ==> (#[trigger] entries[i].0.source matches Particle::Liquid(_))
            && (entries[i].0.target matches Particle::Liquid(_))
}

/// Exact kind equality, as the rule table compares particles.
pub fn particle_kind_eq(a: Particle, b: Particle) -> (r: bool)
    ensures
        r == kind_eq(a, b),
{
    match (a, b) {
        (Particle::Liquid(x), Particle::Liquid(y)) => match (x, y) {
            (Liquid::Water(_), Liquid::Water(_)) => true,
            (Liquid::Lava(_), Liquid::Lava(_)) => true,
            (Liquid::Acid(_), Liquid::Acid(_)) => true,
            _ => false,
        },
        _ => a == b,
    }
}

/// The interaction rule table, built once at startup and handed by
/// reference to whoever resolves adjacencies.
pub struct InteractionTable {
    pub entries: Vec<(InteractionPair, InteractionRule)>,
}

impl View for InteractionTable {
    type V = Seq<(InteractionPair, InteractionRule)>;

    open spec fn view(&self) -> Seq<(InteractionPair, InteractionRule)> {
        self.entries@
    }
}

impl InteractionTable {
    /// An empty table: nothing interacts.
    pub fn new() -> (r: Self)
        ensures
            r@ == Seq::<(InteractionPair, InteractionRule)>::empty(),
    {
        let r = InteractionTable { entries: Vec::new() };
        proof {
            assert(r@ =~= Seq::<(InteractionPair, InteractionRule)>::empty());
        }
        r
    }

    /// Registers a rule for the unordered pair `(source, target)`.
    pub fn insert(&mut self, source: Particle, target: Particle, rule: InteractionRule)
        ensures
            final(self)@ == old(self)@.push((InteractionPair { source, target }, rule)),
    {
        self.entries.push((InteractionPair { source, target }, rule));
    }

    /// The rule for the unordered pair `(a, b)`, if one is registered.
    pub fn lookup(&self, a: Particle, b: Particle) -> (r: Option<InteractionRule>)
        ensures
            r == lookup_spec(self@, a, b),
    {
        let n = self.entries.len();
        let mut i: usize = 0;
        proof {
            assert(self@.skip(0) =~= self@);
        }
        while i < n
            invariant
                i <= n,
                n == self@.len(),
                lookup_spec(self@, a, b) == lookup_spec(self@.skip(i as int), a, b),
            decreases n - i,
        {
            let entry = self.entries[i];
            let hit_fwd = particle_kind_eq(entry.0.source, a) && particle_kind_eq(
                entry.0.target,
                b,
            );
            let hit_rev = particle_kind_eq(entry.0.source, b) && particle_kind_eq(
                entry.0.target,
                a,
            );
            proof {
                assert(self@.skip(i as int)[0] == self@[i as int]);
                assert(self@.skip(i as int).skip(1) =~= self@.skip(i as int + 1));
            }
            if hit_fwd || hit_rev {
                return Some(entry.1);
            }
            i += 1;
        }
        None
    }

    /// Whether a rule is registered for the unordered pair `(a, b)`.
    pub fn contains(&self, a: Particle, b: Particle) -> (r: bool)
        ensures
            r == (lookup_spec(self@, a, b) matches Some(_)),
    {
        match self.lookup(a, b) {
            Some(_) => true,
            None => false,
        }
    }

    /// The table the game ships with: water over lava fuses to obsidian,
    /// and water consumes acid, coming out with a fresh random direction.
    pub fn standard() -> (r: Self)
        ensures
            r@.len() == 2,
            r@[0].0.source == Particle::Liquid(Liquid::Water(Direction::Still)),
            r@[0].0.target == Particle::Liquid(Liquid::Lava(Direction::Still)),
            r@[0].1 == (InteractionRule {
                interaction_type: InteractionType::Replace,
                result: Particle::Solid(Solid::Obsidian),
            }),
            r@[1].0.source == Particle::Liquid(Liquid::Water(Direction::Still)),
            r@[1].0.target == Particle::Liquid(Liquid::Acid(Direction::Still)),
            r@[1].1.interaction_type == InteractionType::Preserve,
            r@[1].1.result == Particle::Liquid(Liquid::Water(Direction::Left)) || r@[1].1.result
                == Particle::Liquid(Liquid::Water(Direction::Right)),
            rules_among_liquids(r@),
    {
        let mut table = InteractionTable::new();
        table.insert(
            Particle::Liquid(Liquid::Water(Direction::Still)),
            Particle::Liquid(Liquid::Lava(Direction::Still)),
            InteractionRule {
                interaction_type: InteractionType::Replace,
                result: Particle::Solid(Solid::Obsidian),
            },
        );
        table.insert(
            Particle::Liquid(Liquid::Water(Direction::Still)),
            Particle::Liquid(Liquid::Acid(Direction::Still)),
            InteractionRule {
                interaction_type: InteractionType::Preserve,
                result: Particle::Liquid(Liquid::Water(Direction::random())),
            },
        );
        table
    }
}

/// Interaction lookup is symmetric: the unordered pair `(a, b)` finds the
/// same rule as `(b, a)`, whatever the table holds.
pub proof fn lemma_interaction_lookup_symmetric(
    entries: Seq<(InteractionPair, InteractionRule)>,
    a: Particle,
    b: Particle,
)
    ensures
        lookup_spec(entries, a, b) == lookup_spec(entries, b, a),
    decreases entries.len(),
{
    if entries.len() > 0 {
        lemma_interaction_lookup_symmetric(entries.skip(1), a, b);
    }
}

/// A pair with a non-liquid member finds no rule in a table whose keys
/// pair only liquids.
pub proof fn lemma_non_liquid_finds_no_rule(
    entries: Seq<(InteractionPair, InteractionRule)>,
    a: Particle,
    b: Particle,
)
    requires
        rules_among_liquids(entries),
        !(a matches Particle::Liquid(_)) || !(b matches Particle::Liquid(_)),
    ensures
        lookup_spec(entries, a, b) is None,
    decreases entries.len(),
{
    if entries.len() > 0 {
        assert(entries[0].0.source matches Particle::Liquid(_));
        assert(rules_among_liquids(entries.skip(1))) by {
            assert(forall|i: int|
                0 <= i < entries.skip(1).len() ==> entries.skip(1)[i] == entries[i + 1]);
        }
        lemma_non_liquid_finds_no_rule(entries.skip(1), a, b);
    }
}

} // verus!
