//! Power-ups of the breakout game: which ones appear where a brick breaks,
//! and the effects they switch on and off.
use vstd::prelude::*;
use rand::rngs::StdRng;
use rand::{Rng, SeedableRng};

verus! {

/// The kinds of power-up.
#[derive(Clone, Copy, Debug, PartialEq, Eq, Hash, Structural)]
pub enum PowerUpType {
    Speed,
    Sticky,
    PassThrough,
    PadSizeIncrease,
    Confuse,
    Chaos,
}

/// The kinds of power-up in the order in which a broken brick tries them.
pub open spec fn spawn_order() -> Seq<PowerUpType> {
    seq![
        PowerUpType::Speed,
        PowerUpType::Sticky,
        PowerUpType::PassThrough,
        PowerUpType::PadSizeIncrease,
        PowerUpType::Confuse,
        PowerUpType::Chaos,
    ]
}

/// The chance, as numerator and denominator, that a broken brick releases a
/// power-up of a kind: one in 75 for the helpful kinds, one in 15 for the
/// two that disturb the view.
pub open spec fn spec_spawn_chance(t: PowerUpType) -> (u32, u32) {
    match t {
        PowerUpType::Confuse | PowerUpType::Chaos => (1, 15),
        _ => (1, 75),
    }
}

/// How many seconds a power-up lasts once caught; zero for those whose
/// effect is permanent.
pub open spec fn spec_duration_secs(t: PowerUpType) -> u32 {
    match t {
        PowerUpType::Speed => 0,
        PowerUpType::Sticky => 20,
        PowerUpType::PassThrough => 10,
        PowerUpType::PadSizeIncrease => 0,
        PowerUpType::Confuse => 15,
        PowerUpType::Chaos => 15,
    }
}

impl PowerUpType {
    /// The chance that a broken brick releases a power-up of this kind.
    pub fn spawn_chance(&self) -> (r: (u32, u32))
        ensures
            r == spec_spawn_chance(*self),
            r == (if *self is Confuse || *self is Chaos {
                (1u32, 15u32)
            } else {
                (1u32, 75u32)
            }),
    {
        match self {
            PowerUpType::Confuse | PowerUpType::Chaos => (1, 15),
            _ => (1, 75),
        }
    }

    /// How many seconds a power-up of this kind lasts once caught.
    pub fn duration_secs(&self) -> (r: u32)
        ensures
            r == spec_duration_secs(*self),
    {
        match self {
            PowerUpType::Speed => 0,
            PowerUpType::Sticky => 20,
            PowerUpType::PassThrough => 10,
            PowerUpType::PadSizeIncrease => 0,
            PowerUpType::Confuse => 15,
            PowerUpType::Chaos => 15,
        }
    }
}

/// The kind that a broken brick tries at place `i` of the order.
pub fn spawn_kind(i: usize) -> (t: PowerUpType)
    requires
        i < 6,
    ensures
        t == spawn_order()[i as int],
{
    if i == 0 {
        PowerUpType::Speed
    } else if i == 1 {
        PowerUpType::Sticky
    } else if i == 2 {
        PowerUpType::PassThrough
    } else if i == 3 {
        PowerUpType::PadSizeIncrease
    } else if i == 4 {
        PowerUpType::Confuse
    } else {
        PowerUpType::Chaos
    }
}

/// The chance of the roll at place `i` of the order: that of the kind tried
/// there.
pub fn roll_chance(i: usize) -> (c: (u32, u32))
    requires
        i < 6,
    ensures
        c == spec_spawn_chance(spawn_order()[i as int]),
        0 < c.0 <= c.1,
        c == (if i < 4 {
            (1u32, 75u32)
        } else {
            (1u32, 15u32)
        }),
{
    spawn_kind(i).spawn_chance()
}

/// The kinds whose roll came up, in the order in which they were tried.
pub open spec fn spec_selected(rolls: Seq<bool>) -> Seq<PowerUpType>
    decreases rolls.len(),
{
    if rolls.len() == 0 || rolls.len() > 6 {
        seq![]
    } else if rolls.last() {
        spec_selected(rolls.drop_last()).push(spawn_order()[rolls.len() - 1])
    } else {
        spec_selected(rolls.drop_last())
    }
}

/// The power-ups that a broken brick releases, given the outcome of the roll
/// for each kind, in the order in which the kinds are tried.
pub fn select_power_ups(rolls: &Vec<bool>) -> (r: Vec<PowerUpType>)
    requires
        rolls.len() == 6,
    ensures
        r@ == spec_selected(rolls@),
{
    let mut r: Vec<PowerUpType> = Vec::new();
    let mut i: usize = 0;
    assert(rolls@.take(0) =~= seq![]);
    while i < 6
        invariant
            rolls.len() == 6,
            i <= 6,
            r@ == spec_selected(rolls@.take(i as int)),
        decreases 6 - i,
    {
        assert(rolls@.take(i + 1).drop_last() =~= rolls@.take(i as int));
        if rolls[i] {
            r.push(spawn_kind(i));
        }
        i = i + 1;
    }
    assert(rolls@.take(6) =~= rolls@);
    r
}

#[verifier::external_type_specification]
#[verifier::external_body]
pub struct ExStdRng(StdRng);

/// A random generator of `rand`, with a record of how it was made and of
/// what it was asked.
pub struct RollGenerator {
    rng: StdRng,
    /// The seed the generator was made from.
    seed: Ghost<u64>,
    /// The chances, as numerator and denominator, asked of the generator so
    /// far, in order.
    asked: Ghost<Seq<(u32, u32)>>,
}

impl RollGenerator {
    /// The seed the generator was made from.
    pub closed spec fn seed(&self) -> u64 {
        self.seed@
    }

    /// The chances asked of the generator so far, in order.
    pub closed spec fn asked(&self) -> Seq<(u32, u32)> {
        self.asked@
    }

    /// Calls `rand`'s `SeedableRng::seed_from_u64` on `seed`, whose stream
    /// depends on the seed alone. The contract claims only that the
    /// generator is the one made from `seed` and has been asked nothing.
    #[verifier::external_body]
    fn from_seed(seed: u64) -> (g: RollGenerator)
        ensures
            g.seed() == seed,
            g.asked() == Seq::<(u32, u32)>::empty(),
    {
        RollGenerator { rng: StdRng::seed_from_u64(seed), seed: Ghost(seed), asked: Ghost(Seq::empty()) }
    }

    /// Calls `rand`'s `Rng::gen_ratio` on the generator, which returns `true`
    /// with a chance of `numerator` in `denominator`. It panics unless
    /// `numerator <= denominator` and `denominator > 0`; its documentation
    /// promises `false` when the numerator is zero and `true` when the two
    /// are equal. Which value comes back otherwise is chance; the contract
    /// records the chance asked.
    #[verifier::external_body]
    fn gen_ratio(&mut self, numerator: u32, denominator: u32) -> (r: bool)
        requires
            0 < denominator,
            numerator <= denominator,
        ensures
            final(self).seed() == old(self).seed(),
            final(self).asked() == old(self).asked().push((numerator, denominator)),
            numerator == 0 ==> !r,
            numerator == denominator ==> r,
    {
        self.rng.gen_ratio(numerator, denominator)
    }
}

/// The chances of the six rolls of one broken brick, in the order in which
/// the kinds are tried.
pub open spec fn brick_roll_chances() -> Seq<(u32, u32)> {
    Seq::new(6, |i: int| spec_spawn_chance(spawn_order()[i]))
}

/// Decides, with a seeded random generator, which power-ups a broken brick
/// releases.
pub struct PowerUpSpawner {
    generator: RollGenerator,
}

impl PowerUpSpawner {
    /// The seed of the spawner's generator.
    pub closed spec fn seed(&self) -> u64 {
        self.generator.seed()
    }

    /// The chances asked of the spawner's generator so far, in order.
    pub closed spec fn asked(&self) -> Seq<(u32, u32)> {
        self.generator.asked()
    }

    /// A spawner whose generator is made from `seed` and not asked yet.
    pub fn new(seed: u64) -> (s: PowerUpSpawner)
        ensures
            s.seed() == seed,
            s.asked() == Seq::<(u32, u32)>::empty(),
    {
        PowerUpSpawner { generator: RollGenerator::from_seed(seed) }
    }

    /// Rolls, in turn for each kind, whether a broken brick releases a
    /// power-up of it, asking the generator with that kind's chance; the
    /// result lists the kinds whose roll came up, in the order in which they
    /// were tried.
    pub fn spawn_power_ups(&mut self) -> (r: Vec<PowerUpType>)
        ensures
            exists|rolls: Seq<bool>| rolls.len() == 6 && r@ == spec_selected(rolls),
            final(self).seed() == old(self).seed(),
            final(self).asked() == old(self).asked() + brick_roll_chances(),
    {
        let mut rolls: Vec<bool> = Vec::new();
        let mut i: usize = 0;
        while i < 6
            invariant
                i <= 6,
                rolls.len() == i,
                self.seed() == old(self).seed(),
                self.asked() == old(self).asked() + brick_roll_chances().take(i as int),
            decreases 6 - i,
        {
            let (numerator, denominator) = roll_chance(i);
            let roll = self.generator.gen_ratio(numerator, denominator);
            assert(brick_roll_chances().take(i + 1) =~= brick_roll_chances().take(i as int).push(
                (numerator, denominator),
            ));
            rolls.push(roll);
            i = i + 1;
        }
        assert(brick_roll_chances().take(6) =~= brick_roll_chances());
        let r = select_power_ups(&rolls);
        assert(rolls@.len() == 6 && r@ == spec_selected(rolls@));
        r
    }
}

/// The effects that caught power-ups hold on.
#[derive(Clone, Copy, Debug, PartialEq, Eq, Structural)]
pub struct EffectState {
    /// The ball sticks to the paddle when it lands on it.
    pub sticky: bool,
    /// The ball passes through destroyable bricks.
    pub pass_through: bool,
    /// The view is turned upside down.
    pub confuse: bool,
    /// The view swirls.
    pub chaos: bool,
}

/// A change to the paddle or the ball that catching a power-up makes at once.
#[derive(Clone, Copy, Debug, PartialEq, Eq, Structural)]
pub enum PowerUpBoost {
    /// Nothing beyond the effect flags.
    Plain,
    /// The ball speeds up by a fifth.
    SpeedUp,
    /// The paddle grows wider by 50 units.
    PadGrow,
}

/// The effects after a power-up of kind `t` is caught: sticky and
/// pass-through switch on; confusion switches on only while chaos is off,
/// and chaos only while confusion is off.
pub open spec fn spec_activate(s: EffectState, t: PowerUpType) -> EffectState {
    match t {
        PowerUpType::Sticky => EffectState { sticky: true, ..s },
        PowerUpType::PassThrough => EffectState { pass_through: true, ..s },
        PowerUpType::Confuse => if !s.chaos {
            EffectState { confuse: true, ..s }
        } else {
            s
        },
        PowerUpType::Chaos => if !s.confuse {
            EffectState { chaos: true, ..s }
        } else {
            s
        },
        _ => s,
    }
}

/// The change that catching a power-up of kind `t` makes at once.
pub open spec fn spec_boost(t: PowerUpType) -> PowerUpBoost {
    match t {
        PowerUpType::Speed => PowerUpBoost::SpeedUp,
        PowerUpType::PadSizeIncrease => PowerUpBoost::PadGrow,
        _ => PowerUpBoost::Plain,
    }
}

/// The effects after a caught power-up of kind `t` runs out, where `count`
/// power-ups of that kind are active: its effect switches off only when it
/// is the only active one of its kind.
pub open spec fn spec_deactivate(s: EffectState, t: PowerUpType, count: nat) -> EffectState {
    if count != 1 {
        s
    } else {
        match t {
            PowerUpType::Sticky => EffectState { sticky: false, ..s },
            PowerUpType::PassThrough => EffectState { pass_through: false, ..s },
            PowerUpType::Confuse => EffectState { confuse: false, ..s },
            PowerUpType::Chaos => EffectState { chaos: false, ..s },
            _ => s,
        }
    }
}

impl EffectState {
    /// No effect on.
    pub fn new() -> (s: EffectState)
        ensures
            s == (EffectState { sticky: false, pass_through: false, confuse: false, chaos: false }),
    {
        EffectState { sticky: false, pass_through: false, confuse: false, chaos: false }
    }

    /// Catches a power-up of kind `t`; returns the change that the paddle or
    /// the ball undergoes at once.
    pub fn activate(&mut self, t: PowerUpType) -> (boost: PowerUpBoost)
        ensures
            *final(self) == spec_activate(*old(self), t),
            boost == spec_boost(t),
    {
        match t {
            PowerUpType::Speed => PowerUpBoost::SpeedUp,
            PowerUpType::Sticky => {
                self.sticky = true;
                PowerUpBoost::Plain
            },
            PowerUpType::PassThrough => {
                self.pass_through = true;
                PowerUpBoost::Plain
            },
            PowerUpType::PadSizeIncrease => PowerUpBoost::PadGrow,
            PowerUpType::Confuse => {
                if !self.chaos {
                    self.confuse = true;
                }
                PowerUpBoost::Plain
            },
            PowerUpType::Chaos => {
                if !self.confuse {
                    self.chaos = true;
                }
                PowerUpBoost::Plain
            },
        }
    }

    /// A caught power-up of kind `t` runs out while `count` power-ups of
    /// that kind are active.
    pub fn deactivate(&mut self, t: PowerUpType, count: usize)
        ensures
            *final(self) == spec_deactivate(*old(self), t, count as nat),
    {
        if count == 1 {
            match t {
                PowerUpType::Sticky => {
                    self.sticky = false;
                },
                PowerUpType::PassThrough => {
                    self.pass_through = false;
                },
                PowerUpType::Confuse => {
                    self.confuse = false;
                },
                PowerUpType::Chaos => {
                    self.chaos = false;
                },
                _ => {},
            }
        }
    }
}

/// How many of `types` are of kind `t`.
pub open spec fn spec_count_of_type(types: Seq<PowerUpType>, t: PowerUpType) -> nat
    decreases types.len(),
{
    if types.len() == 0 {
        0
    } else {
        spec_count_of_type(types.drop_last(), t) + if types.last() == t {
            1nat
        } else {
            0nat
        }
    }
}

/// Counts the power-ups of kind `t` among `types`.
pub fn count_of_type(types: &Vec<PowerUpType>, t: PowerUpType) -> (n: usize)
    ensures
        n == spec_count_of_type(types@, t),
{
    let mut n: usize = 0;
    let len = types.len();
    let mut i: usize = 0;
    assert(types@.take(0) =~= seq![]);
    while i < len
        invariant
            len == types.len(),
            i <= len,
            n == spec_count_of_type(types@.take(i as int), t),
            n <= i,
        decreases len - i,
    {
        assert(types@.take(i + 1).drop_last() =~= types@.take(i as int));
        if types[i] == t {
            n = n + 1;
        }
        i = i + 1;
    }
    assert(types@.take(len as int) =~= types@);
    n
}

/// How many of `statuses` are active power-ups of kind `t`.
pub open spec fn spec_count_active_of_type(statuses: Seq<PowerUpStatus>, t: PowerUpType) -> nat
    decreases statuses.len(),
{
    if statuses.len() == 0 {
        0
    } else {
        spec_count_active_of_type(statuses.drop_last(), t) + if statuses.last().type_ == t
            && statuses.last().activated {
            1nat
        } else {
            0nat
        }
    }
}

/// Counts the active power-ups of kind `t` among `statuses`.
pub fn count_active_of_type(statuses: &Vec<PowerUpStatus>, t: PowerUpType) -> (n: usize)
    ensures
        n == spec_count_active_of_type(statuses@, t),
{
    let mut n: usize = 0;
    let len = statuses.len();
    let mut i: usize = 0;
    assert(statuses@.take(0) =~= seq![]);
    while i < len
        invariant
            len == statuses.len(),
            i <= len,
            n == spec_count_active_of_type(statuses@.take(i as int), t),
            n <= i,
        decreases len - i,
    {
        assert(statuses@.take(i + 1).drop_last() =~= statuses@.take(i as int));
        if statuses[i].type_ == t && statuses[i].activated {
            n = n + 1;
        }
        i = i + 1;
    }
    assert(statuses@.take(len as int) =~= statuses@);
    n
}

/// A power-up stays on the field unless it has left it (caught or fallen
/// out) while not running.
pub fn is_retained(destroyed: bool, activated: bool) -> (r: bool)
    ensures
        r == !(destroyed && !activated),
{
    !(destroyed && !activated)
}

/// The state of a power-up on the field, apart from where it is.
#[derive(Clone, Copy, Debug, PartialEq, Eq, Structural)]
pub struct PowerUpStatus {
    pub type_: PowerUpType,
    /// It has left the field, caught or fallen out.
    pub destroyed: bool,
    /// It was caught and its effect runs.
    pub activated: bool,
}

/// A power-up's state after a frame in which it `fell_out` of the window or
/// was `caught` by the paddle, and whether it was caught: only a power-up
/// still on the field can leave it; being caught activates it.
pub open spec fn spec_field_step(p: PowerUpStatus, fell_out: bool, caught: bool) -> (PowerUpStatus, bool) {
    if p.destroyed {
        (p, false)
    } else if caught {
        (PowerUpStatus { destroyed: true, activated: true, ..p }, true)
    } else if fell_out {
        (PowerUpStatus { destroyed: true, ..p }, false)
    } else {
        (p, false)
    }
}

impl PowerUpStatus {
    /// A power-up that has just appeared.
    pub fn new(type_: PowerUpType) -> (p: PowerUpStatus)
        ensures
            p == (PowerUpStatus { type_, destroyed: false, activated: false }),
    {
        PowerUpStatus { type_, destroyed: false, activated: false }
    }

    /// A frame in which the power-up `fell_out` of the window or was `caught`
    /// by the paddle; a caught power-up switches its effect on, and the
    /// change it makes at once is returned.
    pub fn field_step(&mut self, fell_out: bool, caught: bool, effects: &mut EffectState) -> (boost: Option<PowerUpBoost>)
        ensures
            (*final(self), boost is Some) == spec_field_step(*old(self), fell_out, caught),
            boost is Some ==> boost == Some(spec_boost(old(self).type_)) && *final(effects) == spec_activate(
                *old(effects),
                old(self).type_,
            ),
            boost is None ==> *final(effects) == *old(effects),
    {
        if !self.destroyed {
            if fell_out {
                self.destroyed = true;
            }
            if caught {
                self.destroyed = true;
                self.activated = true;
                return Some(effects.activate(self.type_));
            }
        }
        None
    }

    /// The caught power-up runs out while `count` power-ups of its kind are
    /// active, itself included.
    pub fn run_out(&mut self, count: usize, effects: &mut EffectState)
        ensures
            *final(self) == (PowerUpStatus { activated: false, ..*old(self) }),
            *final(effects) == spec_deactivate(*old(effects), old(self).type_, count as nat),
    {
        self.activated = false;
        effects.deactivate(self.type_, count);
    }

    /// Whether the power-up stays in the list of power-ups.
    pub fn is_retained(&self) -> (r: bool)
        ensures
            r == !(self.destroyed && !self.activated),
    {
        is_retained(self.destroyed, self.activated)
    }
}

/// Only the two kinds that disturb the view, confusion and chaos, come with
/// a chance of one in 15; every other kind comes with one in 75. A broken
/// brick thus rolls four times at one in 75 and then twice at one in 15.
pub proof fn lemma_spawn_chances(t: PowerUpType)
    ensures
        (t is Confuse || t is Chaos) ==> spec_spawn_chance(t) == (1u32, 15u32),
        !(t is Confuse || t is Chaos) ==> spec_spawn_chance(t) == (1u32, 75u32),
        brick_roll_chances() == seq![
            (1u32, 75u32),
            (1u32, 75u32),
            (1u32, 75u32),
            (1u32, 75u32),
            (1u32, 15u32),
            (1u32, 15u32),
        ],
{
    assert(brick_roll_chances() =~= seq![
        (1u32, 75u32),
        (1u32, 75u32),
        (1u32, 75u32),
        (1u32, 75u32),
        (1u32, 15u32),
        (1u32, 15u32),
    ]);
}

/// Confusion and chaos are never on together: catching a power-up or
/// letting one run out keeps them apart.
pub proof fn lemma_confuse_chaos_exclusive(s: EffectState, t: PowerUpType, count: nat)
    requires
        !(s.confuse && s.chaos),
    ensures
        !(spec_activate(s, t).confuse && spec_activate(s, t).chaos),
        !(spec_deactivate(s, t, count).confuse && spec_deactivate(s, t, count).chaos),
{
}

/// Letting a power-up run out never switches an effect on.
pub proof fn lemma_deactivate_only_switches_off(s: EffectState, t: PowerUpType, count: nat)
    ensures
        spec_deactivate(s, t, count).sticky ==> s.sticky,
        spec_deactivate(s, t, count).pass_through ==> s.pass_through,
        spec_deactivate(s, t, count).confuse ==> s.confuse,
        spec_deactivate(s, t, count).chaos ==> s.chaos,
{
}

/// A caught power-up switches its effect off again when it runs out as the
/// only one of its kind, unless the effect was on before it was caught or,
/// for confusion and chaos, could not be switched on.
pub proof fn lemma_activate_then_deactivate(s: EffectState, t: PowerUpType)
    requires
        !s.sticky,
        !s.pass_through,
        !s.confuse,
        !s.chaos,
    ensures
        spec_deactivate(spec_activate(s, t), t, 1) == s,
{
}

/// The kinds that a broken brick releases come in the order in which they
/// are tried, each at most once.
pub proof fn lemma_selected_ordered(rolls: Seq<bool>)
    requires
        rolls.len() <= 6,
    ensures
        spec_selected(rolls).no_duplicates(),
        forall|i: int|
            0 <= i < spec_selected(rolls).len() ==> spawn_order().take(rolls.len() as int).contains(
                #[trigger] spec_selected(rolls)[i],
            ),
    decreases rolls.len(),
{
    if rolls.len() > 0 {
        let prev = rolls.drop_last();
        lemma_selected_ordered(prev);
        let t = spawn_order()[rolls.len() - 1];
        assert forall|i: int|
            0 <= i < spec_selected(prev).len() implies spawn_order().take(
            rolls.len() as int,
        ).contains(#[trigger] spec_selected(prev)[i]) by {
            let j = choose|j: int|
                0 <= j < prev.len() && spawn_order().take(prev.len() as int)[j]
                    == spec_selected(prev)[i];
            assert(spawn_order().take(rolls.len() as int)[j] == spec_selected(prev)[i]);
        }
        if rolls.last() {
            assert(!spec_selected(prev).contains(t)) by {
                if spec_selected(prev).contains(t) {
                    let i = choose|i: int| 0 <= i < spec_selected(prev).len() && spec_selected(prev)[i] == t;
                    let j = choose|j: int|
                        0 <= j < prev.len() && spawn_order().take(prev.len() as int)[j]
                            == spec_selected(prev)[i];
                    assert(spawn_order()[j] == t);
                }
            }
            assert(spawn_order().take(rolls.len() as int)[rolls.len() - 1] == t);
        }
    }
}

} // verus!
