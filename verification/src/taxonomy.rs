//! The static clear-condition taxonomy: the text template of each numeric
//! clear-condition code, and the grouping of those codes into a handful of
//! mutually exclusive semantic buckets used for coarse filtering.
use vstd::prelude::*;

use crate::numbers::spec_int_string;
use crate::text::{spec_replace, to_string};

verus! {

/// The semantic buckets that group the raw clear-condition codes, plus the
/// explicit bucket for levels without a condition.
#[derive(Clone, Copy, Debug, PartialEq, Eq, Structural)]
pub enum ClearConditionGroup {
    NoCondition,
    NoJumping,
    NoDamage,
    DefeatingEnemies,
    PowerupFinish,
    HoldingActivating,
    Collecting,
}

/// The bucket of a raw clear-condition code; `None` for codes outside the
/// taxonomy.
pub open spec fn spec_group_of(c: int) -> Option<ClearConditionGroup> {
    if c == 1 {
        Some(ClearConditionGroup::NoJumping)
    } else if c == 4 {
        Some(ClearConditionGroup::NoDamage)
    } else if c == 2 || c == 3 || c == 9 || c == 11 || c == 14 || c == 15 || c == 17 || c == 18 || c == 19 || c == 20 || c == 22 || c == 24 || c == 25 || c == 26 || c == 27 || c == 29 || c == 30 || c == 32 || c == 33 || c == 34 || c == 36 || c == 39 || c == 40 || c == 42 || c == 43 || c == 44 || c == 45 || c == 46 || c == 50 || c == 51 || c == 52 || c == 54 || c == 55 || c == 61 || c == 65 || c == 67 || c == 68 || c == 69 || c == 70 || c == 71 || c == 72 || c == 77 || c == 78 || c == 79 || c == 80 || c == 81 || c == 83 || c == 85 || c == 87 || c == 92 || c == 93 {
        Some(ClearConditionGroup::DefeatingEnemies)
    } else if c == 5 || c == 6 || c == 7 || c == 8 || c == 10 || c == 12 || c == 13 || c == 21 || c == 28 || c == 41 || c == 47 || c == 48 || c == 49 || c == 53 || c == 57 || c == 58 || c == 59 || c == 60 || c == 62 || c == 63 || c == 64 || c == 73 || c == 74 || c == 75 || c == 76 || c == 84 || c == 89 || c == 90 || c == 91 {
        Some(ClearConditionGroup::PowerupFinish)
    } else if c == 16 || c == 23 || c == 31 || c == 37 || c == 38 {
        Some(ClearConditionGroup::HoldingActivating)
    } else if c == 35 || c == 56 || c == 66 || c == 82 || c == 86 || c == 88 {
        Some(ClearConditionGroup::Collecting)
    } else {
        None
    }
}

/// The text template of a clear-condition code; `None` for codes outside the
/// taxonomy. A template may hold a magnitude placeholder `(n)` and a
/// pluralization placeholder `(s)`.
pub open spec fn spec_label(id: int) -> Option<Seq<char>> {
    if id == 1 {
        Some("Reach the goal without landing after leaving the ground."@)
    } else if id == 2 {
        Some("Reach the goal after defeating (n) Mechakoopa(s)."@)
    } else if id == 3 {
        Some("Reach the goal after defeating (n) Cheep Cheep(s)."@)
    } else if id == 4 {
        Some("Reach the goal without taking damage."@)
    } else if id == 5 {
        Some("Reach the goal as Boomerang Mario."@)
    } else if id == 6 {
        Some("Reach the goal while wearing a Shoe."@)
    } else if id == 7 {
        Some("Reach the goal as Fire Mario."@)
    } else if id == 8 {
        Some("Reach the goal as Frog Mario."@)
    } else if id == 9 {
        Some("Reach the goal after defeating (n) Larry(s)."@)
    } else if id == 10 {
        Some("Reach the goal as Raccoon Mario."@)
    } else if id == 11 {
        Some("Reach the goal after defeating (n) Blooper(s)."@)
    } else if id == 12 {
        Some("Reach the goal as Propeller Mario."@)
    } else if id == 13 {
        Some("Reach the goal while wearing a Propeller Box."@)
    } else if id == 14 {
        Some("Reach the goal after defeating (n) Spike(s)."@)
    } else if id == 15 {
        Some("Reach the goal after defeating (n) Boom Boom(s)."@)
    } else if id == 16 {
        Some("Reach the goal while holding a Koopa Shell."@)
    } else if id == 17 {
        Some("Reach the goal after defeating (n) Porcupuffer(s)."@)
    } else if id == 18 {
        Some("Reach the goal after defeating (n) Charvaargh(s)."@)
    } else if id == 19 {
        Some("Reach the goal after defeating (n) Bullet Bill(s)."@)
    } else if id == 20 {
        Some("Reach the goal after defeating (n) Bully/Bullies."@)
    } else if id == 21 {
        Some("Reach the goal while wearing a Goomba Mask."@)
    } else if id == 22 {
        Some("Reach the goal after defeating (n) Hop-Chops."@)
    } else if id == 23 {
        Some("Reach the goal while holding a Red POW Block. OR Reach the goal after activating (n) Red POW Block(s)."@)
    } else if id == 24 {
        Some("Reach the goal after defeating (n) Bob-omb(s)."@)
    } else if id == 25 {
        Some("Reach the goal after defeating (n) Spiny/Spinies."@)
    } else if id == 26 {
        Some("Reach the goal after defeating (n) Bowser(s)/Meowser(s)."@)
    } else if id == 27 {
        Some("Reach the goal after defeating (n) Ant Trooper(s)."@)
    } else if id == 28 {
        Some("Reach the goal on a Lakitu's Cloud."@)
    } else if id == 29 {
        Some("Reach the goal after defeating (n) Boo(s)."@)
    } else if id == 30 {
        Some("Reach the goal after defeating (n) Roy(s)."@)
    } else if id == 31 {
        Some("Reach the goal while holding a Trampoline."@)
    } else if id == 32 {
        Some("Reach the goal after defeating (n) Morton(s)."@)
    } else if id == 33 {
        Some("Reach the goal after defeating (n) Fish Bone(s)."@)
    } else if id == 34 {
        Some("Reach the goal after defeating (n) Monty Mole(s)."@)
    } else if id == 35 {
        Some("Reach the goal after picking up (n) 1-Up Mushroom(s)."@)
    } else if id == 36 {
        Some("Reach the goal after defeating (n) Hammer Bro(s)."@)
    } else if id == 37 {
        Some("Reach the goal after hitting (n) P Switch(es). OR Reach the goal while holding a P Switch."@)
    } else if id == 38 {
        Some("Reach the goal after activating (n) POW Block(s). OR Reach the goal while holding a POW Block."@)
    } else if id == 39 {
        Some("Reach the goal after defeating (n) Angry Sun(s)."@)
    } else if id == 40 {
        Some("Reach the goal after defeating (n) Pokey(s)."@)
    } else if id == 41 {
        Some("Reach the goal as Superball Mario."@)
    } else if id == 42 {
        Some("Reach the goal after defeating (n) Pom Pom(s)."@)
    } else if id == 43 {
        Some("Reach the goal after defeating (n) Peepa(s)."@)
    } else if id == 44 {
        Some("Reach the goal after defeating (n) Lakitu(s)."@)
    } else if id == 45 {
        Some("Reach the goal after defeating (n) Lemmy(s)."@)
    } else if id == 46 {
        Some("Reach the goal after defeating (n) Lava Bubble(s)."@)
    } else if id == 47 {
        Some("Reach the goal while wearing a Bullet Bill Mask."@)
    } else if id == 48 {
        Some("Reach the goal as Big Mario."@)
    } else if id == 49 {
        Some("Reach the goal as Cat Mario."@)
    } else if id == 50 {
        Some("Reach the goal after defeating (n) Goomba(s)/Galoomba(s)."@)
    } else if id == 51 {
        Some("Reach the goal after defeating (n) Thwomp(s)."@)
    } else if id == 52 {
        Some("Reach the goal after defeating (n) Iggy(s)."@)
    } else if id == 53 {
        Some("Reach the goal while wearing a Dry Bones Shell."@)
    } else if id == 54 {
        Some("Reach the goal after defeating (n) Sledge Bro(s)."@)
    } else if id == 55 {
        Some("Reach the goal after defeating (n) Rocky Wrench(es)."@)
    } else if id == 56 {
        Some("Reach the goal after grabbing (n) 50-Coin(s)."@)
    } else if id == 57 {
        Some("Reach the goal as Flying Squirrel Mario."@)
    } else if id == 58 {
        Some("Reach the goal as Buzzy Mario."@)
    } else if id == 59 {
        Some("Reach the goal as Builder Mario."@)
    } else if id == 60 {
        Some("Reach the goal as Cape Mario."@)
    } else if id == 61 {
        Some("Reach the goal after defeating (n) Wendy(s)."@)
    } else if id == 62 {
        Some("Reach the goal while wearing a Cannon Box."@)
    } else if id == 63 {
        Some("Reach the goal as Link."@)
    } else if id == 64 {
        Some("Reach the goal while you have Super Star invincibility."@)
    } else if id == 65 {
        Some("Reach the goal after defeating (n) Goombrat(s)/Goombud(s)."@)
    } else if id == 66 {
        Some("Reach the goal after grabbing (n) 10-Coin(s)."@)
    } else if id == 67 {
        Some("Reach the goal after defeating (n) Buzzy Beetle(s)."@)
    } else if id == 68 {
        Some("Reach the goal after defeating (n) Bowser Jr.(s)."@)
    } else if id == 69 {
        Some("Reach the goal after defeating (n) Koopa Troopa(s)."@)
    } else if id == 70 {
        Some("Reach the goal after defeating (n) Chain Chomp(s)."@)
    } else if id == 71 {
        Some("Reach the goal after defeating (n) Muncher(s)."@)
    } else if id == 72 {
        Some("Reach the goal after defeating (n) Wiggler(s)."@)
    } else if id == 73 {
        Some("Reach the goal as SMB2 Mario."@)
    } else if id == 74 {
        Some("Reach the goal in a Koopa Clown Car/Junior Clown Car."@)
    } else if id == 75 {
        Some("Reach the goal as Spiny Mario."@)
    } else if id == 76 {
        Some("Reach the goal in a Koopa Troopa Car."@)
    } else if id == 77 {
        Some("Reach the goal after defeating (n) Piranha Plant(s)/Jumping Piranha Plant(s)."@)
    } else if id == 78 {
        Some("Reach the goal after defeating (n) Dry Bones."@)
    } else if id == 79 {
        Some("Reach the goal after defeating (n) Stingby/Stingbies."@)
    } else if id == 80 {
        Some("Reach the goal after defeating (n) Piranha Creeper(s)."@)
    } else if id == 81 {
        Some("Reach the goal after defeating (n) Fire Piranha Plant(s)."@)
    } else if id == 82 {
        Some("Reach the goal after breaking (n) Crates(s)."@)
    } else if id == 83 {
        Some("Reach the goal after defeating (n) Ludwig(s)."@)
    } else if id == 84 {
        Some("Reach the goal as Super Mario."@)
    } else if id == 85 {
        Some("Reach the goal after defeating (n) Skipsqueak(s)."@)
    } else if id == 86 {
        Some("Reach the goal after grabbing (n) Coin(s)."@)
    } else if id == 87 {
        Some("Reach the goal after defeating (n) Magikoopa(s)."@)
    } else if id == 88 {
        Some("Reach the goal after grabbing (n) 30-Coin(s)."@)
    } else if id == 89 {
        Some("Reach the goal as Balloon Mario."@)
    } else if id == 90 {
        Some("Reach the goal while wearing a Red POW Box."@)
    } else if id == 91 {
        Some("Reach the Goal while riding Yoshi."@)
    } else if id == 92 {
        Some("Reach the goal after defeating (n) Spike Top(s)."@)
    } else if id == 93 {
        Some("Reach the goal after defeating (n) Banzai Bill(s)."@)
    } else {
        None
    }
}

/// Looks up the bucket of a raw clear-condition code.
pub fn group_of_code(c: i64) -> (r: Option<ClearConditionGroup>)
    ensures
        r == spec_group_of(c as int),
{
    match c {
        1 => Some(ClearConditionGroup::NoJumping),
        4 => Some(ClearConditionGroup::NoDamage),
        2 | 3 | 9 | 11 | 14 | 15 | 17 | 18 | 19 | 20 | 22 | 24 | 25 | 26 | 27 | 29 | 30 | 32 | 33 | 34 | 36 | 39 | 40 | 42 | 43 | 44 | 45 | 46 | 50 | 51 | 52 | 54 | 55 | 61 | 65 | 67 | 68 | 69 | 70 | 71 | 72 | 77 | 78 | 79 | 80 | 81 | 83 | 85 | 87 | 92 | 93 => Some(ClearConditionGroup::DefeatingEnemies),
        5 | 6 | 7 | 8 | 10 | 12 | 13 | 21 | 28 | 41 | 47 | 48 | 49 | 53 | 57 | 58 | 59 | 60 | 62 | 63 | 64 | 73 | 74 | 75 | 76 | 84 | 89 | 90 | 91 => Some(ClearConditionGroup::PowerupFinish),
        16 | 23 | 31 | 37 | 38 => Some(ClearConditionGroup::HoldingActivating),
        35 | 56 | 66 | 82 | 86 | 88 => Some(ClearConditionGroup::Collecting),
        _ => None,
    }
}

/// Looks up the text template of a clear-condition code.
pub fn clear_condition_label(id: i64) -> (r: Option<&'static str>)
    ensures
        r is Some <==> spec_label(id as int) is Some,
        r matches Some(s) ==> spec_label(id as int) == Some(s@),
{
    match id {
        1 => Some("Reach the goal without landing after leaving the ground."),
        2 => Some("Reach the goal after defeating (n) Mechakoopa(s)."),
        3 => Some("Reach the goal after defeating (n) Cheep Cheep(s)."),
        4 => Some("Reach the goal without taking damage."),
        5 => Some("Reach the goal as Boomerang Mario."),
        6 => Some("Reach the goal while wearing a Shoe."),
        7 => Some("Reach the goal as Fire Mario."),
        8 => Some("Reach the goal as Frog Mario."),
        9 => Some("Reach the goal after defeating (n) Larry(s)."),
        10 => Some("Reach the goal as Raccoon Mario."),
        11 => Some("Reach the goal after defeating (n) Blooper(s)."),
        12 => Some("Reach the goal as Propeller Mario."),
        13 => Some("Reach the goal while wearing a Propeller Box."),
        14 => Some("Reach the goal after defeating (n) Spike(s)."),
        15 => Some("Reach the goal after defeating (n) Boom Boom(s)."),
        16 => Some("Reach the goal while holding a Koopa Shell."),
        17 => Some("Reach the goal after defeating (n) Porcupuffer(s)."),
        18 => Some("Reach the goal after defeating (n) Charvaargh(s)."),
        19 => Some("Reach the goal after defeating (n) Bullet Bill(s)."),
        20 => Some("Reach the goal after defeating (n) Bully/Bullies."),
        21 => Some("Reach the goal while wearing a Goomba Mask."),
        22 => Some("Reach the goal after defeating (n) Hop-Chops."),
        23 => Some("Reach the goal while holding a Red POW Block. OR Reach the goal after activating (n) Red POW Block(s)."),
        24 => Some("Reach the goal after defeating (n) Bob-omb(s)."),
        25 => Some("Reach the goal after defeating (n) Spiny/Spinies."),
        26 => Some("Reach the goal after defeating (n) Bowser(s)/Meowser(s)."),
        27 => Some("Reach the goal after defeating (n) Ant Trooper(s)."),
        28 => Some("Reach the goal on a Lakitu's Cloud."),
        29 => Some("Reach the goal after defeating (n) Boo(s)."),
        30 => Some("Reach the goal after defeating (n) Roy(s)."),
        31 => Some("Reach the goal while holding a Trampoline."),
        32 => Some("Reach the goal after defeating (n) Morton(s)."),
        33 => Some("Reach the goal after defeating (n) Fish Bone(s)."),
        34 => Some("Reach the goal after defeating (n) Monty Mole(s)."),
        35 => Some("Reach the goal after picking up (n) 1-Up Mushroom(s)."),
        36 => Some("Reach the goal after defeating (n) Hammer Bro(s)."),
        37 => Some("Reach the goal after hitting (n) P Switch(es). OR Reach the goal while holding a P Switch."),
        38 => Some("Reach the goal after activating (n) POW Block(s). OR Reach the goal while holding a POW Block."),
        39 => Some("Reach the goal after defeating (n) Angry Sun(s)."),
        40 => Some("Reach the goal after defeating (n) Pokey(s)."),
        41 => Some("Reach the goal as Superball Mario."),
        42 => Some("Reach the goal after defeating (n) Pom Pom(s)."),
        43 => Some("Reach the goal after defeating (n) Peepa(s)."),
        44 => Some("Reach the goal after defeating (n) Lakitu(s)."),
        45 => Some("Reach the goal after defeating (n) Lemmy(s)."),
        46 => Some("Reach the goal after defeating (n) Lava Bubble(s)."),
        47 => Some("Reach the goal while wearing a Bullet Bill Mask."),
        48 => Some("Reach the goal as Big Mario."),
        49 => Some("Reach the goal as Cat Mario."),
        50 => Some("Reach the goal after defeating (n) Goomba(s)/Galoomba(s)."),
        51 => Some("Reach the goal after defeating (n) Thwomp(s)."),
        52 => Some("Reach the goal after defeating (n) Iggy(s)."),
        53 => Some("Reach the goal while wearing a Dry Bones Shell."),
        54 => Some("Reach the goal after defeating (n) Sledge Bro(s)."),
        55 => Some("Reach the goal after defeating (n) Rocky Wrench(es)."),
        56 => Some("Reach the goal after grabbing (n) 50-Coin(s)."),
        57 => Some("Reach the goal as Flying Squirrel Mario."),
        58 => Some("Reach the goal as Buzzy Mario."),
        59 => Some("Reach the goal as Builder Mario."),
        60 => Some("Reach the goal as Cape Mario."),
        61 => Some("Reach the goal after defeating (n) Wendy(s)."),
        62 => Some("Reach the goal while wearing a Cannon Box."),
        63 => Some("Reach the goal as Link."),
        64 => Some("Reach the goal while you have Super Star invincibility."),
        65 => Some("Reach the goal after defeating (n) Goombrat(s)/Goombud(s)."),
        66 => Some("Reach the goal after grabbing (n) 10-Coin(s)."),
        67 => Some("Reach the goal after defeating (n) Buzzy Beetle(s)."),
        68 => Some("Reach the goal after defeating (n) Bowser Jr.(s)."),
        69 => Some("Reach the goal after defeating (n) Koopa Troopa(s)."),
        70 => Some("Reach the goal after defeating (n) Chain Chomp(s)."),
        71 => Some("Reach the goal after defeating (n) Muncher(s)."),
        72 => Some("Reach the goal after defeating (n) Wiggler(s)."),
        73 => Some("Reach the goal as SMB2 Mario."),
        74 => Some("Reach the goal in a Koopa Clown Car/Junior Clown Car."),
        75 => Some("Reach the goal as Spiny Mario."),
        76 => Some("Reach the goal in a Koopa Troopa Car."),
        77 => Some("Reach the goal after defeating (n) Piranha Plant(s)/Jumping Piranha Plant(s)."),
        78 => Some("Reach the goal after defeating (n) Dry Bones."),
        79 => Some("Reach the goal after defeating (n) Stingby/Stingbies."),
        80 => Some("Reach the goal after defeating (n) Piranha Creeper(s)."),
        81 => Some("Reach the goal after defeating (n) Fire Piranha Plant(s)."),
        82 => Some("Reach the goal after breaking (n) Crates(s)."),
        83 => Some("Reach the goal after defeating (n) Ludwig(s)."),
        84 => Some("Reach the goal as Super Mario."),
        85 => Some("Reach the goal after defeating (n) Skipsqueak(s)."),
        86 => Some("Reach the goal after grabbing (n) Coin(s)."),
        87 => Some("Reach the goal after defeating (n) Magikoopa(s)."),
        88 => Some("Reach the goal after grabbing (n) 30-Coin(s)."),
        89 => Some("Reach the goal as Balloon Mario."),
        90 => Some("Reach the goal while wearing a Red POW Box."),
        91 => Some("Reach the Goal while riding Yoshi."),
        92 => Some("Reach the goal after defeating (n) Spike Top(s)."),
        93 => Some("Reach the goal after defeating (n) Banzai Bill(s)."),
        _ => None,
    }
}

/// Every code the taxonomy defines, in ascending order.
pub open spec fn all_codes() -> Seq<i64> {
    Seq::new(93, |i: int| (i + 1) as i64)
}

/// The static id list of a bucket: every taxonomy code that belongs to it,
/// ascending. The no-condition bucket has no list; it stands for an absent
/// code.
pub open spec fn spec_id_list(g: ClearConditionGroup) -> Option<Seq<i64>> {
    if g is NoCondition {
        None
    } else {
        Some(all_codes().filter(|c: i64| spec_group_of(c as int) == Some(g)))
    }
}

/// Whether a code is in the bucket's static id list.
pub open spec fn in_id_list(g: ClearConditionGroup, c: i64) -> bool {
    match spec_id_list(g) {
        Some(s) => s.contains(c),
        None => false,
    }
}

impl ClearConditionGroup {
    /// The static list of clear-condition codes this bucket expands to in a
    /// query, ascending; `None` for the no-condition bucket, which matches an
    /// absent code instead.
    #[verifier::loop_isolation(false)]
    pub fn id_list(&self) -> (r: Option<Vec<i64>>)
        ensures
            match r {
                Some(v) => spec_id_list(*self) == Some(v@),
                None => self is NoCondition,
            },
    {
        if let ClearConditionGroup::NoCondition = self {
            return None;
        }
        let ghost pred: spec_fn(i64) -> bool = |c: i64| spec_group_of(c as int) == Some(*self);
        let mut v: Vec<i64> = Vec::new();
        let mut code: i64 = 1;
        while code <= 93
            invariant
                1 <= code <= 94,
                !(self is NoCondition),
                v@ == all_codes().take(code - 1).filter(pred),
            decreases 94 - code,
        {
            let ghost pre = all_codes().take(code - 1);
            proof {
                reveal(Seq::filter);
                assert(all_codes().take(code as int) =~= pre.push(code));
                assert(pre.push(code).drop_last() =~= pre);
            }
            match group_of_code(code) {
                Some(g) => {
                    if g == *self {
                        v.push(code);
                    }
                },
                None => {},
            }
            code += 1;
        }
        proof {
            assert(all_codes().take(93) =~= all_codes());
        }
        Some(v)
    }
}

/// Codes with a label are exactly the codes 1 through 93.
proof fn lemma_label_range(c: int)
    ensures
        spec_label(c) is Some <==> 1 <= c <= 93,
{
}

/// Codes with a bucket are exactly the codes 1 through 93.
proof fn lemma_group_range(c: int)
    ensures
        spec_group_of(c) is Some <==> 1 <= c <= 93,
{
}

/// A code is in a bucket's id list exactly when the taxonomy assigns it that
/// bucket.
pub proof fn lemma_id_list_membership(g: ClearConditionGroup, c: i64)
    ensures
        in_id_list(g, c) <==> spec_group_of(c as int) == Some(g),
{
    let pred: spec_fn(i64) -> bool = |c: i64| spec_group_of(c as int) == Some(g);
    if !(g is NoCondition) {
        let s = all_codes().filter(pred);
        if s.contains(c) {
            let i = choose|i: int| 0 <= i < s.len() && s[i] == c;
            all_codes().lemma_filter_pred(pred, i);
        }
        if spec_group_of(c as int) == Some(g) {
            lemma_group_range(c as int);
            assert(all_codes()[c - 1] == c);
            all_codes().lemma_filter_contains(pred, c - 1);
        }
    } else {
        if spec_group_of(c as int) == Some(g) {
            lemma_group_range(c as int);
        }
    }
}

/// The clear-condition buckets partition the taxonomy: the id lists are
/// pairwise disjoint, and every code with a defined label falls in exactly one
/// of them — codes without a label (and an absent code) belong to the
/// no-condition bucket alone.
pub proof fn lemma_groups_partition_codes()
    ensures
        forall|g1: ClearConditionGroup, g2: ClearConditionGroup, c: i64|
            #[trigger] in_id_list(g1, c) && #[trigger] in_id_list(g2, c) ==> g1 == g2,
        forall|c: i64|
            (#[trigger] spec_label(c as int) is Some) <==> exists|g: ClearConditionGroup|
                #[trigger] in_id_list(g, c),
{
    assert forall|g1: ClearConditionGroup, g2: ClearConditionGroup, c: i64|
        #[trigger] in_id_list(g1, c) && #[trigger] in_id_list(g2, c) implies g1 == g2 by {
        lemma_id_list_membership(g1, c);
        lemma_id_list_membership(g2, c);
    }
    assert forall|c: i64|
        (#[trigger] spec_label(c as int) is Some) <==> exists|g: ClearConditionGroup|
            #[trigger] in_id_list(g, c) by {
        lemma_label_range(c as int);
        lemma_group_range(c as int);
        if spec_label(c as int) is Some {
            let g = spec_group_of(c as int)->Some_0;
            lemma_id_list_membership(g, c);
            assert(in_id_list(g, c));
        }
        if exists|g: ClearConditionGroup| #[trigger] in_id_list(g, c) {
            let g = choose|g: ClearConditionGroup| #[trigger] in_id_list(g, c);
            lemma_id_list_membership(g, c);
        }
    }
}

/// The user-facing text of a clear condition: the code's template with the
/// magnitude substituted for `(n)` and the plural marker `(s)` kept or
/// dropped; a fixed fallback for codes outside the taxonomy. A magnitude of
/// one drops the plural marker; an absent magnitude leaves the template as it
/// is.
pub open spec fn spec_condition_text(id: int, magnitude: Option<i64>) -> Seq<char> {
    match spec_label(id) {
        None => "Unknown Clear Condition :("@,
        Some(label) => match magnitude {
            None => label,
            Some(m) => spec_replace(
                spec_replace(label, "(n)"@, spec_int_string(m as int)),
                "(s)"@,
                if m == 1 {
                    Seq::empty()
                } else {
                    "s"@
                },
            ),
        },
    }
}

/// Renders the display text of a clear-condition code and optional magnitude.
pub fn condition_text(id: i64, magnitude: Option<i64>) -> (r: String)
    ensures
        r@ == spec_condition_text(id as int, magnitude),
{
    proof {
        reveal_strlit("(n)");
        reveal_strlit("(s)");
        reveal_strlit("s");
        reveal_strlit("");
    }
    match clear_condition_label(id) {
        None => to_string("Unknown Clear Condition :("),
        Some(label) => match magnitude {
            None => to_string(label),
            Some(m) => {
                let digits = crate::numbers::i64_to_string(m);
                let with_n = crate::text::replace(label, "(n)", digits.as_str());
                let suffix: &str = if m == 1 {
                    ""
                } else {
                    "s"
                };
                let r = crate::text::replace(with_n.as_str(), "(s)", suffix);
                proof {
                    assert(suffix@ =~= if m == 1 { Seq::<char>::empty() } else { "s"@ });
                }
                r
            },
        },
    }
}

} // verus!
