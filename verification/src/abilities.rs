//! How the abilities are shared out among the players.
use vstd::prelude::*;
use crate::chance::{is_permutation, random_permutation};
use crate::types::Ability;

verus! {

/// The ability sets for a game of `n` players (one set for zero or one player).
pub open spec fn ability_sets(n: nat) -> Seq<Seq<Ability>> {
    if n <= 1 {
        seq![
            seq![
                Ability::MoveNorth,
                Ability::MoveEast,
                Ability::MoveSouth,
                Ability::MoveWest,
                Ability::Teleport,
                Ability::RevealTiles,
                Ability::UseEscalator,
            ],
        ]
    } else if n == 2 {
        seq![
            seq![Ability::MoveNorth, Ability::MoveEast, Ability::Teleport],
            seq![Ability::MoveSouth, Ability::MoveWest, Ability::RevealTiles, Ability::UseEscalator],
        ]
    } else if n == 3 {
        seq![
            seq![Ability::MoveNorth, Ability::MoveEast],
            seq![Ability::MoveSouth, Ability::RevealTiles, Ability::UseEscalator],
            seq![Ability::MoveWest, Ability::Teleport],
        ]
    } else if n == 4 {
        seq![
            seq![Ability::MoveNorth],
            seq![Ability::MoveEast, Ability::UseEscalator],
            seq![Ability::MoveSouth, Ability::RevealTiles],
            seq![Ability::MoveWest, Ability::Teleport],
        ]
    } else if n == 5 {
        seq![
            seq![Ability::MoveNorth],
            seq![Ability::MoveEast, Ability::UseEscalator],
            seq![Ability::MoveSouth, Ability::RevealTiles],
            seq![Ability::MoveWest],
            seq![Ability::MoveWest, Ability::Teleport],
        ]
    } else if n == 6 {
        seq![
            seq![Ability::MoveNorth],
            seq![Ability::MoveEast],
            seq![Ability::MoveEast, Ability::UseEscalator],
            seq![Ability::MoveSouth, Ability::RevealTiles],
            seq![Ability::MoveWest],
            seq![Ability::MoveWest, Ability::Teleport],
        ]
    } else if n == 7 {
        seq![
            seq![Ability::MoveNorth],
            seq![Ability::MoveEast],
            seq![Ability::MoveEast, Ability::UseEscalator],
            seq![Ability::MoveSouth],
            seq![Ability::MoveSouth, Ability::RevealTiles],
            seq![Ability::MoveWest],
            seq![Ability::MoveWest, Ability::Teleport],
        ]
    } else {
        seq![
            seq![Ability::MoveNorth],
            seq![Ability::MoveNorth],
            seq![Ability::MoveEast],
            seq![Ability::MoveEast, Ability::UseEscalator],
            seq![Ability::MoveSouth],
            seq![Ability::MoveSouth, Ability::RevealTiles],
            seq![Ability::MoveWest],
            seq![Ability::MoveWest, Ability::Teleport],
        ]
    }
}

/// `sets` is `base` in the order given by the permutation `perm`.
pub open spec fn arranged_by(sets: Seq<Seq<Ability>>, base: Seq<Seq<Ability>>, perm: Seq<usize>) -> bool {
    &&& sets.len() == base.len()
    &&& is_permutation(perm, base.len())
    &&& forall|i: int| 0 <= i < sets.len() ==> #[trigger] sets[i] == base[perm[i] as int]
}

pub open spec fn views_of(v: Seq<Vec<Ability>>) -> Seq<Seq<Ability>> {
    v.map_values(|a: Vec<Ability>| a@)
}

fn abilities_of(a: &[Ability]) -> (r: Vec<Ability>)
    ensures
        r@ == a@,
{
    let mut r: Vec<Ability> = Vec::new();
    for i in 0..a.len()
        invariant
            r@ == a@.subrange(0, i as int),
    {
        r.push(a[i]);
    }
    r
}

/// The ability sets for `num_players` players, in their fixed order.
pub fn base_ability_sets(num_players: usize) -> (r: Vec<Vec<Ability>>)
    requires
        num_players <= 8,
    ensures
        views_of(r@) == ability_sets(num_players as nat),
{
    let mut r: Vec<Vec<Ability>> = Vec::new();
    if num_players <= 1 {
        r.push(
            abilities_of(
                &[
                    Ability::MoveNorth,
                    Ability::MoveEast,
                    Ability::MoveSouth,
                    Ability::MoveWest,
                    Ability::Teleport,
                    Ability::RevealTiles,
                    Ability::UseEscalator,
                ],
            ),
        );
    } else if num_players == 2 {
        r.push(abilities_of(&[Ability::MoveNorth, Ability::MoveEast, Ability::Teleport]));
        r.push(
            abilities_of(
                &[Ability::MoveSouth, Ability::MoveWest, Ability::RevealTiles, Ability::UseEscalator],
            ),
        );
    } else if num_players == 3 {
        r.push(abilities_of(&[Ability::MoveNorth, Ability::MoveEast]));
        r.push(abilities_of(&[Ability::MoveSouth, Ability::RevealTiles, Ability::UseEscalator]));
        r.push(abilities_of(&[Ability::MoveWest, Ability::Teleport]));
    } else if num_players == 4 {
        r.push(abilities_of(&[Ability::MoveNorth]));
        r.push(abilities_of(&[Ability::MoveEast, Ability::UseEscalator]));
        r.push(abilities_of(&[Ability::MoveSouth, Ability::RevealTiles]));
        r.push(abilities_of(&[Ability::MoveWest, Ability::Teleport]));
    } else if num_players == 5 {
        r.push(abilities_of(&[Ability::MoveNorth]));
        r.push(abilities_of(&[Ability::MoveEast, Ability::UseEscalator]));
        r.push(abilities_of(&[Ability::MoveSouth, Ability::RevealTiles]));
        r.push(abilities_of(&[Ability::MoveWest]));
        r.push(abilities_of(&[Ability::MoveWest, Ability::Teleport]));
    } else if num_players == 6 {
        r.push(abilities_of(&[Ability::MoveNorth]));
        r.push(abilities_of(&[Ability::MoveEast]));
        r.push(abilities_of(&[Ability::MoveEast, Ability::UseEscalator]));
        r.push(abilities_of(&[Ability::MoveSouth, Ability::RevealTiles]));
        r.push(abilities_of(&[Ability::MoveWest]));
        r.push(abilities_of(&[Ability::MoveWest, Ability::Teleport]));
    } else if num_players == 7 {
        r.push(abilities_of(&[Ability::MoveNorth]));
        r.push(abilities_of(&[Ability::MoveEast]));
        r.push(abilities_of(&[Ability::MoveEast, Ability::UseEscalator]));
        r.push(abilities_of(&[Ability::MoveSouth]));
        r.push(abilities_of(&[Ability::MoveSouth, Ability::RevealTiles]));
        r.push(abilities_of(&[Ability::MoveWest]));
        r.push(abilities_of(&[Ability::MoveWest, Ability::Teleport]));
    } else {
        r.push(abilities_of(&[Ability::MoveNorth]));
        r.push(abilities_of(&[Ability::MoveNorth]));
        r.push(abilities_of(&[Ability::MoveEast]));
        r.push(abilities_of(&[Ability::MoveEast, Ability::UseEscalator]));
        r.push(abilities_of(&[Ability::MoveSouth]));
        r.push(abilities_of(&[Ability::MoveSouth, Ability::RevealTiles]));
        r.push(abilities_of(&[Ability::MoveWest]));
        r.push(abilities_of(&[Ability::MoveWest, Ability::Teleport]));
    }
    assert(views_of(r@) =~~= ability_sets(num_players as nat));
    r
}

/// The ability sets of `base` reordered by the permutation `perm`.
pub fn arrange_ability_sets(base: &Vec<Vec<Ability>>, perm: &Vec<usize>) -> (r: Vec<Vec<Ability>>)
    requires
        is_permutation(perm@, base@.len()),
    ensures
        arranged_by(views_of(r@), views_of(base@), perm@),
{
    let mut r: Vec<Vec<Ability>> = Vec::new();
    let n = perm.len();
    for i in 0..n
        invariant
            n == perm@.len(),
            is_permutation(perm@, base@.len()),
            r@.len() == i,
            forall|k: int| 0 <= k < i ==> #[trigger] r@[k]@ == base@[perm@[k] as int]@,
    {
        let j = perm[i];
        r.push(copy_abilities(&base[j]));
    }
    r
}

fn copy_abilities(a: &Vec<Ability>) -> (r: Vec<Ability>)
    ensures
        r@ == a@,
{
    abilities_of(a.as_slice())
}

/// The ability sets for `num_players` players, shuffled at random.
pub fn get_player_abilities(num_players: usize) -> (r: Vec<Vec<Ability>>)
    requires
        num_players <= 8,
    ensures
        exists|perm: Seq<usize>|
            arranged_by(views_of(r@), ability_sets(num_players as nat), perm),
{
    let base = base_ability_sets(num_players);
    let perm = random_permutation(base.len());
    let r = arrange_ability_sets(&base, &perm);
    assert(arranged_by(views_of(r@), ability_sets(num_players as nat), perm@));
    r
}

/// Every ability is held by some player: for any number of players from none
/// to eight, each of the seven abilities is in one of the ability sets, and
/// there is one set per player (one set when there is at most one player).
pub proof fn lemma_ability_sets_cover_all(n: nat, a: Ability)
    requires
        n <= 8,
    ensures
        ability_sets(n).len() == if n <= 1 { 1 } else { n },
        exists|i: int| 0 <= i < ability_sets(n).len() && #[trigger] ability_sets(n)[i].contains(a),
{
    let s = ability_sets(n);
    if n <= 1 {
        assert(s[0][0] == Ability::MoveNorth);
        assert(s[0].contains(a)) by {
            match a {
                Ability::MoveNorth => assert(s[0][0] == a),
                Ability::MoveEast => assert(s[0][1] == a),
                Ability::MoveSouth => assert(s[0][2] == a),
                Ability::MoveWest => assert(s[0][3] == a),
                Ability::Teleport => assert(s[0][4] == a),
                Ability::RevealTiles => assert(s[0][5] == a),
                Ability::UseEscalator => assert(s[0][6] == a),
            }
        }
    } else {
        let (i, j): (int, int) = if n == 2 {
            match a {
                Ability::MoveNorth => (0, 0),
                Ability::MoveEast => (0, 1),
                Ability::Teleport => (0, 2),
                Ability::MoveSouth => (1, 0),
                Ability::MoveWest => (1, 1),
                Ability::RevealTiles => (1, 2),
                Ability::UseEscalator => (1, 3),
            }
        } else if n == 3 {
            match a {
                Ability::MoveNorth => (0, 0),
                Ability::MoveEast => (0, 1),
                Ability::MoveSouth => (1, 0),
                Ability::RevealTiles => (1, 1),
                Ability::UseEscalator => (1, 2),
                Ability::MoveWest => (2, 0),
                Ability::Teleport => (2, 1),
            }
        } else if n == 4 || n == 5 {
            match a {
                Ability::MoveNorth => (0, 0),
                Ability::MoveEast => (1, 0),
                Ability::UseEscalator => (1, 1),
                Ability::MoveSouth => (2, 0),
                Ability::RevealTiles => (2, 1),
                Ability::MoveWest => (n as int - 1, 0),
                Ability::Teleport => (n as int - 1, 1),
            }
        } else if n == 6 {
            match a {
                Ability::MoveNorth => (0, 0),
                Ability::MoveEast => (2, 0),
                Ability::UseEscalator => (2, 1),
                Ability::MoveSouth => (3, 0),
                Ability::RevealTiles => (3, 1),
                Ability::MoveWest => (5, 0),
                Ability::Teleport => (5, 1),
            }
        } else if n == 7 {
            match a {
                Ability::MoveNorth => (0, 0),
                Ability::MoveEast => (2, 0),
                Ability::UseEscalator => (2, 1),
                Ability::MoveSouth => (4, 0),
                Ability::RevealTiles => (4, 1),
                Ability::MoveWest => (6, 0),
                Ability::Teleport => (6, 1),
            }
        } else {
            match a {
                Ability::MoveNorth => (0, 0),
                Ability::MoveEast => (3, 0),
                Ability::UseEscalator => (3, 1),
                Ability::MoveSouth => (5, 0),
                Ability::RevealTiles => (5, 1),
                Ability::MoveWest => (7, 0),
                Ability::Teleport => (7, 1),
            }
        };
        assert(0 <= i < s.len());
        assert(0 <= j < s[i].len());
        assert(s[i][j] == a);
        assert(s[i].contains(a));
    }
}

} // verus!
