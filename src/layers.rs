//! Collision layers and the side an attacker fights on.
use vstd::prelude::*;

verus! {

#[derive(Clone, Copy, Debug, PartialEq, Eq, Structural)]
pub enum GameCollisionLayer {
    Default,
    Enemy,
    EnemyAttack,
    Mark,
    Player,
    PlayerAttack,
}

/// A set of layers, one flag per layer.
#[derive(Clone, Copy, Debug, PartialEq, Eq, Structural)]
pub struct LayerSet {
    pub default: bool,
    pub enemy: bool,
    pub enemy_attack: bool,
    pub mark: bool,
    pub player: bool,
    pub player_attack: bool,
}

impl LayerSet {
    pub open spec fn has(self, l: GameCollisionLayer) -> bool {
        match l {
            GameCollisionLayer::Default => self.default,
            GameCollisionLayer::Enemy => self.enemy,
            GameCollisionLayer::EnemyAttack => self.enemy_attack,
            GameCollisionLayer::Mark => self.mark,
            GameCollisionLayer::Player => self.player,
            GameCollisionLayer::PlayerAttack => self.player_attack,
        }
    }

    /// Whether `l` is in the set.
    pub fn contains(&self, l: GameCollisionLayer) -> (r: bool)
        ensures
            r == self.has(l),
    {
        match l {
            GameCollisionLayer::Default => self.default,
            GameCollisionLayer::Enemy => self.enemy,
            GameCollisionLayer::EnemyAttack => self.enemy_attack,
            GameCollisionLayer::Mark => self.mark,
            GameCollisionLayer::Player => self.player,
            GameCollisionLayer::PlayerAttack => self.player_attack,
        }
    }

    /// The set holding `l` alone.
    pub fn only(l: GameCollisionLayer) -> (r: LayerSet)
        ensures
            forall|m: GameCollisionLayer| #[trigger] r.has(m) <==> m == l,
    {
        LayerSet {
            default: l == GameCollisionLayer::Default,
            enemy: l == GameCollisionLayer::Enemy,
            enemy_attack: l == GameCollisionLayer::EnemyAttack,
            mark: l == GameCollisionLayer::Mark,
            player: l == GameCollisionLayer::Player,
            player_attack: l == GameCollisionLayer::PlayerAttack,
        }
    }
}

/// A collider's own layer and the layers it detects.
#[derive(Clone, Copy, Debug, PartialEq, Eq, Structural)]
pub struct LayerMask {
    pub membership: GameCollisionLayer,
    pub filters: LayerSet,
}

/// `m` is `membership` detecting exactly the layers `f` accepts.
pub open spec fn is_mask(m: LayerMask, membership: GameCollisionLayer, f: spec_fn(GameCollisionLayer) -> bool) -> bool {
    m.membership == membership && forall|l: GameCollisionLayer| #[trigger] m.filters.has(l) <==> f(l)
}

impl GameCollisionLayer {
    /// Enemy hitboxes hit the player only.
    pub fn enemy_attack() -> (r: LayerMask)
        ensures
            r == attack_layers_spec(Side::Enemy),
    {
        LayerMask { membership: GameCollisionLayer::EnemyAttack, filters: LayerSet { default: false, enemy: false, enemy_attack: false, mark: false, player: true, player_attack: false } }
    }

    /// Mark sensors detect each other only.
    pub fn mark() -> (r: LayerMask)
        ensures
            is_mask(r, GameCollisionLayer::Mark, |l: GameCollisionLayer| l == GameCollisionLayer::Mark),
    {
        LayerMask { membership: GameCollisionLayer::Mark, filters: LayerSet::only(GameCollisionLayer::Mark) }
    }

    /// Player hitboxes hit enemies only.
    pub fn player_attack() -> (r: LayerMask)
        ensures
            r == attack_layers_spec(Side::Player),
    {
        LayerMask { membership: GameCollisionLayer::PlayerAttack, filters: LayerSet { default: false, enemy: true, enemy_attack: false, mark: false, player: false, player_attack: false } }
    }

    /// An enemy's body: it collides with enemies, the player and the
    /// player's hitboxes.
    pub fn enemy_body() -> (r: LayerMask)
        ensures
            is_mask(
                r,
                GameCollisionLayer::Enemy,
                |l: GameCollisionLayer|
                    l == GameCollisionLayer::Enemy || l == GameCollisionLayer::Player || l
                        == GameCollisionLayer::PlayerAttack,
            ),
    {
        LayerMask {
            membership: GameCollisionLayer::Enemy,
            filters: LayerSet {
                default: false,
                enemy: true,
                enemy_attack: false,
                mark: false,
                player: true,
                player_attack: true,
            },
        }
    }

    /// The player's body: it collides with enemies and their hitboxes.
    pub fn player_body() -> (r: LayerMask)
        ensures
            is_mask(
                r,
                GameCollisionLayer::Player,
                |l: GameCollisionLayer| l == GameCollisionLayer::Enemy || l == GameCollisionLayer::EnemyAttack,
            ),
    {
        LayerMask {
            membership: GameCollisionLayer::Player,
            filters: LayerSet {
                default: false,
                enemy: true,
                enemy_attack: true,
                mark: false,
                player: false,
                player_attack: false,
            },
        }
    }
}

/// The side a combatant fights on.
#[derive(Clone, Copy, Debug, PartialEq, Eq, Structural)]
pub enum Side {
    Player,
    Enemy,
}

/// An attacker tagged with no side or with both.
#[derive(Clone, Copy, Debug, PartialEq, Eq, Structural)]
pub enum SideError {
    Neither,
    Both,
}

/// The side of an attacker from its two tags; exactly one must be set.
pub fn attacker_side(is_enemy: bool, is_player: bool) -> (r: Result<Side, SideError>)
    ensures
        is_enemy && is_player ==> r == Err::<Side, SideError>(SideError::Both),
        !is_enemy && !is_player ==> r == Err::<Side, SideError>(SideError::Neither),
        is_enemy && !is_player ==> r == Ok::<Side, SideError>(Side::Enemy),
        !is_enemy && is_player ==> r == Ok::<Side, SideError>(Side::Player),
{
    if is_enemy && is_player {
        Err(SideError::Both)
    } else if is_enemy {
        Ok(Side::Enemy)
    } else if is_player {
        Ok(Side::Player)
    } else {
        Err(SideError::Neither)
    }
}

/// An attacker's hitboxes detect the other side only.
pub open spec fn attack_layers_spec(side: Side) -> LayerMask {
    match side {
        Side::Enemy => LayerMask {
            membership: GameCollisionLayer::EnemyAttack,
            filters: LayerSet {
                default: false,
                enemy: false,
                enemy_attack: false,
                mark: false,
                player: true,
                player_attack: false,
            },
        },
        Side::Player => LayerMask {
            membership: GameCollisionLayer::PlayerAttack,
            filters: LayerSet {
                default: false,
                enemy: true,
                enemy_attack: false,
                mark: false,
                player: false,
                player_attack: false,
            },
        },
    }
}

/// The layers of a hitbox spawned by an attacker of the given side.
pub fn attack_layers(side: Side) -> (r: LayerMask)
    ensures
        r == attack_layers_spec(side),
{
    match side {
        Side::Enemy => GameCollisionLayer::enemy_attack(),
        Side::Player => GameCollisionLayer::player_attack(),
    }
}

} // verus!
