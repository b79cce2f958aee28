use vstd::prelude::*;

verus! {

/// A point of the plane, in micro-units.
#[derive(Debug, Clone, Copy, PartialEq, Eq, Structural)]
pub struct Position {
    pub x: i64,
    pub y: i64,
}

/// The raw signals of one step: four directions and the spawn action, each
/// active or not.
#[derive(Debug, Clone, Copy, PartialEq, Eq, Structural)]
pub struct InputSnapshot {
    pub up: bool,
    pub down: bool,
    pub left: bool,
    pub right: bool,
    pub spawn: bool,
}

/// The signed contribution of one pair of opposite directions.
pub open spec fn axis_delta(plus: bool, minus: bool, amount: int) -> int {
    (if plus { amount } else { 0 }) - (if minus { amount } else { 0 })
}

/// How far a player of `speed` units per second goes in `elapsed_us`
/// microseconds, in micro-units.
pub open spec fn travel(speed: u64, elapsed_us: u64) -> int {
    speed as int * elapsed_us as int
}

/// Where the player stands after one step: up raises `y`, down lowers it,
/// left lowers `x`, right raises it, each by the distance travelled.
pub open spec fn moved(pos: Position, speed: u64, input: InputSnapshot, elapsed_us: u64) -> (int, int) {
    let d = travel(speed, elapsed_us);
    (pos.x + axis_delta(input.right, input.left, d), pos.y + axis_delta(input.up, input.down, d))
}

/// The position fits the machine's integers.
pub open spec fn fits(p: (int, int)) -> bool {
    i64::MIN <= p.0 <= i64::MAX && i64::MIN <= p.1 <= i64::MAX
}

/// Advances the player's position by one step of movement.
pub fn move_player(pos: Position, speed: u64, input: &InputSnapshot, elapsed_us: u64) -> (r: Position)
    requires
        travel(speed, elapsed_us) <= i64::MAX,
        fits(moved(pos, speed, *input, elapsed_us)),
    ensures
        r.x == moved(pos, speed, *input, elapsed_us).0,
        r.y == moved(pos, speed, *input, elapsed_us).1,
{
    assert(0 <= speed as int * elapsed_us as int) by (nonlinear_arith);
    let d = (speed * elapsed_us) as i64;
    let up: i64 = if input.up { d } else { 0 };
    let down: i64 = if input.down { d } else { 0 };
    let left: i64 = if input.left { d } else { 0 };
    let right: i64 = if input.right { d } else { 0 };
    Position { x: pos.x + (right - left), y: pos.y + (up - down) }
}

/// Pressing two opposite directions in one step cancels on that axis.
pub proof fn opposite_directions_cancel(pos: Position, speed: u64, input: InputSnapshot, elapsed_us: u64)
    ensures
        input.up && input.down ==> moved(pos, speed, input, elapsed_us).1 == pos.y,
        input.left && input.right ==> moved(pos, speed, input, elapsed_us).0 == pos.x,
{
}

} // verus!
