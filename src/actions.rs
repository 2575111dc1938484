use vstd::prelude::*;

use crate::input::{spec_contains, spec_decode, spec_encode, DecodeError, GameControl, InputFlags, InputProtocol};

verus! {

/// A movement direction. As `set_movement_actions` sets it, each axis is -1, 0
/// or 1 and not both are 0; whoever moves the player scales it to unit length.
#[derive(Clone, Copy, Debug, PartialEq, Eq, Structural)]
pub struct Movement {
    pub x: i8,
    pub y: i8,
}

/// The movement that the player's input asks for during the current tick.
#[derive(Clone, Copy, Debug, PartialEq, Eq, Structural)]
pub struct Actions {
    pub player_movement: Option<Movement>,
}

impl Default for Actions {
    fn default() -> (r: Actions)
        ensures
            r.player_movement is None,
    {
        Actions { player_movement: None }
    }
}

/// The direction of a flag set: right minus left, up minus down.
pub open spec fn spec_direction(f: InputFlags) -> (int, int) {
    (
        (if f.right { 1int } else { 0int }) - (if f.left { 1int } else { 0int }),
        (if f.up { 1int } else { 0int }) - (if f.down { 1int } else { 0int }),
    )
}

/// What a decoded input does to the actions: no control held clears the
/// movement; controls whose directions cancel out (or fire alone) leave it as
/// it was; otherwise the movement becomes the direction.
pub open spec fn spec_apply_input(a: Actions, f: InputFlags) -> Actions {
    let (x, y) = spec_direction(f);
    if !f.up && !f.down && !f.left && !f.right && !f.fire {
        Actions { player_movement: None }
    } else if x == 0 && y == 0 {
        a
    } else {
        Actions { player_movement: Some(Movement { x: x as i8, y: y as i8 }) }
    }
}

/// Sets the movement from the input of the first participant. An input with a
/// reserved bit set is refused with `InvalidInputBits` and changes nothing.
pub fn set_movement_actions(actions: &mut Actions, input: InputProtocol) -> (r: Result<
    (),
    DecodeError,
>)
    ensures
        spec_decode(input.input) is Err ==> r == Err::<(), DecodeError>(
            spec_decode(input.input)->Err_0,
        ) && *final(actions) == *old(actions),
        spec_decode(input.input) is Ok ==> r is Ok && *final(actions) == spec_apply_input(
            *old(actions),
            spec_decode(input.input)->Ok_0,
        ),
{
    let flags = match input.to_flags() {
        Ok(f) => f,
        Err(e) => {
            return Err(e);
        },
    };
    if flags.is_empty() {
        actions.player_movement = None;
        return Ok(());
    }
    let mut x: i8 = 0;
    let mut y: i8 = 0;
    if flags.contains(GameControl::Left) {
        x = x - 1;
    }
    if flags.contains(GameControl::Right) {
        x = x + 1;
    }
    if flags.contains(GameControl::Up) {
        y = y + 1;
    }
    if flags.contains(GameControl::Down) {
        y = y - 1;
    }
    if x == 0 && y == 0 {
        return Ok(());
    }
    actions.player_movement = Some(Movement { x, y });
    Ok(())
}

/// The flag set of the controls that appear in `pressed`.
pub open spec fn spec_pressed_flags(pressed: Seq<GameControl>) -> InputFlags {
    InputFlags {
        up: pressed.contains(GameControl::Up),
        down: pressed.contains(GameControl::Down),
        left: pressed.contains(GameControl::Left),
        right: pressed.contains(GameControl::Right),
        fire: pressed.contains(GameControl::Fire),
    }
}

/// The input to send for the controls held down this tick (in any order,
/// repeats allowed).
pub fn create_input_protocol(pressed: &Vec<GameControl>) -> (r: InputProtocol)
    ensures
        r.input == spec_encode(spec_pressed_flags(pressed@)),
{
    let mut input = InputFlags::empty();
    let mut i: usize = 0;
    while i < pressed.len()
        invariant
            i <= pressed@.len(),
            input == spec_pressed_flags(pressed@.subrange(0, i as int)),
        decreases pressed@.len() - i,
    {
        let c = pressed[i];
        let ghost before = input;
        input.insert(c);
        i = i + 1;
        proof {
            let pre = pressed@.subrange(0, i - 1);
            let now = pressed@.subrange(0, i as int);
            assert(now =~= pre.push(c));
            assert forall|o: GameControl| #[trigger] now.contains(o) == (pre.contains(o) || o == c) by {
                if now.contains(o) {
                    let k = choose|k: int| 0 <= k < now.len() && now[k] == o;
                    if k < pre.len() {
                        assert(pre[k] == o);
                    }
                }
                if pre.contains(o) {
                    let k = choose|k: int| 0 <= k < pre.len() && pre[k] == o;
                    assert(now[k] == o);
                }
                if o == c {
                    assert(now[now.len() - 1] == o);
                }
            }
            assert(spec_contains(input, GameControl::Up) == spec_contains(before, GameControl::Up) || c == GameControl::Up);
            assert(spec_contains(input, GameControl::Down) == spec_contains(before, GameControl::Down) || c == GameControl::Down);
            assert(spec_contains(input, GameControl::Left) == spec_contains(before, GameControl::Left) || c == GameControl::Left);
            assert(spec_contains(input, GameControl::Right) == spec_contains(before, GameControl::Right) || c == GameControl::Right);
            assert(spec_contains(input, GameControl::Fire) == spec_contains(before, GameControl::Fire) || c == GameControl::Fire);
        }
    }
    proof {
        assert(pressed@.subrange(0, pressed@.len() as int) =~= pressed@);
    }
    InputProtocol::new(input)
}

} // verus!
