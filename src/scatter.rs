use rand::rngs::StdRng;
use rand::Rng;
use vstd::prelude::*;

verus! {

/// `rand::rngs::StdRng`, the seedable generator that draws are taken from;
/// nothing inside it is looked at.
#[verifier::external_type_specification]
#[verifier::external_body]
pub struct ExStdRng(StdRng);

/// One unit of a scatter candidate's coordinates is `2^-52`: a uniform draw
/// of `[0, 1)` keeps 53 random bits, so `2 * (u - 0.5)` is a multiple of it.
pub const UNIT: i64 = 0x10_0000_0000_0000;

/// A candidate direction for a diffuse bounce, a point of the cube
/// `[-1, 1)^3` with each coordinate counted in units of `2^-52`.
#[derive(Clone, Copy, Debug, PartialEq, Eq)]
pub struct Candidate {
    pub x: i64,
    pub y: i64,
    pub z: i64,
}

/// The coordinate that one uniform 64-bit draw gives: its top 53 bits are
/// the draw `u` of `[0, 1)`, remapped to `2 * (u - 0.5)`.
pub open spec fn coordinate_of(draw: u64) -> int {
    (draw / 2048) as int - UNIT
}

/// The candidate that three draws give, one coordinate each, in order.
pub open spec fn candidate_of(draws: [u64; 3]) -> Candidate {
    Candidate {
        x: coordinate_of(draws[0]) as i64,
        y: coordinate_of(draws[1]) as i64,
        z: coordinate_of(draws[2]) as i64,
    }
}

/// Every coordinate lies in `[-1, 1)`.
pub open spec fn in_cube(c: Candidate) -> bool {
    &&& -UNIT <= c.x < UNIT
    &&& -UNIT <= c.y < UNIT
    &&& -UNIT <= c.z < UNIT
}

/// The squared length of a candidate, in units of `2^-104`.
pub open spec fn norm2(c: Candidate) -> int {
    c.x * c.x + c.y * c.y + c.z * c.z
}

/// A candidate is kept when its squared length is at most `1/2`, that is
/// when it lies in the ball of radius `sqrt(1/2)`.
pub open spec fn in_scatter_ball(c: Candidate) -> bool {
    norm2(c) <= UNIT * UNIT / 2
}

/// Relies on `rand::Rng::gen::<u64>` on a `StdRng`: the next 64 bits of the
/// generator's stream. Nothing is known of their value.
#[verifier::external_body]
fn draw_u64(rng: &mut StdRng) -> (r: u64) {
    rng.gen::<u64>()
}

impl Candidate {
    /// The candidate that three uniform 64-bit draws give.
    pub fn from_draws(draws: [u64; 3]) -> (c: Candidate)
        ensures
            c == candidate_of(draws),
            in_cube(c),
    {
        let a: u64 = draws[0];
        let b: u64 = draws[1];
        let d: u64 = draws[2];
        assert(a >> 11u64 == a / 2048 && b >> 11u64 == b / 2048 && d >> 11u64 == d / 2048)
            by (bit_vector);
        let x: i64 = (a >> 11u64) as i64 - UNIT;
        let y: i64 = (b >> 11u64) as i64 - UNIT;
        let z: i64 = (d >> 11u64) as i64 - UNIT;
        Candidate { x, y, z }
    }

    /// Whether the candidate is kept as a scatter direction.
    pub fn in_scatter_ball(&self) -> (r: bool)
        requires
            in_cube(*self),
        ensures
            r == in_scatter_ball(*self),
    {
        let x: i128 = self.x as i128;
        let y: i128 = self.y as i128;
        let z: i128 = self.z as i128;
        assert(x * x <= 0x100_0000_0000_0000_0000_0000_0000) by (nonlinear_arith)
            requires
                -0x10_0000_0000_0000 <= x <= 0x10_0000_0000_0000,
        ;
        assert(y * y <= 0x100_0000_0000_0000_0000_0000_0000) by (nonlinear_arith)
            requires
                -0x10_0000_0000_0000 <= y <= 0x10_0000_0000_0000,
        ;
        assert(z * z <= 0x100_0000_0000_0000_0000_0000_0000) by (nonlinear_arith)
            requires
                -0x10_0000_0000_0000 <= z <= 0x10_0000_0000_0000,
        ;
        assert(0 <= x * x && 0 <= y * y && 0 <= z * z) by (nonlinear_arith);
        let u: i128 = UNIT as i128;
        x * x + y * y + z * z <= u * u / 2
    }
}

/// Draws one candidate from `rng`: three draws, one per coordinate.
pub fn draw_candidate(rng: &mut StdRng) -> (c: Candidate)
    ensures
        in_cube(c),
{
    let a: u64 = draw_u64(rng);
    let b: u64 = draw_u64(rng);
    let d: u64 = draw_u64(rng);
    Candidate::from_draws([a, b, d])
}

} // verus!
