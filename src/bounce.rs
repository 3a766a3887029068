use vstd::prelude::*;

verus! {

/// The most diffuse bounces followed from one primary hit.
pub const MAX_BOUNCES: u32 = 5;

/// `2^n`: the factor by which `n` surviving bounces divide a sample's color.
pub open spec fn two_pow(n: nat) -> nat
    decreases n,
{
    if n == 0 {
        1
    } else {
        2 * two_pow((n - 1) as nat)
    }
}

/// Where the bounce loop of one sample stands.
pub struct BounceState {
    /// Scatter rays drawn so far.
    pub iterations: nat,
    /// Scatter rays that hit a surface; each halves the sample's color.
    pub halvings: nat,
    /// The last scatter ray met nothing.
    pub escaped: bool,
}

/// The state right after the primary ray hit a surface.
pub open spec fn start() -> BounceState {
    BounceState { iterations: 0, halvings: 0, escaped: false }
}

/// Another scatter ray is to be drawn.
pub open spec fn active(s: BounceState) -> bool {
    !s.escaped && s.iterations < MAX_BOUNCES
}

/// The state after a scatter ray that hit (`hit`) or escaped; once the loop
/// has stopped, further results change nothing.
pub open spec fn step(s: BounceState, hit: bool) -> BounceState {
    if !active(s) {
        s
    } else if hit {
        BounceState { iterations: s.iterations + 1, halvings: s.halvings + 1, escaped: false }
    } else {
        BounceState { iterations: s.iterations + 1, halvings: s.halvings, escaped: true }
    }
}

/// The state after the scatter results `hits`, in order, are fed to the loop.
pub open spec fn run(hits: Seq<bool>) -> BounceState
    decreases hits.len(),
{
    if hits.len() == 0 {
        start()
    } else {
        step(run(hits.drop_last()), hits.last())
    }
}

/// The states that the loop can reach.
pub open spec fn reachable(s: BounceState) -> bool {
    &&& s.iterations <= MAX_BOUNCES
    &&& s.halvings + (if s.escaped { 1int } else { 0int }) == s.iterations
}

/// The bounce loop of one sample, from the surface its primary ray hit.
///
/// The caller draws a scatter ray while `wants_scatter` holds and reports
/// whether it hit anything; the sample's color is then the first surface's
/// color divided by `attenuation`.
pub struct Path {
    iterations: u32,
    halvings: u32,
    escaped: bool,
}

impl View for Path {
    type V = BounceState;

    closed spec fn view(&self) -> BounceState {
        BounceState {
            iterations: self.iterations as nat,
            halvings: self.halvings as nat,
            escaped: self.escaped,
        }
    }
}

impl Path {
    /// The loop of a sample whose primary ray hit a surface.
    pub fn new() -> (p: Path)
        ensures
            p@ == start(),
            reachable(p@),
    {
        Path { iterations: 0, halvings: 0, escaped: false }
    }

    /// Whether another scatter ray is to be drawn.
    pub fn wants_scatter(&self) -> (r: bool)
        requires
            reachable(self@),
        ensures
            r == active(self@),
    {
        !self.escaped && self.iterations < MAX_BOUNCES
    }

    /// Records what the latest scatter ray met, and says whether to draw
    /// another one.
    pub fn record(&mut self, hit: bool) -> (more: bool)
        requires
            reachable(old(self)@),
            active(old(self)@),
        ensures
            final(self)@ == step(old(self)@, hit),
            reachable(final(self)@),
            more == active(final(self)@),
    {
        self.iterations = self.iterations + 1;
        if hit {
            self.halvings = self.halvings + 1;
        } else {
            self.escaped = true;
        }
        !self.escaped && self.iterations < MAX_BOUNCES
    }

    /// Scatter rays drawn so far.
    pub fn bounces(&self) -> (r: u32)
        ensures
            r == self@.iterations,
    {
        self.iterations
    }

    /// Scatter rays that hit a surface so far.
    pub fn halvings(&self) -> (r: u32)
        ensures
            r == self@.halvings,
    {
        self.halvings
    }

    /// What the first surface's color is divided by: 2 for each scatter ray
    /// that hit.
    pub fn attenuation(&self) -> (r: u32)
        requires
            reachable(self@),
        ensures
            r == two_pow(self@.halvings),
    {
        let mut r: u32 = 1;
        let mut i: u32 = 0;
        while i < self.halvings
            invariant
                i <= self.halvings <= MAX_BOUNCES,
                r == two_pow(i as nat),
                r <= 32,
            decreases self.halvings - i,
        {
            assert(two_pow((i + 1) as nat) == 2 * two_pow(i as nat));
            assert(i < 5 ==> two_pow(i as nat) <= 16) by {
                reveal_with_fuel(two_pow, 6);
            }
            r = r * 2;
            i = i + 1;
        }
        r
    }
}

/// However many scatter rays keep hitting, the loop draws at most
/// `MAX_BOUNCES` of them: results after the first `MAX_BOUNCES` change
/// nothing.
pub proof fn lemma_bounces_bounded(hits: Seq<bool>)
    ensures
        reachable(run(hits)),
        run(hits).iterations <= MAX_BOUNCES,
        hits.len() >= MAX_BOUNCES ==> run(hits) == run(hits.take(MAX_BOUNCES as int)),
    decreases hits.len(),
{
    if hits.len() > 0 {
        lemma_bounces_bounded(hits.drop_last());
    }
    if hits.len() == MAX_BOUNCES {
        assert(hits.take(MAX_BOUNCES as int) =~= hits);
    }
    if hits.len() > MAX_BOUNCES {
        assert(hits.drop_last().take(MAX_BOUNCES as int) =~= hits.take(MAX_BOUNCES as int));
        lemma_stops_after_limit(hits.drop_last());
    }
}

/// Once `MAX_BOUNCES` results have been fed, the loop has stopped.
proof fn lemma_stops_after_limit(hits: Seq<bool>)
    requires
        hits.len() >= MAX_BOUNCES,
    ensures
        !active(run(hits)),
{
    lemma_iterations_grow(hits);
}

/// While the loop is active, it has drawn one scatter ray per result.
proof fn lemma_iterations_grow(hits: Seq<bool>)
    ensures
        active(run(hits)) ==> run(hits).iterations == hits.len(),
    decreases hits.len(),
{
    if hits.len() > 0 {
        lemma_iterations_grow(hits.drop_last());
    }
}

/// Where every scatter ray hits, each of the first `MAX_BOUNCES` halves the
/// sample's color once more, and the color never grows from one bounce to
/// the next.
pub proof fn lemma_attenuation_monotone(hits: Seq<bool>, k: int)
    requires
        forall|j: int| 0 <= j < hits.len() ==> #[trigger] hits[j],
        0 <= k < hits.len(),
    ensures
        run(hits).halvings == if hits.len() < MAX_BOUNCES {
            hits.len()
        } else {
            MAX_BOUNCES as nat
        },
        two_pow(run(hits.take(k)).halvings) <= two_pow(run(hits.take(k + 1)).halvings),
        k < MAX_BOUNCES ==> two_pow(run(hits.take(k + 1)).halvings) == 2 * two_pow(
            run(hits.take(k)).halvings,
        ),
{
    lemma_all_hits(hits);
    lemma_all_hits(hits.take(k));
    lemma_all_hits(hits.take(k + 1));
}

/// Feeding only hits: the loop halves once per result, up to `MAX_BOUNCES`.
proof fn lemma_all_hits(hits: Seq<bool>)
    requires
        forall|j: int| 0 <= j < hits.len() ==> #[trigger] hits[j],
    ensures
        run(hits).halvings == if hits.len() < MAX_BOUNCES {
            hits.len()
        } else {
            MAX_BOUNCES as nat
        },
        !run(hits).escaped,
        run(hits).iterations == run(hits).halvings,
    decreases hits.len(),
{
    if hits.len() > 0 {
        let rest = hits.drop_last();
        assert forall|j: int| 0 <= j < rest.len() implies #[trigger] rest[j] by {
            assert(rest[j] == hits[j]);
        }
        lemma_all_hits(rest);
    }
}

} // verus!
