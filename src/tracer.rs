use vstd::prelude::*;

verus! {

/// What the driver of a trace does next. The driver keeps, beside the tracer,
/// one accumulator and one beam of rays for each open bounce, and a current
/// light value.
#[derive(Clone, Copy, Debug, PartialEq, Eq, Structural)]
pub enum Action {
    /// Cast the next ray (the next ray of the innermost beam) and report its
    /// closest hit.
    Cast,
    /// The ray just cast hit primitive `index` and bounces remain: reflect it
    /// there, build a beam from the reflected ray and open an empty accumulator.
    Spread { index: usize },
    /// The ray just cast hit nothing: its light is the default material's.
    Background,
    /// The ray just cast hit primitive `index` with no bounce left: its light is
    /// that material applied to the default material's light.
    Lit { index: usize },
    /// Add the emission of the current light to the innermost accumulator.
    Accumulate,
    /// The innermost beam is complete: close its accumulator, average it over
    /// the beam and apply material `index`; that is the current light.
    Gather { index: usize },
    /// The current light is the primary ray's: the trace is over.
    Finish,
}

/// An open bounce: the primitive that was hit and the beam rays not cast yet.
#[derive(Clone, Copy, Debug, PartialEq, Eq, Structural)]
pub struct Frame {
    pub index: usize,
    pub remaining: usize,
}

/// The control of one trace, run as an explicit stack of bounces. A ray at
/// depth `d` (the primary ray is at depth 0) spawns a beam of rays at `d + 1`
/// when it hits and `d` is below the recursion depth.
pub struct Tracer {
    recursion_depth: usize,
    beam_rays_count: usize,
    primitives_count: usize,
    frames: Vec<Frame>,
    finished: bool,
}

/// Actions that follow once the light of a ray at depth `fs.len()` is at hand
/// (`delivered`), or once the innermost beam of `fs` may go on, with the stack
/// they leave. A beam goes on only from a stack that holds it: the empty stack
/// without a value is never reached.
pub open spec fn unwind(fs: Seq<Frame>, delivered: bool) -> (Seq<Action>, Seq<Frame>)
    decreases 2 * fs.len() + if delivered { 1nat } else { 0nat },
{
    if delivered {
        if fs.len() == 0 {
            (seq![Action::Finish], fs)
        } else {
            let r = unwind(fs, false);
            (seq![Action::Accumulate] + r.0, r.1)
        }
    } else if fs.len() == 0 {
        (seq![], fs)
    } else {
        let top = fs.last();
        if top.remaining > 0 {
            (
                seq![Action::Cast],
                fs.update(
                    fs.len() - 1,
                    Frame { index: top.index, remaining: (top.remaining - 1) as usize },
                ),
            )
        } else {
            let r = unwind(fs.drop_last(), true);
            (seq![Action::Gather { index: top.index }] + r.0, r.1)
        }
    }
}

/// Most rays that a ray at `depth` can still cause to be cast below it.
pub open spec fn casts_below(recursion_depth: nat, beam: nat, depth: nat) -> nat
    decreases recursion_depth - depth,
{
    if depth < recursion_depth {
        beam * (1 + casts_below(recursion_depth, beam, depth + 1))
    } else {
        0
    }
}

/// Most rays the beams of the stack `fs` can still cast.
pub open spec fn frames_budget(recursion_depth: nat, beam: nat, fs: Seq<Frame>) -> nat
    decreases fs.len(),
{
    if fs.len() == 0 {
        0
    } else {
        frames_budget(recursion_depth, beam, fs.drop_last()) + (fs.last().remaining as nat) * (1
            + casts_below(recursion_depth, beam, fs.len()))
    }
}

proof fn lemma_budget_push(recursion_depth: nat, beam: nat, fs: Seq<Frame>, f: Frame)
    ensures
        frames_budget(recursion_depth, beam, fs.push(f)) == frames_budget(recursion_depth, beam, fs)
            + (f.remaining as nat) * (1 + casts_below(recursion_depth, beam, fs.len() + 1)),
{
    assert(fs.push(f).drop_last() =~= fs);
}

proof fn lemma_budget_take_one(recursion_depth: nat, beam: nat, fs: Seq<Frame>)
    requires
        fs.len() > 0,
        fs.last().remaining > 0,
    ensures
        frames_budget(recursion_depth, beam, fs) == frames_budget(
            recursion_depth,
            beam,
            fs.update(
                fs.len() - 1,
                Frame { index: fs.last().index, remaining: (fs.last().remaining - 1) as usize },
            ),
        ) + 1 + casts_below(recursion_depth, beam, fs.len()),
{
    let g = fs.update(
        fs.len() - 1,
        Frame { index: fs.last().index, remaining: (fs.last().remaining - 1) as usize },
    );
    assert(g.drop_last() =~= fs.drop_last());
    let c = 1 + casts_below(recursion_depth, beam, fs.len());
    let r = fs.last().remaining as nat;
    assert(r * c == (r - 1) * c + c) by (nonlinear_arith)
        requires
            r > 0,
    ;
}

impl Tracer {
    pub closed spec fn max_depth(self) -> nat {
        self.recursion_depth as nat
    }

    pub closed spec fn beam_size(self) -> nat {
        self.beam_rays_count as nat
    }

    pub closed spec fn primitives(self) -> nat {
        self.primitives_count as nat
    }

    /// The open bounces, outermost first.
    pub closed spec fn stack(self) -> Seq<Frame> {
        self.frames@
    }

    pub closed spec fn is_finished(self) -> bool {
        self.finished
    }

    /// Depth of the ray whose hit is awaited.
    pub open spec fn depth(self) -> nat {
        self.stack().len()
    }

    pub open spec fn well_formed(self) -> bool {
        &&& self.depth() <= self.max_depth()
        &&& forall|k: int|
            0 <= k < self.stack().len() ==> self.stack()[k].remaining <= self.beam_size()
                && self.stack()[k].index < self.primitives()
        &&& self.is_finished() ==> self.stack().len() == 0
    }

    /// What follows the report of the awaited ray's hit: the actions, and the
    /// stack left behind.
    pub open spec fn reaction(self, hit: Option<usize>) -> (Seq<Action>, Seq<Frame>) {
        match hit {
            None => {
                let r = unwind(self.stack(), true);
                (seq![Action::Background] + r.0, r.1)
            },
            Some(i) => {
                if self.depth() < self.max_depth() {
                    let r = unwind(
                        self.stack().push(Frame { index: i, remaining: self.beam_size() as usize }),
                        false,
                    );
                    (seq![Action::Spread { index: i }] + r.0, r.1)
                } else {
                    let r = unwind(self.stack(), true);
                    (seq![Action::Lit { index: i }] + r.0, r.1)
                }
            },
        }
    }

    /// Most rays still to be cast in this trace, the awaited one included.
    pub open spec fn budget(self) -> nat {
        if self.is_finished() {
            0
        } else {
            1 + casts_below(self.max_depth(), self.beam_size(), self.depth()) + frames_budget(
                self.max_depth(),
                self.beam_size(),
                self.stack(),
            )
        }
    }

    /// A trace whose primary ray is cast and awaits its hit.
    pub fn new(recursion_depth: usize, beam_rays_count: usize, primitives_count: usize) -> (r: Tracer)
        ensures
            r.well_formed(),
            r.max_depth() == recursion_depth,
            r.beam_size() == beam_rays_count,
            r.primitives() == primitives_count,
            r.stack() == Seq::<Frame>::empty(),
            !r.is_finished(),
            r.budget() == 1 + casts_below(recursion_depth as nat, beam_rays_count as nat, 0),
    {
        Tracer {
            recursion_depth,
            beam_rays_count,
            primitives_count,
            frames: Vec::new(),
            finished: false,
        }
    }

    /// Reports the closest hit of the awaited ray (`None` for a miss) and
    /// returns what the driver does next, up to the next `Cast` or to `Finish`.
    /// A ray spawns a beam only below the recursion depth, so no ray is ever
    /// cast deeper than that; and each report lowers the budget of rays still
    /// to be cast, so every trace ends.
    pub fn report(&mut self, hit: Option<usize>) -> (actions: Vec<Action>)
        requires
            old(self).well_formed(),
            !old(self).is_finished(),
            hit matches Some(i) ==> i < old(self).primitives(),
        ensures
            final(self).well_formed(),
            final(self).max_depth() == old(self).max_depth(),
            final(self).beam_size() == old(self).beam_size(),
            final(self).primitives() == old(self).primitives(),
            actions@ == old(self).reaction(hit).0,
            final(self).stack() == old(self).reaction(hit).1,
            actions@.len() > 0,
            final(self).is_finished() == (actions@.last() == Action::Finish),
            !final(self).is_finished() ==> actions@.last() == Action::Cast,
            final(self).depth() <= final(self).max_depth(),
            final(self).budget() < old(self).budget(),
    {
        let ghost target = self.reaction(hit);
        let ghost start = *self;
        let mut actions: Vec<Action> = Vec::new();
        let mut delivered: bool;
        match hit {
            None => {
                actions.push(Action::Background);
                delivered = true;
            },
            Some(i) => {
                if self.frames.len() < self.recursion_depth {
                    let f = Frame { index: i, remaining: self.beam_rays_count };
                    proof {
                        lemma_budget_push(self.max_depth(), self.beam_size(), self.frames@, f);
                    }
                    actions.push(Action::Spread { index: i });
                    self.frames.push(f);
                    delivered = false;
                } else {
                    actions.push(Action::Lit { index: i });
                    delivered = true;
                }
            },
        }
        let mut stop = false;
        while !stop
            invariant
                self.recursion_depth == start.recursion_depth,
                self.beam_rays_count == start.beam_rays_count,
                self.primitives_count == start.primitives_count,
                self.well_formed(),
                actions@.len() > 0,
                !stop ==> !self.finished,
                !stop && !delivered ==> self.frames@.len() > 0,
                !stop ==> actions@ + unwind(self.frames@, delivered).0 == target.0,
                !stop ==> unwind(self.frames@, delivered).1 == target.1,
                !stop ==> frames_budget(start.max_depth(), start.beam_size(), self.frames@) < start.budget(),
                stop ==> actions@ == target.0,
                stop ==> self.frames@ == target.1,
                stop ==> self.finished == (actions@.last() == Action::Finish),
                stop && !self.finished ==> actions@.last() == Action::Cast,
                stop ==> self.budget() < start.budget(),
            decreases
                if stop {
                    0nat
                } else {
                    2 * self.frames@.len() + if delivered {
                        2nat
                    } else {
                        1nat
                    }
                },
        {
            let ghost before = actions@;
            if delivered {
                if self.frames.len() == 0 {
                    actions.push(Action::Finish);
                    self.finished = true;
                    stop = true;
                    assert(actions@ =~= before + seq![Action::Finish]);
                } else {
                    actions.push(Action::Accumulate);
                    delivered = false;
                    assert(actions@ + unwind(self.frames@, false).0 =~= before + (seq![
                        Action::Accumulate,
                    ] + unwind(self.frames@, false).0));
                }
            } else {
                let last = self.frames.len() - 1;
                let top = self.frames[last];
                if top.remaining > 0 {
                    proof {
                        lemma_budget_take_one(self.max_depth(), self.beam_size(), self.frames@);
                    }
                    self.frames.set(last, Frame { index: top.index, remaining: top.remaining - 1 });
                    actions.push(Action::Cast);
                    stop = true;
                    assert(actions@ =~= before + seq![Action::Cast]);
                } else {
                    let ghost fs = self.frames@;
                    self.frames.pop();
                    assert(self.frames@ =~= fs.drop_last());
                    actions.push(Action::Gather { index: top.index });
                    delivered = true;
                    assert(actions@ + unwind(self.frames@, true).0 =~= before + (seq![
                        Action::Gather { index: top.index },
                    ] + unwind(self.frames@, true).0));
                }
            }
        }
        actions
    }

    /// Whether the trace is over.
    pub fn finished(&self) -> (r: bool)
        ensures
            r == self.is_finished(),
    {
        self.finished
    }
}

/// With no bounce allowed, the primary ray is settled by its own hit: a miss
/// gives the default material's light, a hit on `i` gives material `i` applied
/// to the default material's light, and the trace ends there.
pub proof fn lemma_no_recursion_baseline(t: Tracer, hit: Option<usize>)
    requires
        t.well_formed(),
        t.max_depth() == 0,
    ensures
        t.reaction(hit).0 == match hit {
            None => seq![Action::Background, Action::Finish],
            Some(i) => seq![Action::Lit { index: i }, Action::Finish],
        },
{
    assert(t.stack().len() == 0);
    let r = unwind(t.stack(), true);
    assert(r.0 == seq![Action::Finish]);
    match hit {
        None => assert(t.reaction(hit).0 =~= seq![Action::Background, Action::Finish]),
        Some(i) => assert(t.reaction(hit).0 =~= seq![Action::Lit { index: i }, Action::Finish]),
    }
}

/// `1 + b + b^2 + ... + b^n`, in Horner form.
pub open spec fn geometric(b: nat, n: nat) -> nat
    decreases n,
{
    if n == 0 {
        1
    } else {
        1 + b * geometric(b, (n - 1) as nat)
    }
}

/// A ray at `depth` causes, itself included, at most
/// `1 + b + ... + b^(recursion_depth - depth)` rays to be cast. With the budget
/// of a new trace and its fall at each report, a trace of recursion depth `n`
/// and beams of `b` rays casts at most `1 + b + ... + b^n` rays in all.
pub proof fn lemma_cast_bound(recursion_depth: nat, beam: nat, depth: nat)
    requires
        depth <= recursion_depth,
    ensures
        1 + casts_below(recursion_depth, beam, depth) == geometric(
            beam,
            (recursion_depth - depth) as nat,
        ),
    decreases recursion_depth - depth,
{
    if depth < recursion_depth {
        lemma_cast_bound(recursion_depth, beam, depth + 1);
        assert((recursion_depth - depth) as nat - 1 == (recursion_depth - (depth + 1)) as nat);
    }
}

} // verus!
