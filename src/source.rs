use vstd::prelude::*;

verus! {

/// A source of uniformly distributed 64-bit draws. `drawn` is the record of
/// every draw the source has handed out so far; nothing is promised of the
/// values themselves.
pub trait DrawSource {
    /// The draws handed out so far, oldest first.
    spec fn drawn(&self) -> Seq<u64>;

    /// Produces the next draw, advancing the source and recording the draw.
    fn next_draw(&mut self) -> (r: u64)
        ensures
            final(self).drawn() == old(self).drawn().push(r),
    ;
}

#[verifier::external_type_specification]
#[verifier::external_body]
pub struct ExStdRng(rand::rngs::StdRng);

#[verifier::external_type_specification]
#[verifier::external_body]
pub struct ExStepRng(rand::rngs::mock::StepRng);

/// Relies on rand's `Rng::gen::<u64>` on the seedable standard generator:
/// its next 64-bit output. Nothing is stated of the value.
#[verifier::external_body]
fn std_rng_draw(rng: &mut rand::rngs::StdRng) -> u64 {
    rand::Rng::gen::<u64>(rng)
}

/// Relies on rand's `Rng::gen::<u64>` on the stepping mock generator: its
/// next 64-bit output. Nothing is stated of the value.
#[verifier::external_body]
fn step_rng_draw(rng: &mut rand::rngs::mock::StepRng) -> u64 {
    rand::Rng::gen::<u64>(rng)
}

/// A generator together with the record of the draws taken from it.
pub struct Recorded<G> {
    generator: G,
    log: Ghost<Seq<u64>>,
}

impl<G> Recorded<G> {
    /// The draws taken from the generator through this record, oldest first.
    pub closed spec fn record(&self) -> Seq<u64> {
        self.log@
    }

    /// Wraps a generator; no draw has been taken yet.
    pub fn new(generator: G) -> (r: Self)
        ensures
            r.record() == Seq::<u64>::empty(),
    {
        Recorded { generator, log: Ghost(Seq::empty()) }
    }

    /// The wrapped generator.
    pub fn generator(&self) -> &G {
        &self.generator
    }
}

impl DrawSource for Recorded<rand::rngs::StdRng> {
    open spec fn drawn(&self) -> Seq<u64> {
        self.record()
    }

    fn next_draw(&mut self) -> (r: u64) {
        let r = std_rng_draw(&mut self.generator);
        self.log = Ghost(self.log@.push(r));
        r
    }
}

impl DrawSource for Recorded<rand::rngs::mock::StepRng> {
    open spec fn drawn(&self) -> Seq<u64> {
        self.record()
    }

    fn next_draw(&mut self) -> (r: u64) {
        let r = step_rng_draw(&mut self.generator);
        self.log = Ghost(self.log@.push(r));
        r
    }
}

} // verus!
