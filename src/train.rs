use vstd::prelude::*;

verus! {

/// A duel result counts as an improvement over the best model so far when its win rate
/// is above this many percent.
pub const IMPROVEMENT_PERCENT: u64 = 53;

/// The episode bookkeeping of a training run: when to write a checkpoint, when to
/// measure strength by a duel, and, if a patience is set, when to fall back to the best
/// model after too long without improvement.
#[derive(Clone, Copy, Debug, PartialEq, Eq, Structural)]
pub struct TrainingSchedule {
    pub num_episodes: u64,
    /// Write a checkpoint every this many episodes; zero never.
    pub checkpoint_every: u64,
    /// Duel against the best model every this many episodes; zero never.
    pub evaluate_every: u64,
    /// Fall back to the best model after this many episodes without improvement; zero
    /// never.
    pub patience: u64,
    pub episode: u64,
    pub best_episode: u64,
}

impl TrainingSchedule {
    pub open spec fn wf(&self) -> bool {
        self.best_episode <= self.episode
    }

    /// A schedule at episode zero.
    pub fn new(num_episodes: u64, checkpoint_every: u64, evaluate_every: u64, patience: u64) -> (r:
        TrainingSchedule)
        ensures
            r.wf(),
            r.num_episodes == num_episodes,
            r.checkpoint_every == checkpoint_every,
            r.evaluate_every == evaluate_every,
            r.patience == patience,
            r.episode == 0,
            r.best_episode == 0,
    {
        TrainingSchedule {
            num_episodes,
            checkpoint_every,
            evaluate_every,
            patience,
            episode: 0,
            best_episode: 0,
        }
    }

    /// Episodes run from zero up to and including `num_episodes`.
    pub fn is_done(&self) -> (r: bool)
        ensures
            r == (self.episode > self.num_episodes),
    {
        self.episode > self.num_episodes
    }

    /// A checkpoint is written after the game of this episode.
    pub fn checkpoint_due(&self) -> (r: bool)
        ensures
            r == (self.checkpoint_every > 0 && self.episode % self.checkpoint_every == 0),
    {
        self.checkpoint_every > 0 && self.episode % self.checkpoint_every == 0
    }

    /// Moves on to the next episode.
    pub fn advance(&mut self)
        requires
            old(self).wf(),
            old(self).episode < u64::MAX,
        ensures
            final(self).wf(),
            final(self).episode == old(self).episode + 1,
            final(self).best_episode == old(self).best_episode,
            final(self).num_episodes == old(self).num_episodes,
            final(self).checkpoint_every == old(self).checkpoint_every,
            final(self).evaluate_every == old(self).evaluate_every,
            final(self).patience == old(self).patience,
    {
        self.episode = self.episode + 1;
    }

    /// A strength duel is due at this episode.
    pub fn evaluation_due(&self) -> (r: bool)
        ensures
            r == (self.evaluate_every > 0 && self.episode % self.evaluate_every == 0),
    {
        self.evaluate_every > 0 && self.episode % self.evaluate_every == 0
    }

    /// Records a duel against the best model so far, won `wins` times in `games`. It is
    /// an improvement when the win rate is above `IMPROVEMENT_PERCENT`; this episode then
    /// becomes the best.
    pub fn record_evaluation(&mut self, wins: u64, games: u64) -> (improved: bool)
        requires
            old(self).wf(),
        ensures
            final(self).wf(),
            improved == (100 * wins > IMPROVEMENT_PERCENT * games),
            final(self).best_episode == if improved {
                old(self).episode
            } else {
                old(self).best_episode
            },
            final(self).episode == old(self).episode,
            final(self).num_episodes == old(self).num_episodes,
            final(self).checkpoint_every == old(self).checkpoint_every,
            final(self).evaluate_every == old(self).evaluate_every,
            final(self).patience == old(self).patience,
    {
        let pct = IMPROVEMENT_PERCENT as u128;
        let g = games as u128;
        assert(pct * g <= 53 * 18446744073709551615) by (nonlinear_arith)
            requires
                pct == 53,
                g <= 18446744073709551615,
        ;
        let improved = 100 * (wins as u128) > pct * g;
        if improved {
            self.best_episode = self.episode;
        }
        improved
    }

    /// Too long without improvement: the run should go back to the best model.
    pub fn should_revert(&self) -> (r: bool)
        requires
            self.wf(),
        ensures
            r == (self.patience > 0 && self.episode - self.best_episode > self.patience),
    {
        self.patience > 0 && self.episode - self.best_episode > self.patience
    }

    /// Goes back to the episode of the best model.
    pub fn revert(&mut self)
        requires
            old(self).wf(),
        ensures
            final(self).wf(),
            final(self).episode == old(self).best_episode,
            final(self).best_episode == old(self).best_episode,
            final(self).num_episodes == old(self).num_episodes,
            final(self).checkpoint_every == old(self).checkpoint_every,
            final(self).evaluate_every == old(self).evaluate_every,
            final(self).patience == old(self).patience,
    {
        self.episode = self.best_episode;
    }
}

} // verus!
