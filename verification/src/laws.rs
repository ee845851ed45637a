use vstd::prelude::*;

use crate::error::TopicError;
use crate::processor::{spec_add_option, spec_create, spec_finish, spec_vote};
use crate::state::{MAX_OPTIONS, MAX_VOTERS, OptionV, TopicV, spec_winner, winner_upto};

verus! {

/// A run of AddOption transitions, applied left to right; the first
/// failure stops the run.
pub open spec fn spec_add_options(t: TopicV, topic_key: Seq<u8>, names: Seq<Seq<u8>>) -> Result<
    TopicV,
    TopicError,
>
    decreases names.len(),
{
    if names.len() == 0 {
        Ok(t)
    } else {
        match spec_add_option(t, topic_key, names[0]) {
            Ok(t2) => spec_add_options(t2, topic_key, names.drop_first()),
            Err(e) => Err(e),
        }
    }
}

/// A run of VoteTopic transitions on one option, applied left to right;
/// the first failure stops the run.
pub open spec fn spec_votes(t: TopicV, voters: Seq<Seq<u8>>, opt_idx: u8) -> Result<
    TopicV,
    TopicError,
>
    decreases voters.len(),
{
    if voters.len() == 0 {
        Ok(t)
    } else {
        match spec_vote(t, voters[0], opt_idx) {
            Ok(t2) => spec_votes(t2, voters.drop_first(), opt_idx),
            Err(e) => Err(e),
        }
    }
}

/// Every successful AddOption grows the option count by exactly one.
pub proof fn lemma_add_options_len(t: TopicV, topic_key: Seq<u8>, names: Seq<Seq<u8>>)
    requires
        spec_add_options(t, topic_key, names) is Ok,
    ensures
        spec_add_options(t, topic_key, names)->Ok_0.options.len() == t.options.len()
            + names.len(),
    decreases names.len(),
{
    if names.len() == 0 {
    } else {
        let t2 = spec_add_option(t, topic_key, names[0])->Ok_0;
        lemma_add_options_len(t2, topic_key, names.drop_first());
    }
}

/// Monotonic option growth: after a successful CreateTopic followed by
/// `n` successful AddOption calls, the topic holds `n + 1` options.
pub proof fn lemma_monotonic_option_growth(
    t0: TopicV,
    topic_key: Seq<u8>,
    actor_key: Seq<u8>,
    topic_name: Seq<u8>,
    option_name: Seq<u8>,
    names: Seq<Seq<u8>>,
)
    requires
        t0.options.len() == 0,
        spec_create(t0, topic_key, actor_key, topic_name, option_name) is Ok,
        spec_add_options(
            spec_create(t0, topic_key, actor_key, topic_name, option_name)->Ok_0,
            topic_key,
            names,
        ) is Ok,
    ensures
        spec_add_options(
            spec_create(t0, topic_key, actor_key, topic_name, option_name)->Ok_0,
            topic_key,
            names,
        )->Ok_0.options.len() == names.len() + 1,
{
    let t1 = spec_create(t0, topic_key, actor_key, topic_name, option_name)->Ok_0;
    assert(t1.options.len() == 1);
    lemma_add_options_len(t1, topic_key, names);
}

/// Capacity law for options: once a topic holds as many options as it
/// can, AddOption fails with the capacity error, whatever the name.
pub proof fn lemma_option_cap(t: TopicV, topic_key: Seq<u8>, option_name: Seq<u8>)
    requires
        t.name.len() > 0,
        !t.is_finished,
        t.options.len() >= MAX_OPTIONS,
    ensures
        spec_add_option(t, topic_key, option_name) == Err::<TopicV, TopicError>(
            TopicError::TooManyOptions,
        ),
{
}

/// Every successful vote on one option grows that option's voter count by
/// exactly one and leaves the rest of the topic's shape alone.
pub proof fn lemma_votes_len(t: TopicV, voters: Seq<Seq<u8>>, opt_idx: u8)
    requires
        (opt_idx as int) < t.options.len(),
        spec_votes(t, voters, opt_idx) is Ok,
    ensures
        spec_votes(t, voters, opt_idx)->Ok_0.options.len() == t.options.len(),
        spec_votes(t, voters, opt_idx)->Ok_0.options[opt_idx as int].voters.len()
            == t.options[opt_idx as int].voters.len() + voters.len(),
    decreases voters.len(),
{
    if voters.len() == 0 {
    } else {
        let t2 = spec_vote(t, voters[0], opt_idx)->Ok_0;
        lemma_votes_len(t2, voters.drop_first(), opt_idx);
    }
}

/// Vote bounds: after `k` successful votes on one option that started
/// empty, its voter count is exactly `k`.
pub proof fn lemma_vote_bounds(t: TopicV, voters: Seq<Seq<u8>>, opt_idx: u8)
    requires
        (opt_idx as int) < t.options.len(),
        t.options[opt_idx as int].voters.len() == 0,
        spec_votes(t, voters, opt_idx) is Ok,
    ensures
        spec_votes(t, voters, opt_idx)->Ok_0.options[opt_idx as int].voters.len()
            == voters.len(),
{
    lemma_votes_len(t, voters, opt_idx);
}

/// Capacity law for voters: once an option holds as many voters as it
/// can, a further vote on it fails with the capacity error.
pub proof fn lemma_voter_cap(t: TopicV, voter_key: Seq<u8>, opt_idx: u8)
    requires
        t.name.len() > 0,
        !t.is_finished,
        (opt_idx as int) < t.options.len(),
        t.options[opt_idx as int].voters.len() >= MAX_VOTERS,
    ensures
        spec_vote(t, voter_key, opt_idx) == Err::<TopicV, TopicError>(TopicError::TooManyVoters),
{
}

/// State gating: AddOption, VoteTopic and FinishTopic each fail on a
/// topic that is uninitialized or already finished, and CreateTopic fails
/// on a topic whose name is already set.
pub proof fn lemma_state_gating(
    t0: TopicV,
    topic_key: Seq<u8>,
    actor_key: Seq<u8>,
    topic_name: Seq<u8>,
    option_name: Seq<u8>,
    opt_idx: u8,
)
    ensures
        (t0.name.len() == 0 || t0.is_finished) ==> spec_add_option(t0, topic_key, option_name)
            == Err::<TopicV, TopicError>(TopicError::InvalidAccountData),
        (t0.name.len() == 0 || t0.is_finished) ==> spec_vote(t0, actor_key, opt_idx) == Err::<
            TopicV,
            TopicError,
        >(TopicError::InvalidAccountData),
        (t0.name.len() == 0 || t0.is_finished) ==> spec_finish(t0, actor_key) == Err::<
            TopicV,
            TopicError,
        >(TopicError::InvalidAccountData),
        t0.name.len() != 0 ==> spec_create(t0, topic_key, actor_key, topic_name, option_name)
            == Err::<TopicV, TopicError>(TopicError::AlreadyInitialized),
{
}

/// Authorization: FinishTopic on an open topic fails with `IllegalOwner`
/// whenever the acting identity differs from the recorded owner, however
/// well it signed.
pub proof fn lemma_finish_authorization(t0: TopicV, actor_key: Seq<u8>)
    requires
        t0.name.len() > 0,
        !t0.is_finished,
        t0.owner != actor_key,
    ensures
        spec_finish(t0, actor_key) == Err::<TopicV, TopicError>(TopicError::IllegalOwner),
{
}

/// The winner among the first `n` options has the highest voter count of
/// them, and strictly beats every earlier option.
proof fn lemma_winner_upto_props(opts: Seq<OptionV>, n: int)
    requires
        1 <= n <= opts.len(),
    ensures
        0 <= winner_upto(opts, n) < n,
        forall|i: int|
            0 <= i < n ==> #[trigger] opts[i].voters.len() <= opts[winner_upto(
                opts,
                n,
            )].voters.len(),
        forall|i: int|
            0 <= i < winner_upto(opts, n) ==> #[trigger] opts[i].voters.len() < opts[winner_upto(
                opts,
                n,
            )].voters.len(),
    decreases n,
{
    if n == 1 {
    } else {
        lemma_winner_upto_props(opts, n - 1);
    }
}

/// The recorded winner is the option with the most voters, ties broken by
/// the lowest index.
pub proof fn lemma_winner_is_argmax(opts: Seq<OptionV>)
    requires
        opts.len() >= 1,
    ensures
        0 <= spec_winner(opts) < opts.len(),
        forall|i: int|
            0 <= i < opts.len() ==> #[trigger] opts[i].voters.len() <= opts[spec_winner(
                opts,
            )].voters.len(),
        forall|i: int|
            0 <= i < spec_winner(opts) ==> #[trigger] opts[i].voters.len() < opts[spec_winner(
                opts,
            )].voters.len(),
{
    lemma_winner_upto_props(opts, opts.len() as int);
}

} // verus!
