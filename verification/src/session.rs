//! Sessions: rows of steps that are performed one after the other.

use vstd::prelude::*;

use crate::step::{
    action_of, after, after_text, steps_model, Action, ActionModel, Failure, FailureModel, Reply,
    ReplyModel, Step, StepModel,
};

verus! {

/// The action that a row of steps asks for next.
pub open spec fn next_action(steps: Seq<StepModel>) -> ActionModel {
    if steps.len() == 0 {
        Action::Finish
    } else {
        action_of(steps[0])
    }
}

/// A row of steps that asks for nothing more: it is done or has failed.
pub open spec fn at_rest(steps: Seq<StepModel>) -> bool {
    steps.len() == 0 || steps[0] is Refuse
}

/// A row of steps after the reply to its next action. The first step gives way to those that
/// follow from the reply. A failure takes the place of the whole row.
pub open spec fn resumed(steps: Seq<StepModel>, reply: ReplyModel) -> Seq<StepModel> {
    if at_rest(steps) {
        steps
    } else {
        match after(steps[0], reply) {
            Ok(more) => more + steps.drop_first(),
            Err(failure) => seq![Step::Refuse(failure)],
        }
    }
}

/// A row of steps after a row of replies.
pub open spec fn played(steps: Seq<StepModel>, replies: Seq<ReplyModel>) -> Seq<StepModel>
    decreases replies.len(),
{
    if replies.len() == 0 {
        steps
    } else {
        played(resumed(steps, replies[0]), replies.drop_first())
    }
}

/// A row of steps that is being performed.
pub struct Session {
    /// The steps that are left, the next one last.
    stack: Vec<Step<String>>,
}

impl View for Session {
    type V = Seq<StepModel>;

    closed spec fn view(&self) -> Seq<StepModel> {
        steps_model(self.stack@).reverse()
    }
}

impl Session {
    /// A session that begins with the first of the steps.
    pub fn new(steps: Vec<Step<String>>) -> (session: Self)
        ensures
            session@ == steps_model(steps@),
    {
        let mut steps = steps;
        let ghost all = steps@;
        let mut stack: Vec<Step<String>> = Vec::new();
        loop
            invariant
                stack@.len() + steps@.len() == all.len(),
                steps@ == all.take(steps@.len() as int),
                forall|k: int|
                    0 <= k < stack@.len() ==> #[trigger] stack@[k] == all[all.len() - 1 - k],
            ensures
                steps@.len() == 0,
            decreases steps@.len(),
        {
            match steps.pop() {
                Some(step) => stack.push(step),
                None => break,
            }
        }
        let session = Session { stack };
        assert(session@ == steps_model(all));
        session
    }

    /// The action that the session asks for next.
    pub fn action(&self) -> (action: Action<String>)
        ensures
            action@ == next_action(self@),
    {
        let left: usize = self.stack.len();
        if left == 0 {
            Action::Finish
        } else {
            assert(self@[0] == self.stack@[left - 1]@);
            self.stack[left - 1].action()
        }
    }

    /// Goes on with the reply to the action that the session asked for.
    pub fn resume(&mut self, reply: Reply<String, Vec<u8>>)
        ensures
            final(self)@ == resumed(old(self)@, reply@),
    {
        let ghost before = self@;
        let ghost stack = self.stack@;
        match self.stack.pop() {
            None => {
                assert(self@ == before);
            },
            Some(step) => {
                assert(before[0] == step@);
                assert(steps_model(self.stack@).reverse() == before.drop_first());
                if let Step::Refuse(_) = &step {
                    self.stack.push(step);
                    assert(self.stack@ == stack);
                } else {
                    match step.after(reply) {
                        Ok(more) => {
                            let mut more = more;
                            let ghost rest = self.stack@;
                            let ghost all = more@;
                            loop
                                invariant
                                    more@.len() <= all.len(),
                                    more@ == all.take(more@.len() as int),
                                    self.stack@.len() == rest.len() + all.len() - more@.len(),
                                    self.stack@.take(rest.len() as int) == rest,
                                    forall|k: int|
                                        rest.len() <= k < self.stack@.len()
                                            ==> #[trigger] self.stack@[k] == all[all.len() - 1 - (k
                                            - rest.len())],
                                ensures
                                    more@.len() == 0,
                                decreases more@.len(),
                            {
                                match more.pop() {
                                    Some(step) => self.stack.push(step),
                                    None => break,
                                }
                            }
                            assert forall|k: int| 0 <= k < rest.len() implies self.stack@[k]
                                == rest[k] by {
                                assert(self.stack@.take(rest.len() as int)[k] == rest[k]);
                            }
                            assert(self@ == steps_model(all) + steps_model(rest).reverse());
                        },
                        Err(failure) => {
                            self.stack = vec![Step::Refuse(failure)];
                            assert(self@ == seq![Step::Refuse(failure@)]);
                        },
                    }
                }
            },
        }
    }
}

/// A row of steps that has failed.
pub open spec fn has_failed(steps: Seq<StepModel>) -> bool {
    steps.len() > 0 && steps[0] is Refuse
}

/// An action that changes the machine: anything but reading and reporting.
pub open spec fn is_change(action: ActionModel) -> bool {
    action is WriteInt || action is Signal || action is WriteFile
}

/// A step that changes nothing, and that no step follows from which does.
pub open spec fn only_reads(step: StepModel) -> bool {
    !(step is WriteInt || step is Signal || step is WriteFile || step is LimitBrightness
        || step is ChooseCharging || step is SetCharging)
}

/// The highest number of actions that a step and those that follow from it can ask for.
pub open spec fn longest(step: StepModel) -> nat {
    match step {
        Step::Refuse(_) => 0,
        Step::ShowString(_, _) | Step::ShowInt(_, _, _) | Step::ShowFile(_, _, _) => 2,
        Step::ShowProfiles | Step::ShowProfile => 2,
        Step::FirstFanTemp(_, _) => 2,
        Step::FanTemp(_, _) => 3,
        Step::FanSpeed(_) => 4,
        Step::CountSecondFan(_) => 16,
        Step::CountFirstFan => 17,
        Step::MaxBrightness(_) => 2,
        Step::Brightness | Step::LimitBrightness(_) | Step::ChooseCharging(_) => 4,
        Step::SetCharging(_) => 3,
        _ => 1,
    }
}

/// The highest number of actions that a row of steps can ask for.
pub open spec fn longest_run(steps: Seq<StepModel>) -> nat
    decreases steps.len(),
{
    if steps.len() == 0 {
        0
    } else {
        longest(steps[0]) + longest_run(steps.drop_first())
    }
}

/// The bounds of two rows add up to that of the row made of both.
pub proof fn lemma_longest_run_sum(first: Seq<StepModel>, second: Seq<StepModel>)
    ensures
        longest_run(first + second) == longest_run(first) + longest_run(second),
    decreases first.len(),
{
    if first.len() == 0 {
        assert(first + second == second);
    } else {
        assert((first + second).drop_first() == first.drop_first() + second);
        lemma_longest_run_sum(first.drop_first(), second);
    }
}

/// The bound of a short row, step by step.
pub proof fn lemma_short_run(steps: Seq<StepModel>)
    requires
        steps.len() <= 5,
    ensures
        longest_run(steps) == longest_at(steps, 0) + longest_at(steps, 1) + longest_at(steps, 2)
            + longest_at(steps, 3) + longest_at(steps, 4),
    decreases steps.len(),
{
    if steps.len() > 0 {
        let rest = steps.drop_first();
        lemma_short_run(rest);
        assert(forall|k: int| 0 <= k < rest.len() ==> #[trigger] rest[k] == steps[k + 1]);
    }
}

/// The bound of the step at a place, or 0 where there is none.
pub open spec fn longest_at(steps: Seq<StepModel>, k: int) -> nat {
    if 0 <= k < steps.len() {
        longest(steps[k])
    } else {
        0
    }
}

proof fn lemma_after_is_shorter(step: StepModel, reply: ReplyModel)
    requires
        !(step is Refuse),
    ensures
        after(step, reply) matches Ok(more) ==> longest_run(more) < longest(step),
{
    reveal_with_fuel(longest_run, 7);
    if let Ok(more) = after(step, reply) {
        if more.len() > 0 {
            assert(longest_run(more) == longest(more[0]) + longest_run(more.drop_first()));
        }
        if more.len() > 1 {
            let rest = more.drop_first();
            assert(rest[0] == more[1]);
            assert(longest_run(rest) == longest(rest[0]) + longest_run(rest.drop_first()));
        }
        if more.len() > 2 {
            let rest = more.drop_first().drop_first();
            assert(rest[0] == more[2]);
            assert(longest_run(rest) == longest(rest[0]) + longest_run(rest.drop_first()));
        }
        if step is CountSecondFan {
            let fourth = more.drop_first().drop_first().drop_first();
            assert(fourth[0] == more[3]);
            let fans = fourth.drop_first();
            assert(fans.len() <= 2);
            assert(forall|k: int| 0 <= k < fans.len() ==> (#[trigger] fans[k]) is FanSpeed);
            if fans.len() > 0 {
                let last = fans.drop_first();
                assert(last.len() > 0 ==> last[0] == fans[1]);
                assert(longest_run(last) <= 4);
            }
        }
    }
}

/// A session asks for a bounded number of actions, whatever the replies are.
pub proof fn law_session_ends(steps: Seq<StepModel>, replies: Seq<ReplyModel>)
    requires
        replies.len() >= longest_run(steps),
    ensures
        at_rest(played(steps, replies)),
    decreases replies.len(),
{
    if at_rest(steps) {
        law_rest_is_final(steps, replies);
    } else {
        lemma_after_is_shorter(steps[0], replies[0]);
        if let Ok(more) = after(steps[0], replies[0]) {
            lemma_longest_run_sum(more, steps.drop_first());
        } else {
            reveal_with_fuel(longest_run, 2);
        }
        law_session_ends(resumed(steps, replies[0]), replies.drop_first());
    }
}

/// A session that is done, or that has failed, stays as it is.
pub proof fn law_rest_is_final(steps: Seq<StepModel>, replies: Seq<ReplyModel>)
    requires
        at_rest(steps),
    ensures
        played(steps, replies) == steps,
    decreases replies.len(),
{
    if replies.len() > 0 {
        law_rest_is_final(steps, replies.drop_first());
    }
}

/// A step whose action may fail without ending the session: a fan that cannot be read is not
/// there, a temperature that cannot be read is 0, and output is not looked after.
pub open spec fn tolerates_failure(step: StepModel) -> bool {
    step is CountFirstFan || step is CountSecondFan || step is FanTemp || step is FirstFanTemp
        || step is Print || step is Log
}

/// An action that fails ends the session with the reason for that, unless its step tolerates
/// it, whatever the replies after it are.
pub proof fn law_failed_action_reported(
    steps: Seq<StepModel>,
    reason: Seq<char>,
    replies: Seq<ReplyModel>,
)
    requires
        steps.len() > 0,
        !(action_of(steps[0]) is Fail),
        !tolerates_failure(steps[0]),
        replies.len() > 0,
        replies[0] == Reply::<Seq<char>, Seq<u8>>::Failed(reason),
    ensures
        next_action(played(steps, replies)) == Action::Fail(Failure::Io(reason)),
{
    lemma_played_once(steps, replies);
    law_rest_is_final(resumed(steps, replies[0]), replies.drop_first());
}

/// A row of steps that only read never asks for a change, whatever the replies are.
pub proof fn law_reading_changes_nothing(steps: Seq<StepModel>, replies: Seq<ReplyModel>)
    requires
        forall|k: int| 0 <= k < steps.len() ==> only_reads(#[trigger] steps[k]),
    ensures
        !is_change(next_action(played(steps, replies))),
    decreases replies.len(),
{
    if replies.len() > 0 {
        let next = resumed(steps, replies[0]);
        assert forall|k: int| 0 <= k < next.len() implies only_reads(#[trigger] next[k]) by {
            if !at_rest(steps) {
                assert(only_reads(steps[0]));
                if let Ok(more) = after(steps[0], replies[0]) {
                    if k >= more.len() {
                        assert(next[k] == steps[k - more.len() + 1]);
                    }
                }
            }
        }
        law_reading_changes_nothing(next, replies.drop_first());
    }
}

/// A session writes to the driver nothing but what its steps say beforehand, whatever the
/// replies are.
pub proof fn law_driver_writes_are_planned(steps: Seq<StepModel>, replies: Seq<ReplyModel>)
    ensures
        match next_action(played(steps, replies)) {
            Action::WriteInt(request, value) => steps.contains(Step::WriteInt(request, value)),
            Action::Signal(request) => steps.contains(Step::Signal(request)),
            _ => true,
        },
    decreases replies.len(),
{
    if replies.len() > 0 {
        let next = resumed(steps, replies[0]);
        law_driver_writes_are_planned(next, replies.drop_first());
        assert forall|step: StepModel|
            (step is WriteInt || step is Signal) && #[trigger] next.contains(
                step,
            ) implies steps.contains(step) by {
            let k = choose|k: int| 0 <= k < next.len() && next[k] == step;
            if !at_rest(steps) {
                if let Ok(more) = after(steps[0], replies[0]) {
                    if k >= more.len() {
                        assert(steps[k - more.len() + 1] == step);
                    }
                }
            }
        }
    }
}

/// A step that decides by the text it reads would, for `text`, write `contents` to `path`.
pub open spec fn writes_for(
    step: StepModel,
    text: Seq<char>,
    path: Seq<char>,
    contents: Seq<char>,
) -> bool {
    after_text(step, text) matches Ok(more) && more.contains(Step::WriteFile(path, contents))
}

/// A session writes to a file nothing but what its steps say beforehand, or what one of them
/// decides by a text that was read, whatever the replies are.
#[verifier::rlimit(50)]
pub proof fn law_file_writes_are_planned(
    steps: Seq<StepModel>,
    replies: Seq<ReplyModel>,
    path: Seq<char>,
    contents: Seq<char>,
)
    requires
        next_action(played(steps, replies)) == Action::WriteFile(path, contents),
    ensures
        steps.contains(Step::WriteFile(path, contents)) || exists|k: int, i: int|
            0 <= k < steps.len() && 0 <= i < replies.len() && replies[i] is Text && #[trigger]
                writes_for(steps[k], replies[i]->Text_0, path, contents),
    decreases replies.len(),
{
    let write = Step::WriteFile(path, contents);
    if replies.len() == 0 {
        assert(steps[0] == write);
    } else {
        let next = resumed(steps, replies[0]);
        let rest = replies.drop_first();
        law_file_writes_are_planned(next, rest, path, contents);
        if at_rest(steps) {
            law_rest_is_final(steps, replies);
        } else if let Ok(more) = after(steps[0], replies[0]) {
            if next.contains(write) {
                let k = choose|k: int| 0 <= k < next.len() && next[k] == write;
                if k < more.len() {
                    assert(more.contains(write));
                    assert(writes_for(steps[0], replies[0]->Text_0, path, contents));
                } else {
                    assert(steps[k - more.len() + 1] == write);
                }
            } else {
                let (k, i) = choose|k: int, i: int|
                    0 <= k < next.len() && 0 <= i < rest.len() && rest[i] is Text && #[trigger]
                        writes_for(next[k], rest[i]->Text_0, path, contents);
                assert(rest[i] == replies[i + 1]);
                if k < more.len() {
                    assert(next[k] == more[k]);
                    assert(!writes_for(more[k], rest[i]->Text_0, path, contents));
                } else {
                    let at = k - more.len() + 1;
                    assert(steps[at] == next[k]);
                    assert(writes_for(steps[at], replies[i + 1]->Text_0, path, contents));
                }
            }
        }
    }
}

/// The first reply leads from a row of steps to the next one.
pub proof fn lemma_played_once(steps: Seq<StepModel>, replies: Seq<ReplyModel>)
    requires
        replies.len() > 0,
    ensures
        played(steps, replies) == played(resumed(steps, replies[0]), replies.drop_first()),
        forall|k: int|
            0 <= k < replies.len() - 1 ==> #[trigger] replies.drop_first()[k] == replies[k + 1],
{
}

/// A row of replies leads where its first `k` lead, followed by the others.
pub proof fn lemma_played_split(steps: Seq<StepModel>, replies: Seq<ReplyModel>, k: int)
    requires
        0 <= k <= replies.len(),
    ensures
        played(steps, replies) == played(played(steps, replies.take(k)), replies.skip(k)),
    decreases k,
{
    if k == 0 {
        assert(replies.skip(0) == replies);
        assert(replies.take(0).len() == 0);
    } else {
        lemma_played_split(resumed(steps, replies[0]), replies.drop_first(), k - 1);
        assert(replies.take(k).drop_first() == replies.drop_first().take(k - 1));
        assert(replies.take(k)[0] == replies[0]);
        assert(replies.drop_first().skip(k - 1) == replies.skip(k));
    }
}

/// Where one row of steps follows another, it begins when the other is done. If the other
/// fails, it never begins.
pub proof fn law_parts_in_order(
    first: Seq<StepModel>,
    second: Seq<StepModel>,
    replies: Seq<ReplyModel>,
)
    requires
        forall|k: int|
            0 <= k < replies.len() ==> !at_rest(#[trigger] played(first, replies.take(k))),
    ensures
        ({
            let left = played(first, replies);
            let whole = played(first + second, replies);
            &&& has_failed(left) ==> has_failed(whole) && whole[0] == left[0]
            &&& !has_failed(left) ==> whole == left + second
        }),
    decreases replies.len(),
{
    if replies.len() > 0 {
        let reply = replies[0];
        let rest = replies.drop_first();
        let next = resumed(first, reply);
        assert(replies.take(0) == Seq::<ReplyModel>::empty());
        assert(!at_rest(played(first, replies.take(0))));
        assert((first + second).drop_first() == first.drop_first() + second);
        assert forall|k: int| 0 <= k < rest.len() implies !at_rest(
            #[trigger] played(next, rest.take(k)),
        ) by {
            assert(replies.take(k + 1).drop_first() == rest.take(k));
            assert(!at_rest(played(first, replies.take(k + 1))));
        }
        match after(first[0], reply) {
            Ok(more) => {
                assert(more + (first.drop_first() + second) == (more + first.drop_first())
                    + second);
                law_parts_in_order(next, second, rest);
            },
            Err(failure) => {
                law_rest_is_final(next, rest);
            },
        }
    }
}

/// A session that ends with success has come to every one of its steps, and with nothing but
/// the steps behind it left to do.
pub proof fn law_success_reaches_every_step(
    steps: Seq<StepModel>,
    replies: Seq<ReplyModel>,
    k: int,
)
    requires
        0 <= k < steps.len(),
        played(steps, replies).len() == 0,
    ensures
        exists|j: int|
            0 <= j < replies.len() && #[trigger] played(steps, replies.take(j)) == steps.skip(k),
{
    assert(steps.take(k) + steps.skip(k) == steps);
    lemma_suffix_reached(steps.take(k), steps.skip(k), replies);
    let j = choose|j: int|
        0 <= j <= replies.len() && #[trigger] played(
            steps.take(k) + steps.skip(k),
            replies.take(j),
        ) == steps.skip(k);
    assert(replies.take(replies.len() as int) == replies);
    assert(played(steps, replies.take(j)) == steps.skip(k));
}

/// At some point the row of steps asks for the action and, where that is a change, is told
/// that it was done.
pub open spec fn performs(
    steps: Seq<StepModel>,
    replies: Seq<ReplyModel>,
    action: ActionModel,
) -> bool {
    exists|j: int|
        0 <= j < replies.len() && next_action(#[trigger] played(steps, replies.take(j))) == action
            && (is_change(action) ==> replies[j] is Done)
}

/// In a session that ends with success, every change that was asked for has been done.
pub proof fn law_success_means_done(steps: Seq<StepModel>, replies: Seq<ReplyModel>, j: int)
    requires
        0 <= j < replies.len(),
        is_change(next_action(played(steps, replies.take(j)))),
        played(steps, replies).len() == 0,
    ensures
        replies[j] is Done,
{
    let reached = played(steps, replies.take(j));
    lemma_played_split(steps, replies, j);
    lemma_played_once(reached, replies.skip(j));
    if !(replies[j] is Done) {
        law_rest_is_final(resumed(reached, replies[j]), replies.skip(j).drop_first());
    }
}

/// A session that ends with success has performed the action of every one of its steps.
pub proof fn law_success_performs_every_step(
    steps: Seq<StepModel>,
    replies: Seq<ReplyModel>,
    k: int,
)
    requires
        0 <= k < steps.len(),
        played(steps, replies).len() == 0,
    ensures
        performs(steps, replies, action_of(steps[k])),
{
    law_success_reaches_every_step(steps, replies, k);
    let j = choose|j: int|
        0 <= j < replies.len() && #[trigger] played(steps, replies.take(j)) == steps.skip(k);
    assert(steps.skip(k)[0] == steps[k]);
    assert(next_action(played(steps, replies.take(j))) == action_of(steps[k]));
    if is_change(action_of(steps[k])) {
        law_success_means_done(steps, replies, j);
    }
}

/// The step at a place was let pass by a reply, and each step that followed from it has been
/// performed.
pub open spec fn has_led_on(
    steps: Seq<StepModel>,
    replies: Seq<ReplyModel>,
    k: int,
    i: int,
) -> bool {
    after(steps[k], replies[i]) matches Ok(more) && forall|m: int|
        0 <= m < more.len() ==> performs(steps, replies, action_of(#[trigger] more[m]))
}

/// A session that ends with success has also performed what followed from each of its steps.
pub proof fn law_success_performs_what_follows(
    steps: Seq<StepModel>,
    replies: Seq<ReplyModel>,
    k: int,
)
    requires
        0 <= k < steps.len(),
        played(steps, replies).len() == 0,
    ensures
        exists|i: int| 0 <= i < replies.len() && #[trigger] has_led_on(steps, replies, k, i),
{
    law_success_reaches_every_step(steps, replies, k);
    let i = choose|i: int|
        0 <= i < replies.len() && #[trigger] played(steps, replies.take(i)) == steps.skip(k);
    let reached = steps.skip(k);
    let next = resumed(reached, replies[i]);
    let later = replies.skip(i + 1);
    assert(reached[0] == steps[k]);
    lemma_played_split(steps, replies, i);
    lemma_played_once(reached, replies.skip(i));
    assert(replies.skip(i).drop_first() == later);
    if at_rest(reached) {
        law_rest_is_final(reached, replies.skip(i));
    }
    if has_failed(next) {
        law_rest_is_final(next, later);
    }
    let more = after(steps[k], replies[i])->Ok_0;
    assert forall|m: int| 0 <= m < more.len() implies performs(
        steps,
        replies,
        action_of(#[trigger] more[m]),
    ) by {
        law_success_reaches_every_step(next, later, m);
        let j = choose|j: int|
            0 <= j < later.len() && #[trigger] played(next, later.take(j)) == next.skip(m);
        let upto = replies.take(i + 1 + j);
        lemma_played_split(steps, upto, i);
        assert(upto.take(i) == replies.take(i));
        lemma_played_once(reached, upto.skip(i));
        assert(upto.skip(i).drop_first() == later.take(j));
        assert(next.skip(m)[0] == more[m]);
        assert(next_action(played(steps, upto)) == action_of(more[m]));
        if is_change(action_of(more[m])) {
            law_success_means_done(steps, replies, i + 1 + j);
        }
    }
    assert(has_led_on(steps, replies, k, i));
}

proof fn lemma_suffix_reached(
    first: Seq<StepModel>,
    second: Seq<StepModel>,
    replies: Seq<ReplyModel>,
)
    requires
        played(first + second, replies).len() == 0,
    ensures
        exists|j: int|
            0 <= j <= replies.len() && #[trigger] played(first + second, replies.take(j))
                == second,
    decreases replies.len(),
{
    let steps = first + second;
    if first.len() == 0 {
        assert(steps == second);
        assert(replies.take(0).len() == 0);
        assert(played(steps, replies.take(0)) == second);
    } else {
        let rest = replies.drop_first();
        let next = resumed(steps, replies[0]);
        lemma_played_once(steps, replies);
        if has_failed(next) {
            law_rest_is_final(next, rest);
        }
        let more = after(first[0], replies[0])->Ok_0;
        assert(steps[0] == first[0]);
        assert(next == (more + first.drop_first()) + second);
        lemma_suffix_reached(more + first.drop_first(), second, rest);
        let j = choose|j: int|
            0 <= j <= rest.len() && #[trigger] played(
                (more + first.drop_first()) + second,
                rest.take(j),
            ) == second;
        assert(replies.take(j + 1).drop_first() == rest.take(j));
        assert(replies.take(j + 1)[0] == replies[0]);
        lemma_played_once(steps, replies.take(j + 1));
        assert(played(steps, replies.take(j + 1)) == second);
    }
}

/// All actions that a row of steps asks for when it is given a row of replies, up to the one
/// that is not replied to any more.
pub open spec fn transcript(steps: Seq<StepModel>, replies: Seq<ReplyModel>) -> Seq<ActionModel>
    decreases replies.len(),
{
    if at_rest(steps) || replies.len() == 0 {
        seq![next_action(steps)]
    } else {
        seq![next_action(steps)] + transcript(resumed(steps, replies[0]), replies.drop_first())
    }
}

/// The transcript holds what the row of steps asks for after each of the replies, and as long
/// as it is not at rest, there is one action for each reply and one more.
pub proof fn law_transcript_is_what_is_asked(
    steps: Seq<StepModel>,
    replies: Seq<ReplyModel>,
    k: int,
)
    requires
        0 <= k < transcript(steps, replies).len(),
    ensures
        k <= replies.len(),
        transcript(steps, replies)[k] == next_action(played(steps, replies.take(k))),
    decreases replies.len(),
{
    if at_rest(steps) || replies.len() == 0 {
        assert(replies.take(0).len() == 0);
    } else if k == 0 {
        assert(replies.take(0).len() == 0);
    } else {
        let next = resumed(steps, replies[0]);
        law_transcript_is_what_is_asked(next, replies.drop_first(), k - 1);
        assert(replies.take(k).drop_first() == replies.drop_first().take(k - 1));
        assert(replies.take(k)[0] == replies[0]);
    }
}

/// The row of steps takes the replies, all of them and no more, to end with success, and asks
/// for the actions on the way.
pub open spec fn carries_out(
    steps: Seq<StepModel>,
    replies: Seq<ReplyModel>,
    actions: Seq<ActionModel>,
) -> bool {
    &&& actions.len() == replies.len()
    &&& transcript(steps, replies) == actions.push(Action::Finish)
}

/// A row of steps that is carried out has nothing left to do.
pub proof fn law_carried_out_is_done(
    steps: Seq<StepModel>,
    replies: Seq<ReplyModel>,
    actions: Seq<ActionModel>,
)
    requires
        carries_out(steps, replies, actions),
    ensures
        played(steps, replies).len() == 0,
{
    let all = transcript(steps, replies);
    law_transcript_is_what_is_asked(steps, replies, replies.len() as int);
    assert(all[replies.len() as int] is Finish);
    assert(replies.take(replies.len() as int) == replies);
}

/// Nothing to do is carried out without a reply.
pub proof fn lemma_nothing_carried_out()
    ensures
        carries_out(Seq::empty(), Seq::empty(), Seq::empty()),
{
    assert(Seq::<ActionModel>::empty().push(Action::Finish) == seq![
        Action::<Seq<char>>::Finish,
    ]);
}

/// A step that a reply leads on from is carried out if what follows from it is.
pub proof fn lemma_step_carried_out(
    step: StepModel,
    reply: ReplyModel,
    more: Seq<StepModel>,
    replies: Seq<ReplyModel>,
    actions: Seq<ActionModel>,
)
    requires
        !(step is Refuse),
        after(step, reply) == Ok::<Seq<StepModel>, FailureModel>(more),
        carries_out(more, replies, actions),
    ensures
        carries_out(seq![step], seq![reply] + replies, seq![action_of(step)] + actions),
{
    let steps = seq![step];
    let given = seq![reply] + replies;
    assert(steps.drop_first().len() == 0);
    assert(more + steps.drop_first() == more);
    assert(given[0] == reply);
    assert(given.drop_first() == replies);
    assert(seq![action_of(step)] + actions.push(Action::Finish) == (seq![action_of(step)]
        + actions).push(Action::Finish));
}

/// Where one row of steps follows another and both are carried out, they are so one after the
/// other.
pub proof fn law_parts_carried_out(
    first: Seq<StepModel>,
    first_replies: Seq<ReplyModel>,
    first_actions: Seq<ActionModel>,
    second: Seq<StepModel>,
    second_replies: Seq<ReplyModel>,
    second_actions: Seq<ActionModel>,
)
    requires
        carries_out(first, first_replies, first_actions),
        carries_out(second, second_replies, second_actions),
    ensures
        carries_out(
            first + second,
            first_replies + second_replies,
            first_actions + second_actions,
        ),
    decreases first_replies.len(),
{
    if first_replies.len() == 0 {
        let all = transcript(first, first_replies);
        assert(all[0] is Finish);
        assert(first + second == second);
        assert(first_replies + second_replies == second_replies);
        assert(first_actions + second_actions == second_actions);
    } else {
        let reply = first_replies[0];
        let rest = first_replies.drop_first();
        let actions = first_actions.drop_first();
        let next = resumed(first, reply);
        let all = transcript(first, first_replies);
        assert(all.len() >= 2);
        assert(!at_rest(first));
        assert(all == seq![next_action(first)] + transcript(next, rest));
        assert(all.drop_first() == transcript(next, rest));
        assert(all.drop_first() == actions.push(Action::Finish));
        if has_failed(next) {
            assert(transcript(next, rest) == seq![next_action(next)]);
            assert(rest.len() == 0);
            assert(all[1] is Finish);
        }
        assert(after(first[0], reply) is Ok);
        law_parts_carried_out(next, rest, actions, second, second_replies, second_actions);
        let whole = first + second;
        let replies = first_replies + second_replies;
        let more = after(first[0], reply)->Ok_0;
        assert(whole[0] == first[0]);
        assert(replies[0] == reply);
        assert(replies.drop_first() == rest + second_replies);
        assert(whole.drop_first() == first.drop_first() + second);
        assert(resumed(whole, reply) == next + second);
        assert(all[0] == first_actions[0]);
        assert(seq![next_action(whole)] + (actions + second_actions).push(Action::Finish)
            == (first_actions + second_actions).push(Action::Finish));
    }
}

/// A path that is not there ends the session and is named, whatever the replies after that are.
pub proof fn law_missing_path_is_named(
    steps: Seq<StepModel>,
    path: Seq<char>,
    replies: Seq<ReplyModel>,
)
    requires
        steps.len() > 0,
        next_action(steps) == Action::Exists(path),
        replies.len() > 0,
        replies[0] == Reply::<Seq<char>, Seq<u8>>::Flag(false),
    ensures
        next_action(played(steps, replies)) == Action::Fail(Failure::Missing(path)),
{
    lemma_played_once(steps, replies);
    law_rest_is_final(resumed(steps, replies[0]), replies.drop_first());
}

} // verus!
