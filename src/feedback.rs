use vstd::prelude::*;

use rand::Rng;

use crate::classifier::ClassificationFailureReason;
use crate::model::{spec_action_text, spec_subject_text, Command};

verus! {

/// How many sentence shapes a command confirmation can take.
pub const COMMAND_PHRASINGS: u32 = 5;

/// The apology spoken for each failure.
pub open spec fn spec_error_feedback(reason: ClassificationFailureReason) -> Seq<char> {
    match reason {
        ClassificationFailureReason::UnsupportedInstruction => "I don't know how to do this yet."@,
        ClassificationFailureReason::UnrecognizedInstruction => "I'm not sure I recognize your instruction"@,
        ClassificationFailureReason::Unknown => "Sorry, something went wrong. Could you repeat that?"@,
    }
}

pub fn feedback_for_error(reason: ClassificationFailureReason) -> (r: String)
    ensures
        r@ == spec_error_feedback(reason),
{
    let s = match reason {
        ClassificationFailureReason::UnsupportedInstruction => "I don't know how to do this yet.",
        ClassificationFailureReason::UnrecognizedInstruction => "I'm not sure I recognize your instruction",
        ClassificationFailureReason::Unknown => "Sorry, something went wrong. Could you repeat that?",
    };
    s.to_owned()
}

/// The confirmation of a performed command in the given sentence shape.
pub open spec fn spec_command_feedback(c: Command, phrasing: u32) -> Seq<char> {
    let action = spec_action_text(c.action);
    let subject = "the "@ + spec_subject_text(c.subject);
    let location = "in the "@ + c.location@;
    if phrasing == 0 {
        "I've "@ + action + " "@ + subject + " "@ + location
    } else if phrasing == 1 {
        subject + " "@ + location + " has been "@ + action
    } else if phrasing == 2 {
        subject + " "@ + location + " is now "@ + action
    } else if phrasing == 3 {
        "I've successfully "@ + action + " "@ + subject + " "@ + location
    } else {
        "Done! "@ + subject + " "@ + location + " is now "@ + action
    }
}

/// Confirms a performed command in sentence shape `phrasing`.
pub fn command_feedback(command: &Command, phrasing: u32) -> (r: String)
    requires
        phrasing < COMMAND_PHRASINGS,
    ensures
        r@ == spec_command_feedback(*command, phrasing),
{
    let action = command.action.display_text();
    let mut subject = String::from_str("the ");
    subject.append(command.subject.display_text().as_str());
    let mut location = String::from_str("in the ");
    location.append(command.location.as_str());
    let mut r: String;
    if phrasing == 0 || phrasing == 3 {
        r = if phrasing == 0 {
            String::from_str("I've ")
        } else {
            String::from_str("I've successfully ")
        };
        r.append(action.as_str());
        r.append(" ");
        r.append(subject.as_str());
        r.append(" ");
        r.append(location.as_str());
    } else {
        r = if phrasing == 4 {
            String::from_str("Done! ")
        } else {
            String::new()
        };
        r.append(subject.as_str());
        r.append(" ");
        r.append(location.as_str());
        r.append(
            if phrasing == 1 {
                " has been "
            } else {
                " is now "
            },
        );
        r.append(action.as_str());
    }
    proof {
        let a = spec_action_text(command.action);
        let s = "the "@ + spec_subject_text(command.subject);
        let l = "in the "@ + command.location@;
        if phrasing == 1 || phrasing == 2 {
            assert(Seq::<char>::empty() + s =~= s);
        }
        assert(r@ =~= spec_command_feedback(*command, phrasing));
    }
    r
}

/// Relies on rand's `thread_rng().gen_range(0..n)`: a value below `n`.
#[verifier::external_body]
fn random_below(n: u32) -> (r: u32)
    requires
        n > 0,
    ensures
        r < n,
{
    rand::thread_rng().gen_range(0..n)
}

/// Confirms a performed command in a sentence shape picked at random.
pub fn feedback_for_command(command: &Command) -> (r: String)
    ensures
        exists|p: u32| p < COMMAND_PHRASINGS && r@ == spec_command_feedback(*command, p),
{
    let phrasing = random_below(COMMAND_PHRASINGS);
    command_feedback(command, phrasing)
}

/// The answer given when text generation has nothing to say.
pub fn fallback_answer() -> (r: String)
    ensures
        r@ == "I don't know"@,
{
    "I don't know".to_owned()
}

/// `s` without every leading repetition of a non-empty `prefix`.
pub open spec fn strip_repeated(s: Seq<char>, prefix: Seq<char>) -> Seq<char>
    decreases s.len(),
{
    if prefix.len() > 0 && prefix.len() <= s.len() && s.take(prefix.len() as int) == prefix {
        strip_repeated(s.skip(prefix.len() as int), prefix)
    } else {
        s
    }
}

/// The text up to its first full stop.
pub open spec fn first_sentence(s: Seq<char>) -> Seq<char> {
    if exists|i: int| 0 <= i < s.len() && s[i] == '.' {
        let i = choose|i: int|
            0 <= i < s.len() && s[i] == '.' && forall|j: int| 0 <= j < i ==> s[j] != '.';
        s.take(i)
    } else {
        s
    }
}

/// The answer in a generated continuation of `question`: the continuation
/// without the echoed question, up to its first full stop.
pub fn extract_answer(question: &str, generated: &str) -> (r: String)
    ensures
        r@ == first_sentence(strip_repeated(generated@, question@)),
{
    let n = generated.unicode_len();
    let p = question.unicode_len();
    let mut start: usize = 0;
    assert(generated@.skip(0) =~= generated@);
    if p > 0 {
        while p <= n - start && has_prefix_at(generated, start, question)
            invariant
                n == generated@.len(),
                p == question@.len(),
                p > 0,
                start <= n,
                strip_repeated(generated@, question@) == strip_repeated(
                    generated@.skip(start as int),
                    question@,
                ),
            decreases n - start,
        {
            assert(generated@.skip(start as int).skip(p as int) =~= generated@.skip(start + p));
            assert(generated@.skip(start as int).take(p as int) =~= generated@.subrange(
                start as int,
                start + p,
            ));
            start = start + p;
        }
        if p <= n - start {
            assert(generated@.skip(start as int).take(p as int) =~= generated@.subrange(
                start as int,
                start + p,
            ));
        }
    }
    let ghost rest = generated@.skip(start as int);
    assert(strip_repeated(generated@, question@) == rest) by {
        if p == 0 {
            assert(generated@.skip(0) =~= generated@);
        }
    }
    let mut end: usize = start;
    while end < n && generated.get_char(end) != '.'
        invariant
            n == generated@.len(),
            start <= end <= n,
            rest == generated@.skip(start as int),
            forall|j: int| start <= j < end ==> generated@[j] != '.',
        decreases n - end,
    {
        end += 1;
    }
    proof {
        if end < n {
            let k = end - start;
            assert(rest[k] == '.');
            assert forall|j: int| 0 <= j < k implies rest[j] != '.' by {
                assert(rest[j] == generated@[start + j]);
            }
            let i = choose|i: int|
                0 <= i < rest.len() && rest[i] == '.' && forall|j: int|
                    0 <= j < i ==> rest[j] != '.';
            assert(i == k) by {
                if i < k {
                    assert(rest[i] != '.');
                } else if i > k {
                    assert(rest[k] != '.');
                }
            }
            assert(rest.take(k) =~= generated@.subrange(start as int, end as int));
        } else {
            assert forall|i: int| 0 <= i < rest.len() implies rest[i] != '.' by {
                assert(rest[i] == generated@[start + i]);
            }
            assert(rest =~= generated@.subrange(start as int, end as int));
        }
    }
    generated.substring_char(start, end).to_owned()
}

/// Whether `prefix` occurs in `s` at character `start`.
fn has_prefix_at(s: &str, start: usize, prefix: &str) -> (r: bool)
    requires
        start + prefix@.len() <= s@.len(),
    ensures
        r == (s@.subrange(start as int, start + prefix@.len()) == prefix@),
{
    let n = s.unicode_len();
    let p = prefix.unicode_len();
    let mut i: usize = 0;
    while i < p
        invariant
            n == s@.len(),
            p == prefix@.len(),
            start + p <= s@.len(),
            i <= p,
            forall|j: int| 0 <= j < i ==> s@[start + j] == prefix@[j],
        decreases p - i,
    {
        if s.get_char(start + i) != prefix.get_char(i) {
            assert(s@.subrange(start as int, start + p)[i as int] != prefix@[i as int]);
            return false;
        }
        i += 1;
    }
    assert(s@.subrange(start as int, start + p) =~= prefix@);
    true
}

/// Speech played when synthesis fails: none.
pub fn read_fallback_feedback() -> (r: Vec<u8>)
    ensures
        r@.len() == 0,
{
    Vec::new()
}

} // verus!
