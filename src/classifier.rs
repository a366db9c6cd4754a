use vstd::prelude::*;

use crate::commander::{registry_supports, Commander};
use crate::model::{
    spec_action_from_label, spec_subject_from_label, Command, CommandAction, CommandModel,
    CommandSubject, Intent, Labelable,
};
use crate::text::{group_contains, group_has};

verus! {

/// Confidence scores are integers in millionths: `SCORE_SCALE` is certainty.
pub const SCORE_SCALE: u32 = 1_000_000;

/// Scores at or above this (0.85) are accepted.
pub const SCORE_THRESHOLD: u32 = 850_000;

/// One label of the classifier's vocabulary with its confidence.
#[derive(Debug)]
pub struct ScoredLabel {
    pub text: String,
    pub score: u32,
}

/// Why an instruction did not resolve to an intent.
#[derive(Debug, Clone, Copy, PartialEq, Eq, Structural)]
pub enum ClassificationFailureReason {
    /// The classifier itself failed.
    Unknown,
    /// Confident, but not a registered command.
    UnsupportedInstruction,
    /// Not confident enough.
    UnrecognizedInstruction,
}

/// The classifier's vocabulary, in four groups.
pub struct ClassificationLabels {
    pub intents: Vec<String>,
    pub locations: Vec<String>,
    pub actions: Vec<String>,
    pub subjects: Vec<String>,
}

pub open spec fn strings_view(v: Seq<String>) -> Seq<Seq<char>> {
    v.map_values(|s: String| s@)
}

/// The vocabulary: the locations the registry knows and the fixed labels of
/// intents, actions and subjects.
pub fn build_labels(commander: &Commander) -> (r: ClassificationLabels)
    ensures
        strings_view(r.intents@) == Intent::spec_labels(),
        strings_view(r.locations@) == commander.location_names(),
        strings_view(r.actions@) == CommandAction::spec_labels(),
        strings_view(r.subjects@) == CommandSubject::spec_labels(),
{
    let mut locations: Vec<String> = Vec::new();
    let mut i: usize = 0;
    while i < commander.locations.len()
        invariant
            i <= commander.locations@.len(),
            locations@.len() == i,
            forall|j: int| 0 <= j < i ==> (#[trigger] locations@[j])@ == commander.locations@[j]@,
        decreases commander.locations@.len() - i,
    {
        locations.push(commander.locations[i].clone());
        i += 1;
    }
    let r = ClassificationLabels {
        intents: Intent::labels(),
        locations,
        actions: CommandAction::labels(),
        subjects: CommandSubject::labels(),
    };
    assert(strings_view(r.intents@) =~= Intent::spec_labels());
    assert(strings_view(r.locations@) =~= commander.location_names());
    assert(strings_view(r.actions@) =~= CommandAction::spec_labels());
    assert(strings_view(r.subjects@) =~= CommandSubject::spec_labels());
    r
}

impl ClassificationLabels {
    /// All labels handed to the classifier: locations, actions, subjects,
    /// then intents.
    pub fn vocabulary(&self) -> (r: Vec<String>)
        ensures
            strings_view(r@) == strings_view(self.locations@) + strings_view(self.actions@)
                + strings_view(self.subjects@) + strings_view(self.intents@),
    {
        let mut r: Vec<String> = Vec::new();
        append_strings(&mut r, &self.locations);
        append_strings(&mut r, &self.actions);
        append_strings(&mut r, &self.subjects);
        append_strings(&mut r, &self.intents);
        r
    }
}

fn append_strings(dst: &mut Vec<String>, src: &Vec<String>)
    ensures
        strings_view(final(dst)@) == strings_view(old(dst)@) + strings_view(src@),
{
    let ghost start = strings_view(dst@);
    let mut i: usize = 0;
    while i < src.len()
        invariant
            i <= src@.len(),
            strings_view(dst@) == start + strings_view(src@.take(i as int)),
        decreases src@.len() - i,
    {
        let ghost before = dst@;
        dst.push(src[i].clone());
        proof {
            assert(src@.take(i + 1) =~= src@.take(i as int).push(src@[i as int]));
            assert(strings_view(src@.take(i + 1)) =~= strings_view(src@.take(i as int)).push(
                src@[i as int]@,
            ));
            assert(strings_view(dst@) =~= strings_view(before).push(src@[i as int]@));
        }
        i += 1;
        assert(strings_view(dst@) =~= start + strings_view(src@.take(i as int)));
    }
    assert(src@.take(src@.len() as int) =~= src@);
}

/// Label `i` is the question intent, scored above the threshold.
pub open spec fn is_question_at(labels: Seq<ScoredLabel>, data: ClassificationLabels, i: int) -> bool {
    &&& group_has(data.intents@, labels[i].text@)
    &&& labels[i].score > SCORE_THRESHOLD
    &&& labels[i].text@ == "question"@
}

/// The first question among the first `n` labels.
pub open spec fn first_question(labels: Seq<ScoredLabel>, data: ClassificationLabels, n: int) -> Option<int>
    decreases n,
{
    if n <= 0 {
        None
    } else {
        match first_question(labels, data, n - 1) {
            Some(i) => Some(i),
            None => if is_question_at(labels, data, n - 1) {
                Some(n - 1)
            } else {
                None
            },
        }
    }
}

pub open spec fn has_question(labels: Seq<ScoredLabel>, data: ClassificationLabels) -> bool {
    exists|i: int| 0 <= i < labels.len() && #[trigger] is_question_at(labels, data, i)
}

/// The best score of the group among the first `n` labels and the index of
/// its first occurrence; `(0, 0)` where none scores above zero.
pub open spec fn best_in(labels: Seq<ScoredLabel>, group: Seq<String>, n: int) -> (int, int)
    decreases n,
{
    if n <= 0 {
        (0, 0)
    } else {
        let b = best_in(labels, group, n - 1);
        if group_has(group, labels[n - 1].text@) && labels[n - 1].score > b.0 {
            (labels[n - 1].score as int, n - 1)
        } else {
            b
        }
    }
}

pub open spec fn min3(a: int, b: int, c: int) -> int {
    if a <= b && a <= c {
        a
    } else if b <= c {
        b
    } else {
        c
    }
}

/// A command is only as confident as its weakest slot.
pub open spec fn confidence(labels: Seq<ScoredLabel>, data: ClassificationLabels) -> int {
    let n = labels.len() as int;
    min3(
        best_in(labels, data.actions@, n).0,
        best_in(labels, data.locations@, n).0,
        best_in(labels, data.subjects@, n).0,
    )
}

/// The command made of the best label of each slot.
pub open spec fn candidate(labels: Seq<ScoredLabel>, data: ClassificationLabels) -> CommandModel {
    let n = labels.len() as int;
    (
        labels[best_in(labels, data.locations@, n).1].text@,
        spec_action_from_label(labels[best_in(labels, data.actions@, n).1].text@),
        spec_subject_from_label(labels[best_in(labels, data.subjects@, n).1].text@),
    )
}

proof fn lemma_first_question(labels: Seq<ScoredLabel>, data: ClassificationLabels, n: int)
    requires
        0 <= n <= labels.len(),
    ensures
        first_question(labels, data, n) is Some <==> exists|i: int|
            0 <= i < n && #[trigger] is_question_at(labels, data, i),
        first_question(labels, data, n) matches Some(i) ==> 0 <= i < n && is_question_at(
            labels,
            data,
            i,
        ),
    decreases n,
{
    if n > 0 {
        lemma_first_question(labels, data, n - 1);
    }
}

proof fn lemma_first_question_stable(
    labels: Seq<ScoredLabel>,
    data: ClassificationLabels,
    k: int,
    n: int,
)
    requires
        0 <= k <= n,
        first_question(labels, data, k) is Some,
    ensures
        first_question(labels, data, n) == first_question(labels, data, k),
    decreases n - k,
{
    if n > k {
        lemma_first_question_stable(labels, data, k, n - 1);
    }
}

proof fn lemma_best_in_range(labels: Seq<ScoredLabel>, group: Seq<String>, n: int)
    requires
        0 <= n <= labels.len(),
    ensures
        best_in(labels, group, n).0 >= 0,
        best_in(labels, group, n).1 >= 0,
        best_in(labels, group, n).1 < n || best_in(labels, group, n).1 == 0,
    decreases n,
{
    if n > 0 {
        lemma_best_in_range(labels, group, n - 1);
    }
}

/// Scans the scored labels once. A question scored above the threshold wins
/// at once, with its score; otherwise the best label of each slot makes a
/// command, with the lowest of the three scores.
pub fn intent_from_classification(
    instruction: &str,
    model_output: &Vec<ScoredLabel>,
    data: &ClassificationLabels,
) -> (r: (Intent, u32))
    requires
        model_output@.len() > 0,
    ensures
        match first_question(model_output@, *data, model_output@.len() as int) {
            Some(i) => r.0 matches Intent::Question(q) && q@ == instruction@ && r.1
                == model_output@[i].score,
            None => r.0 matches Intent::Command(c) && c.model() == candidate(model_output@, *data)
                && r.1 == confidence(model_output@, *data),
        },
{
    let ghost labels = model_output@;
    let mut action: (u32, usize) = (0, 0);
    let mut location: (u32, usize) = (0, 0);
    let mut subject: (u32, usize) = (0, 0);
    let mut i: usize = 0;
    while i < model_output.len()
        invariant
            labels == model_output@,
            labels.len() > 0,
            i <= labels.len(),
            first_question(labels, *data, i as int) is None,
            action.0 as int == best_in(labels, data.actions@, i as int).0,
            action.1 as int == best_in(labels, data.actions@, i as int).1,
            location.0 as int == best_in(labels, data.locations@, i as int).0,
            location.1 as int == best_in(labels, data.locations@, i as int).1,
            subject.0 as int == best_in(labels, data.subjects@, i as int).0,
            subject.1 as int == best_in(labels, data.subjects@, i as int).1,
        decreases labels.len() - i,
    {
        let label = &model_output[i];
        let score = label.score;
        if score > SCORE_THRESHOLD && group_contains(&data.intents, &label.text)
            && Intent::is_label_question(label.text.as_str()) {
            proof {
                lemma_first_question_stable(labels, *data, i + 1, labels.len() as int);
            }
            return (Intent::Question(instruction.to_owned()), score);
        }
        if group_contains(&data.actions, &label.text) && score > action.0 {
            action = (score, i);
        }
        if group_contains(&data.locations, &label.text) && score > location.0 {
            location = (score, i);
        }
        if group_contains(&data.subjects, &label.text) && score > subject.0 {
            subject = (score, i);
        }
        i += 1;
    }
    proof {
        let n = labels.len() as int;
        lemma_best_in_range(labels, data.actions@, n);
        lemma_best_in_range(labels, data.locations@, n);
        lemma_best_in_range(labels, data.subjects@, n);
    }
    let mut score = action.0;
    if location.0 < score {
        score = location.0;
    }
    if subject.0 < score {
        score = subject.0;
    }
    let command = Command {
        location: model_output[location.1].text.clone(),
        action: CommandAction::from_label(model_output[action.1].text.as_str()),
        subject: CommandSubject::from_label(model_output[subject.1].text.as_str()),
    };
    (Intent::Command(command), score)
}

/// Turns the classifier's scores for an instruction into an intent, or the
/// reason there is none. A question above the threshold short-circuits;
/// otherwise a command needs every slot at the threshold and a registered
/// triple.
pub fn resolve_intent(
    instruction: &str,
    model_output: &Vec<ScoredLabel>,
    data: &ClassificationLabels,
    commander: &Commander,
) -> (r: Result<Intent, ClassificationFailureReason>)
    ensures
        has_question(model_output@, *data) ==> (r matches Ok(Intent::Question(q)) && q@
            == instruction@),
        !has_question(model_output@, *data) && confidence(model_output@, *data)
            < SCORE_THRESHOLD ==> r == Err::<Intent, ClassificationFailureReason>(
            ClassificationFailureReason::UnrecognizedInstruction,
        ),
        !has_question(model_output@, *data) && confidence(model_output@, *data)
            >= SCORE_THRESHOLD && registry_supports(
            commander.registry(),
            candidate(model_output@, *data),
        ) ==> (r matches Ok(Intent::Command(c)) && c.model() == candidate(model_output@, *data)),
        !has_question(model_output@, *data) && confidence(model_output@, *data)
            >= SCORE_THRESHOLD && !registry_supports(
            commander.registry(),
            candidate(model_output@, *data),
        ) ==> r == Err::<Intent, ClassificationFailureReason>(
            ClassificationFailureReason::UnsupportedInstruction,
        ),
{
    proof {
        lemma_first_question(model_output@, *data, model_output@.len() as int);
    }
    if model_output.len() == 0 {
        return Err(ClassificationFailureReason::UnrecognizedInstruction);
    }
    let (intent, score) = intent_from_classification(instruction, model_output, data);
    if score < SCORE_THRESHOLD {
        return Err(ClassificationFailureReason::UnrecognizedInstruction);
    }
    match intent {
        Intent::Command(command) => {
            if commander.supports_command(&command) {
                Ok(Intent::Command(command))
            } else {
                Err(ClassificationFailureReason::UnsupportedInstruction)
            }
        },
        Intent::Question(q) => Ok(Intent::Question(q)),
    }
}

} // verus!
