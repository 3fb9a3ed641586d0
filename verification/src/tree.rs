//! The concrete parse tree. The grammar produces these nodes, which still
//! hold raw text; the translator turns them into the typed data model,
//! applying the semantic checks the grammar cannot express.

use vstd::prelude::*;

verus! {

/// The raw text of an attempt: its weight and repetition digit strings.
pub type AttemptText = (Seq<char>, Seq<char>);

/// The raw texts of a target: sets count, minimum and maximum repetitions.
pub type TargetText = (Seq<char>, Seq<char>, Seq<char>);

/// The raw texts of a date: day, month and year digit strings.
pub type DateText = (Seq<char>, Seq<char>, Seq<char>);

/// The raw text of a set group: each set as its sequence of attempts.
pub type GroupText = Seq<Seq<AttemptText>>;

/// The raw content of one record: date, exercise name (untrimmed), target,
/// and set group.
pub type RecordText = (DateText, Seq<char>, TargetText, GroupText);

/// A parsed date: the day, month and year digit strings of a `DD.MM.YYYY`
/// field, not yet checked against the calendar.
#[derive(Debug)]
pub struct DateNode {
    /// The two day digits.
    pub day: String,
    /// The two month digits.
    pub month: String,
    /// The four year digits.
    pub year: String,
}

impl DateNode {
    /// The node's raw texts.
    pub open spec fn model(&self) -> DateText {
        (self.day@, self.month@, self.year@)
    }
}

/// A parsed target: the three digit strings of a `(S x MIN-MAX)` field.
#[derive(Debug)]
pub struct TargetNode {
    /// The digits of the number of sets.
    pub sets_count: String,
    /// The digits of the minimum repetitions.
    pub min_reps: String,
    /// The digits of the maximum repetitions.
    pub max_reps: String,
}

impl TargetNode {
    /// The node's raw texts.
    pub open spec fn model(&self) -> TargetText {
        (self.sets_count@, self.min_reps@, self.max_reps@)
    }
}

/// A parsed attempt: the digit strings of one `weight-reps` pair.
#[derive(Debug)]
pub struct AttemptNode {
    /// The digits of the weight.
    pub weight: String,
    /// The digits of the repetition count.
    pub reps: String,
}

impl AttemptNode {
    /// The node's raw texts.
    pub open spec fn model(&self) -> AttemptText {
        (self.weight@, self.reps@)
    }
}

/// A parsed set: one or more attempts separated by commas.
#[derive(Debug)]
pub struct SetNode {
    /// The set's attempts, in input order.
    pub attempts: Vec<AttemptNode>,
}

/// The raw texts of a sequence of attempt nodes.
pub open spec fn attempts_model(v: Seq<AttemptNode>) -> Seq<AttemptText> {
    v.map_values(|a: AttemptNode| a.model())
}

impl SetNode {
    /// The node's raw texts.
    pub open spec fn model(&self) -> Seq<AttemptText> {
        attempts_model(self.attempts@)
    }
}

/// The raw texts of a sequence of set nodes.
pub open spec fn group_model(v: Seq<SetNode>) -> GroupText {
    v.map_values(|s: SetNode| s.model())
}

/// A parsed record: the four fields of one input line.
#[derive(Debug)]
pub struct RecordNode {
    /// The date field.
    pub date: DateNode,
    /// The exercise name, verbatim between its separators.
    pub exercise_name: String,
    /// The target field.
    pub target: TargetNode,
    /// The sets of the set-group field, in input order.
    pub sets: Vec<SetNode>,
}

impl RecordNode {
    /// The node's raw content.
    pub open spec fn model(&self) -> RecordText {
        (self.date.model(), self.exercise_name@, self.target.model(), group_model(self.sets@))
    }
}

/// The parse tree of a whole file: one record per line.
#[derive(Debug)]
pub struct FileNode {
    /// The file's records, in input order.
    pub records: Vec<RecordNode>,
}

} // verus!
