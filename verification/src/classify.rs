//! The species classifier's decision core.
//!
//! The inference engine hands back one raw score vector per image; the
//! application turns it into a probability distribution (softmax) and
//! passes the probabilities here as IEEE-754 bit patterns. For the
//! non-negative values a distribution consists of, the unsigned order of
//! the bit patterns is exactly the numeric order of the floats, so the
//! arg-max pick and the threshold comparison below are the exact float
//! operations. The decision is confidence-gated: the arg-max probability at
//! or above the presence threshold yields the label at the arg-max index,
//! anything below abstains with `Unknown`; the reported confidence is the
//! arg-max probability either way.

use vstd::prelude::*;

use vstd::string::StringExecFns;

use crate::labels::parse_labels;
use crate::labels::parse_labels_spec;
use crate::records::Classification;
use crate::records::Decision;
use crate::records::ImageInfo;
use crate::textnum::dec_str;
use crate::textnum::decimal_string;

verus! {

/// A classifier could not be constructed.
#[derive(Debug, Clone, Copy, PartialEq, Eq, Structural)]
pub enum SetupError {
    /// The label file parses to zero labels.
    NoLabels,
}

/// One image could not be classified; the record falls back to "not
/// present" and the batch goes on.
#[derive(Debug, Clone, Copy, PartialEq, Eq, Structural)]
pub enum ClassifyError {
    /// The engine produced no usable output: an empty score vector.
    EmptyScores,
}

/// Static configuration of the classifier. `presence_threshold` is the
/// IEEE-754 bit pattern of the acceptance threshold in `[0, 1]`.
#[derive(Debug, Clone, PartialEq)]
pub struct ClassifierConfig {
    pub model_path: String,
    pub labels_path: String,
    pub input_size: u32,
    /// Acceptance threshold on the arg-max probability, as IEEE-754 bits.
    pub presence_threshold: u32,
}

impl ClassifierConfig {
    /// Bounds under which preprocessing is exact.
    pub open spec fn wf(self) -> bool {
        1 <= self.input_size <= 16384
    }
}

impl Default for ClassifierConfig {
    /// Default model and label locations, 512-pixel input, threshold 0.5
    /// (bit pattern `0x3F00_0000`).
    fn default() -> (cfg: Self)
        ensures
            cfg.model_path@ == "models/efficientnet_b0.onnx"@,
            cfg.labels_path@ == "models/labels.txt"@,
            cfg.input_size == 512,
            cfg.presence_threshold == 0x3F00_0000,
            cfg.wf(),
    {
        ClassifierConfig {
            model_path: String::from_str("models/efficientnet_b0.onnx"),
            labels_path: String::from_str("models/labels.txt"),
            input_size: 512,
            presence_threshold: 0x3F00_0000,
        }
    }
}

/// The index the classifier picks: the position of the maximum score, the
/// last such position when several are equal.
pub open spec fn argmax_spec(scores: Seq<u32>) -> int
    decreases scores.len(),
{
    if scores.len() <= 1 {
        0
    } else {
        let r = argmax_spec(scores.drop_last());
        if scores.last() >= scores[r] {
            scores.len() - 1
        } else {
            r
        }
    }
}

/// The arg-max index is in range, holds a maximal score, and is the last
/// maximal position.
pub proof fn lemma_argmax_props(scores: Seq<u32>)
    requires
        scores.len() >= 1,
    ensures
        0 <= argmax_spec(scores) < scores.len(),
        forall|j: int| 0 <= j < scores.len() ==> #[trigger] scores[j] <= scores[argmax_spec(scores)],
        forall|j: int|
            argmax_spec(scores) < j < scores.len() ==> #[trigger] scores[j] < scores[argmax_spec(
                scores,
            )],
    decreases scores.len(),
{
    if scores.len() > 1 {
        lemma_argmax_props(scores.drop_last());
        assert(forall|j: int|
            0 <= j < scores.len() - 1 ==> #[trigger] scores[j] == scores.drop_last()[j]);
    }
}

/// Find the arg-max position of a non-empty score vector.
pub fn argmax(scores: &Vec<u32>) -> (b: usize)
    requires
        scores@.len() >= 1,
    ensures
        b == argmax_spec(scores@),
        b < scores@.len(),
{
    let n: usize = scores.len();
    let mut best: usize = 0;
    let mut k: usize = 1;
    proof {
        assert(scores@.take(1).len() == 1);
    }
    while k < n
        invariant
            n == scores.len(),
            1 <= k <= n,
            best < k,
            best == argmax_spec(scores@.take(k as int)),
        decreases n - k,
    {
        proof {
            assert(scores@.take(k + 1).drop_last() =~= scores@.take(k as int));
            assert(scores@.take(k + 1).last() == scores@[k as int]);
            lemma_argmax_props(scores@.take(k as int));
        }
        if scores[k] >= scores[best] {
            best = k;
        }
        k = k + 1;
    }
    proof {
        assert(scores@.take(n as int) =~= scores@);
    }
    best
}

/// The fallback name reported for a class index beyond the label table.
pub open spec fn fallback_name(i: nat) -> Seq<char> {
    "class_"@ + dec_str(i)
}

/// The decision core of the classifier: the label table (index equals class
/// id), the acceptance threshold on the arg-max probability (IEEE-754
/// bits), and the model's input size. The engine session itself lives with
/// the application.
#[derive(Debug, Clone, PartialEq)]
pub struct ClassifierCore {
    /// Species names; position is the class index the model predicts.
    pub labels: Vec<String>,
    /// Acceptance threshold on the arg-max probability, as IEEE-754 bits.
    pub presence_threshold: u32,
    /// Side length of the model's square input.
    pub input_size: u32,
}

impl ClassifierCore {
    /// A usable core: at least one label and a bounded input size.
    pub open spec fn wf(self) -> bool {
        &&& self.labels@.len() >= 1
        &&& 1 <= self.input_size <= 16384
    }

    /// Build the decision core from the configuration and the text of the
    /// label file. Fails exactly when the label file parses to zero labels:
    /// a classifier without classes is useless.
    pub fn new(cfg: &ClassifierConfig, labels_text: &str) -> (r: Result<ClassifierCore, SetupError>)
        requires
            cfg.wf(),
        ensures
            (r is Err) == (parse_labels_spec(labels_text@).len() == 0),
            r is Err ==> r->Err_0 == SetupError::NoLabels,
            r matches Ok(c) ==> {
                &&& c.labels.deep_view() == parse_labels_spec(labels_text@)
                &&& c.presence_threshold == cfg.presence_threshold
                &&& c.input_size == cfg.input_size
                &&& c.wf()
            },
    {
        let labels: Vec<String> = parse_labels(labels_text);
        if labels.len() == 0 {
            return Err(SetupError::NoLabels);
        }
        Ok(
            ClassifierCore {
                labels,
                presence_threshold: cfg.presence_threshold,
                input_size: cfg.input_size,
            },
        )
    }

    /// Decide one image from its probability vector (IEEE-754 bits of the
    /// softmax output). Fails exactly on an empty vector. Otherwise: the
    /// arg-max probability at or above the threshold accepts with the label
    /// at the arg-max index (the exact boundary value is accepted), below
    /// it abstains with `Unknown` and the record counts as not present;
    /// the confidence is the arg-max probability in both cases.
    pub fn classify_scores(&self, scores: &Vec<u32>) -> (r: Result<
        (bool, Classification),
        ClassifyError,
    >)
        requires
            self.wf(),
        ensures
            (r is Err) == (scores@.len() == 0),
            r is Err ==> r->Err_0 == ClassifyError::EmptyScores,
            r matches Ok((present, cls)) ==> {
                let b = argmax_spec(scores@);
                &&& present == (scores@[b] >= self.presence_threshold)
                &&& cls.confidence == scores@[b]
                &&& (!present ==> cls.decision == Decision::Unknown)
                &&& (present && b < self.labels@.len() ==> cls.decision == Decision::Label(
                    self.labels@[b],
                ))
                &&& (present && b >= self.labels@.len() ==> (cls.decision
                    matches Decision::Label(n) && n@ == fallback_name(b as nat)))
            },
    {
        if scores.len() == 0 {
            return Err(ClassifyError::EmptyScores);
        }
        let b: usize = argmax(scores);
        let best: u32 = scores[b];
        let present: bool = best >= self.presence_threshold;
        let decision: Decision = if !present {
            Decision::Unknown
        } else if b < self.labels.len() {
            Decision::Label(self.labels[b].clone())
        } else {
            let mut name: String = String::from_str("class_");
            let digits: String = decimal_string(b as u64);
            name.append(digits.as_str());
            Decision::Label(name)
        };
        Ok((present, Classification { decision, confidence: best }))
    }
}

/// Whether `new_row` is `old_row` correctly updated by the classifier for
/// the score outcome of its image: a missing or empty score vector (a
/// failed decode, inference call, or malformed output) resolves to the safe
/// default `present = false` with no classification; a usable one yields
/// the gated decision of `classify_scores`. The file reference is kept.
pub open spec fn row_classified(
    core: ClassifierCore,
    scores: Option<Seq<u32>>,
    old_row: ImageInfo,
    new_row: ImageInfo,
) -> bool {
    &&& new_row.file == old_row.file
    &&& match scores {
        None => !new_row.present && new_row.classification is None,
        Some(s) => {
            if s.len() == 0 {
                !new_row.present && new_row.classification is None
            } else {
                let b = argmax_spec(s);
                &&& new_row.present == (s[b] >= core.presence_threshold)
                &&& new_row.classification matches Some(cls) && cls.confidence == s[b] && (
                !new_row.present ==> cls.decision == Decision::Unknown) && (new_row.present && b
                    < core.labels@.len() ==> cls.decision == Decision::Label(core.labels@[b])) && (
                new_row.present && b >= core.labels@.len() ==> (cls.decision
                    matches Decision::Label(n) && n@ == fallback_name(b as nat)))
            }
        },
    }
}

/// Classify a whole batch of records in place. `outcomes[j]` holds the
/// probability bits the engine produced for record `j`, or `None` when
/// decoding or inference failed for that image. Per-item failures resolve
/// to the safe default; the batch always completes.
pub fn classify_records(
    rows: &mut Vec<ImageInfo>,
    outcomes: &Vec<Option<Vec<u32>>>,
    core: &ClassifierCore,
)
    requires
        old(rows)@.len() == outcomes@.len(),
        core.wf(),
    ensures
        final(rows)@.len() == old(rows)@.len(),
        forall|j: int|
            0 <= j < old(rows)@.len() ==> row_classified(
                *core,
                #[trigger] outcomes.deep_view()[j],
                old(rows)@[j],
                final(rows)@[j],
            ),
{
    let n: usize = rows.len();
    let mut j: usize = 0;
    while j < n
        invariant
            n == rows.len(),
            rows@.len() == outcomes@.len(),
            core.wf(),
            j <= n,
            forall|i: int| j <= i < n ==> #[trigger] rows@[i] == old(rows)@[i],
            forall|i: int|
                0 <= i < j ==> row_classified(
                    *core,
                    #[trigger] outcomes.deep_view()[i],
                    old(rows)@[i],
                    rows@[i],
                ),
        decreases n - j,
    {
        proof {
            assert(outcomes.deep_view()[j as int] == (match outcomes@[j as int] {
                Some(v) => Some(v@),
                None => None,
            }));
        }
        match &outcomes[j] {
            Some(scores) => {
                match core.classify_scores(scores) {
                    Ok((present, cls)) => {
                        rows[j].present = present;
                        rows[j].classification = Some(cls);
                    },
                    Err(_) => {
                        rows[j].present = false;
                        rows[j].classification = None;
                    },
                }
            },
            None => {
                rows[j].present = false;
                rows[j].classification = None;
            },
        }
        j = j + 1;
    }
}

} // verus!
