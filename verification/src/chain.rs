//! The filter chain: the transforms in their fixed order, and the passage of
//! lines through them.

use vstd::prelude::*;
use vstd::string::*;
use crate::encoding_decoding_feature::fits_encoding;
use crate::errors::RicatError;
use crate::features::{
    Base64Decoding,
    Base64Encoding,
    CompressEmptyLines,
    DollarSymbolAtLast,
    LineNumbering,
    LineTextFeature,
    ReplaceTabspaces,
};
use crate::model::{
    accepts,
    advanced,
    chain_run,
    chain_step,
    emitted,
    lemma_chain_run_of_batches,
    lemma_chain_run_single,
    lemma_chain_step_at,
    lemma_chain_step_shape,
    priority,
    ChainRun,
    ChainStep,
    Passage,
    TransformModel,
};
use crate::pattern::LineWithGivenText;

verus! {

/// One transform of a chain, whichever kind it is.
pub enum LineTransform {
    Squeeze(CompressEmptyLines),
    Encode(Base64Encoding),
    Decode(Base64Decoding),
    Search(LineWithGivenText),
    Numbering(LineNumbering),
    Dollar(DollarSymbolAtLast),
    Tabs(ReplaceTabspaces),
}

impl LineTextFeature for LineTransform {
    open spec fn model(&self) -> TransformModel {
        match self {
            LineTransform::Squeeze(t) => t.model(),
            LineTransform::Encode(t) => t.model(),
            LineTransform::Decode(t) => t.model(),
            LineTransform::Search(t) => t.model(),
            LineTransform::Numbering(t) => t.model(),
            LineTransform::Dollar(t) => t.model(),
            LineTransform::Tabs(t) => t.model(),
        }
    }

    open spec fn well_formed(&self) -> bool {
        match self {
            LineTransform::Squeeze(t) => t.well_formed(),
            LineTransform::Encode(t) => t.well_formed(),
            LineTransform::Decode(t) => t.well_formed(),
            LineTransform::Search(t) => t.well_formed(),
            LineTransform::Numbering(t) => t.well_formed(),
            LineTransform::Dollar(t) => t.well_formed(),
            LineTransform::Tabs(t) => t.well_formed(),
        }
    }

    proof fn lemma_valid(&self) {
        match self {
            LineTransform::Squeeze(t) => t.lemma_valid(),
            LineTransform::Encode(t) => t.lemma_valid(),
            LineTransform::Decode(t) => t.lemma_valid(),
            LineTransform::Search(t) => t.lemma_valid(),
            LineTransform::Numbering(t) => t.lemma_valid(),
            LineTransform::Dollar(t) => t.lemma_valid(),
            LineTransform::Tabs(t) => t.lemma_valid(),
        }
    }

    fn apply_feature(&mut self, line: &str) -> (result: Option<String>) {
        match self {
            LineTransform::Squeeze(t) => t.apply_feature(line),
            LineTransform::Encode(t) => t.apply_feature(line),
            LineTransform::Decode(t) => t.apply_feature(line),
            LineTransform::Search(t) => t.apply_feature(line),
            LineTransform::Numbering(t) => t.apply_feature(line),
            LineTransform::Dollar(t) => t.apply_feature(line),
            LineTransform::Tabs(t) => t.apply_feature(line),
        }
    }
}

/// What a chain reports when one of its transforms cannot take a line.
pub open spec fn refusal_text(t: TransformModel) -> Seq<char> {
    match t {
        TransformModel::Numbering { .. } => "line numbering: no line number is left"@,
        _ => "a line is too long for this transform"@,
    }
}

impl LineTransform {
    /// Whether the transform can take `line` as the machine stands.
    pub fn can_take(&self, line: &str) -> (yes: bool)
        ensures
            yes == accepts(self.model(), line@),
    {
        match self {
            LineTransform::Numbering(t) => {
                let next = t.next_number();
                next < usize::MAX
            },
            LineTransform::Encode(_) => fits_encoding(line.as_bytes().len()),
            _ => true,
        }
    }

    /// The error that stands for this transform's refusal of a line.
    pub fn refusal(&self) -> (error: RicatError)
        ensures
            error matches RicatError::FeatureError(text) && text@ == refusal_text(self.model()),
    {
        match self {
            LineTransform::Numbering(_) => RicatError::FeatureError(
                "line numbering: no line number is left".to_owned(),
            ),
            _ => RicatError::FeatureError("a line is too long for this transform".to_owned()),
        }
    }
}

/// The models of the transforms of a chain, in order.
pub open spec fn chain_model(features: Seq<LineTransform>) -> Seq<TransformModel> {
    Seq::new(features.len(), |i: int| features[i].model())
}

/// Whether every transform of a chain is well formed.
pub open spec fn chain_well_formed(features: Seq<LineTransform>) -> bool {
    forall|i: int| 0 <= i < features.len() ==> (#[trigger] features[i]).well_formed()
}

/// Whether `result` is what a chain hands back for the passage `passage` of a
/// line through the chain `before`.
pub open spec fn reports(
    result: Result<Option<String>, RicatError>,
    before: Seq<TransformModel>,
    passage: Passage,
) -> bool {
    match passage {
        Passage::Emitted(line) => result matches Ok(Some(s)) && s@ == line,
        Passage::Suppressed => result matches Ok(None),
        Passage::Refused { at } => result matches Err(RicatError::FeatureError(text)) && text@
            == refusal_text(before[at as int]),
    }
}

/// Passes one line through the chain. Each transform is handed what the one
/// before it emitted; the first transform that suppresses the line ends the
/// passage, and the transforms after it are not called. A transform that
/// cannot take the line ends the passage with an error.
pub fn apply_features(features: &mut Vec<LineTransform>, line: &str) -> (result: Result<
    Option<String>,
    RicatError,
>)
    requires
        chain_well_formed(old(features)@),
    ensures
        chain_well_formed(final(features)@),
        chain_model(final(features)@) == chain_step(chain_model(old(features)@), line@).chain,
        reports(
            result,
            chain_model(old(features)@),
            chain_step(chain_model(old(features)@), line@).passage,
        ),
{
    let ghost before = chain_model(features@);
    let mut current: String = line.to_owned();
    let mut i: usize = 0;
    proof {
        assert(before.take(0) == Seq::<TransformModel>::empty());
        assert(chain_model(features@).take(0) == Seq::<TransformModel>::empty());
        assert(chain_model(features@).skip(0) == before.skip(0));
    }
    while i < features.len()
        invariant
            i <= features.len(),
            features.len() == before.len(),
            before == chain_model(old(features)@),
            chain_well_formed(features@),
            chain_step(before.take(i as int), line@) == (ChainStep {
                chain: chain_model(features@).take(i as int),
                passage: Passage::Emitted(current@),
            }),
            chain_model(features@).skip(i as int) == before.skip(i as int),
        decreases features.len() - i,
    {
        let ghost models = chain_model(features@);
        let ghost done = models.take(i as int);
        let ghost seen = current@;
        proof {
            assert(models.skip(i as int)[0] == models[i as int]);
            assert(before.skip(i as int)[0] == before[i as int]);
            assert(features@[i as int].model() == before[i as int]);
            lemma_chain_step_at(before, i as int, line@, done, seen);
        }
        if !features[i].can_take(current.as_str()) {
            proof {
                assert(done + before.skip(i as int) == models);
            }
            return Err(features[i].refusal());
        }
        let out = features[i].apply_feature(current.as_str());
        proof {
            let after = chain_model(features@);
            assert(after.take(i as int) == done);
            assert(after[i as int] == advanced(before[i as int], seen));
            assert(after.skip(i as int + 1) == models.skip(i as int).drop_first());
            assert(before.skip(i as int).drop_first() == before.skip(i as int + 1));
            assert(after.take(i as int + 1) == done.push(advanced(before[i as int], seen)));
            assert(after == after.take(i as int + 1) + after.skip(i as int + 1));
        }
        match out {
            None => {
                return Ok(None);
            },
            Some(next) => {
                current = next;
            },
        }
        i = i + 1;
    }
    proof {
        assert(before.take(i as int) == before);
        assert(chain_model(features@).take(i as int) == chain_model(features@));
    }
    Ok(Some(current))
}

/// The texts of a batch of lines.
pub open spec fn lines_text(lines: Seq<String>) -> Seq<Seq<char>> {
    Seq::new(lines.len(), |i: int| lines[i]@)
}

/// Whether `result` is what a chain hands back for the run `run` that
/// started from the chain `before`.
pub open spec fn reports_run(
    result: Result<Vec<String>, RicatError>,
    before: Seq<TransformModel>,
    run: ChainRun,
) -> bool {
    match run.refused {
        None => result matches Ok(out) && lines_text(out@) == run.emitted,
        Some(at) => result matches Err(RicatError::FeatureError(text)) && text@ == refusal_text(
            before[at as int],
        ),
    }
}

/// The kind of each transform, and with it the text of its refusal, stays the
/// same through a run.
pub proof fn lemma_chain_run_shape(chain: Seq<TransformModel>, lines: Seq<Seq<char>>)
    ensures
        chain_run(chain, lines).chain.len() == chain.len(),
        forall|i: int|
            0 <= i < chain.len() ==> priority(#[trigger] chain_run(chain, lines).chain[i])
                == priority(chain[i]),
        chain_run(chain, lines).refused matches Some(at) ==> at < chain.len(),
    decreases lines.len(),
{
    if lines.len() > 0 {
        lemma_chain_step_shape(chain, lines[0]);
        let first = chain_step(chain, lines[0]);
        if !(first.passage is Refused) {
            lemma_chain_run_shape(first.chain, lines.drop_first());
        }
    }
}

/// Passes every line of `lines` through the chain, in order, and collects the
/// lines that come out. The state that a line leaves in the chain is the state
/// that the next line meets. The run ends with an error at the first line
/// that a transform cannot take.
pub fn process_input_ret(lines: &Vec<String>, features: &mut Vec<LineTransform>) -> (result:
    Result<Vec<String>, RicatError>)
    requires
        chain_well_formed(old(features)@),
    ensures
        chain_well_formed(final(features)@),
        chain_model(final(features)@) == chain_run(
            chain_model(old(features)@),
            lines_text(lines@),
        ).chain,
        reports_run(
            result,
            chain_model(old(features)@),
            chain_run(chain_model(old(features)@), lines_text(lines@)),
        ),
{
    let ghost before = chain_model(features@);
    let ghost all = lines_text(lines@);
    let mut processed_lines: Vec<String> = Vec::new();
    let mut i: usize = 0;
    proof {
        assert(all.take(0) == Seq::<Seq<char>>::empty());
        assert(lines_text(processed_lines@) == Seq::<Seq<char>>::empty());
    }
    while i < lines.len()
        invariant
            i <= lines.len(),
            all == lines_text(lines@),
            before == chain_model(old(features)@),
            chain_well_formed(features@),
            chain_run(before, all.take(i as int)) == (ChainRun {
                chain: chain_model(features@),
                emitted: lines_text(processed_lines@),
                refused: None,
            }),
        decreases lines.len() - i,
    {
        let ghost models = chain_model(features@);
        let ghost emitted_before = lines_text(processed_lines@);
        let ghost one = seq![all[i as int]];
        proof {
            assert(all.take(i as int) + one == all.take(i as int + 1));
            assert(all.take(i as int + 1) + all.skip(i as int + 1) == all);
            assert(one.drop_first() == Seq::<Seq<char>>::empty());
            assert(all[i as int] == lines@[i as int]@);
            lemma_chain_run_of_batches(before, all.take(i as int), one);
            lemma_chain_run_of_batches(before, all.take(i as int + 1), all.skip(i as int + 1));
            lemma_chain_run_shape(before, all.take(i as int));
            lemma_chain_run_single(models, all[i as int]);
        }
        match apply_features(features, lines[i].as_str()) {
            Err(error) => {
                proof {
                    let at = chain_step(models, all[i as int]).passage->at;
                    lemma_chain_step_shape(models, all[i as int]);
                    assert(priority(models[at as int]) == priority(before[at as int]));
                    assert(refusal_text(models[at as int]) == refusal_text(before[at as int]));
                }
                return Err(error);
            },
            Ok(None) => {},
            Ok(Some(line)) => {
                let ghost text = line@;
                processed_lines.push(line);
                proof {
                    assert(lines_text(processed_lines@) == emitted_before + seq![text]);
                }
            },
        }
        i = i + 1;
    }
    proof {
        assert(all.take(i as int) == all);
    }
    Ok(processed_lines)
}

} // verus!
