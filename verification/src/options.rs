//! From the options of one invocation to the chain of transforms and to the
//! way the run is carried out.

use vstd::prelude::*;
use vstd::string::*;
use crate::chain::{chain_model, chain_well_formed, LineTransform};
use crate::features::{
    Base64Decoding,
    Base64Encoding,
    CompressEmptyLines,
    DollarSymbolAtLast,
    LineNumbering,
    LineTextFeature,
    ReplaceTabspaces,
};
use crate::model::{in_priority_order, priority, TransformModel};
use crate::pattern::{search_pattern, LineWithGivenText, PatternCache};
use crate::text::{trim, trimmed};

verus! {

/// The options of one invocation, as the command line gave them.
pub struct Cli {
    /// Number the lines.
    pub numbers: bool,
    /// Mark the end of each line with `$`.
    pub dollar: bool,
    /// Write tabs as `^I`.
    pub tabs: bool,
    /// Squeeze runs of blank lines.
    pub squeeze_blank: bool,
    /// Keep only the lines in which the search text occurs.
    pub search_flag: bool,
    /// The search text; read only when `search_flag` is set.
    pub search_text: Option<String>,
    /// Ignore case when searching.
    pub ignore_case: bool,
    /// Page the output.
    pub pagination: bool,
    /// Encode each line as Base64.
    pub encode: bool,
    /// Decode each line from Base64.
    pub decode: bool,
    /// The files to read, in order; standard input when there is none.
    pub files: Vec<String>,
}

/// The text to search for: what was given, or the empty text.
pub open spec fn search_text_of(arguments: Cli) -> Seq<char> {
    match arguments.search_text {
        Some(text) => text@,
        None => Seq::empty(),
    }
}

/// The search that the options ask for.
pub open spec fn search_for(arguments: Cli) -> TransformModel {
    TransformModel::Search {
        pattern: search_pattern(trimmed(search_text_of(arguments)), arguments.ignore_case),
        cache: PatternCache::Pending,
    }
}

/// A chain of the one transform `t`, or of none.
pub open spec fn optional(present: bool, t: TransformModel) -> Seq<TransformModel> {
    if present {
        seq![t]
    } else {
        Seq::empty()
    }
}

/// The chain that the options ask for. The order of the transforms is fixed:
/// squeezing, encoding, decoding, searching, numbering, the end-of-line mark,
/// visible tabs. The order in which the options were given plays no part.
pub open spec fn chain_for(arguments: Cli) -> Seq<TransformModel> {
    optional(arguments.squeeze_blank, TransformModel::Squeeze { last_blank: false }) + optional(
        arguments.encode,
        TransformModel::Encode,
    ) + optional(arguments.decode, TransformModel::Decode) + optional(
        arguments.search_flag,
        search_for(arguments),
    ) + optional(arguments.numbers, TransformModel::Numbering { next: 1 }) + optional(
        arguments.dollar,
        TransformModel::Dollar,
    ) + optional(arguments.tabs, TransformModel::Tabs)
}

/// Putting a transform of a later kind behind an ordered chain keeps the chain
/// ordered.
proof fn lemma_optional_keeps_order(chain: Seq<TransformModel>, present: bool, t: TransformModel)
    requires
        in_priority_order(chain),
        forall|i: int| 0 <= i < chain.len() ==> priority(#[trigger] chain[i]) < priority(t),
    ensures
        in_priority_order(chain + optional(present, t)),
        forall|i: int|
            0 <= i < (chain + optional(present, t)).len() ==> priority(
                #[trigger] (chain + optional(present, t))[i],
            ) <= priority(t),
{
    let longer = chain + optional(present, t);
    assert forall|i: int, j: int| 0 <= i < j < longer.len() implies priority(#[trigger] longer[i])
        < priority(#[trigger] longer[j]) by {
        assert(longer[i] == chain[i]);
        if j < chain.len() {
            assert(longer[j] == chain[j]);
        }
    }
    assert forall|i: int| 0 <= i < longer.len() implies priority(#[trigger] longer[i]) <= priority(
        t,
    ) by {
        if i < chain.len() {
            assert(longer[i] == chain[i]);
        }
    }
}

/// Whatever the options are, the chain they ask for stands in the fixed
/// order, with each kind of transform at most once.
pub proof fn lemma_chain_for_in_order(arguments: Cli)
    ensures
        in_priority_order(chain_for(arguments)),
{
    let c0 = Seq::<TransformModel>::empty();
    let t1 = TransformModel::Squeeze { last_blank: false };
    let c1 = c0 + optional(arguments.squeeze_blank, t1);
    lemma_optional_keeps_order(c0, arguments.squeeze_blank, t1);
    assert(c1 == optional(arguments.squeeze_blank, t1));
    let c2 = c1 + optional(arguments.encode, TransformModel::Encode);
    lemma_optional_keeps_order(c1, arguments.encode, TransformModel::Encode);
    let c3 = c2 + optional(arguments.decode, TransformModel::Decode);
    lemma_optional_keeps_order(c2, arguments.decode, TransformModel::Decode);
    let c4 = c3 + optional(arguments.search_flag, search_for(arguments));
    lemma_optional_keeps_order(c3, arguments.search_flag, search_for(arguments));
    let t5 = TransformModel::Numbering { next: 1 };
    let c5 = c4 + optional(arguments.numbers, t5);
    lemma_optional_keeps_order(c4, arguments.numbers, t5);
    let c6 = c5 + optional(arguments.dollar, TransformModel::Dollar);
    lemma_optional_keeps_order(c5, arguments.dollar, TransformModel::Dollar);
    let c7 = c6 + optional(arguments.tabs, TransformModel::Tabs);
    lemma_optional_keeps_order(c6, arguments.tabs, TransformModel::Tabs);
    assert(c7 == chain_for(arguments));
}

/// Puts `feature` at the end of the chain.
fn add_feature(features: &mut Vec<LineTransform>, feature: LineTransform)
    requires
        chain_well_formed(old(features)@),
        feature.well_formed(),
    ensures
        chain_well_formed(final(features)@),
        chain_model(final(features)@) == chain_model(old(features)@).push(feature.model()),
{
    features.push(feature);
    assert(chain_model(features@) == chain_model(old(features)@).push(feature.model()));
}

/// Builds the chain that the options ask for. The transforms are fresh: no
/// line has been seen, numbering starts at 1, no pattern is compiled.
pub fn add_features_from_args(arguments: &Cli) -> (features: Vec<LineTransform>)
    ensures
        chain_well_formed(features@),
        chain_model(features@) == chain_for(*arguments),
        in_priority_order(chain_model(features@)),
{
    let mut features: Vec<LineTransform> = Vec::new();
    let ghost none = Seq::<TransformModel>::empty();
    let ghost mut built = none;
    assert(chain_model(features@) == built);

    if arguments.squeeze_blank {
        add_feature(&mut features, LineTransform::Squeeze(CompressEmptyLines::new()));
    }
    proof {
        assert(built + none == built);
        built = built + optional(
            arguments.squeeze_blank,
            TransformModel::Squeeze { last_blank: false },
        );
        assert(built == optional(
            arguments.squeeze_blank,
            TransformModel::Squeeze { last_blank: false },
        ));
    }

    if arguments.encode {
        add_feature(&mut features, LineTransform::Encode(Base64Encoding::new()));
    }
    proof {
        assert(built + none == built);
        built = built + optional(arguments.encode, TransformModel::Encode);
    }

    if arguments.decode {
        add_feature(&mut features, LineTransform::Decode(Base64Decoding::new()));
    }
    proof {
        assert(built + none == built);
        built = built + optional(arguments.decode, TransformModel::Decode);
    }

    if arguments.search_flag {
        let text_to_search = match &arguments.search_text {
            None => "",
            Some(text) => text.as_str(),
        };
        proof {
            reveal_strlit("");
            assert(text_to_search@ == search_text_of(*arguments));
        }
        add_feature(
            &mut features,
            LineTransform::Search(
                LineWithGivenText::new(trim(text_to_search), arguments.ignore_case),
            ),
        );
    }
    proof {
        assert(built + none == built);
        built = built + optional(arguments.search_flag, search_for(*arguments));
    }

    if arguments.numbers {
        add_feature(&mut features, LineTransform::Numbering(LineNumbering::new()));
    }
    proof {
        assert(built + none == built);
        built = built + optional(arguments.numbers, TransformModel::Numbering { next: 1 });
    }

    if arguments.dollar {
        add_feature(&mut features, LineTransform::Dollar(DollarSymbolAtLast::new()));
    }
    proof {
        assert(built + none == built);
        built = built + optional(arguments.dollar, TransformModel::Dollar);
    }

    if arguments.tabs {
        add_feature(&mut features, LineTransform::Tabs(ReplaceTabspaces::new()));
    }
    proof {
        assert(built + none == built);
        built = built + optional(arguments.tabs, TransformModel::Tabs);
        lemma_chain_for_in_order(*arguments);
    }
    features
}

/// How a run is carried out.
#[derive(Debug, Clone, Copy, PartialEq, Eq)]
pub enum RunMode {
    /// No file and no transform: standard input is copied to the output as
    /// it is.
    CopyStandardInput,
    /// No file, but transforms: standard input is filtered line by line and
    /// each surviving line is written at once.
    FilterStandardInput,
    /// Files and transforms: the lines of all files pass through one chain;
    /// what comes out is paged or written in one go.
    FilterFiles { paginate: bool },
    /// Files, no transform, paging: the lines of all files are paged.
    PageFiles,
    /// Files, no transform, no paging: each file is copied as it is.
    CopyFiles,
}

/// The way a run is carried out, given whether files were named, whether any
/// transform is configured and whether paging was asked for. Paging applies
/// only to files.
pub open spec fn mode_for(has_files: bool, has_features: bool, pagination: bool) -> RunMode {
    if has_features {
        if has_files {
            RunMode::FilterFiles { paginate: pagination }
        } else {
            RunMode::FilterStandardInput
        }
    } else if has_files {
        if pagination {
            RunMode::PageFiles
        } else {
            RunMode::CopyFiles
        }
    } else {
        RunMode::CopyStandardInput
    }
}

/// Decides how the run is carried out.
pub fn run_mode(arguments: &Cli, features: &Vec<LineTransform>) -> (mode: RunMode)
    ensures
        mode == mode_for(arguments.files@.len() > 0, features@.len() > 0, arguments.pagination),
{
    let has_files = arguments.files.len() > 0;
    let has_features = features.len() > 0;
    if has_features {
        if has_files {
            RunMode::FilterFiles { paginate: arguments.pagination }
        } else {
            RunMode::FilterStandardInput
        }
    } else if has_files {
        if arguments.pagination {
            RunMode::PageFiles
        } else {
            RunMode::CopyFiles
        }
    } else {
        RunMode::CopyStandardInput
    }
}

} // verus!
