//! What holds of the transforms and of chains of them, whatever the lines.

use vstd::prelude::*;
use crate::model::{
    accepts,
    advanced,
    chain_run,
    chain_step,
    emitted,
    lemma_chain_step_of_parts,
    lemma_chain_step_shape,
    lemma_chain_step_single,
    numbered,
    ChainRun,
    Passage,
    TransformModel,
};
use crate::text::is_blank;

verus! {

/// The end-of-line mark yields the line followed by `$`, for every line, the
/// empty one included.
pub proof fn lemma_dollar_appends(line: Seq<char>)
    ensures
        accepts(TransformModel::Dollar, line),
        emitted(TransformModel::Dollar, line) == Some(line + seq!['$']),
        line.len() == 0 ==> emitted(TransformModel::Dollar, line) == Some(seq!['$']),
{
    assert(line.push('$') == line + seq!['$']);
    if line.len() == 0 {
        assert(line + seq!['$'] == seq!['$']);
    }
}

/// Numbering counts up by one from where it starts: the line at place `i` of a
/// run gets the number `first + i`, and nothing is left out. A fresh numbering
/// starts at 1.
pub proof fn lemma_numbering_counts_up(first: nat, lines: Seq<Seq<char>>)
    requires
        first + lines.len() <= usize::MAX,
    ensures
        chain_run(seq![TransformModel::Numbering { next: first }], lines) == (ChainRun {
            chain: seq![TransformModel::Numbering { next: first + lines.len() }],
            emitted: Seq::new(lines.len(), |i: int| numbered((first + i) as nat, lines[i])),
            refused: None,
        }),
    decreases lines.len(),
{
    let numbering = TransformModel::Numbering { next: first };
    let expected = Seq::new(lines.len(), |i: int| numbered((first + i) as nat, lines[i]));
    if lines.len() == 0 {
        assert(expected == Seq::<Seq<char>>::empty());
    } else {
        let rest = lines.drop_first();
        lemma_chain_step_single(numbering, lines[0]);
        lemma_numbering_counts_up(first + 1, rest);
        let later = Seq::new(rest.len(), |i: int| numbered((first + 1 + i) as nat, rest[i]));
        assert(seq![numbered(first, lines[0])] + later == expected);
    }
}

/// A line that an earlier transform suppressed, or could not take, is not
/// seen by any later transform: every transform from place `at` on is left as
/// it was.
pub proof fn lemma_stopped_line_is_not_seen(chain: Seq<TransformModel>, at: int, line: Seq<char>)
    requires
        0 <= at <= chain.len(),
        !(chain_step(chain.take(at), line).passage is Emitted),
    ensures
        chain_step(chain, line).passage == chain_step(chain.take(at), line).passage,
        forall|j: int| at <= j < chain.len() ==> chain_step(chain, line).chain[j] == chain[j],
{
    let front = chain.take(at);
    let back = chain.skip(at);
    assert(front + back == chain);
    lemma_chain_step_of_parts(front, back, line);
    lemma_chain_step_shape(front, line);
    let after = chain_step(chain, line).chain;
    assert forall|j: int| at <= j < chain.len() implies after[j] == chain[j] by {
        assert(after[j] == back[j - at]);
    }
}

/// A line that every earlier transform emitted reaches the transform at place
/// `at`, which sees it exactly once.
pub proof fn lemma_emitted_line_is_seen(
    chain: Seq<TransformModel>,
    at: int,
    line: Seq<char>,
    seen: Seq<char>,
)
    requires
        0 <= at < chain.len(),
        chain_step(chain.take(at), line).passage == Passage::Emitted(seen),
        accepts(chain[at], seen),
    ensures
        chain_step(chain, line).chain[at] == advanced(chain[at], seen),
{
    let front = chain.take(at);
    let back = chain.skip(at);
    assert(front + back == chain);
    assert(back[0] == chain[at]);
    lemma_chain_step_of_parts(front, back, line);
    lemma_chain_step_shape(front, line);
    let done = chain_step(front, line).chain;
    let inner = chain_step(back, seen);
    assert(inner.chain[0] == advanced(chain[at], seen));
    assert((done + inner.chain)[at] == inner.chain[0]);
}

/// The line counter moves only for lines that get as far as the numbering:
/// when a transform in front of it stops a line, the next number stays; when
/// the line arrives, the next number grows by one.
pub proof fn lemma_numbering_counts_survivors(
    chain: Seq<TransformModel>,
    at: int,
    line: Seq<char>,
)
    requires
        0 <= at < chain.len(),
        chain[at] is Numbering,
        chain[at]->next < usize::MAX,
    ensures
        chain_step(chain, line).chain[at] == (TransformModel::Numbering {
            next: if chain_step(chain.take(at), line).passage is Emitted {
                chain[at]->next + 1
            } else {
                chain[at]->next
            },
        }),
{
    match chain_step(chain.take(at), line).passage {
        Passage::Emitted(seen) => {
            lemma_emitted_line_is_seen(chain, at, line, seen);
        },
        _ => {
            lemma_stopped_line_is_not_seen(chain, at, line);
        },
    }
}

/// Of a run of blank lines the squeezer lets exactly one empty line through,
/// the first, and none at all when the line before the run was blank too.
pub proof fn lemma_squeeze_keeps_one_blank(last_blank: bool, lines: Seq<Seq<char>>)
    requires
        lines.len() >= 1,
        forall|i: int| 0 <= i < lines.len() ==> is_blank(#[trigger] lines[i]),
    ensures
        chain_run(seq![TransformModel::Squeeze { last_blank }], lines) == (ChainRun {
            chain: seq![TransformModel::Squeeze { last_blank: true }],
            emitted: if last_blank {
                Seq::<Seq<char>>::empty()
            } else {
                seq![Seq::<char>::empty()]
            },
            refused: None,
        }),
    decreases lines.len(),
{
    let squeeze = TransformModel::Squeeze { last_blank };
    let rest = lines.drop_first();
    assert(is_blank(lines[0]));
    lemma_chain_step_single(squeeze, lines[0]);
    if rest.len() > 0 {
        assert forall|i: int| 0 <= i < rest.len() implies is_blank(#[trigger] rest[i]) by {
            assert(rest[i] == lines[i + 1]);
        }
        lemma_squeeze_keeps_one_blank(true, rest);
        if !last_blank {
            assert(seq![Seq::<char>::empty()] + Seq::<Seq<char>>::empty() == seq![
                Seq::<char>::empty(),
            ]);
        }
    } else {
        let after = seq![TransformModel::Squeeze { last_blank: true }];
        assert(chain_run(after, rest) == ChainRun {
            chain: after,
            emitted: Seq::empty(),
            refused: None,
        });
        if !last_blank {
            assert(seq![Seq::<char>::empty()] + Seq::<Seq<char>>::empty() == seq![
                Seq::<char>::empty(),
            ]);
        }
    }
}

/// Whether no two neighbours among `lines` are both blank.
pub open spec fn no_blank_neighbours(lines: Seq<Seq<char>>) -> bool {
    forall|i: int|
        0 <= i < lines.len() - 1 ==> !(is_blank(#[trigger] lines[i]) && is_blank(lines[i + 1]))
}

/// Whatever goes into the squeezer, no two blank lines come out of it next to
/// each other, and the first line out is not blank when the squeezer had
/// just seen a blank line.
pub proof fn lemma_squeeze_leaves_no_blank_neighbours(last_blank: bool, lines: Seq<Seq<char>>)
    ensures
        chain_run(seq![TransformModel::Squeeze { last_blank }], lines).refused is None,
        no_blank_neighbours(chain_run(seq![TransformModel::Squeeze { last_blank }], lines).emitted),
        last_blank && chain_run(seq![TransformModel::Squeeze { last_blank }], lines).emitted.len()
            > 0 ==> !is_blank(
            chain_run(seq![TransformModel::Squeeze { last_blank }], lines).emitted[0],
        ),
    decreases lines.len(),
{
    let squeeze = TransformModel::Squeeze { last_blank };
    if lines.len() > 0 {
        let line = lines[0];
        let rest = lines.drop_first();
        lemma_chain_step_single(squeeze, line);
        lemma_squeeze_leaves_no_blank_neighbours(is_blank(line), rest);
        let later = chain_run(seq![TransformModel::Squeeze { last_blank: is_blank(line) }], rest);
        let all = chain_run(seq![squeeze], lines);
        if !(is_blank(line) && last_blank) {
            let out = if is_blank(line) {
                Seq::<char>::empty()
            } else {
                line
            };
            assert(all.emitted == seq![out] + later.emitted);
            assert(is_blank(out) == is_blank(line));
            assert forall|i: int| 0 <= i < all.emitted.len() - 1 implies !(is_blank(
                #[trigger] all.emitted[i],
            ) && is_blank(all.emitted[i + 1])) by {
                if i > 0 {
                    assert(all.emitted[i] == later.emitted[i - 1]);
                    assert(all.emitted[i + 1] == later.emitted[i]);
                } else {
                    assert(all.emitted[1] == later.emitted[0]);
                }
            }
        }
    }
}

/// A line that is not blank passes the squeezer unchanged, and ends any run
/// of blank lines.
pub proof fn lemma_squeeze_passes_text(last_blank: bool, line: Seq<char>)
    requires
        !is_blank(line),
    ensures
        emitted(TransformModel::Squeeze { last_blank }, line) == Some(line),
        advanced(TransformModel::Squeeze { last_blank }, line) == (TransformModel::Squeeze {
            last_blank: false,
        }),
{
}

} // verus!
