//! The mathematical model of the transforms and of a chain of them: what each
//! transform emits for a line, how its state moves on, and how a chain passes
//! a line from one transform to the next.

use vstd::prelude::*;
use crate::encoding_decoding_feature::{decoded_line, encodable, encoded_line};
use crate::pattern::{cache_after_use, cache_agrees, passes_search, PatternCache};
use crate::text::{decimal, is_blank, tabs_shown};

verus! {

/// The state of one transform, as far as its behaviour depends on it.
pub ghost enum TransformModel {
    /// Squeezes runs of blank lines; remembers whether the last line was blank.
    Squeeze { last_blank: bool },
    /// Encodes each line as Base64.
    Encode,
    /// Decodes each line from Base64.
    Decode,
    /// Keeps the lines that a pattern is found in.
    Search { pattern: Seq<char>, cache: PatternCache },
    /// Numbers the lines; `next` is the number of the next line.
    Numbering { next: nat },
    /// Marks the end of each line with `$`.
    Dollar,
    /// Writes tabs as `^I`.
    Tabs,
}

/// The place of a transform in the fixed order of a chain.
pub open spec fn priority(t: TransformModel) -> nat {
    match t {
        TransformModel::Squeeze { .. } => 1,
        TransformModel::Encode => 2,
        TransformModel::Decode => 3,
        TransformModel::Search { .. } => 4,
        TransformModel::Numbering { .. } => 5,
        TransformModel::Dollar => 6,
        TransformModel::Tabs => 7,
    }
}

/// Whether the state is one that a transform can be in.
pub open spec fn valid(t: TransformModel) -> bool {
    match t {
        TransformModel::Search { pattern, cache } => cache_agrees(pattern, cache),
        TransformModel::Numbering { next } => next >= 1,
        _ => true,
    }
}

/// Whether the machine can carry out the transform on `line`: the next line
/// number must have a successor in `usize`, and Base64 text must fit in
/// memory. The other transforms take every line.
pub open spec fn accepts(t: TransformModel, line: Seq<char>) -> bool {
    match t {
        TransformModel::Numbering { next } => next < usize::MAX,
        TransformModel::Encode => encodable(line),
        _ => true,
    }
}

/// The line as numbered with `number`.
pub open spec fn numbered(number: nat, line: Seq<char>) -> Seq<char> {
    decimal(number) + seq![' '] + line
}

/// What the transform emits for `line`; `None` when it suppresses the line.
pub open spec fn emitted(t: TransformModel, line: Seq<char>) -> Option<Seq<char>> {
    match t {
        TransformModel::Squeeze { last_blank } => if is_blank(line) {
            if last_blank {
                None
            } else {
                Some(Seq::empty())
            }
        } else {
            Some(line)
        },
        TransformModel::Encode => Some(encoded_line(line)),
        TransformModel::Decode => decoded_line(line),
        TransformModel::Search { pattern, cache } => if passes_search(pattern, line) {
            Some(line)
        } else {
            None
        },
        TransformModel::Numbering { next } => Some(numbered(next, line)),
        TransformModel::Dollar => Some(line.push('$')),
        TransformModel::Tabs => Some(tabs_shown(line)),
    }
}

/// The state of the transform after it has seen `line`.
pub open spec fn advanced(t: TransformModel, line: Seq<char>) -> TransformModel {
    match t {
        TransformModel::Squeeze { last_blank } => TransformModel::Squeeze {
            last_blank: is_blank(line),
        },
        TransformModel::Search { pattern, cache } => TransformModel::Search {
            pattern,
            cache: cache_after_use(pattern, cache),
        },
        TransformModel::Numbering { next } => TransformModel::Numbering { next: next + 1 },
        other => other,
    }
}

/// How a line left a chain.
pub ghost enum Passage {
    /// Every transform emitted; this is the final line.
    Emitted(Seq<char>),
    /// A transform suppressed the line.
    Suppressed,
    /// The transform at `at` could not take the line it was handed.
    Refused { at: nat },
}

/// A chain after one line, and how the line left it.
pub ghost struct ChainStep {
    pub chain: Seq<TransformModel>,
    pub passage: Passage,
}

/// Passes `line` through `chain`, first transform first. Each transform sees
/// what the one before it emitted. Once a transform suppresses the line, or
/// cannot take it, the transforms after it neither see the line nor change.
pub open spec fn chain_step(chain: Seq<TransformModel>, line: Seq<char>) -> ChainStep
    decreases chain.len(),
{
    if chain.len() == 0 {
        ChainStep { chain, passage: Passage::Emitted(line) }
    } else if !accepts(chain[0], line) {
        ChainStep { chain, passage: Passage::Refused { at: 0 } }
    } else {
        let head = seq![advanced(chain[0], line)];
        match emitted(chain[0], line) {
            None => ChainStep { chain: head + chain.drop_first(), passage: Passage::Suppressed },
            Some(next) => {
                let rest = chain_step(chain.drop_first(), next);
                ChainStep { chain: head + rest.chain, passage: shifted(rest.passage, 1) }
            },
        }
    }
}

/// The passage `p` of a chain, seen from a longer chain that has `by` more
/// transforms in front.
pub open spec fn shifted(p: Passage, by: nat) -> Passage {
    match p {
        Passage::Refused { at } => Passage::Refused { at: at + by },
        other => other,
    }
}

/// A chain after a run of lines, what it emitted, and the place where it
/// stopped if a transform refused a line.
pub ghost struct ChainRun {
    pub chain: Seq<TransformModel>,
    pub emitted: Seq<Seq<char>>,
    pub refused: Option<nat>,
}

/// Passes `lines` through `chain` one after the other; the state that one line
/// leaves behind is the state that the next line meets. The run stops at the
/// first line that a transform refuses.
pub open spec fn chain_run(chain: Seq<TransformModel>, lines: Seq<Seq<char>>) -> ChainRun
    decreases lines.len(),
{
    if lines.len() == 0 {
        ChainRun { chain, emitted: Seq::empty(), refused: None }
    } else {
        let first = chain_step(chain, lines[0]);
        match first.passage {
            Passage::Refused { at } => ChainRun {
                chain: first.chain,
                emitted: Seq::empty(),
                refused: Some(at),
            },
            Passage::Suppressed => chain_run(first.chain, lines.drop_first()),
            Passage::Emitted(line) => {
                let rest = chain_run(first.chain, lines.drop_first());
                ChainRun { chain: rest.chain, emitted: seq![line] + rest.emitted, refused: rest.refused }
            },
        }
    }
}

/// Whether every transform of the chain is in a valid state.
pub open spec fn all_valid(chain: Seq<TransformModel>) -> bool {
    forall|i: int| 0 <= i < chain.len() ==> valid(#[trigger] chain[i])
}

/// Whether the transforms stand in the fixed order, each kind at most once.
pub open spec fn in_priority_order(chain: Seq<TransformModel>) -> bool {
    forall|i: int, j: int|
        0 <= i < j < chain.len() ==> priority(#[trigger] chain[i]) < priority(#[trigger] chain[j])
}

/// A transform stays valid when it sees a line.
pub proof fn lemma_advanced_valid(t: TransformModel, line: Seq<char>)
    requires
        valid(t),
    ensures
        valid(advanced(t, line)),
        priority(advanced(t, line)) == priority(t),
{
}

/// A chain keeps its length, its order of kinds and its validity when a line
/// passes through it.
pub proof fn lemma_chain_step_shape(chain: Seq<TransformModel>, line: Seq<char>)
    ensures
        chain_step(chain, line).chain.len() == chain.len(),
        forall|i: int|
            0 <= i < chain.len() ==> priority(#[trigger] chain_step(chain, line).chain[i])
                == priority(chain[i]),
        all_valid(chain) ==> all_valid(chain_step(chain, line).chain),
        chain_step(chain, line).passage matches Passage::Refused { at } ==> at < chain.len(),
    decreases chain.len(),
{
    if chain.len() > 0 && accepts(chain[0], line) {
        let tail = chain.drop_first();
        let head = seq![advanced(chain[0], line)];
        if all_valid(chain) {
            lemma_advanced_valid(chain[0], line);
            assert forall|i: int| 0 <= i < tail.len() implies valid(#[trigger] tail[i]) by {
                assert(tail[i] == chain[i + 1]);
            }
        }
        match emitted(chain[0], line) {
            None => {
                let after = head + tail;
                assert forall|i: int| 0 <= i < chain.len() implies priority(#[trigger] after[i])
                    == priority(chain[i]) by {
                    if i > 0 {
                        assert(after[i] == tail[i - 1]);
                    }
                }
                if all_valid(chain) {
                    assert forall|i: int| 0 <= i < after.len() implies valid(#[trigger] after[i]) by {
                        if i > 0 {
                            assert(after[i] == tail[i - 1]);
                        }
                    }
                }
            },
            Some(next) => {
                lemma_chain_step_shape(tail, next);
                let rest = chain_step(tail, next);
                let after = head + rest.chain;
                assert forall|i: int| 0 <= i < chain.len() implies priority(#[trigger] after[i])
                    == priority(chain[i]) by {
                    if i > 0 {
                        assert(after[i] == rest.chain[i - 1]);
                        assert(tail[i - 1] == chain[i]);
                    }
                }
                if all_valid(chain) {
                    assert forall|i: int| 0 <= i < after.len() implies valid(#[trigger] after[i]) by {
                        if i > 0 {
                            assert(after[i] == rest.chain[i - 1]);
                        }
                    }
                }
            },
        }
    }
}

/// A chain that stands in the fixed order still does after a line has passed
/// through it.
pub proof fn lemma_chain_step_keeps_order(chain: Seq<TransformModel>, line: Seq<char>)
    requires
        in_priority_order(chain),
    ensures
        in_priority_order(chain_step(chain, line).chain),
{
    lemma_chain_step_shape(chain, line);
}

/// A chain of two parts works as its parts do, one after the other: the first
/// part sees the line; the second part sees what the first emitted, and is
/// left untouched when the first suppressed or refused the line.
pub proof fn lemma_chain_step_of_parts(
    front: Seq<TransformModel>,
    back: Seq<TransformModel>,
    line: Seq<char>,
)
    ensures
        chain_step(front + back, line) == match chain_step(front, line).passage {
            Passage::Emitted(mid) => ChainStep {
                chain: chain_step(front, line).chain + chain_step(back, mid).chain,
                passage: shifted(chain_step(back, mid).passage, front.len()),
            },
            stopped => ChainStep { chain: chain_step(front, line).chain + back, passage: stopped },
        },
    decreases front.len(),
{
    let whole = front + back;
    if front.len() == 0 {
        assert(whole == back);
        let r = chain_step(back, line);
        assert(Seq::<TransformModel>::empty() + r.chain == r.chain);
        assert(shifted(r.passage, 0) == r.passage);
    } else {
        assert(whole[0] == front[0]);
        assert(whole.drop_first() == front.drop_first() + back);
        if accepts(front[0], line) {
            let head = seq![advanced(front[0], line)];
            match emitted(front[0], line) {
                None => {
                    assert(head + (front.drop_first() + back) == (head + front.drop_first())
                        + back);
                },
                Some(next) => {
                    lemma_chain_step_of_parts(front.drop_first(), back, next);
                    let inner = chain_step(front.drop_first(), next);
                    match inner.passage {
                        Passage::Emitted(mid) => {
                            let last = chain_step(back, mid);
                            assert(head + (inner.chain + last.chain) == (head + inner.chain)
                                + last.chain);
                            assert(shifted(shifted(last.passage, (front.len() - 1) as nat), 1)
                                == shifted(last.passage, front.len()));
                        },
                        _ => {
                            assert(head + (inner.chain + back) == (head + inner.chain) + back);
                        },
                    }
                },
            }
        } else {
            assert(front + back == whole);
        }
    }
}

/// A chain of one transform does what the transform does.
pub proof fn lemma_chain_step_single(t: TransformModel, line: Seq<char>)
    ensures
        chain_step(seq![t], line) == if !accepts(t, line) {
            ChainStep { chain: seq![t], passage: Passage::Refused { at: 0 } }
        } else {
            ChainStep {
                chain: seq![advanced(t, line)],
                passage: match emitted(t, line) {
                    Some(out) => Passage::Emitted(out),
                    None => Passage::Suppressed,
                },
            }
        },
{
    let chain = seq![t];
    let head = seq![advanced(t, line)];
    assert(chain[0] == t);
    assert(chain.drop_first() == Seq::<TransformModel>::empty());
    assert(head + Seq::<TransformModel>::empty() == head);
    match emitted(t, line) {
        Some(out) => {
            let rest = chain_step(chain.drop_first(), out);
            assert(rest == ChainStep { chain: Seq::empty(), passage: Passage::Emitted(out) });
        },
        None => {},
    }
}

/// What the transform at place `at` does to a line that every transform before
/// it has emitted. `done` is the state that those transforms are left in and
/// `seen` the line that reaches place `at`.
pub proof fn lemma_chain_step_at(
    chain: Seq<TransformModel>,
    at: int,
    line: Seq<char>,
    done: Seq<TransformModel>,
    seen: Seq<char>,
)
    requires
        0 <= at < chain.len(),
        chain_step(chain.take(at), line) == (ChainStep {
            chain: done,
            passage: Passage::Emitted(seen),
        }),
    ensures
        !accepts(chain[at], seen) ==> chain_step(chain, line) == (ChainStep {
            chain: done + chain.skip(at),
            passage: Passage::Refused { at: at as nat },
        }),
        accepts(chain[at], seen) && emitted(chain[at], seen) is None ==> chain_step(chain, line)
            == (ChainStep {
            chain: done.push(advanced(chain[at], seen)) + chain.skip(at + 1),
            passage: Passage::Suppressed,
        }),
        accepts(chain[at], seen) && emitted(chain[at], seen) is Some ==> chain_step(
            chain.take(at + 1),
            line,
        ) == (ChainStep {
            chain: done.push(advanced(chain[at], seen)),
            passage: Passage::Emitted(emitted(chain[at], seen)->Some_0),
        }),
{
    let front = chain.take(at);
    let back = chain.skip(at);
    let one = seq![chain[at]];
    assert(front + back == chain);
    assert(front + one == chain.take(at + 1));
    assert(back[0] == chain[at]);
    assert(back.drop_first() == chain.skip(at + 1));
    assert(one.drop_first() == Seq::<TransformModel>::empty());
    lemma_chain_step_of_parts(front, back, line);
    lemma_chain_step_of_parts(front, one, line);
    lemma_chain_step_shape(front, line);
    let next = advanced(chain[at], seen);
    if accepts(chain[at], seen) {
        match emitted(chain[at], seen) {
            None => {
                assert(done + (seq![next] + back.drop_first()) == done.push(next) + chain.skip(
                    at + 1,
                ));
            },
            Some(out) => {
                let last = chain_step(one.drop_first(), out);
                assert(last.chain == Seq::<TransformModel>::empty());
                assert(done + (seq![next] + last.chain) == done.push(next));
            },
        }
    }
}

/// A run over a single line is one passage of that line.
pub proof fn lemma_chain_run_single(chain: Seq<TransformModel>, line: Seq<char>)
    ensures
        chain_run(chain, seq![line]) == match chain_step(chain, line).passage {
            Passage::Refused { at } => ChainRun {
                chain: chain_step(chain, line).chain,
                emitted: Seq::empty(),
                refused: Some(at),
            },
            Passage::Suppressed => ChainRun {
                chain: chain_step(chain, line).chain,
                emitted: Seq::empty(),
                refused: None,
            },
            Passage::Emitted(out) => ChainRun {
                chain: chain_step(chain, line).chain,
                emitted: seq![out],
                refused: None,
            },
        },
{
    let lines = seq![line];
    let first = chain_step(chain, line);
    assert(lines[0] == line);
    assert(lines.drop_first() == Seq::<Seq<char>>::empty());
    let rest = chain_run(first.chain, lines.drop_first());
    assert(rest == ChainRun { chain: first.chain, emitted: Seq::empty(), refused: None });
    match first.passage {
        Passage::Emitted(out) => {
            assert(seq![out] + rest.emitted == seq![out]);
        },
        _ => {},
    }
}

/// Running a chain over two batches of lines, one after the other, is running
/// it over their concatenation: nothing in a chain is reset between batches.
pub proof fn lemma_chain_run_of_batches(
    chain: Seq<TransformModel>,
    first: Seq<Seq<char>>,
    second: Seq<Seq<char>>,
)
    ensures
        chain_run(chain, first + second) == match chain_run(chain, first).refused {
            Some(at) => chain_run(chain, first),
            None => ChainRun {
                chain: chain_run(chain_run(chain, first).chain, second).chain,
                emitted: chain_run(chain, first).emitted + chain_run(
                    chain_run(chain, first).chain,
                    second,
                ).emitted,
                refused: chain_run(chain_run(chain, first).chain, second).refused,
            },
        },
    decreases first.len(),
{
    let all = first + second;
    if first.len() == 0 {
        assert(all == second);
        let r = chain_run(chain, second);
        assert(Seq::<Seq<char>>::empty() + r.emitted == r.emitted);
    } else {
        assert(all[0] == first[0]);
        assert(all.drop_first() == first.drop_first() + second);
        let step = chain_step(chain, first[0]);
        match step.passage {
            Passage::Refused { at } => {},
            Passage::Suppressed => {
                lemma_chain_run_of_batches(step.chain, first.drop_first(), second);
            },
            Passage::Emitted(line) => {
                lemma_chain_run_of_batches(step.chain, first.drop_first(), second);
                let rest = chain_run(step.chain, first.drop_first());
                if rest.refused is None {
                    let tail = chain_run(rest.chain, second);
                    assert(seq![line] + (rest.emitted + tail.emitted) == (seq![line]
                        + rest.emitted) + tail.emitted);
                }
            },
        }
    }
}

} // verus!
