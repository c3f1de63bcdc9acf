//! The line transforms. Each takes one line and either emits a line in its
//! place or suppresses it, and keeps whatever state it needs between lines.

use vstd::prelude::*;
use vstd::string::*;
use crate::encoding_decoding_feature::{decoded_line, encoded_line, Base64, DataEncoding};
use crate::model::{accepts, advanced, emitted, valid, TransformModel};
use crate::pattern::{cache_after_use, matching_line, passes_search, LineWithGivenText};
use crate::text::{
    blank,
    decimal,
    decimal_string,
    is_blank,
    push_char,
    show_tabs,
    tabs_shown,
    text_of,
};

verus! {

/// A transform of lines: one line in, one line or none out.
pub trait LineTextFeature {
    /// The state of the transform, as its behaviour depends on it.
    spec fn model(&self) -> TransformModel;

    /// The invariant of the transform's own data.
    spec fn well_formed(&self) -> bool;

    /// A well-formed transform is in a valid state.
    proof fn lemma_valid(&self)
        requires
            self.well_formed(),
        ensures
            valid(self.model()),
    ;

    /// Applies the transform to `line`. The result is the line to pass on, or
    /// `None` when the line is to be left out.
    fn apply_feature(&mut self, line: &str) -> (result: Option<String>)
        requires
            old(self).well_formed(),
            accepts(old(self).model(), line@),
        ensures
            final(self).well_formed(),
            final(self).model() == advanced(old(self).model(), line@),
            text_of(result) == emitted(old(self).model(), line@),
    ;
}

/// Numbers the lines it sees, starting at 1.
pub struct LineNumbering {
    current_line: usize,
}

impl LineNumbering {
    /// A numbering whose first line gets the number 1.
    pub fn new() -> (numbering: Self)
        ensures
            numbering.well_formed(),
            numbering.model() == (TransformModel::Numbering { next: 1 }),
    {
        Self { current_line: 1 }
    }

    /// A numbering whose first line gets the number `first`.
    pub fn starting_at(first: usize) -> (numbering: Self)
        requires
            first >= 1,
        ensures
            numbering.well_formed(),
            numbering.model() == (TransformModel::Numbering { next: first as nat }),
    {
        Self { current_line: first }
    }

    /// The number that the next line gets.
    pub closed spec fn next(&self) -> nat {
        self.current_line as nat
    }

    /// The number that the next line gets.
    pub fn next_number(&self) -> (next: usize)
        ensures
            next == self.next(),
    {
        self.current_line
    }
}

impl LineTextFeature for LineNumbering {
    open spec fn model(&self) -> TransformModel {
        TransformModel::Numbering { next: self.next() }
    }

    open spec fn well_formed(&self) -> bool {
        self.next() >= 1
    }

    proof fn lemma_valid(&self) {
    }

    /// Emits the line behind its number and a space, and counts one up. No
    /// line is suppressed.
    fn apply_feature(&mut self, line: &str) -> (result: Option<String>)
        ensures
            text_of(result) == Some(decimal(old(self).next()) + seq![' '] + line@),
            final(self).next() == old(self).next() + 1,
    {
        let mut numbered = decimal_string(self.current_line);
        push_char(&mut numbered, ' ');
        numbered.append(line);
        self.current_line = self.current_line + 1;
        Some(numbered)
    }
}

/// Marks the end of every line with `$`.
pub struct DollarSymbolAtLast;

impl DollarSymbolAtLast {
    pub fn new() -> (dollar: Self)
        ensures
            dollar.well_formed(),
            dollar.model() == TransformModel::Dollar,
    {
        Self
    }
}

impl LineTextFeature for DollarSymbolAtLast {
    open spec fn model(&self) -> TransformModel {
        TransformModel::Dollar
    }

    open spec fn well_formed(&self) -> bool {
        true
    }

    proof fn lemma_valid(&self) {
    }

    /// Emits the line followed by `$`, whatever the line is.
    fn apply_feature(&mut self, line: &str) -> (result: Option<String>)
        ensures
            text_of(result) == Some(line@ + seq!['$']),
    {
        let mut marked = line.to_owned();
        push_char(&mut marked, '$');
        assert(line@.push('$') == line@ + seq!['$']);
        Some(marked)
    }
}

/// Writes every tab of a line as `^I`.
pub struct ReplaceTabspaces;

impl ReplaceTabspaces {
    pub fn new() -> (tabs: Self)
        ensures
            tabs.well_formed(),
            tabs.model() == TransformModel::Tabs,
    {
        Self
    }
}

impl LineTextFeature for ReplaceTabspaces {
    open spec fn model(&self) -> TransformModel {
        TransformModel::Tabs
    }

    open spec fn well_formed(&self) -> bool {
        true
    }

    proof fn lemma_valid(&self) {
    }

    /// Emits the line with each tab written as `^I`.
    fn apply_feature(&mut self, line: &str) -> (result: Option<String>)
        ensures
            text_of(result) == Some(tabs_shown(line@)),
    {
        Some(show_tabs(line))
    }
}

/// Lets one empty line through for every run of blank lines.
pub struct CompressEmptyLines {
    was_last_line_empty: bool,
}

impl CompressEmptyLines {
    /// A squeezer that has seen no line yet.
    pub fn new() -> (squeeze: Self)
        ensures
            squeeze.well_formed(),
            squeeze.model() == (TransformModel::Squeeze { last_blank: false }),
    {
        Self { was_last_line_empty: false }
    }

    /// Whether the last line seen was blank.
    pub closed spec fn last_blank(&self) -> bool {
        self.was_last_line_empty
    }
}

impl LineTextFeature for CompressEmptyLines {
    open spec fn model(&self) -> TransformModel {
        TransformModel::Squeeze { last_blank: self.last_blank() }
    }

    open spec fn well_formed(&self) -> bool {
        true
    }

    proof fn lemma_valid(&self) {
    }

    /// A blank line is suppressed when the line before it was blank, and
    /// emitted as the empty line otherwise. Any other line is emitted as it
    /// is.
    fn apply_feature(&mut self, line: &str) -> (result: Option<String>)
        ensures
            final(self).last_blank() == is_blank(line@),
            text_of(result) == if !is_blank(line@) {
                Some(line@)
            } else if old(self).last_blank() {
                None
            } else {
                Some(Seq::empty())
            },
    {
        if blank(line) {
            if self.was_last_line_empty {
                None
            } else {
                self.was_last_line_empty = true;
                Some(String::new())
            }
        } else {
            self.was_last_line_empty = false;
            Some(line.to_owned())
        }
    }
}

impl LineTextFeature for LineWithGivenText {
    open spec fn model(&self) -> TransformModel {
        TransformModel::Search { pattern: self.pattern(), cache: self.cache() }
    }

    open spec fn well_formed(&self) -> bool {
        self.cache_belongs()
    }

    proof fn lemma_valid(&self) {
        self.lemma_cache_agrees();
    }

    /// Emits the line as it is when the pattern is found in it, and suppresses
    /// it otherwise, also when the pattern does not compile. The pattern is
    /// compiled for the first line only.
    fn apply_feature(&mut self, line: &str) -> (result: Option<String>)
        ensures
            text_of(result) == if passes_search(old(self).pattern(), line@) {
                Some(line@)
            } else {
                None
            },
            final(self).pattern() == old(self).pattern(),
            final(self).cache() == cache_after_use(old(self).pattern(), old(self).cache()),
    {
        let found = self.matches(line);
        matching_line(found, line)
    }
}

/// Encodes every line as Base64.
pub struct Base64Encoding;

impl Base64Encoding {
    pub fn new() -> (encoding: Self)
        ensures
            encoding.well_formed(),
            encoding.model() == TransformModel::Encode,
    {
        Self
    }
}

impl LineTextFeature for Base64Encoding {
    open spec fn model(&self) -> TransformModel {
        TransformModel::Encode
    }

    open spec fn well_formed(&self) -> bool {
        true
    }

    proof fn lemma_valid(&self) {
    }

    /// Emits the Base64 text of the line; the empty line stays empty.
    fn apply_feature(&mut self, line: &str) -> (result: Option<String>)
        ensures
            text_of(result) == Some(encoded_line(line@)),
            line@.len() == 0 ==> text_of(result) == Some(Seq::<char>::empty()),
    {
        Base64::encode(line)
    }
}

/// Decodes every line from Base64; a line that is not the Base64 form of any
/// text is left out without notice.
pub struct Base64Decoding;

impl Base64Decoding {
    pub fn new() -> (decoding: Self)
        ensures
            decoding.well_formed(),
            decoding.model() == TransformModel::Decode,
    {
        Self
    }
}

impl LineTextFeature for Base64Decoding {
    open spec fn model(&self) -> TransformModel {
        TransformModel::Decode
    }

    open spec fn well_formed(&self) -> bool {
        true
    }

    proof fn lemma_valid(&self) {
    }

    /// Emits the text that the line is the Base64 form of, and suppresses a
    /// line that is not Base64 or whose bytes are not UTF-8. A line that came
    /// out of the encoding goes back to what was encoded.
    fn apply_feature(&mut self, line: &str) -> (result: Option<String>)
        ensures
            text_of(result) == decoded_line(line@),
            forall|data: Seq<char>|
                line@ == #[trigger] encoded_line(data) ==> text_of(result) == Some(data),
    {
        let decoded = Base64::decode(line);
        proof {
            assert forall|data: Seq<char>| line@ == #[trigger] encoded_line(data) implies text_of(
                decoded,
            ) == Some(data) by {
                assert(Base64::encoding(data) == encoded_line(data));
            }
        }
        decoded
    }
}

} // verus!
