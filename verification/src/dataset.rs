//! The translation dataset: numbered pairs of text files read in order.
//!
//! Pair `k` (counting from 1) lives in the files `"{k}.txt"` (source) and
//! `"{k}p.txt"` (target). Loading stops at the first missing source file;
//! a source file without its target is an error. Both texts are stored
//! without leading and trailing whitespace.
//!
//! The file system is not touched here: a caller asks the loader which
//! files come next, reports whether they exist, and hands over their
//! contents.

use vstd::prelude::*;

use crate::text::{
    decimal_string, decimal_value, is_decimal_digit, lemma_decimal_injective, lemma_decimal_shape,
    lemma_decimal_value, spec_decimal, trim_chars, trim_text,
};

verus! {

/// One source sentence and its translation.
#[derive(Debug, Clone)]
pub struct TranslationPair {
    pub source: String,
    pub target: String,
}

/// The name of the source file of pair `index`: `"{index}.txt"`.
pub open spec fn spec_source_file_name(index: nat) -> Seq<char> {
    spec_decimal(index) + seq!['.', 't', 'x', 't']
}

/// The name of the target file of pair `index`: `"{index}p.txt"`.
pub open spec fn spec_target_file_name(index: nat) -> Seq<char> {
    spec_decimal(index) + seq!['p', '.', 't', 'x', 't']
}

/// Every pair is read from files of its own: two pair numbers never share
/// a source or a target file name, and no source file name is a target
/// file name.
pub proof fn lemma_file_names_distinct(i: nat, j: nat)
    ensures
        i != j ==> spec_source_file_name(i) != spec_source_file_name(j),
        i != j ==> spec_target_file_name(i) != spec_target_file_name(j),
        spec_source_file_name(i) != spec_target_file_name(j),
{
    lemma_decimal_shape(i);
    lemma_decimal_shape(j);
    let di = spec_decimal(i);
    let dj = spec_decimal(j);
    let source_suffix = seq!['.', 't', 'x', 't'];
    let target_suffix = seq!['p', '.', 't', 'x', 't'];
    assert(source_suffix.len() == 4);
    assert(target_suffix.len() == 5);
    assert(spec_source_file_name(i).len() == di.len() + 4);
    assert(spec_source_file_name(j).len() == dj.len() + 4);
    assert(spec_target_file_name(i).len() == di.len() + 5);
    assert(spec_target_file_name(j).len() == dj.len() + 5);
    if spec_source_file_name(i) == spec_source_file_name(j) {
        assert(di.len() == dj.len());
        assert(di =~= spec_source_file_name(i).subrange(0, di.len() as int));
        assert(dj =~= spec_source_file_name(j).subrange(0, dj.len() as int));
        lemma_decimal_injective(i, j);
    }
    if spec_target_file_name(i) == spec_target_file_name(j) {
        assert(di.len() == dj.len());
        assert(di =~= spec_target_file_name(i).subrange(0, di.len() as int));
        assert(dj =~= spec_target_file_name(j).subrange(0, dj.len() as int));
        lemma_decimal_injective(i, j);
    }
    if spec_source_file_name(i) == spec_target_file_name(j) {
        assert(di.len() == dj.len() + 1);
        let k = di.len() - 1;
        assert(spec_source_file_name(i)[k] == di.last());
        assert(spec_target_file_name(j)[k] == target_suffix[0]);
    }
}

/// A source file name is the pair number written in decimal (digits that
/// read back as the number), then `.txt`; a target file name is the same
/// number, then `p.txt`.
pub proof fn lemma_file_names_spell_index(index: nat)
    ensures
        ({
            let name = spec_source_file_name(index);
            let digits = name.subrange(0, name.len() - 4);
            &&& name.len() >= 5
            &&& decimal_value(digits) == index
            &&& forall|k: int| 0 <= k < digits.len() ==> is_decimal_digit(#[trigger] digits[k])
            &&& name.subrange(name.len() - 4, name.len() as int) == seq!['.', 't', 'x', 't']
        }),
        ({
            let name = spec_target_file_name(index);
            let digits = name.subrange(0, name.len() - 5);
            &&& name.len() >= 6
            &&& decimal_value(digits) == index
            &&& forall|k: int| 0 <= k < digits.len() ==> is_decimal_digit(#[trigger] digits[k])
            &&& name.subrange(name.len() - 5, name.len() as int) == seq!['p', '.', 't', 'x', 't']
        }),
{
    lemma_decimal_shape(index);
    lemma_decimal_value(index);
    let d = spec_decimal(index);
    let source = spec_source_file_name(index);
    let target = spec_target_file_name(index);
    let source_suffix = seq!['.', 't', 'x', 't'];
    let target_suffix = seq!['p', '.', 't', 'x', 't'];
    assert(source.len() == d.len() + 4);
    assert(target.len() == d.len() + 5);
    assert(source.subrange(0, source.len() - 4) =~= d);
    assert(target.subrange(0, target.len() - 5) =~= d);
    assert(source.subrange(source.len() - 4, source.len() as int) =~= source_suffix);
    assert(target.subrange(target.len() - 5, target.len() as int) =~= target_suffix);
}

/// The name of the source file of pair `index`.
pub fn source_file_name(index: u64) -> (r: String)
    ensures
        r@ == spec_source_file_name(index as nat),
{
    let mut name = decimal_string(index);
    proof {
        reveal_strlit(".txt");
    }
    name.append(".txt");
    name
}

/// The name of the target file of pair `index`.
pub fn target_file_name(index: u64) -> (r: String)
    ensures
        r@ == spec_target_file_name(index as nat),
{
    let mut name = decimal_string(index);
    proof {
        reveal_strlit("p.txt");
    }
    name.append("p.txt");
    name
}

/// Builds a pair from the raw contents of its two files, trimming both.
pub fn make_pair(source_text: &str, target_text: &str) -> (p: TranslationPair)
    ensures
        p.source@ == trim_chars(source_text@),
        p.target@ == trim_chars(target_text@),
{
    TranslationPair { source: trim_text(source_text), target: trim_text(target_text) }
}

/// What the loader does once it knows which of the next two files exist.
#[derive(Debug, Clone, Copy, PartialEq, Eq, Structural)]
pub enum LoadStep {
    /// The next source file is missing: the dataset is complete.
    Finish,
    /// The next source file exists but its target does not: loading fails.
    MissingTarget,
    /// Both files exist: read them and hand their contents to `accept`.
    ReadPair,
}

/// The state of a dataset load: the number of the next pair and the pairs
/// read so far.
pub struct DatasetLoader {
    index: u64,
    pairs: Vec<TranslationPair>,
}

/// The texts of a pair, as plain character sequences.
pub open spec fn pair_view(p: TranslationPair) -> (Seq<char>, Seq<char>) {
    (p.source@, p.target@)
}

impl DatasetLoader {
    /// The next pair number always follows the pairs read so far.
    pub closed spec fn wf(self) -> bool {
        self.index as nat == self.pairs.len() + 1
    }

    /// The number of the next pair to read (the first is 1).
    pub closed spec fn next_index(self) -> nat {
        self.index as nat
    }

    /// The texts of the pairs read so far, in reading order.
    pub closed spec fn loaded(self) -> Seq<(Seq<char>, Seq<char>)> {
        self.pairs@.map_values(|p: TranslationPair| pair_view(p))
    }

    /// A loader that has read nothing and starts at pair 1.
    pub fn new() -> (l: Self)
        ensures
            l.wf(),
            l.next_index() == 1,
            l.loaded() == Seq::<(Seq<char>, Seq<char>)>::empty(),
    {
        let l = DatasetLoader { index: 1, pairs: Vec::new() };
        assert(l.loaded() =~= Seq::<(Seq<char>, Seq<char>)>::empty());
        l
    }

    /// The number of the next pair.
    pub fn index(&self) -> (r: u64)
        requires
            self.wf(),
        ensures
            r as nat == self.next_index(),
            r as nat == self.loaded().len() + 1,
    {
        self.index
    }

    /// The name of the next source file.
    pub fn source_file_name(&self) -> (r: String)
        ensures
            r@ == spec_source_file_name(self.next_index()),
    {
        source_file_name(self.index)
    }

    /// The name of the next target file.
    pub fn target_file_name(&self) -> (r: String)
        ensures
            r@ == spec_target_file_name(self.next_index()),
    {
        target_file_name(self.index)
    }

    /// Decides what to do given whether the next source and target files
    /// exist. A missing source ends the dataset, whether or not the target
    /// exists.
    pub fn step(&self, source_exists: bool, target_exists: bool) -> (r: LoadStep)
        ensures
            r == (if !source_exists {
                LoadStep::Finish
            } else if !target_exists {
                LoadStep::MissingTarget
            } else {
                LoadStep::ReadPair
            }),
    {
        if !source_exists {
            LoadStep::Finish
        } else if !target_exists {
            LoadStep::MissingTarget
        } else {
            LoadStep::ReadPair
        }
    }

    /// Records the contents of the next pair's files, trimmed, and moves on
    /// to the following pair.
    pub fn accept(&mut self, source_text: &str, target_text: &str)
        requires
            old(self).wf(),
            old(self).next_index() < u64::MAX,
        ensures
            final(self).wf(),
            final(self).next_index() == old(self).next_index() + 1,
            final(self).loaded() == old(self).loaded().push(
                (trim_chars(source_text@), trim_chars(target_text@)),
            ),
    {
        let pair = make_pair(source_text, target_text);
        let ghost before = self.pairs@;
        self.pairs.push(pair);
        self.index = self.index + 1;
        proof {
            assert(self.pairs@ == before.push(pair));
            assert(self.loaded() =~= before.map_values(|p: TranslationPair| pair_view(p)).push(
                pair_view(pair),
            ));
        }
    }

    /// The pairs read so far, in reading order.
    pub fn into_pairs(self) -> (r: Vec<TranslationPair>)
        ensures
            r@.map_values(|p: TranslationPair| pair_view(p)) == self.loaded(),
    {
        self.pairs
    }
}

} // verus!
