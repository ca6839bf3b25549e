//! The corpus: the indexed files whose category is allowed, and the weighted
//! choice of one quote among all of theirs.

use crate::quotes::{rot13, rot13_seq, FileEncoding, QuoteCategory, QuoteFile, QuoteIndex};
use rand::Rng;
use rand_distr::{Distribution, WeightedAliasIndex, WeightedError};
use vstd::prelude::*;

verus! {

/// rand_distr's alias sampler over `usize` weights, held opaque: its type
/// cannot be declared on its own, as its parameter's bound is a trait of
/// rand_distr.
#[verifier::external_body]
pub struct FileSampler {
    inner: WeightedAliasIndex<usize>,
}

/// rand's `WeightedError`, the error of `WeightedAliasIndex::new`, carried
/// opaque.
#[verifier::external_type_specification]
#[verifier::external_body]
pub struct ExWeightedError(WeightedError);

/// The weights that an alias sampler was built from.
pub uninterp spec fn alias_weights(d: FileSampler) -> Seq<usize>;

/// The weights that `WeightedAliasIndex::new` accepts: at least one and at most
/// `u32::MAX` of them, none above `usize::MAX` divided by their number, and not
/// all zero.
pub open spec fn alias_accepts(w: Seq<usize>) -> bool {
    0 < w.len() <= u32::MAX && (forall|i: int| 0 <= i < w.len() ==> w[i] <= usize::MAX / (w.len() as usize))
        && (exists|i: int| 0 <= i < w.len() && w[i] > 0)
}

/// Relies on rand_distr's `WeightedAliasIndex::new`: it fails exactly on the
/// weights that `alias_accepts` leaves out, and otherwise samples by them.
#[verifier::external_body]
fn new_sampler(weights: Vec<usize>) -> (r: Result<FileSampler, WeightedError>)
    ensures
        r is Ok <==> alias_accepts(weights@),
        r matches Ok(d) ==> alias_weights(d) == weights@,
{
    WeightedAliasIndex::new(weights).map(|inner| FileSampler { inner })
}

/// Relies on `Distribution::sample` of rand_distr's `WeightedAliasIndex`,
/// drawn with rand's `thread_rng`: an index below the number of weights.
#[verifier::external_body]
fn sample_index(d: &FileSampler) -> (r: usize)
    ensures
        r < alias_weights(*d).len(),
{
    d.inner.sample(&mut rand::thread_rng())
}

/// Relies on rand's `Rng::gen_range` over `0..n`, drawn with `thread_rng`: a
/// value in that range (it panics on an empty one, which `requires` excludes).
#[verifier::external_body]
fn uniform_below(n: usize) -> (r: usize)
    requires
        n > 0,
    ensures
        r < n,
{
    rand::thread_rng().gen_range(0..n)
}

/// Why no corpus could be built.
#[derive(Debug, Clone, Copy, PartialEq, Eq, Structural)]
pub enum CorpusError {
    /// No file has both an allowed category and at least one quote.
    NoEligibleFiles,
    /// The quote counts cannot weigh a sampler (too many files, or too many
    /// quotes in one of them).
    InvalidWeights,
}

/// A file takes part in the corpus when its category is allowed and it holds
/// at least one quote.
pub open spec fn eligible(f: QuoteFile, allowed: Seq<QuoteCategory>) -> bool {
    allowed.contains(f.category) && f.quotes@.len() > 0
}

/// The positions, in order, of the eligible files among the first `n`.
pub open spec fn selected(files: Seq<QuoteFile>, allowed: Seq<QuoteCategory>, n: int) -> Seq<usize>
    decreases n,
{
    if n <= 0 {
        seq![]
    } else if eligible(files[n - 1], allowed) {
        selected(files, allowed, n - 1).push((n - 1) as usize)
    } else {
        selected(files, allowed, n - 1)
    }
}

/// A file takes part in a corpus exactly when its category is allowed and it
/// holds a quote. So every quote picked comes from a file of an allowed
/// category, and every file of an allowed category with a quote can be picked.
pub proof fn lemma_selected_exactly_eligible(
    files: Seq<QuoteFile>,
    allowed: Seq<QuoteCategory>,
    n: int,
)
    requires
        0 <= n <= files.len(),
        n <= usize::MAX,
    ensures
        forall|j: int|
            0 <= j < n ==> (selected(files, allowed, n).contains(j as usize) <==> eligible(
                files[j],
                allowed,
            )),
        forall|k: int|
            0 <= k < selected(files, allowed, n).len() ==> (#[trigger] selected(
                files,
                allowed,
                n,
            )[k] as int) < n,
    decreases n,
{
    if n > 0 {
        lemma_selected_exactly_eligible(files, allowed, n - 1);
        let prev = selected(files, allowed, n - 1);
        let cur = selected(files, allowed, n);
        assert forall|j: int| 0 <= j < n implies (cur.contains(j as usize) <==> eligible(
            files[j],
            allowed,
        )) by {
            if cur.contains(j as usize) {
                let k = choose|k: int| 0 <= k < cur.len() && cur[k] == j as usize;
                if k < prev.len() {
                    assert(prev[k] == cur[k]);
                    assert(prev.contains(j as usize));
                }
            }
            if j < n - 1 && prev.contains(j as usize) {
                let k = choose|k: int| 0 <= k < prev.len() && prev[k] == j as usize;
                assert(cur[k] == j as usize);
            }
            if j == n - 1 && eligible(files[j], allowed) {
                assert(cur[cur.len() - 1] == j as usize);
            }
            if j == n - 1 && prev.contains(j as usize) {
                let k = choose|k: int| 0 <= k < prev.len() && prev[k] == j as usize;
                assert((prev[k] as int) < n - 1);
            }
        }
    }
}

/// Where no file has an allowed category, no file takes part, so building a
/// corpus from them fails with `NoEligibleFiles`.
pub proof fn lemma_no_allowed_file_selects_none(files: Seq<QuoteFile>, allowed: Seq<QuoteCategory>)
    requires
        files.len() <= usize::MAX,
        forall|j: int| 0 <= j < files.len() ==> !allowed.contains(#[trigger] files[j].category),
    ensures
        selected(files, allowed, files.len() as int).len() == 0,
{
    let sel = selected(files, allowed, files.len() as int);
    lemma_selected_exactly_eligible(files, allowed, files.len() as int);
    if sel.len() > 0 {
        let j = sel[0] as int;
        assert(sel.contains(j as usize));
        assert(eligible(files[j], allowed));
    }
}

/// The weight of each selected file: its number of quotes.
pub open spec fn weights_of(files: Seq<QuoteFile>, sel: Seq<usize>) -> Seq<usize> {
    Seq::new(sel.len(), |k: int| files[sel[k] as int].quotes@.len() as usize)
}

/// The quotes of a set of files, the files that take part, and a sampler that
/// picks one of those files with odds in proportion to its number of quotes.
pub struct Quotes {
    files: Vec<QuoteFile>,
    eligible: Vec<usize>,
    file_weights: FileSampler,
}

impl Quotes {
    /// All indexed files, in the order they were given.
    pub closed spec fn files_spec(&self) -> Seq<QuoteFile> {
        self.files@
    }

    /// The positions of the files that take part.
    pub closed spec fn eligible_spec(&self) -> Seq<usize> {
        self.eligible@
    }

    /// At least one file takes part, each such file holds a quote, and the
    /// sampler weighs each by its number of quotes.
    pub closed spec fn wf(&self) -> bool {
        &&& self.eligible@.len() > 0
        &&& forall|k: int|
            0 <= k < self.eligible@.len() ==> (self.eligible@[k] as int) < self.files@.len()
                && #[trigger] self.files@[self.eligible@[k] as int].quotes@.len() > 0
        &&& alias_weights(self.file_weights) == weights_of(self.files@, self.eligible@)
    }

    /// Builds a corpus from indexed files: those whose category is in
    /// `allowed` and that hold a quote take part, weighted by their number of
    /// quotes. Fails where none takes part, or where the sampler refuses the
    /// weights.
    pub fn from_files(files: Vec<QuoteFile>, allowed: &[QuoteCategory]) -> (r: Result<
        Quotes,
        CorpusError,
    >)
        ensures
            r is Ok <==> selected(files@, allowed@, files@.len() as int).len() > 0 && alias_accepts(
                weights_of(files@, selected(files@, allowed@, files@.len() as int)),
            ),
            match r {
                Ok(q) => q.wf() && q.files_spec() == files@ && q.eligible_spec() == selected(
                    files@,
                    allowed@,
                    files@.len() as int,
                ),
                Err(CorpusError::NoEligibleFiles) => selected(
                    files@,
                    allowed@,
                    files@.len() as int,
                ).len() == 0,
                Err(CorpusError::InvalidWeights) => selected(
                    files@,
                    allowed@,
                    files@.len() as int,
                ).len() > 0,
            },
    {
        let n = files.len();
        let mut eligible: Vec<usize> = Vec::new();
        let mut weights: Vec<usize> = Vec::new();
        let mut i: usize = 0;
        while i < n
            invariant
                n == files@.len(),
                i <= n,
                eligible@ == selected(files@, allowed@, i as int),
                weights@ == weights_of(files@, eligible@),
                forall|k: int| 0 <= k < eligible@.len() ==> (eligible@[k] as int) < i,
                forall|k: int|
                    0 <= k < eligible@.len() ==> #[trigger] files@[eligible@[k] as int].quotes@.len()
                        > 0,
            decreases n - i,
        {
            let f = &files[i];
            if category_allowed(allowed, f.category) && f.quotes.len() > 0 {
                eligible.push(i);
                weights.push(f.quotes.len());
                assert(weights@ =~= weights_of(files@, eligible@));
            }
            i = i + 1;
        }
        if eligible.len() == 0 {
            return Err(CorpusError::NoEligibleFiles);
        }
        match new_sampler(weights) {
            Ok(file_weights) => Ok(Quotes { files, eligible, file_weights }),
            Err(_) => Err(CorpusError::InvalidWeights),
        }
    }

    /// Picks one quote at random: a taking-part file with odds in proportion
    /// to its number of quotes, then one of its quotes with equal odds.
    /// Returns the file's position and the quote's position in it.
    pub fn pick_random(&self) -> (r: (usize, usize))
        requires
            self.wf(),
        ensures
            self.eligible_spec().contains(r.0),
            (r.0 as int) < self.files_spec().len(),
            (r.1 as int) < self.files_spec()[r.0 as int].quotes@.len(),
    {
        let k = sample_index(&self.file_weights);
        let f = self.eligible[k];
        assert(self.files@[self.eligible@[k as int] as int].quotes@.len() > 0);
        let s = uniform_below(self.files[f].quotes.len());
        (f, s)
    }

    /// Where a quote lies in its file.
    pub fn quote_span(&self, file_index: usize, quote_index: usize) -> (r: QuoteIndex)
        requires
            (file_index as int) < self.files_spec().len(),
            (quote_index as int) < self.files_spec()[file_index as int].quotes@.len(),
        ensures
            r == self.files_spec()[file_index as int].quotes@[quote_index as int],
    {
        self.files[file_index].quotes[quote_index]
    }

    /// Turns the bytes read for a quote of a file into its text: rot13 undone
    /// for a file stored in rot13, unchanged otherwise.
    pub fn decode(&self, file_index: usize, raw: Vec<u8>) -> (r: Vec<u8>)
        requires
            (file_index as int) < self.files_spec().len(),
        ensures
            r@ == if self.files_spec()[file_index as int].encoding == FileEncoding::Rot13 {
                rot13_seq(raw@)
            } else {
                raw@
            },
    {
        let mut quote = raw;
        if self.files[file_index].encoding == FileEncoding::Rot13 {
            rot13(&mut quote);
        }
        quote
    }

    /// The number of indexed files.
    pub fn file_count(&self) -> (r: usize)
        ensures
            r == self.files_spec().len(),
    {
        self.files.len()
    }

    /// The number of quotes of the file at `file_index`.
    pub fn quote_count(&self, file_index: usize) -> (r: usize)
        requires
            (file_index as int) < self.files_spec().len(),
        ensures
            r == self.files_spec()[file_index as int].quotes@.len(),
    {
        self.files[file_index].quotes.len()
    }

    /// Whether the file at `file_index` takes part in the corpus.
    pub fn is_eligible(&self, file_index: usize) -> (r: bool)
        ensures
            r == self.eligible_spec().contains(file_index),
    {
        let mut k: usize = 0;
        while k < self.eligible.len()
            invariant
                forall|j: int| 0 <= j < k ==> self.eligible@[j] != file_index,
            decreases self.eligible@.len() - k,
        {
            if self.eligible[k] == file_index {
                return true;
            }
            k = k + 1;
        }
        false
    }
}

/// Whether `c` is among `allowed`.
fn category_allowed(allowed: &[QuoteCategory], c: QuoteCategory) -> (r: bool)
    ensures
        r == allowed@.contains(c),
{
    let mut k: usize = 0;
    while k < allowed.len()
        invariant
            forall|j: int| 0 <= j < k ==> allowed@[j] != c,
        decreases allowed@.len() - k,
    {
        if allowed[k] == c {
            return true;
        }
        k = k + 1;
    }
    false
}

} // verus!
