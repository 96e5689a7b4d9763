//! Versions: tuples of numbers taken out of a tag, their order, and the
//! distinction between compatible and breaking updates.

use vstd::prelude::*;

pub mod extractor;
pub mod order;

verus! {

/// One numeric component of a version.
pub type VersionPart = usize;

/// How far an update reaches: within the compatible range, or beyond it.
#[derive(Debug, PartialEq, Eq, Clone, Copy, Structural)]
pub enum UpdateType {
    Compatible,
    Breaking,
}

/// A non-empty tuple of numbers, most significant first.
#[derive(Debug, PartialEq, Eq, Ord, Clone)]
pub struct Version {
    parts: Vec<VersionPart>,
}

/// The number of leading positions at which `a` and `b` agree.
pub open spec fn sameness_degree(a: Seq<usize>, b: Seq<usize>) -> nat
    decreases a.len(),
{
    if a.len() == 0 || b.len() == 0 || a[0] != b[0] {
        0
    } else {
        1 + sameness_degree(a.skip(1), b.skip(1))
    }
}

/// Whether `a` and `b` disagree at position `i`. A position that one of them
/// lacks counts as a disagreement.
pub open spec fn differs_at(a: Seq<usize>, b: Seq<usize>, i: int) -> bool {
    i >= a.len() || i >= b.len() || a[i] != b[i]
}

/// Whether `a` and `b` disagree at some position before `degree`.
pub open spec fn differs_within(a: Seq<usize>, b: Seq<usize>, degree: nat) -> bool {
    exists|i: int| 0 <= i < degree && #[trigger] differs_at(a, b, i)
}

/// Lexicographic order: the first position at which the tuples disagree
/// decides; a proper prefix comes before its extensions.
pub open spec fn lex_less(a: Seq<usize>, b: Seq<usize>) -> bool {
    let d = sameness_degree(a, b) as int;
    if d < a.len() && d < b.len() {
        a[d] < b[d]
    } else {
        d == a.len() && d < b.len()
    }
}

/// The kind of update that leads from one version to another under the given
/// breaking degree.
pub open spec fn update_type_of(a: Seq<usize>, b: Seq<usize>, breaking_degree: nat) -> UpdateType {
    if sameness_degree(a, b) >= breaking_degree {
        UpdateType::Compatible
    } else {
        UpdateType::Breaking
    }
}

/// The sameness degree is the one position up to which the tuples agree and
/// at which they either end or disagree.
pub proof fn lemma_sameness_degree(a: Seq<usize>, b: Seq<usize>)
    ensures
        sameness_degree(a, b) <= a.len(),
        sameness_degree(a, b) <= b.len(),
        forall|i: int| 0 <= i < sameness_degree(a, b) ==> a[i] == b[i],
        sameness_degree(a, b) < a.len() && sameness_degree(a, b) < b.len() ==> a[sameness_degree(
            a,
            b,
        ) as int] != b[sameness_degree(a, b) as int],
    decreases a.len(),
{
    if a.len() == 0 || b.len() == 0 || a[0] != b[0] {
    } else {
        let a1 = a.skip(1);
        let b1 = b.skip(1);
        lemma_sameness_degree(a1, b1);
        let d = sameness_degree(a1, b1);
        assert forall|i: int| 0 <= i < d + 1 implies a[i] == b[i] by {
            if i > 0 {
                assert(a1[i - 1] == a[i]);
                assert(b1[i - 1] == b[i]);
            }
        }
        if d + 1 < a.len() && d + 1 < b.len() {
            assert(a1[d as int] == a[d as int + 1]);
            assert(b1[d as int] == b[d as int + 1]);
        }
    }
}

/// A position up to which the tuples agree and at which they end or disagree
/// is the sameness degree.
pub proof fn lemma_sameness_degree_unique(a: Seq<usize>, b: Seq<usize>, d: nat)
    requires
        d <= a.len(),
        d <= b.len(),
        forall|i: int| 0 <= i < d ==> a[i] == b[i],
        d < a.len() && d < b.len() ==> a[d as int] != b[d as int],
    ensures
        sameness_degree(a, b) == d,
{
    lemma_sameness_degree(a, b);
    let s = sameness_degree(a, b);
    if s < d {
        assert(a[s as int] == b[s as int]);
    } else if d < s {
        assert(a[d as int] == b[d as int]);
    }
}

impl View for Version {
    type V = Seq<usize>;

    closed spec fn view(&self) -> Seq<usize> {
        self.parts@
    }
}

impl Version {
    /// Every version holds at least one number.
    pub closed spec fn wf(&self) -> bool {
        self.parts@.len() > 0
    }

    /// Makes a version of the given numbers, unless there are none.
    pub fn new(parts: Vec<VersionPart>) -> (result: Option<Version>)
        ensures
            parts@.len() == 0 <==> result is None,
            result matches Some(version) ==> version@ == parts@ && version.wf(),
    {
        if parts.len() == 0 {
            None
        } else {
            Some(Version { parts })
        }
    }

    /// The numbers of this version, most significant first.
    pub fn parts(&self) -> (parts: &Vec<VersionPart>)
        ensures
            parts@ == self@,
    {
        &self.parts
    }

    /// Counts the leading positions at which the two versions agree.
    pub fn sameness_degree_with(&self, other: &Version) -> (degree: usize)
        ensures
            degree == sameness_degree(self@, other@),
    {
        let mut i: usize = 0;
        while i < self.parts.len() && i < other.parts.len() && self.parts[i] == other.parts[i]
            invariant
                i <= self.parts@.len(),
                i <= other.parts@.len(),
                forall|j: int| 0 <= j < i ==> self.parts@[j] == other.parts@[j],
            decreases self.parts@.len() - i,
        {
            i += 1;
        }
        proof {
            lemma_sameness_degree_unique(self@, other@, i as nat);
        }
        i
    }

    /// Classifies the step between this version and `other`: breaking when
    /// they part ways before `breaking_degree` positions, compatible
    /// otherwise.
    pub fn update_type(&self, other: &Version, breaking_degree: usize) -> (kind: UpdateType)
        ensures
            kind == update_type_of(self@, other@, breaking_degree as nat),
    {
        if self.sameness_degree_with(other) >= breaking_degree {
            UpdateType::Compatible
        } else {
            UpdateType::Breaking
        }
    }

    /// Whether this version comes before `other` in lexicographic order.
    pub fn is_less_than(&self, other: &Version) -> (less: bool)
        ensures
            less == lex_less(self@, other@),
    {
        let d = self.sameness_degree_with(other);
        proof {
            lemma_sameness_degree(self@, other@);
        }
        if d < self.parts.len() && d < other.parts.len() {
            self.parts[d] < other.parts[d]
        } else {
            d == self.parts.len() && d < other.parts.len()
        }
    }
}

/// The step between two versions is breaking exactly when they disagree
/// somewhere before the breaking degree, and compatible otherwise.
pub proof fn lemma_classification(current: Seq<usize>, candidate: Seq<usize>, breaking_degree: nat)
    ensures
        update_type_of(current, candidate, breaking_degree) == UpdateType::Breaking
            <==> differs_within(current, candidate, breaking_degree),
        update_type_of(current, candidate, breaking_degree) == UpdateType::Compatible
            <==> !differs_within(current, candidate, breaking_degree),
{
    lemma_sameness_degree(current, candidate);
    let same = sameness_degree(current, candidate) as int;
    if same < breaking_degree {
        assert(differs_at(current, candidate, same));
    }
}

/// One tuple comes before another exactly when, at the first position at
/// which they part, it ends or holds the smaller number.
pub proof fn lemma_lex_less_is_lexicographic(a: Seq<usize>, b: Seq<usize>)
    ensures
        lex_less(a, b) <==> exists|k: int|
            {
                &&& 0 <= k <= a.len()
                &&& k < b.len()
                &&& forall|i: int| 0 <= i < k ==> a[i] == b[i]
                &&& (k == a.len() || a[k] < b[k])
            },
{
    lemma_sameness_degree(a, b);
    let d = sameness_degree(a, b) as int;
    if lex_less(a, b) {
        assert(0 <= d <= a.len() && d < b.len() && (forall|i: int| 0 <= i < d ==> a[i] == b[i])
            && (d == a.len() || a[d] < b[d]));
    }
    if exists|k: int|
        {
            &&& 0 <= k <= a.len()
            &&& k < b.len()
            &&& forall|i: int| 0 <= i < k ==> a[i] == b[i]
            &&& (k == a.len() || a[k] < b[k])
        } {
        let k = choose|k: int|
            {
                &&& 0 <= k <= a.len()
                &&& k < b.len()
                &&& forall|i: int| 0 <= i < k ==> a[i] == b[i]
                &&& (k == a.len() || a[k] < b[k])
            };
        lemma_sameness_degree_unique(a, b, k as nat);
    }
}

/// Of two tuples exactly one of three holds: the first comes before the
/// second, they are the same, or the second comes before the first.
pub proof fn lemma_lex_less_total(a: Seq<usize>, b: Seq<usize>)
    ensures
        !(lex_less(a, b) && lex_less(b, a)),
        !lex_less(a, a),
        a != b ==> lex_less(a, b) || lex_less(b, a),
{
    lemma_sameness_degree(a, b);
    lemma_sameness_degree(b, a);
    lemma_sameness_degree(a, a);
    lemma_sameness_degree_unique(b, a, sameness_degree(a, b));
    if a != b && !lex_less(a, b) && !lex_less(b, a) {
        assert(a =~= b);
    }
}

/// What comes before something that comes before a third comes before the
/// third.
pub proof fn lemma_lex_less_transitive(a: Seq<usize>, b: Seq<usize>, c: Seq<usize>)
    requires
        lex_less(a, b),
        lex_less(b, c),
    ensures
        lex_less(a, c),
{
    lemma_sameness_degree(a, b);
    lemma_sameness_degree(b, c);
    let ab = sameness_degree(a, b);
    let bc = sameness_degree(b, c);
    let d = if ab <= bc {
        ab
    } else {
        bc
    };
    lemma_sameness_degree_unique(a, c, d);
}

} // verus!
