//! The proposition table builder.
//!
//! A caller declares an ordered list of atomic names and an ordered list of
//! named propositions — boolean formulas over the atomics, built from the
//! six elementary connectives. `build` enumerates every truth assignment,
//! evaluates every proposition against every assignment, and assembles the
//! results into a [`Table`]: a header row of names followed by one row of
//! boolean cells per assignment, ready for an external renderer.

use crate::assignments::assignment_at;
use crate::assignments::possible_truth_values;
use vstd::arithmetic::power2::pow2;
use vstd::prelude::*;

verus! {

/// A compound proposition: a pure boolean function of the atomics, written
/// as a formula over their positions. `Atom(i)` reads the value of the
/// atomic declared at position `i`; the remaining variants are the six
/// elementary connectives plus a boolean constant (the 0-ary case).
#[derive(Debug, PartialEq, Eq)]
pub enum Formula {
    /// The value of the atomic at the given position in the declared order.
    Atom(usize),
    /// A constant proposition, independent of every atomic.
    Const(bool),
    /// Negation.
    Not(Box<Formula>),
    /// Conjunction.
    And(Box<Formula>, Box<Formula>),
    /// Disjunction.
    Or(Box<Formula>, Box<Formula>),
    /// Exclusive disjunction.
    Xor(Box<Formula>, Box<Formula>),
    /// Implication.
    Imply(Box<Formula>, Box<Formula>),
    /// Biconditional.
    Iff(Box<Formula>, Box<Formula>),
}

impl Formula {
    /// The arity of the formula: the least number of atomics it can be
    /// evaluated against, i.e. one past the highest atomic position it reads.
    pub open spec fn arity_spec(self) -> nat
        decreases self,
    {
        match self {
            Formula::Atom(i) => i as nat + 1,
            Formula::Const(_) => 0,
            Formula::Not(f) => f.arity_spec(),
            Formula::And(f, g) => vstd::math::max(f.arity_spec() as int, g.arity_spec() as int) as nat,
            Formula::Or(f, g) => vstd::math::max(f.arity_spec() as int, g.arity_spec() as int) as nat,
            Formula::Xor(f, g) => vstd::math::max(f.arity_spec() as int, g.arity_spec() as int) as nat,
            Formula::Imply(f, g) => vstd::math::max(f.arity_spec() as int, g.arity_spec() as int) as nat,
            Formula::Iff(f, g) => vstd::math::max(f.arity_spec() as int, g.arity_spec() as int) as nat,
        }
    }

    /// The truth value of the formula under the assignment `a`, where `a[i]`
    /// is the value of the atomic at position `i`.
    pub open spec fn eval_spec(self, a: Seq<bool>) -> bool
        decreases self,
    {
        match self {
            Formula::Atom(i) => a[i as int],
            Formula::Const(b) => b,
            Formula::Not(f) => !f.eval_spec(a),
            Formula::And(f, g) => f.eval_spec(a) && g.eval_spec(a),
            Formula::Or(f, g) => f.eval_spec(a) || g.eval_spec(a),
            Formula::Xor(f, g) => f.eval_spec(a) != g.eval_spec(a),
            Formula::Imply(f, g) => !f.eval_spec(a) || g.eval_spec(a),
            Formula::Iff(f, g) => f.eval_spec(a) == g.eval_spec(a),
        }
    }

    /// Whether the formula can be evaluated against `n` atomics: every
    /// atomic position it reads lies below `n`.
    pub fn fits(&self, n: usize) -> (r: bool)
        ensures
            r == (self.arity_spec() <= n),
        decreases *self,
    {
        match self {
            Formula::Atom(i) => *i < n,
            Formula::Const(_) => true,
            Formula::Not(f) => f.fits(n),
            Formula::And(f, g) => f.fits(n) && g.fits(n),
            Formula::Or(f, g) => f.fits(n) && g.fits(n),
            Formula::Xor(f, g) => f.fits(n) && g.fits(n),
            Formula::Imply(f, g) => f.fits(n) && g.fits(n),
            Formula::Iff(f, g) => f.fits(n) && g.fits(n),
        }
    }

    /// Evaluate the formula under the assignment `a`, one boolean per
    /// atomic, in declared order.
    pub fn eval(&self, a: &Vec<bool>) -> (r: bool)
        requires
            self.arity_spec() <= a@.len(),
        ensures
            r == self.eval_spec(a@),
        decreases *self,
    {
        match self {
            Formula::Atom(i) => a[*i],
            Formula::Const(b) => *b,
            Formula::Not(f) => !f.eval(a),
            Formula::And(f, g) => f.eval(a) && g.eval(a),
            Formula::Or(f, g) => f.eval(a) || g.eval(a),
            Formula::Xor(f, g) => f.eval(a) != g.eval(a),
            Formula::Imply(f, g) => !f.eval(a) || g.eval(a),
            Formula::Iff(f, g) => f.eval(a) == g.eval(a),
        }
    }
}

/// A truth table: a header of column names followed by one row of boolean
/// cells per assignment vector.
#[derive(Debug, PartialEq, Eq)]
pub struct Table {
    /// The atomic names followed by the proposition names, in declared order.
    pub header: Vec<String>,
    /// One row per assignment vector, in enumeration order: the assignment
    /// values followed by each proposition's result.
    pub rows: Vec<Vec<bool>>,
}

/// Why a call to [`build`] rejected its input. Each variant identifies the
/// offender; no table rows are produced on any of them.
#[derive(Debug, PartialEq, Eq)]
pub enum BuildError {
    /// The atomic name at this position is the empty string.
    EmptyAtomName(usize),
    /// The atomic name at this position repeats an earlier one.
    DuplicateAtomName(usize),
    /// The named proposition reads an atomic position past the declared
    /// atomic count.
    ArityMismatch(String),
}

/// Every atomic name is non-empty and no two are equal.
pub open spec fn atomic_names_wf(atomics: Seq<String>) -> bool {
    &&& forall|i: int| 0 <= i < atomics.len() ==> (#[trigger] atomics[i])@.len() > 0
    &&& forall|i: int, j: int|
        0 <= i < j < atomics.len() ==> (#[trigger] atomics[i])@ != (#[trigger] atomics[j])@
}

/// Every proposition can be evaluated against `n` atomics.
pub open spec fn arities_fit(n: nat, props: Seq<(String, Formula)>) -> bool {
    forall|i: int| 0 <= i < props.len() ==> (#[trigger] props[i]).1.arity_spec() <= n
}

/// The header that `build` produces: the atomic names followed by the
/// proposition names, in declared order.
pub open spec fn header_of(atomics: Seq<String>, props: Seq<(String, Formula)>) -> Seq<String> {
    atomics + props.map_values(|p: (String, Formula)| p.0)
}

/// Row `k` of the table that `build` produces: the assignment vector of row
/// `k` followed by each proposition's value under that assignment, in
/// declared order.
pub open spec fn row_of(n: nat, props: Seq<(String, Formula)>, k: nat) -> Seq<bool> {
    assignment_at(n, k) + props.map_values(|p: (String, Formula)| p.1.eval_spec(assignment_at(n, k)))
}

/// `t` is the truth table for the given atomics and propositions: the
/// header holds the declared names in order, there is exactly one row per
/// assignment vector, in enumeration order, and every row holds the
/// assignment values followed by the evaluated proposition results.
pub open spec fn table_for(t: Table, atomics: Seq<String>, props: Seq<(String, Formula)>) -> bool {
    &&& t.header@ == header_of(atomics, props)
    &&& t.rows@.len() == pow2(atomics.len())
    &&& forall|k: int|
        0 <= k < t.rows@.len() ==> (#[trigger] t.rows@[k])@ == row_of(atomics.len(), props, k as nat)
}

/// What each [`BuildError`] variant says of the input it was returned for.
/// The position or name it carries is the first offender, in the order the
/// checks run: empty atomic names first, then duplicate atomic names, then
/// proposition arities in declared order.
pub open spec fn error_for(e: BuildError, atomics: Seq<String>, props: Seq<(String, Formula)>) -> bool {
    match e {
        BuildError::EmptyAtomName(i) => {
            &&& 0 <= i < atomics.len()
            &&& atomics[i as int]@.len() == 0
            &&& forall|t: int| 0 <= t < i ==> (#[trigger] atomics[t])@.len() > 0
        },
        BuildError::DuplicateAtomName(j) => {
            &&& 0 <= j < atomics.len()
            &&& (exists|i: int| 0 <= i < j && (#[trigger] atomics[i])@ == atomics[j as int]@)
            &&& forall|i: int, t: int|
                0 <= i < t < j ==> (#[trigger] atomics[i])@ != (#[trigger] atomics[t])@
            &&& forall|t: int| 0 <= t < atomics.len() ==> (#[trigger] atomics[t])@.len() > 0
        },
        BuildError::ArityMismatch(name) => {
            &&& atomic_names_wf(atomics)
            &&& exists|i: int|
                {
                    &&& 0 <= i < props.len()
                    &&& (#[trigger] props[i]).0 == name
                    &&& props[i].1.arity_spec() > atomics.len()
                    &&& forall|t: int| 0 <= t < i ==> (#[trigger] props[t]).1.arity_spec() <= atomics.len()
                }
        },
    }
}

/// Building a table is deterministic: two tables built for the same atomics
/// and propositions hold identical contents — the same header and the same
/// rows, cell for cell. There is no hidden state.
pub proof fn lemma_build_deterministic(
    t1: Table,
    t2: Table,
    atomics: Seq<String>,
    props: Seq<(String, Formula)>,
)
    requires
        table_for(t1, atomics, props),
        table_for(t2, atomics, props),
    ensures
        t1.header@ == t2.header@,
        t1.rows@.len() == t2.rows@.len(),
        forall|k: int| 0 <= k < t1.rows@.len() ==> (#[trigger] t1.rows@[k])@ == t2.rows@[k]@,
{
}

/// A table built with zero propositions still has one row per assignment:
/// its header holds exactly the `n` atomic names and every row holds
/// exactly the `n` assignment values.
pub proof fn lemma_table_without_props(t: Table, atomics: Seq<String>)
    requires
        table_for(t, atomics, Seq::empty()),
    ensures
        t.header@ == atomics,
        t.rows@.len() == pow2(atomics.len()),
        forall|k: int| 0 <= k < t.rows@.len() ==> (#[trigger] t.rows@[k])@.len() == atomics.len(),
{
    assert(header_of(atomics, Seq::empty()) =~= atomics);
    assert forall|k: int| 0 <= k < t.rows@.len() implies (#[trigger] t.rows@[k])@.len()
        == atomics.len() by {
        assert(t.rows@[k]@ == row_of(atomics.len(), Seq::empty(), k as nat));
    }
}

/// Double negation is the identity: `not(not(f))` evaluates as `f` does,
/// under every assignment.
pub proof fn lemma_double_negation(f: Box<Formula>, g: Box<Formula>, a: Seq<bool>)
    requires
        *g == Formula::Not(f),
    ensures
        Formula::Not(g).eval_spec(a) == f.eval_spec(a),
{
    assert(Formula::Not(g).eval_spec(a) == !g.eval_spec(a));
    assert(g.eval_spec(a) == Formula::Not(f).eval_spec(a));
    assert(Formula::Not(f).eval_spec(a) == !f.eval_spec(a));
}

/// Build the truth table for the declared atomics and propositions.
///
/// On success the table holds the header `atomics ++ proposition names` and
/// exactly `2^n` rows, row `k` being assignment vector `k` (the big-endian
/// binary digits of `2^n - 1 - k`) followed by each proposition's value
/// under it. The call fails — before producing any table rows — exactly
/// when some atomic name is empty, two atomic names are equal, or some
/// proposition reads an atomic position past the declared count; the error
/// identifies the first such offender.
pub fn build(atomics: &Vec<String>, props: &Vec<(String, Formula)>) -> (r: Result<Table, BuildError>)
    requires
        pow2(atomics@.len()) <= usize::MAX,
    ensures
        r is Ok <==> atomic_names_wf(atomics@) && arities_fit(atomics@.len(), props@),
        r matches Ok(t) ==> table_for(t, atomics@, props@),
        r matches Err(e) ==> error_for(e, atomics@, props@),
{
    let n = atomics.len();

    let mut i: usize = 0;
    while i < n
        invariant
            i <= n,
            n == atomics@.len(),
            forall|t: int| 0 <= t < i ==> (#[trigger] atomics@[t])@.len() > 0,
        decreases n - i,
    {
        if atomics[i].as_str().is_empty() {
            return Err(BuildError::EmptyAtomName(i));
        }
        i = i + 1;
    }

    let mut j: usize = 0;
    while j < n
        invariant
            j <= n,
            n == atomics@.len(),
            forall|t: int| 0 <= t < n ==> (#[trigger] atomics@[t])@.len() > 0,
            forall|a: int, b: int| 0 <= a < b < j ==> (#[trigger] atomics@[a])@ != (#[trigger] atomics@[b])@,
        decreases n - j,
    {
        let mut i2: usize = 0;
        while i2 < j
            invariant
                i2 <= j,
                j < n,
                n == atomics@.len(),
                forall|t: int| 0 <= t < n ==> (#[trigger] atomics@[t])@.len() > 0,
                forall|a: int, b: int|
                    0 <= a < b < j ==> (#[trigger] atomics@[a])@ != (#[trigger] atomics@[b])@,
                forall|t: int| 0 <= t < i2 ==> (#[trigger] atomics@[t])@ != atomics@[j as int]@,
            decreases j - i2,
        {
            if atomics[i2] == atomics[j] {
                return Err(BuildError::DuplicateAtomName(j));
            }
            i2 = i2 + 1;
        }
        j = j + 1;
    }

    let mut pi: usize = 0;
    while pi < props.len()
        invariant
            pi <= props@.len(),
            n == atomics@.len(),
            atomic_names_wf(atomics@),
            forall|t: int| 0 <= t < pi ==> (#[trigger] props@[t]).1.arity_spec() <= n,
        decreases props@.len() - pi,
    {
        let p = &props[pi];
        if !p.1.fits(n) {
            return Err(BuildError::ArityMismatch(p.0.clone()));
        }
        pi = pi + 1;
    }

    let mut header: Vec<String> = Vec::new();
    let mut hi: usize = 0;
    while hi < n
        invariant
            hi <= n,
            n == atomics@.len(),
            header@ =~= atomics@.take(hi as int),
        decreases n - hi,
    {
        header.push(atomics[hi].clone());
        hi = hi + 1;
    }
    let mut hp: usize = 0;
    while hp < props.len()
        invariant
            hp <= props@.len(),
            n == atomics@.len(),
            header@ =~= atomics@ + props@.take(hp as int).map_values(|p: (String, Formula)| p.0),
        decreases props@.len() - hp,
    {
        header.push(props[hp].0.clone());
        proof {
            assert(props@.take(hp + 1).map_values(|p: (String, Formula)| p.0) =~= props@.take(
                hp as int,
            ).map_values(|p: (String, Formula)| p.0).push(props@[hp as int].0));
        }
        hp = hp + 1;
    }
    proof {
        assert(props@.take(props@.len() as int) =~= props@);
        assert(header@ =~= header_of(atomics@, props@));
    }

    let assignments = possible_truth_values(n);
    let mut rows: Vec<Vec<bool>> = Vec::new();
    let mut k: usize = 0;
    while k < assignments.len()
        invariant
            k <= assignments@.len(),
            n == atomics@.len(),
            assignments@.len() == pow2(n as nat),
            forall|t: int|
                0 <= t < assignments@.len() ==> (#[trigger] assignments@[t])@ == assignment_at(
                    n as nat,
                    t as nat,
                ),
            arities_fit(n as nat, props@),
            rows@.len() == k,
            forall|t: int| 0 <= t < k ==> (#[trigger] rows@[t])@ == row_of(n as nat, props@, t as nat),
        decreases assignments@.len() - k,
    {
        let a = &assignments[k];
        let mut row: Vec<bool> = Vec::new();
        let mut ci: usize = 0;
        while ci < a.len()
            invariant
                ci <= a@.len(),
                row@ =~= a@.take(ci as int),
            decreases a@.len() - ci,
        {
            row.push(a[ci]);
            ci = ci + 1;
        }
        proof {
            assert(a@.take(a@.len() as int) =~= a@);
        }
        let mut pj: usize = 0;
        while pj < props.len()
            invariant
                pj <= props@.len(),
                n == atomics@.len(),
                k < assignments@.len(),
                a == &assignments@[k as int],
                a@ == assignment_at(n as nat, k as nat),
                arities_fit(n as nat, props@),
                row@ =~= a@ + props@.take(pj as int).map_values(
                    |p: (String, Formula)| p.1.eval_spec(a@),
                ),
            decreases props@.len() - pj,
        {
            let p = &props[pj];
            row.push(p.1.eval(a));
            proof {
                assert(props@.take(pj + 1).map_values(|p: (String, Formula)| p.1.eval_spec(a@))
                    =~= props@.take(pj as int).map_values(
                    |p: (String, Formula)| p.1.eval_spec(a@),
                ).push(props@[pj as int].1.eval_spec(a@)));
            }
            pj = pj + 1;
        }
        proof {
            assert(props@.take(props@.len() as int) =~= props@);
            assert(row@ =~= row_of(n as nat, props@, k as nat));
        }
        rows.push(row);
        k = k + 1;
    }

    Ok(Table { header, rows })
}

} // verus!
