//! Conditions, the selection mask, and the query over them.

use crate::value::DataType;
use crate::value::wild_eq;
use vstd::prelude::*;

verus! {

/// The operand of a comparison: a constant cell, or a reference to another
/// column of the row under test.
#[derive(Debug)]
pub enum Operand {
    Const(DataType),
    Column(usize),
}

impl Clone for Operand {
    fn clone(&self) -> (res: Self)
        ensures
            res == *self,
    {
        match self {
            Operand::Const(v) => Operand::Const(v.clone()),
            Operand::Column(i) => Operand::Column(*i),
        }
    }
}

/// The comparison a condition performs against its operand.
#[derive(Debug)]
pub enum Comparison {
    Equal(Operand),
}

impl Clone for Comparison {
    fn clone(&self) -> (res: Self)
        ensures
            res == *self,
    {
        match self {
            Comparison::Equal(op) => Comparison::Equal(op.clone()),
        }
    }
}

/// A single column-scoped condition: the row cell at `column` is compared
/// against the operand of `cmp`.
#[derive(Debug)]
pub struct Condition {
    pub column: usize,
    pub cmp: Comparison,
}

impl Clone for Condition {
    fn clone(&self) -> (res: Self)
        ensures
            res == *self,
    {
        Condition { column: self.column, cmp: self.cmp.clone() }
    }
}

/// The cell an operand denotes for a given row: a constant denotes itself, a
/// column reference denotes that cell of the row.
pub open spec fn operand_value(op: Operand, row: Seq<DataType>) -> DataType {
    match op {
        Operand::Const(v) => v,
        Operand::Column(i) => row[i as int],
    }
}

/// Whether every column index a condition mentions lies within a row of `n`
/// columns. An out-of-range index is a contract violation by the caller.
pub open spec fn cond_in_bounds(c: Condition, n: int) -> bool {
    &&& c.column < n
    &&& match c.cmp {
        Comparison::Equal(op) => match op {
            Operand::Const(_) => true,
            Operand::Column(i) => i < n,
        },
    }
}

/// Whether a condition holds of a row: the cell at `c.column` compares
/// equal, under wildcard equality, to the operand's cell.
pub open spec fn cond_matches(c: Condition, row: Seq<DataType>) -> bool {
    match c.cmp {
        Comparison::Equal(op) => wild_eq(row[c.column as int], operand_value(op, row)),
    }
}

/// Relies on `shortcut::Condition::matches`: the row cell at `column` is
/// compared for equality — `DataType`'s wildcard equality — against the
/// operand's cell: the constant itself, or the row cell a column reference
/// names. Both indices must be in range, as `matches` indexes the row.
#[verifier::external_body]
fn shortcut_matches(c: &Condition, row: &[DataType]) -> (r: bool)
    requires
        cond_in_bounds(*c, row@.len() as int),
    ensures
        r == cond_matches(*c, row@),
{
    let cmp = match &c.cmp {
        Comparison::Equal(Operand::Const(v)) => shortcut::Comparison::Equal(
            shortcut::Value::new(v.clone()),
        ),
        Comparison::Equal(Operand::Column(i)) => shortcut::Comparison::Equal(
            shortcut::Value::Column(*i),
        ),
    };
    shortcut::Condition { column: c.column, cmp }.matches(row)
}

impl Condition {
    /// Evaluates this condition against a row, through the external
    /// condition-matching capability.
    pub fn matches(&self, r: &[DataType]) -> (res: bool)
        requires
            cond_in_bounds(*self, r@.len() as int),
        ensures
            res == cond_matches(*self, r@),
    {
        shortcut_matches(self, r)
    }
}

/// Whether a condition is an unbound placeholder: an equality against the
/// constant `Wild` cell.
pub open spec fn is_placeholder(c: Condition) -> bool {
    match c.cmp {
        Comparison::Equal(op) => match op {
            Operand::Const(v) => v is Wild,
            Operand::Column(_) => false,
        },
    }
}

/// The number of placeholders among the first `i` conditions.
pub open spec fn placeholders_before(cs: Seq<Condition>, i: int) -> nat
    decreases i,
{
    if i <= 0 {
        0nat
    } else {
        placeholders_before(cs, i - 1) + (if is_placeholder(cs[i - 1]) {
            1nat
        } else {
            0nat
        })
    }
}

/// The number of placeholders among all the conditions of a list.
pub open spec fn placeholders(cs: Seq<Condition>) -> nat {
    placeholders_before(cs, cs.len() as int)
}

/// What a condition becomes when parameters are bound: a placeholder of
/// rank `k` takes the parameter at position `k`, anything else is untouched.
pub open spec fn filled_cond(c: Condition, params: Seq<Operand>, k: int) -> Condition {
    if is_placeholder(c) {
        Condition { column: c.column, cmp: Comparison::Equal(params[k]) }
    } else {
        c
    }
}

proof fn lemma_placeholders_before_le(cs: Seq<Condition>, i: int, j: int)
    requires
        0 <= i <= j,
    ensures
        placeholders_before(cs, i) <= placeholders_before(cs, j),
    decreases j - i,
{
    if i < j {
        lemma_placeholders_before_le(cs, i, j - 1);
    }
}

/// The number of `true` entries of a mask.
pub open spec fn count_true(s: Seq<bool>) -> nat
    decreases s.len(),
{
    if s.len() == 0 {
        0nat
    } else {
        (if s[0] {
            1nat
        } else {
            0nat
        }) + count_true(s.drop_first())
    }
}

/// The projection of a row by a mask: the cells at the `true` positions, in
/// their original order.
pub open spec fn project_spec(mask: Seq<bool>, row: Seq<DataType>) -> Seq<DataType>
    decreases mask.len(),
{
    if mask.len() == 0 {
        Seq::empty()
    } else {
        let rest = project_spec(mask.drop_first(), row.drop_first());
        if mask[0] {
            seq![row[0]] + rest
        } else {
            rest
        }
    }
}

/// The positions a mask selects, in increasing order.
pub open spec fn selected_indices(mask: Seq<bool>) -> Seq<int>
    decreases mask.len(),
{
    if mask.len() == 0 {
        Seq::empty()
    } else {
        let rest = selected_indices(mask.drop_first()).map_values(|j: int| j + 1);
        if mask[0] {
            seq![0int] + rest
        } else {
            rest
        }
    }
}

/// The projection of a row has exactly one cell per `true` entry of the mask.
pub proof fn lemma_project_len(mask: Seq<bool>, row: Seq<DataType>)
    requires
        row.len() == mask.len(),
    ensures
        project_spec(mask, row).len() == count_true(mask),
    decreases mask.len(),
{
    if mask.len() > 0 {
        lemma_project_len(mask.drop_first(), row.drop_first());
    }
}

/// Projection keeps the input order: the selected positions form a strictly
/// increasing sequence, and the `k`-th projected cell is the row's cell at
/// the `k`-th selected position.
pub proof fn lemma_project_order(mask: Seq<bool>, row: Seq<DataType>)
    requires
        row.len() == mask.len(),
    ensures
        selected_indices(mask).len() == count_true(mask),
        forall|k: int|
            0 <= k < selected_indices(mask).len() ==> 0 <= #[trigger] selected_indices(mask)[k]
                < mask.len() && mask[selected_indices(mask)[k]],
        forall|k1: int, k2: int|
            0 <= k1 < k2 < selected_indices(mask).len() ==> #[trigger] selected_indices(
                mask,
            )[k1] < #[trigger] selected_indices(mask)[k2],
        forall|k: int|
            0 <= k < selected_indices(mask).len() ==> #[trigger] project_spec(mask, row)[k]
                == row[selected_indices(mask)[k]],
    decreases mask.len(),
{
    if mask.len() > 0 {
        let m0 = mask.drop_first();
        let r0 = row.drop_first();
        lemma_project_order(m0, r0);
        lemma_project_len(m0, r0);
        let rest = selected_indices(m0).map_values(|j: int| j + 1);
        assert forall|k: int| 0 <= k < rest.len() implies 0 <= #[trigger] rest[k] < mask.len()
            && mask[rest[k]] && (if mask[0] {
            project_spec(mask, row)[k + 1]
        } else {
            project_spec(mask, row)[k]
        }) == row[rest[k]] by {
            assert(rest[k] == selected_indices(m0)[k] + 1);
            assert(m0[selected_indices(m0)[k]] == mask[rest[k]]);
            assert(project_spec(m0, r0)[k] == r0[selected_indices(m0)[k]]);
            assert(r0[selected_indices(m0)[k]] == row[rest[k]]);
        }
    }
}

/// A query: a column-selection mask, the cached number of selected columns,
/// and an ordered list of conjoined conditions.
///
/// A query is built once, and is immutable but for [`Query::fill`], which
/// binds placeholder conditions in place — from a templated query to a bound
/// one, never back. `feed` and `project` may be used in either state.
#[derive(Clone, Debug)]
pub struct Query {
    pub select: Vec<bool>,
    pub selects: usize,
    pub having: Vec<Condition>,
}

impl Query {
    /// The cached selection count agrees with the mask.
    pub open spec fn wf(self) -> bool {
        self.selects == count_true(self.select@)
    }

    /// Whether every condition of the query holds of `row`; with no
    /// conditions at all, every row matches.
    pub open spec fn matches_row(self, row: Seq<DataType>) -> bool {
        forall|i: int| 0 <= i < self.having@.len() ==> cond_matches(#[trigger] self.having@[i], row)
    }

    /// Whether every condition's column indices lie within a row of `n`
    /// columns.
    pub open spec fn conds_in_bounds(self, n: int) -> bool {
        forall|i: int| 0 <= i < self.having@.len() ==> cond_in_bounds(#[trigger] self.having@[i], n)
    }

    /// Builds a query from a selection mask and a condition list. The cached
    /// selection count is the number of `true` entries of the mask.
    pub fn new(s: &[bool], h: Vec<Condition>) -> (q: Query)
        ensures
            q.select@ == s@,
            q.having@ == h@,
            q.selects == count_true(s@),
            q.wf(),
    {
        let mut selects: usize = 0;
        let mut i: usize = 0;
        proof {
            assert(s@.skip(0) =~= s@);
        }
        while i < s.len()
            invariant
                i <= s@.len(),
                selects <= i,
                count_true(s@) == selects + count_true(s@.skip(i as int)),
            decreases s@.len() - i,
        {
            proof {
                assert(s@.skip(i as int).drop_first() =~= s@.skip(i as int + 1));
                assert(s@.skip(i as int)[0] == s@[i as int]);
            }
            if s[i] {
                selects = selects + 1;
            }
            i = i + 1;
        }
        proof {
            assert(s@.skip(s@.len() as int) =~= Seq::<bool>::empty());
        }
        Query { select: vstd::slice::slice_to_vec(s), selects, having: h }
    }

    /// Projects a row: keeps, in their original order, exactly the cells at
    /// the positions the mask marks `true`. The row must have one cell per
    /// mask entry; a shorter or longer row is a contract violation by the
    /// caller.
    pub fn project(&self, r: &[DataType]) -> (out: Vec<DataType>)
        requires
            self.wf(),
            r@.len() == self.select@.len(),
        ensures
            out@ == project_spec(self.select@, r@),
            out@.len() == self.selects,
    {
        let mut out: Vec<DataType> = Vec::new();
        let mut i: usize = 0;
        proof {
            assert(self.select@.skip(0) =~= self.select@);
            assert(r@.skip(0) =~= r@);
            assert(out@ + project_spec(self.select@, r@) =~= project_spec(self.select@, r@));
        }
        while i < r.len()
            invariant
                i <= r@.len(),
                r@.len() == self.select@.len(),
                project_spec(self.select@, r@) == out@ + project_spec(
                    self.select@.skip(i as int),
                    r@.skip(i as int),
                ),
            decreases r@.len() - i,
        {
            proof {
                assert(self.select@.skip(i as int).drop_first() =~= self.select@.skip(
                    i as int + 1,
                ));
                assert(r@.skip(i as int).drop_first() =~= r@.skip(i as int + 1));
                assert(self.select@.skip(i as int)[0] == self.select@[i as int]);
                assert(r@.skip(i as int)[0] == r@[i as int]);
            }
            if self.select[i] {
                out.push(r[i].clone());
                proof {
                    assert(out@ + project_spec(
                        self.select@.skip(i as int + 1),
                        r@.skip(i as int + 1),
                    ) =~= (out@.drop_last() + seq![r@[i as int]]) + project_spec(
                        self.select@.skip(i as int + 1),
                        r@.skip(i as int + 1),
                    ));
                }
            }
            i = i + 1;
        }
        proof {
            assert(self.select@.skip(self.select@.len() as int) =~= Seq::<bool>::empty());
            assert(out@ =~= out@ + Seq::<DataType>::empty());
            lemma_project_len(self.select@, r@);
        }
        out
    }

    /// Tests a row against every condition, conjunctively. On a match —
    /// every condition holds, trivially so when there are none — returns the
    /// projected row; otherwise returns `None`, the normal "filtered out"
    /// outcome, not an error.
    pub fn feed(&self, r: &[DataType]) -> (res: Option<Vec<DataType>>)
        requires
            self.wf(),
            self.conds_in_bounds(r@.len() as int),
            self.matches_row(r@) ==> r@.len() == self.select@.len(),
        ensures
            res is Some <==> self.matches_row(r@),
            res matches Some(v) ==> v@ == project_spec(self.select@, r@) && v@.len()
                == self.selects,
    {
        let mut i: usize = 0;
        while i < self.having.len()
            invariant
                i <= self.having@.len(),
                self.wf(),
                self.matches_row(r@) ==> r@.len() == self.select@.len(),
                self.conds_in_bounds(r@.len() as int),
                forall|j: int| 0 <= j < i ==> cond_matches(#[trigger] self.having@[j], r@),
            decreases self.having@.len() - i,
        {
            if !self.having[i].matches(r) {
                return None;
            }
            i = i + 1;
        }
        Some(self.project(r))
    }

    /// The number of still-unbound placeholders among the conditions: how
    /// many parameters `fill` consumes.
    pub fn parameters_needed(&self) -> (n: usize)
        ensures
            n == placeholders(self.having@),
    {
        let mut n: usize = 0;
        let mut i: usize = 0;
        while i < self.having.len()
            invariant
                i <= self.having@.len(),
                n <= i,
                n == placeholders_before(self.having@, i as int),
            decreases self.having@.len() - i,
        {
            let ph = match &self.having[i].cmp {
                Comparison::Equal(Operand::Const(v)) => v.is_none(),
                Comparison::Equal(Operand::Column(_)) => false,
            };
            if ph {
                n = n + 1;
            }
            i = i + 1;
        }
        n
    }

    /// Binds parameters into the still-unbound placeholders, scanning the
    /// conditions in stored order: the `n`-th placeholder found takes the
    /// `n`-th parameter. Conditions of any other shape are untouched, and
    /// parameters beyond the last placeholder are dropped. Supplying fewer
    /// parameters than there are placeholders is a contract violation by
    /// the caller, not a recoverable error.
    ///
    /// A placeholder left unbound is not inert: its `Wild` constant compares
    /// equal to every cell, so the condition lets every row through.
    pub fn fill(&mut self, p: Vec<Operand>)
        requires
            p@.len() >= placeholders(old(self).having@),
        ensures
            final(self).select == old(self).select,
            final(self).selects == old(self).selects,
            final(self).having@.len() == old(self).having@.len(),
            forall|i: int|
                0 <= i < old(self).having@.len() ==> #[trigger] final(self).having@[i]
                    == filled_cond(
                    old(self).having@[i],
                    p@,
                    placeholders_before(old(self).having@, i) as int,
                ),
    {
        let mut next: usize = 0;
        let mut i: usize = 0;
        while i < self.having.len()
            invariant
                i <= self.having@.len(),
                self.having@.len() == old(self).having@.len(),
                self.select == old(self).select,
                self.selects == old(self).selects,
                p@.len() >= placeholders(old(self).having@),
                next <= i,
                next == placeholders_before(old(self).having@, i as int),
                forall|j: int|
                    i <= j < self.having@.len() ==> #[trigger] self.having@[j] == old(
                        self,
                    ).having@[j],
                forall|j: int|
                    0 <= j < i ==> #[trigger] self.having@[j] == filled_cond(
                        old(self).having@[j],
                        p@,
                        placeholders_before(old(self).having@, j) as int,
                    ),
            decreases self.having@.len() - i,
        {
            let col: usize = self.having[i].column;
            let ph = match &self.having[i].cmp {
                Comparison::Equal(Operand::Const(v)) => v.is_none(),
                Comparison::Equal(Operand::Column(_)) => false,
            };
            if ph {
                proof {
                    lemma_placeholders_before_le(
                        old(self).having@,
                        i as int + 1,
                        old(self).having@.len() as int,
                    );
                    assert(is_placeholder(old(self).having@[i as int]));
                    assert(next + 1 == placeholders_before(old(self).having@, i as int + 1));
                    assert(next + 1 <= p@.len());
                }
                let op = p[next].clone();
                self.having[i] = (Condition { column: col, cmp: Comparison::Equal(op) });
                next = next + 1;
            }
            i = i + 1;
        }
    }
}

/// A query without any condition matches every row.
pub proof fn lemma_empty_conditions_match(q: Query, row: Seq<DataType>)
    requires
        q.having@.len() == 0,
    ensures
        q.matches_row(row),
{
}

} // verus!
