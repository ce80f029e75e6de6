use vstd::prelude::*;

verus! {

/// A batch of rows flowing through the pipeline; each row is represented by one value.
#[derive(Debug, PartialEq, Eq)]
pub struct MicroPartition {
    pub rows: Vec<u64>,
}

impl View for MicroPartition {
    type V = Seq<u64>;

    open spec fn view(&self) -> Seq<u64> {
        self.rows@
    }
}

/// Concatenation of the rows of a sequence of partitions, in order.
pub open spec fn flatten(parts: Seq<Seq<u64>>) -> Seq<u64>
    decreases parts.len(),
{
    if parts.len() == 0 {
        Seq::empty()
    } else {
        flatten(parts.drop_last()) + parts.last()
    }
}

/// Total number of rows of a sequence of partitions.
pub open spec fn total_rows(parts: Seq<Seq<u64>>) -> nat
    decreases parts.len(),
{
    if parts.len() == 0 {
        0
    } else {
        total_rows(parts.drop_last()) + parts.last().len()
    }
}

/// The row sequences of a sequence of partitions.
pub open spec fn views_of(parts: Seq<MicroPartition>) -> Seq<Seq<u64>> {
    parts.map_values(|p: MicroPartition| p@)
}

pub proof fn lemma_total_rows_is_flatten_len(parts: Seq<Seq<u64>>)
    ensures
        total_rows(parts) == flatten(parts).len(),
    decreases parts.len(),
{
    if parts.len() > 0 {
        lemma_total_rows_is_flatten_len(parts.drop_last());
    }
}

pub proof fn lemma_flatten_push(parts: Seq<Seq<u64>>, p: Seq<u64>)
    ensures
        flatten(parts.push(p)) == flatten(parts) + p,
        total_rows(parts.push(p)) == total_rows(parts) + p.len(),
{
    assert(parts.push(p).drop_last() =~= parts);
}

/// Flattening distributes over concatenation.
pub proof fn lemma_flatten_append(a: Seq<Seq<u64>>, b: Seq<Seq<u64>>)
    ensures
        flatten(a + b) == flatten(a) + flatten(b),
    decreases b.len(),
{
    if b.len() == 0 {
        assert(a + b =~= a);
        assert(flatten(a) + flatten(b) =~= flatten(a));
    } else {
        lemma_flatten_append(a, b.drop_last());
        assert((a + b).drop_last() =~= a + b.drop_last());
        assert((a + b).last() == b.last());
        assert(flatten(a + b) =~= flatten(a) + flatten(b));
    }
}

proof fn lemma_flatten_remove(b: Seq<Seq<u64>>, j: int)
    requires
        0 <= j < b.len(),
    ensures
        flatten(b).to_multiset() == flatten(b.remove(j)).to_multiset().add(b[j].to_multiset()),
{
    broadcast use vstd::seq_lib::lemma_multiset_commutative;
    broadcast use vstd::multiset::group_multiset_axioms;

    let pre = b.take(j);
    let post = b.skip(j + 1);
    let x = b[j];
    assert(b =~= pre + seq![x] + post);
    assert(b.remove(j) =~= pre + post);
    lemma_flatten_append(pre + seq![x], post);
    lemma_flatten_append(pre, seq![x]);
    lemma_flatten_append(pre, post);
    assert(seq![x].drop_last() =~= Seq::<Seq<u64>>::empty());
    assert(flatten(Seq::<Seq<u64>>::empty()) =~= Seq::<u64>::empty());
    assert(flatten(seq![x]) =~= x);
    let fp = flatten(pre);
    let fq = flatten(post);
    assert(flatten(b) =~= fp + x + fq);
    assert(flatten(b.remove(j)) =~= fp + fq);
    assert((fp + x + fq).to_multiset() =~= fp.to_multiset().add(x.to_multiset()).add(
        fq.to_multiset(),
    ));
    assert((fp + fq).to_multiset() =~= fp.to_multiset().add(fq.to_multiset()));
}

/// Reordering whole batches does not change the multiset of rows they hold.
pub proof fn lemma_flatten_permutation(a: Seq<Seq<u64>>, b: Seq<Seq<u64>>)
    requires
        a.to_multiset() == b.to_multiset(),
    ensures
        flatten(a).to_multiset() == flatten(b).to_multiset(),
    decreases a.len(),
{
    broadcast use vstd::seq_lib::group_to_multiset_ensures;
    broadcast use vstd::seq_lib::lemma_multiset_commutative;
    broadcast use vstd::multiset::group_multiset_axioms;

    if a.len() == 0 {
        assert(b.to_multiset().len() == 0);
        assert(b =~= Seq::<Seq<u64>>::empty());
    } else {
        let x = a.last();
        let a1 = a.drop_last();
        assert(a =~= a1.push(x));
        assert(a.to_multiset() == a1.to_multiset().insert(x));
        assert(b.to_multiset().count(x) > 0);
        assert(b.contains(x));
        let j = choose|j: int| 0 <= j < b.len() && b[j] == x;
        let b1 = b.remove(j);
        assert(b1.to_multiset() == b.to_multiset().remove(x));
        assert(b1.to_multiset() =~= a1.to_multiset());
        lemma_flatten_permutation(a1, b1);
        lemma_flatten_remove(b, j);
        lemma_flatten_push(a1, x);
        assert(flatten(a) == flatten(a1) + x);
    }
}

impl MicroPartition {
    pub fn new(rows: Vec<u64>) -> (r: MicroPartition)
        ensures
            r@ == rows@,
    {
        MicroPartition { rows }
    }

    pub fn empty() -> (r: MicroPartition)
        ensures
            r@ == Seq::<u64>::empty(),
    {
        MicroPartition { rows: Vec::new() }
    }

    pub fn len(&self) -> (r: usize)
        ensures
            r == self@.len(),
    {
        self.rows.len()
    }

    pub fn is_empty(&self) -> (r: bool)
        ensures
            r == (self@.len() == 0),
    {
        self.rows.len() == 0
    }

    /// A partition holding the same rows.
    pub fn duplicate(&self) -> (r: MicroPartition)
        ensures
            r@ == self@,
    {
        let mut rows: Vec<u64> = Vec::with_capacity(self.rows.len());
        let mut i: usize = 0;
        while i < self.rows.len()
            invariant
                i <= self.rows.len(),
                rows@ == self.rows@.subrange(0, i as int),
            decreases self.rows.len() - i,
        {
            rows.push(self.rows[i]);
            i += 1;
            assert(rows@ =~= self.rows@.subrange(0, i as int));
        }
        assert(rows@ =~= self.rows@);
        MicroPartition { rows }
    }

    /// The first `n` rows, or all of them when there are fewer.
    pub fn head(&self, n: usize) -> (r: MicroPartition)
        ensures
            r@ == self@.take(if n < self@.len() { n as int } else { self@.len() as int }),
    {
        let end: usize = if n < self.rows.len() { n } else { self.rows.len() };
        let mut rows: Vec<u64> = Vec::with_capacity(end);
        let mut i: usize = 0;
        while i < end
            invariant
                end <= self.rows.len(),
                i <= end,
                rows@ == self.rows@.subrange(0, i as int),
            decreases end - i,
        {
            rows.push(self.rows[i]);
            i += 1;
            assert(rows@ =~= self.rows@.subrange(0, i as int));
        }
        assert(rows@ =~= self@.take(end as int));
        MicroPartition { rows }
    }
}

/// The value carried by a pipeline channel, as seen by contracts.
pub ghost enum EnvelopeModel {
    Data(Seq<u64>),
    ProbeTable(Seq<u64>, Seq<Seq<u64>>),
}

/// What travels between pipeline stages: ordinary data, or a materialized
/// build side that is delivered to every worker.
#[derive(Debug, PartialEq, Eq)]
pub enum PipelineResultType {
    Data(MicroPartition),
    ProbeTable(MicroPartition, Vec<MicroPartition>),
}

impl View for PipelineResultType {
    type V = EnvelopeModel;

    open spec fn view(&self) -> EnvelopeModel {
        match self {
            PipelineResultType::Data(p) => EnvelopeModel::Data(p@),
            PipelineResultType::ProbeTable(t, parts) => EnvelopeModel::ProbeTable(
                t@,
                views_of(parts@),
            ),
        }
    }
}

/// Row count of an envelope: the data rows, or the rows of all probe-side partitions.
pub open spec fn envelope_rows(e: EnvelopeModel) -> nat {
    match e {
        EnvelopeModel::Data(rows) => rows.len(),
        EnvelopeModel::ProbeTable(_, parts) => total_rows(parts),
    }
}

/// Whether an envelope is sent to every worker instead of one.
pub open spec fn is_broadcast(e: EnvelopeModel) -> bool {
    e is ProbeTable
}

/// The smaller of a row count and `u64::MAX`.
pub open spec fn clamp_u64(n: nat) -> u64 {
    if n <= u64::MAX {
        n as u64
    } else {
        u64::MAX
    }
}

fn duplicate_all(parts: &Vec<MicroPartition>) -> (r: Vec<MicroPartition>)
    ensures
        views_of(r@) == views_of(parts@),
{
    let mut out: Vec<MicroPartition> = Vec::with_capacity(parts.len());
    let mut i: usize = 0;
    while i < parts.len()
        invariant
            i <= parts.len(),
            out@.len() == i,
            forall|k: int| 0 <= k < i ==> (#[trigger] out@[k])@ == parts@[k]@,
        decreases parts.len() - i,
    {
        let p = parts[i].duplicate();
        out.push(p);
        i += 1;
    }
    assert(views_of(out@) =~= views_of(parts@));
    out
}

impl From<MicroPartition> for PipelineResultType {
    fn from(p: MicroPartition) -> (r: PipelineResultType)
        ensures
            r@ == EnvelopeModel::Data(p@),
    {
        PipelineResultType::Data(p)
    }
}

impl vstd::std_specs::convert::FromSpecImpl<MicroPartition> for PipelineResultType {
    open spec fn obeys_from_spec() -> bool {
        true
    }

    open spec fn from_spec(p: MicroPartition) -> PipelineResultType {
        PipelineResultType::Data(p)
    }
}

impl PipelineResultType {
    pub fn should_broadcast(&self) -> (r: bool)
        ensures
            r == is_broadcast(self@),
    {
        match self {
            PipelineResultType::Data(_) => false,
            PipelineResultType::ProbeTable(_, _) => true,
        }
    }

    /// The data partition of a data envelope.
    pub fn as_data(&self) -> (r: &MicroPartition)
        requires
            self@ is Data,
        ensures
            EnvelopeModel::Data(r@) == self@,
    {
        match self {
            PipelineResultType::Data(p) => p,
            PipelineResultType::ProbeTable(t, _) => t,
        }
    }

    /// A copy of the envelope holding the same rows.
    pub fn duplicate(&self) -> (r: PipelineResultType)
        ensures
            r@ == self@,
    {
        match self {
            PipelineResultType::Data(p) => PipelineResultType::Data(p.duplicate()),
            PipelineResultType::ProbeTable(t, parts) => PipelineResultType::ProbeTable(
                t.duplicate(),
                duplicate_all(parts),
            ),
        }
    }

    /// Number of rows carried, saturating at `u64::MAX`.
    pub fn num_rows(&self) -> (r: u64)
        ensures
            r == clamp_u64(envelope_rows(self@)),
    {
        match self {
            PipelineResultType::Data(p) => p.len() as u64,
            PipelineResultType::ProbeTable(_, parts) => {
                let mut sum: u64 = 0;
                let mut i: usize = 0;
                while i < parts.len()
                    invariant
                        i <= parts.len(),
                        sum == clamp_u64(total_rows(views_of(parts@.subrange(0, i as int)))),
                    decreases parts.len() - i,
                {
                    proof {
                        let pre = views_of(parts@.subrange(0, i as int));
                        assert(views_of(parts@.subrange(0, i + 1)) =~= pre.push(parts@[i as int]@));
                        lemma_flatten_push(pre, parts@[i as int]@);
                    }
                    sum = sum.saturating_add(parts[i].len() as u64);
                    i += 1;
                }
                assert(parts@.subrange(0, parts.len() as int) =~= parts@);
                sum
            },
        }
    }
}

} // verus!
