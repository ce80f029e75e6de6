use vstd::prelude::*;

verus! {

/// The decimal digit character for `d < 10`.
pub open spec fn digit_char(d: nat) -> char {
    if d == 0 {
        '0'
    } else if d == 1 {
        '1'
    } else if d == 2 {
        '2'
    } else if d == 3 {
        '3'
    } else if d == 4 {
        '4'
    } else if d == 5 {
        '5'
    } else if d == 6 {
        '6'
    } else if d == 7 {
        '7'
    } else if d == 8 {
        '8'
    } else {
        '9'
    }
}

/// The decimal representation of `n`, without leading zeros.
pub open spec fn decimal(n: nat) -> Seq<char>
    decreases n,
{
    if n < 10 {
        seq![digit_char(n)]
    } else {
        decimal(n / 10).push(digit_char(n % 10))
    }
}

fn digit_str(d: usize) -> (r: &'static str)
    requires
        d < 10,
    ensures
        r@ == seq![digit_char(d as nat)],
{
    proof {
        reveal_strlit("0");
        reveal_strlit("1");
        reveal_strlit("2");
        reveal_strlit("3");
        reveal_strlit("4");
        reveal_strlit("5");
        reveal_strlit("6");
        reveal_strlit("7");
        reveal_strlit("8");
        reveal_strlit("9");
    }
    if d == 0 {
        "0"
    } else if d == 1 {
        "1"
    } else if d == 2 {
        "2"
    } else if d == 3 {
        "3"
    } else if d == 4 {
        "4"
    } else if d == 5 {
        "5"
    } else if d == 6 {
        "6"
    } else if d == 7 {
        "7"
    } else if d == 8 {
        "8"
    } else {
        "9"
    }
}

/// Appends the decimal representation of `n` to `s`.
pub fn push_decimal(s: &mut String, n: usize)
    ensures
        final(s)@ == old(s)@ + decimal(n as nat),
    decreases n,
{
    if n < 10 {
        s.append(digit_str(n));
    } else {
        push_decimal(s, n / 10);
        s.append(digit_str(n % 10));
        assert(old(s)@ + decimal(n as nat) =~= old(s)@ + decimal((n / 10) as nat) + seq![
            digit_char((n % 10) as nat),
        ]);
    }
}

/// One task of a tabular scan, as far as the plan display reads it.
#[derive(Debug, PartialEq, Eq, Clone, Copy)]
pub struct ScanTask {
    /// Estimated number of bytes the task reads, when known.
    pub size_bytes: Option<usize>,
}

impl ScanTask {
    pub fn new(size_bytes: Option<usize>) -> (r: ScanTask)
        ensures
            r.size_bytes == size_bytes,
    {
        ScanTask { size_bytes }
    }

    pub fn size_bytes(&self) -> (r: Option<usize>)
        ensures
            r == self.size_bytes,
    {
        self.size_bytes
    }
}

/// How the output of a scan is partitioned, held as the lines that describe it.
#[derive(Debug, PartialEq, Eq)]
pub struct ClusteringSpec {
    pub lines: Vec<String>,
}

impl ClusteringSpec {
    pub fn new(lines: Vec<String>) -> (r: ClusteringSpec)
        ensures
            r.lines@ == lines@,
    {
        ClusteringSpec { lines }
    }
}

/// Estimated bytes of a list of scan tasks; unknown sizes count as zero.
pub open spec fn total_bytes(tasks: Seq<ScanTask>) -> nat
    decreases tasks.len(),
{
    if tasks.len() == 0 {
        0
    } else {
        total_bytes(tasks.drop_last()) + match tasks.last().size_bytes {
            Some(b) => b as nat,
            None => 0,
        }
    }
}

/// The items of `parts` separated by ", ".
pub open spec fn joined(parts: Seq<Seq<char>>) -> Seq<char>
    decreases parts.len(),
{
    if parts.len() == 0 {
        Seq::empty()
    } else if parts.len() == 1 {
        parts[0]
    } else {
        joined(parts.drop_last()) + ", "@ + parts.last()
    }
}

/// The physical plan node that reads a table through scan tasks.
#[derive(Debug, PartialEq, Eq)]
pub struct TabularScan {
    pub scan_tasks: Vec<ScanTask>,
    pub clustering_spec: ClusteringSpec,
}

impl TabularScan {
    pub fn new(scan_tasks: Vec<ScanTask>, clustering_spec: ClusteringSpec) -> (r: TabularScan)
        ensures
            r.scan_tasks@ == scan_tasks@,
            r.clustering_spec == clustering_spec,
    {
        TabularScan { scan_tasks, clustering_spec }
    }

    /// The node's description, one line per item: its name, the number of
    /// scan tasks, their estimated bytes and the clustering spec.
    pub fn multiline_display(&self) -> (r: Vec<String>)
        requires
            total_bytes(self.scan_tasks@) <= usize::MAX,
        ensures
            r@.len() == 4,
            r@[0]@ == "TabularScan:"@,
            r@[1]@ == "Num Scan Tasks = "@ + decimal(self.scan_tasks@.len()),
            r@[2]@ == "Estimated Scan Bytes = "@ + decimal(total_bytes(self.scan_tasks@)),
            r@[3]@ == "Clustering spec = { "@ + joined(
                self.clustering_spec.lines@.map_values(|l: String| l@),
            ) + " }"@,
    {
        let mut res: Vec<String> = Vec::new();
        res.push(String::from_str("TabularScan:"));
        let mut total: usize = 0;
        let mut i: usize = 0;
        while i < self.scan_tasks.len()
            invariant
                i <= self.scan_tasks@.len(),
                total_bytes(self.scan_tasks@) <= usize::MAX,
                total == total_bytes(self.scan_tasks@.take(i as int)),
            decreases self.scan_tasks.len() - i,
        {
            proof {
                assert(self.scan_tasks@.take(i + 1).drop_last() =~= self.scan_tasks@.take(i as int));
                lemma_total_bytes_prefix(self.scan_tasks@, i as int + 1);
            }
            match self.scan_tasks[i].size_bytes() {
                Some(b) => {
                    total = total + b;
                },
                None => {},
            }
            i += 1;
        }
        assert(self.scan_tasks@.take(i as int) =~= self.scan_tasks@);
        let mut line = String::from_str("Num Scan Tasks = ");
        push_decimal(&mut line, self.scan_tasks.len());
        res.push(line);
        let mut line = String::from_str("Estimated Scan Bytes = ");
        push_decimal(&mut line, total);
        res.push(line);
        let mut line = String::from_str("Clustering spec = { ");
        let lines = &self.clustering_spec.lines;
        let ghost views = lines@.map_values(|l: String| l@);
        let ghost head = line@;
        let mut k: usize = 0;
        while k < lines.len()
            invariant
                k <= lines@.len(),
                views == lines@.map_values(|l: String| l@),
                line@ == head + joined(views.take(k as int)),
            decreases lines.len() - k,
        {
            if k > 0 {
                line.append(", ");
            }
            line.append(lines[k].as_str());
            proof {
                let t = views.take(k + 1);
                assert(t.drop_last() =~= views.take(k as int));
                assert(t.last() == lines@[k as int]@);
                if k == 0 {
                    assert(joined(views.take(0)) =~= Seq::<char>::empty());
                    assert(line@ =~= head + joined(t));
                } else {
                    assert(line@ =~= head + joined(t));
                }
            }
            k += 1;
        }
        assert(views.take(k as int) =~= views);
        line.append(" }");
        res.push(line);
        res
    }
}

proof fn lemma_total_bytes_prefix(tasks: Seq<ScanTask>, j: int)
    requires
        0 <= j <= tasks.len(),
    ensures
        total_bytes(tasks.take(j)) <= total_bytes(tasks),
    decreases tasks.len(),
{
    if j < tasks.len() {
        assert(tasks.drop_last().take(j) =~= tasks.take(j));
        lemma_total_bytes_prefix(tasks.drop_last(), j);
    } else {
        assert(tasks.take(j) =~= tasks);
    }
}

} // verus!
