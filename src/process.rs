//! The process table: rows, a stable multi-key sort and row selection.
use vstd::prelude::*;

use std::collections::HashSet;
use vstd::utf8::encode_utf8;

verus! {

broadcast use vstd::std_specs::hash::group_hash_axioms;

#[derive(Clone, Copy, Debug, PartialEq, Eq, Structural, PartialOrd, Ord, Hash)]
pub enum ProcessKind {
    Compute,
    Graphics,
}

/// GPU memory that a process uses, when the driver reports it.
#[derive(Clone, Copy, Debug, PartialEq, Eq, Structural)]
pub enum GpuMemory {
    Used(u64),
    Unavailable,
}

/// One row of the table: a process resident on the device.
#[derive(Clone, Debug)]
pub struct ProcessData {
    pub pid: u32,
    pub used_gpu_memory: GpuMemory,
    pub process_kind: ProcessKind,
    pub process_name: String,
}

impl ProcessData {
    /// A field-by-field copy of the row.
    pub fn copy(&self) -> (r: ProcessData)
        ensures
            r == *self,
    {
        ProcessData {
            pid: self.pid,
            used_gpu_memory: self.used_gpu_memory,
            process_kind: self.process_kind,
            process_name: self.process_name.clone(),
        }
    }
}

/// A copy of each row, in order.
pub fn copy_rows(rows: &Vec<ProcessData>) -> (r: Vec<ProcessData>)
    ensures
        r@ == rows@,
{
    let mut out: Vec<ProcessData> = Vec::new();
    let mut i: usize = 0;
    while i < rows.len()
        invariant
            i <= rows@.len(),
            out@ == rows@.take(i as int),
        decreases rows@.len() - i,
    {
        out.push(rows[i].copy());
        i = i + 1;
        assert(out@ =~= rows@.take(i as int));
    }
    assert(rows@.take(i as int) =~= rows@);
    out
}

/// The column that the rows are ordered by.
#[derive(Clone, Copy, Debug, PartialEq, Eq, Structural)]
pub enum SortKind {
    Pid,
    Type,
    ProcessName,
    Memory,
}

pub open spec fn kind_label(k: ProcessKind) -> Seq<char> {
    match k {
        ProcessKind::Compute => "Compute"@,
        ProcessKind::Graphics => "Graphics"@,
    }
}

impl ProcessKind {
    /// The kind's display label.
    pub fn label(&self) -> (r: String)
        ensures
            r@ == kind_label(*self),
    {
        match self {
            ProcessKind::Compute => "Compute".to_owned(),
            ProcessKind::Graphics => "Graphics".to_owned(),
        }
    }
}

/// Memory that a process counts as when sorting: unavailable counts as zero.
pub open spec fn memory_key(m: GpuMemory) -> int {
    match m {
        GpuMemory::Used(v) => v as int,
        GpuMemory::Unavailable => 0,
    }
}

pub open spec fn kind_rank(k: ProcessKind) -> int {
    match k {
        ProcessKind::Compute => 0,
        ProcessKind::Graphics => 1,
    }
}

/// Three-way comparison of integers: -1, 0 or 1.
pub open spec fn cmp_int(a: int, b: int) -> int {
    if a < b {
        -1
    } else if a > b {
        1
    } else {
        0
    }
}

/// Three-way lexicographic comparison of byte strings.
pub open spec fn lex_cmp(a: Seq<u8>, b: Seq<u8>) -> int
    decreases a.len(),
{
    if a.len() == 0 {
        if b.len() == 0 {
            0
        } else {
            -1
        }
    } else if b.len() == 0 {
        1
    } else if a[0] != b[0] {
        cmp_int(a[0] as int, b[0] as int)
    } else {
        lex_cmp(a.drop_first(), b.drop_first())
    }
}

/// The bytes that names are compared by: their UTF-8 encoding.
pub open spec fn name_bytes(p: ProcessData) -> Seq<u8> {
    encode_utf8(p.process_name@)
}

/// Ascending three-way comparison of two rows on one column.
pub open spec fn key_cmp(a: ProcessData, b: ProcessData, kind: SortKind) -> int {
    match kind {
        SortKind::Pid => cmp_int(a.pid as int, b.pid as int),
        SortKind::Type => cmp_int(kind_rank(a.process_kind), kind_rank(b.process_kind)),
        SortKind::ProcessName => lex_cmp(name_bytes(a), name_bytes(b)),
        SortKind::Memory => cmp_int(memory_key(a.used_gpu_memory), memory_key(b.used_gpu_memory)),
    }
}

/// Three-way comparison in the direction asked for.
pub open spec fn order_cmp(a: ProcessData, b: ProcessData, kind: SortKind, descending: bool) -> int {
    if descending {
        -key_cmp(a, b, kind)
    } else {
        key_cmp(a, b, kind)
    }
}

/// `p` lists each index below `n` exactly once.
pub open spec fn is_perm(p: Seq<int>, n: int) -> bool {
    &&& p.len() == n
    &&& forall|i: int| 0 <= i < n ==> 0 <= #[trigger] p[i] < n
    &&& forall|i: int, j: int| 0 <= i < j < n ==> p[i] != p[j]
    &&& forall|v: int| 0 <= v < n ==> #[trigger] lists(p, v)
}

/// `v` occurs in `p`.
pub open spec fn lists(p: Seq<int>, v: int) -> bool {
    exists|j: int| 0 <= j < p.len() && p[j] == v
}

/// `r` is `s` rearranged through `p`, ordered by the column in the
/// direction asked for, with rows that compare equal left in their order in `s`.
pub open spec fn sorted_through(
    r: Seq<ProcessData>,
    s: Seq<ProcessData>,
    p: Seq<int>,
    kind: SortKind,
    descending: bool,
) -> bool {
    &&& r.len() == s.len()
    &&& is_perm(p, s.len() as int)
    &&& forall|i: int| 0 <= i < r.len() ==> #[trigger] r[i] == s[p[i]]
    &&& forall|i: int, j: int|
        #![trigger r[i], r[j]]
        0 <= i < j < r.len() ==> {
            let c = order_cmp(r[i], r[j], kind, descending);
            c < 0 || (c == 0 && p[i] < p[j])
        }
}

/// `r` is the stable sort of `s` on the column in the direction asked for.
pub open spec fn is_stable_sort(r: Seq<ProcessData>, s: Seq<ProcessData>, kind: SortKind, descending: bool) -> bool {
    exists|p: Seq<int>| sorted_through(r, s, p, kind, descending)
}

/// How the table arranges a fresh set of rows under a sort state: as given
/// when no column is chosen, else stably sorted.
pub open spec fn arranged(
    r: Seq<ProcessData>,
    s: Seq<ProcessData>,
    kind: Option<SortKind>,
    descending: bool,
) -> bool {
    match kind {
        None => r == s,
        Some(k) => is_stable_sort(r, s, k, descending),
    }
}

proof fn lemma_lex_antisymmetric(a: Seq<u8>, b: Seq<u8>)
    ensures
        lex_cmp(a, b) == -lex_cmp(b, a),
        -1 <= lex_cmp(a, b) <= 1,
    decreases a.len(),
{
    if a.len() > 0 && b.len() > 0 && a[0] == b[0] {
        lemma_lex_antisymmetric(a.drop_first(), b.drop_first());
    }
}

proof fn lemma_lex_transitive(a: Seq<u8>, b: Seq<u8>, c: Seq<u8>)
    requires
        lex_cmp(a, b) <= 0,
        lex_cmp(b, c) <= 0,
    ensures
        lex_cmp(a, c) <= 0,
    decreases a.len(),
{
    if a.len() > 0 && b.len() > 0 && c.len() > 0 && a[0] == b[0] && b[0] == c[0] {
        lemma_lex_transitive(a.drop_first(), b.drop_first(), c.drop_first());
    }
}

proof fn lemma_order_antisymmetric(a: ProcessData, b: ProcessData, kind: SortKind, descending: bool)
    ensures
        order_cmp(a, b, kind, descending) == -order_cmp(b, a, kind, descending),
        -1 <= order_cmp(a, b, kind, descending) <= 1,
{
    lemma_lex_antisymmetric(name_bytes(a), name_bytes(b));
}

proof fn lemma_order_transitive(
    a: ProcessData,
    b: ProcessData,
    c: ProcessData,
    kind: SortKind,
    descending: bool,
)
    requires
        order_cmp(a, b, kind, descending) <= 0,
        order_cmp(b, c, kind, descending) <= 0,
    ensures
        order_cmp(a, c, kind, descending) <= 0,
{
    lemma_order_antisymmetric(a, b, kind, descending);
    lemma_order_antisymmetric(b, c, kind, descending);
    lemma_order_antisymmetric(a, c, kind, descending);
    if kind == SortKind::ProcessName {
        if descending {
            lemma_lex_transitive(name_bytes(c), name_bytes(b), name_bytes(a));
        } else {
            lemma_lex_transitive(name_bytes(a), name_bytes(b), name_bytes(c));
        }
    }
}

fn compare_bytes(a: &[u8], b: &[u8]) -> (r: i8)
    ensures
        r as int == lex_cmp(a@, b@),
{
    let mut i: usize = 0;
    assert(a@.skip(0) =~= a@ && b@.skip(0) =~= b@);
    while i < a.len() && i < b.len() && a[i] == b[i]
        invariant
            i <= a@.len(),
            i <= b@.len(),
            lex_cmp(a@, b@) == lex_cmp(a@.skip(i as int), b@.skip(i as int)),
        decreases a@.len() - i,
    {
        assert(a@.skip(i as int).drop_first() =~= a@.skip(i + 1));
        assert(b@.skip(i as int).drop_first() =~= b@.skip(i + 1));
        i = i + 1;
    }
    if i == a.len() {
        if i == b.len() {
            0
        } else {
            -1
        }
    } else if i == b.len() {
        1
    } else if a[i] < b[i] {
        -1
    } else {
        1
    }
}

fn compare_ints(a: u64, b: u64) -> (r: i8)
    ensures
        r as int == cmp_int(a as int, b as int),
{
    if a < b {
        -1
    } else if a > b {
        1
    } else {
        0
    }
}

fn memory_value(m: GpuMemory) -> (r: u64)
    ensures
        r as int == memory_key(m),
{
    match m {
        GpuMemory::Used(v) => v,
        GpuMemory::Unavailable => 0,
    }
}

fn kind_value(k: ProcessKind) -> (r: u64)
    ensures
        r as int == kind_rank(k),
{
    match k {
        ProcessKind::Compute => 0,
        ProcessKind::Graphics => 1,
    }
}

/// Compares two rows on a column, in the direction asked for.
pub fn compare_rows(a: &ProcessData, b: &ProcessData, kind: SortKind, descending: bool) -> (r: i8)
    ensures
        r as int == order_cmp(*a, *b, kind, descending),
{
    let c = match kind {
        SortKind::Pid => compare_ints(a.pid as u64, b.pid as u64),
        SortKind::Type => compare_ints(kind_value(a.process_kind), kind_value(b.process_kind)),
        SortKind::ProcessName => compare_bytes(
            a.process_name.as_str().as_bytes(),
            b.process_name.as_str().as_bytes(),
        ),
        SortKind::Memory => compare_ints(
            memory_value(a.used_gpu_memory),
            memory_value(b.used_gpu_memory),
        ),
    };
    proof {
        lemma_order_antisymmetric(*a, *b, kind, descending);
    }
    if descending {
        -c
    } else {
        c
    }
}

/// Inserting the next row of `s` just after the rows that do not follow it
/// keeps a stable sort of the rows taken so far.
proof fn lemma_insert_step(
    out: Seq<ProcessData>,
    s: Seq<ProcessData>,
    p: Seq<int>,
    pos: int,
    kind: SortKind,
    descending: bool,
)
    requires
        out.len() < s.len(),
        sorted_through(out, s.take(out.len() as int), p, kind, descending),
        0 <= pos <= out.len(),
        pos > 0 ==> order_cmp(out[pos - 1], s[out.len() as int], kind, descending) <= 0,
        forall|k: int|
            pos <= k < out.len() ==> order_cmp(#[trigger] out[k], s[out.len() as int], kind, descending)
                > 0,
    ensures
        sorted_through(
            out.insert(pos, s[out.len() as int]),
            s.take(out.len() as int + 1),
            p.insert(pos, out.len() as int),
            kind,
            descending,
        ),
{
    let n = out.len() as int;
    let x = s[n];
    let r = out.insert(pos, x);
    let q = p.insert(pos, n);
    let t = s.take(n + 1);
    assert forall|k: int| 0 <= k < pos implies order_cmp(#[trigger] out[k], x, kind, descending) <= 0 by {
        if k < pos - 1 {
            lemma_order_transitive(out[k], out[pos - 1], x, kind, descending);
        }
    }
    assert forall|i: int| 0 <= i < r.len() implies #[trigger] r[i] == t[q[i]] by {
        if i > pos {
            assert(r[i] == out[i - 1]);
        }
    }
    assert forall|i: int, j: int| 0 <= i < j < r.len() implies {
        let c = order_cmp(#[trigger] r[i], #[trigger] r[j], kind, descending);
        c < 0 || (c == 0 && q[i] < q[j])
    } by {
        if i == pos {
            lemma_order_antisymmetric(x, out[j - 1], kind, descending);
        } else if j == pos {
            assert(r[i] == out[i]);
        } else if i > pos {
            assert(r[i] == out[i - 1] && r[j] == out[j - 1]);
        } else if j > pos {
            assert(r[i] == out[i] && r[j] == out[j - 1]);
        } else {
            assert(r[i] == out[i] && r[j] == out[j]);
        }
    }
    assert forall|v: int| 0 <= v < n + 1 implies #[trigger] lists(q, v) by {
        if v == n {
            assert(q[pos] == v);
        } else {
            assert(lists(p, v));
            let j = choose|j: int| 0 <= j < p.len() && p[j] == v;
            if j < pos {
                assert(q[j] == v);
            } else {
                assert(q[j + 1] == v);
            }
        }
    }
    assert forall|i: int, j: int| 0 <= i < j < n + 1 implies q[i] != q[j] by {
        if i == pos {
            assert(q[j] == p[j - 1]);
        } else if j == pos {
            assert(q[i] == p[i]);
        } else if i > pos {
            assert(q[i] == p[i - 1] && q[j] == p[j - 1]);
        } else if j > pos {
            assert(q[i] == p[i] && q[j] == p[j - 1]);
        }
    }
    assert forall|i: int| 0 <= i < n + 1 implies 0 <= #[trigger] q[i] < n + 1 by {
        if i > pos {
            assert(q[i] == p[i - 1]);
        } else if i < pos {
            assert(q[i] == p[i]);
        }
    }
}

/// Stable insertion sort of the rows on a column, in the direction asked for.
pub fn stable_sort(rows: Vec<ProcessData>, kind: SortKind, descending: bool) -> (r: Vec<
    ProcessData,
>)
    ensures
        is_stable_sort(r@, rows@, kind, descending),
{
    let ghost s = rows@;
    let mut rest = rows;
    let mut out: Vec<ProcessData> = Vec::new();
    let ghost mut p: Seq<int> = Seq::empty();
    proof {
        assert(sorted_through(out@, s.take(0), p, kind, descending));
    }
    while rest.len() > 0
        invariant
            out@.len() + rest@.len() == s.len(),
            rest@ == s.skip(out@.len() as int),
            sorted_through(out@, s.take(out@.len() as int), p, kind, descending),
        decreases rest@.len(),
    {
        let ghost n = out@.len() as int;
        let x = rest.remove(0);
        assert(x == s[n]);
        assert(rest@ =~= s.skip(n + 1));
        let mut pos: usize = out.len();
        while pos > 0 && compare_rows(&out[pos - 1], &x, kind, descending) > 0
            invariant
                pos <= out@.len(),
                out@.len() == n,
                forall|k: int|
                    pos <= k < out@.len() ==> order_cmp(#[trigger] out@[k], x, kind, descending) > 0,
            decreases pos,
        {
            pos = pos - 1;
        }
        proof {
            lemma_insert_step(out@, s, p, pos as int, kind, descending);
            p = p.insert(pos as int, n);
        }
        out.insert(pos, x);
    }
    assert(s.take(s.len() as int) =~= s);
    out
}

/// Row `a` of `s` comes before row `b` in a stable sort.
spec fn precedes(s: Seq<ProcessData>, a: int, b: int, kind: SortKind, descending: bool) -> bool {
    let c = order_cmp(s[a], s[b], kind, descending);
    c < 0 || (c == 0 && a < b)
}

/// Rows already in order are their own stable sort.
proof fn lemma_sort_of_ordered(s: Seq<ProcessData>, kind: SortKind, descending: bool)
    requires
        forall|i: int, j: int|
            0 <= i < j < s.len() ==> order_cmp(#[trigger] s[i], #[trigger] s[j], kind, descending)
                <= 0,
    ensures
        sorted_through(s, s, Seq::new(s.len(), |i: int| i), kind, descending),
{
    let id = Seq::new(s.len(), |i: int| i);
    assert forall|v: int| 0 <= v < s.len() implies #[trigger] lists(id, v) by {
        assert(id[v] == v);
    }
}

/// Sorting on a column in one direction and then in the other gives the
/// stable sort of the original rows in the second direction.
proof fn lemma_sort_compose(
    s: Seq<ProcessData>,
    r1: Seq<ProcessData>,
    p1: Seq<int>,
    r2: Seq<ProcessData>,
    p2: Seq<int>,
    kind: SortKind,
    descending: bool,
)
    requires
        sorted_through(r1, s, p1, kind, !descending),
        sorted_through(r2, r1, p2, kind, descending),
    ensures
        sorted_through(r2, s, Seq::new(s.len(), |i: int| p1[p2[i]]), kind, descending),
{
    let n = s.len() as int;
    let q = Seq::new(s.len(), |i: int| p1[p2[i]]);
    assert forall|i: int| 0 <= i < n implies 0 <= #[trigger] q[i] < n by {
        assert(0 <= p2[i] < n);
        assert(0 <= p1[p2[i]] < n);
    }
    assert forall|i: int| 0 <= i < n implies #[trigger] r2[i] == s[q[i]] by {
        assert(r2[i] == r1[p2[i]]);
        assert(r1[p2[i]] == s[p1[p2[i]]]);
    }
    assert forall|i: int, j: int| 0 <= i < j < n implies q[i] != q[j] by {
        let a = p2[i];
        let b = p2[j];
        assert(0 <= a < n && 0 <= b < n && a != b);
        if a < b {
            assert(p1[a] != p1[b]);
        } else {
            assert(p1[b] != p1[a]);
        }
    }
    assert forall|v: int| 0 <= v < n implies #[trigger] lists(q, v) by {
        assert(lists(p1, v));
        let j1 = choose|j: int| 0 <= j < p1.len() && p1[j] == v;
        assert(lists(p2, j1));
        let j2 = choose|j: int| 0 <= j < p2.len() && p2[j] == j1;
        assert(q[j2] == v);
    }
    assert forall|i: int, j: int| 0 <= i < j < n implies {
        let c = order_cmp(#[trigger] r2[i], #[trigger] r2[j], kind, descending);
        c < 0 || (c == 0 && q[i] < q[j])
    } by {
        let a = p2[i];
        let b = p2[j];
        assert(0 <= a < n && 0 <= b < n);
        assert(r2[i] == r1[a] && r2[j] == r1[b]);
        if order_cmp(r2[i], r2[j], kind, descending) == 0 {
            assert(a < b);
            assert(order_cmp(r1[a], r1[b], kind, !descending) == 0);
        }
    }
}

/// Two stable sorts of the same rows on the same column and direction agree.
proof fn lemma_sort_unique(
    s: Seq<ProcessData>,
    r: Seq<ProcessData>,
    p: Seq<int>,
    r2: Seq<ProcessData>,
    p2: Seq<int>,
    kind: SortKind,
    descending: bool,
)
    requires
        sorted_through(r, s, p, kind, descending),
        sorted_through(r2, s, p2, kind, descending),
    ensures
        r == r2,
{
    let n = s.len() as int;
    assert forall|i: int, j: int| 0 <= i < j < n implies precedes(s, p[i], p[j], kind, descending)
        && precedes(s, p2[i], p2[j], kind, descending) by {
        assert(r[i] == s[p[i]] && r[j] == s[p[j]]);
        assert(r2[i] == s[p2[i]] && r2[j] == s[p2[j]]);
    }
    lemma_perm_prefix(s, p, p2, kind, descending, n);
    assert forall|i: int| 0 <= i < n implies r[i] == r2[i] by {
        assert(r[i] == s[p[i]] && r2[i] == s[p2[i]]);
    }
    assert(r =~= r2);
}

proof fn lemma_perm_prefix(
    s: Seq<ProcessData>,
    p: Seq<int>,
    p2: Seq<int>,
    kind: SortKind,
    descending: bool,
    k: int,
)
    requires
        is_perm(p, s.len() as int),
        is_perm(p2, s.len() as int),
        0 <= k <= s.len(),
        forall|i: int, j: int|
            0 <= i < j < s.len() ==> precedes(s, #[trigger] p[i], #[trigger] p[j], kind, descending),
        forall|i: int, j: int|
            0 <= i < j < s.len() ==> precedes(s, #[trigger] p2[i], #[trigger] p2[j], kind, descending),
    ensures
        forall|i: int| 0 <= i < k ==> p[i] == p2[i],
    decreases k,
{
    if k > 0 {
        lemma_perm_prefix(s, p, p2, kind, descending, k - 1);
        let m = k - 1;
        let a = p[m];
        let b = p2[m];
        if a != b {
            lemma_order_antisymmetric(s[a], s[b], kind, descending);
            if precedes(s, a, b, kind, descending) {
                assert(lists(p2, a));
                let j = choose|j: int| 0 <= j < p2.len() && p2[j] == a;
                if j < m {
                    assert(p[j] == p2[j]);
                } else {
                    assert(precedes(s, p2[m], p2[j], kind, descending));
                }
            } else {
                assert(precedes(s, b, a, kind, descending));
                assert(lists(p, b));
                let j = choose|j: int| 0 <= j < p.len() && p[j] == b;
                if j < m {
                    assert(p[j] == p2[j]);
                } else {
                    assert(precedes(s, p[m], p[j], kind, descending));
                }
            }
        }
    }
}

/// Clicking the active column's header twice restores the row order: when
/// `rows` are sorted on `kind` in one direction, sorting them in the other
/// direction and then back gives `rows` again.
pub proof fn lemma_header_twice_restores(
    unsorted: Seq<ProcessData>,
    rows: Seq<ProcessData>,
    flipped: Seq<ProcessData>,
    restored: Seq<ProcessData>,
    kind: SortKind,
    descending: bool,
)
    requires
        is_stable_sort(rows, unsorted, kind, descending),
        is_stable_sort(flipped, rows, kind, !descending),
        is_stable_sort(restored, flipped, kind, descending),
    ensures
        restored == rows,
{
    let p0 = choose|p: Seq<int>| sorted_through(rows, unsorted, p, kind, descending);
    let flip = !descending;
    let p1 = choose|p: Seq<int>| sorted_through(flipped, rows, p, kind, flip);
    let p2 = choose|p: Seq<int>| sorted_through(restored, flipped, p, kind, descending);
    lemma_sort_compose(rows, flipped, p1, restored, p2, kind, descending);
    assert forall|i: int, j: int| 0 <= i < j < rows.len() implies order_cmp(
        #[trigger] rows[i],
        #[trigger] rows[j],
        kind,
        descending,
    ) <= 0 by {}
    lemma_sort_of_ordered(rows, kind, descending);
    lemma_sort_unique(
        rows,
        restored,
        Seq::new(rows.len(), |i: int| p1[p2[i]]),
        rows,
        Seq::new(rows.len(), |i: int| i),
        kind,
        descending,
    );
}

/// The selection after toggling each row index of `rows` in turn.
pub open spec fn toggled_all(sel: Set<usize>, rows: Seq<usize>) -> Set<usize>
    decreases rows.len(),
{
    if rows.len() == 0 {
        sel
    } else {
        let before = toggled_all(sel, rows.drop_last());
        if before.contains(rows.last()) {
            before.remove(rows.last())
        } else {
            before.insert(rows.last())
        }
    }
}

/// Rows of processes with a sort state and a set of selected row indices.
pub struct ProcessTable {
    pub striped: bool,
    pub resizable: bool,
    pub clickable: bool,
    pub sort_descending: bool,
    pub sort_kind: Option<SortKind>,
    pub processes: Vec<ProcessData>,
    pub show_plot_window: bool,
    pub selection: HashSet<usize>,
}

impl ProcessTable {
    /// The column the rows are ordered by, if one was chosen.
    pub open spec fn spec_sort_kind(&self) -> Option<SortKind> {
        self.sort_kind
    }

    pub open spec fn spec_descending(&self) -> bool {
        self.sort_descending
    }

    /// The selected row indices.
    pub open spec fn selected(&self) -> Set<usize> {
        self.selection@
    }

    pub fn sort_kind(&self) -> (r: Option<SortKind>)
        ensures
            r == self.spec_sort_kind(),
    {
        self.sort_kind
    }

    pub fn is_descending(&self) -> (r: bool)
        ensures
            r == self.spec_descending(),
    {
        self.sort_descending
    }

    pub fn is_selected(&self, row_index: usize) -> (r: bool)
        ensures
            r == self.selected().contains(row_index),
    {
        self.selection.contains(&row_index)
    }

    /// Whether any row is selected.
    pub fn has_selection(&self) -> (r: bool)
        ensures
            r == !self.selected().is_empty(),
    {
        !self.selection.is_empty()
    }

    /// Re-orders the rows by the current sort state; without a chosen column
    /// they stay as they are.
    pub fn sort_processes(&mut self)
        ensures
            arranged(
                final(self).processes@,
                old(self).processes@,
                old(self).spec_sort_kind(),
                old(self).spec_descending(),
            ),
            final(self).spec_sort_kind() == old(self).spec_sort_kind(),
            final(self).spec_descending() == old(self).spec_descending(),
            final(self).selected() == old(self).selected(),
            final(self).show_plot_window == old(self).show_plot_window,
            final(self).striped == old(self).striped,
            final(self).resizable == old(self).resizable,
            final(self).clickable == old(self).clickable,
    {
        if let Some(kind) = self.sort_kind {
            let mut rows: Vec<ProcessData> = Vec::new();
            std::mem::swap(&mut rows, &mut self.processes);
            self.processes = stable_sort(rows, kind, self.sort_descending);
        }
    }

    /// Replaces all rows with a fresh set and arranges them by the current
    /// sort state.
    pub fn set_processes(&mut self, processes: Vec<ProcessData>)
        ensures
            arranged(
                final(self).processes@,
                processes@,
                old(self).spec_sort_kind(),
                old(self).spec_descending(),
            ),
            final(self).spec_sort_kind() == old(self).spec_sort_kind(),
            final(self).spec_descending() == old(self).spec_descending(),
            final(self).selected() == old(self).selected(),
            final(self).show_plot_window == old(self).show_plot_window,
    {
        self.processes = processes;
        self.sort_processes();
    }

    /// A click on a column header: the active column flips its direction, any
    /// other column becomes active in descending order. The rows are then
    /// sorted by the new state.
    pub fn click_header(&mut self, kind: SortKind)
        ensures
            final(self).spec_sort_kind() == Some(kind),
            final(self).spec_descending() == if old(self).spec_sort_kind() == Some(kind) {
                !old(self).spec_descending()
            } else {
                true
            },
            is_stable_sort(
                final(self).processes@,
                old(self).processes@,
                kind,
                final(self).spec_descending(),
            ),
            final(self).selected() == old(self).selected(),
            final(self).show_plot_window == old(self).show_plot_window,
    {
        match self.sort_kind {
            Some(current) if current == kind => {
                self.sort_descending = !self.sort_descending;
            },
            _ => {
                self.sort_kind = Some(kind);
                self.sort_descending = true;
            },
        }
        self.sort_processes();
    }

    /// Adds the row index to the selection, or removes it when present.
    pub fn toggle_row_selection(&mut self, row_index: usize)
        ensures
            final(self).selected() == if old(self).selected().contains(row_index) {
                old(self).selected().remove(row_index)
            } else {
                old(self).selected().insert(row_index)
            },
            final(self).processes@ == old(self).processes@,
            final(self).spec_sort_kind() == old(self).spec_sort_kind(),
            final(self).spec_descending() == old(self).spec_descending(),
            final(self).show_plot_window == old(self).show_plot_window,
    {
        if self.selection.contains(&row_index) {
            self.selection.remove(&row_index);
        } else {
            self.selection.insert(row_index);
        }
    }

    /// Applies the row clicks of one frame in order, then shows the detail
    /// view exactly when some row is selected.
    pub fn apply_row_clicks(&mut self, clicked_rows: &Vec<usize>)
        ensures
            final(self).selected() == toggled_all(old(self).selected(), clicked_rows@),
            final(self).show_plot_window == !final(self).selected().is_empty(),
            final(self).processes@ == old(self).processes@,
            final(self).spec_sort_kind() == old(self).spec_sort_kind(),
            final(self).spec_descending() == old(self).spec_descending(),
    {
        let mut i: usize = 0;
        while i < clicked_rows.len()
            invariant
                i <= clicked_rows@.len(),
                self.selected() == toggled_all(old(self).selected(), clicked_rows@.take(i as int)),
                self.processes@ == old(self).processes@,
                self.spec_sort_kind() == old(self).spec_sort_kind(),
                self.spec_descending() == old(self).spec_descending(),
            decreases clicked_rows@.len() - i,
        {
            assert(clicked_rows@.take(i + 1).drop_last() =~= clicked_rows@.take(i as int));
            self.toggle_row_selection(clicked_rows[i]);
            i = i + 1;
        }
        assert(clicked_rows@.take(i as int) =~= clicked_rows@);
        self.show_plot_window = !self.selection.is_empty();
    }
}

impl Default for ProcessTable {
    fn default() -> (r: Self)
        ensures
            r.striped,
            r.resizable,
            r.clickable,
            r.spec_descending(),
            r.spec_sort_kind() == None::<SortKind>,
            r.processes@ == Seq::<ProcessData>::empty(),
            !r.show_plot_window,
            r.selected() == Set::<usize>::empty(),
    {
        ProcessTable {
            striped: true,
            resizable: true,
            clickable: true,
            sort_descending: true,
            sort_kind: None,
            processes: Vec::new(),
            show_plot_window: false,
            selection: HashSet::new(),
        }
    }
}

} // verus!
