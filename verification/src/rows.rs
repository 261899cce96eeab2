//! Process rows: the snapshot the front end reads from the system, the
//! search filter over it, and the stable descending order of the table.

use vstd::prelude::*;

use crate::text::{
    chars_of, contains_chars, has_substring, lowercase, split_whitespace, to_lowercase, words,
};

verus! {

/// One process as read from the system.
pub struct ProcInfo {
    pub pid: u32,
    pub name: String,
    pub cmd: String,
    /// Bit pattern of the CPU usage, an `f32`.
    pub cpu_bits: u32,
    /// Resident memory in bytes.
    pub memory: u64,
}

/// One row of the process table.
pub struct ProcRow {
    pub pid: u32,
    pub name: String,
    /// Bit pattern of the CPU usage, as in [`ProcInfo::cpu_bits`].
    pub cpu_bits: u32,
    pub mem_mb: u64,
    pub cmd: String,
}

/// The column by which the table is ordered, largest first.
#[derive(Clone, Copy, Debug, PartialEq, Eq, Structural)]
pub enum SortMode {
    Cpu,
    Mem,
    Pid,
}

/// A snapshot entry as plain values.
pub struct ProcInfoView {
    pub pid: u32,
    pub name: Seq<char>,
    pub cmd: Seq<char>,
    pub cpu_bits: u32,
    pub memory: u64,
}

/// A table row as plain values.
pub struct RowView {
    pub pid: u32,
    pub name: Seq<char>,
    pub cpu_bits: u32,
    pub mem_mb: u64,
    pub cmd: Seq<char>,
}

impl View for ProcInfo {
    type V = ProcInfoView;

    open spec fn view(&self) -> ProcInfoView {
        ProcInfoView {
            pid: self.pid,
            name: self.name@,
            cmd: self.cmd@,
            cpu_bits: self.cpu_bits,
            memory: self.memory,
        }
    }
}

impl View for ProcRow {
    type V = RowView;

    open spec fn view(&self) -> RowView {
        RowView {
            pid: self.pid,
            name: self.name@,
            cpu_bits: self.cpu_bits,
            mem_mb: self.mem_mb,
            cmd: self.cmd@,
        }
    }
}

/// The plain values of a sequence of snapshot entries.
pub open spec fn infos_view(v: Seq<ProcInfo>) -> Seq<ProcInfoView> {
    v.map_values(|p: ProcInfo| p@)
}

/// The plain values of a sequence of rows.
pub open spec fn rows_view(v: Seq<ProcRow>) -> Seq<RowView> {
    v.map_values(|r: ProcRow| r@)
}

/// The row shown for a snapshot entry: memory in whole mebibytes.
pub open spec fn row_of(p: ProcInfoView) -> RowView {
    RowView {
        pid: p.pid,
        name: p.name,
        cpu_bits: p.cpu_bits,
        mem_mb: p.memory / 1024 / 1024,
        cmd: p.cmd,
    }
}

/// The text a search matches against: lowercase name, a space, lowercase command.
pub open spec fn haystack(p: ProcInfoView) -> Seq<char> {
    lowercase(p.name) + seq![' '] + lowercase(p.cmd)
}

/// The search terms: the whitespace-separated words of the search, lowercased.
pub open spec fn search_tokens(search: Seq<char>) -> Seq<Seq<char>> {
    words(search).map_values(|w: Seq<char>| lowercase(w))
}

/// A process is shown when there are no terms, or when one of them occurs in its text.
pub open spec fn matches_tokens(tokens: Seq<Seq<char>>, hay: Seq<char>) -> bool {
    tokens.len() == 0 || exists|i: int| 0 <= i < tokens.len() && has_substring(hay, #[trigger] tokens[i])
}

/// The rows of the matching processes, in snapshot order.
pub open spec fn matching_rows(procs: Seq<ProcInfoView>, tokens: Seq<Seq<char>>) -> Seq<RowView>
    decreases procs.len(),
{
    if procs.len() == 0 {
        seq![]
    } else {
        let prev = matching_rows(procs.drop_last(), tokens);
        if matches_tokens(tokens, haystack(procs.last())) {
            prev.push(row_of(procs.last()))
        } else {
            prev
        }
    }
}

/// An integer order on `f32` bit patterns that agrees with the numeric
/// order of values that are not NaN: negative values below positive ones,
/// and the two zeros equal.
pub open spec fn cpu_order(bits: u32) -> u32 {
    if bits & 0x7fff_ffffu32 == 0 {
        0x8000_0000u32
    } else if bits >= 0x8000_0000u32 {
        !bits
    } else {
        bits | 0x8000_0000u32
    }
}

/// The ordering key of an `f32` CPU usage given by its bits.
pub fn cpu_order_key(bits: u32) -> (k: u32)
    ensures
        k == cpu_order(bits),
{
    if bits & 0x7fff_ffffu32 == 0 {
        0x8000_0000u32
    } else if bits >= 0x8000_0000u32 {
        !bits
    } else {
        bits | 0x8000_0000u32
    }
}

/// The ordering key of a row under a sort mode.
pub open spec fn sort_key(r: RowView, mode: SortMode) -> nat {
    match mode {
        SortMode::Cpu => cpu_order(r.cpu_bits) as nat,
        SortMode::Mem => r.mem_mb as nat,
        SortMode::Pid => r.pid as nat,
    }
}

/// `x` placed into `s` after every row whose key is at least its own.
pub open spec fn insert_desc(s: Seq<RowView>, x: RowView, mode: SortMode) -> Seq<RowView>
    decreases s.len(),
{
    if s.len() == 0 {
        seq![x]
    } else if sort_key(s.last(), mode) >= sort_key(x, mode) {
        s.push(x)
    } else {
        insert_desc(s.drop_last(), x, mode).push(s.last())
    }
}

/// The rows ordered by key, largest first; rows with equal keys keep their order.
pub open spec fn sort_desc(s: Seq<RowView>, mode: SortMode) -> Seq<RowView>
    decreases s.len(),
{
    if s.len() == 0 {
        seq![]
    } else {
        insert_desc(sort_desc(s.drop_last(), mode), s.last(), mode)
    }
}

/// The ordering key of a row under a sort mode.
pub fn row_key(r: &ProcRow, mode: SortMode) -> (k: u64)
    ensures
        k == sort_key(r@, mode),
{
    match mode {
        SortMode::Cpu => cpu_order_key(r.cpu_bits) as u64,
        SortMode::Mem => r.mem_mb,
        SortMode::Pid => r.pid as u64,
    }
}

/// Inserts `x` into `v` after every row whose key is at least its own.
fn insert_row_desc(v: &mut Vec<ProcRow>, x: ProcRow, mode: SortMode)
    ensures
        rows_view(final(v)@) == insert_desc(rows_view(old(v)@), x@, mode),
{
    let ghost s = rows_view(v@);
    let kx = row_key(&x, mode);
    let mut j = v.len();
    proof {
        assert(s.take(j as int) =~= s);
        assert(s.skip(j as int) =~= Seq::<RowView>::empty());
    }
    while j > 0 && row_key(&v[j - 1], mode) < kx
        invariant
            s == rows_view(v@),
            j <= v.len(),
            kx == sort_key(x@, mode),
            insert_desc(s, x@, mode) == insert_desc(s.take(j as int), x@, mode) + s.skip(j as int),
        decreases j,
    {
        proof {
            let t = s.take(j as int);
            assert(t.drop_last() =~= s.take(j - 1));
            assert(t.last() == s[j - 1]);
            assert(s.skip(j - 1) =~= seq![s[j - 1]] + s.skip(j as int));
            assert(insert_desc(t, x@, mode) == insert_desc(s.take(j - 1), x@, mode).push(s[j - 1]));
            assert(insert_desc(s.take(j - 1), x@, mode).push(s[j - 1]) + s.skip(j as int)
                =~= insert_desc(s.take(j - 1), x@, mode) + s.skip(j - 1));
        }
        j = j - 1;
    }
    proof {
        let t = s.take(j as int);
        if j > 0 {
            assert(t.last() == s[j - 1]);
            assert(insert_desc(t, x@, mode) == t.push(x@));
        } else {
            assert(t =~= Seq::<RowView>::empty());
            assert(insert_desc(t, x@, mode) == seq![x@]);
        }
    }
    let ghost xv = x@;
    v.insert(j, x);
    proof {
        assert(rows_view(v@) =~= s.take(j as int).push(xv) + s.skip(j as int));
    }
}

/// The lowercased words of the search, each as characters.
pub fn search_terms(search: &String) -> (terms: Vec<Vec<char>>)
    ensures
        terms@.map_values(|t: Vec<char>| t@) == search_tokens(search@),
{
    let ws = split_whitespace(search.as_str());
    let ghost wv = ws@.map_values(|w: String| w@);
    let mut terms: Vec<Vec<char>> = Vec::new();
    let mut i: usize = 0;
    while i < ws.len()
        invariant
            wv == ws@.map_values(|w: String| w@),
            wv == words(search@),
            i <= ws.len(),
            terms@.map_values(|t: Vec<char>| t@) == wv.take(i as int).map_values(
                |w: Seq<char>| lowercase(w),
            ),
        decreases ws.len() - i,
    {
        let lower = to_lowercase(ws[i].as_str());
        let t = chars_of(lower.as_str());
        let ghost before = terms@.map_values(|t: Vec<char>| t@);
        terms.push(t);
        proof {
            assert(wv[i as int] == ws@[i as int]@);
            assert(wv.take(i + 1) =~= wv.take(i as int).push(wv[i as int]));
            assert(terms@.map_values(|t: Vec<char>| t@) =~= before.push(t@));
            assert(wv.take(i + 1).map_values(|w: Seq<char>| lowercase(w)) =~= wv.take(
                i as int,
            ).map_values(|w: Seq<char>| lowercase(w)).push(lowercase(wv[i as int])));
        }
        i = i + 1;
    }
    proof {
        assert(wv.take(i as int) =~= wv);
    }
    terms
}

/// The text a search matches against for one process.
pub fn process_haystack(p: &ProcInfo) -> (h: Vec<char>)
    ensures
        h@ == haystack(p@),
{
    let name = to_lowercase(p.name.as_str());
    let cmd = to_lowercase(p.cmd.as_str());
    let mut h = chars_of(name.as_str());
    h.push(' ');
    let mut rest = chars_of(cmd.as_str());
    h.append(&mut rest);
    h
}

/// Whether a process with text `hay` is shown under the search terms.
pub fn matches_terms(terms: &Vec<Vec<char>>, hay: &Vec<char>) -> (b: bool)
    ensures
        b == matches_tokens(terms@.map_values(|t: Vec<char>| t@), hay@),
{
    let ghost tv = terms@.map_values(|t: Vec<char>| t@);
    if terms.len() == 0 {
        return true;
    }
    let mut i: usize = 0;
    while i < terms.len()
        invariant
            tv == terms@.map_values(|t: Vec<char>| t@),
            i <= terms.len(),
            forall|j: int| 0 <= j < i ==> !has_substring(hay@, #[trigger] tv[j]),
        decreases terms.len() - i,
    {
        if contains_chars(hay, &terms[i]) {
            assert(tv[i as int] == terms@[i as int]@);
            return true;
        }
        assert(tv[i as int] == terms@[i as int]@);
        i = i + 1;
    }
    false
}

/// The row shown for a snapshot entry.
pub fn make_row(p: &ProcInfo) -> (r: ProcRow)
    ensures
        r@ == row_of(p@),
{
    ProcRow {
        pid: p.pid,
        name: p.name.clone(),
        cpu_bits: p.cpu_bits,
        mem_mb: p.memory / 1024 / 1024,
        cmd: p.cmd.clone(),
    }
}

/// The table for a snapshot: the processes that the search matches, ordered
/// by the sort mode's key, largest first, with ties in snapshot order.
pub fn build_rows(procs: &Vec<ProcInfo>, search: &String, mode: SortMode) -> (out: Vec<ProcRow>)
    ensures
        rows_view(out@) == sort_desc(
            matching_rows(infos_view(procs@), search_tokens(search@)),
            mode,
        ),
{
    let terms = search_terms(search);
    let ghost tokens = search_tokens(search@);
    let ghost pv = infos_view(procs@);
    let mut out: Vec<ProcRow> = Vec::new();
    let mut i: usize = 0;
    proof {
        assert(pv.take(0) =~= Seq::<ProcInfoView>::empty());
        assert(rows_view(out@) =~= Seq::<RowView>::empty());
    }
    while i < procs.len()
        invariant
            terms@.map_values(|t: Vec<char>| t@) == tokens,
            tokens == search_tokens(search@),
            pv == infos_view(procs@),
            i <= procs.len(),
            rows_view(out@) == sort_desc(matching_rows(pv.take(i as int), tokens), mode),
        decreases procs.len() - i,
    {
        let p = &procs[i];
        let hay = process_haystack(p);
        let shown = matches_terms(&terms, &hay);
        proof {
            let t = pv.take(i + 1);
            assert(t.drop_last() =~= pv.take(i as int));
            assert(t.last() == p@);
        }
        if shown {
            let row = make_row(p);
            insert_row_desc(&mut out, row, mode);
            proof {
                let prev = matching_rows(pv.take(i as int), tokens);
                assert(prev.push(row_of(p@)).drop_last() =~= prev);
            }
        }
        i = i + 1;
    }
    proof {
        assert(pv.take(i as int) =~= pv);
    }
    out
}

/// Rows ordered by key, largest first.
pub open spec fn sorted_desc(s: Seq<RowView>, mode: SortMode) -> bool {
    forall|i: int, j: int|
        0 <= i < j < s.len() ==> sort_key(#[trigger] s[i], mode) >= sort_key(#[trigger] s[j], mode)
}

/// The rows of `s` whose key is `k`, in order.
pub open spec fn rows_with_key(s: Seq<RowView>, k: nat, mode: SortMode) -> Seq<RowView>
    decreases s.len(),
{
    if s.len() == 0 {
        seq![]
    } else if sort_key(s.last(), mode) == k {
        rows_with_key(s.drop_last(), k, mode).push(s.last())
    } else {
        rows_with_key(s.drop_last(), k, mode)
    }
}

/// Where `insert_desc` puts the new row.
proof fn lemma_insert_desc_shape(s: Seq<RowView>, x: RowView, mode: SortMode) -> (p: int)
    ensures
        0 <= p <= s.len(),
        insert_desc(s, x, mode) == s.insert(p, x),
        p > 0 ==> sort_key(s[p - 1], mode) >= sort_key(x, mode),
        forall|i: int| p <= i < s.len() ==> sort_key(#[trigger] s[i], mode) < sort_key(x, mode),
    decreases s.len(),
{
    if s.len() == 0 {
        assert(seq![x] =~= s.insert(0, x));
        0
    } else if sort_key(s.last(), mode) >= sort_key(x, mode) {
        assert(s.push(x) =~= s.insert(s.len() as int, x));
        s.len() as int
    } else {
        let t = s.drop_last();
        let p = lemma_insert_desc_shape(t, x, mode);
        assert(t.insert(p, x).push(s.last()) =~= s.insert(p, x));
        assert forall|i: int| p <= i < s.len() implies sort_key(#[trigger] s[i], mode) < sort_key(
            x,
            mode,
        ) by {
            if i < s.len() - 1 {
                assert(s[i] == t[i]);
            }
        }
        p
    }
}

/// The table order is descending in the sort key.
pub proof fn law_sort_is_descending(s: Seq<RowView>, mode: SortMode)
    ensures
        sorted_desc(sort_desc(s, mode), mode),
        sort_desc(s, mode).len() == s.len(),
    decreases s.len(),
{
    if s.len() > 0 {
        let t = sort_desc(s.drop_last(), mode);
        law_sort_is_descending(s.drop_last(), mode);
        let x = s.last();
        let p = lemma_insert_desc_shape(t, x, mode);
        let r = t.insert(p, x);
        assert forall|i: int, j: int| 0 <= i < j < r.len() implies sort_key(#[trigger] r[i], mode)
            >= sort_key(#[trigger] r[j], mode) by {
            if j < p {
                assert(r[i] == t[i] && r[j] == t[j]);
            } else if j == p {
                assert(r[i] == t[i] && r[j] == x);
                if i < p - 1 {
                    assert(sort_key(t[i], mode) >= sort_key(t[p - 1], mode));
                }
            } else if i < p {
                assert(r[i] == t[i] && r[j] == t[j - 1]);
            } else if i == p {
                assert(r[i] == x && r[j] == t[j - 1]);
            } else {
                assert(r[i] == t[i - 1] && r[j] == t[j - 1]);
            }
        }
    }
}

/// The table holds exactly the rows it was built from, each as often.
pub proof fn law_sort_is_permutation(s: Seq<RowView>, mode: SortMode)
    ensures
        sort_desc(s, mode).to_multiset() == s.to_multiset(),
    decreases s.len(),
{
    if s.len() > 0 {
        let t = sort_desc(s.drop_last(), mode);
        law_sort_is_permutation(s.drop_last(), mode);
        let x = s.last();
        let p = lemma_insert_desc_shape(t, x, mode);
        vstd::seq_lib::to_multiset_insert(t, p, x);
        vstd::seq_lib::to_multiset_build(s.drop_last(), x);
        assert(s.drop_last().push(x) =~= s);
    } else {
        assert(sort_desc(s, mode) =~= s);
    }
}

/// `rows_with_key` distributes over concatenation.
proof fn lemma_rows_with_key_concat(a: Seq<RowView>, b: Seq<RowView>, k: nat, mode: SortMode)
    ensures
        rows_with_key(a + b, k, mode) == rows_with_key(a, k, mode) + rows_with_key(b, k, mode),
    decreases b.len(),
{
    if b.len() == 0 {
        assert(a + b =~= a);
        assert(rows_with_key(a, k, mode) + rows_with_key(b, k, mode) =~= rows_with_key(a, k, mode));
    } else {
        lemma_rows_with_key_concat(a, b.drop_last(), k, mode);
        assert((a + b).drop_last() =~= a + b.drop_last());
        assert((a + b).last() == b.last());
        if sort_key(b.last(), mode) == k {
            assert(rows_with_key(a, k, mode) + rows_with_key(b.drop_last(), k, mode).push(b.last())
                =~= (rows_with_key(a, k, mode) + rows_with_key(b.drop_last(), k, mode)).push(
                b.last(),
            ));
        }
    }
}

/// No row of `s` has key `k`, so none is kept.
proof fn lemma_rows_with_key_none(s: Seq<RowView>, k: nat, mode: SortMode)
    requires
        forall|i: int| 0 <= i < s.len() ==> sort_key(#[trigger] s[i], mode) != k,
    ensures
        rows_with_key(s, k, mode) == Seq::<RowView>::empty(),
    decreases s.len(),
{
    if s.len() > 0 {
        lemma_rows_with_key_none(s.drop_last(), k, mode);
        assert(sort_key(s[s.len() - 1], mode) != k);
    }
}

/// The order is stable: the rows that share a key appear in the table in
/// the order in which they came.
pub proof fn law_sort_is_stable(s: Seq<RowView>, k: nat, mode: SortMode)
    ensures
        rows_with_key(sort_desc(s, mode), k, mode) == rows_with_key(s, k, mode),
    decreases s.len(),
{
    if s.len() > 0 {
        let t = sort_desc(s.drop_last(), mode);
        law_sort_is_stable(s.drop_last(), k, mode);
        law_sort_is_descending(s.drop_last(), mode);
        let x = s.last();
        let p = lemma_insert_desc_shape(t, x, mode);
        let front = t.take(p);
        let back = t.skip(p);
        assert(t =~= front + back);
        assert(t.insert(p, x) =~= front.push(x) + back);
        lemma_rows_with_key_concat(front.push(x), back, k, mode);
        lemma_rows_with_key_concat(front, back, k, mode);
        assert(front.push(x).drop_last() =~= front);
        if sort_key(x, mode) == k {
            assert forall|i: int| 0 <= i < back.len() implies sort_key(#[trigger] back[i], mode)
                != k by {
                assert(back[i] == t[p + i]);
            }
            lemma_rows_with_key_none(back, k, mode);
            assert(rows_with_key(front, k, mode) + rows_with_key(back, k, mode) =~= rows_with_key(
                front,
                k,
                mode,
            ));
            assert(rows_with_key(front.push(x), k, mode) + rows_with_key(back, k, mode)
                =~= rows_with_key(front.push(x), k, mode));
        }
    }
}

/// With a search that holds no words, every process of the snapshot is shown.
pub proof fn law_blank_search_shows_all(procs: Seq<ProcInfoView>, search: Seq<char>)
    requires
        words(search).len() == 0,
    ensures
        matching_rows(procs, search_tokens(search)) == procs.map_values(|p: ProcInfoView| row_of(p)),
    decreases procs.len(),
{
    if procs.len() > 0 {
        law_blank_search_shows_all(procs.drop_last(), search);
        assert(procs.drop_last().map_values(|p: ProcInfoView| row_of(p)).push(row_of(procs.last()))
            =~= procs.map_values(|p: ProcInfoView| row_of(p)));
    } else {
        assert(procs.map_values(|p: ProcInfoView| row_of(p)) =~= Seq::<RowView>::empty());
    }
}

/// Every shown row comes from a process of the snapshot that the search matches.
pub proof fn law_shown_rows_match(procs: Seq<ProcInfoView>, tokens: Seq<Seq<char>>, i: int)
    requires
        0 <= i < matching_rows(procs, tokens).len(),
    ensures
        exists|j: int|
            0 <= j < procs.len() && matches_tokens(tokens, haystack(procs[j]))
                && #[trigger] row_of(procs[j]) == matching_rows(procs, tokens)[i],
    decreases procs.len(),
{
    let prev = matching_rows(procs.drop_last(), tokens);
    if i < prev.len() {
        law_shown_rows_match(procs.drop_last(), tokens, i);
        let j = choose|j: int|
            0 <= j < procs.drop_last().len() && matches_tokens(tokens, haystack(procs.drop_last()[j]))
                && #[trigger] row_of(procs.drop_last()[j]) == prev[i];
        assert(procs[j] == procs.drop_last()[j]);
    } else {
        assert(row_of(procs[procs.len() - 1]) == matching_rows(procs, tokens)[i]);
    }
}

/// A matching process's row is among the matching rows.
proof fn lemma_matching_row_kept(procs: Seq<ProcInfoView>, tokens: Seq<Seq<char>>, j: int)
    requires
        0 <= j < procs.len(),
        matches_tokens(tokens, haystack(procs[j])),
    ensures
        matching_rows(procs, tokens).contains(row_of(procs[j])),
    decreases procs.len(),
{
    let prev = matching_rows(procs.drop_last(), tokens);
    if j < procs.len() - 1 {
        assert(procs.drop_last()[j] == procs[j]);
        lemma_matching_row_kept(procs.drop_last(), tokens, j);
        let k = choose|k: int| 0 <= k < prev.len() && prev[k] == row_of(procs[j]);
        if matches_tokens(tokens, haystack(procs.last())) {
            assert(matching_rows(procs, tokens)[k] == prev[k]);
        }
    } else {
        let r = matching_rows(procs, tokens);
        assert(r[r.len() - 1] == row_of(procs[j]));
    }
}

/// The search ignores case in process names: when some word of the search,
/// lowercased, occurs in the lowercased name of a process of the snapshot,
/// that process's row is in the table, whatever the sort mode.
pub proof fn law_search_matches_lowercased_name(
    procs: Seq<ProcInfoView>,
    search: Seq<char>,
    mode: SortMode,
    j: int,
    k: int,
)
    requires
        0 <= j < procs.len(),
        0 <= k < words(search).len(),
        has_substring(lowercase(procs[j].name), lowercase(words(search)[k])),
    ensures
        sort_desc(matching_rows(procs, search_tokens(search)), mode).contains(row_of(procs[j])),
{
    let p = procs[j];
    let t = lowercase(words(search)[k]);
    let ln = lowercase(p.name);
    let tokens = search_tokens(search);
    let i = choose|i: int| 0 <= i && i + t.len() <= ln.len() && #[trigger] ln.subrange(i, i + t.len()) == t;
    let h = haystack(p);
    assert(h.subrange(i, i + t.len()) =~= ln.subrange(i, i + t.len()));
    assert(has_substring(h, t));
    assert(tokens[k] == t);
    assert(matches_tokens(tokens, h));
    lemma_matching_row_kept(procs, tokens, j);
    let m = matching_rows(procs, tokens);
    law_sort_is_permutation(m, mode);
    vstd::seq_lib::to_multiset_contains(m, row_of(p));
    vstd::seq_lib::to_multiset_contains(sort_desc(m, mode), row_of(p));
}

/// The search ignores case in commands too: when some word of the search,
/// lowercased, occurs in the lowercased command of a process of the
/// snapshot, that process's row is in the table, whatever the sort mode.
pub proof fn law_search_matches_lowercased_command(
    procs: Seq<ProcInfoView>,
    search: Seq<char>,
    mode: SortMode,
    j: int,
    k: int,
)
    requires
        0 <= j < procs.len(),
        0 <= k < words(search).len(),
        has_substring(lowercase(procs[j].cmd), lowercase(words(search)[k])),
    ensures
        sort_desc(matching_rows(procs, search_tokens(search)), mode).contains(row_of(procs[j])),
{
    let p = procs[j];
    let t = lowercase(words(search)[k]);
    let lc = lowercase(p.cmd);
    let tokens = search_tokens(search);
    let i = choose|i: int| 0 <= i && i + t.len() <= lc.len() && #[trigger] lc.subrange(i, i + t.len()) == t;
    let h = haystack(p);
    let off = lowercase(p.name).len() + 1;
    assert(h.subrange(off + i, off + i + t.len()) =~= lc.subrange(i, i + t.len()));
    assert(has_substring(h, t));
    assert(tokens[k] == t);
    assert(matches_tokens(tokens, h));
    lemma_matching_row_kept(procs, tokens, j);
    let m = matching_rows(procs, tokens);
    law_sort_is_permutation(m, mode);
    vstd::seq_lib::to_multiset_contains(m, row_of(p));
    vstd::seq_lib::to_multiset_contains(sort_desc(m, mode), row_of(p));
}

} // verus!
