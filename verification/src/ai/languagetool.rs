//! LanguageTool: applying the matches of a `/v2/check` answer to the text,
//! and the retry policy while the local server starts.
use vstd::prelude::*;

use crate::text::{chars_of, string_from_chars};

verus! {

/// One suggested replacement of a LanguageTool match.
#[derive(Debug, Clone, PartialEq, Eq)]
pub struct LtReplacement {
    pub value: String,
}

/// One LanguageTool match: `length` characters at `offset` (Unicode code
/// points), with its suggested replacements, best first.
#[derive(Debug, Clone, PartialEq, Eq)]
pub struct LtMatch {
    pub offset: usize,
    pub length: usize,
    pub replacements: Vec<LtReplacement>,
}

/// A match is applied only when it suggests at least one replacement.
pub open spec fn has_replacement(m: LtMatch) -> bool {
    m.replacements@.len() > 0
}

/// The text that replaces the span of `m`: its first suggestion.
pub open spec fn first_replacement(m: LtMatch) -> Seq<char> {
    m.replacements@[0].value@
}

/// Inserts index `k` into `order` (indices into `ms`, by decreasing offset)
/// after every entry whose offset is at least that of `ms[k]`.
pub open spec fn insert_by_offset(ms: Seq<LtMatch>, order: Seq<usize>, k: usize) -> Seq<usize>
    decreases order.len(),
{
    if order.len() == 0 {
        seq![k]
    } else if ms[order[0] as int].offset >= ms[k as int].offset {
        seq![order[0]] + insert_by_offset(ms, order.drop_first(), k)
    } else {
        seq![k] + order
    }
}

/// The order in which the first `n` matches are applied: the indices of those
/// that carry a replacement, by decreasing offset, matches of equal offset in
/// the order they were given in (a stable sort).
pub open spec fn application_order(ms: Seq<LtMatch>, n: int) -> Seq<usize>
    decreases n,
{
    if n <= 0 {
        seq![]
    } else {
        let prev = application_order(ms, n - 1);
        if has_replacement(ms[n - 1]) {
            insert_by_offset(ms, prev, (n - 1) as usize)
        } else {
            prev
        }
    }
}

/// End of the span of `m` in `cs`: `offset + length`, cut at the end of `cs`.
pub open spec fn span_end(cs: Seq<char>, m: LtMatch) -> int {
    if m.offset + m.length < cs.len() {
        m.offset + m.length
    } else {
        cs.len() as int
    }
}

/// `cs` with the span of `m` replaced by its first suggestion.
pub open spec fn splice_one(cs: Seq<char>, m: LtMatch) -> Seq<char> {
    cs.take(m.offset as int) + first_replacement(m) + cs.skip(span_end(cs, m))
}

/// `cs` after splicing the matches `order` designates, first entry first.
pub open spec fn splice_in_order(cs: Seq<char>, ms: Seq<LtMatch>, order: Seq<usize>) -> Seq<char>
    decreases order.len(),
{
    if order.len() == 0 {
        cs
    } else {
        splice_one(splice_in_order(cs, ms, order.drop_last()), ms[order.last() as int])
    }
}

/// The corrected text: every match with a replacement spliced in, from the
/// last offset to the first, so that earlier offsets stay valid.
pub open spec fn corrected_text(text: Seq<char>, ms: Seq<LtMatch>) -> Seq<char> {
    splice_in_order(text, ms, application_order(ms, ms.len() as int))
}

/// The matches can be applied to `text`: each one with a replacement starts
/// inside the text, and its end fits in a `usize`.
pub open spec fn matches_fit(text: Seq<char>, ms: Seq<LtMatch>) -> bool {
    forall|i: int|
        0 <= i < ms.len() && has_replacement(#[trigger] ms[i]) ==> {
            &&& ms[i].offset <= text.len()
            &&& ms[i].offset + ms[i].length <= usize::MAX
        }
}

/// `order` lists indices of `ms` with a replacement, by decreasing offset.
pub open spec fn well_ordered(ms: Seq<LtMatch>, order: Seq<usize>) -> bool {
    &&& forall|k: int| 0 <= k < order.len() ==> (#[trigger] order[k]) < ms.len()
    &&& forall|k: int| 0 <= k < order.len() ==> has_replacement(ms[#[trigger] order[k] as int])
    &&& forall|a: int, b: int|
        0 <= a < b < order.len() ==> ms[order[a] as int].offset >= ms[order[b] as int].offset
}

proof fn lemma_insert_at(ms: Seq<LtMatch>, s: Seq<usize>, k: usize, p: int)
    requires
        0 <= p <= s.len(),
        forall|j: int| 0 <= j < s.len() ==> (#[trigger] s[j]) < ms.len(),
        k < ms.len(),
        forall|j: int| 0 <= j < p ==> ms[#[trigger] s[j] as int].offset >= ms[k as int].offset,
        p < s.len() ==> ms[s[p] as int].offset < ms[k as int].offset,
    ensures
        insert_by_offset(ms, s, k) == s.insert(p, k),
    decreases s.len(),
{
    if s.len() == 0 {
        assert(s.insert(p, k) =~= seq![k]);
    } else if p == 0 {
        assert(s.insert(0, k) =~= seq![k] + s);
    } else {
        let t = s.drop_first();
        assert(ms[s[0] as int].offset >= ms[k as int].offset);
        assert forall|j: int| 0 <= j < p - 1 implies ms[#[trigger] t[j] as int].offset
            >= ms[k as int].offset by {
            assert(t[j] == s[j + 1]);
        }
        if p - 1 < t.len() {
            assert(t[p - 1] == s[p]);
        }
        lemma_insert_at(ms, t, k, p - 1);
        assert(s.insert(p, k) =~= seq![s[0]] + t.insert(p - 1, k));
    }
}

/// Indices of the matches to apply, in the order they are applied.
fn application_order_of(ms: &[LtMatch]) -> (order: Vec<usize>)
    ensures
        order@ == application_order(ms@, ms@.len() as int),
        well_ordered(ms@, order@),
{
    let mut order: Vec<usize> = Vec::new();
    let n = ms.len();
    let mut k: usize = 0;
    while k < n
        invariant
            n == ms@.len(),
            0 <= k <= n,
            order@ == application_order(ms@, k as int),
            well_ordered(ms@, order@),
        decreases n - k,
    {
        if ms[k].replacements.len() > 0 {
            let mut p: usize = 0;
            while p < order.len() && ms[order[p]].offset >= ms[k].offset
                invariant
                    0 <= p <= order@.len(),
                    well_ordered(ms@, order@),
                    k < ms@.len(),
                    forall|j: int| 0 <= j < p ==> ms@[#[trigger] order@[j] as int].offset
                        >= ms@[k as int].offset,
                decreases order@.len() - p,
            {
                p = p + 1;
            }
            proof {
                lemma_insert_at(ms@, order@, k, p as int);
            }
            let ghost before = order@;
            order.insert(p, k);
            assert forall|a: int, b: int| 0 <= a < b < order@.len() implies ms@[order@[a] as int].offset
                >= ms@[order@[b] as int].offset by {
                if b < p {
                } else if b == p {
                } else if a < p {
                    assert(order@[b] == before[b - 1]);
                    if p < before.len() {
                        assert(ms@[before[p as int] as int].offset >= ms@[before[b - 1] as int].offset);
                    }
                } else if a == p {
                    assert(order@[b] == before[b - 1]);
                    assert(ms@[before[p as int] as int].offset >= ms@[before[b - 1] as int].offset
                        || b - 1 == p);
                } else {
                    assert(order@[a] == before[a - 1]);
                    assert(order@[b] == before[b - 1]);
                }
            }
            assert forall|j: int| 0 <= j < order@.len() implies (#[trigger] order@[j]) < ms@.len()
                && has_replacement(ms@[order@[j] as int]) by {
                if j < p {
                    assert(order@[j] == before[j]);
                } else if j > p {
                    assert(order@[j] == before[j - 1]);
                }
            }
        }
        k = k + 1;
    }
    order
}

/// `cs[..start] + rep + cs[end..]`.
fn splice_chars(cs: &Vec<char>, start: usize, end: usize, rep: &Vec<char>) -> (r: Vec<char>)
    requires
        start <= end <= cs@.len(),
    ensures
        r@ == cs@.take(start as int) + rep@ + cs@.skip(end as int),
{
    let mut out: Vec<char> = Vec::new();
    let mut i: usize = 0;
    while i < start
        invariant
            start <= end <= cs@.len(),
            0 <= i <= start,
            out@ == cs@.take(i as int),
        decreases start - i,
    {
        out.push(cs[i]);
        assert(cs@.take(i as int).push(cs@[i as int]) == cs@.take(i + 1));
        i = i + 1;
    }
    let mut j: usize = 0;
    while j < rep.len()
        invariant
            0 <= j <= rep@.len(),
            out@ == cs@.take(start as int) + rep@.take(j as int),
        decreases rep@.len() - j,
    {
        out.push(rep[j]);
        assert(rep@.take(j as int).push(rep@[j as int]) == rep@.take(j + 1));
        j = j + 1;
    }
    assert(rep@.take(rep@.len() as int) == rep@);
    let mut e: usize = end;
    while e < cs.len()
        invariant
            end <= e <= cs@.len(),
            out@ == cs@.take(start as int) + rep@ + cs@.subrange(end as int, e as int),
        decreases cs@.len() - e,
    {
        out.push(cs[e]);
        assert(cs@.subrange(end as int, e as int).push(cs@[e as int]) == cs@.subrange(
            end as int,
            e + 1,
        ));
        e = e + 1;
    }
    assert(cs@.subrange(end as int, cs@.len() as int) == cs@.skip(end as int));
    out
}

/// Applies the LanguageTool matches to `text`: each match that suggests a
/// replacement has its span (cut at the end of the text) replaced by the first
/// suggestion, from the highest offset down.
pub fn apply_corrections(text: &str, matches: &[LtMatch]) -> (r: String)
    requires
        matches_fit(text@, matches@),
    ensures
        r@ == corrected_text(text@, matches@),
{
    let mut chars = chars_of(text);
    let order = application_order_of(matches);
    let n = order.len();
    let mut i: usize = 0;
    while i < n
        invariant
            n == order@.len(),
            0 <= i <= n,
            order@ == application_order(matches@, matches@.len() as int),
            well_ordered(matches@, order@),
            matches_fit(text@, matches@),
            chars@ == splice_in_order(text@, matches@, order@.take(i as int)),
            forall|k: int| i <= k < n ==> matches@[order@[k] as int].offset <= chars@.len(),
        decreases n - i,
    {
        let m = &matches[order[i]];
        assert(has_replacement(matches@[order@[i as int] as int]));
        let start = m.offset;
        let raw_end = m.offset + m.length;
        let end = if raw_end < chars.len() {
            raw_end
        } else {
            chars.len()
        };
        let rep = chars_of(m.replacements[0].value.as_str());
        let next = splice_chars(&chars, start, end, &rep);
        proof {
            let t = order@.take(i + 1);
            assert(t.drop_last() == order@.take(i as int));
            assert(t.last() == order@[i as int]);
            assert forall|k: int| i + 1 <= k < n implies matches@[order@[k] as int].offset
                <= next@.len() by {
                assert(matches@[order@[i as int] as int].offset >= matches@[order@[k] as int].offset);
            }
        }
        chars = next;
        i = i + 1;
    }
    assert(order@.take(n as int) == order@);
    string_from_chars(&chars)
}

/// Without any match that carries a replacement, the text comes back
/// unchanged (the popup then reports that nothing was wrong).
pub proof fn lemma_no_replacement_keeps_text(text: Seq<char>, ms: Seq<LtMatch>)
    requires
        forall|i: int| 0 <= i < ms.len() ==> !has_replacement(#[trigger] ms[i]),
    ensures
        corrected_text(text, ms) == text,
{
    lemma_order_empty(ms, ms.len() as int);
}

proof fn lemma_order_empty(ms: Seq<LtMatch>, n: int)
    requires
        n <= ms.len(),
        forall|i: int| 0 <= i < ms.len() ==> !has_replacement(#[trigger] ms[i]),
    ensures
        application_order(ms, n) == Seq::<usize>::empty(),
    decreases n,
{
    if n > 0 {
        lemma_order_empty(ms, n - 1);
        assert(!has_replacement(ms[n - 1]));
    }
}

/// A single match with a replacement: the text before its offset, its first
/// suggestion, then the text after its span (cut at the end of the text).
pub proof fn lemma_single_match(text: Seq<char>, m: LtMatch)
    requires
        has_replacement(m),
    ensures
        corrected_text(text, seq![m]) == text.take(m.offset as int) + first_replacement(m)
            + text.skip(span_end(text, m)),
{
    let ms = seq![m];
    assert(application_order(ms, 0) == Seq::<usize>::empty());
    assert(insert_by_offset(ms, Seq::<usize>::empty(), 0) == seq![0usize]);
    assert(application_order(ms, 1) == seq![0usize]);
    let order = seq![0usize];
    assert(order.drop_last() == Seq::<usize>::empty());
    assert(splice_in_order(text, ms, order.drop_last()) == text);
    assert(ms[order.last() as int] == m);
    assert(splice_in_order(text, ms, order) == splice_one(text, m));
}

/// Matches of equal offset keep the order they were given in.
pub open spec fn ties_in_given_order(ms: Seq<LtMatch>, order: Seq<usize>) -> bool {
    forall|a: int, b: int|
        0 <= a < b < order.len() && ms[order[a] as int].offset == ms[order[b] as int].offset
            ==> order[a] < order[b]
}

proof fn lemma_insert_keeps_order(ms: Seq<LtMatch>, s: Seq<usize>, k: usize)
    requires
        well_ordered(ms, s),
        ties_in_given_order(ms, s),
        k < ms.len(),
        has_replacement(ms[k as int]),
        forall|i: int| 0 <= i < s.len() ==> s[i] < k,
    ensures
        ({
            let r = insert_by_offset(ms, s, k);
            &&& well_ordered(ms, r)
            &&& ties_in_given_order(ms, r)
            &&& forall|j: int| 0 <= j < r.len() ==> r[j] == k || exists|i: int| 0 <= i < s.len() && s[i] == r[j]
        }),
    decreases s.len(),
{
    let r = insert_by_offset(ms, s, k);
    if s.len() == 0 {
        assert(r == seq![k]);
    } else if ms[s[0] as int].offset >= ms[k as int].offset {
        let rest = s.drop_first();
        assert forall|i: int| 0 <= i < rest.len() implies rest[i] < k by {
            assert(rest[i] == s[i + 1]);
        }
        assert forall|a: int, b: int| 0 <= a < b < rest.len() implies ms[rest[a] as int].offset
            >= ms[rest[b] as int].offset by {
            assert(rest[a] == s[a + 1] && rest[b] == s[b + 1]);
        }
        assert forall|a: int, b: int|
            0 <= a < b < rest.len() && ms[rest[a] as int].offset == ms[rest[b] as int].offset
            implies rest[a] < rest[b] by {
            assert(rest[a] == s[a + 1] && rest[b] == s[b + 1]);
        }
        assert forall|j: int| 0 <= j < rest.len() implies (#[trigger] rest[j]) < ms.len()
            && has_replacement(ms[rest[j] as int]) by {
            assert(rest[j] == s[j + 1]);
        }
        lemma_insert_keeps_order(ms, rest, k);
        let t = insert_by_offset(ms, rest, k);
        assert(r == seq![s[0]] + t);
        assert forall|j: int| 0 <= j < t.len() implies ms[t[j] as int].offset <= ms[s[0] as int].offset
            && (ms[t[j] as int].offset == ms[s[0] as int].offset ==> s[0] < t[j]) by {
            if t[j] != k {
                let i = choose|i: int| 0 <= i < rest.len() && rest[i] == t[j];
                assert(s[i + 1] == t[j]);
            }
        }
        assert forall|a: int, b: int| 0 <= a < b < r.len() implies ms[r[a] as int].offset
            >= ms[r[b] as int].offset by {
            if a == 0 {
                assert(r[b] == t[b - 1]);
            } else {
                assert(r[a] == t[a - 1] && r[b] == t[b - 1]);
            }
        }
        assert forall|a: int, b: int|
            0 <= a < b < r.len() && ms[r[a] as int].offset == ms[r[b] as int].offset implies r[a]
            < r[b] by {
            if a == 0 {
                assert(r[b] == t[b - 1]);
            } else {
                assert(r[a] == t[a - 1] && r[b] == t[b - 1]);
            }
        }
        assert forall|j: int| 0 <= j < r.len() implies (#[trigger] r[j]) < ms.len()
            && has_replacement(ms[r[j] as int]) by {
            if j > 0 {
                assert(r[j] == t[j - 1]);
            }
        }
        assert forall|j: int| 0 <= j < r.len() implies r[j] == k || exists|i: int|
            0 <= i < s.len() && s[i] == r[j] by {
            if j == 0 {
                assert(s[0] == r[0]);
            } else {
                assert(r[j] == t[j - 1]);
                if t[j - 1] != k {
                    let i = choose|i: int| 0 <= i < rest.len() && rest[i] == t[j - 1];
                    assert(s[i + 1] == r[j]);
                }
            }
        }
    } else {
        assert(r == seq![k] + s);
        assert forall|j: int| 0 <= j < r.len() implies r[j] == k || exists|i: int|
            0 <= i < s.len() && s[i] == r[j] by {
            if j > 0 {
                assert(s[j - 1] == r[j]);
            }
        }
        assert forall|a: int, b: int| 0 <= a < b < r.len() implies ms[r[a] as int].offset
            >= ms[r[b] as int].offset by {
            if a == 0 {
                assert(ms[s[0] as int].offset >= ms[s[b - 1] as int].offset || b - 1 == 0);
            }
        }
        assert forall|a: int, b: int|
            0 <= a < b < r.len() && ms[r[a] as int].offset == ms[r[b] as int].offset implies r[a]
            < r[b] by {
            if a == 0 {
                assert(ms[s[0] as int].offset >= ms[s[b - 1] as int].offset || b - 1 == 0);
            }
        }
    }
}

proof fn lemma_order_prefix(ms: Seq<LtMatch>, n: int)
    requires
        0 <= n <= ms.len(),
        ms.len() <= usize::MAX,
    ensures
        well_ordered(ms, application_order(ms, n)),
        ties_in_given_order(ms, application_order(ms, n)),
        forall|i: int| 0 <= i < application_order(ms, n).len() ==> application_order(ms, n)[i] < n,
    decreases n,
{
    if n > 0 {
        lemma_order_prefix(ms, n - 1);
        let prev = application_order(ms, n - 1);
        if has_replacement(ms[n - 1]) {
            lemma_insert_keeps_order(ms, prev, (n - 1) as usize);
            let r = application_order(ms, n);
            assert forall|i: int| 0 <= i < r.len() implies r[i] < n by {
                if r[i] != (n - 1) as usize {
                    let j = choose|j: int| 0 <= j < prev.len() && prev[j] == r[i];
                }
            }
        }
    }
}

proof fn lemma_insert_members(ms: Seq<LtMatch>, s: Seq<usize>, k: usize)
    requires
        forall|i: int| 0 <= i < s.len() ==> s[i] < k,
        forall|i: int, j: int| 0 <= i < j < s.len() ==> s[i] != s[j],
    ensures
        ({
            let r = insert_by_offset(ms, s, k);
            &&& exists|j: int| 0 <= j < r.len() && r[j] == k
            &&& forall|i: int| #![trigger s[i]] 0 <= i < s.len() ==> exists|j: int| 0 <= j < r.len() && r[j] == s[i]
            &&& forall|i: int, j: int| 0 <= i < j < r.len() ==> r[i] != r[j]
            &&& forall|j: int| 0 <= j < r.len() ==> r[j] == k || exists|i: int| 0 <= i < s.len() && s[i] == r[j]
        }),
    decreases s.len(),
{
    let r = insert_by_offset(ms, s, k);
    if s.len() == 0 {
        assert(r == seq![k]);
        assert(r[0] == k);
    } else if ms[s[0] as int].offset >= ms[k as int].offset {
        let rest = s.drop_first();
        assert forall|i: int| 0 <= i < rest.len() implies rest[i] < k by {
            assert(rest[i] == s[i + 1]);
        }
        assert forall|i: int, j: int| 0 <= i < j < rest.len() implies rest[i] != rest[j] by {
            assert(rest[i] == s[i + 1] && rest[j] == s[j + 1]);
        }
        lemma_insert_members(ms, rest, k);
        let t = insert_by_offset(ms, rest, k);
        assert(r == seq![s[0]] + t);
        let jk = choose|j: int| 0 <= j < t.len() && t[j] == k;
        assert(r[jk + 1] == k);
        assert forall|i: int| #![trigger s[i]] 0 <= i < s.len() implies exists|j: int| 0 <= j < r.len() && r[j] == s[i] by {
            if i == 0 {
                assert(r[0] == s[0]);
            } else {
                assert(rest[i - 1] == s[i]);
                let j = choose|j: int| 0 <= j < t.len() && t[j] == rest[i - 1];
                assert(r[j + 1] == s[i]);
            }
        }
        assert forall|j: int| 0 <= j < t.len() implies t[j] != s[0] by {
            if t[j] != k {
                let i = choose|i: int| 0 <= i < rest.len() && rest[i] == t[j];
                assert(rest[i] == s[i + 1]);
            }
        }
        assert forall|i: int, j: int| 0 <= i < j < r.len() implies r[i] != r[j] by {
            if i == 0 {
                assert(r[j] == t[j - 1]);
            } else {
                assert(r[i] == t[i - 1] && r[j] == t[j - 1]);
            }
        }
        assert forall|j: int| 0 <= j < r.len() implies r[j] == k || exists|i: int|
            0 <= i < s.len() && s[i] == r[j] by {
            if j == 0 {
                assert(s[0] == r[0]);
            } else {
                assert(r[j] == t[j - 1]);
                if t[j - 1] != k {
                    let i = choose|i: int| 0 <= i < rest.len() && rest[i] == t[j - 1];
                    assert(s[i + 1] == r[j]);
                }
            }
        }
    } else {
        assert(r == seq![k] + s);
        assert(r[0] == k);
        assert forall|i: int| #![trigger s[i]] 0 <= i < s.len() implies exists|j: int| 0 <= j < r.len() && r[j] == s[i] by {
            assert(r[i + 1] == s[i]);
        }
        assert forall|i: int, j: int| 0 <= i < j < r.len() implies r[i] != r[j] by {
            if i == 0 {
                assert(r[j] == s[j - 1]);
            } else {
                assert(r[i] == s[i - 1] && r[j] == s[j - 1]);
            }
        }
        assert forall|j: int| 0 <= j < r.len() implies r[j] == k || exists|i: int|
            0 <= i < s.len() && s[i] == r[j] by {
            if j > 0 {
                assert(s[j - 1] == r[j]);
            }
        }
    }
}

proof fn lemma_order_members(ms: Seq<LtMatch>, n: int)
    requires
        0 <= n <= ms.len(),
        ms.len() <= usize::MAX,
    ensures
        forall|k: int| 0 <= k < n && has_replacement(#[trigger] ms[k]) ==> exists|i: int|
            0 <= i < application_order(ms, n).len() && application_order(ms, n)[i] == k,
        forall|i: int, j: int|
            0 <= i < j < application_order(ms, n).len() ==> application_order(ms, n)[i]
                != application_order(ms, n)[j],
    decreases n,
{
    if n > 0 {
        lemma_order_members(ms, n - 1);
        lemma_order_prefix(ms, n - 1);
        let prev = application_order(ms, n - 1);
        let r = application_order(ms, n);
        if has_replacement(ms[n - 1]) {
            lemma_insert_members(ms, prev, (n - 1) as usize);
            assert forall|k: int| 0 <= k < n && has_replacement(#[trigger] ms[k]) implies exists|i: int|
                0 <= i < r.len() && r[i] == k by {
                if k < n - 1 {
                    let i0 = choose|i: int| 0 <= i < prev.len() && prev[i] == k;
                    assert(exists|j: int| 0 <= j < r.len() && r[j] == prev[i0]);
                }
            }
        }
    }
}

/// The matches are applied from the highest offset down, each one with a
/// replacement exactly once (and no other), and matches of equal offset in
/// the order they were given in.
pub proof fn lemma_application_order(ms: Seq<LtMatch>)
    requires
        ms.len() <= usize::MAX,
    ensures
        well_ordered(ms, application_order(ms, ms.len() as int)),
        ties_in_given_order(ms, application_order(ms, ms.len() as int)),
        forall|k: int| 0 <= k < ms.len() && has_replacement(#[trigger] ms[k]) ==> exists|i: int|
            0 <= i < application_order(ms, ms.len() as int).len() && application_order(
                ms,
                ms.len() as int,
            )[i] == k,
        forall|i: int, j: int|
            0 <= i < j < application_order(ms, ms.len() as int).len() ==> application_order(
                ms,
                ms.len() as int,
            )[i] != application_order(ms, ms.len() as int)[j],
{
    lemma_order_prefix(ms, ms.len() as int);
    lemma_order_members(ms, ms.len() as int);
}

/// Two matches with replacements, the first ending before the second starts,
/// both inside the text: each replaces its own span of the text as given,
/// whichever order LanguageTool listed them in.
pub proof fn lemma_disjoint_matches(text: Seq<char>, m1: LtMatch, m2: LtMatch)
    requires
        has_replacement(m1),
        has_replacement(m2),
        m1.offset < m2.offset,
        m1.offset + m1.length <= m2.offset,
        m2.offset <= text.len(),
    ensures
        corrected_text(text, seq![m1, m2]) == text.take(m1.offset as int) + first_replacement(m1)
            + text.subrange(m1.offset + m1.length, m2.offset as int) + first_replacement(m2)
            + text.skip(span_end(text, m2)),
        corrected_text(text, seq![m2, m1]) == corrected_text(text, seq![m1, m2]),
{
    let expected = text.take(m1.offset as int) + first_replacement(m1) + text.subrange(
        m1.offset + m1.length,
        m2.offset as int,
    ) + first_replacement(m2) + text.skip(span_end(text, m2));
    let t1 = splice_one(text, m2);
    assert(t1.len() >= m2.offset);
    assert(span_end(t1, m1) == m1.offset + m1.length);
    assert(t1.take(m1.offset as int) == text.take(m1.offset as int));
    assert(t1.skip(m1.offset + m1.length) == text.subrange(m1.offset + m1.length, m2.offset as int)
        + first_replacement(m2) + text.skip(span_end(text, m2)));
    assert(splice_one(t1, m1) == expected);

    let a = seq![m1, m2];
    assert(application_order(a, 1) == seq![0usize]) by {
        assert(application_order(a, 0) == Seq::<usize>::empty());
        assert(insert_by_offset(a, Seq::<usize>::empty(), 0) == seq![0usize]);
    }
    assert(insert_by_offset(a, seq![0usize], 1) == seq![1usize, 0usize]);
    let oa = seq![1usize, 0usize];
    assert(oa.drop_last() == seq![1usize]);
    assert(seq![1usize].drop_last() == Seq::<usize>::empty());
    assert(splice_in_order(text, a, Seq::<usize>::empty()) == text);
    assert(seq![1usize].last() == 1usize);
    assert(a[1] == m2);
    assert(splice_in_order(text, a, seq![1usize]) == t1);
    assert(oa.last() == 0usize);
    assert(a[0] == m1);
    assert(splice_in_order(text, a, oa) == expected);

    let b = seq![m2, m1];
    assert(application_order(b, 1) == seq![0usize]) by {
        assert(application_order(b, 0) == Seq::<usize>::empty());
        assert(insert_by_offset(b, Seq::<usize>::empty(), 0) == seq![0usize]);
    }
    assert(seq![0usize].drop_first() == Seq::<usize>::empty());
    assert(insert_by_offset(b, Seq::<usize>::empty(), 1) == seq![1usize]);
    assert(insert_by_offset(b, seq![0usize], 1) == seq![0usize] + seq![1usize]);
    let ob = seq![0usize, 1usize];
    assert(seq![0usize] + seq![1usize] == ob);
    assert(ob.drop_last() == seq![0usize]);
    assert(seq![0usize].drop_last() == Seq::<usize>::empty());
    assert(splice_in_order(text, b, Seq::<usize>::empty()) == text);
    assert(seq![0usize].last() == 0usize);
    assert(b[0] == m2);
    assert(splice_in_order(text, b, seq![0usize]) == t1);
    assert(ob.last() == 1usize);
    assert(b[1] == m1);
    assert(splice_in_order(text, b, ob) == expected);
}

/// Matches listed by increasing offset, each with a replacement, each span
/// ending before the next match starts, the last one starting inside the text.
pub open spec fn disjoint_ascending(text: Seq<char>, ms: Seq<LtMatch>) -> bool {
    &&& forall|i: int| 0 <= i < ms.len() ==> has_replacement(#[trigger] ms[i])
    &&& forall|i: int, j: int|
        0 <= i < j < ms.len() ==> ms[i].offset < ms[j].offset && ms[i].offset + ms[i].length
            <= ms[j].offset
    &&& ms.len() > 0 ==> ms.last().offset <= text.len()
}

/// Each match's span of `text` replaced by its first suggestion, the text
/// between the spans kept as it is.
pub open spec fn each_in_place(text: Seq<char>, ms: Seq<LtMatch>) -> Seq<char>
    decreases ms.len(),
{
    if ms.len() == 0 {
        text
    } else {
        let m = ms.last();
        each_in_place(text.take(m.offset as int), ms.drop_last()) + first_replacement(m)
            + text.skip(span_end(text, m))
    }
}

/// Indices `n - 1` down to `0`.
spec fn descending(n: int) -> Seq<usize> {
    Seq::new(n as nat, |i: int| (n - 1 - i) as usize)
}

proof fn lemma_descending_split(n: int)
    requires
        0 < n <= usize::MAX,
    ensures
        descending(n) == seq![(n - 1) as usize] + descending(n - 1),
{
    assert(descending(n) =~= seq![(n - 1) as usize] + descending(n - 1));
}

proof fn lemma_order_of_ascending(text: Seq<char>, ms: Seq<LtMatch>, n: int)
    requires
        ms.len() <= usize::MAX,
        0 <= n <= ms.len(),
        disjoint_ascending(text, ms),
    ensures
        application_order(ms, n) == descending(n),
    decreases n,
{
    if n > 0 {
        lemma_order_of_ascending(text, ms, n - 1);
        assert(has_replacement(ms[n - 1]));
        if n > 1 {
            let prev = descending(n - 1);
            assert(prev[0] == (n - 2) as usize);
            assert(ms[n - 2].offset < ms[n - 1].offset);
            assert(insert_by_offset(ms, prev, (n - 1) as usize) == seq![(n - 1) as usize] + prev);
        } else {
            assert(descending(0) =~= Seq::<usize>::empty());
            assert(insert_by_offset(ms, Seq::<usize>::empty(), 0) == seq![0usize]);
            assert(descending(1) =~= seq![0usize]);
        }
        lemma_descending_split(n);
    }
}

proof fn lemma_splice_first(cs: Seq<char>, ms: Seq<LtMatch>, a: usize, rest: Seq<usize>)
    ensures
        splice_in_order(cs, ms, seq![a] + rest) == splice_in_order(
            splice_one(cs, ms[a as int]),
            ms,
            rest,
        ),
    decreases rest.len(),
{
    let s = seq![a] + rest;
    if rest.len() == 0 {
        assert(s =~= seq![a]);
        assert(s.drop_last() =~= Seq::<usize>::empty());
        assert(s.last() == a);
        assert(splice_in_order(cs, ms, s.drop_last()) == cs);
        assert(splice_in_order(splice_one(cs, ms[a as int]), ms, rest) == splice_one(cs, ms[a as int]));
    } else {
        assert(s.drop_last() =~= seq![a] + rest.drop_last());
        assert(s.last() == rest.last());
        lemma_splice_first(cs, ms, a, rest.drop_last());
    }
}

proof fn lemma_splice_prefix(a: Seq<char>, b: Seq<char>, ms: Seq<LtMatch>, k: int, text: Seq<char>)
    requires
        ms.len() <= usize::MAX,
        0 <= k <= ms.len(),
        disjoint_ascending(text, ms),
        k > 0 ==> ms[k - 1].offset + ms[k - 1].length <= a.len(),
    ensures
        splice_in_order(a + b, ms, descending(k)) == splice_in_order(a, ms, descending(k)) + b,
    decreases k,
{
    if k == 0 {
        assert(descending(0) =~= Seq::<usize>::empty());
    } else {
        let m = ms[k - 1];
        lemma_descending_split(k);
        lemma_splice_first(a + b, ms, (k - 1) as usize, descending(k - 1));
        lemma_splice_first(a, ms, (k - 1) as usize, descending(k - 1));
        assert(span_end(a + b, m) == m.offset + m.length);
        assert(span_end(a, m) == m.offset + m.length);
        assert((a + b).take(m.offset as int) == a.take(m.offset as int));
        assert((a + b).skip(m.offset + m.length) == a.skip(m.offset + m.length) + b);
        let a2 = splice_one(a, m);
        assert(splice_one(a + b, m) == a2 + b);
        if k > 1 {
            assert(ms[k - 2].offset + ms[k - 2].length <= ms[k - 1].offset);
        }
        lemma_splice_prefix(a2, b, ms, k - 1, text);
    }
}

proof fn lemma_in_place_prefix(text: Seq<char>, ms: Seq<LtMatch>, n: int, t: Seq<char>)
    requires
        ms.len() <= usize::MAX,
        0 <= n <= ms.len(),
        disjoint_ascending(text, ms),
        n > 0 ==> ms[n - 1].offset <= t.len(),
    ensures
        splice_in_order(t, ms, descending(n)) == each_in_place(t, ms.take(n)),
    decreases n,
{
    if n == 0 {
        assert(descending(0) =~= Seq::<usize>::empty());
        assert(ms.take(0) =~= Seq::<LtMatch>::empty());
    } else {
        let m = ms[n - 1];
        let o = m.offset as int;
        lemma_descending_split(n);
        lemma_splice_first(t, ms, (n - 1) as usize, descending(n - 1));
        let a = t.take(o);
        let b = first_replacement(m) + t.skip(span_end(t, m));
        assert(splice_one(t, m) == a + b);
        if n > 1 {
            assert(ms[n - 2].offset < ms[n - 1].offset);
            assert(ms[n - 2].offset + ms[n - 2].length <= ms[n - 1].offset);
        }
        lemma_splice_prefix(a, b, ms, n - 1, text);
        lemma_in_place_prefix(text, ms, n - 1, a);
        let mt = ms.take(n);
        assert(mt.last() == m);
        assert(mt.drop_last() =~= ms.take(n - 1));
        assert(each_in_place(a, ms.take(n - 1)) + b == each_in_place(a, ms.take(n - 1))
            + first_replacement(m) + t.skip(span_end(t, m)));
    }
}

/// Matches that do not overlap, listed by increasing offset: each one
/// replaces its own span of the text as given; applying from the last offset
/// down keeps every earlier offset valid.
pub proof fn lemma_disjoint_matches_in_place(text: Seq<char>, ms: Seq<LtMatch>)
    requires
        ms.len() <= usize::MAX,
        disjoint_ascending(text, ms),
    ensures
        corrected_text(text, ms) == each_in_place(text, ms),
{
    let n = ms.len() as int;
    lemma_order_of_ascending(text, ms, n);
    lemma_in_place_prefix(text, ms, n, text);
    assert(ms.take(n) =~= ms);
}

// ── Answer and retries ───────────────────────────────────────────────────────

/// Attempts made while the local LanguageTool server starts.
pub const MAX_RETRIES: u32 = 14;

/// Pause after a refused connection, in milliseconds.
pub const RETRY_DELAY_MS: u64 = 900;

/// The result of LanguageTool alone: the corrected text, no rewordings.
pub fn lt_result(correction: String) -> (r: super::AiResult)
    ensures
        r.correction == correction,
        r.rewordings_are(Seq::<char>::empty()),
{
    super::AiResult {
        correction,
        simple: String::new(),
        professional: String::new(),
        formal: String::new(),
        short: String::new(),
        creative: String::new(),
    }
}

/// What to do after attempt number `attempt` (from 0) failed.
#[derive(Debug, Clone, Copy, PartialEq, Eq, Structural)]
pub enum RetryStep {
    /// The error is not a refused connection: report it now.
    Fail,
    /// Pause `RETRY_DELAY_MS`, then try again.
    PauseThenRetry,
    /// Pause `RETRY_DELAY_MS`, then report the last error: no attempt is left.
    PauseThenGiveUp,
}

/// Only a refused connection (server still starting) is retried, up to
/// `MAX_RETRIES` attempts in all, with a pause after each refusal.
pub open spec fn retry_step_of(attempt: u32, connection_error: bool) -> RetryStep {
    if !connection_error {
        RetryStep::Fail
    } else if attempt + 1 < MAX_RETRIES {
        RetryStep::PauseThenRetry
    } else {
        RetryStep::PauseThenGiveUp
    }
}

/// What to do after attempt number `attempt` (from 0) failed.
pub fn after_failed_attempt(attempt: u32, connection_error: bool) -> (r: RetryStep)
    requires
        attempt < MAX_RETRIES,
    ensures
        r == retry_step_of(attempt, connection_error),
{
    if !connection_error {
        RetryStep::Fail
    } else if attempt + 1 < MAX_RETRIES {
        RetryStep::PauseThenRetry
    } else {
        RetryStep::PauseThenGiveUp
    }
}

/// While the server refuses connections, exactly `MAX_RETRIES` attempts are
/// made: every one but the last is retried, the last gives up.
pub proof fn lemma_retries_exhaust_at_max(attempt: u32)
    requires
        attempt < MAX_RETRIES,
    ensures
        retry_step_of(attempt, true) == (if attempt + 1 == MAX_RETRIES {
            RetryStep::PauseThenGiveUp
        } else {
            RetryStep::PauseThenRetry
        }),
{
}

} // verus!
