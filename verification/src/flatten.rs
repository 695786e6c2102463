//! The flat key-map serialization of components, and the mini-syntax parse
//! that supports it.
//!
//! `as_map` turns a component into an ordered mapping from wire key to
//! encoded value.  A field with a wire name maps directly; a field with an
//! empty wire name (a *flatten* field) contributes the key/value pairs parsed
//! from its own encoded text: the text is split on `;`, each piece is split
//! on its first `:`, and both sides are trimmed.  Later entries overwrite
//! earlier ones with the same key (last write wins) while keeping the
//! position of the first write.

use vstd::prelude::*;

use crate::component::{
    spec_delta_segment, spec_encode_component, spec_encode_fields_delta, spec_encode_value,
    value_eq, Component, Field,
};

verus! {

/// ASCII whitespace, as trimmed by the parse.
pub open spec fn is_ws(c: char) -> bool {
    c == ' ' || c == '\t' || c == '\n' || c == '\r'
}

/// `s` without leading whitespace.
pub open spec fn trim_left(s: Seq<char>) -> Seq<char>
    decreases s.len(),
{
    if s.len() > 0 && is_ws(s[0]) {
        trim_left(s.drop_first())
    } else {
        s
    }
}

/// `s` without trailing whitespace.
pub open spec fn trim_right(s: Seq<char>) -> Seq<char>
    decreases s.len(),
{
    if s.len() > 0 && is_ws(s.last()) {
        trim_right(s.drop_last())
    } else {
        s
    }
}

/// `s` without leading or trailing whitespace.
pub open spec fn spec_trim(s: Seq<char>) -> Seq<char> {
    trim_right(trim_left(s))
}

/// The position of the first occurrence of `c` in `s`, if any.
pub open spec fn spec_find(s: Seq<char>, c: char) -> Option<int>
    decreases s.len(),
{
    if s.len() == 0 {
        None
    } else if s[0] == c {
        Some(0)
    } else {
        match spec_find(s.drop_first(), c) {
            None => None,
            Some(j) => Some(j + 1),
        }
    }
}

/// `spec_find` returns exactly the first occurrence.
pub proof fn lemma_spec_find(s: Seq<char>, c: char)
    ensures
        match spec_find(s, c) {
            None => forall|j: int| 0 <= j < s.len() ==> s[j] != c,
            Some(i) => 0 <= i < s.len() && s[i] == c && forall|j: int| 0 <= j < i ==> s[j] != c,
        },
    decreases s.len(),
{
    if s.len() > 0 && s[0] != c {
        lemma_spec_find(s.drop_first(), c);
        match spec_find(s.drop_first(), c) {
            None => {
                assert forall|j: int| 0 <= j < s.len() implies s[j] != c by {
                    if j > 0 {
                        assert(s.drop_first()[j - 1] != c);
                    }
                }
            },
            Some(i) => {
                assert(s.drop_first()[i] == s[i + 1]);
                assert forall|j: int| 0 <= j < i + 1 implies s[j] != c by {
                    if j > 0 {
                        assert(s.drop_first()[j - 1] != c);
                    }
                }
            },
        }
    }
}

/// The key/value pair parsed from one `;`-free segment: nothing when the
/// segment has no `:`; otherwise the trimmed text before the first `:` maps
/// to the trimmed text after it.
pub open spec fn spec_pair_of_segment(seg: Seq<char>) -> Seq<(Seq<char>, Seq<char>)> {
    match spec_find(seg, ':') {
        None => Seq::empty(),
        Some(j) => seq![
            (spec_trim(seg.subrange(0, j)), spec_trim(seg.subrange(j + 1, seg.len() as int))),
        ],
    }
}

/// All key/value pairs parsed from `s`: split on `;`, then parse each
/// segment, in order.
pub open spec fn spec_pairs_of(s: Seq<char>) -> Seq<(Seq<char>, Seq<char>)>
    decreases s.len(),
{
    match spec_find(s, ';') {
        None => spec_pair_of_segment(s),
        Some(j) => if 0 <= j < s.len() {
            spec_pair_of_segment(s.subrange(0, j)) + spec_pairs_of(
                s.subrange(j + 1, s.len() as int),
            )
        } else {
            // spec_find never returns an out-of-range index
            spec_pair_of_segment(s)
        },
    }
}

/// Insert or overwrite: a present key keeps its position and takes the new
/// value; an absent key is appended.
pub open spec fn spec_upsert(
    m: Seq<(Seq<char>, Seq<char>)>,
    k: Seq<char>,
    v: Seq<char>,
) -> Seq<(Seq<char>, Seq<char>)>
    decreases m.len(),
{
    if m.len() == 0 {
        seq![(k, v)]
    } else if m[0].0 == k {
        seq![(k, v)] + m.drop_first()
    } else {
        seq![m[0]] + spec_upsert(m.drop_first(), k, v)
    }
}

/// Merge a pair list into a map, entry by entry, last write winning.
pub open spec fn spec_merge(
    m: Seq<(Seq<char>, Seq<char>)>,
    entries: Seq<(Seq<char>, Seq<char>)>,
) -> Seq<(Seq<char>, Seq<char>)>
    decreases entries.len(),
{
    if entries.len() == 0 {
        m
    } else {
        spec_merge(spec_upsert(m, entries[0].0, entries[0].1), entries.drop_first())
    }
}

/// The pairs one field contributes to the key map: its own parse for a
/// flatten field, the single `key -> encoded value` entry otherwise.
pub open spec fn spec_field_entries(f: Field) -> Seq<(Seq<char>, Seq<char>)> {
    if f.key@.len() == 0 {
        spec_pairs_of(spec_encode_value(f.value))
    } else {
        seq![(f.key@, spec_encode_value(f.value))]
    }
}

/// The pairs all fields contribute, in declared order.
pub open spec fn spec_fields_entries(fields: Seq<Field>) -> Seq<(Seq<char>, Seq<char>)>
    decreases fields.len(),
{
    if fields.len() == 0 {
        Seq::empty()
    } else {
        spec_field_entries(fields[0]) + spec_fields_entries(fields.drop_first())
    }
}

/// The flat key map of a component: every field's contribution merged in
/// declared order, starting from the empty map.
pub open spec fn spec_as_map(c: Component) -> Seq<(Seq<char>, Seq<char>)> {
    spec_merge(Seq::empty(), spec_fields_entries(c.fields@))
}

/// The text of an entry list of owned strings.
pub open spec fn entries_view(v: Seq<(String, String)>) -> Seq<(Seq<char>, Seq<char>)> {
    v.map_values(|p: (String, String)| (p.0@, p.1@))
}

/// No key occurs twice.
pub open spec fn unique_keys(m: Seq<(Seq<char>, Seq<char>)>) -> bool {
    forall|i: int, j: int| 0 <= i < j < m.len() ==> m[i].0 != m[j].0
}

/// An upsert keeps keys unique, and introduces no key but its own.
proof fn lemma_upsert_unique(m: Seq<(Seq<char>, Seq<char>)>, k: Seq<char>, v: Seq<char>)
    requires
        unique_keys(m),
    ensures
        unique_keys(spec_upsert(m, k, v)),
        forall|i: int|
            0 <= i < spec_upsert(m, k, v).len() ==> (#[trigger] spec_upsert(m, k, v)[i].0 == k
                || exists|j: int| 0 <= j < m.len() && m[j].0 == spec_upsert(m, k, v)[i].0),
    decreases m.len(),
{
    let r = spec_upsert(m, k, v);
    if m.len() == 0 {
        assert(r == seq![(k, v)]);
        assert(r[0].0 == k);
    } else if m[0].0 == k {
        assert(r == seq![(k, v)] + m.drop_first());
        assert forall|i: int, j: int| 0 <= i < j < r.len() implies r[i].0 != r[j].0 by {
            if i == 0 {
                assert(r[j].0 == m[j].0);
                assert(m[0].0 != m[j].0);
            } else {
                assert(r[i].0 == m[i].0 && r[j].0 == m[j].0);
            }
        }
        assert forall|i: int|
            0 <= i < r.len() implies (r[i].0 == k || exists|j: int|
            0 <= j < m.len() && m[j].0 == r[i].0) by {
            if i > 0 {
                assert(m[i].0 == r[i].0);
            }
        }
    } else {
        assert forall|i: int, j: int|
            0 <= i < j < m.drop_first().len() implies m.drop_first()[i].0
            != m.drop_first()[j].0 by {
            assert(m.drop_first()[i] == m[i + 1] && m.drop_first()[j] == m[j + 1]);
        }
        lemma_upsert_unique(m.drop_first(), k, v);
        let rr = spec_upsert(m.drop_first(), k, v);
        assert(r == seq![m[0]] + rr);
        assert forall|i: int, j: int| 0 <= i < j < r.len() implies r[i].0 != r[j].0 by {
            if i == 0 {
                assert(r[j].0 == rr[j - 1].0);
                if rr[j - 1].0 == k {
                } else {
                    let jj = choose|jj: int|
                        0 <= jj < m.drop_first().len() && m.drop_first()[jj].0 == rr[j - 1].0;
                    assert(m[jj + 1].0 == rr[j - 1].0);
                    assert(m[0].0 != m[jj + 1].0);
                }
            } else {
                assert(r[i].0 == rr[i - 1].0 && r[j].0 == rr[j - 1].0);
            }
        }
        assert forall|i: int|
            0 <= i < r.len() implies (r[i].0 == k || exists|j: int|
            0 <= j < m.len() && m[j].0 == r[i].0) by {
            if i == 0 {
                assert(m[0].0 == r[0].0);
            } else {
                assert(r[i].0 == rr[i - 1].0);
                if rr[i - 1].0 != k {
                    let jj = choose|jj: int|
                        0 <= jj < m.drop_first().len() && m.drop_first()[jj].0 == rr[i - 1].0;
                    assert(m[jj + 1].0 == rr[i - 1].0);
                }
            }
        }
    }
}

/// Merging any entry list into a map with unique keys keeps them unique.
proof fn lemma_merge_unique(
    m: Seq<(Seq<char>, Seq<char>)>,
    entries: Seq<(Seq<char>, Seq<char>)>,
)
    requires
        unique_keys(m),
    ensures
        unique_keys(spec_merge(m, entries)),
    decreases entries.len(),
{
    if entries.len() > 0 {
        lemma_upsert_unique(m, entries[0].0, entries[0].1);
        lemma_merge_unique(spec_upsert(m, entries[0].0, entries[0].1), entries.drop_first());
    }
}

/// The key map of a component maps each key at most once.
pub proof fn lemma_as_map_unique(c: Component)
    ensures
        unique_keys(spec_as_map(c)),
{
    lemma_merge_unique(Seq::empty(), spec_fields_entries(c.fields@));
}

// ---------------------------------------------------------------------------
// Trim lemmas
// ---------------------------------------------------------------------------
proof fn lemma_trim_left_is_subrange(s: Seq<char>, k: int)
    requires
        0 <= k <= s.len(),
        forall|j: int| 0 <= j < k ==> is_ws(s[j]),
        k < s.len() ==> !is_ws(s[k]),
    ensures
        trim_left(s) == s.subrange(k, s.len() as int),
    decreases k,
{
    if k == 0 {
        assert(s.subrange(0, s.len() as int) =~= s);
    } else {
        assert(is_ws(s[0]));
        lemma_trim_left_is_subrange(s.drop_first(), k - 1);
        assert(s.drop_first().subrange(k - 1, s.drop_first().len() as int) =~= s.subrange(
            k,
            s.len() as int,
        ));
    }
}

proof fn lemma_trim_right_is_subrange(s: Seq<char>, k: int)
    requires
        0 <= k <= s.len(),
        forall|j: int| k <= j < s.len() ==> is_ws(s[j]),
        k > 0 ==> !is_ws(s[k - 1]),
    ensures
        trim_right(s) == s.subrange(0, k),
    decreases s.len() - k,
{
    if k == s.len() {
        assert(s.subrange(0, s.len() as int) =~= s);
    } else {
        assert(is_ws(s.last()));
        lemma_trim_right_is_subrange(s.drop_last(), k);
        assert(s.drop_last().subrange(0, k) =~= s.subrange(0, k));
    }
}

// ---------------------------------------------------------------------------
// Executable parse
// ---------------------------------------------------------------------------
fn is_ws_char(c: char) -> (r: bool)
    ensures
        r == is_ws(c),
{
    c == ' ' || c == '\t' || c == '\n' || c == '\r'
}

/// The position of the first occurrence of `c` in `s`, if any.
fn find_char(s: &str, c: char) -> (r: Option<usize>)
    ensures
        match r {
            Some(i) => spec_find(s@, c) == Some(i as int),
            None => spec_find(s@, c) is None,
        },
{
    let n = s.unicode_len();
    let mut i: usize = 0;
    while i < n
        invariant
            n == s@.len(),
            i <= n,
            forall|j: int| 0 <= j < i ==> s@[j] != c,
        decreases n - i,
    {
        if s.get_char(i) == c {
            proof {
                lemma_spec_find(s@, c);
                match spec_find(s@, c) {
                    None => {
                        assert(s@[i as int] == c);
                        assert(false);
                    },
                    Some(k) => {
                        if k < i {
                            assert(s@[k] != c);
                            assert(false);
                        }
                        if k > i {
                            assert(s@[i as int] != c);
                            assert(false);
                        }
                    },
                }
            }
            return Some(i);
        }
        i = i + 1;
    }
    proof {
        lemma_spec_find(s@, c);
        match spec_find(s@, c) {
            None => {},
            Some(k) => {
                assert(s@[k] != c);
                assert(false);
            },
        }
    }
    None
}

/// `s` with leading and trailing whitespace removed.
fn trim_str(s: &str) -> (r: String)
    ensures
        r@ == spec_trim(s@),
{
    let n = s.unicode_len();
    let mut a: usize = 0;
    while a < n && is_ws_char(s.get_char(a))
        invariant
            n == s@.len(),
            a <= n,
            forall|j: int| 0 <= j < a ==> is_ws(s@[j]),
        decreases n - a,
    {
        a = a + 1;
    }
    proof {
        lemma_trim_left_is_subrange(s@, a as int);
    }
    let mut b: usize = n;
    while b > a && is_ws_char(s.get_char(b - 1))
        invariant
            n == s@.len(),
            a <= b <= n,
            forall|j: int| b <= j < n ==> is_ws(s@[j]),
        decreases b,
    {
        b = b - 1;
    }
    proof {
        let t = s@.subrange(a as int, s@.len() as int);
        assert forall|j: int| (b - a) <= j < t.len() implies is_ws(t[j]) by {
            assert(t[j] == s@[a + j]);
        }
        if b > a {
            assert(t[b - a - 1] == s@[b - 1]);
        }
        lemma_trim_right_is_subrange(t, b - a);
        assert(t.subrange(0, b - a) =~= s@.subrange(a as int, b as int));
    }
    String::from_str(s.substring_char(a, b))
}

/// The 0- or 1-entry pair list parsed from one `;`-free segment.
fn parse_segment(seg: &str) -> (r: Vec<(String, String)>)
    ensures
        entries_view(r@) == spec_pair_of_segment(seg@),
{
    let mut r: Vec<(String, String)> = Vec::new();
    match find_char(seg, ':') {
        None => {
            assert(entries_view(r@) =~= spec_pair_of_segment(seg@));
        },
        Some(j) => {
            proof {
                lemma_spec_find(seg@, ':');
            }
            let n = seg.unicode_len();
            let key = trim_str(seg.substring_char(0, j));
            let val = trim_str(seg.substring_char(j + 1, n));
            r.push((key, val));
            assert(entries_view(r@) =~= spec_pair_of_segment(seg@));
        },
    }
    r
}

/// All key/value pairs of the `key: value;` mini-syntax in `s`: segments
/// split on `;`, each segment split on its first `:`, both sides trimmed.
pub fn parse_pairs(s: &str) -> (r: Vec<(String, String)>)
    ensures
        entries_view(r@) == spec_pairs_of(s@),
    decreases s@.len(),
{
    match find_char(s, ';') {
        None => parse_segment(s),
        Some(j) => {
            proof {
                lemma_spec_find(s@, ';');
            }
            let n = s.unicode_len();
            let mut r = parse_segment(s.substring_char(0, j));
            let mut rest = parse_pairs(s.substring_char(j + 1, n));
            let ghost r0 = r@;
            let ghost rest0 = rest@;
            let m = rest.len();
            let mut i: usize = 0;
            while i < m
                invariant
                    m == rest0.len(),
                    rest@ == rest0,
                    i <= m,
                    r@ == r0 + rest0.subrange(0, i as int),
                decreases m - i,
            {
                let p = (rest[i].0.clone(), rest[i].1.clone());
                proof {
                    assert(p == rest0[i as int]);
                }
                r.push(p);
                proof {
                    assert(r@ =~= r0 + rest0.subrange(0, i + 1));
                }
                i = i + 1;
            }
            proof {
                assert(rest0.subrange(0, m as int) =~= rest0);
                assert(entries_view(r0 + rest0) =~= entries_view(r0) + entries_view(rest0));
            }
            r
        },
    }
}

// ---------------------------------------------------------------------------
// Merge lemmas
// ---------------------------------------------------------------------------
proof fn lemma_upsert_found(m: Seq<(Seq<char>, Seq<char>)>, k: Seq<char>, v: Seq<char>, i: int)
    requires
        0 <= i < m.len(),
        m[i].0 == k,
        forall|j: int| 0 <= j < i ==> m[j].0 != k,
    ensures
        spec_upsert(m, k, v) == m.update(i, (k, v)),
    decreases m.len(),
{
    if i == 0 {
        assert(seq![(k, v)] + m.drop_first() =~= m.update(0, (k, v)));
    } else {
        assert(m.drop_first()[i - 1].0 == k);
        assert forall|j: int| 0 <= j < i - 1 implies m.drop_first()[j].0 != k by {
            assert(m.drop_first()[j] == m[j + 1]);
        }
        lemma_upsert_found(m.drop_first(), k, v, i - 1);
        assert(seq![m[0]] + m.drop_first().update(i - 1, (k, v)) =~= m.update(i, (k, v)));
    }
}

proof fn lemma_upsert_absent(m: Seq<(Seq<char>, Seq<char>)>, k: Seq<char>, v: Seq<char>)
    requires
        forall|j: int| 0 <= j < m.len() ==> m[j].0 != k,
    ensures
        spec_upsert(m, k, v) == m.push((k, v)),
    decreases m.len(),
{
    if m.len() == 0 {
        assert(seq![(k, v)] =~= m.push((k, v)));
    } else {
        assert forall|j: int| 0 <= j < m.drop_first().len() implies m.drop_first()[j].0 != k by {
            assert(m.drop_first()[j] == m[j + 1]);
        }
        lemma_upsert_absent(m.drop_first(), k, v);
        assert(seq![m[0]] + m.drop_first().push((k, v)) =~= m.push((k, v)));
    }
}

/// Merging a concatenation merges the two lists in turn.
pub proof fn lemma_merge_append(
    m: Seq<(Seq<char>, Seq<char>)>,
    a: Seq<(Seq<char>, Seq<char>)>,
    b: Seq<(Seq<char>, Seq<char>)>,
)
    ensures
        spec_merge(m, a + b) == spec_merge(spec_merge(m, a), b),
    decreases a.len(),
{
    if a.len() == 0 {
        assert(a + b =~= b);
    } else {
        assert((a + b)[0] == a[0]);
        assert((a + b).drop_first() =~= a.drop_first() + b);
        lemma_merge_append(spec_upsert(m, a[0].0, a[0].1), a.drop_first(), b);
    }
}

/// The contributions of a field list grow one field at a time.
proof fn lemma_fields_entries_push(fields: Seq<Field>, f: Field)
    ensures
        spec_fields_entries(fields.push(f)) == spec_fields_entries(fields) + spec_field_entries(f),
    decreases fields.len(),
{
    let e = spec_field_entries(f);
    if fields.len() == 0 {
        assert(fields.push(f).len() == 1);
        assert(fields.push(f)[0] == f);
        assert(fields.push(f).drop_first() =~= Seq::<Field>::empty());
        assert(spec_fields_entries(Seq::<Field>::empty()) == Seq::<(Seq<char>, Seq<char>)>::empty());
        assert(spec_fields_entries(fields.push(f)) == e + Seq::<(Seq<char>, Seq<char>)>::empty());
        assert(e + Seq::<(Seq<char>, Seq<char>)>::empty() =~= e);
        assert(Seq::<(Seq<char>, Seq<char>)>::empty() + e =~= e);
    } else {
        assert(fields.push(f)[0] == fields[0]);
        assert(fields.push(f).drop_first() =~= fields.drop_first().push(f));
        lemma_fields_entries_push(fields.drop_first(), f);
        assert(spec_fields_entries(fields.push(f)) == spec_field_entries(fields[0])
            + spec_fields_entries(fields.drop_first().push(f)));
        assert(spec_field_entries(fields[0]) + (spec_fields_entries(fields.drop_first()) + e)
            =~= (spec_field_entries(fields[0]) + spec_fields_entries(fields.drop_first())) + e);
    }
}

// ---------------------------------------------------------------------------
// Executable key map
// ---------------------------------------------------------------------------
/// Insert or overwrite one entry, keeping a present key's position.
fn upsert(m: &mut Vec<(String, String)>, k: String, v: String)
    ensures
        entries_view(final(m)@) == spec_upsert(entries_view(old(m)@), k@, v@),
{
    let n = m.len();
    let mut i: usize = 0;
    while i < n
        invariant
            n == m@.len(),
            i <= n,
            m@ == old(m)@,
            forall|j: int| 0 <= j < i ==> m@[j].0@ != k@,
        decreases n - i,
    {
        if m[i].0 == k {
            proof {
                assert(entries_view(m@)[i as int].0 == k@);
                assert forall|j: int| 0 <= j < i implies entries_view(m@)[j].0 != k@ by {}
                lemma_upsert_found(entries_view(m@), k@, v@, i as int);
            }
            let ghost before = m@;
            m.set(i, (k, v));
            proof {
                assert(entries_view(m@) =~= entries_view(before).update(
                    i as int,
                    (k@, v@),
                ));
            }
            return ;
        }
        i = i + 1;
    }
    proof {
        assert forall|j: int| 0 <= j < entries_view(m@).len() implies entries_view(m@)[j].0
            != k@ by {}
        lemma_upsert_absent(entries_view(m@), k@, v@);
    }
    let ghost before = m@;
    m.push((k, v));
    proof {
        assert(entries_view(m@) =~= entries_view(before).push((k@, v@)));
    }
}

impl Component {
    /// Decompose this component into an ordered key-to-value map: keyed
    /// fields map their wire name to their encoded value; flatten fields
    /// (empty wire name) contribute the pairs parsed from their own encoded
    /// text.  Later fields overwrite earlier entries with the same key.
    pub fn as_map(&self) -> (r: Vec<(String, String)>)
        requires
            crate::component::component_wf(*self),
        ensures
            entries_view(r@) == spec_as_map(*self),
            unique_keys(entries_view(r@)),
    {
        proof {
            lemma_as_map_unique(*self);
            crate::component::lemma_fields_wf_pointwise(self.fields@);
        }
        let mut m: Vec<(String, String)> = Vec::new();
        let n = self.fields.len();
        let mut i: usize = 0;
        proof {
            assert(self.fields@.subrange(0, 0) =~= Seq::<Field>::empty());
        }
        while i < n
            invariant
                n == self.fields@.len(),
                i <= n,
                forall|j: int|
                    0 <= j < n ==> crate::component::value_wf(#[trigger] self.fields@[j].value),
                entries_view(m@) == spec_merge(
                    Seq::empty(),
                    spec_fields_entries(self.fields@.subrange(0, i as int)),
                ),
            decreases n - i,
        {
            let f = &self.fields[i];
            let ghost prefix = self.fields@.subrange(0, i as int);
            let ghost macc = entries_view(m@);
            let encoded = f.value.encode();
            if f.key.as_str().unicode_len() == 0 {
                let pairs = parse_pairs(encoded.as_str());
                let ghost pv = entries_view(pairs@);
                let pn = pairs.len();
                let mut pi: usize = 0;
                proof {
                    assert(pv.subrange(0, 0) =~= Seq::<(Seq<char>, Seq<char>)>::empty());
                    assert(spec_merge(macc, pv.subrange(0, 0)) == macc);
                }
                while pi < pn
                    invariant
                        pn == pairs@.len(),
                        pi <= pn,
                        pv == entries_view(pairs@),
                        entries_view(m@) == spec_merge(macc, pv.subrange(0, pi as int)),
                    decreases pn - pi,
                {
                    let key = pairs[pi].0.clone();
                    let val = pairs[pi].1.clone();
                    proof {
                        assert(key@ == pv[pi as int].0 && val@ == pv[pi as int].1);
                        assert(pv.subrange(0, pi as int).push(pv[pi as int]) =~= pv.subrange(
                            0,
                            pi + 1,
                        ));
                        lemma_merge_append(
                            macc,
                            pv.subrange(0, pi as int),
                            seq![pv[pi as int]],
                        );
                        let m1 = spec_merge(macc, pv.subrange(0, pi as int));
                        let p = pv[pi as int];
                        assert(seq![p].drop_first() =~= Seq::<(Seq<char>, Seq<char>)>::empty());
                        assert(seq![p][0] == p);
                        assert(spec_merge(spec_upsert(m1, p.0, p.1), Seq::empty())
                            == spec_upsert(m1, p.0, p.1));
                        assert(spec_merge(m1, seq![p]) == spec_merge(
                            spec_upsert(m1, p.0, p.1),
                            seq![p].drop_first(),
                        ));
                        assert(spec_merge(m1, seq![p]) == spec_upsert(m1, p.0, p.1));
                        assert(pv.subrange(0, pi as int) + seq![pv[pi as int]] =~= pv.subrange(
                            0,
                            pi + 1,
                        ));
                    }
                    upsert(&mut m, key, val);
                    pi = pi + 1;
                }
                proof {
                    assert(pv.subrange(0, pn as int) =~= pv);
                    assert(spec_field_entries(self.fields@[i as int]) == pv);
                    lemma_merge_append(Seq::empty(), spec_fields_entries(prefix), pv);
                    lemma_fields_entries_push(prefix, self.fields@[i as int]);
                    assert(prefix.push(self.fields@[i as int]) =~= self.fields@.subrange(
                        0,
                        i + 1,
                    ));
                }
            } else {
                proof {
                    let p = (self.fields@[i as int].key@, spec_encode_value(
                        self.fields@[i as int].value,
                    ));
                    assert(spec_field_entries(self.fields@[i as int]) == seq![p]);
                    lemma_merge_append(Seq::empty(), spec_fields_entries(prefix), seq![p]);
                    lemma_fields_entries_push(prefix, self.fields@[i as int]);
                    assert(prefix.push(self.fields@[i as int]) =~= self.fields@.subrange(
                        0,
                        i + 1,
                    ));
                    assert(seq![p].drop_first() =~= Seq::<(Seq<char>, Seq<char>)>::empty());
                    assert(seq![p][0] == p);
                    assert(spec_merge(spec_upsert(macc, p.0, p.1), Seq::empty())
                        == spec_upsert(macc, p.0, p.1));
                    assert(spec_merge(macc, seq![p]) == spec_merge(
                        spec_upsert(macc, p.0, p.1),
                        seq![p].drop_first(),
                    ));
                    assert(spec_merge(macc, seq![p]) == spec_upsert(macc, p.0, p.1));
                }
                upsert(&mut m, f.key.clone(), encoded);
            }
            i = i + 1;
        }
        proof {
            assert(self.fields@.subrange(0, n as int) =~= self.fields@);
        }
        m
    }
}

// ---------------------------------------------------------------------------
// The delta-string / key-map round trip
// ---------------------------------------------------------------------------
/// No occurrence of `c` in `s`.
pub open spec fn no_char(s: Seq<char>, c: char) -> bool {
    forall|i: int| 0 <= i < s.len() ==> s[i] != c
}

/// Only whitespace in `s`.
pub open spec fn ws_only(s: Seq<char>) -> bool {
    forall|i: int| 0 <= i < s.len() ==> is_ws(s[i])
}

proof fn lemma_find_unique(s: Seq<char>, c: char, i: int)
    requires
        0 <= i < s.len(),
        s[i] == c,
        forall|j: int| 0 <= j < i ==> s[j] != c,
    ensures
        spec_find(s, c) == Some(i),
{
    lemma_spec_find(s, c);
    match spec_find(s, c) {
        None => {
            assert(s[i] != c);
        },
        Some(k) => {
            if k < i {
                assert(s[k] != c);
            }
            if k > i {
                assert(s[i] != c);
            }
        },
    }
}

proof fn lemma_find_none(s: Seq<char>, c: char)
    requires
        no_char(s, c),
    ensures
        spec_find(s, c) is None,
{
    lemma_spec_find(s, c);
    match spec_find(s, c) {
        None => {},
        Some(k) => {
            assert(s[k] != c);
        },
    }
}

proof fn lemma_trim_left_ws_prefix(w: Seq<char>, x: Seq<char>)
    requires
        ws_only(w),
    ensures
        trim_left(w + x) == trim_left(x),
    decreases w.len(),
{
    if w.len() == 0 {
        assert(w + x =~= x);
    } else {
        assert(is_ws((w + x)[0]));
        if (w + x).len() > 0 && is_ws((w + x)[0]) {
            assert((w + x).drop_first() =~= w.drop_first() + x);
            assert forall|i: int| 0 <= i < w.drop_first().len() implies is_ws(
                w.drop_first()[i],
            ) by {
                assert(w.drop_first()[i] == w[i + 1]);
            }
            lemma_trim_left_ws_prefix(w.drop_first(), x);
        }
    }
}

proof fn lemma_trim_ws_prefix(w: Seq<char>, x: Seq<char>)
    requires
        ws_only(w),
    ensures
        spec_trim(w + x) == spec_trim(x),
{
    lemma_trim_left_ws_prefix(w, x);
}

proof fn lemma_find_concat_left(t1: Seq<char>, t2: Seq<char>, c: char, j: int)
    requires
        spec_find(t1, c) == Some(j),
    ensures
        spec_find(t1 + t2, c) == Some(j),
{
    lemma_spec_find(t1, c);
    assert((t1 + t2)[j] == c);
    assert forall|k: int| 0 <= k < j implies (t1 + t2)[k] != c by {
        assert((t1 + t2)[k] == t1[k]);
    }
    lemma_find_unique(t1 + t2, c, j);
}

proof fn lemma_find_concat_skip(w: Seq<char>, x: Seq<char>, c: char)
    requires
        no_char(w, c),
    ensures
        spec_find(w + x, c) == match spec_find(x, c) {
            None => None::<int>,
            Some(q) => Some(w.len() + q),
        },
{
    lemma_spec_find(x, c);
    match spec_find(x, c) {
        None => {
            assert forall|k: int| 0 <= k < (w + x).len() implies (w + x)[k] != c by {
                if k < w.len() {
                    assert((w + x)[k] == w[k]);
                } else {
                    assert((w + x)[k] == x[k - w.len()]);
                }
            }
            lemma_find_none(w + x, c);
        },
        Some(q) => {
            assert((w + x)[w.len() + q] == x[q]);
            assert forall|k: int| 0 <= k < w.len() + q implies (w + x)[k] != c by {
                if k < w.len() {
                    assert((w + x)[k] == w[k]);
                } else {
                    assert((w + x)[k] == x[k - w.len()]);
                }
            }
            lemma_find_unique(w + x, c, w.len() + q);
        },
    }
}

proof fn lemma_seg_ws_prefix(w: Seq<char>, x: Seq<char>)
    requires
        ws_only(w),
    ensures
        spec_pair_of_segment(w + x) == spec_pair_of_segment(x),
{
    assert(no_char(w, ':'));
    lemma_find_concat_skip(w, x, ':');
    lemma_spec_find(x, ':');
    match spec_find(x, ':') {
        None => {},
        Some(q) => {
            assert((w + x).subrange(0, w.len() + q) =~= w + x.subrange(0, q));
            lemma_trim_ws_prefix(w, x.subrange(0, q));
            assert((w + x).subrange(w.len() + q + 1, (w + x).len() as int) =~= x.subrange(
                q + 1,
                x.len() as int,
            ));
        },
    }
}

proof fn lemma_pairs_ws(w: Seq<char>)
    requires
        ws_only(w),
    ensures
        spec_pairs_of(w) == Seq::<(Seq<char>, Seq<char>)>::empty(),
{
    assert(no_char(w, ';'));
    lemma_find_none(w, ';');
    assert(no_char(w, ':'));
    lemma_find_none(w, ':');
}

proof fn lemma_pairs_ws_prefix(w: Seq<char>, t: Seq<char>)
    requires
        ws_only(w),
    ensures
        spec_pairs_of(w + t) == spec_pairs_of(t),
{
    assert(no_char(w, ';'));
    lemma_find_concat_skip(w, t, ';');
    lemma_spec_find(t, ';');
    match spec_find(t, ';') {
        None => {
            lemma_seg_ws_prefix(w, t);
        },
        Some(m) => {
            assert((w + t).subrange(0, w.len() + m) =~= w + t.subrange(0, m));
            lemma_seg_ws_prefix(w, t.subrange(0, m));
            assert((w + t).subrange(w.len() + m + 1, (w + t).len() as int) =~= t.subrange(
                m + 1,
                t.len() as int,
            ));
        },
    }
}

/// Appending one `;` to a text does not change the pairs parsed from it:
/// the empty final segment contributes nothing.
proof fn lemma_pairs_append_semi(s: Seq<char>)
    ensures
        spec_pairs_of(s + seq![';']) == spec_pairs_of(s),
    decreases s.len(),
{
    lemma_spec_find(s, ';');
    match spec_find(s, ';') {
        None => {
            assert((s + seq![';'])[s.len() as int] == ';');
            assert forall|k: int| 0 <= k < s.len() implies (s + seq![';'])[k] != ';' by {
                assert((s + seq![';'])[k] == s[k]);
            }
            lemma_find_unique(s + seq![';'], ';', s.len() as int);
            assert((s + seq![';']).subrange(0, s.len() as int) =~= s);
            assert((s + seq![';']).subrange(s.len() as int + 1, (s + seq![';']).len() as int)
                =~= Seq::<char>::empty());
            assert(no_char(Seq::<char>::empty(), ';'));
            lemma_find_none(Seq::<char>::empty(), ';');
            lemma_find_none(Seq::<char>::empty(), ':');
            assert(spec_pairs_of(Seq::<char>::empty()) == Seq::<(Seq<char>, Seq<char>)>::empty());
            assert(spec_pair_of_segment(s) + Seq::<(Seq<char>, Seq<char>)>::empty()
                =~= spec_pair_of_segment(s));
        },
        Some(j) => {
            lemma_find_concat_left(s, seq![';'], ';', j);
            assert((s + seq![';']).subrange(0, j) =~= s.subrange(0, j));
            assert((s + seq![';']).subrange(j + 1, (s + seq![';']).len() as int) =~= s.subrange(
                j + 1,
                s.len() as int,
            ) + seq![';']);
            lemma_pairs_append_semi(s.subrange(j + 1, s.len() as int));
        },
    }
}

/// Some `;` stands in `t` with only whitespace after it: the last segment of
/// `t` is blank, so the pairs of `t + u` split cleanly between `t` and `u`.
pub open spec fn seg_closed(t: Seq<char>) -> bool {
    exists|k: int|
        0 <= k < t.len() && t[k] == ';' && ws_only(t.subrange(k + 1, t.len() as int))
}

/// Splitting distributes over concatenation at a closed segment boundary.
proof fn lemma_pairs_concat(t1: Seq<char>, t2: Seq<char>)
    requires
        seg_closed(t1),
    ensures
        spec_pairs_of(t1 + t2) == spec_pairs_of(t1) + spec_pairs_of(t2),
    decreases t1.len(),
{
    let k = choose|k: int|
        0 <= k < t1.len() && t1[k] == ';' && ws_only(t1.subrange(k + 1, t1.len() as int));
    lemma_spec_find(t1, ';');
    match spec_find(t1, ';') {
        None => {
            assert(t1[k] != ';');
        },
        Some(j) => {
            assert(j <= k) by {
                if j > k {
                    assert(t1[k] != ';');
                }
            }
            lemma_find_concat_left(t1, t2, ';', j);
            assert((t1 + t2).subrange(0, j) =~= t1.subrange(0, j));
            let rest1 = t1.subrange(j + 1, t1.len() as int);
            assert((t1 + t2).subrange(j + 1, (t1 + t2).len() as int) =~= rest1 + t2);
            if j == k {
                assert(rest1 == t1.subrange(k + 1, t1.len() as int));
                lemma_pairs_ws_prefix(rest1, t2);
                lemma_pairs_ws(rest1);
                assert(spec_pair_of_segment(t1.subrange(0, j)) + Seq::<(
                    Seq<char>,
                    Seq<char>,
                )>::empty() =~= spec_pair_of_segment(t1.subrange(0, j)));
            } else {
                assert(rest1[k - j - 1] == t1[k]);
                assert(rest1.subrange(k - j, rest1.len() as int) =~= t1.subrange(
                    k + 1,
                    t1.len() as int,
                ));
                assert(seg_closed(rest1));
                lemma_pairs_concat(rest1, t2);
                assert(spec_pair_of_segment(t1.subrange(0, j)) + (spec_pairs_of(rest1)
                    + spec_pairs_of(t2)) =~= (spec_pair_of_segment(t1.subrange(0, j))
                    + spec_pairs_of(rest1)) + spec_pairs_of(t2));
            }
        },
    }
}

/// The pairs of one keyed delta segment are exactly its key and value.
proof fn lemma_pairs_keyed_segment(key: Seq<char>, val: Seq<char>)
    requires
        key.len() >= 1,
        no_char(key, ';'),
        no_char(key, ':'),
        spec_trim(key) == key,
        no_char(val, ';'),
        spec_trim(val) == val,
    ensures
        spec_pairs_of(key + seq![':', ' '] + val + seq![';', ' ']) == seq![(key, val)],
{
    let t = key + seq![':', ' '] + val + seq![';', ' '];
    let j = key.len() + 2 + val.len() as int;
    assert(t[j] == ';');
    assert forall|i: int| 0 <= i < j implies t[i] != ';' by {
        if i < key.len() {
            assert(t[i] == key[i]);
        } else if i == key.len() {
            assert(t[i] == ':');
        } else if i == key.len() + 1 {
            assert(t[i] == ' ');
        } else {
            assert(t[i] == val[i - key.len() - 2]);
        }
    }
    lemma_find_unique(t, ';', j);
    let segtext = key + seq![':', ' '] + val;
    assert(t.subrange(0, j) =~= segtext);
    assert(t.subrange(j + 1, t.len() as int) =~= seq![' ']);
    assert(ws_only(seq![' ']));
    lemma_pairs_ws(seq![' ']);
    assert(segtext[key.len() as int] == ':');
    assert forall|i: int| 0 <= i < key.len() implies segtext[i] != ':' by {
        assert(segtext[i] == key[i]);
    }
    lemma_find_unique(segtext, ':', key.len() as int);
    assert(segtext.subrange(0, key.len() as int) =~= key);
    assert(segtext.subrange(key.len() as int + 1, segtext.len() as int) =~= seq![' '] + val);
    lemma_trim_ws_prefix(seq![' '], val);
    assert(spec_pair_of_segment(segtext) == seq![(key, val)]);
    assert(seq![(key, val)] + Seq::<(Seq<char>, Seq<char>)>::empty() =~= seq![(key, val)]);
}

/// A field on which the delta string and the key map agree exactly: the
/// value differs from its default (delta mode would otherwise omit it); the
/// wire name is not a single character (such a name is dropped from the
/// string but kept in the map); and a named key and its encoded value are
/// plain enough for the mini-syntax: no `;` or `:` inside the key, no `;`
/// inside the value, and both already trimmed.
pub open spec fn field_map_friendly(f: Field) -> bool {
    &&& !value_eq(f.value, f.default)
    &&& f.key@.len() != 1
    &&& f.key@.len() >= 2 ==> {
        &&& no_char(f.key@, ';')
        &&& no_char(f.key@, ':')
        &&& spec_trim(f.key@) == f.key@
        &&& no_char(spec_encode_value(f.value), ';')
        &&& spec_trim(spec_encode_value(f.value)) == spec_encode_value(f.value)
    }
}

proof fn lemma_segment_pairs(f: Field)
    requires
        field_map_friendly(f),
    ensures
        seg_closed(spec_delta_segment(f)),
        spec_pairs_of(spec_delta_segment(f)) == spec_field_entries(f),
{
    reveal_strlit(";");
    reveal_strlit(": ");
    reveal_strlit("; ");
    let enc = spec_encode_value(f.value);
    if f.key@.len() == 0 {
        assert(";"@ =~= seq![';']);
        let t = enc + seq![';'];
        assert(spec_delta_segment(f) == t);
        assert(t[t.len() - 1] == ';');
        assert(t.subrange(t.len() as int, t.len() as int) =~= Seq::<char>::empty());
        assert(ws_only(Seq::<char>::empty()));
        assert(seg_closed(t));
        lemma_pairs_append_semi(enc);
    } else {
        assert(": "@ =~= seq![':', ' ']);
        assert("; "@ =~= seq![';', ' ']);
        let t = f.key@ + seq![':', ' '] + enc + seq![';', ' '];
        assert(spec_delta_segment(f) == f.key@ + ": "@ + enc + "; "@);
        assert(f.key@ + ": "@ + enc + "; "@ =~= t);
        let k = f.key@.len() + 2 + enc.len() as int;
        assert(t[k] == ';');
        assert(t.subrange(k + 1, t.len() as int) =~= seq![' ']);
        assert(ws_only(seq![' ']));
        assert(seg_closed(t));
        lemma_pairs_keyed_segment(f.key@, enc);
    }
}

/// The pairs parsed from a delta-mode string are, field by field and in
/// order, exactly the pairs the key map is built from.
proof fn lemma_delta_pairs(fields: Seq<Field>)
    requires
        forall|i: int| 0 <= i < fields.len() ==> field_map_friendly(#[trigger] fields[i]),
    ensures
        spec_pairs_of(spec_encode_fields_delta(fields)) == spec_fields_entries(fields),
    decreases fields,
{
    if fields.len() == 0 {
        lemma_find_none(Seq::<char>::empty(), ';');
        lemma_find_none(Seq::<char>::empty(), ':');
    } else {
        assert(field_map_friendly(fields[0]));
        lemma_segment_pairs(fields[0]);
        assert forall|i: int|
            0 <= i < fields.drop_first().len() implies field_map_friendly(
            #[trigger] fields.drop_first()[i],
        ) by {
            assert(fields.drop_first()[i] == fields[i + 1]);
        }
        lemma_delta_pairs(fields.drop_first());
        lemma_pairs_concat(
            spec_delta_segment(fields[0]),
            spec_encode_fields_delta(fields.drop_first()),
        );
    }
}

/// The round trip between the two serialization targets: for a delta-mode
/// component whose fields are map friendly, the key map `as_map` builds is
/// exactly the map implied by parsing the component's own attribute string
/// with the `;`/`:`/trim mini-syntax.
pub proof fn lemma_as_map_matches_delta_string(c: Component)
    requires
        c.parts is None,
        forall|i: int| 0 <= i < c.fields@.len() ==> field_map_friendly(#[trigger] c.fields@[i]),
    ensures
        spec_merge(Seq::empty(), spec_pairs_of(spec_encode_component(c))) == spec_as_map(c),
{
    lemma_delta_pairs(c.fields@);
}

} // verus!
