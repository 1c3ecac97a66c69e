//! Mapping queue that is used for conversions.

use vstd::prelude::*;

verus! {

/// Replace every leftmost, non-overlapping occurrence of `pat` in `s` by
/// `rep`, scanning left to right in a single pass. A later occurrence is
/// looked for only after the text consumed by an earlier one. An empty
/// pattern leaves the string unchanged.
pub open spec fn replace_all(s: Seq<char>, pat: Seq<char>, rep: Seq<char>) -> Seq<char>
    decreases s.len(),
{
    if pat.len() == 0 || s.len() < pat.len() {
        s
    } else if s.take(pat.len() as int) == pat {
        rep + replace_all(s.skip(pat.len() as int), pat, rep)
    } else {
        seq![s[0]] + replace_all(s.skip(1), pat, rep)
    }
}

/// Apply each queued (pattern, replacement) mapping in order, feeding each
/// step's output to the next step as its input.
pub open spec fn apply_mappings(s: Seq<char>, q: Seq<(Seq<char>, Seq<char>)>) -> Seq<char>
    decreases q.len(),
{
    if q.len() == 0 {
        s
    } else {
        apply_mappings(replace_all(s, q[0].0, q[0].1), q.drop_first())
    }
}

/// The positional one-to-one pairs of the characters of two equally long
/// character tables: the i-th character of `a` maps to the i-th of `b`.
pub open spec fn char_pairs(a: Seq<char>, b: Seq<char>) -> Seq<(Seq<char>, Seq<char>)> {
    Seq::new(a.len(), |i: int| (seq![a[i]], seq![b[i]]))
}

/// The mathematical contents of a sequence of string pairs.
pub open spec fn pairs_view(q: Seq<(&str, &str)>) -> Seq<(Seq<char>, Seq<char>)> {
    q.map_values(|p: (&str, &str)| (p.0@, p.1@))
}

/// Queue of mappings from a pattern to a constant replacement string.
/// Mappings are applied in FIFO order to the input string.
///
/// Applying a mapping (pattern, replacement) to an input string means
/// to replace all occurrences of the pattern with the replacement string.
#[derive(Debug, Clone)]
pub struct MappingQueue<'a> {
    /// Queue of mappings.
    queue: Vec<(&'a str, &'a str)>,
}

impl<'a> View for MappingQueue<'a> {
    type V = Seq<(Seq<char>, Seq<char>)>;

    closed spec fn view(&self) -> Seq<(Seq<char>, Seq<char>)> {
        pairs_view(self.queue@)
    }
}

impl<'a> MappingQueue<'a> {
    /// Create an empty mapping queue.
    pub fn new() -> (q: Self)
        ensures
            q@ == Seq::<(Seq<char>, Seq<char>)>::empty(),
    {
        let q = MappingQueue { queue: Vec::new() };
        proof {
            assert(q@ =~= Seq::<(Seq<char>, Seq<char>)>::empty());
        }
        q
    }

    /// Push a mapping to the back of the queue.
    pub fn push(self, from: &'a str, to: &'a str) -> (r: Self)
        ensures
            r@ == self@.push((from@, to@)),
    {
        let mut q = self;
        q.queue.push((from, to));
        proof {
            assert(q@ =~= self@.push((from@, to@)));
        }
        q
    }

    /// Extend the back of the queue with a sequence of mappings, keeping
    /// their relative order.
    pub fn extend(self, pairs: Vec<(&'a str, &'a str)>) -> (r: Self)
        ensures
            r@ == self@ + pairs_view(pairs@),
    {
        let mut q = self;
        let mut rest = pairs;
        let ghost added = rest@;
        q.queue.append(&mut rest);
        proof {
            assert(q@ =~= self@ + pairs_view(added));
        }
        q
    }

    /// Apply each queued mapping in FIFO order.
    pub fn apply(&self, input: &str) -> (r: String)
        ensures
            r@ == apply_mappings(input@, self@),
    {
        let mut cur = str_chars(input);
        let n = self.queue.len();
        let mut i: usize = 0;
        proof {
            assert(self@.skip(0) =~= self@);
        }
        while i < n
            invariant
                n == self.queue@.len(),
                i <= n,
                apply_mappings(input@, self@) == apply_mappings(cur@, self@.skip(i as int)),
            decreases n - i,
        {
            let pair = self.queue[i];
            let pat = str_chars(pair.0);
            let rep = str_chars(pair.1);
            let next = replace_chars(&cur, &pat, &rep);
            proof {
                let q = self@;
                assert(q[i as int] == (pair.0@, pair.1@));
                assert(q.skip(i as int)[0] == q[i as int]);
                assert(q.skip(i as int).drop_first() =~= q.skip(i as int + 1));
                assert(apply_mappings(cur@, q.skip(i as int))
                    == apply_mappings(next@, q.skip(i as int + 1)));
            }
            cur = next;
            i += 1;
        }
        proof {
            assert(self@.skip(n as int) =~= Seq::<(Seq<char>, Seq<char>)>::empty());
            assert(apply_mappings(cur@, self@.skip(n as int)) == cur@);
        }
        chars_string(&cur)
    }
}

/// Relies on String::push: appends one character to the end of the string.
pub assume_specification[ String::push ](s: &mut String, ch: char)
    ensures
        final(s)@ == old(s)@.push(ch),
;

/// The characters of a string as a vector of Unicode scalar values.
fn str_chars(s: &str) -> (r: Vec<char>)
    ensures
        r@ == s@,
{
    let n = s.unicode_len();
    let mut r: Vec<char> = Vec::new();
    let mut i: usize = 0;
    while i < n
        invariant
            n == s@.len(),
            i <= n,
            r@ == s@.take(i as int),
        decreases n - i,
    {
        let c = s.get_char(i);
        r.push(c);
        proof {
            assert(r@ =~= s@.take(i as int + 1));
        }
        i += 1;
    }
    proof {
        assert(s@.take(n as int) =~= s@);
    }
    r
}

/// A vector of Unicode scalar values as a string.
fn chars_string(v: &Vec<char>) -> (r: String)
    ensures
        r@ == v@,
{
    let mut r = String::new();
    let mut i: usize = 0;
    proof {
        assert(r@ =~= v@.take(0));
    }
    while i < v.len()
        invariant
            i <= v@.len(),
            r@ == v@.take(i as int),
        decreases v@.len() - i,
    {
        r.push(v[i]);
        proof {
            assert(r@ =~= v@.take(i as int + 1));
        }
        i += 1;
    }
    proof {
        assert(v@.take(v@.len() as int) =~= v@);
    }
    r
}

/// Does `pat` occur in `s` at position `i`?
fn matches_at(s: &Vec<char>, pat: &Vec<char>, i: usize) -> (b: bool)
    requires
        i + pat@.len() <= s@.len(),
    ensures
        b == (s@.subrange(i as int, i + pat@.len()) == pat@),
{
    let m = pat.len();
    let n = s.len();
    let mut j: usize = 0;
    while j < m
        invariant
            n == s@.len(),
            i + m <= n,
            m == pat@.len(),
            j <= m,
            forall|k: int| 0 <= k < j ==> s@[i + k] == pat@[k],
        decreases m - j,
    {
        if s[i + j] != pat[j] {
            proof {
                assert(s@.subrange(i as int, i + m as int)[j as int] != pat@[j as int]);
            }
            return false;
        }
        j += 1;
    }
    proof {
        assert(s@.subrange(i as int, i + m as int) =~= pat@);
    }
    true
}

/// Replace every leftmost, non-overlapping occurrence of `pat` in `s` by
/// `rep`, in one left-to-right pass.
fn replace_chars(s: &Vec<char>, pat: &Vec<char>, rep: &Vec<char>) -> (r: Vec<char>)
    ensures
        r@ == replace_all(s@, pat@, rep@),
{
    let m = pat.len();
    let mut out: Vec<char> = Vec::new();
    let mut i: usize = 0;
    proof {
        assert(s@.skip(0) =~= s@);
        assert(out@ + replace_all(s@, pat@, rep@) =~= replace_all(s@, pat@, rep@));
    }
    while i < s.len()
        invariant
            m == pat@.len(),
            i <= s@.len(),
            replace_all(s@, pat@, rep@) == out@ + replace_all(s@.skip(i as int), pat@, rep@),
        decreases s@.len() - i,
    {
        let ghost tail = s@.skip(i as int);
        if m != 0 && m <= s.len() - i && matches_at(s, pat, i) {
            proof {
                assert(tail.take(m as int) =~= s@.subrange(i as int, i + m as int));
                assert(tail.skip(m as int) =~= s@.skip(i + m as int));
                assert(replace_all(tail, pat@, rep@)
                    == rep@ + replace_all(s@.skip(i + m as int), pat@, rep@));
            }
            let ghost pre = out@;
            let mut j: usize = 0;
            proof {
                assert(out@ =~= pre + rep@.take(0));
            }
            while j < rep.len()
                invariant
                    j <= rep@.len(),
                    out@ == pre + rep@.take(j as int),
                decreases rep@.len() - j,
            {
                out.push(rep[j]);
                proof {
                    assert(out@ =~= pre + rep@.take(j as int + 1));
                }
                j += 1;
            }
            proof {
                assert(rep@.take(rep@.len() as int) =~= rep@);
                assert(pre + (rep@ + replace_all(s@.skip(i + m as int), pat@, rep@))
                    =~= (pre + rep@) + replace_all(s@.skip(i + m as int), pat@, rep@));
            }
            i += m;
        } else {
            let ghost pre = out@;
            out.push(s[i]);
            proof {
                assert(tail.skip(1) =~= s@.skip(i as int + 1));
                assert(tail =~= seq![s@[i as int]] + tail.skip(1));
                if m == 0 {
                    assert(replace_all(tail, pat@, rep@) == tail);
                    assert(replace_all(tail.skip(1), pat@, rep@) == tail.skip(1));
                } else if tail.len() < m {
                    assert(tail.skip(1).len() < m);
                    assert(replace_all(tail, pat@, rep@) == tail);
                    assert(replace_all(tail.skip(1), pat@, rep@) == tail.skip(1));
                } else {
                    assert(tail.take(m as int) =~= s@.subrange(i as int, i + m as int));
                    assert(tail.take(m as int) != pat@);
                    assert(replace_all(tail, pat@, rep@)
                        == seq![tail[0]] + replace_all(tail.skip(1), pat@, rep@));
                }
                assert(replace_all(tail, pat@, rep@)
                    == seq![s@[i as int]] + replace_all(s@.skip(i as int + 1), pat@, rep@));
                assert(out@ =~= pre + seq![s@[i as int]]);
                assert((pre + seq![s@[i as int]]) + replace_all(s@.skip(i as int + 1), pat@, rep@)
                    =~= pre + (seq![s@[i as int]] + replace_all(s@.skip(i as int + 1), pat@, rep@)));
            }
            i += 1;
        }
    }
    proof {
        assert(s@.skip(s@.len() as int) =~= Seq::<char>::empty());
        assert(replace_all(s@.skip(s@.len() as int), pat@, rep@) == Seq::<char>::empty());
        assert(out@ + Seq::<char>::empty() =~= out@);
    }
    out
}

/// Each character of the string as a one-character `&str` slice.
fn char_slices<'a>(s: &'a str) -> (r: Vec<&'a str>)
    ensures
        r@.len() == s@.len(),
        forall|i: int| 0 <= i < s@.len() ==> #[trigger] r@[i]@ == seq![s@[i]],
{
    let n = s.unicode_len();
    let mut r: Vec<&'a str> = Vec::new();
    let mut i: usize = 0;
    while i < n
        invariant
            n == s@.len(),
            i <= n,
            r@.len() == i,
            forall|j: int| 0 <= j < i ==> #[trigger] r@[j]@ == seq![s@[j]],
        decreases n - i,
    {
        let c = s.substring_char(i, i + 1);
        proof {
            assert(c@ =~= seq![s@[i as int]]);
        }
        r.push(c);
        i += 1;
    }
    r
}

/// Create mappings (pattern, replacement) from the characters of two strings.
///
/// The first string lists pattern characters.
/// The second string lists replacement characters.
/// The first pattern character is translated to the first replacement
/// character, and so on; the two strings must hold the same number of
/// Unicode scalar values for the correspondence to exist.
pub fn char_mappings<'a>(from: &'a str, to: &'a str) -> (r: Vec<(&'a str, &'a str)>)
    requires
        from@.len() == to@.len(),
    ensures
        pairs_view(r@) == char_pairs(from@, to@),
{
    let from_slices = char_slices(from);
    let to_slices = char_slices(to);
    let n = from_slices.len();
    let mut r: Vec<(&'a str, &'a str)> = Vec::new();
    let mut i: usize = 0;
    while i < n
        invariant
            n == from@.len(),
            from@.len() == to@.len(),
            from_slices@.len() == n,
            to_slices@.len() == n,
            forall|j: int| 0 <= j < n ==> #[trigger] from_slices@[j]@ == seq![from@[j]],
            forall|j: int| 0 <= j < n ==> #[trigger] to_slices@[j]@ == seq![to@[j]],
            i <= n,
            r@.len() == i,
            forall|j: int| 0 <= j < i ==> (#[trigger] r@[j]).0@ == seq![from@[j]]
                && r@[j].1@ == seq![to@[j]],
        decreases n - i,
    {
        r.push((from_slices[i], to_slices[i]));
        i += 1;
    }
    proof {
        assert(pairs_view(r@) =~= char_pairs(from@, to@));
    }
    r
}

/// Applying any queue of mappings to the empty string yields the empty
/// string: there is no occurrence of any pattern to replace.
pub proof fn lemma_apply_mappings_empty_input(q: Seq<(Seq<char>, Seq<char>)>)
    ensures
        apply_mappings(Seq::<char>::empty(), q) == Seq::<char>::empty(),
    decreases q.len(),
{
    if q.len() > 0 {
        assert(replace_all(Seq::<char>::empty(), q[0].0, q[0].1) == Seq::<char>::empty());
        lemma_apply_mappings_empty_input(q.drop_first());
    }
}

/// Applying the mappings of `q1 + q2` is applying those of `q1`, then those
/// of `q2` to the result: each mapping acts on the output of all the
/// mappings queued before it.
pub proof fn lemma_apply_mappings_append(
    s: Seq<char>,
    q1: Seq<(Seq<char>, Seq<char>)>,
    q2: Seq<(Seq<char>, Seq<char>)>,
)
    ensures
        apply_mappings(s, q1 + q2) == apply_mappings(apply_mappings(s, q1), q2),
    decreases q1.len(),
{
    if q1.len() == 0 {
        assert(q1 + q2 =~= q2);
    } else {
        assert((q1 + q2).drop_first() =~= q1.drop_first() + q2);
        assert((q1 + q2)[0] == q1[0]);
        lemma_apply_mappings_append(replace_all(s, q1[0].0, q1[0].1), q1.drop_first(), q2);
    }
}

/// Does `pat` occur in `s` at position `i`?
pub open spec fn occurs_at(s: Seq<char>, pat: Seq<char>, i: int) -> bool {
    0 <= i && i + pat.len() <= s.len() && s.subrange(i, i + pat.len()) == pat
}

/// Does `pat` occur anywhere in `s`?
pub open spec fn occurs(s: Seq<char>, pat: Seq<char>) -> bool {
    exists|i: int| occurs_at(s, pat, i)
}

/// A string in which a non-empty pattern does not occur is left unchanged
/// by one replacement pass for that pattern.
pub proof fn lemma_replace_all_fixpoint(s: Seq<char>, pat: Seq<char>, rep: Seq<char>)
    requires
        pat.len() > 0,
        !occurs(s, pat),
    ensures
        replace_all(s, pat, rep) == s,
    decreases s.len(),
{
    let m = pat.len() as int;
    if s.len() >= m {
        assert(s.take(m) != pat) by {
            if s.take(m) == pat {
                assert(s.subrange(0, m) =~= s.take(m));
                assert(occurs_at(s, pat, 0));
            }
        }
        assert(!occurs(s.skip(1), pat)) by {
            if occurs(s.skip(1), pat) {
                let i = choose|i: int| occurs_at(s.skip(1), pat, i);
                assert(s.subrange(i + 1, i + 1 + m) =~= s.skip(1).subrange(i, i + m));
                assert(occurs_at(s, pat, i + 1));
            }
        }
        lemma_replace_all_fixpoint(s.skip(1), pat, rep);
        assert(seq![s[0]] + s.skip(1) =~= s);
    }
}

/// A string in which no queued pattern occurs is a fixed point of the
/// whole queue: nothing matches, so nothing changes.
pub proof fn lemma_apply_mappings_fixpoint(s: Seq<char>, q: Seq<(Seq<char>, Seq<char>)>)
    requires
        forall|i: int| 0 <= i < q.len() ==> (#[trigger] q[i].0).len() > 0 && !occurs(s, q[i].0),
    ensures
        apply_mappings(s, q) == s,
    decreases q.len(),
{
    if q.len() > 0 {
        lemma_replace_all_fixpoint(s, q[0].0, q[0].1);
        assert(forall|i: int| 0 <= i < q.drop_first().len()
            ==> q.drop_first()[i] == q[i + 1]);
        lemma_apply_mappings_fixpoint(s, q.drop_first());
    }
}

/// Does the character `c` occur in no pattern of the queue?
pub open spec fn pattern_free(q: Seq<(Seq<char>, Seq<char>)>, c: char) -> bool {
    forall|i: int| 0 <= i < q.len() ==> !(#[trigger] q[i].0).contains(c)
}

/// A character that occurs nowhere in the pattern is never part of a match,
/// so one replacement pass leaves it in place and rewrites the text on its
/// two sides independently.
pub proof fn lemma_replace_all_passthrough(
    s1: Seq<char>,
    c: char,
    s2: Seq<char>,
    pat: Seq<char>,
    rep: Seq<char>,
)
    requires
        !pat.contains(c),
    ensures
        replace_all(s1 + seq![c] + s2, pat, rep) == replace_all(s1, pat, rep) + seq![c]
            + replace_all(s2, pat, rep),
    decreases s1.len(),
{
    let s = s1 + seq![c] + s2;
    let m = pat.len() as int;
    assert(s.len() == s1.len() + 1 + s2.len());
    assert(s[s1.len() as int] == c);
    if m == 0 {
        assert(replace_all(s, pat, rep) == s);
        assert(replace_all(s1, pat, rep) == s1);
        assert(replace_all(s2, pat, rep) == s2);
    } else if s.len() < m {
        assert(s1.len() < m && s2.len() < m);
        assert(replace_all(s, pat, rep) == s);
        assert(replace_all(s1, pat, rep) == s1);
        assert(replace_all(s2, pat, rep) == s2);
    } else if s.take(m) == pat {
        // A match at the front cannot reach `c`, so it lies within `s1`.
        if m > s1.len() {
            assert(pat[s1.len() as int] == s.take(m)[s1.len() as int]);
            assert(pat.contains(c)) by {
                assert(pat[s1.len() as int] == c);
            }
            assert(false);
        }
        assert(s1.take(m) =~= s.take(m));
        assert(replace_all(s1, pat, rep) == rep + replace_all(s1.skip(m), pat, rep));
        assert(s.skip(m) =~= s1.skip(m) + seq![c] + s2);
        lemma_replace_all_passthrough(s1.skip(m), c, s2, pat, rep);
        assert(replace_all(s, pat, rep) == rep + (replace_all(s1.skip(m), pat, rep) + seq![c]
            + replace_all(s2, pat, rep)));
        assert(rep + (replace_all(s1.skip(m), pat, rep) + seq![c] + replace_all(s2, pat, rep))
            =~= (rep + replace_all(s1.skip(m), pat, rep)) + seq![c] + replace_all(s2, pat, rep));
    } else {
        if s1.len() == 0 {
            assert(s =~= seq![c] + s2);
            assert(s[0] == c);
            assert(s.skip(1) =~= s2);
            assert(replace_all(s, pat, rep) == seq![c] + replace_all(s2, pat, rep));
            assert(replace_all(s1, pat, rep) =~= Seq::<char>::empty());
            assert(replace_all(s1, pat, rep) + seq![c] + replace_all(s2, pat, rep) =~= seq![c]
                + replace_all(s2, pat, rep));
        } else {
            assert(s[0] == s1[0]);
            assert(s.skip(1) =~= s1.skip(1) + seq![c] + s2);
            lemma_replace_all_passthrough(s1.skip(1), c, s2, pat, rep);
            assert(replace_all(s, pat, rep) == seq![s1[0]] + (replace_all(s1.skip(1), pat, rep)
                + seq![c] + replace_all(s2, pat, rep)));
            if s1.len() < m {
                assert(replace_all(s1, pat, rep) == s1);
                assert(s1.skip(1).len() < m);
                assert(replace_all(s1.skip(1), pat, rep) == s1.skip(1));
                assert(seq![s1[0]] + (s1.skip(1) + seq![c] + replace_all(s2, pat, rep)) =~= s1
                    + seq![c] + replace_all(s2, pat, rep));
            } else {
                assert(s1.take(m) =~= s.take(m));
                assert(s1.take(m) != pat);
                assert(replace_all(s1, pat, rep) == seq![s1[0]] + replace_all(
                    s1.skip(1),
                    pat,
                    rep,
                ));
                assert(seq![s1[0]] + (replace_all(s1.skip(1), pat, rep) + seq![c] + replace_all(
                    s2,
                    pat,
                    rep,
                )) =~= (seq![s1[0]] + replace_all(s1.skip(1), pat, rep)) + seq![c] + replace_all(
                    s2,
                    pat,
                    rep,
                ));
            }
        }
    }
}

/// Pass-through for unmapped characters: a character that occurs in no
/// pattern of a queue survives `apply_mappings` unchanged, in its original
/// position, and the text on its left and on its right are converted
/// independently around it.
pub proof fn lemma_apply_mappings_passthrough(
    s1: Seq<char>,
    c: char,
    s2: Seq<char>,
    q: Seq<(Seq<char>, Seq<char>)>,
)
    requires
        pattern_free(q, c),
    ensures
        apply_mappings(s1 + seq![c] + s2, q) == apply_mappings(s1, q) + seq![c] + apply_mappings(
            s2,
            q,
        ),
    decreases q.len(),
{
    if q.len() > 0 {
        lemma_replace_all_passthrough(s1, c, s2, q[0].0, q[0].1);
        assert(pattern_free(q.drop_first(), c)) by {
            assert(forall|i: int| 0 <= i < q.drop_first().len()
                ==> q.drop_first()[i] == q[i + 1]);
        }
        lemma_apply_mappings_passthrough(
            replace_all(s1, q[0].0, q[0].1),
            c,
            replace_all(s2, q[0].0, q[0].1),
            q.drop_first(),
        );
    }
}

} // verus!
