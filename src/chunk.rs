use vstd::prelude::*;
use vstd::arithmetic::div_mod::{lemma_fundamental_div_mod, lemma_mod_pos_bound};
use crate::message::EmbedField;
use crate::text::{decimal, decimal_of, join2, owned};

verus! {

/// Number of pieces of at most `m` characters that `n` characters make.
pub open spec fn chunk_count(n: nat, m: nat) -> nat
    recommends
        m > 0,
{
    ((n + m - 1) as int / m as int) as nat
}

/// The `k`-th piece (from 0) of `s` cut into pieces of `m` characters.
pub open spec fn chunk_at(s: Seq<char>, m: nat, k: int) -> Seq<char> {
    let end = if (k + 1) * m < s.len() {
        (k + 1) * m
    } else {
        s.len() as int
    };
    s.subrange(k * m, end)
}

/// The character sequences of a list of strings.
pub open spec fn string_views(v: Seq<String>) -> Seq<Seq<char>> {
    v.map_values(|x: String| x@)
}

/// All pieces put back together, in order.
pub open spec fn flatten(pieces: Seq<Seq<char>>) -> Seq<char>
    decreases pieces.len(),
{
    if pieces.len() == 0 {
        Seq::empty()
    } else {
        flatten(pieces.drop_last()) + pieces.last()
    }
}

/// The pieces that `chunk_text` gives: `chunk_count` of them, each a slice of
/// at most `m` characters, in order.
pub open spec fn is_chunking(pieces: Seq<Seq<char>>, s: Seq<char>, m: nat) -> bool {
    &&& pieces.len() == chunk_count(s.len(), m)
    &&& forall|k: int| 0 <= k < pieces.len() ==> #[trigger] pieces[k] == chunk_at(s, m, k)
}

proof fn lemma_ceil_step(n: int, m: int, k: int)
    requires
        m > 0,
        k >= 0,
        k * m < n <= k * m + m,
    ensures
        (n + m - 1) / m == k + 1,
{
    lemma_fundamental_div_mod(n + m - 1, m);
    lemma_mod_pos_bound(n + m - 1, m);
    let q = (n + m - 1) / m;
    let r = (n + m - 1) % m;
    assert(q == k + 1) by (nonlinear_arith)
        requires
            n + m - 1 == m * q + r,
            0 <= r < m,
            k * m < n <= k * m + m,
            m > 0,
    ;
}

proof fn lemma_ceil_zero(m: int)
    requires
        m > 0,
    ensures
        (m - 1) / m == 0,
{
    lemma_fundamental_div_mod(m - 1, m);
    lemma_mod_pos_bound(m - 1, m);
    let q = (m - 1) / m;
    let r = (m - 1) % m;
    assert(q == 0) by (nonlinear_arith)
        requires
            m - 1 == m * q + r,
            0 <= r < m,
    ;
}

/// Cuts `s` into successive pieces of at most `max` characters, never inside a
/// character. An empty string gives no piece.
pub fn chunk_text(s: &str, max: usize) -> (r: Vec<String>)
    requires
        max > 0,
    ensures
        is_chunking(string_views(r@), s@, max as nat),
{
    let n = s.unicode_len();
    let mut out: Vec<String> = Vec::new();
    let mut start: usize = 0;
    proof {
        lemma_ceil_zero(max as int);
        assert(out@.len() * max == 0) by (nonlinear_arith)
            requires
                out@.len() == 0,
        ;
    }
    while start < n
        invariant
            n == s@.len(),
            max > 0,
            start <= n,
            start < n ==> start as int == out@.len() * max,
            start == n ==> out@.len() == chunk_count(n as nat, max as nat),
            start < n ==> out@.len() * max < n,
            forall|k: int|
                0 <= k < out@.len() ==> #[trigger] out@[k]@ == chunk_at(s@, max as nat, k),
        decreases n - start,
    {
        let i = Ghost(out@.len() as int);
        let end: usize = if n - start > max {
            start + max
        } else {
            n
        };
        let piece = owned(s.substring_char(start, end));
        out.push(piece);
        proof {
            assert(out@[i@]@ == chunk_at(s@, max as nat, i@)) by {
                assert((i@ + 1) * max == i@ * max + max) by (nonlinear_arith);
            }
            assert((i@ + 1) * max == i@ * max + max) by (nonlinear_arith);
            if end == n {
                lemma_ceil_step(n as int, max as int, i@);
            }
        }
        start = end;
    }
    proof {
        assert(string_views(out@).len() == out@.len());
        assert forall|k: int| 0 <= k < string_views(out@).len() implies #[trigger] string_views(
            out@,
        )[k] == chunk_at(s@, max as nat, k) by {
            assert(out@[k]@ == chunk_at(s@, max as nat, k));
        }
    }
    out
}

proof fn lemma_count_bounds(n: int, m: int)
    requires
        n >= 0,
        m > 0,
    ensures
        ((n + m - 1) / m) > 0 ==> (((n + m - 1) / m) - 1) * m < n && n <= ((n + m - 1) / m) * m,
        ((n + m - 1) / m) == 0 ==> n == 0,
        ((n + m - 1) / m) >= 0,
{
    let c = (n + m - 1) / m;
    lemma_fundamental_div_mod(n + m - 1, m);
    lemma_mod_pos_bound(n + m - 1, m);
    let r = (n + m - 1) % m;
    assert(c >= 0 && (c > 0 ==> (c - 1) * m < n && n <= c * m) && (c == 0 ==> n == 0))
        by (nonlinear_arith)
        requires
            n + m - 1 == m * c + r,
            0 <= r < m,
            n >= 0,
            m > 0,
    ;
}

proof fn lemma_flatten_prefix(s: Seq<char>, m: nat, pieces: Seq<Seq<char>>, k: int)
    requires
        m > 0,
        0 <= k <= pieces.len(),
        k * m <= s.len() || k == pieces.len(),
        forall|j: int| 0 <= j < pieces.len() ==> #[trigger] pieces[j] == chunk_at(s, m, j),
        pieces.len() == chunk_count(s.len(), m),
    ensures
        k < pieces.len() ==> flatten(pieces.subrange(0, k)) == s.subrange(0, k * m),
        k == pieces.len() ==> flatten(pieces.subrange(0, k)) == s,
    decreases k,
{
    let n = s.len() as int;
    let c = pieces.len() as int;
    lemma_count_bounds(n, m as int);
    if k == 0 {
        assert(k * m == 0) by (nonlinear_arith)
            requires
                k == 0,
        ;
        assert(pieces.subrange(0, 0) =~= Seq::<Seq<char>>::empty());
        if c == 0 {
            assert(s =~= Seq::<char>::empty());
        }
        assert(s.subrange(0, 0) =~= Seq::<char>::empty());
    } else {
        assert((k - 1) * m <= k * m - m) by (nonlinear_arith)
            requires
                k >= 1,
        ;
        assert(k * m == (k - 1) * m + m) by (nonlinear_arith);
        assert((k - 1) * m < n) by (nonlinear_arith)
            requires
                k <= c,
                (c - 1) * m < n,
                m > 0,
        ;
        lemma_flatten_prefix(s, m, pieces, k - 1);
        let front = pieces.subrange(0, k);
        assert(front.drop_last() =~= pieces.subrange(0, k - 1));
        assert(front.last() == chunk_at(s, m, k - 1));
        if k < c {
            assert(k * m < n) by (nonlinear_arith)
                requires
                    k < c,
                    k * m <= n,
                    (c - 1) * m < n,
            ;
            assert(flatten(front) =~= s.subrange(0, k * m));
        } else {
            assert(k * m >= n) by (nonlinear_arith)
                requires
                    k == c,
                    n <= c * m,
            ;
            assert(flatten(front) =~= s);
        }
    }
}

/// Putting the pieces of a chunking back together, in order, gives the
/// text that was cut, and there are ceil(N / M) of them.
pub proof fn lemma_chunks_reassemble(s: Seq<char>, m: nat, pieces: Seq<Seq<char>>)
    requires
        m > 0,
        is_chunking(pieces, s, m),
    ensures
        flatten(pieces) == s,
        pieces.len() == chunk_count(s.len(), m),
        forall|k: int| 0 <= k < pieces.len() ==> (#[trigger] pieces[k]).len() <= m,
{
    lemma_flatten_prefix(s, m, pieces, pieces.len() as int);
    assert(pieces.subrange(0, pieces.len() as int) =~= pieces);
    lemma_count_bounds(s.len() as int, m as int);
    assert forall|k: int| 0 <= k < pieces.len() implies (#[trigger] pieces[k]).len() <= m by {
        let c = pieces.len() as int;
        assert(pieces[k] == chunk_at(s, m, k));
        assert(k * m < s.len()) by (nonlinear_arith)
            requires
                0 <= k < c,
                (c - 1) * m < s.len(),
                m > 0,
        ;
        assert((k + 1) * m == k * m + m) by (nonlinear_arith);
    }
}


/// The name of the `k`-th piece (from 0) of a field called `name`: the name
/// and the piece's number, counted from 1.
pub open spec fn chunk_header(name: Seq<char>, k: int) -> Seq<char> {
    name + " ("@ + decimal_of((k + 1) as nat) + ")"@
}

/// The values of a list of fields.
pub open spec fn field_values(v: Seq<EmbedField>) -> Seq<Seq<char>> {
    v.map_values(|f: EmbedField| f.value@)
}

/// Splits a block that is too long for one field into numbered fields, each
/// with a value of at most `max` characters.
pub fn chunk_fields(name: &str, blob: &str, max: usize) -> (r: Vec<EmbedField>)
    requires
        max > 0,
    ensures
        is_chunking(field_values(r@), blob@, max as nat),
        forall|k: int|
            0 <= k < r@.len() ==> (#[trigger] r@[k]).name@ == chunk_header(name@, k)
                && !r@[k].inline,
{
    let pieces = chunk_text(blob, max);
    let mut out: Vec<EmbedField> = Vec::new();
    let mut i: usize = 0;
    while i < pieces.len()
        invariant
            is_chunking(string_views(pieces@), blob@, max as nat),
            0 <= i <= pieces@.len(),
            out@.len() == i,
            forall|k: int|
                0 <= k < i ==> (#[trigger] out@[k]).value@ == pieces@[k]@ && out@[k].name@
                    == chunk_header(name@, k) && !out@[k].inline,
        decreases pieces@.len() - i,
    {
        let mut header = join2(name, " (");
        let number = decimal(i as u64 + 1);
        header.append(number.as_str());
        header.append(")");
        let value = owned(pieces[i].as_str());
        out.push(EmbedField { name: header, value, inline: false });
        i = i + 1;
    }
    proof {
        assert forall|k: int| 0 <= k < field_values(out@).len() implies #[trigger] field_values(
            out@,
        )[k] == chunk_at(blob@, max as nat, k) by {
            assert(string_views(pieces@)[k] == pieces@[k]@);
        }
    }
    out
}

} // verus!
