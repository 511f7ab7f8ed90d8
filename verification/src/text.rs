//! Text helpers: comparing two texts and joining lines.
use vstd::prelude::*;
use vstd::string::*;

verus! {

/// `parts` joined with `sep` between consecutive parts.
pub open spec fn joined(parts: Seq<Seq<char>>, sep: Seq<char>) -> Seq<char>
    decreases parts.len(),
{
    if parts.len() == 0 {
        seq![]
    } else if parts.len() == 1 {
        parts[0]
    } else {
        joined(parts.drop_last(), sep) + sep + parts.last()
    }
}

/// The texts of a list of strings.
pub open spec fn texts(rows: Seq<String>) -> Seq<Seq<char>> {
    rows.map_values(|s: String| s@)
}

/// The total number of characters of the parts.
pub open spec fn total_len(parts: Seq<Seq<char>>) -> int
    decreases parts.len(),
{
    if parts.len() == 0 {
        0
    } else {
        total_len(parts.drop_last()) + parts.last().len()
    }
}

/// Joining two non-empty lists of parts is joining each and putting the
/// separator between them: no part is lost, reordered or changed.
pub proof fn lemma_joined_append(a: Seq<Seq<char>>, b: Seq<Seq<char>>, sep: Seq<char>)
    requires
        a.len() >= 1,
        b.len() >= 1,
    ensures
        joined(a + b, sep) == joined(a, sep) + sep + joined(b, sep),
    decreases b.len(),
{
    let ab = a + b;
    if b.len() == 1 {
        assert(ab.drop_last() =~= a);
        assert(ab.last() == b[0]);
    } else {
        assert(ab.drop_last() =~= a + b.drop_last());
        assert(ab.last() == b.last());
        lemma_joined_append(a, b.drop_last(), sep);
        assert(joined(a, sep) + sep + joined(b.drop_last(), sep) + sep + b.last() =~= joined(
            a,
            sep,
        ) + sep + (joined(b.drop_last(), sep) + sep + b.last()));
    }
}

/// The joined text of `n >= 1` parts holds all their characters and `n - 1`
/// separators.
pub proof fn lemma_joined_len(parts: Seq<Seq<char>>, sep: Seq<char>)
    requires
        parts.len() >= 1,
    ensures
        joined(parts, sep).len() == total_len(parts) + (parts.len() - 1) * sep.len(),
    decreases parts.len(),
{
    if parts.len() == 1 {
        assert(parts.drop_last().len() == 0);
        assert(total_len(parts.drop_last()) == 0);
    } else {
        lemma_joined_len(parts.drop_last(), sep);
        let n: int = parts.len() as int;
        let k: int = sep.len() as int;
        assert((n - 2) * k + k == (n - 1) * k) by (nonlinear_arith);
    }
}

/// A single part is joined as itself, and the joined text of two or more
/// parts is that of all but the last, a separator, and the last.
pub proof fn lemma_joined_last(parts: Seq<Seq<char>>, sep: Seq<char>)
    requires
        parts.len() >= 1,
    ensures
        parts.len() == 1 ==> joined(parts, sep) == parts[0],
        parts.len() >= 2 ==> joined(parts, sep) == joined(parts.drop_last(), sep) + sep
            + parts.last(),
{
    if parts.len() >= 2 {
        let a = parts.drop_last();
        let b = seq![parts.last()];
        lemma_joined_append(a, b, sep);
        assert(a + b =~= parts);
    }
}

/// Whether two texts hold the same characters.
pub fn text_equals(a: &str, b: &str) -> (r: bool)
    ensures
        r == (a@ == b@),
{
    let n: usize = a.unicode_len();
    let m: usize = b.unicode_len();
    if n != m {
        return false;
    }
    let mut i: usize = 0;
    while i < n
        invariant
            n == a@.len(),
            m == b@.len(),
            n == m,
            i <= n,
            forall|j: int| 0 <= j < i ==> a@[j] == b@[j],
        decreases n - i,
    {
        if a.get_char(i) != b.get_char(i) {
            return false;
        }
        i = i + 1;
    }
    assert(a@ =~= b@);
    true
}

/// The lines of `rows` joined with a newline between consecutive lines, the
/// text that a CSV reader is given for one chunk.
pub fn join_lines(rows: &Vec<String>) -> (r: String)
    ensures
        r@ == joined(texts(rows@), "\n"@),
        rows@.len() >= 1 ==> r@.len() == total_len(texts(rows@)) + rows@.len() - 1,
{
    let mut res = String::new();
    let ghost parts = texts(rows@);
    let mut i: usize = 0;
    while i < rows.len()
        invariant
            i <= rows.len(),
            parts == texts(rows@),
            res@ == joined(parts.take(i as int), "\n"@),
        decreases rows.len() - i,
    {
        if i != 0 {
            res.append("\n");
        }
        res.append(rows[i].as_str());
        assert(parts.take(i + 1).drop_last() =~= parts.take(i as int));
        if i == 0 {
            assert(res@ =~= parts.take(1)[0]);
        }
        i = i + 1;
    }
    assert(parts.take(rows.len() as int) =~= parts);
    if rows.len() >= 1 {
        proof {
            reveal_strlit("\n");
            lemma_joined_len(parts, "\n"@);
        }
    }
    res
}

} // verus!
