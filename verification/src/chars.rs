use vstd::prelude::*;

verus! {

/// `s` without its leading run of `c` (`str::trim_start_matches`).
pub open spec fn trimmed_start(s: Seq<char>, c: char) -> Seq<char>
    decreases s.len(),
{
    if s.len() > 0 && s[0] == c {
        trimmed_start(s.drop_first(), c)
    } else {
        s
    }
}

/// `s` without its trailing run of `c` (`str::trim_end_matches`).
pub open spec fn trimmed_end(s: Seq<char>, c: char) -> Seq<char>
    decreases s.len(),
{
    if s.len() > 0 && s.last() == c {
        trimmed_end(s.drop_last(), c)
    } else {
        s
    }
}

/// `s` with every leading and trailing `c` removed (`str::trim_matches`).
pub open spec fn trimmed(s: Seq<char>, c: char) -> Seq<char> {
    trimmed_end(trimmed_start(s, c), c)
}

/// `s` trimmed of `cs[0]`, then of `cs[1]`, and so on: a chain of
/// `trim_matches` calls, one for each character of `cs`.
pub open spec fn trimmed_each(s: Seq<char>, cs: Seq<char>) -> Seq<char>
    decreases cs.len(),
{
    if cs.len() == 0 {
        s
    } else {
        trimmed_each(trimmed(s, cs[0]), cs.drop_first())
    }
}

/// The pieces of `s` between commas, in order (`str::split(",")`): an empty
/// `s` gives one empty piece, and `n` commas give `n + 1` pieces.
pub open spec fn split_commas(s: Seq<char>) -> Seq<Seq<char>>
    decreases s.len(),
{
    if s.len() == 0 {
        seq![Seq::<char>::empty()]
    } else {
        let before = split_commas(s.drop_last());
        if s.last() == ',' {
            before.push(Seq::<char>::empty())
        } else {
            before.update(before.len() - 1, before.last().push(s.last()))
        }
    }
}

pub proof fn lemma_split_commas_nonempty(s: Seq<char>)
    ensures
        split_commas(s).len() >= 1,
    decreases s.len(),
{
    if s.len() > 0 {
        lemma_split_commas_nonempty(s.drop_last());
    }
}

/// Whether `arg` is the literal `lit`.
pub fn eq_lit(arg: &[char], lit: &str) -> (r: bool)
    ensures
        r == (arg@ == lit@),
{
    let n: usize = lit.unicode_len();
    if arg.len() != n {
        return false;
    }
    let mut i: usize = 0;
    while i < n
        invariant
            i <= n,
            n == arg@.len(),
            n == lit@.len(),
            forall|j: int| 0 <= j < i ==> arg@[j] == lit@[j],
        decreases n - i,
    {
        if arg[i] != lit.get_char(i) {
            return false;
        }
        i = i + 1;
    }
    assert(arg@ =~= lit@);
    true
}

/// Whether `arg` begins with the literal `lit` (`str::starts_with`).
pub fn starts_with_lit(arg: &[char], lit: &str) -> (r: bool)
    ensures
        r == lit@.is_prefix_of(arg@),
{
    let n: usize = lit.unicode_len();
    if arg.len() < n {
        return false;
    }
    let mut i: usize = 0;
    while i < n
        invariant
            i <= n,
            n <= arg@.len(),
            n == lit@.len(),
            forall|j: int| 0 <= j < i ==> arg@[j] == lit@[j],
        decreases n - i,
    {
        if arg[i] != lit.get_char(i) {
            return false;
        }
        i = i + 1;
    }
    assert(lit@ =~= arg@.take(n as int));
    true
}

/// The characters `s[from..to]` as a vector.
pub fn copy_range(s: &[char], from: usize, to: usize) -> (r: Vec<char>)
    requires
        from <= to <= s@.len(),
    ensures
        r@ == s@.subrange(from as int, to as int),
{
    let mut v: Vec<char> = Vec::new();
    let mut i: usize = from;
    while i < to
        invariant
            from <= i <= to <= s@.len(),
            v@ == s@.subrange(from as int, i as int),
        decreases to - i,
    {
        v.push(s[i]);
        i = i + 1;
        assert(v@ =~= s@.subrange(from as int, i as int));
    }
    v
}

/// `s` with every leading and trailing `c` removed (`str::trim_matches`).
pub fn trim_matches(s: &[char], c: char) -> (r: Vec<char>)
    ensures
        r@ == trimmed(s@, c),
{
    let mut a: usize = 0;
    assert(s@.skip(0) =~= s@);
    while a < s.len() && s[a] == c
        invariant
            a <= s@.len(),
            trimmed_start(s@, c) == trimmed_start(s@.skip(a as int), c),
        decreases s@.len() - a,
    {
        assert(s@.skip(a as int).drop_first() =~= s@.skip(a + 1));
        a = a + 1;
    }
    let ghost t = s@.skip(a as int);
    assert(trimmed_start(s@, c) == t);
    let mut b: usize = s.len();
    assert(t.take(t.len() as int) =~= t);
    while b > a && s[b - 1] == c
        invariant
            a <= b <= s@.len(),
            t == s@.skip(a as int),
            trimmed_end(t, c) == trimmed_end(t.take(b - a), c),
        decreases b,
    {
        assert(t.take(b - a).drop_last() =~= t.take(b - a - 1));
        b = b - 1;
    }
    assert(t.take(b - a) =~= s@.subrange(a as int, b as int));
    copy_range(s, a, b)
}

/// `s` trimmed of each character of `cs` in turn.
pub fn trim_each(s: &[char], cs: &str) -> (r: Vec<char>)
    ensures
        r@ == trimmed_each(s@, cs@),
{
    let n: usize = cs.unicode_len();
    let mut cur = copy_range(s, 0, s.len());
    assert(s@.subrange(0, s@.len() as int) =~= s@);
    let mut i: usize = 0;
    assert(cs@.skip(0) =~= cs@);
    while i < n
        invariant
            i <= n,
            n == cs@.len(),
            trimmed_each(s@, cs@) == trimmed_each(cur@, cs@.skip(i as int)),
        decreases n - i,
    {
        let c = cs.get_char(i);
        assert(cs@.skip(i as int).drop_first() =~= cs@.skip(i + 1));
        cur = trim_matches(cur.as_slice(), c);
        i = i + 1;
    }
    assert(cs@.skip(n as int) =~= Seq::<char>::empty());
    cur
}

/// The pieces of `s` between commas (`str::split(",")`).
pub fn split_commas_exec(s: &[char]) -> (r: Vec<Vec<char>>)
    ensures
        r@.len() == split_commas(s@).len(),
        forall|i: int| 0 <= i < r@.len() ==> #[trigger] r@[i]@ == split_commas(s@)[i],
{
    let mut pieces: Vec<Vec<char>> = Vec::new();
    pieces.push(Vec::new());
    let mut i: usize = 0;
    assert(s@.take(0) =~= Seq::<char>::empty());
    while i < s.len()
        invariant
            i <= s@.len(),
            pieces@.len() == split_commas(s@.take(i as int)).len(),
            pieces@.len() >= 1,
            forall|k: int|
                0 <= k < pieces@.len() ==> #[trigger] pieces@[k]@ == split_commas(
                    s@.take(i as int),
                )[k],
        decreases s@.len() - i,
    {
        let c = s[i];
        let ghost before = split_commas(s@.take(i as int));
        assert(s@.take(i + 1).drop_last() =~= s@.take(i as int));
        if c == ',' {
            pieces.push(Vec::new());
        } else {
            let mut piece = pieces.pop().unwrap();
            piece.push(c);
            pieces.push(piece);
            assert(pieces@.len() == before.len());
            assert forall|k: int| 0 <= k < pieces@.len() implies #[trigger] pieces@[k]@
                == before.update(before.len() - 1, before.last().push(c))[k] by {}
        }
        i = i + 1;
    }
    assert(s@.take(s@.len() as int) =~= s@);
    pieces
}

} // verus!
