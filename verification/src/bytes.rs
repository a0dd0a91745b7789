//! Byte-sequence helpers: splitting on one- and two-byte separators, joining,
//! trimming trailing NUL padding, prefix tests and copies. Each executable
//! function is proved against a recursive specification of the same operation.

use vstd::prelude::*;

verus! {

/// First index `>= i` at which the two-byte separator `a b` occurs in `s`,
/// or `-1` when it occurs nowhere at or after `i`.
pub open spec fn spec_find2_from(s: Seq<u8>, a: u8, b: u8, i: int) -> int
    decreases s.len() - i,
{
    if i < 0 || i + 2 > s.len() {
        -1
    } else if s[i] == a && s[i + 1] == b {
        i
    } else {
        spec_find2_from(s, a, b, i + 1)
    }
}

/// Split `s` on every occurrence of the two-byte separator `a b`, left to
/// right; the separator never appears inside a piece, and splitting a
/// separator-free sequence yields that sequence as the single piece.
pub open spec fn spec_split2(s: Seq<u8>, a: u8, b: u8) -> Seq<Seq<u8>>
    decreases s.len(),
{
    let f = spec_find2_from(s, a, b, 0);
    if f < 0 || f + 2 > s.len() {
        seq![s]
    } else {
        seq![s.subrange(0, f)] + spec_split2(s.subrange(f + 2, s.len() as int), a, b)
    }
}

/// First index `>= i` at which the byte `c` occurs in `s`, or `-1`.
pub open spec fn spec_find1_from(s: Seq<u8>, c: u8, i: int) -> int
    decreases s.len() - i,
{
    if i < 0 || i >= s.len() {
        -1
    } else if s[i] == c {
        i
    } else {
        spec_find1_from(s, c, i + 1)
    }
}

/// Split `s` on every occurrence of the byte `c`, left to right.
pub open spec fn spec_split1(s: Seq<u8>, c: u8) -> Seq<Seq<u8>>
    decreases s.len(),
{
    let f = spec_find1_from(s, c, 0);
    if f < 0 || f >= s.len() {
        seq![s]
    } else {
        seq![s.subrange(0, f)] + spec_split1(s.subrange(f + 1, s.len() as int), c)
    }
}

/// Join `pieces` with the single byte `c` between adjacent pieces.
pub open spec fn spec_join1(pieces: Seq<Seq<u8>>, c: u8) -> Seq<u8>
    decreases pieces.len(),
{
    if pieces.len() == 0 {
        Seq::empty()
    } else if pieces.len() == 1 {
        pieces[0]
    } else {
        pieces[0] + seq![c] + spec_join1(pieces.drop_first(), c)
    }
}

/// `s` with every trailing NUL byte removed.
pub open spec fn spec_trim_nul(s: Seq<u8>) -> Seq<u8>
    decreases s.len(),
{
    if s.len() > 0 && s[s.len() - 1] == 0u8 {
        spec_trim_nul(s.drop_last())
    } else {
        s
    }
}

/// `p` is a prefix of `s`.
pub open spec fn spec_starts_with(s: Seq<u8>, p: Seq<u8>) -> bool {
    p.len() <= s.len() && s.subrange(0, p.len() as int) == p
}

/// Copy of the byte range `[from, to)` of `s`.
pub fn subvec(s: &Vec<u8>, from: usize, to: usize) -> (r: Vec<u8>)
    requires
        from <= to <= s@.len(),
    ensures
        r@ == s@.subrange(from as int, to as int),
{
    let mut r: Vec<u8> = Vec::new();
    let mut i: usize = from;
    while i < to
        invariant
            from <= i <= to <= s@.len(),
            r@ == s@.subrange(from as int, i as int),
        decreases to - i,
    {
        r.push(s[i]);
        proof {
            assert(r@ =~= s@.subrange(from as int, i + 1));
        }
        i = i + 1;
    }
    r
}

/// Copy of the whole of `s`.
pub fn copy_vec(s: &Vec<u8>) -> (r: Vec<u8>)
    ensures
        r@ == s@,
{
    let r = subvec(s, 0, s.len());
    proof {
        assert(s@.subrange(0, s@.len() as int) =~= s@);
    }
    r
}

/// Position of the first occurrence of the pair `a b` in `s`, if any.
pub fn find2(s: &Vec<u8>, a: u8, b: u8) -> (r: Option<usize>)
    ensures
        match r {
            Some(i) => spec_find2_from(s@, a, b, 0) == i && i + 2 <= s@.len() && s@[i as int]
                == a && s@[i + 1] == b,
            None => spec_find2_from(s@, a, b, 0) == -1,
        },
{
    let mut i: usize = 0;
    while s.len() >= 2 && i <= s.len() - 2
        invariant
            0 <= i <= s@.len(),
            spec_find2_from(s@, a, b, 0) == spec_find2_from(s@, a, b, i as int),
        decreases s@.len() - i,
    {
        if s[i] == a && s[i + 1] == b {
            return Some(i);
        }
        i = i + 1;
    }
    None
}

/// Position of the first occurrence of the byte `c` in `s`, if any.
pub fn find1(s: &Vec<u8>, c: u8) -> (r: Option<usize>)
    ensures
        match r {
            Some(i) => spec_find1_from(s@, c, 0) == i && i < s@.len() && s@[i as int] == c,
            None => spec_find1_from(s@, c, 0) == -1,
        },
{
    let mut i: usize = 0;
    while i < s.len()
        invariant
            0 <= i <= s@.len(),
            spec_find1_from(s@, c, 0) == spec_find1_from(s@, c, i as int),
        decreases s@.len() - i,
    {
        if s[i] == c {
            return Some(i);
        }
        i = i + 1;
    }
    None
}

/// Split `s` on the two-byte separator `a b`.
pub fn split2(s: &Vec<u8>, a: u8, b: u8) -> (r: Vec<Vec<u8>>)
    ensures
        r.deep_view() == spec_split2(s@, a, b),
    decreases s@.len(),
{
    match find2(s, a, b) {
        None => {
            let mut r: Vec<Vec<u8>> = Vec::new();
            r.push(copy_vec(s));
            proof {
                assert(r.deep_view() =~~= spec_split2(s@, a, b));
            }
            r
        },
        Some(i) => {
            proof {
                assert(i + 2 <= s@.len());
            }
            let n: usize = s.len();
            let head = subvec(s, 0, i);
            let tail = subvec(s, i + 2, n);
            let mut r = split2(&tail, a, b);
            r.insert(0, head);
            proof {
                assert(r.deep_view() =~~= spec_split2(s@, a, b));
            }
            r
        },
    }
}

/// Split `s` on the byte `c`.
pub fn split1(s: &Vec<u8>, c: u8) -> (r: Vec<Vec<u8>>)
    ensures
        r.deep_view() == spec_split1(s@, c),
    decreases s@.len(),
{
    match find1(s, c) {
        None => {
            let mut r: Vec<Vec<u8>> = Vec::new();
            r.push(copy_vec(s));
            proof {
                assert(r.deep_view() =~~= spec_split1(s@, c));
            }
            r
        },
        Some(i) => {
            proof {
                assert(i + 1 <= s@.len());
            }
            let n: usize = s.len();
            let head = subvec(s, 0, i);
            let tail = subvec(s, i + 1, n);
            let mut r = split1(&tail, c);
            r.insert(0, head);
            proof {
                assert(r.deep_view() =~~= spec_split1(s@, c));
            }
            r
        },
    }
}

/// Join the pieces of `pieces` from index `from` on, with `c` in between.
pub fn join1_from(pieces: &Vec<Vec<u8>>, from: usize, c: u8) -> (r: Vec<u8>)
    requires
        from <= pieces@.len(),
    ensures
        r@ == spec_join1(pieces.deep_view().subrange(from as int, pieces@.len() as int), c),
    decreases pieces@.len() - from,
{
    let ghost tail = pieces.deep_view().subrange(from as int, pieces@.len() as int);
    if from >= pieces.len() {
        let r: Vec<u8> = Vec::new();
        proof {
            assert(tail.len() == 0);
            assert(r@ =~= spec_join1(tail, c));
        }
        r
    } else if from == pieces.len() - 1 {
        let r = copy_vec(&pieces[from]);
        proof {
            assert(tail.len() == 1);
            assert(tail[0] == pieces.deep_view()[from as int]);
            assert(r@ =~= spec_join1(tail, c));
        }
        r
    } else {
        let mut r = copy_vec(&pieces[from]);
        r.push(c);
        let mut rest = join1_from(pieces, from + 1, c);
        r.append(&mut rest);
        proof {
            assert(tail.drop_first() =~= pieces.deep_view().subrange(
                from + 1,
                pieces@.len() as int,
            ));
            assert(r@ =~= spec_join1(tail, c));
        }
        r
    }
}

/// `s` with every trailing NUL byte removed.
pub fn trim_nul(s: &Vec<u8>) -> (r: Vec<u8>)
    ensures
        r@ == spec_trim_nul(s@),
{
    let mut n: usize = s.len();
    proof {
        assert(s@.subrange(0, n as int) =~= s@);
    }
    while n > 0 && s[n - 1] == 0u8
        invariant
            0 <= n <= s@.len(),
            spec_trim_nul(s@) == spec_trim_nul(s@.subrange(0, n as int)),
        decreases n,
    {
        proof {
            assert(s@.subrange(0, n as int).drop_last() =~= s@.subrange(0, n - 1));
        }
        n = n - 1;
    }
    let r = subvec(s, 0, n);
    proof {
        assert(spec_trim_nul(s@.subrange(0, n as int)) == s@.subrange(0, n as int));
    }
    r
}

/// Does `s` start with the prefix `p`?
pub fn starts_with(s: &Vec<u8>, p: &Vec<u8>) -> (r: bool)
    ensures
        r == spec_starts_with(s@, p@),
{
    if p.len() > s.len() {
        return false;
    }
    let mut i: usize = 0;
    while i < p.len()
        invariant
            0 <= i <= p@.len() <= s@.len(),
            forall|j: int| 0 <= j < i ==> s@[j] == p@[j],
        decreases p@.len() - i,
    {
        if s[i] != p[i] {
            return false;
        }
        i = i + 1;
    }
    proof {
        assert(s@.subrange(0, p@.len() as int) =~= p@);
    }
    true
}

/// Are `a` and `b` the same byte sequence?
pub fn bytes_eq(a: &Vec<u8>, b: &Vec<u8>) -> (r: bool)
    ensures
        r == (a@ == b@),
{
    if a.len() != b.len() {
        proof {
            assert(a@.len() != b@.len());
        }
        return false;
    }
    let mut i: usize = 0;
    while i < a.len()
        invariant
            0 <= i <= a@.len(),
            a@.len() == b@.len(),
            forall|j: int| 0 <= j < i ==> a@[j] == b@[j],
        decreases a@.len() - i,
    {
        if a[i] != b[i] {
            return false;
        }
        i = i + 1;
    }
    proof {
        assert(a@ =~= b@);
    }
    true
}

} // verus!
