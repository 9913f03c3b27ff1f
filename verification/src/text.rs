//! Byte-level text utilities shared by the sanitizer, the extractor, the
//! stream assembler and the prompt builder. All text handled by this crate
//! is UTF-8 carried as bytes; the functions here never decode it.
use vstd::prelude::*;

verus! {

/// Line feed.
pub const LF: u8 = 10;

/// Carriage return.
pub const CR: u8 = 13;

/// `{`
pub const LBRACE: u8 = 123;

/// `}`
pub const RBRACE: u8 = 125;

/// `"`
pub const QUOTE: u8 = 34;

/// `\`
pub const BACKSLASH: u8 = 92;

/// ASCII whitespace, as trimmed from line ends and payloads.
pub open spec fn is_space(b: u8) -> bool {
    b == 32 || b == 9 || b == 10 || b == 11 || b == 12 || b == 13
}

/// First index `>= i` at which `b` occurs in `s`, if any.
pub open spec fn find_byte_from(s: Seq<u8>, b: u8, i: int) -> Option<int>
    decreases s.len() - i,
{
    if i < 0 || i >= s.len() {
        None
    } else if s[i] == b {
        Some(i)
    } else {
        find_byte_from(s, b, i + 1)
    }
}

/// Last index `< j` at which `b` occurs in `s`, if any.
pub open spec fn rfind_byte_before(s: Seq<u8>, b: u8, j: int) -> Option<int>
    decreases j,
{
    if j <= 0 || j > s.len() {
        None
    } else if s[j - 1] == b {
        Some(j - 1)
    } else {
        rfind_byte_before(s, b, j - 1)
    }
}

/// `p` occurs in `s` at position `i`.
pub open spec fn match_at(s: Seq<u8>, p: Seq<u8>, i: int) -> bool {
    0 <= i && i + p.len() <= s.len() && s.subrange(i, i + p.len()) == p
}

/// `s` begins with `p`.
pub open spec fn has_prefix(s: Seq<u8>, p: Seq<u8>) -> bool {
    match_at(s, p, 0)
}

/// `s` from position `i` on, with every occurrence of `p` removed,
/// scanning left to right over non-overlapping matches.
pub open spec fn remove_all_from(s: Seq<u8>, p: Seq<u8>, i: int) -> Seq<u8>
    decreases s.len() - i,
{
    if i < 0 || i >= s.len() {
        Seq::empty()
    } else if p.len() > 0 && match_at(s, p, i) {
        remove_all_from(s, p, i + p.len() as int)
    } else {
        seq![s[i]] + remove_all_from(s, p, i + 1)
    }
}

/// `s` with every occurrence of `p` removed.
pub open spec fn remove_all(s: Seq<u8>, p: Seq<u8>) -> Seq<u8> {
    remove_all_from(s, p, 0)
}

/// Index of the first byte of `s` at or after `i` that is not whitespace.
pub open spec fn skip_spaces(s: Seq<u8>, i: int) -> int
    decreases s.len() - i,
{
    if 0 <= i < s.len() && is_space(s[i]) {
        skip_spaces(s, i + 1)
    } else {
        i
    }
}

/// Index just past the last byte of `s` before `j` that is not whitespace.
pub open spec fn rskip_spaces(s: Seq<u8>, j: int) -> int
    decreases j,
{
    if 0 < j <= s.len() && is_space(s[j - 1]) {
        rskip_spaces(s, j - 1)
    } else {
        j
    }
}

/// `s` with leading and trailing ASCII whitespace removed.
pub open spec fn trim(s: Seq<u8>) -> Seq<u8> {
    let lo = skip_spaces(s, 0);
    if lo == s.len() {
        Seq::empty()
    } else {
        s.subrange(lo, rskip_spaces(s, s.len() as int))
    }
}

/// ASCII lower-casing of one byte.
pub open spec fn lower(b: u8) -> u8 {
    if 65 <= b <= 90 {
        (b + 32) as u8
    } else {
        b
    }
}

/// Byte-wise equality up to ASCII case.
pub open spec fn eq_ignore_ascii_case(a: Seq<u8>, b: Seq<u8>) -> bool {
    a.len() == b.len() && forall|i: int| 0 <= i < a.len() ==> lower(a[i]) == lower(b[i])
}

/// Decimal digits of `n`, most significant first.
pub open spec fn dec_of(n: nat) -> Seq<u8>
    decreases n,
{
    if n < 10 {
        seq![(48 + n) as u8]
    } else {
        dec_of(n / 10) + seq![(48 + n % 10) as u8]
    }
}

/// The view of an optional byte vector.
pub open spec fn view_opt(o: Option<Vec<u8>>) -> Option<Seq<u8>> {
    match o {
        Some(v) => Some(v@),
        None => None,
    }
}

/// The views of a sequence of byte vectors.
pub open spec fn seq_views(s: Seq<Vec<u8>>) -> Seq<Seq<u8>> {
    Seq::new(s.len(), |i: int| s[i]@)
}

/// A found byte lies at or after the start of the search, inside `s`,
/// and is the byte searched for.
pub proof fn lemma_find_byte_found(s: Seq<u8>, b: u8, i: int)
    ensures
        find_byte_from(s, b, i) matches Some(j) ==> i <= j < s.len() && s[j] == b,
    decreases s.len() - i,
{
    if 0 <= i < s.len() && s[i] != b {
        lemma_find_byte_found(s, b, i + 1);
    }
}

fn is_space_byte(b: u8) -> (r: bool)
    ensures
        r == is_space(b),
{
    b == 32 || b == 9 || b == 10 || b == 11 || b == 12 || b == 13
}

/// First occurrence of `b` in `s` at or after `from`.
pub fn find_byte_at(s: &[u8], b: u8, from: usize) -> (r: Option<usize>)
    ensures
        find_byte_from(s@, b, from as int) == (match r {
            Some(j) => Some(j as int),
            None => None::<int>,
        }),
        r matches Some(j) ==> from <= j < s@.len(),
{
    let mut i: usize = from;
    while i < s.len()
        invariant
            from <= i,
            find_byte_from(s@, b, from as int) == find_byte_from(s@, b, i as int),
        decreases s@.len() - i,
    {
        if s[i] == b {
            return Some(i);
        }
        i = i + 1;
    }
    None
}

/// Last occurrence of `b` in `s`.
pub fn rfind_byte(s: &[u8], b: u8) -> (r: Option<usize>)
    ensures
        rfind_byte_before(s@, b, s@.len() as int) == (match r {
            Some(j) => Some(j as int),
            None => None::<int>,
        }),
        r matches Some(j) ==> j < s@.len(),
{
    let mut j: usize = s.len();
    while j > 0
        invariant
            j <= s@.len(),
            rfind_byte_before(s@, b, s@.len() as int) == rfind_byte_before(s@, b, j as int),
        decreases j,
    {
        if s[j - 1] == b {
            return Some(j - 1);
        }
        j = j - 1;
    }
    None
}

/// Whether `p` occurs in `s` at position `at`.
pub fn matches_at(s: &[u8], p: &[u8], at: usize) -> (r: bool)
    ensures
        r == match_at(s@, p@, at as int),
{
    if at > s.len() || p.len() > s.len() - at {
        assert(!match_at(s@, p@, at as int));
        return false;
    }
    let mut k: usize = 0;
    while k < p.len()
        invariant
            0 <= k <= p@.len(),
            at + p@.len() <= s@.len(),
            s@.len() <= usize::MAX,
            forall|m: int| 0 <= m < k ==> s@[at + m] == p@[m],
        decreases p@.len() - k,
    {
        if s[at + k] != p[k] {
            assert(s@.subrange(at as int, at + p@.len())[k as int] != p@[k as int]);
            return false;
        }
        k = k + 1;
    }
    proof {
        assert(s@.subrange(at as int, at + p@.len()) =~= p@);
    }
    true
}

/// Whether `s` begins with `p`.
pub fn starts_with(s: &[u8], p: &[u8]) -> (r: bool)
    ensures
        r == has_prefix(s@, p@),
{
    matches_at(s, p, 0)
}

/// Whether `a` and `b` are equal up to ASCII case.
pub fn eq_ascii_ci(a: &[u8], b: &[u8]) -> (r: bool)
    ensures
        r == eq_ignore_ascii_case(a@, b@),
{
    if a.len() != b.len() {
        return false;
    }
    let mut i: usize = 0;
    while i < a.len()
        invariant
            0 <= i <= a@.len(),
            a@.len() == b@.len(),
            forall|m: int| 0 <= m < i ==> lower(a@[m]) == lower(b@[m]),
        decreases a@.len() - i,
    {
        let x = a[i];
        let y = b[i];
        let lx: u8 = if 65 <= x && x <= 90 { x + 32 } else { x };
        let ly: u8 = if 65 <= y && y <= 90 { y + 32 } else { y };
        if lx != ly {
            return false;
        }
        i = i + 1;
    }
    true
}

/// Whether `a` and `b` hold the same bytes.
pub fn bytes_eq(a: &[u8], b: &[u8]) -> (r: bool)
    ensures
        r == (a@ == b@),
{
    if a.len() != b.len() {
        return false;
    }
    let mut i: usize = 0;
    while i < a.len()
        invariant
            0 <= i <= a@.len(),
            a@.len() == b@.len(),
            forall|m: int| 0 <= m < i ==> a@[m] == b@[m],
        decreases a@.len() - i,
    {
        if a[i] != b[i] {
            return false;
        }
        i = i + 1;
    }
    proof {
        assert(a@ =~= b@);
    }
    true
}

/// Whether `b` occurs anywhere in `s`.
pub fn contains_byte(s: &[u8], b: u8) -> (r: bool)
    ensures
        r == (find_byte_from(s@, b, 0) is Some),
{
    match find_byte_at(s, b, 0) {
        Some(_) => true,
        None => false,
    }
}

/// A fresh vector holding `s[lo..hi]`.
pub fn copy_range(s: &[u8], lo: usize, hi: usize) -> (r: Vec<u8>)
    requires
        lo <= hi <= s@.len(),
    ensures
        r@ == s@.subrange(lo as int, hi as int),
{
    let mut out: Vec<u8> = Vec::new();
    let mut i: usize = lo;
    while i < hi
        invariant
            lo <= i <= hi <= s@.len(),
            out@ == s@.subrange(lo as int, i as int),
        decreases hi - i,
    {
        out.push(s[i]);
        i = i + 1;
        proof {
            assert(out@ =~= s@.subrange(lo as int, i as int));
        }
    }
    out
}

/// A fresh vector holding all of `s`.
pub fn to_vec_bytes(s: &[u8]) -> (r: Vec<u8>)
    ensures
        r@ == s@,
{
    let r = copy_range(s, 0, s.len());
    proof {
        assert(r@ =~= s@);
    }
    r
}

/// `s` with leading and trailing ASCII whitespace removed.
pub fn trim_bytes(s: &[u8]) -> (r: Vec<u8>)
    ensures
        r@ == trim(s@),
{
    let mut lo: usize = 0;
    while lo < s.len() && is_space_byte(s[lo])
        invariant
            0 <= lo <= s@.len(),
            skip_spaces(s@, 0) == skip_spaces(s@, lo as int),
        decreases s@.len() - lo,
    {
        lo = lo + 1;
    }
    if lo == s.len() {
        return Vec::new();
    }
    let mut hi: usize = s.len();
    while hi > 0 && is_space_byte(s[hi - 1])
        invariant
            0 <= hi <= s@.len(),
            rskip_spaces(s@, s@.len() as int) == rskip_spaces(s@, hi as int),
        decreases hi,
    {
        hi = hi - 1;
    }
    proof {
        lemma_rskip_spaces_past(s@, s@.len() as int, lo as int);
    }
    copy_range(s, lo, hi)
}

/// `rskip_spaces` never descends past a non-space byte at `lo`.
proof fn lemma_rskip_spaces_past(s: Seq<u8>, j: int, lo: int)
    requires
        0 <= lo < s.len(),
        !is_space(s[lo]),
        lo < j <= s.len(),
    ensures
        lo < rskip_spaces(s, j),
    decreases j,
{
    if is_space(s[j - 1]) {
        if lo < j - 1 {
            lemma_rskip_spaces_past(s, j - 1, lo);
        }
    }
}

/// With an empty pattern, nothing is removed.
pub proof fn lemma_remove_all_empty_pattern(s: Seq<u8>, p: Seq<u8>, i: int)
    requires
        p.len() == 0,
        0 <= i <= s.len(),
    ensures
        remove_all_from(s, p, i) == s.subrange(i, s.len() as int),
    decreases s.len() - i,
{
    if i < s.len() {
        lemma_remove_all_empty_pattern(s, p, i + 1);
        assert(remove_all_from(s, p, i) =~= s.subrange(i, s.len() as int));
    } else {
        assert(remove_all_from(s, p, i) =~= s.subrange(i, s.len() as int));
    }
}

/// `s` with every occurrence of `p` removed, scanning left to right.
pub fn remove_all_bytes(s: &[u8], p: &[u8]) -> (r: Vec<u8>)
    ensures
        r@ == remove_all(s@, p@),
{
    if p.len() == 0 {
        let r = copy_range(s, 0, s.len());
        proof {
            lemma_remove_all_empty_pattern(s@, p@, 0);
            assert(r@ =~= remove_all(s@, p@));
        }
        return r;
    }
    let mut out: Vec<u8> = Vec::new();
    let mut i: usize = 0;
    while i < s.len()
        invariant
            0 <= i <= s@.len(),
            p@.len() > 0,
            remove_all(s@, p@) == out@ + remove_all_from(s@, p@, i as int),
        decreases s@.len() - i,
    {
        if matches_at(s, p, i) {
            i = i + p.len();
        } else {
            out.push(s[i]);
            i = i + 1;
            proof {
                assert(remove_all(s@, p@) =~= out@ + remove_all_from(s@, p@, i as int));
            }
        }
    }
    proof {
        assert(remove_all(s@, p@) =~= out@);
    }
    out
}

/// Decimal digits of `n`, most significant first.
pub fn u64_to_dec(n: u64) -> (r: Vec<u8>)
    ensures
        r@ == dec_of(n as nat),
    decreases n,
{
    if n < 10 {
        let mut out: Vec<u8> = Vec::new();
        out.push(48 + (n as u8));
        proof {
            assert(out@ =~= dec_of(n as nat));
        }
        out
    } else {
        let mut out = u64_to_dec(n / 10);
        out.push(48 + ((n % 10) as u8));
        proof {
            assert(out@ =~= dec_of(n as nat));
        }
        out
    }
}

} // verus!
