//! Lookup of a credential in a token store file.
//!
//! The store is a text file of `key=value` lines. The lookup walks the
//! lines in order and returns the value of the first line whose key — the
//! part before the first `=`, with surrounding ASCII whitespace removed —
//! matches the requested key; the value comes back trimmed the same way.
//! Lines without an `=` are skipped. Reading the file from disk happens
//! outside the library; the lookup is a pure function of the bytes.

use vstd::prelude::*;

verus! {

/// Line separator in the token store.
pub const NEWLINE: u8 = 10;

/// Separator between a key and its value.
pub const EQUALS_SIGN: u8 = 61;

/// ASCII whitespace stripped from keys and values: space, tab, carriage
/// return and line feed.
pub open spec fn is_ascii_space(b: u8) -> bool {
    b == 32 || b == 9 || b == 13 || b == 10
}

/// Index of the first occurrence of `b` in `s`, or `s.len()` if absent.
pub open spec fn first_index_of(s: Seq<u8>, b: u8) -> int
    decreases s.len(),
{
    if s.len() == 0 {
        0
    } else if s.first() == b {
        0
    } else {
        1 + first_index_of(s.drop_first(), b)
    }
}

/// `s` without its leading ASCII whitespace.
pub open spec fn trim_front(s: Seq<u8>) -> Seq<u8>
    decreases s.len(),
{
    if s.len() > 0 && is_ascii_space(s.first()) {
        trim_front(s.drop_first())
    } else {
        s
    }
}

/// `s` without its trailing ASCII whitespace.
pub open spec fn trim_back(s: Seq<u8>) -> Seq<u8>
    decreases s.len(),
{
    if s.len() > 0 && is_ascii_space(s.last()) {
        trim_back(s.drop_last())
    } else {
        s
    }
}

/// `s` without leading and trailing ASCII whitespace.
pub open spec fn trim_of(s: Seq<u8>) -> Seq<u8> {
    trim_back(trim_front(s))
}

/// What one line contributes: the trimmed value if the line has an `=` and
/// its trimmed key part equals `key`, else nothing.
pub open spec fn line_token(line: Seq<u8>, key: Seq<u8>) -> Option<Seq<u8>> {
    let i = first_index_of(line, EQUALS_SIGN);
    if !(0 <= i < line.len()) {
        Option::None
    } else if trim_of(line.take(i)) == key {
        Option::Some(trim_of(line.skip(i + 1)))
    } else {
        Option::None
    }
}

/// The token for `key` in the whole store: the contribution of the first
/// line that has one, walking the lines in file order.
pub open spec fn token_lookup(contents: Seq<u8>, key: Seq<u8>) -> Option<Seq<u8>>
    decreases contents.len(),
{
    let nl = first_index_of(contents, NEWLINE);
    if !(0 <= nl < contents.len()) {
        line_token(contents, key)
    } else {
        match line_token(contents.take(nl), key) {
            Option::Some(v) => Option::Some(v),
            Option::None => token_lookup(contents.skip(nl + 1), key),
        }
    }
}

proof fn lemma_first_index_of_unique(s: Seq<u8>, b: u8, i: int)
    requires
        0 <= i <= s.len(),
        forall|j: int| 0 <= j < i ==> s[j] != b,
        i < s.len() ==> s[i] == b,
    ensures
        first_index_of(s, b) == i,
    decreases s.len(),
{
    if s.len() > 0 && s.first() != b {
        assert(i > 0);
        let t = s.drop_first();
        assert(forall|j: int| 0 <= j < i - 1 ==> t[j] != b);
        lemma_first_index_of_unique(t, b, i - 1);
    }
}

proof fn lemma_trim_front_split(s: Seq<u8>, k: int)
    requires
        0 <= k <= s.len(),
        forall|j: int| 0 <= j < k ==> is_ascii_space(s[j]),
        k < s.len() ==> !is_ascii_space(s[k]),
    ensures
        trim_front(s) == s.skip(k),
    decreases k,
{
    if k == 0 {
        assert(s.skip(0) =~= s);
    } else {
        let t = s.drop_first();
        assert(forall|j: int| 0 <= j < k - 1 ==> is_ascii_space(t[j]));
        lemma_trim_front_split(t, k - 1);
        assert(t.skip(k - 1) =~= s.skip(k));
    }
}

proof fn lemma_trim_back_split(s: Seq<u8>, m: int)
    requires
        0 <= m <= s.len(),
        forall|j: int| m <= j < s.len() ==> is_ascii_space(s[j]),
        m > 0 ==> !is_ascii_space(s[m - 1]),
    ensures
        trim_back(s) == s.take(m),
    decreases s.len(),
{
    if m == s.len() {
        if s.len() > 0 {
            assert(s.take(m) =~= s);
        } else {
            assert(s.take(0) =~= s);
        }
    } else {
        let t = s.drop_last();
        assert(forall|j: int| m <= j < t.len() ==> is_ascii_space(t[j]));
        lemma_trim_back_split(t, m);
        assert(t.take(m) =~= s.take(m));
    }
}

fn is_space_byte(b: u8) -> (r: bool)
    ensures
        r == is_ascii_space(b),
{
    b == 32 || b == 9 || b == 13 || b == 10
}

fn first_byte_index(s: &[u8], b: u8) -> (r: usize)
    ensures
        r as int == first_index_of(s@, b),
        r <= s@.len(),
{
    let mut i: usize = 0;
    while i < s.len()
        invariant
            i <= s@.len(),
            forall|j: int| 0 <= j < i ==> s@[j] != b,
        ensures
            i <= s@.len(),
            forall|j: int| 0 <= j < i ==> s@[j] != b,
            i < s@.len() ==> s@[i as int] == b,
        decreases s@.len() - i,
    {
        if s[i] == b {
            break ;
        }
        i = i + 1;
    }
    proof {
        lemma_first_index_of_unique(s@, b, i as int);
    }
    i
}

/// Copies `s[lo..hi]` with surrounding ASCII whitespace removed.
fn trim_range(s: &[u8], lo: usize, hi: usize) -> (r: Vec<u8>)
    requires
        lo <= hi <= s@.len(),
    ensures
        r@ == trim_of(s@.subrange(lo as int, hi as int)),
{
    let mut a = lo;
    while a < hi
        invariant
            lo <= a <= hi <= s@.len(),
            forall|j: int| lo <= j < a ==> is_ascii_space(s@[j]),
        ensures
            lo <= a <= hi <= s@.len(),
            forall|j: int| lo <= j < a ==> is_ascii_space(s@[j]),
            a < hi ==> !is_ascii_space(s@[a as int]),
        decreases hi - a,
    {
        if !is_space_byte(s[a]) {
            break ;
        }
        a = a + 1;
    }
    let mut e = hi;
    while e > a
        invariant
            lo <= a <= e <= hi <= s@.len(),
            forall|j: int| e <= j < hi ==> is_ascii_space(s@[j]),
        ensures
            a <= e <= hi,
            forall|j: int| e <= j < hi ==> is_ascii_space(s@[j]),
            e > a ==> !is_ascii_space(s@[e - 1]),
        decreases e,
    {
        if !is_space_byte(s[e - 1]) {
            break ;
        }
        e = e - 1;
    }
    let mut out: Vec<u8> = Vec::new();
    let mut i = a;
    while i < e
        invariant
            a <= i <= e <= s@.len(),
            out@ == s@.subrange(a as int, i as int),
        decreases e - i,
    {
        out.push(s[i]);
        proof {
            assert(s@.subrange(a as int, i + 1 as int) =~= s@.subrange(a as int, i as int).push(
                s@[i as int],
            ));
        }
        i = i + 1;
    }
    proof {
        let sub = s@.subrange(lo as int, hi as int);
        assert(forall|j: int| 0 <= j < a - lo ==> is_ascii_space(#[trigger] sub[j]));
        lemma_trim_front_split(sub, a - lo);
        let t = sub.skip(a - lo);
        assert(t.len() == hi - a);
        assert(forall|j: int| e - a <= j < t.len() ==> is_ascii_space(#[trigger] t[j]));
        lemma_trim_back_split(t, e - a);
        assert(t.take(e - a) =~= s@.subrange(a as int, e as int));
    }
    out
}

fn bytes_eq(x: &[u8], y: &[u8]) -> (r: bool)
    ensures
        r == (x@ == y@),
{
    if x.len() != y.len() {
        return false;
    }
    let mut i: usize = 0;
    while i < x.len()
        invariant
            x@.len() == y@.len(),
            i <= x@.len(),
            forall|j: int| 0 <= j < i ==> x@[j] == y@[j],
        decreases x@.len() - i,
    {
        if x[i] != y[i] {
            return false;
        }
        i = i + 1;
    }
    proof {
        assert(x@ =~= y@);
    }
    true
}

fn line_token_exec(line: &[u8], key: &[u8]) -> (r: Option<Vec<u8>>)
    ensures
        r matches Some(v) ==> line_token(line@, key@) == Option::Some(v@),
        r is None ==> line_token(line@, key@) is None,
{
    let i = first_byte_index(line, EQUALS_SIGN);
    if i >= line.len() {
        return None;
    }
    let left = trim_range(line, 0, i);
    proof {
        assert(line@.subrange(0, i as int) =~= line@.take(i as int));
    }
    if bytes_eq(left.as_slice(), key) {
        let value = trim_range(line, i + 1, line.len());
        proof {
            assert(line@.subrange(i + 1 as int, line@.len() as int) =~= line@.skip(i + 1));
        }
        Some(value)
    } else {
        None
    }
}

/// Looks the credential for `key` up in the bytes of a token store file:
/// the trimmed value of the first `key=value` line whose trimmed key part
/// equals `key`, or nothing if no line matches.
pub fn token_for_key(contents: &[u8], key: &[u8]) -> (r: Option<Vec<u8>>)
    ensures
        r matches Some(v) ==> token_lookup(contents@, key@) == Option::Some(v@),
        r is None ==> token_lookup(contents@, key@) is None,
    decreases contents@.len(),
{
    let nl = first_byte_index(contents, NEWLINE);
    if nl >= contents.len() {
        line_token_exec(contents, key)
    } else {
        let line = &contents[0..nl];
        proof {
            assert(line@ =~= contents@.take(nl as int));
        }
        match line_token_exec(line, key) {
            Some(v) => Some(v),
            None => {
                let rest = &contents[nl + 1..contents.len()];
                proof {
                    assert(rest@ =~= contents@.skip(nl + 1));
                }
                token_for_key(rest, key)
            },
        }
    }
}

} // verus!
