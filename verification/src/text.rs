//! The `key=value` line protocol: whitespace trimming and splitting a raw
//! progress line into a key and a value.

use vstd::prelude::*;

verus! {

/// Characters treated as incidental whitespace by the line protocol:
/// the ASCII whitespace set that surrounds keys and values on the wire.
pub open spec fn is_ws(c: char) -> bool {
    c == ' ' || c == '\t' || c == '\n' || c == '\r' || c == '\u{b}' || c == '\u{c}'
}

fn is_ws_char(c: char) -> (b: bool)
    ensures
        b == is_ws(c),
{
    c == ' ' || c == '\t' || c == '\n' || c == '\r' || c == '\u{b}' || c == '\u{c}'
}

/// `s` with its leading whitespace removed.
pub open spec fn trim_left(s: Seq<char>) -> Seq<char>
    decreases s.len(),
{
    if s.len() > 0 && is_ws(s[0]) {
        trim_left(s.subrange(1, s.len() as int))
    } else {
        s
    }
}

/// `s` with its trailing whitespace removed.
pub open spec fn trim_right(s: Seq<char>) -> Seq<char>
    decreases s.len(),
{
    if s.len() > 0 && is_ws(s[s.len() - 1]) {
        trim_right(s.subrange(0, s.len() - 1))
    } else {
        s
    }
}

/// `s` with whitespace removed from both ends.
pub open spec fn trim(s: Seq<char>) -> Seq<char> {
    trim_right(trim_left(s))
}

/// Index of the first occurrence of `c` in `s`; `s.len()` when `c` is absent.
pub open spec fn first_pos(s: Seq<char>, c: char) -> int
    decreases s.len(),
{
    if s.len() == 0 {
        0
    } else if s[0] == c {
        0
    } else {
        1 + first_pos(s.subrange(1, s.len() as int), c)
    }
}

/// What `parse_line` returns: the trimmed line split at its first `=` into a
/// right-trimmed key and a left-trimmed value, or nothing when no `=` occurs.
pub open spec fn spec_parse_line(line: Seq<char>) -> Option<(Seq<char>, Seq<char>)> {
    let t = trim(line);
    let i = first_pos(t, '=');
    if i == t.len() {
        None
    } else {
        Some((trim_right(t.subrange(0, i)), trim_left(t.subrange(i + 1, t.len() as int))))
    }
}

proof fn lemma_trim_left_is_subrange(s: Seq<char>, a: int)
    requires
        0 <= a <= s.len(),
        forall|j: int| 0 <= j < a ==> is_ws(s[j]),
        a < s.len() ==> !is_ws(s[a]),
    ensures
        trim_left(s) == s.subrange(a, s.len() as int),
    decreases a,
{
    if a == 0 {
        assert(s.subrange(0, s.len() as int) =~= s);
    } else {
        let t = s.subrange(1, s.len() as int);
        assert(forall|j: int| 0 <= j < a - 1 ==> is_ws(t[j]));
        lemma_trim_left_is_subrange(t, a - 1);
        assert(t.subrange(a - 1, t.len() as int) =~= s.subrange(a, s.len() as int));
    }
}

proof fn lemma_trim_right_is_subrange(s: Seq<char>, b: int)
    requires
        0 <= b <= s.len(),
        forall|j: int| b <= j < s.len() ==> is_ws(s[j]),
        b > 0 ==> !is_ws(s[b - 1]),
    ensures
        trim_right(s) == s.subrange(0, b),
    decreases s.len(),
{
    if b == s.len() {
        assert(s.subrange(0, b) =~= s);
    } else {
        let t = s.subrange(0, s.len() - 1);
        assert(forall|j: int| b <= j < t.len() ==> is_ws(t[j]));
        lemma_trim_right_is_subrange(t, b);
        assert(t.subrange(0, b) =~= s.subrange(0, b));
    }
}

pub(crate) proof fn lemma_first_pos_unique(s: Seq<char>, c: char, i: int)
    requires
        0 <= i <= s.len(),
        forall|j: int| 0 <= j < i ==> s[j] != c,
        i < s.len() ==> s[i] == c,
    ensures
        first_pos(s, c) == i,
    decreases s.len(),
{
    if s.len() == 0 {
    } else if s[0] == c {
        assert(i == 0);
    } else {
        assert(i >= 1);
        let t = s.subrange(1, s.len() as int);
        assert(forall|j: int| 0 <= j < i - 1 ==> t[j] != c);
        lemma_first_pos_unique(t, c, i - 1);
    }
}

/// Splits one raw progress line on its first `=`, tolerating incidental
/// whitespace: the key is trimmed on the right, the value on the left, and
/// the line as a whole on both ends.  Returns nothing when the line holds
/// no `=`, which callers treat as a protocol violation.
pub fn parse_line(line: &str) -> (r: Option<(String, String)>)
    ensures
        match r {
            None => spec_parse_line(line@) is None,
            Some(kv) => spec_parse_line(line@) == Some((kv.0@, kv.1@)),
        },
{
    let n = line.unicode_len();
    let mut a: usize = 0;
    while a < n && is_ws_char(line.get_char(a))
        invariant
            a <= n,
            n == line@.len(),
            forall|j: int| 0 <= j < a ==> is_ws(line@[j]),
        decreases n - a,
    {
        a += 1;
    }
    let mut b: usize = n;
    while b > a && is_ws_char(line.get_char(b - 1))
        invariant
            a <= b <= n,
            n == line@.len(),
            forall|j: int| b <= j < n ==> is_ws(line@[j]),
        decreases b,
    {
        b -= 1;
    }
    proof {
        lemma_trim_left_is_subrange(line@, a as int);
        let tl = line@.subrange(a as int, n as int);
        lemma_trim_right_is_subrange(tl, b - a);
        assert(tl.subrange(0, b - a) =~= line@.subrange(a as int, b as int));
        assert(trim(line@) == line@.subrange(a as int, b as int));
    }
    let mut i = a;
    while i < b && line.get_char(i) != '='
        invariant
            a <= i <= b <= n,
            n == line@.len(),
            forall|j: int| a <= j < i ==> line@[j] != '=',
        decreases b - i,
    {
        i += 1;
    }
    proof {
        let t = line@.subrange(a as int, b as int);
        assert(forall|j: int| 0 <= j < i - a ==> t[j] != '=');
        lemma_first_pos_unique(t, '=', i - a);
    }
    if i == b {
        return None;
    }
    let mut ke = i;
    while ke > a && is_ws_char(line.get_char(ke - 1))
        invariant
            a <= ke <= i,
            n == line@.len(),
            i < n,
            forall|j: int| ke <= j < i ==> is_ws(line@[j]),
        decreases ke,
    {
        ke -= 1;
    }
    let mut vs = i + 1;
    while vs < b && is_ws_char(line.get_char(vs))
        invariant
            i + 1 <= vs <= b <= n,
            n == line@.len(),
            forall|j: int| i + 1 <= j < vs ==> is_ws(line@[j]),
        decreases b - vs,
    {
        vs += 1;
    }
    let key = String::from_str(line.substring_char(a, ke));
    let value = String::from_str(line.substring_char(vs, b));
    proof {
        let t = line@.subrange(a as int, b as int);
        let kpart = t.subrange(0, i - a);
        assert(kpart =~= line@.subrange(a as int, i as int));
        assert(forall|j: int| ke - a <= j < kpart.len() ==> is_ws(kpart[j]));
        lemma_trim_right_is_subrange(kpart, ke - a);
        assert(kpart.subrange(0, ke - a) =~= line@.subrange(a as int, ke as int));
        let vpart = t.subrange(i - a + 1, t.len() as int);
        assert(vpart =~= line@.subrange(i as int + 1, b as int));
        assert(forall|j: int| 0 <= j < vs - i - 1 ==> is_ws(vpart[j]));
        lemma_trim_left_is_subrange(vpart, vs - i - 1);
        assert(vpart.subrange(vs - i - 1, vpart.len() as int) =~= line@.subrange(
            vs as int,
            b as int,
        ));
    }
    Some((key, value))
}

/// Character-for-character string equality, stated over the views.
pub fn str_eq(a: &str, b: &str) -> (r: bool)
    ensures
        r == (a@ == b@),
{
    let an = a.unicode_len();
    let bn = b.unicode_len();
    if an != bn {
        return false;
    }
    let mut i: usize = 0;
    while i < an
        invariant
            i <= an,
            an == a@.len(),
            an == b@.len(),
            forall|j: int| 0 <= j < i ==> a@[j] == b@[j],
        decreases an - i,
    {
        if a.get_char(i) != b.get_char(i) {
            return false;
        }
        i += 1;
    }
    proof {
        assert(a@ =~= b@);
    }
    true
}

} // verus!
