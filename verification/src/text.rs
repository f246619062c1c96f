//! Character-level string helpers shared by every module.

use vstd::prelude::*;

verus! {

/// `String::push` appends one character.
pub assume_specification[ String::push ](s: &mut String, ch: char)
    ensures
        final(s)@ == old(s)@.push(ch),
;

/// Unicode `White_Space`, the set `char::is_whitespace` tests.
pub open spec fn is_space(c: char) -> bool {
    ||| '\t' <= c <= '\r'
    ||| c == ' '
    ||| c == '\u{85}'
    ||| c == '\u{A0}'
    ||| c == '\u{1680}'
    ||| '\u{2000}' <= c <= '\u{200A}'
    ||| c == '\u{2028}'
    ||| c == '\u{2029}'
    ||| c == '\u{202F}'
    ||| c == '\u{205F}'
    ||| c == '\u{3000}'
}

/// Number of leading whitespace characters.
pub open spec fn lead_len(s: Seq<char>) -> nat
    decreases s.len(),
{
    if s.len() > 0 && is_space(s[0]) {
        1 + lead_len(s.drop_first())
    } else {
        0
    }
}

/// Number of trailing whitespace characters.
pub open spec fn trail_len(s: Seq<char>) -> nat
    decreases s.len(),
{
    if s.len() > 0 && is_space(s.last()) {
        1 + trail_len(s.drop_last())
    } else {
        0
    }
}

/// `s` without leading and trailing whitespace (what `str::trim` gives).
pub open spec fn trim(s: Seq<char>) -> Seq<char> {
    let t = s.skip(lead_len(s) as int);
    t.take(t.len() - trail_len(t))
}

/// ASCII upper-case letters mapped to lower case, everything else kept.
pub open spec fn ascii_lower_char(c: char) -> char {
    if 'A' <= c <= 'Z' {
        ((c as u32) + 32) as char
    } else {
        c
    }
}

pub open spec fn ascii_lower(s: Seq<char>) -> Seq<char> {
    Seq::new(s.len(), |i: int| ascii_lower_char(s[i]))
}

proof fn lemma_lower_lead_trail(s: Seq<char>)
    ensures
        lead_len(ascii_lower(s)) == lead_len(s),
        trail_len(ascii_lower(s)) == trail_len(s),
    decreases s.len(),
{
    if s.len() > 0 {
        assert(ascii_lower(s).drop_first() =~= ascii_lower(s.drop_first()));
        assert(ascii_lower(s).drop_last() =~= ascii_lower(s.drop_last()));
        lemma_lower_lead_trail(s.drop_first());
        lemma_lower_lead_trail(s.drop_last());
        assert(is_space(ascii_lower_char(s[0])) == is_space(s[0]));
        assert(is_space(ascii_lower_char(s.last())) == is_space(s.last()));
    }
}

proof fn lemma_lead_trail_bound(s: Seq<char>)
    ensures
        lead_len(s) <= s.len(),
        trail_len(s) <= s.len(),
    decreases s.len(),
{
    if s.len() > 0 {
        lemma_lead_trail_bound(s.drop_first());
        lemma_lead_trail_bound(s.drop_last());
    }
}

/// Lower-casing and trimming commute: whitespace is no letter.
pub proof fn lemma_lower_trim(s: Seq<char>)
    ensures
        trim(ascii_lower(s)) == ascii_lower(trim(s)),
{
    let k = lead_len(s) as int;
    lemma_lower_lead_trail(s);
    lemma_lead_trail_bound(s);
    let t = s.skip(k);
    assert(ascii_lower(s).skip(k) =~= ascii_lower(t));
    lemma_lower_lead_trail(t);
    lemma_lead_trail_bound(t);
    assert(ascii_lower(t).take(t.len() - trail_len(t)) =~= ascii_lower(t.take(t.len() - trail_len(t))));
}

pub open spec fn all_ascii(s: Seq<char>) -> bool {
    forall|i: int| 0 <= i < s.len() ==> (s[i] as u32) < 128
}

/// What `str::to_lowercase` gives for `s` (Unicode lower-casing).
pub uninterp spec fn unicode_lower(s: Seq<char>) -> Seq<char>;

/// `trim`, then Unicode lower-casing: the normal form of every keyword
/// field the settings accept.
pub open spec fn keyword_form(s: Seq<char>) -> Seq<char> {
    unicode_lower(trim(s))
}

/// Calls `str::to_lowercase`. The contract names its result and states
/// the one fact its documentation gives plainly: on ASCII text it is the
/// ASCII lower-casing.
#[verifier::external_body]
fn std_lowercase(s: &str) -> (r: String)
    ensures
        r@ == unicode_lower(s@),
        all_ascii(s@) ==> r@ == ascii_lower(s@),
{
    s.to_lowercase()
}

/// The characters of `s`, in order.
pub fn chars_of(s: &str) -> (r: Vec<char>)
    ensures
        r@ == s@,
{
    let mut out: Vec<char> = Vec::new();
    for c in it: s.chars()
        invariant
            out@ == it.seq().take(it.index()),
    {
        out.push(c);
    }
    out
}

/// A `String` holding exactly the characters of `v`.
pub fn string_of(v: &Vec<char>) -> (r: String)
    ensures
        r@ == v@,
{
    let mut s = String::new();
    let mut i: usize = 0;
    while i < v.len()
        invariant
            i <= v.len(),
            s@ == v@.take(i as int),
        decreases v.len() - i,
    {
        s.push(v[i]);
        i = i + 1;
    }
    s
}

/// Exec test for [`is_space`].
pub fn char_is_space(c: char) -> (r: bool)
    ensures
        r == is_space(c),
{
    ('\t' <= c && c <= '\r') || c == ' ' || c == '\u{85}' || c == '\u{A0}' || c == '\u{1680}'
        || ('\u{2000}' <= c && c <= '\u{200A}') || c == '\u{2028}' || c == '\u{2029}'
        || c == '\u{202F}' || c == '\u{205F}' || c == '\u{3000}'
}

proof fn lemma_lead_len(s: Seq<char>, i: int)
    requires
        0 <= i <= s.len(),
        forall|j: int| 0 <= j < i ==> is_space(s[j]),
        i == s.len() || !is_space(s[i]),
    ensures
        lead_len(s) == i,
    decreases i,
{
    if i > 0 {
        lemma_lead_len(s.drop_first(), i - 1);
    }
}

proof fn lemma_trail_len(s: Seq<char>, i: int)
    requires
        0 <= i <= s.len(),
        forall|j: int| s.len() - i <= j < s.len() ==> is_space(s[j]),
        i == s.len() || !is_space(s[s.len() - i - 1]),
    ensures
        trail_len(s) == i,
    decreases i,
{
    if i > 0 {
        lemma_trail_len(s.drop_last(), i - 1);
    }
}

/// `s` without surrounding whitespace.
pub fn trim_chars(s: &Vec<char>) -> (r: Vec<char>)
    ensures
        r@ == trim(s@),
{
    let n = s.len();
    let mut lo: usize = 0;
    while lo < n && char_is_space(s[lo])
        invariant
            lo <= n == s@.len(),
            forall|j: int| 0 <= j < lo ==> is_space(s@[j]),
        decreases n - lo,
    {
        lo = lo + 1;
    }
    proof {
        lemma_lead_len(s@, lo as int);
    }
    let ghost t = s@.skip(lo as int);
    let mut hi: usize = n;
    while hi > lo && char_is_space(s[hi - 1])
        invariant
            lo <= hi <= n == s@.len(),
            t == s@.skip(lo as int),
            forall|j: int| hi <= j < n ==> is_space(s@[j]),
        decreases hi - lo,
    {
        hi = hi - 1;
    }
    proof {
        assert forall|j: int| t.len() - (n - hi) <= j < t.len() implies is_space(t[j]) by {
            assert(t[j] == s@[j + lo]);
        }
        if hi > lo {
            assert(t[t.len() - (n - hi) - 1] == s@[hi - 1]);
        }
        lemma_trail_len(t, (n - hi) as int);
    }
    let mut out: Vec<char> = Vec::new();
    let mut i: usize = lo;
    while i < hi
        invariant
            lo <= i <= hi <= n == s@.len(),
            out@ == s@.subrange(lo as int, i as int),
        decreases hi - i,
    {
        out.push(s[i]);
        i = i + 1;
    }
    assert(out@ =~= trim(s@));
    out
}

/// `trim` of a string slice, as characters.
pub fn trimmed(s: &str) -> (r: Vec<char>)
    ensures
        r@ == trim(s@),
{
    trim_chars(&chars_of(s))
}

/// The keyword form (`trim`, then `to_lowercase`) of `s`.
pub fn keyword_of(s: &str) -> (r: Vec<char>)
    ensures
        r@ == keyword_form(s@),
        all_ascii(trim(s@)) ==> r@ == ascii_lower(trim(s@)),
{
    let t = string_of(&trimmed(s));
    chars_of(&std_lowercase(t.as_str()))
}

/// Exec ASCII lower-casing.
pub fn ascii_lowercase(s: &Vec<char>) -> (r: Vec<char>)
    ensures
        r@ == ascii_lower(s@),
{
    let mut out: Vec<char> = Vec::new();
    let mut i: usize = 0;
    while i < s.len()
        invariant
            i <= s.len(),
            out@ == ascii_lower(s@).take(i as int),
        decreases s.len() - i,
    {
        let c = s[i];
        let d = if 'A' <= c && c <= 'Z' {
            let b: u8 = (c as u8) + 32;
            b as char
        } else {
            c
        };
        out.push(d);
        proof {
            assert(ascii_lower(s@).take(i + 1) =~= ascii_lower(s@).take(i as int).push(d));
        }
        i = i + 1;
    }
    assert(out@ =~= ascii_lower(s@));
    out
}

/// Whether `a` holds exactly the characters of `b`.
pub fn eq_str(a: &Vec<char>, b: &str) -> (r: bool)
    ensures
        r == (a@ == b@),
{
    let bv = chars_of(b);
    if a.len() != bv.len() {
        return false;
    }
    let mut i: usize = 0;
    while i < a.len()
        invariant
            i <= a.len() == bv.len(),
            bv@ == b@,
            forall|j: int| 0 <= j < i ==> a@[j] == bv@[j],
        decreases a.len() - i,
    {
        if a[i] != bv[i] {
            return false;
        }
        i = i + 1;
    }
    assert(a@ =~= bv@);
    true
}

/// Whether `c` occurs in `s`.
pub fn contains_char(s: &Vec<char>, c: char) -> (r: bool)
    ensures
        r == s@.contains(c),
{
    let mut i: usize = 0;
    while i < s.len()
        invariant
            i <= s.len(),
            forall|j: int| 0 <= j < i ==> s@[j] != c,
        decreases s.len() - i,
    {
        if s[i] == c {
            return true;
        }
        i = i + 1;
    }
    false
}


/// `s` cut at every character of `seps` (what `str::split` gives with a
/// set of separator characters): one more piece than there are separators.
pub open spec fn split_any(s: Seq<char>, seps: Seq<char>) -> Seq<Seq<char>>
    decreases s.len(),
{
    if s.len() == 0 {
        seq![Seq::<char>::empty()]
    } else {
        let r = split_any(s.drop_last(), seps);
        if seps.contains(s.last()) {
            r.push(Seq::<char>::empty())
        } else {
            r.update(r.len() - 1, r.last().push(s.last()))
        }
    }
}

pub proof fn lemma_split_any_nonempty(s: Seq<char>, seps: Seq<char>)
    ensures
        split_any(s, seps).len() >= 1,
    decreases s.len(),
{
    if s.len() > 0 {
        lemma_split_any_nonempty(s.drop_last(), seps);
    }
}

/// No piece of a split holds a separator.
pub proof fn lemma_split_any_pieces(s: Seq<char>, seps: Seq<char>)
    ensures
        forall|i: int, j: int|
            0 <= i < split_any(s, seps).len() && 0 <= j < split_any(s, seps)[i].len()
                ==> !seps.contains(#[trigger] split_any(s, seps)[i][j]),
    decreases s.len(),
{
    lemma_split_any_nonempty(s, seps);
    if s.len() > 0 {
        lemma_split_any_pieces(s.drop_last(), seps);
        lemma_split_any_nonempty(s.drop_last(), seps);
        let r = split_any(s.drop_last(), seps);
        if !seps.contains(s.last()) {
            let r2 = split_any(s, seps);
            assert forall|i: int, j: int|
                0 <= i < r2.len() && 0 <= j < r2[i].len() implies !seps.contains(#[trigger] r2[i][j]) by {
                if i == r.len() - 1 {
                    if j < r.last().len() {
                        assert(r2[i][j] == r[i][j]);
                    }
                } else {
                    assert(r2[i] == r[i]);
                }
            }
        }
    }
}

/// Exec membership test over a small character set.
pub fn in_set(c: char, seps: &Vec<char>) -> (r: bool)
    ensures
        r == seps@.contains(c),
{
    contains_char(seps, c)
}

/// `v` cut at every character of `seps`.
pub fn split_chars(v: &Vec<char>, seps: &Vec<char>) -> (r: Vec<Vec<char>>)
    ensures
        r@.len() == split_any(v@, seps@).len(),
        forall|k: int| 0 <= k < r@.len() ==> #[trigger] r@[k]@ == split_any(v@, seps@)[k],
        r.len() >= 1,
{
    let mut parts: Vec<Vec<char>> = Vec::new();
    let mut cur: Vec<char> = Vec::new();
    let mut i: usize = 0;
    while i < v.len()
        invariant
            i <= v.len(),
            parts@.len() + 1 == split_any(v@.take(i as int), seps@).len(),
            forall|k: int| 0 <= k < parts@.len() ==> #[trigger] parts@[k]@ == split_any(v@.take(i as int), seps@)[k],
            cur@ == split_any(v@.take(i as int), seps@).last(),
        decreases v.len() - i,
    {
        let c = v[i];
        proof {
            assert(v@.take(i + 1).drop_last() =~= v@.take(i as int));
            assert(v@.take(i + 1).last() == c);
            lemma_split_any_nonempty(v@.take(i as int), seps@);
        }
        if in_set(c, seps) {
            parts.push(cur);
            cur = Vec::new();
        } else {
            cur.push(c);
        }
        i = i + 1;
    }
    proof {
        assert(v@.take(v.len() as int) =~= v@);
    }
    parts.push(cur);
    parts
}


/// Characters `lo..hi` of `v`.
pub fn slice_chars(v: &Vec<char>, lo: usize, hi: usize) -> (r: Vec<char>)
    requires
        lo <= hi <= v.len(),
    ensures
        r@ == v@.subrange(lo as int, hi as int),
{
    let mut out: Vec<char> = Vec::new();
    let mut i: usize = lo;
    while i < hi
        invariant
            lo <= i <= hi <= v.len(),
            out@ == v@.subrange(lo as int, i as int),
        decreases hi - i,
    {
        out.push(v[i]);
        i = i + 1;
    }
    out
}

/// First position of `c` in `s`.
pub open spec fn index_of(s: Seq<char>, c: char) -> Option<int>
    decreases s.len(),
{
    if s.len() == 0 {
        None
    } else if s[0] == c {
        Some(0)
    } else {
        match index_of(s.drop_first(), c) {
            Some(i) => Some(i + 1),
            None => None,
        }
    }
}

pub proof fn lemma_index_of(s: Seq<char>, c: char)
    ensures
        index_of(s, c) is None <==> !s.contains(c),
        index_of(s, c) matches Some(i) ==> 0 <= i < s.len() && s[i] == c && forall|j: int|
            0 <= j < i ==> s[j] != c,
    decreases s.len(),
{
    if s.len() > 0 {
        lemma_index_of(s.drop_first(), c);
        if s[0] != c {
            if s.contains(c) {
                let k = choose|k: int| 0 <= k < s.len() && s[k] == c;
                assert(s.drop_first()[k - 1] == c);
            }
            if s.drop_first().contains(c) {
                let k = choose|k: int| 0 <= k < s.drop_first().len() && s.drop_first()[k] == c;
                assert(s[k + 1] == c);
            }
            if let Some(i) = index_of(s, c) {
                assert forall|j: int| 0 <= j < i implies s[j] != c by {
                    if j > 0 {
                        assert(s[j] == s.drop_first()[j - 1]);
                    }
                }
            }
        }
    }
}

/// Exec [`index_of`].
pub fn find_char(v: &Vec<char>, c: char) -> (r: Option<usize>)
    ensures
        r matches Some(i) ==> index_of(v@, c) == Some(i as int),
        r is None ==> index_of(v@, c) is None,
{
    proof {
        lemma_index_of(v@, c);
    }
    let mut i: usize = 0;
    while i < v.len()
        invariant
            i <= v.len(),
            forall|j: int| 0 <= j < i ==> v@[j] != c,
        decreases v.len() - i,
    {
        if v[i] == c {
            proof {
                lemma_index_of(v@, c);
                if let Some(k) = index_of(v@, c) {
                    assert(k == i);
                }
            }
            return Some(i);
        }
        i = i + 1;
    }
    None
}


/// A text that neither starts nor ends with whitespace is its own trim.
pub proof fn lemma_trim_of_unpadded(s: Seq<char>)
    requires
        s.len() == 0 || (!is_space(s[0]) && !is_space(s.last())),
    ensures
        trim(s) == s,
{
    assert(lead_len(s) == 0);
    assert(s.skip(0) =~= s);
    assert(trail_len(s) == 0);
    assert(s.take(s.len() as int) =~= s);
}


/// Last position of `c` in `s`.
pub open spec fn last_index_of(s: Seq<char>, c: char) -> Option<int>
    decreases s.len(),
{
    if s.len() == 0 {
        None
    } else if s.last() == c {
        Some(s.len() - 1)
    } else {
        last_index_of(s.drop_last(), c)
    }
}

pub proof fn lemma_last_index_of(s: Seq<char>, c: char)
    ensures
        last_index_of(s, c) matches Some(i) ==> 0 <= i < s.len() && s[i] == c,
    decreases s.len(),
{
    if s.len() > 0 {
        lemma_last_index_of(s.drop_last(), c);
    }
}

/// Exec [`last_index_of`].
pub fn rfind_char(v: &Vec<char>, c: char) -> (r: Option<usize>)
    ensures
        r matches Some(i) ==> last_index_of(v@, c) == Some(i as int) && i < v@.len(),
        r is None ==> last_index_of(v@, c) is None,
{
    proof {
        lemma_last_index_of(v@, c);
    }
    let mut i: usize = v.len();
    assert(v@.take(i as int) =~= v@);
    while i > 0
        invariant
            i <= v.len(),
            last_index_of(v@, c) == last_index_of(v@.take(i as int), c),
        decreases i,
    {
        proof {
            assert(v@.take(i as int).drop_last() =~= v@.take(i - 1));
        }
        if v[i - 1] == c {
            return Some(i - 1);
        }
        i = i - 1;
    }
    None
}

/// Whether `s` starts with the characters of `p`.
pub open spec fn has_prefix(s: Seq<char>, p: Seq<char>) -> bool {
    s.len() >= p.len() && s.take(p.len() as int) == p
}

pub fn starts_with(s: &Vec<char>, p: &str) -> (r: bool)
    ensures
        r == has_prefix(s@, p@),
{
    let pv = chars_of(p);
    if s.len() < pv.len() {
        return false;
    }
    let mut i: usize = 0;
    while i < pv.len()
        invariant
            i <= pv.len() <= s.len(),
            pv@ == p@,
            forall|j: int| 0 <= j < i ==> s@[j] == pv@[j],
        decreases pv.len() - i,
    {
        if s[i] != pv[i] {
            assert(s@.take(pv@.len() as int)[i as int] != pv@[i as int]);
            return false;
        }
        i = i + 1;
    }
    assert(s@.take(pv@.len() as int) =~= pv@);
    true
}


/// `parts` joined with `sep` between neighbours.
pub open spec fn join(parts: Seq<Seq<char>>, sep: Seq<char>) -> Seq<char>
    decreases parts.len(),
{
    if parts.len() == 0 {
        Seq::<char>::empty()
    } else if parts.len() == 1 {
        parts[0]
    } else {
        join(parts.drop_last(), sep) + sep + parts.last()
    }
}

/// The character sequences of a list of strings.
pub open spec fn strings_view(v: Seq<String>) -> Seq<Seq<char>> {
    v.map_values(|s: String| s@)
}

/// The character sequences of a list of commands, each an argv.
pub open spec fn commands_view(v: Seq<Vec<String>>) -> Seq<Seq<Seq<char>>> {
    v.map_values(|a: Vec<String>| strings_view(a@))
}

/// Exec [`join`].
pub fn join_strings(parts: &Vec<String>, sep: &str) -> (r: String)
    ensures
        r@ == join(strings_view(parts@), sep@),
{
    let ghost pv = strings_view(parts@);
    let mut out = String::new();
    let mut i: usize = 0;
    while i < parts.len()
        invariant
            i <= parts@.len(),
            pv == strings_view(parts@),
            out@ == join(pv.take(i as int), sep@),
        decreases parts.len() - i,
    {
        proof {
            assert(pv.take(i + 1).drop_last() =~= pv.take(i as int));
            assert(pv.take(i + 1).last() == parts@[i as int]@);
        }
        if i > 0 {
            out.append(sep);
        } else {
            assert(pv.take(1) =~= seq![parts@[0]@]);
        }
        out.append(parts[i].as_str());
        i = i + 1;
    }
    assert(pv.take(parts@.len() as int) =~= pv);
    out
}

/// A `String` from a literal.
pub fn owned(s: &str) -> (r: String)
    ensures
        r@ == s@,
{
    String::from_str(s)
}

} // verus!
