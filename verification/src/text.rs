//! Character-level helpers on strings: conversion to and from characters,
//! removing double quotes, Unicode white space and trimming, substring
//! search, and the names of WiredTiger tables.
use vstd::prelude::*;

verus! {

/// Calls `String::push`, which appends one character.
#[verifier::external_body]
fn push_char(s: &mut String, c: char)
    ensures
        final(s)@ == old(s)@.push(c),
{
    s.push(c);
}

/// The characters of `s`, in order.
pub fn chars_of(s: &str) -> (r: Vec<char>)
    ensures
        r@ == s@,
{
    let mut r: Vec<char> = Vec::new();
    for c in it: s.chars()
        invariant
            r@ == it.seq().take(it.index() as int),
            it.seq() == s@,
    {
        r.push(c);
    }
    r
}

/// The string made of the characters `cs`.
pub fn string_of(cs: &[char]) -> (r: String)
    ensures
        r@ == cs@,
{
    let mut r = String::new();
    let mut i: usize = 0;
    while i < cs.len()
        invariant
            i <= cs.len(),
            r@ == cs@.take(i as int),
        decreases cs.len() - i,
    {
        push_char(&mut r, cs[i]);
        assert(cs@.take(i + 1) == cs@.take(i as int).push(cs@[i as int]));
        i = i + 1;
    }
    assert(cs@.take(cs.len() as int) == cs@);
    r
}

/// `s` with every double quote removed.
pub open spec fn without_quotes(s: Seq<char>) -> Seq<char>
    decreases s.len(),
{
    if s.len() == 0 {
        s
    } else if s.last() == '"' {
        without_quotes(s.drop_last())
    } else {
        without_quotes(s.drop_last()).push(s.last())
    }
}

/// Removes every double quote from `s`.
pub fn strip_quotes(s: &str) -> (r: String)
    ensures
        r@ == without_quotes(s@),
{
    let cs = chars_of(s);
    let mut out: Vec<char> = Vec::new();
    let mut i: usize = 0;
    while i < cs.len()
        invariant
            i <= cs.len(),
            cs@ == s@,
            out@ == without_quotes(cs@.take(i as int)),
        decreases cs.len() - i,
    {
        assert(cs@.take(i + 1).drop_last() == cs@.take(i as int));
        if cs[i] != '"' {
            out.push(cs[i]);
        }
        i = i + 1;
    }
    assert(cs@.take(cs.len() as int) == cs@);
    string_of(&out)
}

/// Removing quotes twice removes no more than removing them once.
pub proof fn without_quotes_idempotent(s: Seq<char>)
    ensures
        without_quotes(without_quotes(s)) == without_quotes(s),
        !without_quotes(s).contains('"'),
    decreases s.len(),
{
    if s.len() > 0 {
        without_quotes_idempotent(s.drop_last());
        let w = without_quotes(s.drop_last());
        if s.last() != '"' {
            assert(w.push(s.last()).drop_last() == w);
            assert(without_quotes(s) == w.push(s.last()));
            assert forall|c: char| without_quotes(s).contains(c) implies c != '"' by {
                let k = choose|k: int| 0 <= k < without_quotes(s).len() && without_quotes(s)[k] == c;
                if k < w.len() {
                    assert(w.contains(c));
                }
            }
        }
    }
}

/// A string is left as it is by removing quotes when it holds none.
pub proof fn without_quotes_of_unquoted(s: Seq<char>)
    requires
        !s.contains('"'),
    ensures
        without_quotes(s) == s,
    decreases s.len(),
{
    if s.len() > 0 {
        assert(!s.drop_last().contains('"')) by {
            if s.drop_last().contains('"') {
                let k = choose|k: int| 0 <= k < s.drop_last().len() && s.drop_last()[k] == '"';
                assert(s[k] == '"');
            }
        }
        without_quotes_of_unquoted(s.drop_last());
        assert(s.last() != '"') by {
            assert(s[s.len() - 1] == s.last());
        }
        assert(s.drop_last().push(s.last()) == s);
    }
}

/// Removing quotes from two strings one after the other removes them from
/// each.
pub proof fn without_quotes_concat(a: Seq<char>, b: Seq<char>)
    ensures
        without_quotes(a + b) == without_quotes(a) + without_quotes(b),
    decreases b.len(),
{
    if b.len() == 0 {
        assert(a + b == a);
        assert(without_quotes(a) + without_quotes(b) == without_quotes(a));
    } else {
        without_quotes_concat(a, b.drop_last());
        assert((a + b).drop_last() == a + b.drop_last());
        assert((a + b).last() == b.last());
        if b.last() != '"' {
            assert((without_quotes(a) + without_quotes(b.drop_last())).push(b.last())
                == without_quotes(a) + without_quotes(b.drop_last()).push(b.last()));
        }
    }
}

/// A string without quotes, put inside a pair of double quotes and then
/// stripped of quotes, is the string again.
pub proof fn without_quotes_of_quoted(s: Seq<char>)
    requires
        !s.contains('"'),
    ensures
        without_quotes(seq!['"'] + s + seq!['"']) == s,
{
    let q = seq!['"'];
    without_quotes_concat(q + s, q);
    without_quotes_concat(q, s);
    without_quotes_of_unquoted(s);
    assert(q.drop_last() =~= Seq::<char>::empty());
    assert(q.last() == '"');
    assert(without_quotes(q.drop_last()) =~= Seq::<char>::empty());
    assert(without_quotes(q) =~= Seq::<char>::empty());
    assert(Seq::<char>::empty() + s + Seq::<char>::empty() == s);
}

/// The characters with the Unicode `White_Space` property, which
/// `char::is_whitespace` tests for.
pub open spec fn is_white_space(c: char) -> bool {
    let u = c as u32;
    ||| 0x09 <= u <= 0x0d
    ||| u == 0x20
    ||| u == 0x85
    ||| u == 0xa0
    ||| u == 0x1680
    ||| 0x2000 <= u <= 0x200a
    ||| u == 0x2028
    ||| u == 0x2029
    ||| u == 0x202f
    ||| u == 0x205f
    ||| u == 0x3000
}

/// Whether `c` has the Unicode `White_Space` property.
pub fn white_space(c: char) -> (r: bool)
    ensures
        r == is_white_space(c),
{
    let u = c as u32;
    (0x09 <= u && u <= 0x0d) || u == 0x20 || u == 0x85 || u == 0xa0 || u == 0x1680 || (0x2000
        <= u && u <= 0x200a) || u == 0x2028 || u == 0x2029 || u == 0x202f || u == 0x205f || u
        == 0x3000
}

/// `s` without its trailing white space.
pub open spec fn trim_end(s: Seq<char>) -> Seq<char>
    decreases s.len(),
{
    if s.len() > 0 && is_white_space(s.last()) {
        trim_end(s.drop_last())
    } else {
        s
    }
}

/// `s` without its leading white space.
pub open spec fn trim_start(s: Seq<char>) -> Seq<char>
    decreases s.len(),
{
    if s.len() > 0 && is_white_space(s.first()) {
        trim_start(s.drop_first())
    } else {
        s
    }
}

/// `s` without leading and trailing white space, as `str::trim` leaves it.
pub open spec fn trim(s: Seq<char>) -> Seq<char> {
    trim_start(trim_end(s))
}

/// What `trim_end` leaves ends in no white space.
proof fn trim_end_ends_clean(s: Seq<char>)
    ensures
        trim_end(s).len() == 0 || !is_white_space(trim_end(s).last()),
        trim_end(s).len() <= s.len(),
        trim_end(s) == s.take(trim_end(s).len() as int),
        forall|j: int| trim_end(s).len() <= j < s.len() ==> is_white_space(#[trigger] s[j]),
    decreases s.len(),
{
    if s.len() > 0 && is_white_space(s.last()) {
        trim_end_ends_clean(s.drop_last());
        let t = trim_end(s.drop_last());
        assert(s.take(t.len() as int) == s.drop_last().take(t.len() as int));
        assert forall|j: int| t.len() <= j < s.len() implies is_white_space(#[trigger] s[j]) by {
            if j < s.len() - 1 {
                assert(s[j] == s.drop_last()[j]);
            }
        }
    } else {
        assert(s.take(s.len() as int) == s);
    }
}

/// What `trim_start` leaves starts with no white space, and is a suffix.
proof fn trim_start_starts_clean(s: Seq<char>)
    ensures
        trim_start(s).len() == 0 || !is_white_space(trim_start(s).first()),
        trim_start(s).len() <= s.len(),
        trim_start(s) == s.skip(s.len() - trim_start(s).len()),
        forall|j: int| 0 <= j < s.len() - trim_start(s).len() ==> is_white_space(#[trigger] s[j]),
    decreases s.len(),
{
    if s.len() > 0 && is_white_space(s.first()) {
        trim_start_starts_clean(s.drop_first());
        let t = trim_start(s.drop_first());
        assert(s.skip(s.len() - t.len()) == s.drop_first().skip(s.drop_first().len() - t.len()));
        assert forall|j: int| 0 <= j < s.len() - t.len() implies is_white_space(#[trigger] s[j]) by {
            if j > 0 {
                assert(s[j] == s.drop_first()[j - 1]);
            }
        }
    } else {
        assert(s.skip(0) == s);
    }
}

/// Trimming keeps a contiguous run of the string, from `start`, and drops
/// only white space before and after it; what it keeps neither starts nor
/// ends with white space.  A string of white space alone trims to nothing.
pub proof fn trim_drops_only_outer_white_space(s: Seq<char>)
    ensures
        ({
            let t = trim(s);
            let start = trim_end(s).len() - t.len();
            &&& 0 <= start
            &&& start + t.len() <= s.len()
            &&& t == s.subrange(start, start + t.len())
            &&& forall|j: int| 0 <= j < start ==> is_white_space(#[trigger] s[j])
            &&& forall|j: int| start + t.len() <= j < s.len() ==> is_white_space(#[trigger] s[j])
            &&& t.len() > 0 ==> !is_white_space(t.first()) && !is_white_space(t.last())
        }),
{
    let z = trim_end(s);
    trim_end_ends_clean(s);
    let t = trim_start(z);
    trim_start_starts_clean(z);
    let start = z.len() - t.len();
    assert(t == s.subrange(start, start + t.len()));
    assert forall|j: int| 0 <= j < start implies is_white_space(#[trigger] s[j]) by {
        assert(s[j] == z[j]);
    }
    if t.len() > 0 {
        assert(t.last() == z.last());
    }
}

/// Trimming a trimmed string leaves it as it is.
pub proof fn trim_idempotent(s: Seq<char>)
    ensures
        trim(trim(s)) == trim(s),
{
    let z = trim_end(s);
    trim_end_ends_clean(s);
    let y = trim_start(z);
    trim_start_starts_clean(z);
    // `y` is a suffix of `z`, so it ends where `z` ends.
    if y.len() > 0 {
        assert(y.last() == z.last());
    }
    assert(trim_end(y) == y);
    trim_start_starts_clean(y);
    assert(trim_start(y) == y);
}

/// A trimmed string holds only characters of the original.
pub proof fn trim_keeps_chars(s: Seq<char>, c: char)
    requires
        trim(s).contains(c),
    ensures
        s.contains(c),
{
    let z = trim_end(s);
    trim_end_ends_clean(s);
    trim_start_starts_clean(z);
    let y = trim(s);
    let k = choose|k: int| 0 <= k < y.len() && y[k] == c;
    let off = z.len() - y.len();
    assert(y[k] == z[off + k]);
    assert(z[off + k] == s.take(z.len() as int)[off + k]);
    assert(s[off + k] == c);
}

/// Removes leading and trailing white space.
pub fn trim_chars(s: &Vec<char>) -> (r: Vec<char>)
    ensures
        r@ == trim(s@),
{
    let mut j: usize = s.len();
    assert(s@.take(j as int) == s@);
    while j > 0 && white_space(s[j - 1])
        invariant
            j <= s.len(),
            trim_end(s@) == trim_end(s@.take(j as int)),
        decreases j,
    {
        assert(s@.take(j as int).drop_last() == s@.take(j - 1));
        j = j - 1;
    }
    let ghost t = s@.take(j as int);
    assert(trim_end(t) == t);
    let mut i: usize = 0;
    assert(t.skip(0) == t);
    while i < j && white_space(s[i])
        invariant
            i <= j <= s.len(),
            t == s@.take(j as int),
            trim_start(t) == trim_start(t.skip(i as int)),
        decreases j - i,
    {
        assert(t.skip(i as int).drop_first() == t.skip(i + 1));
        i = i + 1;
    }
    assert(trim_start(t.skip(i as int)) == t.skip(i as int));
    let mut r: Vec<char> = Vec::new();
    let mut k: usize = i;
    while k < j
        invariant
            i <= k <= j <= s.len(),
            r@ == s@.subrange(i as int, k as int),
        decreases j - k,
    {
        r.push(s[k]);
        k = k + 1;
    }
    assert(r@ == t.skip(i as int));
    r
}

/// Whether `p` occurs in `s` as a contiguous run of characters.
pub open spec fn has_substring(s: Seq<char>, p: Seq<char>) -> bool {
    exists|i: int| 0 <= i && i + p.len() <= s.len() && #[trigger] s.subrange(i, i + p.len()) == p
}

/// Whether `p` occurs in `s` starting at `i`.
fn occurs_at(s: &Vec<char>, p: &Vec<char>, i: usize) -> (r: bool)
    requires
        i + p.len() <= s.len(),
    ensures
        r == (s@.subrange(i as int, i + p.len()) == p@),
{
    let mut k: usize = 0;
    while k < p.len()
        invariant
            k <= p.len(),
            i + p.len() <= s.len(),
            s@.subrange(i as int, i + k) == p@.take(k as int),
        decreases p.len() - k,
    {
        if s[i + k] != p[k] {
            assert(s@.subrange(i as int, i + p.len())[k as int] != p@[k as int]);
            return false;
        }
        assert(s@.subrange(i as int, i + k + 1) == p@.take(k + 1));
        k = k + 1;
    }
    assert(p@.take(p.len() as int) == p@);
    true
}

/// Whether `pattern` occurs in `s`, as `str::contains` tells.
pub fn contains_str(s: &str, pattern: &str) -> (r: bool)
    ensures
        r == has_substring(s@, pattern@),
{
    let cs = chars_of(s);
    let ps = chars_of(pattern);
    if ps.len() > cs.len() {
        return false;
    }
    if ps.len() == 0 {
        assert(cs@.subrange(0, 0 + ps.len()) == ps@);
        return true;
    }
    let mut i: usize = 0;
    let last: usize = cs.len() - ps.len();
    while i <= last
        invariant
            cs@ == s@,
            ps@ == pattern@,
            ps.len() <= cs.len(),
            last == cs.len() - ps.len(),
            i <= last + 1,
            ps.len() > 0,
            forall|k: int| 0 <= k < i ==> #[trigger] cs@.subrange(k, k + ps.len()) != ps@,
        decreases last + 1 - i,
    {
        if occurs_at(&cs, &ps, i) {
            return true;
        }
        i = i + 1;
    }
    false
}

/// `a` followed by `b`.
pub fn concat_str(a: &str, b: &str) -> (r: String)
    ensures
        r@ == a@ + b@,
{
    let mut cs = chars_of(a);
    let bs = chars_of(b);
    let mut i: usize = 0;
    while i < bs.len()
        invariant
            i <= bs.len(),
            bs@ == b@,
            cs@ == a@ + b@.take(i as int),
        decreases bs.len() - i,
    {
        cs.push(bs[i]);
        assert(b@.take(i + 1) == b@.take(i as int).push(b@[i as int]));
        i = i + 1;
    }
    assert(b@.take(bs.len() as int) == b@);
    string_of(&cs)
}

/// The URI of a WiredTiger table: "table:" followed by its name.
pub open spec fn table_uri_of(name: Seq<char>) -> Seq<char> {
    "table:"@ + name
}

/// A table's URI is the six characters "table:" followed by the whole
/// name, whatever its length.
pub proof fn table_uri_holds_whole_name(name: Seq<char>)
    ensures
        table_uri_of(name) == "table:"@ + name,
        table_uri_of(name).len() == name.len() + 6,
        table_uri_of(name).take(6) == "table:"@,
        table_uri_of(name).skip(6) == name,
        forall|j: int| 0 <= j < name.len() ==> #[trigger] table_uri_of(name)[j + 6] == name[j],
{
    reveal_strlit("table:");
    let p = "table:"@;
    assert(p.len() == 6);
    assert((p + name).take(6) =~= p);
    assert((p + name).skip(6) =~= name);
}

/// The URI of the WiredTiger table `name`.
pub fn table_uri(name: &str) -> (r: String)
    ensures
        r@ == table_uri_of(name@),
        r@ == "table:"@ + name@,
        r@.len() == name@.len() + 6,
        r@.skip(6) == name@,
{
    proof {
        table_uri_holds_whole_name(name@);
    }
    concat_str("table:", name)
}

/// Whether the table `name` holds an index, which WiredTiger tables of
/// MongoDB tell by "index-" in their name; such a table is keyed by byte
/// strings, a collection's table by 64-bit record ids.
pub fn is_index_table(name: &str) -> (r: bool)
    ensures
        r == has_substring(name@, "index-"@),
{
    contains_str(name, "index-")
}

} // verus!
