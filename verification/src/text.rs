//! Character-level text utilities: equality and lexicographic order on
//! strings, conversion between `str` and `Vec<char>`, sorting and
//! deduplication of string lists.
//!
//! Strings are modelled as their sequences of characters. Lexicographic
//! order over characters coincides with `String`'s own byte-wise order,
//! since UTF-8 preserves code-point order.

use vstd::prelude::*;
use vstd::string::StrSliceExecFns;
use vstd::string::StringExecFns;

verus! {

/// Appends one character. Relies on std's `String::push`.
#[verifier::external_body]
pub fn push_char(s: &mut String, c: char)
    ensures
        final(s)@ == old(s)@.push(c),
{
    s.push(c);
}

/// The characters of `s` as a vector.
pub fn to_chars(s: &str) -> (r: Vec<char>)
    ensures
        r@ == s@,
{
    let n = s.unicode_len();
    let mut r: Vec<char> = Vec::new();
    let mut i: usize = 0;
    while i < n
        invariant
            n == s@.len(),
            i <= n,
            r@ == s@.take(i as int),
        decreases n - i,
    {
        r.push(s.get_char(i));
        proof {
            assert(s@.take(i + 1int) == s@.take(i as int).push(s@[i as int]));
        }
        i = i + 1;
    }
    proof {
        assert(s@.take(n as int) == s@);
    }
    r
}

/// A `String` holding exactly the characters of `v`.
pub fn string_from_chars(v: &Vec<char>) -> (r: String)
    ensures
        r@ == v@,
{
    let mut r = String::new();
    let mut i: usize = 0;
    while i < v.len()
        invariant
            i <= v@.len(),
            r@ == v@.take(i as int),
        decreases v@.len() - i,
    {
        push_char(&mut r, v[i]);
        proof {
            assert(v@.take(i + 1int) == v@.take(i as int).push(v@[i as int]));
        }
        i = i + 1;
    }
    proof {
        assert(v@.take(v@.len() as int) == v@);
    }
    r
}

/// Character-for-character string equality.
pub fn str_eq(a: &str, b: &str) -> (r: bool)
    ensures
        r == (a@ == b@),
{
    let na = a.unicode_len();
    let nb = b.unicode_len();
    if na != nb {
        proof {
            assert(a@ != b@) by {
                assert(a@.len() != b@.len());
            }
        }
        return false;
    }
    let mut i: usize = 0;
    while i < na
        invariant
            na == a@.len(),
            na == b@.len(),
            i <= na,
            forall|j: int| 0 <= j < i ==> a@[j] == b@[j],
        decreases na - i,
    {
        if a.get_char(i) != b.get_char(i) {
            return false;
        }
        i = i + 1;
    }
    proof {
        assert(a@ =~= b@);
    }
    true
}

/// Equality between a `String` and a literal.
pub fn string_is(a: &String, b: &str) -> (r: bool)
    ensures
        r == (a@ == b@),
{
    str_eq(a.as_str(), b)
}

/// Strict lexicographic order on character sequences: the order `String`'s
/// `Ord` gives, since UTF-8 ordering follows code points.
pub open spec fn spec_lex_lt(a: Seq<char>, b: Seq<char>) -> bool
    decreases a.len(),
{
    if b.len() == 0 {
        false
    } else if a.len() == 0 {
        true
    } else if (a[0] as u32) < (b[0] as u32) {
        true
    } else if (a[0] as u32) > (b[0] as u32) {
        false
    } else {
        spec_lex_lt(a.skip(1), b.skip(1))
    }
}

/// Strict lexicographic comparison of two strings.
pub fn str_lt(a: &str, b: &str) -> (r: bool)
    ensures
        r == spec_lex_lt(a@, b@),
{
    let na = a.unicode_len();
    let nb = b.unicode_len();
    let mut i: usize = 0;
    proof {
        assert(a@.skip(0int) == a@);
        assert(b@.skip(0int) == b@);
    }
    loop
        invariant
            na == a@.len(),
            nb == b@.len(),
            i <= na,
            i <= nb,
            forall|j: int| 0 <= j < i ==> a@[j] == b@[j],
            spec_lex_lt(a@, b@) == spec_lex_lt(a@.skip(i as int), b@.skip(i as int)),
        decreases na - i,
    {
        proof {
            lemma_lex_skip(a@, b@, i as int);
        }
        if i >= nb {
            return false;
        }
        if i >= na {
            return true;
        }
        let ca = a.get_char(i);
        let cb = b.get_char(i);
        if (ca as u32) < (cb as u32) {
            return true;
        }
        if (ca as u32) > (cb as u32) {
            return false;
        }
        i = i + 1;
        proof {
            lemma_lex_skip(a@, b@, i as int);
        }
    }
}

/// Unfolds one step of `spec_lex_lt` on the suffixes at `i`.
proof fn lemma_lex_skip(a: Seq<char>, b: Seq<char>, i: int)
    requires
        0 <= i,
        i <= a.len(),
        i <= b.len(),
        forall|j: int| 0 <= j < i ==> a[j] == b[j],
    ensures
        spec_lex_lt(a, b) == spec_lex_lt(a.skip(i), b.skip(i)),
    decreases i,
{
    if i > 0 {
        assert(a.skip(1).skip(i - 1) == a.skip(i));
        assert(b.skip(1).skip(i - 1) == b.skip(i));
        if a.len() > 0 && b.len() > 0 {
            assert(forall|j: int| 0 <= j < i - 1 ==> a.skip(1)[j] == b.skip(1)[j]);
            lemma_lex_skip(a.skip(1), b.skip(1), i - 1);
            if a == b {
            }
        }
    } else {
        assert(a.skip(0) == a);
        assert(b.skip(0) == b);
    }
}

/// Where `x` lands when inserted into `s`: before the first entry that is
/// strictly greater, after everything else. On a sorted sequence this is a
/// stable sorted insertion.
pub open spec fn spec_sorted_insert(s: Seq<Seq<char>>, x: Seq<char>) -> Seq<Seq<char>>
    decreases s.len(),
{
    if s.len() == 0 {
        seq![x]
    } else if spec_lex_lt(x, s[0]) {
        seq![x] + s
    } else {
        seq![s[0]] + spec_sorted_insert(s.skip(1), x)
    }
}

/// Insertion sort of a character-sequence list, front to back.
pub open spec fn spec_sort_lex(s: Seq<Seq<char>>) -> Seq<Seq<char>>
    decreases s.len(),
{
    if s.len() == 0 {
        Seq::empty()
    } else {
        spec_sorted_insert(spec_sort_lex(s.drop_last()), s.last())
    }
}

/// Ascending: no later entry is lexicographically below an earlier one.
pub open spec fn spec_is_sorted_lex(s: Seq<Seq<char>>) -> bool {
    forall|i: int, j: int|
        0 <= i < j < s.len() ==> !spec_lex_lt(#[trigger] s[j], #[trigger] s[i])
}

/// Every entry of an insertion is the inserted one or one of the old
/// ones.
proof fn lemma_sorted_insert_membership(s: Seq<Seq<char>>, x: Seq<char>, k: int)
    requires
        0 <= k < spec_sorted_insert(s, x).len(),
    ensures
        spec_sorted_insert(s, x)[k] == x || exists|j: int|
            0 <= j < s.len() && s[j] == spec_sorted_insert(s, x)[k],
    decreases s.len(),
{
    let out = spec_sorted_insert(s, x);
    if s.len() == 0 {
        assert(out[k] == x);
    } else if spec_lex_lt(x, s[0]) {
        if k == 0 {
            assert(out[0] == x);
        } else {
            assert(out[k] == s[k - 1]);
        }
    } else {
        if k == 0 {
            assert(out[0] == s[0]);
        } else {
            lemma_sorted_insert_membership(s.skip(1), x, k - 1);
            let inner = spec_sorted_insert(s.skip(1), x);
            assert(out[k] == inner[k - 1]);
            if inner[k - 1] != x {
                let j = choose|j: int| 0 <= j < s.skip(1).len() && s.skip(1)[j] == inner[k - 1];
                assert(s[j + 1] == inner[k - 1]);
            }
        }
    }
}

/// A stable insertion into a sorted list stays sorted.
proof fn lemma_sorted_insert_keeps_order(s: Seq<Seq<char>>, x: Seq<char>)
    requires
        spec_is_sorted_lex(s),
    ensures
        spec_is_sorted_lex(spec_sorted_insert(s, x)),
    decreases s.len(),
{
    let out = spec_sorted_insert(s, x);
    if s.len() == 0 {
    } else if spec_lex_lt(x, s[0]) {
        assert forall|i: int, j: int| 0 <= i < j < out.len() implies !spec_lex_lt(
            #[trigger] out[j],
            #[trigger] out[i],
        ) by {
            if i == 0 {
                assert(out[0] == x);
                assert(out[j] == s[j - 1]);
                if spec_lex_lt(s[j - 1], x) {
                    lemma_lex_lt_trans(s[j - 1], x, s[0]);
                    if j - 1 == 0 {
                        lemma_lex_lt_irrefl(s[0]);
                    }
                }
            } else {
                assert(out[i] == s[i - 1]);
                assert(out[j] == s[j - 1]);
            }
        }
    } else {
        let inner = spec_sorted_insert(s.skip(1), x);
        assert(spec_is_sorted_lex(s.skip(1))) by {
            assert(forall|i: int, j: int|
                0 <= i < j < s.skip(1).len() ==> !spec_lex_lt(
                    #[trigger] s.skip(1)[j],
                    #[trigger] s.skip(1)[i],
                ));
        }
        lemma_sorted_insert_keeps_order(s.skip(1), x);
        assert forall|i: int, j: int| 0 <= i < j < out.len() implies !spec_lex_lt(
            #[trigger] out[j],
            #[trigger] out[i],
        ) by {
            if i == 0 {
                assert(out[0] == s[0]);
                assert(out[j] == inner[j - 1]);
                lemma_sorted_insert_membership(s.skip(1), x, j - 1);
                if inner[j - 1] == x {
                } else {
                    let t = choose|t: int| 0 <= t < s.skip(1).len() && s.skip(1)[t] == inner[j
                        - 1];
                    assert(s[t + 1] == inner[j - 1]);
                    assert(!spec_lex_lt(s[t + 1], s[0]));
                }
            } else {
                assert(out[i] == inner[i - 1]);
                assert(out[j] == inner[j - 1]);
            }
        }
    }
}

/// The string sort really sorts: its output is ascending.
pub proof fn lemma_sort_lex_sorted(s: Seq<Seq<char>>)
    ensures
        spec_is_sorted_lex(spec_sort_lex(s)),
    decreases s.len(),
{
    if s.len() > 0 {
        lemma_sort_lex_sorted(s.drop_last());
        lemma_sorted_insert_keeps_order(spec_sort_lex(s.drop_last()), s.last());
    }
}

/// The strict lexicographic order never relates a sequence to itself.
pub proof fn lemma_lex_lt_irrefl(a: Seq<char>)
    ensures
        !spec_lex_lt(a, a),
    decreases a.len(),
{
    if a.len() > 0 {
        lemma_lex_lt_irrefl(a.skip(1));
    }
}

/// The strict lexicographic order is transitive.
pub proof fn lemma_lex_lt_trans(a: Seq<char>, b: Seq<char>, c: Seq<char>)
    requires
        spec_lex_lt(a, b),
        spec_lex_lt(b, c),
    ensures
        spec_lex_lt(a, c),
    decreases a.len(),
{
    if b.len() == 0 {
    } else if c.len() == 0 {
    } else if a.len() == 0 {
    } else {
        let ha = a[0] as u32;
        let hb = b[0] as u32;
        let hc = c[0] as u32;
        if ha < hb {
        } else {
            assert(ha == hb);
            if hb < hc {
            } else {
                assert(hb == hc);
                lemma_lex_lt_trans(a.skip(1), b.skip(1), c.skip(1));
            }
        }
    }
}

/// `spec_sorted_insert` keeps length and inserts at the first position whose
/// entry is strictly greater than `x`.
proof fn lemma_sorted_insert_shape(s: Seq<Seq<char>>, x: Seq<char>, j: int)
    requires
        0 <= j <= s.len(),
        forall|k: int| 0 <= k < j ==> !spec_lex_lt(x, #[trigger] s[k]),
        j < s.len() ==> spec_lex_lt(x, s[j]),
    ensures
        spec_sorted_insert(s, x) == s.take(j) + seq![x] + s.skip(j),
    decreases s.len(),
{
    if s.len() == 0 {
        assert(spec_sorted_insert(s, x) =~= s.take(j) + seq![x] + s.skip(j));
    } else if spec_lex_lt(x, s[0]) {
        assert(j == 0);
        assert(spec_sorted_insert(s, x) =~= s.take(0) + seq![x] + s.skip(0));
    } else {
        assert(j >= 1);
        assert(forall|k: int| 0 <= k < j - 1 ==> !spec_lex_lt(x, #[trigger] s.skip(1)[k]));
        lemma_sorted_insert_shape(s.skip(1), x, j - 1);
        assert(s.skip(1).take(j - 1) == s.take(j).skip(1));
        assert(s.skip(1).skip(j - 1) == s.skip(j));
        assert(seq![s[0]] + (s.skip(1).take(j - 1) + seq![x] + s.skip(1).skip(j - 1)) =~= s.take(
            j,
        ) + seq![x] + s.skip(j));
    }
}

/// First position in `v`'s prefix of length `i` whose entry is strictly
/// greater than `v[i]`, or `i` when none is.
fn find_insert_pos(v: &Vec<String>, i: usize) -> (j: usize)
    requires
        i < v@.len(),
    ensures
        j <= i,
        forall|k: int|
            0 <= k < j ==> !spec_lex_lt(v.deep_view()[i as int], #[trigger] v.deep_view()[k]),
        j < i ==> spec_lex_lt(v.deep_view()[i as int], v.deep_view()[j as int]),
{
    let mut j: usize = 0;
    while j < i
        invariant
            0 <= j <= i < v@.len(),
            forall|k: int|
                0 <= k < j ==> !spec_lex_lt(v.deep_view()[i as int], #[trigger] v.deep_view()[k]),
        decreases i - j,
    {
        if str_lt(v[i].as_str(), v[j].as_str()) {
            return j;
        }
        j = j + 1;
    }
    j
}

/// Sorts a string list into lexicographic order, the way `sort` on a
/// `Vec<String>` would.
pub fn sort_strings(v: &mut Vec<String>)
    ensures
        final(v).deep_view() == spec_sort_lex(old(v).deep_view()),
{
    let ghost orig = old(v).deep_view();
    let mut i: usize = 1;
    if v.len() == 0 {
        proof {
            assert(orig.take(0int) =~= Seq::<Seq<char>>::empty());
            assert(v.deep_view() =~= spec_sort_lex(orig.take(0int)));
        }
        return;
    }
    proof {
        assert(orig.take(1int) =~= seq![orig[0]]);
        assert(orig.take(1int).drop_last() =~= Seq::<Seq<char>>::empty());
        assert(orig.take(1int).last() == orig[0]);
        assert(spec_sort_lex(Seq::<Seq<char>>::empty()) == Seq::<Seq<char>>::empty());
        assert(spec_sort_lex(orig.take(1int)) == spec_sorted_insert(
            Seq::<Seq<char>>::empty(),
            orig[0],
        ));
        assert(spec_sorted_insert(Seq::<Seq<char>>::empty(), orig[0]) == seq![orig[0]]);
        assert(v.deep_view().take(1int) =~= seq![orig[0]]);
        assert(v.deep_view().skip(1int) =~= orig.skip(1int));
    }
    while i < v.len()
        invariant
            1 <= i <= v@.len(),
            v@.len() == orig.len(),
            v.deep_view().take(i as int) == spec_sort_lex(orig.take(i as int)),
            v.deep_view().skip(i as int) == orig.skip(i as int),
        decreases v@.len() - i,
    {
        let ghost pre = v.deep_view();
        let ghost sorted_prefix = pre.take(i as int);
        let j = find_insert_pos(v, i);
        proof {
            assert(forall|k: int|
                0 <= k < j ==> !spec_lex_lt(pre[i as int], #[trigger] sorted_prefix[k]));
            if j < i {
                assert(spec_lex_lt(pre[i as int], sorted_prefix[j as int]));
            }
            lemma_sorted_insert_shape(sorted_prefix, pre[i as int], j as int);
        }
        let x = v.remove(i);
        v.insert(j, x);
        proof {
            let post = v.deep_view();
            let removed = pre.remove(i as int);
            assert(post =~= removed.insert(j as int, pre[i as int]));
            assert(post.take(i + 1int) =~= sorted_prefix.take(j as int) + seq![pre[i as int]]
                + sorted_prefix.skip(j as int));
            assert(post.take(i + 1int) == spec_sorted_insert(sorted_prefix, pre[i as int]));
            assert(orig.take(i + 1int).drop_last() == orig.take(i as int));
            assert(orig.take(i + 1int).last() == orig[i as int]);
            assert(pre[i as int] == orig[i as int]) by {
                assert(pre.skip(i as int)[0] == orig.skip(i as int)[0]);
            }
            assert(post.skip(i + 1int) =~= orig.skip(i + 1int)) by {
                assert(forall|k: int|
                    0 <= k < post.len() - i - 1 ==> #[trigger] post.skip(i + 1int)[k] == pre.skip(
                        i as int,
                    )[k + 1]);
                assert(forall|k: int|
                    0 <= k < orig.len() - i - 1 ==> #[trigger] orig.skip(i + 1int)[k] == orig.skip(
                        i as int,
                    )[k + 1]);
            }
        }
        i = i + 1;
    }
    proof {
        assert(v.deep_view().take(v@.len() as int) =~= v.deep_view());
        assert(orig.take(orig.len() as int) =~= orig);
    }
}

/// ASCII whitespace; the trims here strip exactly these characters.
pub open spec fn spec_is_ws(c: char) -> bool {
    c == ' ' || c == '\t' || c == '\n' || c == '\r' || c == '\u{b}' || c == '\u{c}'
}

/// Whether one character is ASCII whitespace.
pub fn is_ws(c: char) -> (r: bool)
    ensures
        r == spec_is_ws(c),
{
    c == ' ' || c == '\t' || c == '\n' || c == '\r' || c == '\u{b}' || c == '\u{c}'
}

/// Which characters a trim strips: ASCII whitespace, or one quote
/// character.
pub enum TrimClass {
    Whitespace,
    Quote(char),
}

pub open spec fn spec_trims_off(tc: TrimClass, c: char) -> bool {
    match tc {
        TrimClass::Whitespace => spec_is_ws(c),
        TrimClass::Quote(q) => c == q,
    }
}

/// `s` with leading characters of the class stripped.
pub open spec fn spec_trim_front(s: Seq<char>, tc: TrimClass) -> Seq<char>
    decreases s.len(),
{
    if s.len() > 0 && spec_trims_off(tc, s[0]) {
        spec_trim_front(s.skip(1), tc)
    } else {
        s
    }
}

pub open spec fn spec_trim_back(s: Seq<char>, tc: TrimClass) -> Seq<char>
    decreases s.len(),
{
    if s.len() > 0 && spec_trims_off(tc, s.last()) {
        spec_trim_back(s.drop_last(), tc)
    } else {
        s
    }
}

/// Both ends stripped.
pub open spec fn spec_trim(s: Seq<char>, tc: TrimClass) -> Seq<char> {
    spec_trim_back(spec_trim_front(s, tc), tc)
}

/// ASCII-whitespace trim, as applied to table cells and header lines.
pub open spec fn spec_trim_ws(s: Seq<char>) -> Seq<char> {
    spec_trim(s, TrimClass::Whitespace)
}

proof fn lemma_trim_front_at(s: Seq<char>, tc: TrimClass, a: int)
    requires
        0 <= a <= s.len(),
        forall|j: int| 0 <= j < a ==> spec_trims_off(tc, #[trigger] s[j]),
        a < s.len() ==> !spec_trims_off(tc, s[a]),
    ensures
        spec_trim_front(s, tc) == s.skip(a),
    decreases a,
{
    if a == 0 {
        assert(s.skip(0) == s);
    } else {
        assert(spec_trims_off(tc, s[0]));
        assert(forall|j: int| 0 <= j < a - 1 ==> spec_trims_off(tc, #[trigger] s.skip(1)[j]));
        lemma_trim_front_at(s.skip(1), tc, a - 1);
        assert(s.skip(1).skip(a - 1) == s.skip(a));
    }
}

proof fn lemma_trim_back_at(s: Seq<char>, tc: TrimClass, b: int)
    requires
        0 <= b <= s.len(),
        forall|j: int| b <= j < s.len() ==> spec_trims_off(tc, #[trigger] s[j]),
        b > 0 ==> !spec_trims_off(tc, s[b - 1]),
    ensures
        spec_trim_back(s, tc) == s.take(b),
    decreases s.len() - b,
{
    if b == s.len() {
        assert(s.take(b) == s);
    } else {
        assert(spec_trims_off(tc, s.last()));
        assert(forall|j: int|
            b <= j < s.len() - 1 ==> spec_trims_off(tc, #[trigger] s.drop_last()[j]));
        lemma_trim_back_at(s.drop_last(), tc, b);
        assert(s.drop_last().take(b) == s.take(b));
    }
}

/// Whether `c` is stripped under the class that `use_ws`/`quote` select.
fn trims_off(c: char, use_ws: bool, quote: char) -> (r: bool)
    ensures
        use_ws ==> r == spec_trims_off(TrimClass::Whitespace, c),
        !use_ws ==> r == spec_trims_off(TrimClass::Quote(quote), c),
{
    if use_ws {
        is_ws(c)
    } else {
        c == quote
    }
}

/// Strips the selected characters from both ends.
fn trim_by(v: &Vec<char>, use_ws: bool, quote: char) -> (r: Vec<char>)
    ensures
        use_ws ==> r@ == spec_trim_ws(v@),
        !use_ws ==> r@ == spec_trim(v@, TrimClass::Quote(quote)),
{
    let ghost tc: TrimClass = if use_ws {
        TrimClass::Whitespace
    } else {
        TrimClass::Quote(quote)
    };
    let mut a: usize = 0;
    while a < v.len() && trims_off(v[a], use_ws, quote)
        invariant
            a <= v@.len(),
            tc == (if use_ws {
                TrimClass::Whitespace
            } else {
                TrimClass::Quote(quote)
            }),
            forall|j: int| 0 <= j < a ==> spec_trims_off(tc, #[trigger] v@[j]),
        decreases v@.len() - a,
    {
        a = a + 1;
    }
    let mut b: usize = v.len();
    while b > a && trims_off(v[b - 1], use_ws, quote)
        invariant
            a <= b <= v@.len(),
            tc == (if use_ws {
                TrimClass::Whitespace
            } else {
                TrimClass::Quote(quote)
            }),
            forall|j: int| 0 <= j < a ==> spec_trims_off(tc, #[trigger] v@[j]),
            forall|j: int| b <= j < v@.len() ==> spec_trims_off(tc, #[trigger] v@[j]),
            a < v@.len() ==> !spec_trims_off(tc, v@[a as int]) || b < v@.len() || a < b,
        decreases b,
    {
        b = b - 1;
    }
    proof {
        lemma_trim_front_at(v@, tc, a as int);
        let mid = v@.skip(a as int);
        assert(forall|j: int|
            b - a <= j < mid.len() ==> spec_trims_off(tc, #[trigger] mid[j]));
        if b > a {
            assert(!spec_trims_off(tc, mid[b - a - 1]));
        }
        lemma_trim_back_at(mid, tc, b - a);
    }
    let mut r: Vec<char> = Vec::new();
    let mut i: usize = a;
    while i < b
        invariant
            a <= i <= b <= v@.len(),
            r@ == v@.subrange(a as int, i as int),
        decreases b - i,
    {
        r.push(v[i]);
        proof {
            assert(v@.subrange(a as int, i + 1int) == v@.subrange(a as int, i as int).push(
                v@[i as int],
            ));
        }
        i = i + 1;
    }
    proof {
        assert(v@.subrange(a as int, b as int) =~= v@.skip(a as int).take(b - a));
    }
    r
}

/// A fully scanned trailing run fixes the dot-trimmed prefix.
pub proof fn lemma_trim_back_dots(s: Seq<char>, b: int)
    requires
        0 <= b <= s.len(),
        forall|j: int| b <= j < s.len() ==> s[j] == '.',
        b > 0 ==> s[b - 1] != '.',
    ensures
        spec_trim_back(s, TrimClass::Quote('.')) == s.take(b),
{
    assert(forall|j: int| b <= j < s.len() ==> spec_trims_off(TrimClass::Quote('.'), s[j]));
    if b > 0 {
        assert(!spec_trims_off(TrimClass::Quote('.'), s[b - 1]));
    }
    lemma_trim_back_at(s, TrimClass::Quote('.'), b);
}

/// ASCII-whitespace trim of a character vector.
pub fn trim_ws(v: &Vec<char>) -> (r: Vec<char>)
    ensures
        r@ == spec_trim_ws(v@),
{
    trim_by(v, true, ' ')
}

/// Trim of one repeated character from both ends, the way a
/// backquote-stripping trim does.
pub fn trim_char(v: &Vec<char>, quote: char) -> (r: Vec<char>)
    ensures
        r@ == spec_trim(v@, TrimClass::Quote(quote)),
{
    trim_by(v, false, quote)
}

/// Index of the first occurrence of `c` in `s`, or -1.
pub open spec fn spec_find_char(s: Seq<char>, c: char) -> int
    decreases s.len(),
{
    if s.len() == 0 {
        -1
    } else if s[0] == c {
        0
    } else {
        let r = spec_find_char(s.skip(1), c);
        if r < 0 {
            -1
        } else {
            r + 1
        }
    }
}

proof fn lemma_find_char_at(s: Seq<char>, c: char, i: int)
    requires
        0 <= i <= s.len(),
        forall|j: int| 0 <= j < i ==> s[j] != c,
        i < s.len() ==> s[i] == c,
    ensures
        i < s.len() ==> spec_find_char(s, c) == i,
        i == s.len() ==> spec_find_char(s, c) == -1,
    decreases i + 1,
{
    if s.len() == 0 {
    } else if i == 0 {
    } else {
        assert(forall|j: int| 0 <= j < i - 1 ==> #[trigger] s.skip(1)[j] != c);
        lemma_find_char_at(s.skip(1), c, i - 1);
    }
}

/// First index of `c` in `v` at or after `from`, if any.
pub fn find_char_from(v: &Vec<char>, c: char, from: usize) -> (r: Option<usize>)
    requires
        from <= v@.len(),
    ensures
        (match r {
            Some(i) => from <= i < v@.len() && spec_find_char(v@.skip(from as int), c) == i - from,
            None => spec_find_char(v@.skip(from as int), c) == -1,
        }),
{
    let mut i: usize = from;
    while i < v.len()
        invariant
            from <= i <= v@.len(),
            forall|j: int| from <= j < i ==> v@[j] != c,
        decreases v@.len() - i,
    {
        if v[i] == c {
            proof {
                assert(forall|j: int|
                    0 <= j < i - from ==> #[trigger] v@.skip(from as int)[j] != c);
                assert(v@.skip(from as int)[i - from] == c);
                lemma_find_char_at(v@.skip(from as int), c, i - from);
            }
            return Some(i);
        }
        i = i + 1;
    }
    proof {
        assert(forall|j: int| 0 <= j < v@.len() - from ==> #[trigger] v@.skip(from as int)[j] != c);
        lemma_find_char_at(v@.skip(from as int), c, v@.len() - from);
    }
    None
}

/// The segments of `s` between occurrences of `sep`, the way `split` cuts
/// a string: an empty string gives one empty segment, a trailing
/// separator a trailing empty segment.
pub open spec fn spec_split_char(s: Seq<char>, sep: char) -> Seq<Seq<char>>
    decreases s.len(),
    via spec_split_char_decreases
{
    let i = spec_find_char(s, sep);
    if i < 0 {
        seq![s]
    } else {
        seq![s.take(i)] + spec_split_char(s.skip(i + 1), sep)
    }
}

#[via_fn]
proof fn spec_split_char_decreases(s: Seq<char>, sep: char) {
    lemma_find_char_nonneg_bound(s, sep);
}

proof fn lemma_find_char_nonneg_bound(s: Seq<char>, c: char)
    ensures
        spec_find_char(s, c) >= 0 ==> spec_find_char(s, c) < s.len(),
        -1 <= spec_find_char(s, c),
    decreases s.len(),
{
    if s.len() > 0 && s[0] != c {
        lemma_find_char_nonneg_bound(s.skip(1), c);
    }
}

/// A found index carries the character looked for.
pub proof fn lemma_find_char_hits(s: Seq<char>, c: char)
    ensures
        spec_find_char(s, c) >= 0 ==> 0 <= spec_find_char(s, c) < s.len() && s[spec_find_char(
            s,
            c,
        )] == c,
    decreases s.len(),
{
    if s.len() > 0 && s[0] != c {
        lemma_find_char_hits(s.skip(1), c);
        if spec_find_char(s.skip(1), c) >= 0 {
            assert(s.skip(1)[spec_find_char(s.skip(1), c)] == c);
        }
    }
}

/// Splits on one separator character.
pub fn split_char(v: &Vec<char>, sep: char) -> (r: Vec<Vec<char>>)
    ensures
        r.deep_view() == spec_split_char(v@, sep),
{
    let mut r: Vec<Vec<char>> = Vec::new();
    let mut pos: usize = 0;
    let vlen = v.len();
    proof {
        assert(v@.skip(0int) == v@);
        assert(r.deep_view() =~= Seq::<Seq<char>>::empty());
        assert(Seq::<Seq<char>>::empty() + spec_split_char(v@, sep) =~= spec_split_char(v@, sep));
    }
    loop
        invariant
            vlen == v@.len(),
            pos <= v@.len(),
            spec_split_char(v@, sep) == r.deep_view() + spec_split_char(v@.skip(pos as int), sep),
        decreases v@.len() - pos + 1,
    {
        match find_char_from(v, sep, pos) {
            Some(q) => {
                let mut seg: Vec<char> = Vec::new();
                let mut i: usize = pos;
                while i < q
                    invariant
                        pos <= i <= q <= v@.len(),
                        seg@ == v@.subrange(pos as int, i as int),
                    decreases q - i,
                {
                    seg.push(v[i]);
                    proof {
                        assert(v@.subrange(pos as int, i + 1int) == v@.subrange(
                            pos as int,
                            i as int,
                        ).push(v@[i as int]));
                    }
                    i = i + 1;
                }
                let ghost old_dv = r.deep_view();
                let ghost segv = seg@;
                proof {
                    let rest = v@.skip(pos as int);
                    lemma_find_char_nonneg_bound(rest, sep);
                    assert(rest.take(q - pos) =~= v@.subrange(pos as int, q as int));
                    assert(rest.skip(q - pos + 1) =~= v@.skip(q + 1int));
                    assert(spec_split_char(rest, sep) == seq![rest.take(q - pos)]
                        + spec_split_char(rest.skip(q - pos + 1), sep));
                    assert(old_dv.push(segv) + spec_split_char(v@.skip(q + 1int), sep)
                        =~= old_dv + spec_split_char(rest, sep));
                }
                r.push(seg);
                proof {
                    assert(r.deep_view() =~~= old_dv.push(segv));
                }
                pos = q + 1;
            },
            None => {
                let mut seg: Vec<char> = Vec::new();
                let mut i: usize = pos;
                while i < v.len()
                    invariant
                        pos <= i <= v@.len(),
                        seg@ == v@.subrange(pos as int, i as int),
                    decreases v@.len() - i,
                {
                    seg.push(v[i]);
                    proof {
                        assert(v@.subrange(pos as int, i + 1int) == v@.subrange(
                            pos as int,
                            i as int,
                        ).push(v@[i as int]));
                    }
                    i = i + 1;
                }
                let ghost old_dv = r.deep_view();
                let ghost segv = seg@;
                proof {
                    let rest = v@.skip(pos as int);
                    assert(segv =~= rest);
                    assert(spec_split_char(rest, sep) == seq![rest]);
                    assert(old_dv.push(segv) =~= old_dv + spec_split_char(rest, sep));
                }
                r.push(seg);
                proof {
                    assert(r.deep_view() =~~= old_dv.push(segv));
                }
                return r;
            },
        }
    }
}

/// ASCII lowercase of one character; other characters pass through.
pub open spec fn spec_lower_char(c: char) -> char {
    if 'A' <= c && c <= 'Z' {
        ((c as u8) + 32) as char
    } else {
        c
    }
}

pub open spec fn spec_to_lower(s: Seq<char>) -> Seq<char> {
    s.map_values(|c: char| spec_lower_char(c))
}

/// ASCII lowercase of a character vector.
pub fn to_lower(v: &Vec<char>) -> (r: Vec<char>)
    ensures
        r@ == spec_to_lower(v@),
{
    let mut r: Vec<char> = Vec::new();
    let mut i: usize = 0;
    while i < v.len()
        invariant
            i <= v@.len(),
            r@ == spec_to_lower(v@.take(i as int)),
        decreases v@.len() - i,
    {
        let c = v[i];
        let lower = if 'A' <= c && c <= 'Z' {
            ((c as u8) + 32) as char
        } else {
            c
        };
        r.push(lower);
        proof {
            assert(spec_to_lower(v@.take(i + 1int)) =~= spec_to_lower(v@.take(i as int)).push(
                spec_lower_char(v@[i as int]),
            ));
        }
        i = i + 1;
    }
    proof {
        assert(v@.take(v@.len() as int) == v@);
    }
    r
}

/// Whether `s` begins with `p`.
pub open spec fn spec_starts_with(s: Seq<char>, p: Seq<char>) -> bool {
    s.len() >= p.len() && s.take(p.len() as int) == p
}

/// Whether the characters start with the literal.
pub fn starts_with_lit(v: &Vec<char>, p: &str) -> (r: bool)
    ensures
        r == spec_starts_with(v@, p@),
{
    let n = p.unicode_len();
    if v.len() < n {
        return false;
    }
    let mut i: usize = 0;
    while i < n
        invariant
            n == p@.len(),
            n <= v@.len(),
            i <= n,
            forall|j: int| 0 <= j < i ==> v@[j] == p@[j],
        decreases n - i,
    {
        if v[i] != p.get_char(i) {
            proof {
                assert(v@.take(p@.len() as int)[i as int] != p@[i as int]);
            }
            return false;
        }
        i = i + 1;
    }
    proof {
        assert(v@.take(p@.len() as int) =~= p@);
    }
    true
}

/// Whether `needle` occurs in `hay` as a contiguous run.
pub open spec fn spec_contains_sub(hay: Seq<char>, needle: Seq<char>) -> bool {
    exists|i: int|
        0 <= i <= hay.len() - needle.len() && #[trigger] hay.subrange(i, i + needle.len())
            == needle
}

/// Substring search.
pub fn contains_lit(v: &Vec<char>, needle: &str) -> (r: bool)
    ensures
        r == spec_contains_sub(v@, needle@),
{
    let m = needle.unicode_len();
    let vlen = v.len();
    if m > vlen {
        proof {
            assert(!spec_contains_sub(v@, needle@));
        }
        return false;
    }
    let mut i: usize = 0;
    while i <= vlen - m
        invariant
            vlen == v@.len(),
            m == needle@.len(),
            m <= v@.len(),
            i <= v@.len() - m + 1,
            forall|k: int|
                0 <= k < i ==> #[trigger] v@.subrange(k, k + needle@.len()) != needle@,
        decreases v@.len() - i,
    {
        let mut j: usize = 0;
        let mut matched = true;
        while j < m
            invariant
                vlen == v@.len(),
                m == needle@.len(),
                i + m <= v@.len(),
                j <= m,
                matched == (forall|t: int| 0 <= t < j ==> v@[i + t] == needle@[t]),
            decreases m - j,
        {
            if v[i + j] != needle.get_char(j) {
                matched = false;
                proof {
                    assert(v@[i + j as int] != needle@[j as int]);
                }
                j = m;
            } else {
                j = j + 1;
            }
        }
        if matched {
            proof {
                assert(v@.subrange(i as int, i + needle@.len()) =~= needle@);
            }
            return true;
        }
        proof {
            assert(v@.subrange(i as int, i + needle@.len()) != needle@) by {
                assert(exists|t: int| 0 <= t < needle@.len() && v@[i + t] != needle@[t]);
                let t = choose|t: int| 0 <= t < needle@.len() && v@[i + t] != needle@[t];
                assert(v@.subrange(i as int, i + needle@.len())[t] == v@[i + t]);
            }
        }
        i = i + 1;
    }
    proof {
        assert forall|k: int| 0 <= k <= v@.len() - needle@.len() implies #[trigger] v@.subrange(
            k,
            k + needle@.len(),
        ) != needle@ by {
            assert(k < i);
        }
    }
    false
}

/// `s` with the prefix `p` stripped as often as it leads, the way
/// `trim_start_matches` strips.
pub open spec fn spec_strip_prefix_all(s: Seq<char>, p: Seq<char>) -> Seq<char>
    decreases s.len(),
{
    if p.len() > 0 && spec_starts_with(s, p) {
        spec_strip_prefix_all(s.skip(p.len() as int), p)
    } else {
        s
    }
}

/// Strips every leading repetition of the literal.
pub fn strip_prefix_all(v: &Vec<char>, p: &str) -> (r: Vec<char>)
    ensures
        r@ == spec_strip_prefix_all(v@, p@),
{
    let n = p.unicode_len();
    let mut pos: usize = 0;
    if n == 0 {
        let mut r: Vec<char> = Vec::new();
        let mut i: usize = 0;
        while i < v.len()
            invariant
                i <= v@.len(),
                r@ == v@.take(i as int),
            decreases v@.len() - i,
        {
            r.push(v[i]);
            proof {
                assert(v@.take(i + 1int) == v@.take(i as int).push(v@[i as int]));
            }
            i = i + 1;
        }
        proof {
            assert(v@.take(v@.len() as int) == v@);
        }
        return r;
    }
    let vlen = v.len();
    proof {
        assert(v@.skip(0int) == v@);
    }
    loop
        invariant
            vlen == v@.len(),
            n == p@.len(),
            n >= 1,
            pos <= v@.len(),
            spec_strip_prefix_all(v@, p@) == spec_strip_prefix_all(v@.skip(pos as int), p@),
        decreases v@.len() - pos,
    {
        // does the remainder start with p?
        let mut matches_here = vlen - pos >= n;
        if matches_here {
            let mut j: usize = 0;
            while j < n
                invariant
                    vlen == v@.len(),
                    n == p@.len(),
                    pos + n <= v@.len(),
                    j <= n,
                    matches_here == (forall|t: int| 0 <= t < j ==> v@[pos + t] == p@[t]),
                decreases n - j,
            {
                if v[pos + j] != p.get_char(j) {
                    matches_here = false;
                    proof {
                        assert(v@[pos + j as int] != p@[j as int]);
                    }
                    j = n;
                } else {
                    j = j + 1;
                }
            }
        }
        if matches_here {
            proof {
                let rest = v@.skip(pos as int);
                assert(rest.take(p@.len() as int) =~= p@);
                assert(spec_starts_with(rest, p@));
                assert(rest.skip(p@.len() as int) =~= v@.skip(pos + n));
            }
            pos = pos + n;
        } else {
            proof {
                let rest = v@.skip(pos as int);
                if rest.len() >= p@.len() {
                    if rest.take(p@.len() as int) == p@ {
                        assert(forall|t: int|
                            0 <= t < p@.len() ==> v@[pos + t] == #[trigger] p@[t]) by {
                            assert(forall|t: int|
                                0 <= t < p@.len() ==> #[trigger] rest.take(p@.len() as int)[t]
                                    == rest[t]);
                        }
                        assert(false);
                    }
                }
                assert(!spec_starts_with(rest, p@));
            }
            let mut r: Vec<char> = Vec::new();
            let mut i: usize = pos;
            while i < v.len()
                invariant
                    pos <= i <= v@.len(),
                    r@ == v@.subrange(pos as int, i as int),
                decreases v@.len() - i,
            {
                r.push(v[i]);
                proof {
                    assert(v@.subrange(pos as int, i + 1int) == v@.subrange(
                        pos as int,
                        i as int,
                    ).push(v@[i as int]));
                }
                i = i + 1;
            }
            proof {
                assert(v@.subrange(pos as int, v@.len() as int) =~= v@.skip(pos as int));
            }
            return r;
        }
    }
}

/// Copy of a character range.
pub fn slice_range(v: &Vec<char>, a: usize, b: usize) -> (r: Vec<char>)
    requires
        a <= b <= v@.len(),
    ensures
        r@ == v@.subrange(a as int, b as int),
{
    let mut r: Vec<char> = Vec::new();
    let mut i: usize = a;
    while i < b
        invariant
            a <= i <= b <= v@.len(),
            r@ == v@.subrange(a as int, i as int),
        decreases b - i,
    {
        r.push(v[i]);
        proof {
            assert(v@.subrange(a as int, i + 1int) == v@.subrange(a as int, i as int).push(
                v@[i as int],
            ));
        }
        i = i + 1;
    }
    r
}

/// Equality between a character vector and a literal.
pub fn chars_eq_lit(v: &Vec<char>, p: &str) -> (r: bool)
    ensures
        r == (v@ == p@),
{
    let n = p.unicode_len();
    if v.len() != n {
        proof {
            assert(v@ != p@) by {
                assert(v@.len() != p@.len());
            }
        }
        return false;
    }
    let mut i: usize = 0;
    while i < n
        invariant
            n == p@.len(),
            n == v@.len(),
            i <= n,
            forall|j: int| 0 <= j < i ==> v@[j] == p@[j],
        decreases n - i,
    {
        if v[i] != p.get_char(i) {
            return false;
        }
        i = i + 1;
    }
    proof {
        assert(v@ =~= p@);
    }
    true
}

/// `dd(s, prev)`: `s` with consecutive duplicates removed, where `prev` is
/// the entry kept just before `s`.
pub open spec fn spec_dedup_from(s: Seq<Seq<char>>, prev: Seq<char>) -> Seq<Seq<char>>
    decreases s.len(),
{
    if s.len() == 0 {
        Seq::empty()
    } else if s[0] == prev {
        spec_dedup_from(s.skip(1), prev)
    } else {
        seq![s[0]] + spec_dedup_from(s.skip(1), s[0])
    }
}

/// Consecutive duplicates removed, first occurrence kept: what `Vec::dedup`
/// leaves.
pub open spec fn spec_dedup(s: Seq<Seq<char>>) -> Seq<Seq<char>> {
    if s.len() == 0 {
        Seq::empty()
    } else {
        seq![s[0]] + spec_dedup_from(s.skip(1), s[0])
    }
}

/// Removes consecutive duplicate strings, keeping the first of each run.
pub fn dedup_strings(v: &Vec<String>) -> (r: Vec<String>)
    ensures
        r.deep_view() == spec_dedup(v.deep_view()),
{
    let ghost all = v.deep_view();
    let mut r: Vec<String> = Vec::new();
    let mut i: usize = 0;
    while i < v.len()
        invariant
            i <= v@.len(),
            all == v.deep_view(),
            all.len() == v@.len(),
            r.deep_view() + spec_dedup_tail(all, i as int) == spec_dedup(all),
            r@.len() > 0 ==> i > 0,
            r@.len() > 0 ==> r.deep_view().last() == spec_last_kept(all, i as int),
            i > 0 ==> r@.len() > 0,
        decreases v@.len() - i,
    {
        proof {
            assert(all.skip(i as int)[0] == all[i as int]);
            assert(all.skip(i as int).skip(1) == all.skip(i + 1int));
        }
        if i == 0 {
            r.push(v[0].clone());
            proof {
                assert(r.deep_view() =~= seq![all[0]]);
                assert(spec_last_kept(all, 1int) == all[0]);
                assert(r.deep_view() + spec_dedup_tail(all, 1int) =~= spec_dedup(all));
            }

        } else {
            let last_idx = r.len() - 1;
            let dup = str_eq(v[i].as_str(), r[last_idx].as_str());
            proof {
                assert(r.deep_view().last() == spec_last_kept(all, i as int));
            }
            if !dup {
                r.push(v[i].clone());
            }
            proof {
                assert(r.deep_view() + spec_dedup_tail(all, i + 1int) =~= spec_dedup(all));
                assert(spec_last_kept(all, i + 1int) == if all[i as int] == spec_last_kept(
                    all,
                    i as int,
                ) {
                    spec_last_kept(all, i as int)
                } else {
                    all[i as int]
                });
            }
        }
        i = i + 1;
    }
    proof {
        if all.len() == 0 {
            assert(r.deep_view() =~= spec_dedup(all));
        } else {
            assert(spec_dedup_tail(all, all.len() as int) =~= Seq::<Seq<char>>::empty());
            assert(r.deep_view() =~= r.deep_view() + spec_dedup_tail(all, all.len() as int));
        }
    }
    r
}

/// The last entry `spec_dedup` has kept after consuming `i` entries of `s`.
pub open spec fn spec_last_kept(s: Seq<Seq<char>>, i: int) -> Seq<char>
    decreases i,
{
    if i <= 0 {
        Seq::empty()
    } else if i == 1 {
        s[0]
    } else if s[i - 1] == spec_last_kept(s, i - 1) {
        spec_last_kept(s, i - 1)
    } else {
        s[i - 1]
    }
}

/// What remains of `spec_dedup(s)` after consuming the first `i` entries.
pub open spec fn spec_dedup_tail(s: Seq<Seq<char>>, i: int) -> Seq<Seq<char>> {
    if i <= 0 {
        spec_dedup(s)
    } else {
        spec_dedup_from(s.skip(i), spec_last_kept(s, i))
    }
}

/// Decimal digits of `n`, most significant first.
pub open spec fn spec_u64_chars(n: int) -> Seq<char>
    decreases n,
{
    if n < 0 {
        Seq::empty()
    } else if n < 10 {
        seq![spec_digit_char(n)]
    } else {
        spec_u64_chars(n / 10).push(spec_digit_char(n % 10))
    }
}

/// The character of one decimal digit.
pub open spec fn spec_digit_char(d: int) -> char {
    (0x30 + d) as u8 as char
}

/// Decimal rendering of an unsigned number.
pub fn u64_chars(n: u64) -> (r: Vec<char>)
    ensures
        r@ == spec_u64_chars(n as int),
    decreases n,
{
    if n < 10 {
        let d: u8 = (n as u8) + 0x30;
        let mut r: Vec<char> = Vec::new();
        r.push(d as char);
        proof {
            assert(r@ =~= seq![spec_digit_char(n as int)]);
        }
        r
    } else {
        let mut r = u64_chars(n / 10);
        let d: u8 = ((n % 10) as u8) + 0x30;
        r.push(d as char);
        r
    }
}

/// Decimal rendering as a `String`.
pub fn u64_string(n: u64) -> (r: String)
    ensures
        r@ == spec_u64_chars(n as int),
{
    let v = u64_chars(n);
    string_from_chars(&v)
}

/// Substring search with a computed needle.
pub fn contains_chars(hay: &Vec<char>, needle: &Vec<char>) -> (r: bool)
    ensures
        r == spec_contains_sub(hay@, needle@),
{
    let m = needle.len();
    let vlen = hay.len();
    if m > vlen {
        proof {
            assert(!spec_contains_sub(hay@, needle@));
        }
        return false;
    }
    let mut i: usize = 0;
    while i <= vlen - m
        invariant
            vlen == hay@.len(),
            m == needle@.len(),
            m <= hay@.len(),
            i <= hay@.len() - m + 1,
            forall|k: int|
                0 <= k < i ==> #[trigger] hay@.subrange(k, k + needle@.len()) != needle@,
        decreases hay@.len() - i,
    {
        let mut j: usize = 0;
        let mut matched = true;
        while j < m
            invariant
                vlen == hay@.len(),
                m == needle@.len(),
                i + m <= hay@.len(),
                j <= m,
                matched == (forall|t: int| 0 <= t < j ==> hay@[i + t] == needle@[t]),
            decreases m - j,
        {
            if hay[i + j] != needle[j] {
                matched = false;
                proof {
                    assert(hay@[i + j as int] != needle@[j as int]);
                }
                j = m;
            } else {
                j = j + 1;
            }
        }
        if matched {
            proof {
                assert(hay@.subrange(i as int, i + needle@.len()) =~= needle@);
            }
            return true;
        }
        proof {
            assert(hay@.subrange(i as int, i + needle@.len()) != needle@) by {
                assert(exists|t: int| 0 <= t < needle@.len() && hay@[i + t] != needle@[t]);
                let t = choose|t: int| 0 <= t < needle@.len() && hay@[i + t] != needle@[t];
                assert(hay@.subrange(i as int, i + needle@.len())[t] == hay@[i + t]);
            }
        }
        i = i + 1;
    }
    proof {
        assert forall|k: int| 0 <= k <= hay@.len() - needle@.len() implies #[trigger] hay@.subrange(
            k,
            k + needle@.len(),
        ) != needle@ by {
            assert(k < i);
        }
    }
    false
}

/// Concatenation of 2 string pieces.
pub fn cat2(p0: &str, p1: &str) -> (r: String)
    ensures
        r@ == p0@ + p1@,
{
    let mut r = String::new();
    r.append(p0);
    r.append(p1);
    proof {
        assert(r@ =~= p0@ + p1@);
    }
    r
}

/// Concatenation of 3 string pieces.
pub fn cat3(p0: &str, p1: &str, p2: &str) -> (r: String)
    ensures
        r@ == p0@ + p1@ + p2@,
{
    let mut r = String::new();
    r.append(p0);
    r.append(p1);
    r.append(p2);
    proof {
        assert(r@ =~= p0@ + p1@ + p2@);
    }
    r
}

/// Concatenation of 4 string pieces.
pub fn cat4(p0: &str, p1: &str, p2: &str, p3: &str) -> (r: String)
    ensures
        r@ == p0@ + p1@ + p2@ + p3@,
{
    let mut r = String::new();
    r.append(p0);
    r.append(p1);
    r.append(p2);
    r.append(p3);
    proof {
        assert(r@ =~= p0@ + p1@ + p2@ + p3@);
    }
    r
}

/// Concatenation of 5 string pieces.
pub fn cat5(p0: &str, p1: &str, p2: &str, p3: &str, p4: &str) -> (r: String)
    ensures
        r@ == p0@ + p1@ + p2@ + p3@ + p4@,
{
    let mut r = String::new();
    r.append(p0);
    r.append(p1);
    r.append(p2);
    r.append(p3);
    r.append(p4);
    proof {
        assert(r@ =~= p0@ + p1@ + p2@ + p3@ + p4@);
    }
    r
}

/// Concatenation of 6 string pieces.
pub fn cat6(p0: &str, p1: &str, p2: &str, p3: &str, p4: &str, p5: &str) -> (r: String)
    ensures
        r@ == p0@ + p1@ + p2@ + p3@ + p4@ + p5@,
{
    let mut r = String::new();
    r.append(p0);
    r.append(p1);
    r.append(p2);
    r.append(p3);
    r.append(p4);
    r.append(p5);
    proof {
        assert(r@ =~= p0@ + p1@ + p2@ + p3@ + p4@ + p5@);
    }
    r
}

/// Concatenation of 7 string pieces.
pub fn cat7(p0: &str, p1: &str, p2: &str, p3: &str, p4: &str, p5: &str, p6: &str) -> (r: String)
    ensures
        r@ == p0@ + p1@ + p2@ + p3@ + p4@ + p5@ + p6@,
{
    let mut r = String::new();
    r.append(p0);
    r.append(p1);
    r.append(p2);
    r.append(p3);
    r.append(p4);
    r.append(p5);
    r.append(p6);
    proof {
        assert(r@ =~= p0@ + p1@ + p2@ + p3@ + p4@ + p5@ + p6@);
    }
    r
}

/// Concatenation of 8 string pieces.
pub fn cat8(p0: &str, p1: &str, p2: &str, p3: &str, p4: &str, p5: &str, p6: &str, p7: &str) -> (r: String)
    ensures
        r@ == p0@ + p1@ + p2@ + p3@ + p4@ + p5@ + p6@ + p7@,
{
    let mut r = String::new();
    r.append(p0);
    r.append(p1);
    r.append(p2);
    r.append(p3);
    r.append(p4);
    r.append(p5);
    r.append(p6);
    r.append(p7);
    proof {
        assert(r@ =~= p0@ + p1@ + p2@ + p3@ + p4@ + p5@ + p6@ + p7@);
    }
    r
}

/// Concatenation of 9 string pieces.
pub fn cat9(p0: &str, p1: &str, p2: &str, p3: &str, p4: &str, p5: &str, p6: &str, p7: &str, p8: &str) -> (r: String)
    ensures
        r@ == p0@ + p1@ + p2@ + p3@ + p4@ + p5@ + p6@ + p7@ + p8@,
{
    let mut r = String::new();
    r.append(p0);
    r.append(p1);
    r.append(p2);
    r.append(p3);
    r.append(p4);
    r.append(p5);
    r.append(p6);
    r.append(p7);
    r.append(p8);
    proof {
        assert(r@ =~= p0@ + p1@ + p2@ + p3@ + p4@ + p5@ + p6@ + p7@ + p8@);
    }
    r
}

} // verus!
