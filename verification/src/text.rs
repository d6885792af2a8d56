//! The normalizer: whitespace collapse and label stripping.
//!
//! Normalization runs in two steps. First the text is split on whitespace
//! runs and rejoined with single ASCII spaces. Then every leading character
//! that, case-insensitively, is one of the distinct letters of the word
//! "abstract" is removed, and the result is trimmed once more.

use vstd::prelude::*;
use crate::strutil::chars_of;
use crate::strutil::string_of_chars;

verus! {

/// Whether `c` is whitespace: the Unicode `White_Space` set, the same set
/// that `str::split_whitespace` and `str::trim` delimit on.
pub open spec fn is_space(c: char) -> bool {
    let n = c as int;
    n == 0x09 || n == 0x0A || n == 0x0B || n == 0x0C || n == 0x0D || n == 0x20
        || n == 0x85 || n == 0xA0 || n == 0x1680
        || (0x2000 <= n && n <= 0x200A)
        || n == 0x2028 || n == 0x2029 || n == 0x202F || n == 0x205F || n == 0x3000
}

/// Whether `c`, lowered to ASCII lower case, is one of the distinct letters
/// of the word "abstract". The label-stripping step trims exactly these
/// characters from the front of the collapsed text.
pub open spec fn is_label_char(c: char) -> bool {
    c == 'a' || c == 'b' || c == 's' || c == 't' || c == 'r' || c == 'c'
        || c == 'A' || c == 'B' || c == 'S' || c == 'T' || c == 'R' || c == 'C'
}

/// The words of `s`: the maximal runs of non-whitespace characters, in
/// order.
pub open spec fn words(s: Seq<char>) -> Seq<Seq<char>>
    decreases s.len(),
{
    if s.len() == 0 {
        Seq::empty()
    } else {
        let init = words(s.drop_last());
        let c = s.last();
        if is_space(c) {
            init
        } else if s.len() >= 2 && !is_space(s[s.len() - 2]) {
            init.update(init.len() - 1, init.last().push(c))
        } else {
            init.push(seq![c])
        }
    }
}

/// The words of `ws` joined with a single ASCII space between neighbours.
pub open spec fn join_words(ws: Seq<Seq<char>>) -> Seq<char>
    decreases ws.len(),
{
    if ws.len() == 0 {
        Seq::empty()
    } else if ws.len() == 1 {
        ws[0]
    } else {
        join_words(ws.drop_last()) + seq![' '] + ws.last()
    }
}

/// The whitespace-collapse step: the words of `s`, rejoined with single
/// spaces. Leading and trailing whitespace disappears with the split.
pub open spec fn collapse(s: Seq<char>) -> Seq<char> {
    join_words(words(s))
}

/// Whether `c` is whitespace.
pub fn is_space_char(c: char) -> (r: bool)
    ensures
        r == is_space(c),
{
    let n: u32 = c as u32;
    n == 0x09 || n == 0x0A || n == 0x0B || n == 0x0C || n == 0x0D || n == 0x20
        || n == 0x85 || n == 0xA0 || n == 0x1680
        || (0x2000 <= n && n <= 0x200A)
        || n == 0x2028 || n == 0x2029 || n == 0x202F || n == 0x205F || n == 0x3000
}

/// Whether the label-stripping step trims `c`.
pub fn is_label_char_exec(c: char) -> (r: bool)
    ensures
        r == is_label_char(c),
{
    c == 'a' || c == 'b' || c == 's' || c == 't' || c == 'r' || c == 'c'
        || c == 'A' || c == 'B' || c == 'S' || c == 'T' || c == 'R' || c == 'C'
}

/// The label-stripping step: `s` without its leading label characters.
pub open spec fn strip_label(s: Seq<char>) -> Seq<char>
    decreases s.len(),
{
    if s.len() > 0 && is_label_char(s[0]) {
        strip_label(s.drop_first())
    } else {
        s
    }
}

/// `s` without its leading whitespace.
pub open spec fn trim_start(s: Seq<char>) -> Seq<char>
    decreases s.len(),
{
    if s.len() > 0 && is_space(s[0]) {
        trim_start(s.drop_first())
    } else {
        s
    }
}

/// `s` without its trailing whitespace.
pub open spec fn trim_end(s: Seq<char>) -> Seq<char>
    decreases s.len(),
{
    if s.len() > 0 && is_space(s.last()) {
        trim_end(s.drop_last())
    } else {
        s
    }
}

/// `s` without leading and trailing whitespace, as `str::trim` leaves it.
pub open spec fn trim(s: Seq<char>) -> Seq<char> {
    trim_end(trim_start(s))
}

/// The whole normalization: whitespace collapse, then the label trim, then
/// one more trim of surrounding whitespace.
pub open spec fn normalized(s: Seq<char>) -> Seq<char> {
    trim(strip_label(collapse(s)))
}

/// A string that ends in a non-whitespace character ends in a word.
proof fn lemma_words_last_nonspace(s: Seq<char>)
    requires
        s.len() > 0,
        !is_space(s.last()),
    ensures
        words(s).len() > 0,
    decreases s.len(),
{
    if s.len() >= 2 && !is_space(s[s.len() - 2]) {
        lemma_words_last_nonspace(s.drop_last());
    }
}

/// Extending the last word of a join extends the join by that character.
proof fn lemma_join_extend_last(ws: Seq<Seq<char>>, c: char)
    requires
        ws.len() > 0,
    ensures
        join_words(ws.update(ws.len() - 1, ws.last().push(c))) == join_words(ws).push(c),
{
    let ws2 = ws.update(ws.len() - 1, ws.last().push(c));
    if ws.len() == 1 {
        assert(join_words(ws2) == ws2[0]);
        assert(ws2[0] =~= join_words(ws).push(c));
    } else {
        assert(ws2.drop_last() =~= ws.drop_last());
        assert(join_words(ws2) == join_words(ws.drop_last()) + seq![' '] + ws.last().push(c));
        assert(join_words(ws.drop_last()) + seq![' '] + ws.last().push(c)
            =~= (join_words(ws.drop_last()) + seq![' '] + ws.last()).push(c));
    }
}

/// A well-formed word: non-empty and free of whitespace.
pub open spec fn word_ok(w: Seq<char>) -> bool {
    w.len() > 0 && forall|j: int| 0 <= j < w.len() ==> !is_space(#[trigger] w[j])
}

/// A well-formed word list: every entry a well-formed word.
pub open spec fn good_words(ws: Seq<Seq<char>>) -> bool {
    forall|i: int| 0 <= i < ws.len() ==> word_ok(#[trigger] ws[i])
}

/// A string in collapsed form: no leading or trailing whitespace, every
/// whitespace character a single ASCII space, and no two of them adjacent.
pub open spec fn is_collapsed(s: Seq<char>) -> bool {
    &&& s.len() > 0 ==> !is_space(s[0]) && !is_space(s.last())
    &&& forall|i: int| 0 <= i < s.len() ==> (is_space(#[trigger] s[i]) ==> s[i] == ' ')
    &&& forall|i: int| 0 <= i && i + 1 < s.len() ==> !(is_space(#[trigger] s[i]) && is_space(s[i + 1]))
}

/// The words of any string are well-formed.
proof fn lemma_words_good(s: Seq<char>)
    ensures
        good_words(words(s)),
    decreases s.len(),
{
    if s.len() > 0 {
        lemma_words_good(s.drop_last());
        let init = words(s.drop_last());
        let c = s.last();
        if is_space(c) {
        } else if s.len() >= 2 && !is_space(s[s.len() - 2]) {
            lemma_words_last_nonspace(s.drop_last());
            let w2 = init.last().push(c);
            assert(word_ok(w2)) by {
                assert(forall|j: int| 0 <= j < init.last().len()
                    ==> w2[j] == init.last()[j]);
            }
            let ws2 = init.update(init.len() - 1, w2);
            assert(good_words(ws2)) by {
                assert(forall|i: int| 0 <= i < ws2.len() && i != init.len() - 1
                    ==> ws2[i] == init[i]);
            }
        } else {
            let ws2 = init.push(seq![c]);
            assert(word_ok(seq![c]));
            assert(good_words(ws2)) by {
                assert(forall|i: int| 0 <= i < init.len() ==> ws2[i] == init[i]);
            }
        }
    }
}

/// The join of well-formed words is a collapsed string.
proof fn lemma_collapsed_join(ws: Seq<Seq<char>>)
    requires
        good_words(ws),
    ensures
        is_collapsed(join_words(ws)),
        ws.len() > 0 ==> join_words(ws).len() > 0,
    decreases ws.len(),
{
    if ws.len() == 0 {
    } else if ws.len() == 1 {
        assert(word_ok(ws[0]));
    } else {
        assert(good_words(ws.drop_last())) by {
            assert(forall|i: int| 0 <= i < ws.len() - 1 ==> ws.drop_last()[i] == ws[i]);
        }
        lemma_collapsed_join(ws.drop_last());
        let a = join_words(ws.drop_last());
        let w = ws.last();
        assert(word_ok(w));
        let j = a + seq![' '] + w;
        assert(join_words(ws) == j);
        assert forall|i: int| 0 <= i < j.len() && is_space(#[trigger] j[i]) implies j[i] == ' ' by {
            if i < a.len() {
                assert(j[i] == a[i]);
            } else if i == a.len() {
                assert(j[i] == ' ');
            } else {
                assert(j[i] == w[i - a.len() - 1]);
            }
        }
        assert forall|i: int| 0 <= i && i + 1 < j.len()
            implies !(is_space(#[trigger] j[i]) && is_space(j[i + 1])) by {
            if i + 1 < a.len() {
                assert(j[i] == a[i] && j[i + 1] == a[i + 1]);
            } else if i + 1 == a.len() {
                assert(j[i] == a[i] && a[i] == a.last());
            } else if i == a.len() {
                assert(j[i + 1] == w[0]);
            } else {
                assert(j[i] == w[i - a.len() - 1] && j[i + 1] == w[i - a.len()]);
            }
        }
        assert(j[0] == a[0]);
        assert(j.last() == w.last());
    }
}

/// Collapse leaves a collapsed string unchanged.
proof fn lemma_collapse_id(s: Seq<char>)
    requires
        is_collapsed(s),
    ensures
        collapse(s) == s,
    decreases s.len(),
{
    if s.len() == 0 {
        assert(join_words(words(s)) =~= s);
    } else {
        let c = s.last();
        assert(!is_space(c));
        if s.len() == 1 {
            assert(s.drop_last() =~= Seq::<char>::empty());
            assert(words(Seq::<char>::empty()) == Seq::<Seq<char>>::empty());
            assert(words(s) == Seq::<Seq<char>>::empty().push(seq![c]));
            assert(join_words(words(s)) =~= s);
        } else if !is_space(s[s.len() - 2]) {
            let t = s.drop_last();
            assert(is_collapsed(t)) by {
                assert(t.last() == s[s.len() - 2]);
                assert(forall|i: int| 0 <= i < t.len() ==> t[i] == s[i]);
            }
            lemma_collapse_id(t);
            lemma_words_last_nonspace(t);
            lemma_join_extend_last(words(t), c);
            assert(join_words(words(s)) == join_words(words(t)).push(c));
            assert(join_words(words(t)).push(c) =~= s);
        } else {
            // the last three characters are: non-space, ' ', non-space
            assert(!is_space(s[0]));
            assert(s.len() >= 3) by {
                assert(s.len() != 2) by {
                    if s.len() == 2 {
                        assert(is_space(s[0]));
                    }
                }
            }
            assert(!is_space(s[s.len() - 3]));
            let t = s.take(s.len() - 2);
            assert(is_collapsed(t)) by {
                assert(t.last() == s[s.len() - 3]);
                assert(forall|i: int| 0 <= i < t.len() ==> t[i] == s[i]);
            }
            lemma_collapse_id(t);
            lemma_words_last_nonspace(t);
            assert(s.drop_last().drop_last() =~= t);
            assert(words(s.drop_last()) == words(t));
            assert(words(s) == words(t).push(seq![c]));
            let ws2 = words(t).push(seq![c]);
            assert(ws2.drop_last() =~= words(t));
            assert(join_words(ws2) == join_words(words(t)) + seq![' '] + seq![c]);
            assert(t + seq![' '] + seq![c] =~= s);
        }
    }
}

/// Trimming leaves a string without surrounding whitespace unchanged.
proof fn lemma_trim_id(s: Seq<char>)
    requires
        s.len() > 0 ==> !is_space(s[0]) && !is_space(s.last()),
    ensures
        trim(s) == s,
{
    assert(trim_start(s) == s);
    assert(trim_end(s) == s);
}

/// A string whose interior is collapsed, though it may begin with
/// whitespace: no trailing whitespace, every whitespace character a single
/// ASCII space, no two of them adjacent.
spec fn interior_collapsed(s: Seq<char>) -> bool {
    &&& s.len() > 0 ==> !is_space(s.last())
    &&& forall|i: int| 0 <= i < s.len() ==> (is_space(#[trigger] s[i]) ==> s[i] == ' ')
    &&& forall|i: int| 0 <= i && i + 1 < s.len() ==> !(is_space(#[trigger] s[i]) && is_space(s[i + 1]))
}

/// The label trim of a string with a collapsed interior is collapsed.
proof fn lemma_strip_trim_interior(u: Seq<char>)
    requires
        interior_collapsed(u),
    ensures
        is_collapsed(trim(strip_label(u))),
    decreases u.len(),
{
    if u.len() > 0 && is_label_char(u[0]) {
        let v = u.drop_first();
        assert(interior_collapsed(v)) by {
            assert(forall|i: int| 0 <= i < v.len() ==> v[i] == u[i + 1]);
            if v.len() > 0 {
                assert(v.last() == u.last());
            }
        }
        lemma_strip_trim_interior(v);
        assert(strip_label(u) == strip_label(v));
    } else {
        assert(strip_label(u) == u);
        if u.len() == 0 {
            lemma_trim_id(u);
        } else if !is_space(u[0]) {
            lemma_trim_id(u);
        } else {
            // a single leading space, then a non-space character
            assert(u.len() >= 2) by {
                if u.len() == 1 {
                    assert(u.last() == u[0]);
                }
            }
            assert(!is_space(u[1]));
            let v = u.drop_first();
            assert(v.len() > 0 && v[0] == u[1] && v.last() == u.last());
            assert(trim_start(u) == trim_start(v));
            assert(trim_start(v) == v);
            assert(trim_end(v) == v);
            assert(is_collapsed(v)) by {
                assert(forall|i: int| 0 <= i < v.len() ==> v[i] == u[i + 1]);
            }
        }
    }
}

/// The normalizer's output invariant: whatever the input, the result has
/// no leading or trailing whitespace, every whitespace character in it is
/// a single ASCII space, and no two of them stand next to each other.
pub proof fn lemma_normalized_collapsed(s: Seq<char>)
    ensures
        is_collapsed(normalized(s)),
{
    lemma_words_good(s);
    lemma_collapsed_join(words(s));
    lemma_strip_trim_interior(collapse(s));
}

/// Normalization is idempotent: a second run returns its input unchanged.
/// The one family of inputs left out: where the first run's result itself
/// begins with a label character, the label trim of the second run removes
/// more (stripping can expose a fresh label character, as in "a b", whose
/// normal form "b" strips again to the empty string).
pub proof fn lemma_normalize_idempotent(s: Seq<char>)
    requires
        normalized(s).len() > 0 ==> !is_label_char(normalized(s)[0]),
    ensures
        normalized(normalized(s)) == normalized(s),
{
    lemma_normalized_collapsed(s);
    let y = normalized(s);
    lemma_collapse_id(y);
    assert(strip_label(y) == y);
    lemma_trim_id(y);
}

/// Stripping label characters drops exactly the leading run of them.
proof fn lemma_strip_label_skip(s: Seq<char>, j: int)
    requires
        0 <= j <= s.len(),
        forall|k: int| 0 <= k < j ==> is_label_char(s[k]),
        j == s.len() || !is_label_char(s[j]),
    ensures
        strip_label(s) == s.skip(j),
    decreases j,
{
    if j == 0 {
        assert(s.skip(0) =~= s);
    } else {
        lemma_strip_label_skip(s.drop_first(), j - 1);
        assert(s.drop_first().skip(j - 1) =~= s.skip(j));
    }
}

/// Trimming the start drops exactly the leading run of whitespace.
proof fn lemma_trim_start_skip(s: Seq<char>, j: int)
    requires
        0 <= j <= s.len(),
        forall|k: int| 0 <= k < j ==> is_space(s[k]),
        j == s.len() || !is_space(s[j]),
    ensures
        trim_start(s) == s.skip(j),
    decreases j,
{
    if j == 0 {
        assert(s.skip(0) =~= s);
    } else {
        lemma_trim_start_skip(s.drop_first(), j - 1);
        assert(s.drop_first().skip(j - 1) =~= s.skip(j));
    }
}

/// Trimming the end drops exactly the trailing run of whitespace.
proof fn lemma_trim_end_take(s: Seq<char>, j: int)
    requires
        0 <= j <= s.len(),
        forall|k: int| j <= k < s.len() ==> is_space(s[k]),
        j == 0 || !is_space(s[j - 1]),
    ensures
        trim_end(s) == s.take(j),
    decreases s.len(),
{
    if j == s.len() {
        assert(s.take(j) =~= s);
    } else {
        lemma_trim_end_take(s.drop_last(), j);
        assert(s.drop_last().take(j) =~= s.take(j));
    }
}

/// Whitespace collapse: the words of `text`, rejoined with single ASCII
/// spaces; leading and trailing whitespace is dropped.
pub fn clean_text(text: &str) -> (r: String)
    ensures
        r@ == collapse(text@),
{
    let chars = chars_of(text);
    let mut out: Vec<char> = Vec::new();
    let mut i: usize = 0;
    let mut prev_nonspace: bool = false;
    while i < chars.len()
        invariant
            chars@ == text@,
            i <= chars.len(),
            out@ == join_words(words(text@.take(i as int))),
            prev_nonspace == (i > 0 && !is_space(text@[i as int - 1])),
            words(text@.take(i as int)).len() == 0 <==> out@.len() == 0,
        decreases chars.len() - i,
    {
        let c = chars[i];
        proof {
            assert(text@.take(i + 1).drop_last() =~= text@.take(i as int));
            assert(text@.take(i + 1).last() == text@[i as int]);
        }
        if is_space_char(c) {
            prev_nonspace = false;
        } else {
            if prev_nonspace {
                proof {
                    lemma_words_last_nonspace(text@.take(i as int));
                    lemma_join_extend_last(words(text@.take(i as int)), c);
                }
                out.push(c);
            } else if out.len() > 0 {
                proof {
                    let ws = words(text@.take(i as int));
                    assert(words(text@.take(i + 1)) == ws.push(seq![c]));
                    assert(ws.push(seq![c]).drop_last() =~= ws);
                    assert(join_words(ws.push(seq![c]))
                        == join_words(ws) + seq![' '] + seq![c]);
                }
                out.push(' ');
                out.push(c);
                proof {
                    assert(out@ =~= join_words(words(text@.take(i + 1))));
                }
            } else {
                proof {
                    let ws = words(text@.take(i as int));
                    assert(ws.len() == 0);
                    assert(words(text@.take(i + 1)) == ws.push(seq![c]));
                    assert(join_words(ws.push(seq![c])) == seq![c]);
                }
                out.push(c);
                proof {
                    assert(out@ =~= seq![c]);
                }
            }
            prev_nonspace = true;
        }
        i = i + 1;
    }
    proof {
        assert(text@.take(chars@.len() as int) =~= text@);
    }
    string_of_chars(&out)
}

/// The label trim: drops every leading character in the label set, then
/// trims surrounding whitespace once.
pub fn strip_label_prefix(text: &str) -> (r: String)
    ensures
        r@ == trim(strip_label(text@)),
{
    let chars = chars_of(text);
    let n: usize = chars.len();
    let mut j: usize = 0;
    while j < n && is_label_char_exec(chars[j])
        invariant
            chars@ == text@,
            n == chars.len(),
            0 <= j <= n,
            forall|k: int| 0 <= k < j ==> is_label_char(text@[k]),
        decreases n - j,
    {
        j = j + 1;
    }
    let mut k: usize = j;
    while k < n && is_space_char(chars[k])
        invariant
            chars@ == text@,
            n == chars.len(),
            j <= k <= n,
            forall|i: int| j <= i < k ==> is_space(text@[i]),
        decreases n - k,
    {
        k = k + 1;
    }
    let mut m: usize = n;
    while m > k && is_space_char(chars[m - 1])
        invariant
            chars@ == text@,
            n == chars.len(),
            k <= m <= n,
            forall|i: int| m <= i < n ==> is_space(text@[i]),
        decreases m,
    {
        m = m - 1;
    }
    proof {
        lemma_strip_label_skip(text@, j as int);
        lemma_trim_start_skip(text@.skip(j as int), k - j);
        assert(text@.skip(j as int).skip(k - j) =~= text@.skip(k as int));
        lemma_trim_end_take(text@.skip(k as int), m - k);
        assert(text@.skip(k as int).take(m - k) =~= text@.subrange(k as int, m as int));
    }
    let mut out: Vec<char> = Vec::new();
    let mut idx: usize = k;
    while idx < m
        invariant
            chars@ == text@,
            n == chars.len(),
            k <= idx <= m <= n,
            out@ == text@.subrange(k as int, idx as int),
        decreases m - idx,
    {
        out.push(chars[idx]);
        proof {
            assert(text@.subrange(k as int, idx as int).push(text@[idx as int])
                =~= text@.subrange(k as int, idx + 1));
        }
        idx = idx + 1;
    }
    string_of_chars(&out)
}

/// The whole normalization: whitespace collapse, then the label trim, then
/// a final trim of surrounding whitespace.
pub fn normalize(text: &str) -> (r: String)
    ensures
        r@ == normalized(text@),
{
    let collapsed = clean_text(text);
    strip_label_prefix(collapsed.as_str())
}

} // verus!
