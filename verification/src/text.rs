//! Text helpers over character sequences.
//!
//! Every string in this crate is modelled by its view, a `Seq<char>`. The
//! functions here are the small vocabulary the rest of the crate is written
//! in: trimming, prefix and substring tests, and decimal rendering.

use vstd::prelude::*;

verus! {

/// `String::push` appends exactly one character and leaves the rest alone.
pub assume_specification[ String::push ](s: &mut String, c: char)
    ensures
        final(s)@ == old(s)@.push(c),
;

/// Equality of string slices (`str`'s `PartialEq::eq`) is equality of their
/// character sequences.
pub assume_specification[ <str as PartialEq>::eq ](a: &str, b: &str) -> (r: bool)
    ensures
        r == (a@ == b@),
;

/// What `str::to_lowercase` makes of a text: its lowercase form by the
/// Unicode case mappings, which depend on nothing but the text.
pub uninterp spec fn lowercase(s: Seq<char>) -> Seq<char>;

/// Whether `char::is_alphanumeric` holds of a character: it is a letter or a
/// number by the Unicode general categories.
pub uninterp spec fn is_alphanumeric(c: char) -> bool;

/// The characters with the Unicode `White_Space` property.
pub open spec fn is_space(c: char) -> bool {
    let n = c as u32;
    ||| 0x09 <= n <= 0x0D
    ||| n == 0x20
    ||| n == 0x85
    ||| n == 0xA0
    ||| n == 0x1680
    ||| 0x2000 <= n <= 0x200A
    ||| n == 0x2028
    ||| n == 0x2029
    ||| n == 0x202F
    ||| n == 0x205F
    ||| n == 0x3000
}

/// Number of whitespace characters at the front of `s`.
pub open spec fn leading_spaces(s: Seq<char>) -> nat
    decreases s.len(),
{
    if s.len() > 0 && is_space(s[0]) {
        1 + leading_spaces(s.drop_first())
    } else {
        0
    }
}

/// Number of whitespace characters at the back of `s`.
pub open spec fn trailing_spaces(s: Seq<char>) -> nat
    decreases s.len(),
{
    if s.len() > 0 && is_space(s.last()) {
        1 + trailing_spaces(s.drop_last())
    } else {
        0
    }
}

/// `s` without its leading and trailing whitespace.
pub open spec fn trimmed(s: Seq<char>) -> Seq<char> {
    let from = leading_spaces(s) as int;
    let to = s.len() - trailing_spaces(s);
    if from < to {
        s.subrange(from, to)
    } else {
        Seq::empty()
    }
}

/// `s` is empty or made of whitespace only.
pub open spec fn is_blank(s: Seq<char>) -> bool {
    trimmed(s).len() == 0
}

/// `pat` occurs in `s` as a contiguous run starting at index `i`.
pub open spec fn occurs_at(s: Seq<char>, pat: Seq<char>, i: int) -> bool {
    0 <= i && i + pat.len() <= s.len() && s.subrange(i, i + pat.len()) == pat
}

/// `pat` occurs somewhere in `s`.
pub open spec fn contains_text(s: Seq<char>, pat: Seq<char>) -> bool {
    exists|i: int| occurs_at(s, pat, i)
}

/// The decimal digit character for `d`, `0 <= d <= 9`.
pub open spec fn digit_char(d: int) -> char {
    if d == 0 {
        '0'
    } else if d == 1 {
        '1'
    } else if d == 2 {
        '2'
    } else if d == 3 {
        '3'
    } else if d == 4 {
        '4'
    } else if d == 5 {
        '5'
    } else if d == 6 {
        '6'
    } else if d == 7 {
        '7'
    } else if d == 8 {
        '8'
    } else {
        '9'
    }
}

/// The usual decimal rendering of a natural number, without leading zeros.
pub open spec fn decimal(n: nat) -> Seq<char>
    decreases n,
{
    if n < 10 {
        seq![digit_char(n as int)]
    } else {
        decimal(n / 10).push(digit_char((n % 10) as int))
    }
}

/// The first `n` characters of `s`, or all of `s` when it is shorter.
pub open spec fn prefix_of_len(s: Seq<char>, n: nat) -> Seq<char> {
    if s.len() <= n {
        s
    } else {
        s.take(n as int)
    }
}

/// `s` with every leading occurrence of `c` removed.
pub open spec fn without_leading(s: Seq<char>, c: char) -> Seq<char>
    decreases s.len(),
{
    if s.len() > 0 && s[0] == c {
        without_leading(s.drop_first(), c)
    } else {
        s
    }
}

/// `s` with every leading occurrence of the text `prefix` removed. An empty
/// `prefix` removes nothing.
pub open spec fn without_prefix(s: Seq<char>, prefix: Seq<char>) -> Seq<char>
    decreases s.len(),
{
    if prefix.len() > 0 && prefix.is_prefix_of(s) {
        without_prefix(s.skip(prefix.len() as int), prefix)
    } else {
        s
    }
}

/// The index of the last occurrence of `c` in `s`, or -1 where there is
/// none.
pub open spec fn last_index_of(s: Seq<char>, c: char) -> int
    decreases s.len(),
{
    if s.len() == 0 {
        -1
    } else if s.last() == c {
        s.len() - 1
    } else {
        last_index_of(s.drop_last(), c)
    }
}

/// The index of the first occurrence of `c` in `s`, or the length of `s`
/// where there is none.
pub open spec fn first_index_of(s: Seq<char>, c: char) -> int
    decreases s.len(),
{
    if s.len() == 0 || s[0] == c {
        0
    } else {
        1 + first_index_of(s.drop_first(), c)
    }
}

/// A line without the carriage return that ends it, if one does.
pub open spec fn without_carriage_return(line: Seq<char>) -> Seq<char> {
    if line.len() > 0 && line.last() == '\r' {
        line.drop_last()
    } else {
        line
    }
}

/// The lines of a text. A line ends with a line feed, or with a carriage
/// return and a line feed, neither of which belongs to the line; the last
/// line needs no line ending, and an empty text has no line.
pub open spec fn lines_of(s: Seq<char>) -> Seq<Seq<char>>
    decreases s.len(),
{
    if s.len() == 0 {
        Seq::empty()
    } else {
        let end = first_index_of(s, '\n');
        if end >= s.len() {
            seq![s]
        } else if 0 <= end {
            seq![without_carriage_return(s.take(end))] + lines_of(s.skip(end + 1))
        } else {
            Seq::empty()
        }
    }
}

/// Number of characters at the front of `s` that are no whitespace.
pub open spec fn leading_word(s: Seq<char>) -> nat
    decreases s.len(),
{
    if s.len() > 0 && !is_space(s[0]) {
        1 + leading_word(s.drop_first())
    } else {
        0
    }
}

/// The words of a text: its longest runs of characters that are no
/// whitespace, in order.
pub open spec fn words_of(s: Seq<char>) -> Seq<Seq<char>>
    decreases s.len(),
{
    let from = leading_spaces(s) as int;
    let to = from + leading_word(s.skip(from));
    if from < to <= s.len() {
        seq![s.subrange(from, to)] + words_of(s.skip(to))
    } else {
        Seq::empty()
    }
}

/// `s` with every trailing occurrence of the text `suffix` removed. An
/// empty `suffix` removes nothing.
pub open spec fn without_suffix(s: Seq<char>, suffix: Seq<char>) -> Seq<char>
    decreases s.len(),
{
    if suffix.len() > 0 && suffix.len() <= s.len() && s.skip(s.len() - suffix.len()) == suffix {
        without_suffix(s.take(s.len() - suffix.len()), suffix)
    } else {
        s
    }
}

/// The texts of `parts`, with `separator` between each two.
pub open spec fn joined(parts: Seq<Seq<char>>, separator: Seq<char>) -> Seq<char>
    decreases parts.len(),
{
    if parts.len() == 0 {
        Seq::empty()
    } else if parts.len() == 1 {
        parts[0]
    } else {
        joined(parts.drop_last(), separator) + separator + parts.last()
    }
}

/// The first occurrence of `c` is at `at` where no earlier character is `c`.
proof fn lemma_first_index_of(s: Seq<char>, c: char, at: int)
    requires
        0 <= at <= s.len(),
        forall|i: int| 0 <= i < at ==> #[trigger] s[i] != c,
        at == s.len() || s[at] == c,
    ensures
        first_index_of(s, c) == at,
    decreases at,
{
    if at > 0 {
        let t = s.drop_first();
        assert forall|i: int| 0 <= i < at - 1 implies #[trigger] t[i] != c by {
            assert(t[i] == s[i + 1]);
        }
        lemma_first_index_of(t, c, at - 1);
    }
}

/// The leading word has `k` characters where the first `k` are no whitespace
/// and the next one, if any, is.
proof fn lemma_leading_word(s: Seq<char>, k: int)
    requires
        0 <= k <= s.len(),
        forall|i: int| 0 <= i < k ==> !is_space(#[trigger] s[i]),
        k == s.len() || is_space(s[k]),
    ensures
        leading_word(s) == k,
    decreases k,
{
    if k > 0 {
        let t = s.drop_first();
        assert forall|i: int| 0 <= i < k - 1 implies !is_space(#[trigger] t[i]) by {
            assert(t[i] == s[i + 1]);
        }
        lemma_leading_word(t, k - 1);
    }
}

/// The last occurrence of `c` is at `at` where no later character is `c`.
pub(crate) proof fn lemma_last_index_of(s: Seq<char>, c: char, at: int)
    requires
        -1 <= at < s.len(),
        at >= 0 ==> s[at] == c,
        forall|i: int| at < i < s.len() ==> #[trigger] s[i] != c,
    ensures
        last_index_of(s, c) == at,
    decreases s.len(),
{
    if s.len() > 0 && at < s.len() - 1 {
        let t = s.drop_last();
        assert forall|i: int| at < i < t.len() implies #[trigger] t[i] != c by {
            assert(t[i] == s[i]);
        }
        assert(s.last() == s[s.len() - 1]);
        lemma_last_index_of(t, c, at);
    }
}

/// There are `k` leading whitespace characters where the first `k` are
/// whitespace and the next one, if any, is not.
proof fn lemma_leading_spaces(s: Seq<char>, k: int)
    requires
        0 <= k <= s.len(),
        forall|i: int| 0 <= i < k ==> is_space(#[trigger] s[i]),
        k == s.len() || !is_space(s[k]),
    ensures
        leading_spaces(s) == k,
    decreases k,
{
    if k > 0 {
        let t = s.drop_first();
        assert forall|i: int| 0 <= i < k - 1 implies is_space(#[trigger] t[i]) by {
            assert(t[i] == s[i + 1]);
        }
        lemma_leading_spaces(t, k - 1);
    }
}

/// There are `k` trailing whitespace characters where the last `k` are
/// whitespace and the one before them, if any, is not.
proof fn lemma_trailing_spaces(s: Seq<char>, k: int)
    requires
        0 <= k <= s.len(),
        forall|i: int| s.len() - k <= i < s.len() ==> is_space(#[trigger] s[i]),
        k == s.len() || !is_space(s[s.len() - k - 1]),
    ensures
        trailing_spaces(s) == k,
    decreases k,
{
    if k > 0 {
        let t = s.drop_last();
        assert forall|i: int| t.len() - (k - 1) <= i < t.len() implies is_space(
            #[trigger] t[i],
        ) by {
            assert(t[i] == s[i]);
        }
        lemma_trailing_spaces(t, k - 1);
    }
}

/// Removing the leading `c`s leaves what follows the first `k` characters
/// where those are `c` and the next one, if any, is not.
proof fn lemma_without_leading(s: Seq<char>, c: char, k: int)
    requires
        0 <= k <= s.len(),
        forall|i: int| 0 <= i < k ==> #[trigger] s[i] == c,
        k == s.len() || s[k] != c,
    ensures
        without_leading(s, c) == s.skip(k),
    decreases k,
{
    if k > 0 {
        let t = s.drop_first();
        assert forall|i: int| 0 <= i < k - 1 implies #[trigger] t[i] == c by {
            assert(t[i] == s[i + 1]);
        }
        lemma_without_leading(t, c, k - 1);
        assert(t.skip(k - 1) =~= s.skip(k));
    } else {
        assert(s.skip(0) =~= s);
    }
}

/// The lowercase form of `s`, as `str::to_lowercase` gives it. Nothing is
/// claimed of the form but that it is a function of the text.
#[verifier::external_body]
pub(crate) fn to_lowercase(s: &str) -> (out: String)
    ensures
        out@ == lowercase(s@),
{
    s.to_lowercase()
}

/// Whether `c` is a letter or a number, as `char::is_alphanumeric` tells.
#[verifier::external_body]
pub(crate) fn char_is_alphanumeric(c: char) -> (out: bool)
    ensures
        out == is_alphanumeric(c),
{
    c.is_alphanumeric()
}

/// The characters of `s`, in order, as a vector that can be indexed in
/// constant time.
pub fn chars_of(s: &str) -> (out: Vec<char>)
    ensures
        out@ == s@,
{
    let mut out: Vec<char> = Vec::new();
    for c in it: s.chars()
        invariant
            it.seq() == s@,
            out@ == it.seq().take(it.index() as int),
    {
        out.push(c);
    }
    out
}

/// Whether `c` is Unicode whitespace.
pub fn is_space_char(c: char) -> (b: bool)
    ensures
        b == is_space(c),
{
    let n: u32 = c as u32;
    (0x09 <= n && n <= 0x0D) || n == 0x20 || n == 0x85 || n == 0xA0 || n == 0x1680 || (0x2000 <= n
        && n <= 0x200A) || n == 0x2028 || n == 0x2029 || n == 0x202F || n == 0x205F || n == 0x3000
}

/// `s` without leading and trailing whitespace, as a slice of `s`.
pub fn trim<'a>(s: &'a str) -> (out: &'a str)
    ensures
        out@ == trimmed(s@),
{
    let chars = chars_of(s);
    let n: usize = chars.len();
    let mut from: usize = 0;
    while from < n && is_space_char(chars[from])
        invariant
            from <= n,
            n == chars@.len(),
            forall|i: int| 0 <= i < from ==> is_space(#[trigger] chars@[i]),
        decreases n - from,
    {
        from += 1;
    }
    let mut to: usize = n;
    while to > 0 && is_space_char(chars[to - 1])
        invariant
            to <= n,
            n == chars@.len(),
            forall|i: int| to <= i < n ==> is_space(#[trigger] chars@[i]),
        decreases to,
    {
        to -= 1;
    }
    proof {
        lemma_leading_spaces(s@, from as int);
        lemma_trailing_spaces(s@, n - to);
    }
    if from < to {
        s.substring_char(from, to)
    } else {
        let e = s.substring_char(0, 0);
        assert(e@ =~= Seq::<char>::empty());
        e
    }
}

/// Whether `s` is empty or made of whitespace only.
pub fn is_blank_text(s: &str) -> (out: bool)
    ensures
        out == is_blank(s@),
{
    trim(s).unicode_len() == 0
}

/// Whether `s` begins with `prefix`.
pub fn starts_with(s: &str, prefix: &str) -> (b: bool)
    ensures
        b == prefix@.is_prefix_of(s@),
{
    let a = chars_of(s);
    let p = chars_of(prefix);
    if p.len() > a.len() {
        return false;
    }
    let mut i: usize = 0;
    while i < p.len()
        invariant
            i <= p.len() <= a.len(),
            a@ == s@,
            p@ == prefix@,
            forall|j: int| 0 <= j < i ==> a@[j] == p@[j],
        decreases p.len() - i,
    {
        if a[i] != p[i] {
            return false;
        }
        i += 1;
    }
    assert(s@.subrange(0, prefix@.len() as int) =~= prefix@);
    true
}

/// Whether the character `c` occurs in `s`.
pub fn contains_char(s: &str, c: char) -> (b: bool)
    ensures
        b == s@.contains(c),
{
    let a = chars_of(s);
    let mut i: usize = 0;
    while i < a.len()
        invariant
            i <= a.len(),
            a@ == s@,
            forall|j: int| 0 <= j < i ==> a@[j] != c,
        decreases a.len() - i,
    {
        if a[i] == c {
            return true;
        }
        i += 1;
    }
    false
}

/// Whether `pat` occurs in `s` as a contiguous run of characters.
pub fn contains(s: &str, pat: &str) -> (b: bool)
    ensures
        b == contains_text(s@, pat@),
{
    let a = chars_of(s);
    let p = chars_of(pat);
    if p.len() > a.len() {
        return false;
    }
    let last: usize = a.len() - p.len();
    let mut i: usize = 0;
    while i <= last
        invariant
            i <= last + 1,
            last == a.len() - p.len(),
            a@ == s@,
            p@ == pat@,
            forall|k: int| 0 <= k < i ==> !occurs_at(s@, pat@, k),
        decreases last + 1 - i,
    {
        let mut j: usize = 0;
        let mut same: bool = true;
        while j < p.len() && same
            invariant
                j <= p.len(),
                i + p.len() <= a.len(),
                same ==> forall|k: int| 0 <= k < j ==> a@[i + k] == p@[k],
                !same ==> exists|k: int| 0 <= k < p.len() && a@[i + k] != p@[k],
            decreases p.len() - j + if same { 1int } else { 0int },
        {
            if a[i + j] != p[j] {
                same = false;
            } else {
                j += 1;
            }
        }
        if same {
            assert(a@.subrange(i as int, i + p.len()) =~= p@);
            assert(occurs_at(s@, pat@, i as int));
            return true;
        }
        proof {
            let k = choose|k: int| 0 <= k < p.len() && a@[i + k] != p@[k];
            assert(a@.subrange(i as int, i + p.len())[k] == a@[i + k]);
        }
        i += 1;
    }
    false
}

/// The first `n` characters of `s`, or all of `s` when it is shorter.
pub fn take_chars<'a>(s: &'a str, n: usize) -> (out: &'a str)
    ensures
        out@ == prefix_of_len(s@, n as nat),
{
    let len: usize = s.unicode_len();
    if len <= n {
        s
    } else {
        s.substring_char(0, n)
    }
}

/// `s` with every leading occurrence of `c` removed, as a slice of `s`.
pub fn strip_leading<'a>(s: &'a str, c: char) -> (out: &'a str)
    ensures
        out@ == without_leading(s@, c),
{
    let a = chars_of(s);
    let mut k: usize = 0;
    while k < a.len() && a[k] == c
        invariant
            k <= a.len(),
            a@ == s@,
            forall|i: int| 0 <= i < k ==> #[trigger] a@[i] == c,
        decreases a.len() - k,
    {
        k += 1;
    }
    proof {
        lemma_without_leading(s@, c, k as int);
    }
    s.substring_char(k, a.len())
}

/// `s` with every leading occurrence of the text `prefix` removed, as a
/// slice of `s`.
pub fn strip_prefix<'a>(s: &'a str, prefix: &str) -> (out: &'a str)
    ensures
        out@ == without_prefix(s@, prefix@),
{
    let a = chars_of(s);
    let p = chars_of(prefix);
    if p.len() == 0 {
        return s;
    }
    let mut from: usize = 0;
    assert(s@.skip(0) =~= s@);
    loop
        invariant
            from <= a.len(),
            a@ == s@,
            p@ == prefix@,
            p.len() > 0,
            without_prefix(s@, prefix@) == without_prefix(s@.skip(from as int), prefix@),
        ensures
            from <= a.len(),
            without_prefix(s@, prefix@) == s@.skip(from as int),
        decreases a.len() - from,
    {
        if a.len() - from < p.len() {
            break ;
        }
        let mut j: usize = 0;
        let mut same: bool = true;
        while j < p.len() && same
            invariant
                j <= p.len(),
                from + p.len() <= a.len(),
                same ==> forall|k: int| 0 <= k < j ==> a@[from + k] == p@[k],
                !same ==> exists|k: int| 0 <= k < p.len() && a@[from + k] != p@[k],
            decreases p.len() - j + if same { 1int } else { 0int },
        {
            if a[from + j] != p[j] {
                same = false;
            } else {
                j += 1;
            }
        }
        let ghost rest = s@.skip(from as int);
        if !same {
            proof {
                let k = choose|k: int| 0 <= k < p.len() && a@[from + k] != p@[k];
                assert(rest[k] == a@[from + k]);
                assert(rest.subrange(0, p@.len() as int)[k] == rest[k]);
            }
            break ;
        }
        proof {
            assert(rest.subrange(0, p@.len() as int) =~= p@);
            assert(rest.skip(p@.len() as int) =~= s@.skip(from + p.len()));
        }
        from += p.len();
    }
    let out = s.substring_char(from, a.len());
    assert(out@ =~= s@.skip(from as int));
    out
}

/// The characters of `chars` from `from` up to `to`, as a text.
pub fn text_of(chars: &Vec<char>, from: usize, to: usize) -> (out: String)
    requires
        from <= to <= chars.len(),
    ensures
        out@ == chars@.subrange(from as int, to as int),
{
    let mut out = String::new();
    let mut i: usize = from;
    while i < to
        invariant
            from <= i <= to <= chars.len(),
            out@ == chars@.subrange(from as int, i as int),
        decreases to - i,
    {
        out.push(chars[i]);
        assert(chars@.subrange(from as int, i as int).push(chars@[i as int]) =~= chars@.subrange(
            from as int,
            i + 1,
        ));
        i += 1;
    }
    out
}

/// The lines of `s`.
pub fn split_lines(s: &str) -> (out: Vec<String>)
    ensures
        out.deep_view() == lines_of(s@),
{
    let chars = chars_of(s);
    let n: usize = chars.len();
    let mut out: Vec<String> = Vec::new();
    let mut from: usize = 0;
    assert(out.deep_view() =~= Seq::empty());
    assert(s@.skip(0) =~= s@);
    while from < n
        invariant
            from <= n,
            n == chars.len(),
            chars@ == s@,
            lines_of(s@) == out.deep_view() + lines_of(s@.skip(from as int)),
        decreases n - from,
    {
        let mut end: usize = from;
        while end < n && chars[end] != '\n'
            invariant
                from <= end <= n,
                n == chars.len(),
                forall|i: int| from <= i < end ==> #[trigger] chars@[i] != '\n',
            decreases n - end,
        {
            end += 1;
        }
        let ghost rest = s@.skip(from as int);
        let ghost before = out.deep_view();
        proof {
            assert forall|i: int| 0 <= i < end - from implies #[trigger] rest[i] != '\n' by {
                assert(rest[i] == chars@[from + i]);
            }
            lemma_first_index_of(rest, '\n', end - from);
        }
        if end == n {
            out.push(text_of(&chars, from, n));
            proof {
                assert(chars@.subrange(from as int, n as int) =~= rest);
                assert(out.deep_view() =~= before.push(rest));
                assert(s@.skip(n as int) =~= Seq::<char>::empty());
                assert(before + seq![rest] =~= before.push(rest));
                assert(before.push(rest) + lines_of(s@.skip(n as int)) =~= before.push(rest));
            }
            from = n;
        } else {
            let stop: usize = if end > from && chars[end - 1] == '\r' {
                end - 1
            } else {
                end
            };
            out.push(text_of(&chars, from, stop));
            proof {
                let line = rest.take(end - from);
                assert(line =~= chars@.subrange(from as int, end as int));
                assert(without_carriage_return(line) =~= chars@.subrange(
                    from as int,
                    stop as int,
                ));
                assert(rest.skip(end - from + 1) =~= s@.skip(end + 1));
                assert(out.deep_view() =~= before.push(without_carriage_return(line)));
                assert(before + (seq![without_carriage_return(line)] + lines_of(
                    s@.skip(end + 1),
                )) =~= before.push(without_carriage_return(line)) + lines_of(s@.skip(end + 1)));
            }
            from = end + 1;
        }
    }
    assert(s@.skip(from as int) =~= Seq::<char>::empty());
    assert(out.deep_view() + Seq::<Seq<char>>::empty() =~= out.deep_view());
    out
}

/// The words of `s`.
pub fn split_words(s: &str) -> (out: Vec<String>)
    ensures
        out.deep_view() == words_of(s@),
{
    let chars = chars_of(s);
    let n: usize = chars.len();
    let mut out: Vec<String> = Vec::new();
    let mut at: usize = 0;
    assert(out.deep_view() =~= Seq::empty());
    assert(s@.skip(0) =~= s@);
    loop
        invariant
            at <= n,
            n == chars.len(),
            chars@ == s@,
            words_of(s@) == out.deep_view() + words_of(s@.skip(at as int)),
        ensures
            words_of(s@) == out.deep_view(),
        decreases n - at,
    {
        let mut from: usize = at;
        while from < n && is_space_char(chars[from])
            invariant
                at <= from <= n,
                n == chars.len(),
                forall|i: int| at <= i < from ==> is_space(#[trigger] chars@[i]),
            decreases n - from,
        {
            from += 1;
        }
        let mut to: usize = from;
        while to < n && !is_space_char(chars[to])
            invariant
                from <= to <= n,
                n == chars.len(),
                forall|i: int| from <= i < to ==> !is_space(#[trigger] chars@[i]),
            decreases n - to,
        {
            to += 1;
        }
        let ghost rest = s@.skip(at as int);
        let ghost before = out.deep_view();
        proof {
            assert forall|i: int| 0 <= i < from - at implies is_space(#[trigger] rest[i]) by {
                assert(rest[i] == chars@[at + i]);
            }
            lemma_leading_spaces(rest, from - at);
            let tail = rest.skip(from - at);
            assert(tail =~= s@.skip(from as int));
            assert forall|i: int| 0 <= i < to - from implies !is_space(#[trigger] tail[i]) by {
                assert(tail[i] == chars@[from + i]);
            }
            lemma_leading_word(tail, to - from);
        }
        if from == to {
            proof {
                assert(before + Seq::<Seq<char>>::empty() =~= before);
            }
            break ;
        }
        out.push(text_of(&chars, from, to));
        proof {
            let word = rest.subrange(from - at, to - at);
            assert(word =~= chars@.subrange(from as int, to as int));
            assert(rest.skip(to - at) =~= s@.skip(to as int));
            assert(out.deep_view() =~= before.push(word));
            assert(before + (seq![word] + words_of(s@.skip(to as int))) =~= before.push(word)
                + words_of(s@.skip(to as int)));
        }
        at = to;
    }
    out
}

/// `s` with every trailing occurrence of the text `suffix` removed, as a
/// slice of `s`.
pub fn strip_suffix<'a>(s: &'a str, suffix: &str) -> (out: &'a str)
    ensures
        out@ == without_suffix(s@, suffix@),
{
    let a = chars_of(s);
    let p = chars_of(suffix);
    if p.len() == 0 {
        return s;
    }
    let mut to: usize = a.len();
    assert(s@.take(to as int) =~= s@);
    loop
        invariant
            to <= a.len(),
            a@ == s@,
            p@ == suffix@,
            p.len() > 0,
            without_suffix(s@, suffix@) == without_suffix(s@.take(to as int), suffix@),
        ensures
            to <= a.len(),
            without_suffix(s@, suffix@) == s@.take(to as int),
        decreases to,
    {
        if to < p.len() {
            break ;
        }
        let start: usize = to - p.len();
        let mut j: usize = 0;
        let mut same: bool = true;
        while j < p.len() && same
            invariant
                j <= p.len(),
                start + p.len() == to,
                to <= a.len(),
                same ==> forall|k: int| 0 <= k < j ==> a@[start + k] == p@[k],
                !same ==> exists|k: int| 0 <= k < p.len() && a@[start + k] != p@[k],
            decreases p.len() - j + if same { 1int } else { 0int },
        {
            if a[start + j] != p[j] {
                same = false;
            } else {
                j += 1;
            }
        }
        let ghost head = s@.take(to as int);
        if !same {
            proof {
                let k = choose|k: int| 0 <= k < p.len() && a@[start + k] != p@[k];
                assert(head.skip(head.len() - p@.len())[k] == a@[start + k]);
            }
            break ;
        }
        proof {
            assert(head.skip(head.len() - p@.len()) =~= p@);
            assert(head.take(head.len() - p@.len()) =~= s@.take(start as int));
        }
        to = start;
    }
    let out = s.substring_char(0, to);
    assert(out@ =~= s@.take(to as int));
    out
}

/// The texts of `parts` from index `from` on, with `separator` between each
/// two.
pub fn join_from(parts: &Vec<String>, from: usize, separator: &str) -> (out: String)
    requires
        from <= parts.len(),
    ensures
        out@ == joined(parts.deep_view().skip(from as int), separator@),
{
    let ghost all = parts.deep_view().skip(from as int);
    let mut out = String::new();
    let mut i: usize = from;
    assert(all.take(0) =~= Seq::<Seq<char>>::empty());
    while i < parts.len()
        invariant
            from <= i <= parts.len(),
            all == parts.deep_view().skip(from as int),
            out@ == joined(all.take(i - from), separator@),
        decreases parts.len() - i,
    {
        proof {
            assert(all.take(i - from + 1).drop_last() =~= all.take(i - from));
            assert(all.take(i - from + 1).last() == parts@[i as int]@);
            assert(all.take(1)[0] == all[0]);
        }
        if i > from {
            out.append(separator);
        }
        out.append(parts[i].as_str());
        proof {
            if i == from {
                assert(Seq::<char>::empty() + parts@[i as int]@ =~= parts@[i as int]@);
            }
        }
        i += 1;
    }
    assert(all.take(i - from) =~= all);
    out
}

/// The decimal digit character for `d`.
fn digit(d: u8) -> (c: char)
    requires
        d <= 9,
    ensures
        c == digit_char(d as int),
{
    if d == 0 {
        '0'
    } else if d == 1 {
        '1'
    } else if d == 2 {
        '2'
    } else if d == 3 {
        '3'
    } else if d == 4 {
        '4'
    } else if d == 5 {
        '5'
    } else if d == 6 {
        '6'
    } else if d == 7 {
        '7'
    } else if d == 8 {
        '8'
    } else {
        '9'
    }
}

/// Appends the decimal rendering of `n` to `out`.
pub fn push_decimal(out: &mut String, n: u64)
    ensures
        final(out)@ == old(out)@ + decimal(n as nat),
    decreases n,
{
    if n < 10 {
        out.push(digit(n as u8));
        assert(old(out)@.push(digit_char(n as int)) =~= old(out)@ + decimal(n as nat));
    } else {
        push_decimal(out, n / 10);
        out.push(digit((n % 10) as u8));
        assert((old(out)@ + decimal((n / 10) as nat)).push(digit_char((n % 10) as int)) =~= old(
            out,
        )@ + decimal(n as nat));
    }
}

/// The decimal rendering of `n`.
pub fn to_decimal(n: u64) -> (out: String)
    ensures
        out@ == decimal(n as nat),
{
    let mut out = String::new();
    push_decimal(&mut out, n);
    assert(Seq::<char>::empty() + decimal(n as nat) =~= decimal(n as nat));
    out
}

} // verus!
