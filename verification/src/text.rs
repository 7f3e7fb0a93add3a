//! Text: characters, searching, trimming, decimal numbers.
use vstd::prelude::*;
use vstd::string::*;
use vstd::utf8::*;

verus! {

broadcast use vstd::string::group_string_axioms;

/// `String::push` appends one character.
pub assume_specification[ String::push ](s: &mut String, c: char)
    ensures
        final(s)@ == old(s)@.push(c),
;

/// What `str::to_lowercase` makes of a text, after the Unicode tables.
pub uninterp spec fn lowercase(s: Seq<char>) -> Seq<char>;

/// `str::to_lowercase`: its result is named, not described.
#[verifier::external_body]
pub(crate) fn to_lowercase(s: &str) -> (r: String)
    ensures
        r@ == lowercase(s@),
{
    s.to_lowercase()
}

/// What `String::from_utf8_lossy` makes of bytes that need not be UTF-8.
pub uninterp spec fn lossy(bytes: Seq<u8>) -> Seq<char>;

/// `String::from_utf8_lossy`: bytes that are UTF-8 are decoded; what stands for the others is
/// named only.
#[verifier::external_body]
pub(crate) fn from_utf8_lossy(bytes: &[u8]) -> (r: String)
    ensures
        r@ == lossy(bytes@),
        valid_utf8(bytes@) ==> r@ == decode_utf8(bytes@),
{
    String::from_utf8_lossy(bytes).into_owned()
}

/// The code point of a character.
pub fn code_point(c: char) -> (u: u32)
    ensures
        u as int == c as int,
{
    proof {
        char_is_scalar(c);
    }
    c as u32
}

/// The characters of a text, one by one.
pub fn chars_of(s: &str) -> (r: Vec<char>)
    ensures
        r@ == s@,
{
    let mut r: Vec<char> = Vec::new();
    for c in it: s.chars()
        invariant
            r@ == it.seq().take(it.index()),
            it.seq() == s@,
    {
        r.push(c);
    }
    r
}

/// The text made of the characters `from..to`.
pub fn text_of(chars: &Vec<char>, from: usize, to: usize) -> (r: String)
    requires
        from <= to <= chars@.len(),
    ensures
        r@ == chars@.subrange(from as int, to as int),
{
    let mut r = String::new();
    let mut i: usize = from;
    while i < to
        invariant
            from <= i <= to <= chars@.len(),
            r@ == chars@.subrange(from as int, i as int),
        decreases to - i,
    {
        r.push(chars[i]);
        i += 1;
    }
    r
}

/// Whether two texts are the same.
pub fn same_text(a: &str, b: &str) -> (r: bool)
    ensures
        r == (a@ == b@),
{
    let x = a.as_bytes();
    let y = b.as_bytes();
    proof {
        encode_utf8_decode_utf8(a@);
        encode_utf8_decode_utf8(b@);
    }
    if x.len() != y.len() {
        return false;
    }
    let mut i: usize = 0;
    while i < x.len()
        invariant
            i <= x@.len(),
            x@.len() == y@.len(),
            x@ == encode_utf8(a@),
            y@ == encode_utf8(b@),
            x@.take(i as int) == y@.take(i as int),
        decreases x@.len() - i,
    {
        if x[i] != y[i] {
            assert(x@ != y@);
            return false;
        }
        assert(x@.take(i + 1) == x@.take(i as int).push(x@[i as int]));
        assert(y@.take(i + 1) == y@.take(i as int).push(y@[i as int]));
        i += 1;
    }
    assert(x@.take(i as int) == x@);
    assert(y@.take(i as int) == y@);
    true
}

/// Whether two texts that may be missing are both missing or the same.
pub fn same_option(a: &Option<String>, b: &Option<String>) -> (r: bool)
    ensures
        r == (option_text(*a) == option_text(*b)),
{
    match (a, b) {
        (Some(x), Some(y)) => same_text(x.as_str(), y.as_str()),
        (None, None) => true,
        _ => false,
    }
}

/// The characters of a text that may be missing.
pub open spec fn option_text(s: Option<String>) -> Option<Seq<char>> {
    match s {
        Some(t) => Some(t@),
        None => None,
    }
}

/// Texts, by their characters.
pub open spec fn texts(list: Seq<String>) -> Seq<Seq<char>> {
    list.map_values(|s: String| s@)
}

// ---- searching ----

/// Whether `part` stands in `s` from position `i` on.
pub open spec fn occurs_at(s: Seq<char>, part: Seq<char>, i: int) -> bool {
    &&& 0 <= i
    &&& i + part.len() <= s.len()
    &&& s.subrange(i, i + part.len()) == part
}

/// Whether `part` stands anywhere in `s`.
pub open spec fn contains_text(s: Seq<char>, part: Seq<char>) -> bool {
    exists|i: int| occurs_at(s, part, i)
}

/// Whether `s` begins with `part`.
pub open spec fn begins_with(s: Seq<char>, part: Seq<char>) -> bool {
    occurs_at(s, part, 0)
}

fn stands_at(s: &Vec<char>, part: &Vec<char>, i: usize) -> (r: bool)
    requires
        i + part@.len() <= s@.len(),
    ensures
        r == occurs_at(s@, part@, i as int),
{
    let mut k: usize = 0;
    let n: usize = s.len();
    while k < part.len()
        invariant
            k <= part@.len(),
            n == s@.len(),
            i + part@.len() <= s@.len(),
            s@.subrange(i as int, i + k) == part@.take(k as int),
        decreases part@.len() - k,
    {
        if s[i + k] != part[k] {
            proof {
                if s@.subrange(i as int, i + part@.len()) == part@ {
                    assert(s@.subrange(i as int, i + part@.len())[k as int] == s@[i + k]);
                }
            }
            return false;
        }
        assert(s@.subrange(i as int, i + k + 1) == s@.subrange(i as int, i + k).push(s@[i + k]));
        assert(part@.take(k + 1) == part@.take(k as int).push(part@[k as int]));
        k += 1;
    }
    assert(part@.take(k as int) == part@);
    true
}

/// Whether `part` stands anywhere in `s`.
pub fn contains(s: &str, part: &str) -> (r: bool)
    ensures
        r == contains_text(s@, part@),
{
    let a = chars_of(s);
    let b = chars_of(part);
    if b.len() > a.len() {
        return false;
    }
    let mut i: usize = 0;
    while i <= a.len() - b.len()
        invariant
            i <= a@.len() - b@.len() + 1,
            b@.len() <= a@.len(),
            a@ == s@,
            b@ == part@,
            forall|j: int| 0 <= j < i ==> !occurs_at(a@, b@, j),
        decreases a@.len() - b@.len() + 1 - i,
    {
        if stands_at(&a, &b, i) {
            return true;
        }
        if i == a.len() - b.len() {
            return false;
        }
        i += 1;
    }
    false
}

/// Whether `s` begins with `part`.
pub fn starts_with(s: &str, part: &str) -> (r: bool)
    ensures
        r == begins_with(s@, part@),
{
    let a = chars_of(s);
    let b = chars_of(part);
    b.len() <= a.len() && stands_at(&a, &b, 0)
}

/// A text stands in another exactly where the other can be cut into what comes before, the text, and
/// what comes after.
pub proof fn contained_texts_can_be_cut_out(s: Seq<char>, a: Seq<char>, part: Seq<char>, b: Seq<char>)
    ensures
        contains_text(a + part + b, part),
        contains_text(s, part) ==> exists|i: int|
            0 <= i <= s.len() - part.len() && #[trigger] s.take(i) + part + s.skip(
                i + part.len(),
            ) == s,
{
    let all = a + part + b;
    assert(all.subrange(a.len() as int, a.len() as int + part.len()) =~= part);
    assert(occurs_at(all, part, a.len() as int));
    if contains_text(s, part) {
        let i = choose|i: int| occurs_at(s, part, i);
        assert(s.take(i) + part + s.skip(i + part.len()) =~= s) by {
            assert forall|k: int| 0 <= k < part.len() implies s[i + k] == #[trigger] part[k] by {
                assert(s.subrange(i, i + part.len())[k] == s[i + k]);
            }
        }
    }
}

/// A text begins with another exactly where it is the other with something after it.
pub proof fn beginnings_can_be_cut_off(s: Seq<char>, part: Seq<char>, b: Seq<char>)
    ensures
        begins_with(part + b, part),
        begins_with(s, part) ==> part.len() <= s.len() && part + s.skip(part.len() as int) == s,
{
    assert((part + b).subrange(0, part.len() as int) =~= part);
    if begins_with(s, part) {
        assert(part + s.skip(part.len() as int) =~= s) by {
            assert forall|k: int| 0 <= k < part.len() implies s[k] == #[trigger] part[k] by {
                assert(s.subrange(0, part.len() as int)[k] == s[k]);
            }
        }
    }
}

// ---- order ----

/// Whether `a` comes strictly before `b`: the first character that differs decides, and a
/// proper beginning comes before what continues it.
pub open spec fn comes_before(a: Seq<char>, b: Seq<char>) -> bool
    decreases a.len(),
{
    if b.len() == 0 {
        false
    } else if a.len() == 0 {
        true
    } else if a[0] != b[0] {
        (a[0] as int) < (b[0] as int)
    } else {
        comes_before(a.skip(1), b.skip(1))
    }
}

/// Whether `a` comes strictly before `b` in the order of their characters.
pub fn text_before(a: &str, b: &str) -> (r: bool)
    ensures
        r == comes_before(a@, b@),
{
    let x = chars_of(a);
    let y = chars_of(b);
    let mut i: usize = 0;
    assert(x@.skip(0) == a@);
    assert(y@.skip(0) == b@);
    while i < x.len() && i < y.len()
        invariant
            i <= x@.len(),
            i <= y@.len(),
            comes_before(a@, b@) == comes_before(x@.skip(i as int), y@.skip(i as int)),
        decreases x@.len() - i,
    {
        if x[i] != y[i] {
            return code_point(x[i]) < code_point(y[i]);
        }
        assert(x@.skip(i as int).skip(1) == x@.skip(i + 1));
        assert(y@.skip(i as int).skip(1) == y@.skip(i + 1));
        i += 1;
    }
    i < y.len()
}

/// The order of texts is total: of two different texts one comes first.
pub proof fn lemma_before_total(a: Seq<char>, b: Seq<char>)
    ensures
        comes_before(a, b) || comes_before(b, a) || a == b,
        !(comes_before(a, b) && comes_before(b, a)),
    decreases a.len(),
{
    if a.len() > 0 && b.len() > 0 && a[0] == b[0] {
        lemma_before_total(a.skip(1), b.skip(1));
        if a.skip(1) == b.skip(1) {
            assert(a == seq![a[0]] + a.skip(1));
            assert(b == seq![b[0]] + b.skip(1));
        }
    } else if a.len() == 0 && b.len() == 0 {
        assert(a == b);
    }
}

/// The order of texts is transitive.
pub proof fn lemma_before_transitive(a: Seq<char>, b: Seq<char>, c: Seq<char>)
    requires
        comes_before(a, b),
        comes_before(b, c),
    ensures
        comes_before(a, c),
    decreases a.len(),
{
    if a.len() > 0 && a[0] == b[0] && b[0] == c[0] {
        lemma_before_transitive(a.skip(1), b.skip(1), c.skip(1));
    }
}

/// The first character that differs decides about the order, by its code point; and what goes on
/// comes after what stops there.
pub proof fn first_difference_decides(
    start: Seq<char>,
    x: char,
    y: char,
    a: Seq<char>,
    b: Seq<char>,
)
    requires
        x != y,
    ensures
        comes_before(start + seq![x] + a, start + seq![y] + b) <==> (x as int) < (y as int),
        comes_before(start, start + seq![x] + a),
        !comes_before(start + seq![x] + a, start),
    decreases start.len(),
{
    let left = start + seq![x] + a;
    let right = start + seq![y] + b;
    if start.len() > 0 {
        let rest = start.skip(1);
        first_difference_decides(rest, x, y, a, b);
        assert(left.skip(1) =~= rest + seq![x] + a);
        assert(right.skip(1) =~= rest + seq![y] + b);
        assert(left[0] == start[0]);
        assert(right[0] == start[0]);
    } else {
        assert(left[0] == x);
        assert(right[0] == y);
    }
}

// ---- white space ----

/// The characters with the Unicode property White_Space.
pub open spec fn is_white(c: char) -> bool {
    let u = c as int;
    ||| 0x09 <= u <= 0x0D
    ||| u == 0x20
    ||| u == 0x85
    ||| u == 0xA0
    ||| u == 0x1680
    ||| 0x2000 <= u <= 0x200A
    ||| u == 0x2028
    ||| u == 0x2029
    ||| u == 0x202F
    ||| u == 0x205F
    ||| u == 0x3000
}

/// Whether a character is white space.
pub fn white(c: char) -> (r: bool)
    ensures
        r == is_white(c),
{
    let u: u32 = code_point(c);
    (0x09 <= u && u <= 0x0D) || u == 0x20 || u == 0x85 || u == 0xA0 || u == 0x1680 || (0x2000 <= u
        && u <= 0x200A) || u == 0x2028 || u == 0x2029 || u == 0x202F || u == 0x205F || u == 0x3000
}

/// `s` without the white space that it begins with.
pub open spec fn trim_front(s: Seq<char>) -> Seq<char>
    decreases s.len(),
{
    if s.len() > 0 && is_white(s[0]) {
        trim_front(s.skip(1))
    } else {
        s
    }
}

/// `s` without the white space that it ends with.
pub open spec fn trim_back(s: Seq<char>) -> Seq<char>
    decreases s.len(),
{
    if s.len() > 0 && is_white(s.last()) {
        trim_back(s.drop_last())
    } else {
        s
    }
}

/// `s` without white space around it.
pub open spec fn trimmed(s: Seq<char>) -> Seq<char> {
    trim_back(trim_front(s))
}

/// Whether a text is white space only.
pub open spec fn all_white(s: Seq<char>) -> bool {
    forall|i: int| 0 <= i < s.len() ==> is_white(#[trigger] s[i])
}

/// Whether a text neither begins nor ends with white space.
pub open spec fn is_tight(s: Seq<char>) -> bool {
    s.len() > 0 ==> !is_white(s[0]) && !is_white(s.last())
}

proof fn lemma_trim_front_of(a: Seq<char>, s: Seq<char>)
    requires
        all_white(a),
    ensures
        trim_front(a + s) == trim_front(s),
    decreases a.len(),
{
    if a.len() > 0 {
        assert((a + s).skip(1) =~= a.skip(1) + s);
        assert((a + s)[0] == a[0]);
        assert forall|i: int| 0 <= i < a.skip(1).len() implies is_white(
            #[trigger] a.skip(1)[i],
        ) by {
            assert(a.skip(1)[i] == a[i + 1]);
        }
        lemma_trim_front_of(a.skip(1), s);
    } else {
        assert(a + s =~= s);
    }
}

proof fn lemma_trim_back_of(s: Seq<char>, b: Seq<char>)
    requires
        all_white(b),
    ensures
        trim_back(s + b) == trim_back(s),
    decreases b.len(),
{
    if b.len() > 0 {
        assert((s + b).drop_last() =~= s + b.drop_last());
        assert((s + b).last() == b[b.len() - 1]);
        assert forall|i: int| 0 <= i < b.drop_last().len() implies is_white(
            #[trigger] b.drop_last()[i],
        ) by {
            assert(b.drop_last()[i] == b[i]);
        }
        lemma_trim_back_of(s, b.drop_last());
    } else {
        assert(s + b =~= s);
    }
}

/// Trimming takes the white space away that stands around a text, all of it and nothing else.
pub proof fn trimming_takes_white_space_away(a: Seq<char>, s: Seq<char>, b: Seq<char>)
    requires
        all_white(a),
        all_white(b),
        is_tight(s),
    ensures
        trimmed(a + s + b) == s,
{
    assert(a + s + b =~= a + (s + b));
    lemma_trim_front_of(a, s + b);
    if s.len() == 0 {
        assert(s + b =~= b + s);
        lemma_trim_front_of(b, s);
        assert(trim_front(s) == s);
        assert(trim_back(s) == s);
    } else {
        assert((s + b)[0] == s[0]);
        lemma_trim_back_of(s, b);
    }
}

proof fn lemma_something_is_left(s: Seq<char>, i: int)
    requires
        0 <= i < s.len(),
        !is_white(s[i]),
    ensures
        trim_back(s).len() > 0,
        trim_front(s).len() > 0,
        exists|k: int| 0 <= k < trim_front(s).len() && !is_white(#[trigger] trim_front(s)[k]),
    decreases s.len(),
{
    if is_white(s[0]) {
        assert(s.skip(1)[i - 1] == s[i]);
        lemma_something_is_left(s.skip(1), i - 1);
    } else {
        assert(!is_white(trim_front(s)[i]));
    }
    if is_white(s.last()) {
        assert(s.drop_last()[i] == s[i]);
        lemma_something_is_left(s.drop_last(), i);
    }
}

/// Trimming leaves nothing exactly where there is nothing but white space.
pub proof fn blank_texts_trim_to_nothing(s: Seq<char>)
    ensures
        trimmed(s).len() == 0 <==> all_white(s),
{
    if all_white(s) {
        trimming_takes_white_space_away(s, Seq::empty(), Seq::empty());
        assert(s + Seq::<char>::empty() + Seq::<char>::empty() =~= s);
    } else {
        let i = choose|i: int| 0 <= i < s.len() && !is_white(#[trigger] s[i]);
        lemma_something_is_left(s, i);
        let t = trim_front(s);
        let k = choose|k: int| 0 <= k < t.len() && !is_white(#[trigger] t[k]);
        lemma_something_is_left(t, k);
    }
}

/// Among the ASCII characters white space is the blank, the tabs, and the breaks of lines and pages.
pub proof fn ascii_white_space(c: char)
    requires
        (c as int) < 128,
    ensures
        is_white(c) <==> c == ' ' || c == '\t' || c == '\n' || c == '\r' || c as int == 11 || c as int
            == 12,
{
}

/// `s` without white space around it.
pub fn trim(s: &str) -> (r: String)
    ensures
        r@ == trimmed(s@),
{
    let a = chars_of(s);
    let mut lo: usize = 0;
    assert(a@.skip(0) == s@);
    while lo < a.len() && white(a[lo])
        invariant
            lo <= a@.len(),
            trim_front(s@) == trim_front(a@.skip(lo as int)),
        decreases a@.len() - lo,
    {
        assert(a@.skip(lo as int).skip(1) == a@.skip(lo + 1));
        lo += 1;
    }
    let mut hi: usize = a.len();
    let ghost front = a@.skip(lo as int);
    assert(trim_front(s@) == front);
    assert(front == a@.subrange(lo as int, hi as int));
    while lo < hi && white(a[hi - 1])
        invariant
            lo <= hi <= a@.len(),
            trim_back(front) == trim_back(a@.subrange(lo as int, hi as int)),
        decreases hi,
    {
        assert(a@.subrange(lo as int, hi as int).drop_last() == a@.subrange(lo as int, hi - 1));
        hi -= 1;
    }
    text_of(&a, lo, hi)
}

/// `s` without the characters `c` that it ends with.
pub open spec fn without_trailing(s: Seq<char>, c: char) -> Seq<char>
    decreases s.len(),
{
    if s.len() > 0 && s.last() == c {
        without_trailing(s.drop_last(), c)
    } else {
        s
    }
}

/// All characters `c` that stand at the end are taken away, and nothing else.
pub proof fn trailing_characters_are_taken_away(s: Seq<char>, c: char, n: nat)
    requires
        s.len() > 0 ==> s.last() != c,
    ensures
        without_trailing(s + Seq::new(n, |i: int| c), c) == s,
    decreases n,
{
    let all = s + Seq::new(n, |i: int| c);
    if n > 0 {
        assert(all.drop_last() =~= s + Seq::new((n - 1) as nat, |i: int| c));
        assert(all.last() == c);
        trailing_characters_are_taken_away(s, c, (n - 1) as nat);
    } else {
        assert(all =~= s);
    }
}

/// `s` without the characters `c` that it ends with.
pub fn trim_trailing(s: &str, c: char) -> (r: String)
    ensures
        r@ == without_trailing(s@, c),
{
    let a = chars_of(s);
    let mut hi: usize = a.len();
    assert(a@.take(hi as int) == s@);
    while hi > 0 && a[hi - 1] == c
        invariant
            hi <= a@.len(),
            without_trailing(s@, c) == without_trailing(a@.take(hi as int), c),
        decreases hi,
    {
        assert(a@.take(hi as int).drop_last() == a@.take(hi - 1));
        hi -= 1;
    }
    assert(a@.subrange(0, hi as int) == a@.take(hi as int));
    text_of(&a, 0, hi)
}

/// The word at place `n` of a text, words being separated by white space.
pub open spec fn word(s: Seq<char>, n: nat) -> Option<Seq<char>>
    decreases n,
{
    let t = trim_front(s);
    if t.len() == 0 {
        None
    } else if n == 0 {
        Some(first_word(t))
    } else {
        word(t.skip(first_word(t).len() as int), (n - 1) as nat)
    }
}

/// The longest beginning of `s` without white space.
pub open spec fn first_word(s: Seq<char>) -> Seq<char>
    decreases s.len(),
{
    if s.len() == 0 || is_white(s[0]) {
        Seq::empty()
    } else {
        seq![s[0]] + first_word(s.skip(1))
    }
}

proof fn lemma_first_word(s: Seq<char>, n: int)
    requires
        0 <= n <= s.len(),
        forall|i: int| 0 <= i < n ==> !is_white(#[trigger] s[i]),
        n == s.len() || is_white(s[n]),
    ensures
        first_word(s) == s.take(n),
    decreases n,
{
    if n > 0 {
        assert forall|i: int| 0 <= i < n - 1 implies !is_white(#[trigger] s.skip(1)[i]) by {
            assert(s.skip(1)[i] == s[i + 1]);
        }
        lemma_first_word(s.skip(1), n - 1);
        assert(s.take(n) == seq![s[0]] + s.skip(1).take(n - 1));
    } else {
        assert(s.take(0) == Seq::<char>::empty());
    }
}

/// Whether a text is one word: it is not empty and there is no white space in it.
pub open spec fn is_word(s: Seq<char>) -> bool {
    s.len() > 0 && forall|i: int| 0 <= i < s.len() ==> !is_white(#[trigger] s[i])
}

/// The second word of a text is what stands between the white space after the first word and the
/// next white space, or the end.
pub proof fn second_words_are_found(
    a: Seq<char>,
    first: Seq<char>,
    gap: Seq<char>,
    second: Seq<char>,
    rest: Seq<char>,
)
    requires
        all_white(a),
        is_word(first),
        all_white(gap),
        gap.len() > 0,
        is_word(second),
        rest.len() > 0 ==> is_white(rest[0]),
    ensures
        word(a + first + gap + second + rest, 1) == Some(second),
        word(a + first + gap, 1) is None,
{
    reveal_with_fuel(word, 2);
    let s = a + first + gap + second + rest;
    let t = first + (gap + (second + rest));
    assert(s =~= a + t);
    lemma_trim_front_of(a, t);
    assert(t[0] == first[0]);
    assert forall|i: int| 0 <= i < first.len() implies !is_white(#[trigger] t[i]) by {
        assert(t[i] == first[i]);
    }
    assert(t[first.len() as int] == gap[0]);
    lemma_first_word(t, first.len() as int);
    assert(t.take(first.len() as int) =~= first);
    assert(t.skip(first.len() as int) =~= gap + (second + rest));
    let u = second + rest;
    lemma_trim_front_of(gap, u);
    assert(u[0] == second[0]);
    assert forall|i: int| 0 <= i < second.len() implies !is_white(#[trigger] u[i]) by {
        assert(u[i] == second[i]);
    }
    if rest.len() > 0 {
        assert(u[second.len() as int] == rest[0]);
    }
    lemma_first_word(u, second.len() as int);
    assert(u.take(second.len() as int) =~= second);
    let v = first + gap;
    assert(a + first + gap =~= a + v);
    lemma_trim_front_of(a, v);
    assert(v[0] == first[0]);
    assert forall|i: int| 0 <= i < first.len() implies !is_white(#[trigger] v[i]) by {
        assert(v[i] == first[i]);
    }
    assert(v[first.len() as int] == gap[0]);
    lemma_first_word(v, first.len() as int);
    assert(v.take(first.len() as int) =~= first);
    assert(v.skip(first.len() as int) =~= gap);
    assert(gap + Seq::<char>::empty() =~= gap);
    lemma_trim_front_of(gap, Seq::empty());
}

/// The second word of a text.
pub fn second_word(s: &str) -> (r: Option<String>)
    ensures
        match r {
            Some(w) => word(s@, 1) == Some(w@),
            None => word(s@, 1) is None,
        },
{
    let a = chars_of(s);
    let mut i: usize = 0;
    assert(a@.skip(0) == s@);
    while i < a.len() && white(a[i])
        invariant
            i <= a@.len(),
            trim_front(s@) == trim_front(a@.skip(i as int)),
        decreases a@.len() - i,
    {
        assert(a@.skip(i as int).skip(1) == a@.skip(i + 1));
        i += 1;
    }
    let ghost t = a@.skip(i as int);
    let mut j: usize = i;
    while j < a.len() && !white(a[j])
        invariant
            i <= j <= a@.len(),
            t == a@.skip(i as int),
            forall|k: int| 0 <= k < j - i ==> !is_white(#[trigger] t[k]),
        decreases a@.len() - j,
    {
        assert(t[j - i] == a@[j as int]);
        j += 1;
    }
    proof {
        if t.len() > 0 {
            lemma_first_word(t, j - i);
            assert(t.skip(j - i) == a@.skip(j as int));
        }
    }
    let ghost rest = a@.skip(j as int);
    let mut m: usize = j;
    while m < a.len() && white(a[m])
        invariant
            j <= m <= a@.len(),
            trim_front(rest) == trim_front(a@.skip(m as int)),
        decreases a@.len() - m,
    {
        assert(a@.skip(m as int).skip(1) == a@.skip(m + 1));
        m += 1;
    }
    let ghost u = a@.skip(m as int);
    reveal_with_fuel(word, 3);
    if m == a.len() {
        return None;
    }
    let mut n: usize = m;
    while n < a.len() && !white(a[n])
        invariant
            m <= n <= a@.len(),
            u == a@.skip(m as int),
            forall|k: int| 0 <= k < n - m ==> !is_white(#[trigger] u[k]),
        decreases a@.len() - n,
    {
        assert(u[n - m] == a@[n as int]);
        n += 1;
    }
    proof {
        lemma_first_word(u, n - m);
        assert(u.take(n - m) == a@.subrange(m as int, n as int));
    }
    Some(text_of(&a, m, n))
}

// ---- decimal numbers ----

/// The digit for a number below ten.
pub open spec fn digit(d: nat) -> char {
    (48 + d) as char
}

/// The decimal notation of a number, without leading zeros.
pub open spec fn decimal(n: nat) -> Seq<char>
    decreases n,
{
    if n < 10 {
        seq![digit(n)]
    } else {
        decimal(n / 10).push(digit(n % 10))
    }
}

/// The decimal notation of a number that may be negative.
pub open spec fn signed_decimal(n: int) -> Seq<char> {
    if n < 0 {
        seq!['-'] + decimal((-n) as nat)
    } else {
        decimal(n as nat)
    }
}

/// The decimal notation of a number.
pub fn decimal_text(n: u64) -> (r: String)
    ensures
        r@ == decimal(n as nat),
    decreases n,
{
    if n < 10 {
        let mut s = String::new();
        s.push((48 + n as u8) as char);
        s
    } else {
        let mut s = decimal_text(n / 10);
        s.push((48 + (n % 10) as u8) as char);
        s
    }
}

/// The decimal notation of a number that may be negative.
pub fn signed_decimal_text(n: i32) -> (r: String)
    ensures
        r@ == signed_decimal(n as int),
{
    if n < 0 {
        let m: i64 = -(n as i64);
        let mut s = String::new();
        s.push('-');
        let d = decimal_text(m as u64);
        s.append(d.as_str());
        s
    } else {
        decimal_text(n as u64)
    }
}

/// Whether a character is one of the ten digits.
pub open spec fn is_digit(c: char) -> bool {
    48 <= c as int <= 57
}

/// Whether every character is a digit.
pub open spec fn all_digits(s: Seq<char>) -> bool {
    forall|i: int| 0 <= i < s.len() ==> is_digit(#[trigger] s[i])
}

/// The number that a row of digits stands for.
pub open spec fn digits_value(s: Seq<char>) -> nat
    decreases s.len(),
{
    if s.len() == 0 {
        0
    } else {
        digits_value(s.drop_last()) * 10 + (s.last() as int - 48) as nat
    }
}

/// The whole number in the range of `i32` that a text stands for: an optional sign, then
/// digits and nothing else.
pub open spec fn parsed_i32(s: Seq<char>) -> Option<int> {
    let signed = s.len() > 0 && (s[0] == '-' || s[0] == '+');
    let digits = if signed {
        s.skip(1)
    } else {
        s
    };
    let value = if s.len() > 0 && s[0] == '-' {
        -digits_value(digits)
    } else {
        digits_value(digits) as int
    };
    if digits.len() > 0 && all_digits(digits) && i32::MIN <= value <= i32::MAX {
        Some(value)
    } else {
        None
    }
}

proof fn lemma_digits_grow(s: Seq<char>, k: int)
    requires
        0 <= k <= s.len(),
        all_digits(s),
    ensures
        digits_value(s.take(k)) <= digits_value(s),
    decreases s.len() - k,
{
    if k < s.len() {
        lemma_digits_grow(s, k + 1);
        assert(s.take(k + 1).drop_last() == s.take(k));
    } else {
        assert(s.take(k) == s);
    }
}

/// The whole number in the range of `i32` that a text stands for.
pub fn parse_i32(s: &str) -> (r: Option<i32>)
    ensures
        match r {
            Some(n) => parsed_i32(s@) == Some(n as int),
            None => parsed_i32(s@) is None,
        },
{
    let a = chars_of(s);
    let negative = a.len() > 0 && a[0] == '-';
    let signed = negative || (a.len() > 0 && a[0] == '+');
    let start: usize = if signed {
        1
    } else {
        0
    };
    let ghost digits = a@.skip(start as int);
    assert(a@.skip(0) == a@);
    if start == a.len() {
        return None;
    }
    let mut i: usize = start;
    let mut value: i64 = 0;
    while i < a.len()
        invariant
            start <= i <= a@.len(),
            start < a@.len(),
            a@ == s@,
            start == if s@[0] == '-' || s@[0] == '+' {
                1int
            } else {
                0
            },
            digits == a@.skip(start as int),
            s@.skip(0) == s@,
            all_digits(digits.take(i - start)),
            value == digits_value(digits.take(i - start)),
            value <= 0x8000_0000,
        decreases a@.len() - i,
    {
        let u: u32 = code_point(a[i]);
        assert(digits[i - start] == a@[i as int]);
        if u < 48 || u > 57 {
            return None;
        }
        assert(digits.take(i + 1 - start).drop_last() == digits.take(i - start));
        value = value * 10 + (u - 48) as i64;
        i += 1;
        assert(all_digits(digits.take(i - start))) by {
            assert forall|k: int| 0 <= k < i - start implies is_digit(
                #[trigger] digits.take(i - start)[k],
            ) by {
                if k < i - 1 - start {
                    assert(digits.take(i - 1 - start)[k] == digits[k]);
                }
            }
        }
        if value > 0x8000_0000 {
            proof {
                if all_digits(digits) {
                    lemma_digits_grow(digits, i - start);
                }
            }
            return None;
        }
    }
    assert(digits.take(i - start) == digits);
    if negative {
        Some((-value) as i32)
    } else if value <= 0x7FFF_FFFF {
        Some(value as i32)
    } else {
        None
    }
}

/// Decimal notation is read back as the number that it stands for.
pub proof fn decimal_reads_back(n: nat)
    ensures
        all_digits(decimal(n)),
        decimal(n).len() > 0,
        digits_value(decimal(n)) == n,
    decreases n,
{
    if n < 10 {
        assert(decimal(n).drop_last() == Seq::<char>::empty());
        assert(digits_value(decimal(n).drop_last()) == 0);
    } else {
        decimal_reads_back(n / 10);
        assert(decimal(n).drop_last() == decimal(n / 10));
    }
}

/// Every digit of decimal notation counts ten times as much as the one after it, and the digits are
/// `0` to `9`.
pub proof fn decimal_digits_are_tens(n: nat, d: nat)
    requires
        d < 10,
    ensures
        n > 0 ==> decimal(10 * n + d) == decimal(n).push(digit(d)),
        decimal(d) == seq![digit(d)],
        digit(0) == '0',
        d > 0 ==> digit(d) as int == digit((d - 1) as nat) as int + 1,
{
    assert((10 * n + d) / 10 == n);
    assert((10 * n + d) % 10 == d);
}

/// Different numbers have different decimal notations.
pub proof fn decimal_injective(n: nat, m: nat)
    requires
        decimal(n) == decimal(m),
    ensures
        n == m,
{
    decimal_reads_back(n);
    decimal_reads_back(m);
}

/// A number in the range of `i32` is read back from its decimal notation.
pub proof fn signed_decimal_reads_back(n: int)
    requires
        i32::MIN <= n <= i32::MAX,
    ensures
        parsed_i32(signed_decimal(n)) == Some(n),
{
    let m = if n < 0 {
        (-n) as nat
    } else {
        n as nat
    };
    decimal_reads_back(m);
    let d = decimal(m);
    assert(is_digit(d[0]));
    if n < 0 {
        assert(signed_decimal(n).skip(1) == d);
    }
}

/// A whole number may have a plus before it, and is no number with anything beside digits behind the
/// sign.
pub proof fn whole_numbers_are_digits(n: nat, s: Seq<char>, i: int)
    requires
        n <= i32::MAX,
        0 <= i < s.len(),
    ensures
        parsed_i32(seq!['+'] + decimal(n)) == Some(n as int),
        parsed_i32(Seq::empty()) is None,
        !is_digit(s[i]) && (i > 0 || s.len() == 1 || (s[0] != '+' && s[0] != '-')) ==> parsed_i32(s)
            is None,
{
    decimal_reads_back(n);
    assert((seq!['+'] + decimal(n)).skip(1) =~= decimal(n));
    if i > 0 {
        assert(s.skip(1)[i - 1] == s[i]);
    }
}

} // verus!
