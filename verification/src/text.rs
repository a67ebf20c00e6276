//! Text primitives: character access, whitespace trimming, case folding and
//! comparison, all stated over the `Seq<char>` view of a string.

use vstd::prelude::*;
use vstd::utf8::*;

verus! {

/// `String::push` appends exactly one character.
pub assume_specification[ String::push ](s: &mut String, c: char)
    ensures
        final(s)@ == old(s)@.push(c),
;

/// The characters of `s`, in order.
pub fn chars_of(s: &str) -> (v: Vec<char>)
    ensures
        v@ == s@,
{
    let mut v: Vec<char> = Vec::new();
    for c in it: s.chars()
        invariant
            v@ == it.seq().take(it.index() as int),
            it.seq() == s@,
    {
        v.push(c);
    }
    v
}

/// Whether two strings hold the same characters.
pub fn same_text(a: &str, b: &str) -> (r: bool)
    ensures
        r == (a@ == b@),
{
    let x = a.as_bytes();
    let y = b.as_bytes();
    proof {
        encode_utf8_decode_utf8(a@);
        encode_utf8_decode_utf8(b@);
    }
    if x.len() != y.len() {
        return false;
    }
    let mut i: usize = 0;
    while i < x.len()
        invariant
            i <= x.len(),
            x.len() == y.len(),
            x@ == encode_utf8(a@),
            y@ == encode_utf8(b@),
            forall|j: int| 0 <= j < i ==> x@[j] == y@[j],
        decreases x.len() - i,
    {
        if x[i] != y[i] {
            return false;
        }
        i += 1;
    }
    assert(x@ =~= y@);
    true
}

/// The characters with the Unicode `White_Space` property.
pub open spec fn is_whitespace(c: char) -> bool {
    ||| '\u{9}' <= c <= '\u{d}'
    ||| c == ' '
    ||| c == '\u{85}'
    ||| c == '\u{a0}'
    ||| c == '\u{1680}'
    ||| '\u{2000}' <= c <= '\u{200a}'
    ||| c == '\u{2028}'
    ||| c == '\u{2029}'
    ||| c == '\u{202f}'
    ||| c == '\u{205f}'
    ||| c == '\u{3000}'
}

/// Executable form of [`is_whitespace`].
pub fn whitespace(c: char) -> (r: bool)
    ensures
        r == is_whitespace(c),
{
    ('\u{9}' <= c && c <= '\u{d}') || c == ' ' || c == '\u{85}' || c == '\u{a0}' || c
        == '\u{1680}' || ('\u{2000}' <= c && c <= '\u{200a}') || c == '\u{2028}' || c
        == '\u{2029}' || c == '\u{202f}' || c == '\u{205f}' || c == '\u{3000}'
}

/// `s` without its leading whitespace.
pub open spec fn trim_front(s: Seq<char>) -> Seq<char>
    decreases s.len(),
{
    if s.len() > 0 && is_whitespace(s.first()) {
        trim_front(s.drop_first())
    } else {
        s
    }
}

/// `s` without its trailing whitespace.
pub open spec fn trim_back(s: Seq<char>) -> Seq<char>
    decreases s.len(),
{
    if s.len() > 0 && is_whitespace(s.last()) {
        trim_back(s.drop_last())
    } else {
        s
    }
}

/// `s` without its leading and trailing whitespace.
pub open spec fn trimmed(s: Seq<char>) -> Seq<char> {
    trim_back(trim_front(s))
}

/// Whether every character of `s` is whitespace.
pub open spec fn all_whitespace(s: Seq<char>) -> bool {
    forall|i: int| 0 <= i < s.len() ==> is_whitespace(#[trigger] s[i])
}

/// `s` without its leading and trailing whitespace, as a slice of `s`.
pub fn trim(s: &str) -> (r: &str)
    ensures
        r@ == trimmed(s@),
{
    let v = chars_of(s);
    let mut start: usize = 0;
    assert(s@.skip(0) =~= s@);
    while start < v.len() && whitespace(v[start])
        invariant
            start <= v.len(),
            v@ == s@,
            trim_front(s@) == trim_front(s@.skip(start as int)),
        decreases v.len() - start,
    {
        proof {
            let rest = s@.skip(start as int);
            assert(rest.first() == v@[start as int]);
            assert(rest.drop_first() =~= s@.skip(start + 1));
        }
        start += 1;
    }
    proof {
        let rest = s@.skip(start as int);
        if start < v.len() {
            assert(rest.first() == v@[start as int]);
        }
        assert(trim_front(rest) == rest);
    }
    let mut end: usize = v.len();
    while end > start && whitespace(v[end - 1])
        invariant
            start <= end <= v.len(),
            v@ == s@,
            trimmed(s@) == trim_back(s@.subrange(start as int, end as int)),
        decreases end,
    {
        proof {
            let part = s@.subrange(start as int, end as int);
            assert(part.last() == v@[end - 1]);
            assert(part.drop_last() =~= s@.subrange(start as int, end - 1));
        }
        end -= 1;
    }
    proof {
        let part = s@.subrange(start as int, end as int);
        if end > start {
            assert(part.last() == v@[end - 1]);
        }
        assert(trim_back(part) == part);
    }
    s.substring_char(start, end)
}

/// The lowercase form of an ASCII capital; any other character unchanged.
pub open spec fn ascii_lower(c: char) -> char {
    if 'A' <= c <= 'Z' {
        ((c as u8 + 32) as u8) as char
    } else {
        c
    }
}

/// Executable form of [`ascii_lower`].
pub fn lower_char(c: char) -> (r: char)
    ensures
        r == ascii_lower(c),
{
    if 'A' <= c && c <= 'Z' {
        let b: u8 = c as u8;
        (b + 32) as char
    } else {
        c
    }
}

/// What `str::to_lowercase` returns for the characters `s`: the Unicode
/// lowercase mapping, which this library does not restate.
pub uninterp spec fn unicode_lowercase(s: Seq<char>) -> Seq<char>;

/// Calls `str::to_lowercase`. The result is a function of the characters
/// alone and is known to the proofs only by name.
#[verifier::external_body]
fn to_lowercase(s: &str) -> (r: String)
    ensures
        r@ == unicode_lowercase(s@),
{
    s.to_lowercase()
}

/// The lowercase form of `s`: for ASCII text each capital letter is replaced
/// by its small letter; text with other characters is lowercased by the full
/// Unicode mapping.
pub open spec fn lowercased(s: Seq<char>) -> Seq<char> {
    if is_ascii_chars(s) {
        s.map_values(|c: char| ascii_lower(c))
    } else {
        unicode_lowercase(s)
    }
}

/// The lowercase form of `s`.
pub fn lowercase(s: &str) -> (r: String)
    ensures
        r@ == lowercased(s@),
{
    if s.is_ascii() {
        let mut out = String::new();
        for c in it: s.chars()
            invariant
                it.seq() == s@,
                out@ == s@.take(it.index() as int).map_values(|c: char| ascii_lower(c)),
        {
            let ghost before = s@.take(it.index() as int);
            let l = lower_char(c);
            out.push(l);
            proof {
                let after = s@.take(it.index() + 1);
                assert(after =~= before.push(c));
                assert(after.map_values(|c: char| ascii_lower(c)) =~= before.map_values(
                    |c: char| ascii_lower(c),
                ).push(l));
            }
        }
        proof {
            assert(s@.take(s@.len() as int) =~= s@);
        }
        out
    } else {
        to_lowercase(s)
    }
}

/// Whether two texts have the same length and agree at every position up to
/// the case of ASCII letters.
pub open spec fn same_ignoring_case(a: Seq<char>, b: Seq<char>) -> bool {
    a.len() == b.len() && forall|i: int|
        0 <= i < a.len() ==> ascii_lower(#[trigger] a[i]) == ascii_lower(b[i])
}

/// Leading whitespace put before a text is trimmed away with the text's own.
pub proof fn lemma_trim_front_skips_padding(pad: Seq<char>, s: Seq<char>)
    requires
        all_whitespace(pad),
    ensures
        trim_front(pad + s) == trim_front(s),
    decreases pad.len(),
{
    if pad.len() == 0 {
        assert(pad + s =~= s);
    } else {
        assert((pad + s).first() == pad[0]);
        assert((pad + s).drop_first() =~= pad.drop_first() + s);
        lemma_trim_front_skips_padding(pad.drop_first(), s);
    }
}

/// Trailing whitespace put behind a text is trimmed away with the text's own.
pub proof fn lemma_trim_back_skips_padding(s: Seq<char>, pad: Seq<char>)
    requires
        all_whitespace(pad),
    ensures
        trim_back(s + pad) == trim_back(s),
    decreases pad.len(),
{
    if pad.len() == 0 {
        assert(s + pad =~= s);
    } else {
        assert((s + pad).last() == pad.last());
        assert((s + pad).drop_last() =~= s + pad.drop_last());
        lemma_trim_back_skips_padding(s, pad.drop_last());
    }
}

/// Trimming the front of a text that is followed by more text: the tail is
/// reached only when the text itself is all whitespace.
proof fn lemma_trim_front_of_concat(s: Seq<char>, tail: Seq<char>)
    ensures
        trim_front(s + tail) == if all_whitespace(s) {
            trim_front(tail)
        } else {
            trim_front(s) + tail
        },
    decreases s.len(),
{
    if s.len() == 0 {
        assert(s + tail =~= tail);
    } else if is_whitespace(s.first()) {
        assert((s + tail).first() == s.first());
        assert((s + tail).drop_first() =~= s.drop_first() + tail);
        lemma_trim_front_of_concat(s.drop_first(), tail);
        if all_whitespace(s.drop_first()) {
            assert forall|i: int| 0 <= i < s.len() implies is_whitespace(#[trigger] s[i]) by {
                if i > 0 {
                    assert(s[i] == s.drop_first()[i - 1]);
                }
            }
        } else {
            let j = choose|j: int|
                0 <= j < s.drop_first().len() && !is_whitespace(#[trigger] s.drop_first()[j]);
            assert(s[j + 1] == s.drop_first()[j]);
        }
    } else {
        assert((s + tail).first() == s.first());
        assert(s[0] == s.first());
    }
}

/// The trimmed form of a text is a slice of it that neither begins nor ends
/// with whitespace, and whatever was cut off at either end is whitespace.
pub proof fn lemma_trimmed_is_core(s: Seq<char>) -> (bounds: (int, int))
    ensures
        0 <= bounds.0 <= bounds.1 <= s.len(),
        trimmed(s) == s.subrange(bounds.0, bounds.1),
        all_whitespace(s.take(bounds.0)),
        all_whitespace(s.skip(bounds.1)),
        trimmed(s).len() > 0 ==> !is_whitespace(trimmed(s).first()) && !is_whitespace(
            trimmed(s).last(),
        ),
{
    let i = lemma_trim_front_is_suffix(s);
    let front = s.skip(i);
    let j = lemma_trim_back_is_prefix(front);
    assert(front.take(j) =~= s.subrange(i, i + j));
    assert forall|k: int| 0 <= k < s.skip(i + j).len() implies is_whitespace(
        #[trigger] s.skip(i + j)[k],
    ) by {
        assert(s.skip(i + j)[k] == front.skip(j)[k]);
    }
    if trimmed(s).len() > 0 {
        assert(trimmed(s).first() == front.first());
    }
    (i, i + j)
}

/// `trim_front` cuts off a whitespace prefix and stops at a non-whitespace
/// character or at the end.
proof fn lemma_trim_front_is_suffix(s: Seq<char>) -> (i: int)
    ensures
        0 <= i <= s.len(),
        trim_front(s) == s.skip(i),
        all_whitespace(s.take(i)),
        i < s.len() ==> !is_whitespace(s[i]),
    decreases s.len(),
{
    if s.len() > 0 && is_whitespace(s.first()) {
        let k = lemma_trim_front_is_suffix(s.drop_first());
        assert(s.drop_first().skip(k) =~= s.skip(k + 1));
        assert forall|m: int| 0 <= m < k + 1 implies is_whitespace(#[trigger] s.take(k + 1)[m]) by {
            if m > 0 {
                assert(s.take(k + 1)[m] == s.drop_first().take(k)[m - 1]);
            }
        }
        if k + 1 < s.len() {
            assert(s[k + 1] == s.drop_first()[k]);
        }
        k + 1
    } else {
        assert(s.skip(0) =~= s);
        0
    }
}

/// `trim_back` cuts off a whitespace suffix and stops at a non-whitespace
/// character or at the start.
proof fn lemma_trim_back_is_prefix(s: Seq<char>) -> (j: int)
    ensures
        0 <= j <= s.len(),
        trim_back(s) == s.take(j),
        all_whitespace(s.skip(j)),
        j > 0 ==> !is_whitespace(s[j - 1]),
    decreases s.len(),
{
    if s.len() > 0 && is_whitespace(s.last()) {
        let k = lemma_trim_back_is_prefix(s.drop_last());
        assert(s.drop_last().take(k) =~= s.take(k));
        assert forall|m: int| 0 <= m < s.skip(k).len() implies is_whitespace(
            #[trigger] s.skip(k)[m],
        ) by {
            if m < s.drop_last().skip(k).len() {
                assert(s.skip(k)[m] == s.drop_last().skip(k)[m]);
            }
        }
        if k > 0 {
            assert(s[k - 1] == s.drop_last()[k - 1]);
        }
        k
    } else {
        assert(s.take(s.len() as int) =~= s);
        s.len() as int
    }
}

/// Whitespace around a text does not change what trimming leaves of it.
pub proof fn lemma_trimmed_ignores_padding(left: Seq<char>, s: Seq<char>, right: Seq<char>)
    requires
        all_whitespace(left),
        all_whitespace(right),
    ensures
        trimmed(left + s + right) == trimmed(s),
{
    assert(left + s + right =~= left + (s + right));
    lemma_trim_front_skips_padding(left, s + right);
    lemma_trim_front_of_concat(s, right);
    if all_whitespace(s) {
        lemma_trim_front_skips_padding(right, Seq::empty());
        assert(right + Seq::<char>::empty() =~= right);
        lemma_trim_front_skips_padding(s, Seq::empty());
        assert(s + Seq::<char>::empty() =~= s);
    } else {
        lemma_trim_back_skips_padding(trim_front(s), right);
    }
}

/// A text that neither begins nor ends with whitespace is its own trimmed form.
pub proof fn lemma_trimmed_fixes_core(s: Seq<char>)
    requires
        s.len() > 0 ==> !is_whitespace(s.first()) && !is_whitespace(s.last()),
    ensures
        trimmed(s) == s,
{
}

/// Trimming a trimmed text changes nothing.
pub proof fn lemma_trimmed_idempotent(s: Seq<char>)
    ensures
        trimmed(trimmed(s)) == trimmed(s),
{
    lemma_trimmed_is_core(s);
    lemma_trimmed_fixes_core(trimmed(s));
}

/// ASCII texts that agree up to the case of letters have the same lowercase form.
pub proof fn lemma_lowercased_ignores_case(a: Seq<char>, b: Seq<char>)
    requires
        is_ascii_chars(a),
        is_ascii_chars(b),
        same_ignoring_case(a, b),
    ensures
        lowercased(a) == lowercased(b),
{
    assert(a.map_values(|c: char| ascii_lower(c)) =~= b.map_values(|c: char| ascii_lower(c)));
}

/// Lowercasing ASCII text keeps it ASCII, keeps its length, and changes
/// nothing when done a second time.
pub proof fn lemma_lowercased_ascii(s: Seq<char>)
    requires
        is_ascii_chars(s),
    ensures
        is_ascii_chars(lowercased(s)),
        lowercased(s).len() == s.len(),
        forall|i: int| 0 <= i < s.len() ==> #[trigger] lowercased(s)[i] == ascii_lower(s[i]),
        lowercased(lowercased(s)) == lowercased(s),
{
    let l = s.map_values(|c: char| ascii_lower(c));
    assert forall|i: int| 0 <= i < l.len() implies '\0' <= #[trigger] l[i] <= '\u{7f}' by {
        lemma_ascii_lower_facts(s[i]);
    }
    assert(l.map_values(|c: char| ascii_lower(c)) =~= l) by {
        assert forall|i: int| 0 <= i < l.len() implies ascii_lower(#[trigger] l[i]) == l[i] by {
            lemma_ascii_lower_facts(s[i]);
        }
    }
}

/// `ascii_lower` maps each capital to the small letter 32 places on, leaves
/// every other character alone, never yields a capital, and keeps ASCII
/// characters ASCII.
pub proof fn lemma_ascii_lower_facts(c: char)
    ensures
        'A' <= c <= 'Z' ==> 'a' <= ascii_lower(c) <= 'z' && ascii_lower(c) as int == c as int
            + 32,
        !('A' <= c <= 'Z') ==> ascii_lower(c) == c,
        !('A' <= ascii_lower(c) <= 'Z'),
        ascii_lower(ascii_lower(c)) == ascii_lower(c),
        c <= '\u{7f}' ==> ascii_lower(c) <= '\u{7f}',
        is_whitespace(ascii_lower(c)) == is_whitespace(c),
{
}

} // verus!
