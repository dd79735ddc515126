//! Character-level helpers shared by the parsers and encoders of this crate.
use vstd::prelude::*;
use vstd::utf8::{decode_utf8, encode_utf8, valid_utf8};

verus! {

broadcast use vstd::string::group_string_axioms;

/// Unicode general category Cc: the C0 controls, DEL and the C1 controls.
pub open spec fn is_control(c: char) -> bool {
    (c as u32) < 0x20 || (0x7f <= (c as u32) && (c as u32) < 0xa0)
}

/// Whether some character of `s` is a control character.
pub open spec fn has_control(s: Seq<char>) -> bool {
    exists|i: int| 0 <= i < s.len() && is_control(#[trigger] s[i])
}

pub fn char_is_control(c: char) -> (r: bool)
    ensures
        r == is_control(c),
{
    let u = c as u32;
    u < 0x20 || (0x7f <= u && u < 0xa0)
}

/// The characters of a string slice, in order.
pub fn chars_of(s: &str) -> (v: Vec<char>)
    ensures
        v@ == s@,
{
    let mut v: Vec<char> = Vec::new();
    for c in it: s.chars()
        invariant
            it.seq() == s@,
            v@ == it.seq().take(it.index() as int),
    {
        v.push(c);
    }
    v
}


/// Whether `key` spells exactly the characters of `name`.
pub fn chars_equal(key: &Vec<char>, name: &str) -> (r: bool)
    ensures
        r == (key@ == name@),
{
    let other = chars_of(name);
    if key.len() != other.len() {
        return false;
    }
    let mut i: usize = 0;
    while i < key.len()
        invariant
            key.len() == other.len(),
            other@ == name@,
            i <= key.len(),
            forall|j: int| 0 <= j < i ==> key@[j] == other@[j],
        decreases key.len() - i,
    {
        if key[i] != other[i] {
            return false;
        }
        i = i + 1;
    }
    assert(key@ =~= other@);
    true
}

/// Whether two string slices hold the same characters.
pub fn str_eq(a: &str, b: &str) -> (r: bool)
    ensures
        r == (a@ == b@),
{
    let chars = chars_of(a);
    chars_equal(&chars, b)
}

/// `String` made of the given characters, in order.
/// Collects the characters with std's `FromIterator<char>` for `String`,
/// whose documentation states that the string holds exactly those characters.
#[verifier::external_body]
pub(crate) fn string_from_chars(chars: &Vec<char>) -> (s: String)
    ensures
        s@ == chars@,
{
    chars.iter().collect()
}

/// The UTF-8 encoding of the given characters.
pub fn utf8_bytes(chars: &Vec<char>) -> (bytes: Vec<u8>)
    ensures
        bytes@ == encode_utf8(chars@),
{
    let s = string_from_chars(chars);
    let b = s.as_str().as_bytes();
    vstd::slice::slice_to_vec(b)
}


/// Whether `s` begins with `p`.
pub open spec fn starts_with(s: Seq<char>, p: Seq<char>) -> bool {
    p.len() <= s.len() && s.subrange(0, p.len() as int) == p
}

/// Whether the characters `s` begin with the characters `p`.
pub fn chars_start_with(s: &Vec<char>, p: &Vec<char>) -> (r: bool)
    ensures
        r == starts_with(s@, p@),
{
    if p.len() > s.len() {
        return false;
    }
    let mut j: usize = 0;
    while j < p.len()
        invariant
            p.len() <= s.len(),
            j <= p.len(),
            forall|k: int| 0 <= k < j ==> s@[k] == p@[k],
        decreases p.len() - j,
    {
        if s[j] != p[j] {
            assert(s@.subrange(0, p.len() as int)[j as int] != p@[j as int]);
            return false;
        }
        j = j + 1;
    }
    assert(s@.subrange(0, p.len() as int) =~= p@);
    true
}

/// Whether two character vectors are equal.
pub fn chars_eq(a: &Vec<char>, b: &Vec<char>) -> (r: bool)
    ensures
        r == (a@ == b@),
{
    if a.len() != b.len() {
        return false;
    }
    let r = chars_start_with(a, b);
    proof {
        if r {
            assert(a@.subrange(0, b@.len() as int) =~= a@);
        } else {
            if a@ == b@ {
                assert(a@.subrange(0, b@.len() as int) =~= a@);
            }
        }
    }
    r
}

/// Whether some character of `s` is a control character.
pub fn chars_have_control(s: &Vec<char>) -> (r: bool)
    ensures
        r == has_control(s@),
{
    let mut i: usize = 0;
    while i < s.len()
        invariant
            i <= s.len(),
            forall|k: int| 0 <= k < i ==> !is_control(#[trigger] s@[k]),
        decreases s.len() - i,
    {
        if char_is_control(s[i]) {
            return true;
        }
        i = i + 1;
    }
    false
}


/// What `String::from_utf8_lossy` makes of `bytes`: their UTF-8 decoding, with
/// U+FFFD in place of each invalid sequence.
pub uninterp spec fn utf8_lossy(bytes: Seq<u8>) -> Seq<char>;

/// The text of bytes read as UTF-8: their decoding where they are valid
/// UTF-8, else what `String::from_utf8_lossy` makes of them.
pub open spec fn lossy_text(bytes: Seq<u8>) -> Seq<char> {
    if valid_utf8(bytes) {
        decode_utf8(bytes)
    } else {
        utf8_lossy(bytes)
    }
}

/// `String::from_utf8_lossy`, owned. std documents that valid UTF-8 is decoded
/// as such; the replacement of invalid sequences is left to the name `utf8_lossy`.
#[verifier::external_body]
pub(crate) fn decode_utf8_lossy(bytes: &[u8]) -> (s: String)
    ensures
        s@ == utf8_lossy(bytes@),
        valid_utf8(bytes@) ==> s@ == decode_utf8(bytes@),
{
    String::from_utf8_lossy(bytes).into_owned()
}


/// The characters of each string.
pub open spec fn strings_view(v: Seq<String>) -> Seq<Seq<char>> {
    v.map_values(|s: String| s@)
}

/// The characters of each name and value.
pub open spec fn pairs_view(v: Seq<(String, String)>) -> Seq<(Seq<char>, Seq<char>)> {
    v.map_values(|p: (String, String)| (p.0@, p.1@))
}

pub fn clone_strings(v: &Vec<String>) -> (r: Vec<String>)
    ensures
        strings_view(r@) == strings_view(v@),
{
    let mut r: Vec<String> = Vec::new();
    let mut i: usize = 0;
    while i < v.len()
        invariant
            i <= v.len(),
            strings_view(r@) == strings_view(v@).take(i as int),
        decreases v.len() - i,
    {
        let ghost before = r@;
        let c = v[i].clone();
        assert(c@ == v@[i as int]@);
        r.push(c);
        assert(r@ == before.push(c));
        assert(strings_view(r@) =~= strings_view(before).push(c@));
        i = i + 1;
        assert(strings_view(r@) =~= strings_view(v@).take(i as int));
    }
    assert(strings_view(v@).take(i as int) =~= strings_view(v@));
    r
}

pub fn clone_pairs(v: &Vec<(String, String)>) -> (r: Vec<(String, String)>)
    ensures
        pairs_view(r@) == pairs_view(v@),
{
    let mut r: Vec<(String, String)> = Vec::new();
    let mut i: usize = 0;
    while i < v.len()
        invariant
            i <= v.len(),
            pairs_view(r@) == pairs_view(v@).take(i as int),
        decreases v.len() - i,
    {
        let ghost before = r@;
        let a = v[i].0.clone();
        let b = v[i].1.clone();
        assert(a@ == v@[i as int].0@ && b@ == v@[i as int].1@);
        r.push((a, b));
        assert(r@ == before.push((a, b)));
        assert(pairs_view(r@) =~= pairs_view(before).push((a@, b@)));
        i = i + 1;
        assert(pairs_view(r@) =~= pairs_view(v@).take(i as int));
    }
    assert(pairs_view(v@).take(i as int) =~= pairs_view(v@));
    r
}

/// ASCII bytes are the UTF-8 encoding of their characters.
pub(crate) proof fn lemma_ascii_encodes(p: Seq<u8>)
    requires
        forall|i: int| 0 <= i < p.len() ==> p[i] < 0x80,
    ensures
        encode_utf8(p.map_values(|b: u8| b as char)) == p,
    decreases p.len(),
{
    let cs = p.map_values(|b: u8| b as char);
    if p.len() > 0 {
        let rest = p.drop_first();
        assert(cs.drop_first() =~= rest.map_values(|b: u8| b as char));
        lemma_ascii_encodes(rest);
        let b = p[0];
        let v = cs[0] as u32;
        assert(v == b as u32);
        assert(((v & 0x7f) as u8) == b) by (bit_vector)
            requires
                v == b as u32,
                b < 0x80,
        ;
        assert(p =~= seq![b] + rest);
    } else {
        assert(cs =~= Seq::<char>::empty());
    }
}


/// The UTF-8 encoding of two texts one after the other is their encodings one after the other.
pub(crate) proof fn lemma_encode_concat(a: Seq<char>, b: Seq<char>)
    ensures
        encode_utf8(a + b) == encode_utf8(a) + encode_utf8(b),
    decreases a.len(),
{
    if a.len() > 0 {
        assert((a + b)[0] == a[0]);
        assert((a + b).drop_first() =~= a.drop_first() + b);
        lemma_encode_concat(a.drop_first(), b);
        assert(encode_utf8(a + b) =~= encode_utf8(a) + encode_utf8(b));
    } else {
        assert(a + b =~= b);
        assert(encode_utf8(a) =~= Seq::<u8>::empty());
        assert(encode_utf8(a) + encode_utf8(b) =~= encode_utf8(b));
    }
}

/// An ASCII byte occurs in the UTF-8 encoding of a text only where its
/// character occurs in the text: the bytes of other characters are not ASCII.
pub(crate) proof fn lemma_ascii_byte_absent(s: Seq<char>, c: char)
    requires
        (c as u32) < 0x80,
        !s.contains(c),
    ensures
        forall|i: int| 0 <= i < encode_utf8(s).len() ==> #[trigger] encode_utf8(s)[i] != c as u32 as u8,
    decreases s.len(),
{
    if s.len() > 0 {
        assert(!s.drop_first().contains(c)) by {
            if s.drop_first().contains(c) {
                let i = choose|i: int| 0 <= i < s.drop_first().len() && s.drop_first()[i] == c;
                assert(s[i + 1] == c);
            }
        }
        lemma_ascii_byte_absent(s.drop_first(), c);
        assert(s[0] != c);
        let v = s[0] as u32;
        let w = c as u32;
        vstd::utf8::char_is_scalar(s[0]);
        assert(v != w) by {
            vstd::utf8::char_u32_cast(s[0], v);
            vstd::utf8::char_u32_cast(c, w);
        }
        let head = vstd::utf8::encode_scalar(v);
        if v <= 0x7f {
            assert(((v & 0x7f) as u8) != (w as u8)) by (bit_vector)
                requires
                    v <= 0x7f,
                    w < 0x80,
                    v != w,
            ;
        } else if v <= 0x7ff {
            let a = ((v >> 6) & 0x1f) as u8;
            let b = (v & 0x3f) as u8;
            assert(0xc0u8 | a >= 0x80u8) by (bit_vector);
            assert(0x80u8 | b >= 0x80u8) by (bit_vector);
        } else if v <= 0xffff {
            let a = ((v >> 12) & 0x0f) as u8;
            let b = ((v >> 6) & 0x3f) as u8;
            let d = (v & 0x3f) as u8;
            assert(0xe0u8 | a >= 0x80u8) by (bit_vector);
            assert(0x80u8 | b >= 0x80u8) by (bit_vector);
            assert(0x80u8 | d >= 0x80u8) by (bit_vector);
        } else {
            let a = ((v >> 18) & 0x7) as u8;
            let b = ((v >> 12) & 0x3f) as u8;
            let d = ((v >> 6) & 0x3f) as u8;
            let e = (v & 0x3f) as u8;
            assert(0xf0u8 | a >= 0x80u8) by (bit_vector);
            assert(0x80u8 | b >= 0x80u8) by (bit_vector);
            assert(0x80u8 | d >= 0x80u8) by (bit_vector);
            assert(0x80u8 | e >= 0x80u8) by (bit_vector);
        }
        let tail = encode_utf8(s.drop_first());
        assert(encode_utf8(s) == head + tail);
        assert forall|i: int| 0 <= i < encode_utf8(s).len() implies #[trigger] encode_utf8(s)[i]
            != c as u32 as u8 by {
            if i < head.len() {
                assert((head + tail)[i] == head[i]);
            } else {
                assert((head + tail)[i] == tail[i - head.len()]);
            }
        }
    }
}

} // verus!
