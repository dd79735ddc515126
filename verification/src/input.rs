//! Keyboard and paste encoding for the PTY, following xterm conventions.
use crate::text::{chars_equal, chars_of, utf8_bytes};
use vstd::prelude::*;
use vstd::utf8::{decode_utf8, encode_utf8, valid_utf8};

verus! {

pub open spec fn bit(b: bool) -> nat {
    if b {
        1
    } else {
        0
    }
}

/// xterm's modifier parameter: 1 plus 1 for Shift, 2 for Alt and 4 for Control.
pub open spec fn modifier_code(control: bool, alt: bool, shift: bool) -> nat {
    1 + bit(shift) + 2 * bit(alt) + 4 * bit(control)
}

pub open spec fn ascii_digit(n: nat) -> u8 {
    (48 + n % 10) as u8
}

/// Decimal digits of `n`, most significant first.
pub open spec fn decimal(n: nat) -> Seq<u8>
    decreases n,
{
    if n < 10 {
        seq![ascii_digit(n)]
    } else {
        decimal(n / 10) + seq![ascii_digit(n)]
    }
}

pub open spec fn esc() -> u8 {
    27
}

/// The final byte of the cursor keys and of Home/End.
pub open spec fn cursor_final(key: Seq<char>) -> Option<u8> {
    if key == "up"@ {
        Some('A' as u8)
    } else if key == "down"@ {
        Some('B' as u8)
    } else if key == "right"@ {
        Some('C' as u8)
    } else if key == "left"@ {
        Some('D' as u8)
    } else if key == "home"@ {
        Some('H' as u8)
    } else if key == "end"@ {
        Some('F' as u8)
    } else {
        None
    }
}

/// The number of the keys sent as `CSI number ~`.
pub open spec fn tilde_number(key: Seq<char>) -> Option<nat> {
    if key == "insert"@ {
        Some(2)
    } else if key == "delete"@ {
        Some(3)
    } else if key == "pageup"@ {
        Some(5)
    } else if key == "pagedown"@ {
        Some(6)
    } else if key == "f5"@ {
        Some(15)
    } else if key == "f6"@ {
        Some(17)
    } else if key == "f7"@ {
        Some(18)
    } else if key == "f8"@ {
        Some(19)
    } else if key == "f9"@ {
        Some(20)
    } else if key == "f10"@ {
        Some(21)
    } else if key == "f11"@ {
        Some(23)
    } else if key == "f12"@ {
        Some(24)
    } else {
        None
    }
}

/// The final byte of F1 to F4: `P`, `Q`, `R`, `S`.
pub open spec fn function_final(key: Seq<char>) -> Option<u8> {
    if key == "f1"@ {
        Some('P' as u8)
    } else if key == "f2"@ {
        Some('Q' as u8)
    } else if key == "f3"@ {
        Some('R' as u8)
    } else if key == "f4"@ {
        Some('S' as u8)
    } else {
        None
    }
}

pub open spec fn is_ascii_letter(c: char) -> bool {
    ('a' <= c && c <= 'z') || ('A' <= c && c <= 'Z')
}

/// Position of an ASCII letter in the alphabet, from 1 for `a` or `A` to 26.
pub open spec fn alphabet_position(c: char) -> nat {
    if 'a' <= c && c <= 'z' {
        ((c as u32) - 96) as nat
    } else {
        ((c as u32) - 64) as nat
    }
}

/// The single byte that Control plus `key` sends, where there is one.
pub open spec fn control_byte(key: Seq<char>) -> Option<u8> {
    if key == "space"@ || key == "@"@ || key == "2"@ {
        Some(0)
    } else if key == "["@ || key == "3"@ {
        Some(27)
    } else if key == "\\"@ || key == "4"@ {
        Some(28)
    } else if key == "]"@ || key == "5"@ {
        Some(29)
    } else if key == "^"@ || key == "6"@ {
        Some(30)
    } else if key == "_"@ || key == "-"@ || key == "7"@ {
        Some(31)
    } else if key == "?"@ || key == "8"@ {
        Some(127)
    } else if key.len() == 1 && is_ascii_letter(key[0]) {
        Some(alphabet_position(key[0]) as u8)
    } else {
        None
    }
}

/// A key whose name is one ASCII character, that is one byte of UTF-8.
pub open spec fn single_byte_key(key: Seq<char>) -> bool {
    key.len() == 1 && (key[0] as u32) < 128
}

/// The bytes of a key that is neither a cursor, an editing nor a function key,
/// before the Alt prefix.
pub open spec fn plain_key_bytes(key: Seq<char>, control: bool, alt: bool, shift: bool) -> Option<
    Seq<u8>,
> {
    if key == "enter"@ {
        Some(seq!['\r' as u8])
    } else if key == "backspace"@ {
        Some(
            seq![
                if control {
                    8u8
                } else {
                    127u8
                },
            ],
        )
    } else if key == "escape"@ {
        Some(seq![esc()])
    } else if key == "tab"@ && shift {
        Some(seq![esc(), '[' as u8, 'Z' as u8])
    } else if key == "tab"@ {
        Some(seq!['\t' as u8])
    } else if control {
        match control_byte(key) {
            Some(b) => Some(seq![b]),
            None => None,
        }
    } else if alt && single_byte_key(key) {
        Some(seq![key[0] as u8])
    } else {
        None
    }
}

/// What `encode_key` sends for a non-text key, or `None` where the key sends nothing.
pub open spec fn key_encoding(
    key: Seq<char>,
    control: bool,
    alt: bool,
    shift: bool,
    application_cursor: bool,
) -> Option<Seq<u8>> {
    let m = modifier_code(control, alt, shift);
    if cursor_final(key) is Some {
        let f = cursor_final(key)->0;
        Some(
            if m > 1 {
                seq![esc(), '[' as u8, '1' as u8, ';' as u8] + decimal(m) + seq![f]
            } else if application_cursor {
                seq![esc(), 'O' as u8, f]
            } else {
                seq![esc(), '[' as u8, f]
            },
        )
    } else if tilde_number(key) is Some {
        let n = tilde_number(key)->0;
        Some(
            if m > 1 {
                seq![esc(), '[' as u8] + decimal(n) + seq![';' as u8] + decimal(m) + seq![
                    '~' as u8,
                ]
            } else {
                seq![esc(), '[' as u8] + decimal(n) + seq!['~' as u8]
            },
        )
    } else if function_final(key) is Some {
        let f = function_final(key)->0;
        Some(
            if m > 1 {
                seq![esc(), '[' as u8, '1' as u8, ';' as u8] + decimal(m) + seq![f]
            } else {
                seq![esc(), 'O' as u8, f]
            },
        )
    } else {
        match plain_key_bytes(key, control, alt, shift) {
            Some(data) => Some(
                if alt {
                    seq![esc()] + data
                } else {
                    data
                },
            ),
            None => None,
        }
    }
}

fn push_decimal(out: &mut Vec<u8>, n: u8)
    requires
        n < 100,
    ensures
        final(out)@ == old(out)@ + decimal(n as nat),
{
    if n >= 10 {
        out.push(48 + n / 10);
        assert(decimal((n / 10) as nat) == seq![ascii_digit((n / 10) as nat)]);
    }
    out.push(48 + n % 10);
    assert(final(out)@ =~= old(out)@ + decimal(n as nat));
}

fn cursor_final_of(key: &Vec<char>) -> (r: Option<u8>)
    ensures
        r == cursor_final(key@),
{
    if chars_equal(key, "up") {
        Some(('A' as u8))
    } else if chars_equal(key, "down") {
        Some(('B' as u8))
    } else if chars_equal(key, "right") {
        Some(('C' as u8))
    } else if chars_equal(key, "left") {
        Some(('D' as u8))
    } else if chars_equal(key, "home") {
        Some(('H' as u8))
    } else if chars_equal(key, "end") {
        Some(('F' as u8))
    } else {
        None
    }
}

fn tilde_number_of(key: &Vec<char>) -> (r: Option<u8>)
    ensures
        match r {
            Some(n) => tilde_number(key@) == Some(n as nat) && n < 100,
            None => tilde_number(key@) is None,
        },
{
    if chars_equal(key, "insert") {
        Some(2)
    } else if chars_equal(key, "delete") {
        Some(3)
    } else if chars_equal(key, "pageup") {
        Some(5)
    } else if chars_equal(key, "pagedown") {
        Some(6)
    } else if chars_equal(key, "f5") {
        Some(15)
    } else if chars_equal(key, "f6") {
        Some(17)
    } else if chars_equal(key, "f7") {
        Some(18)
    } else if chars_equal(key, "f8") {
        Some(19)
    } else if chars_equal(key, "f9") {
        Some(20)
    } else if chars_equal(key, "f10") {
        Some(21)
    } else if chars_equal(key, "f11") {
        Some(23)
    } else if chars_equal(key, "f12") {
        Some(24)
    } else {
        None
    }
}

fn function_final_of(key: &Vec<char>) -> (r: Option<u8>)
    ensures
        r == function_final(key@),
{
    if chars_equal(key, "f1") {
        Some(('P' as u8))
    } else if chars_equal(key, "f2") {
        Some(('Q' as u8))
    } else if chars_equal(key, "f3") {
        Some(('R' as u8))
    } else if chars_equal(key, "f4") {
        Some(('S' as u8))
    } else {
        None
    }
}

fn control_byte_of(key: &Vec<char>) -> (r: Option<u8>)
    ensures
        r == control_byte(key@),
{
    if chars_equal(key, "space") || chars_equal(key, "@") || chars_equal(key, "2") {
        Some(0)
    } else if chars_equal(key, "[") || chars_equal(key, "3") {
        Some(27)
    } else if chars_equal(key, "\\") || chars_equal(key, "4") {
        Some(28)
    } else if chars_equal(key, "]") || chars_equal(key, "5") {
        Some(29)
    } else if chars_equal(key, "^") || chars_equal(key, "6") {
        Some(30)
    } else if chars_equal(key, "_") || chars_equal(key, "-") || chars_equal(key, "7") {
        Some(31)
    } else if chars_equal(key, "?") || chars_equal(key, "8") {
        Some(127)
    } else if key.len() == 1 && (('a' <= key[0] && key[0] <= 'z') || ('A' <= key[0] && key[0]
        <= 'Z')) {
        let c = key[0] as u32;
        if c >= 97 {
            Some((c - 96) as u8)
        } else {
            Some((c - 64) as u8)
        }
    } else {
        None
    }
}

/// Encode non-text keys using xterm conventions. Printable text and IME commits
/// are delivered separately through the platform input handler.
pub fn encode_key(key: &str, control: bool, alt: bool, shift: bool, application_cursor: bool) -> (r:
    Option<Vec<u8>>)
    ensures
        match r {
            Some(bytes) => key_encoding(key@, control, alt, shift, application_cursor) == Some(
                bytes@,
            ),
            None => key_encoding(key@, control, alt, shift, application_cursor) is None,
        },
{
    let k = chars_of(key);
    let modifier: u8 = 1 + (if shift {
        1u8
    } else {
        0u8
    }) + 2 * (if alt {
        1u8
    } else {
        0u8
    }) + 4 * (if control {
        1u8
    } else {
        0u8
    });
    assert(modifier as nat == modifier_code(control, alt, shift));
    if let Some(final_byte) = cursor_final_of(&k) {
        let mut out: Vec<u8> = Vec::new();
        out.push(27);
        if modifier > 1 {
            out.push(('[' as u8));
            out.push(('1' as u8));
            out.push((';' as u8));
            push_decimal(&mut out, modifier);
        } else if application_cursor {
            out.push(('O' as u8));
        } else {
            out.push(('[' as u8));
        }
        out.push(final_byte);
        proof {
            let expected = key_encoding(key@, control, alt, shift, application_cursor)->0;
            assert(out@ =~= expected);
        }
        return Some(out);
    }
    if let Some(number) = tilde_number_of(&k) {
        let mut out: Vec<u8> = Vec::new();
        out.push(27);
        out.push(('[' as u8));
        push_decimal(&mut out, number);
        if modifier > 1 {
            out.push((';' as u8));
            push_decimal(&mut out, modifier);
        }
        out.push(('~' as u8));
        proof {
            let expected = key_encoding(key@, control, alt, shift, application_cursor)->0;
            assert(out@ =~= expected);
        }
        return Some(out);
    }
    if let Some(final_byte) = function_final_of(&k) {
        let mut out: Vec<u8> = Vec::new();
        out.push(27);
        if modifier > 1 {
            out.push(('[' as u8));
            out.push(('1' as u8));
            out.push((';' as u8));
            push_decimal(&mut out, modifier);
        } else {
            out.push(('O' as u8));
        }
        out.push(final_byte);
        proof {
            let expected = key_encoding(key@, control, alt, shift, application_cursor)->0;
            assert(out@ =~= expected);
        }
        return Some(out);
    }
    let data: Vec<u8> = if chars_equal(&k, "enter") {
        vec![('\r' as u8)]
    } else if chars_equal(&k, "backspace") {
        vec![
            if control {
                8u8
            } else {
                127u8
            },
        ]
    } else if chars_equal(&k, "escape") {
        vec![27u8]
    } else if chars_equal(&k, "tab") && shift {
        vec![27u8, ('[' as u8), ('Z' as u8)]
    } else if chars_equal(&k, "tab") {
        vec![('\t' as u8)]
    } else if control {
        match control_byte_of(&k) {
            Some(b) => vec![b],
            None => {
                return None;
            },
        }
    } else if alt && k.len() == 1 && (k[0] as u32) < 128 {
        vec![k[0] as u8]
    } else {
        return None;
    };
    assert(plain_key_bytes(key@, control, alt, shift) == Some(data@));
    if alt {
        let mut out: Vec<u8> = vec![27u8];
        let mut i: usize = 0;
        while i < data.len()
            invariant
                i <= data.len(),
                out@ == seq![esc()] + data@.take(i as int),
            decreases data.len() - i,
        {
            out.push(data[i]);
            i = i + 1;
            assert(out@ =~= seq![esc()] + data@.take(i as int));
        }
        assert(data@.take(data.len() as int) =~= data@);
        Some(out)
    } else {
        Some(data)
    }
}

pub open spec fn esc_char() -> char {
    '\x1b'
}

/// `s` without its ESC characters.
pub open spec fn without_escapes(s: Seq<char>) -> Seq<char>
    decreases s.len(),
{
    if s.len() == 0 {
        s
    } else if s.last() == esc_char() {
        without_escapes(s.drop_last())
    } else {
        without_escapes(s.drop_last()).push(s.last())
    }
}

/// `s` with each CR LF pair, and each other CR, turned into one LF.
pub open spec fn normalize_newlines(s: Seq<char>) -> Seq<char>
    decreases s.len(),
{
    if s.len() == 0 {
        s
    } else if s[0] == '\r' {
        if s.len() >= 2 && s[1] == '\n' {
            seq!['\n'] + normalize_newlines(s.subrange(2, s.len() as int))
        } else {
            seq!['\n'] + normalize_newlines(s.subrange(1, s.len() as int))
        }
    } else {
        seq![s[0]] + normalize_newlines(s.subrange(1, s.len() as int))
    }
}

/// `s` with each LF turned into CR, as a terminal's Enter key sends it.
pub open spec fn lf_to_cr(s: Seq<char>) -> Seq<char> {
    s.map_values(|c: char| if c == '\n' { '\r' } else { c })
}

/// The text that a paste delivers, before framing.
pub open spec fn paste_body(text: Seq<char>) -> Seq<char> {
    normalize_newlines(without_escapes(text))
}

pub open spec fn bracket_open() -> Seq<char> {
    seq![esc_char(), '[', '2', '0', '0', '~']
}

pub open spec fn bracket_close() -> Seq<char> {
    seq![esc_char(), '[', '2', '0', '1', '~']
}

/// What `paste` sends for `text`.
pub open spec fn paste_encoding(text: Seq<char>, bracketed: bool) -> Seq<u8> {
    if bracketed {
        encode_utf8(bracket_open() + paste_body(text) + bracket_close())
    } else {
        encode_utf8(lf_to_cr(paste_body(text)))
    }
}

proof fn lemma_normalize_newlines_no_escape(s: Seq<char>)
    requires
        !s.contains(esc_char()),
    ensures
        !normalize_newlines(s).contains(esc_char()),
    decreases s.len(),
{
    if s.len() == 0 {
    } else {
        if s[0] == '\r' && s.len() >= 2 && s[1] == '\n' {
            let rest = s.subrange(2, s.len() as int);
            assert forall|i: int| 0 <= i < rest.len() implies rest[i] != esc_char() by {
                assert(rest[i] == s[i + 2]);
            }
            lemma_normalize_newlines_no_escape(rest);
            let r = normalize_newlines(s);
            assert(r == seq!['\n'] + normalize_newlines(rest));
            assert forall|i: int| 0 <= i < r.len() implies r[i] != esc_char() by {
                if i > 0 {
                    assert(r[i] == normalize_newlines(rest)[i - 1]);
                }
            }
        } else {
            let rest = s.subrange(1, s.len() as int);
            assert forall|i: int| 0 <= i < rest.len() implies rest[i] != esc_char() by {
                assert(rest[i] == s[i + 1]);
            }
            lemma_normalize_newlines_no_escape(rest);
            let r = normalize_newlines(s);
            assert forall|i: int| 0 <= i < r.len() implies r[i] != esc_char() by {
                if i > 0 {
                    assert(r[i] == normalize_newlines(rest)[i - 1]);
                } else {
                    assert(r[0] == '\n' || r[0] == s[0]);
                    assert(s[0] == s[0]);
                    assert(s.contains(s[0]));
                }
            }
        }
    }
}

proof fn lemma_without_escapes_has_none(s: Seq<char>)
    ensures
        !without_escapes(s).contains(esc_char()),
    decreases s.len(),
{
    if s.len() > 0 {
        lemma_without_escapes_has_none(s.drop_last());
        let w = without_escapes(s.drop_last());
        if s.last() != esc_char() {
            assert forall|i: int| 0 <= i < w.push(s.last()).len() implies w.push(s.last())[i]
                != esc_char() by {
                if i < w.len() {
                    assert(w.push(s.last())[i] == w[i]);
                }
            }
        }
    }
}

/// A pasted text carries no ESC, so it can never close a bracketed paste early
/// or inject terminal keys: the only ESCs of a bracketed paste are its two brackets.
pub proof fn lemma_paste_cannot_escape_brackets(text: Seq<char>)
    ensures
        !paste_body(text).contains(esc_char()),
{
    lemma_without_escapes_has_none(text);
    lemma_normalize_newlines_no_escape(without_escapes(text));
}

/// Text without ESC and CR is pasted as it is, and sent as typed (with CR
/// for each line end) where bracketed paste is off.
pub proof fn lemma_plain_text_pasted_as_is(text: Seq<char>)
    requires
        !text.contains(esc_char()),
        !text.contains('\r'),
    ensures
        paste_body(text) == text,
    decreases text.len(),
{
    lemma_without_escapes_identity(text);
    lemma_normalize_identity(text);
}

proof fn lemma_without_escapes_identity(s: Seq<char>)
    requires
        !s.contains(esc_char()),
    ensures
        without_escapes(s) == s,
    decreases s.len(),
{
    if s.len() > 0 {
        assert(!s.drop_last().contains(esc_char())) by {
            if s.drop_last().contains(esc_char()) {
                let i = choose|i: int| 0 <= i < s.drop_last().len() && s.drop_last()[i] == esc_char();
                assert(s[i] == esc_char());
            }
        }
        lemma_without_escapes_identity(s.drop_last());
        assert(s[s.len() - 1] != esc_char());
        assert(s.drop_last().push(s.last()) =~= s);
    }
}

proof fn lemma_normalize_identity(s: Seq<char>)
    requires
        !s.contains('\r'),
    ensures
        normalize_newlines(s) == s,
    decreases s.len(),
{
    if s.len() > 0 {
        let rest = s.subrange(1, s.len() as int);
        assert(!rest.contains('\r')) by {
            if rest.contains('\r') {
                let i = choose|i: int| 0 <= i < rest.len() && rest[i] == '\r';
                assert(s[i + 1] == '\r');
            }
        }
        lemma_normalize_identity(rest);
        assert(s[0] != '\r');
        assert(seq![s[0]] + rest =~= s);
    }
}

/// Bytes to send for pasted `text`. Pasted ESC must not terminate bracketed
/// paste and inject terminal keys.
pub fn paste(text: &str, bracketed: bool) -> (bytes: Vec<u8>)
    ensures
        bytes@ == paste_encoding(text@, bracketed),
        bracketed ==> !paste_body(text@).contains(esc_char()),
{
    proof {
        lemma_paste_cannot_escape_brackets(text@);
    }
    let chars = chars_of(text);
    let mut kept: Vec<char> = Vec::new();
    let mut i: usize = 0;
    while i < chars.len()
        invariant
            i <= chars.len(),
            kept@ == without_escapes(chars@.take(i as int)),
        decreases chars.len() - i,
    {
        assert(chars@.take(i + 1).drop_last() =~= chars@.take(i as int));
        if chars[i] != '\x1b' {
            kept.push(chars[i]);
        }
        i = i + 1;
    }
    assert(chars@.take(chars.len() as int) =~= chars@);
    let mut norm: Vec<char> = Vec::new();
    assert(kept@.subrange(0, kept.len() as int) =~= kept@);
    let mut j: usize = 0;
    while j < kept.len()
        invariant
            j <= kept.len(),
            norm@ + normalize_newlines(kept@.subrange(j as int, kept.len() as int))
                == normalize_newlines(kept@),
        decreases kept.len() - j,
    {
        let ghost rest = kept@.subrange(j as int, kept.len() as int);
        let ghost before = norm@;
        let c = kept[j];
        if c == '\r' {
            if j + 1 < kept.len() && kept[j + 1] == '\n' {
                assert(rest.subrange(2, rest.len() as int) =~= kept@.subrange(
                    j + 2,
                    kept.len() as int,
                ));
                j = j + 2;
            } else {
                assert(rest.subrange(1, rest.len() as int) =~= kept@.subrange(
                    j + 1,
                    kept.len() as int,
                ));
                j = j + 1;
            }
            norm.push('\n');
        } else {
            assert(rest.subrange(1, rest.len() as int) =~= kept@.subrange(
                j + 1,
                kept.len() as int,
            ));
            norm.push(c);
            j = j + 1;
        }
        assert(norm@ + normalize_newlines(kept@.subrange(j as int, kept.len() as int)) =~= before
            + normalize_newlines(rest));
    }
    assert(kept@.subrange(kept.len() as int, kept.len() as int) =~= Seq::<char>::empty());
    assert(norm@ =~= paste_body(text@));
    let mut body: Vec<char> = Vec::new();
    if bracketed {
        body.push('\x1b');
        body.push('[');
        body.push('2');
        body.push('0');
        body.push('0');
        body.push('~');
    }
    let ghost start = body@;
    let mut k: usize = 0;
    while k < norm.len()
        invariant
            k <= norm.len(),
            body@ == start + (if bracketed {
                norm@.take(k as int)
            } else {
                lf_to_cr(norm@.take(k as int))
            }),
        decreases norm.len() - k,
    {
        let c = norm[k];
        body.push(
            if !bracketed && c == '\n' {
                '\r'
            } else {
                c
            },
        );
        k = k + 1;
        assert(norm@.take(k as int).drop_last() =~= norm@.take(k - 1));
        assert(lf_to_cr(norm@.take(k as int)) =~= lf_to_cr(norm@.take(k - 1)).push(
            if c == '\n' {
                '\r'
            } else {
                c
            },
        ));
    }
    assert(norm@.take(norm.len() as int) =~= norm@);
    if bracketed {
        body.push('\x1b');
        body.push('[');
        body.push('2');
        body.push('0');
        body.push('1');
        body.push('~');
        assert(body@ =~= bracket_open() + paste_body(text@) + bracket_close());
    } else {
        assert(body@ =~= lf_to_cr(paste_body(text@)));
    }
    utf8_bytes(&body)
}


proof fn lemma_normalize_no_cr(s: Seq<char>)
    ensures
        !normalize_newlines(s).contains('\r'),
    decreases s.len(),
{
    if s.len() > 0 {
        let rest = if s[0] == '\r' && s.len() >= 2 && s[1] == '\n' {
            s.subrange(2, s.len() as int)
        } else {
            s.subrange(1, s.len() as int)
        };
        lemma_normalize_no_cr(rest);
        let head = if s[0] == '\r' {
            '\n'
        } else {
            s[0]
        };
        let r = normalize_newlines(s);
        assert(r == seq![head] + normalize_newlines(rest));
        assert forall|i: int| 0 <= i < r.len() implies r[i] != '\r' by {
            if i > 0 {
                assert(r[i] == normalize_newlines(rest)[i - 1]);
            }
        }
    }
}

/// Without LF, normalizing turns each CR into LF.
proof fn lemma_normalize_without_lf(s: Seq<char>)
    requires
        !s.contains('\n'),
    ensures
        normalize_newlines(s) == s.map_values(|c: char| if c == '\r' { '\n' } else { c }),
    decreases s.len(),
{
    if s.len() > 0 {
        let rest = s.subrange(1, s.len() as int);
        assert(!rest.contains('\n')) by {
            if rest.contains('\n') {
                let i = choose|i: int| 0 <= i < rest.len() && rest[i] == '\n';
                assert(s[i + 1] == '\n');
            }
        }
        if s.len() >= 2 {
            assert(s[1] == rest[0]);
        }
        lemma_normalize_without_lf(rest);
        assert(normalize_newlines(s) =~= s.map_values(|c: char| if c == '\r' { '\n' } else { c }));
    } else {
        assert(normalize_newlines(s) =~= s.map_values(|c: char| if c == '\r' { '\n' } else { c }));
    }
}

/// A bracketed paste is the opening bracket `ESC [200~`, the pasted text,
/// and the closing bracket `ESC [201~`; between the brackets there is no ESC
/// and no CR byte, so the text can neither end the paste early nor inject
/// keys, and line ends arrive as LF.
pub proof fn lemma_bracketed_paste_bytes(text: Seq<char>)
    ensures
        paste_encoding(text, true) == seq![27u8, 91, 50, 48, 48, 126] + encode_utf8(paste_body(text))
            + seq![27u8, 91, 50, 48, 49, 126],
        forall|i: int|
            0 <= i < encode_utf8(paste_body(text)).len() ==> #[trigger] encode_utf8(paste_body(text))[i]
                != 27 && encode_utf8(paste_body(text))[i] != 13,
{
    let body = paste_body(text);
    let open = seq![27u8, 91, 50, 48, 48, 126];
    let close = seq![27u8, 91, 50, 48, 49, 126];
    crate::text::lemma_ascii_encodes(open);
    crate::text::lemma_ascii_encodes(close);
    assert(open.map_values(|b: u8| b as char) =~= bracket_open());
    assert(close.map_values(|b: u8| b as char) =~= bracket_close());
    crate::text::lemma_encode_concat(bracket_open() + body, bracket_close());
    crate::text::lemma_encode_concat(bracket_open(), body);
    lemma_paste_cannot_escape_brackets(text);
    lemma_normalize_no_cr(without_escapes(text));
    crate::text::lemma_ascii_byte_absent(body, esc_char());
    crate::text::lemma_ascii_byte_absent(body, '\r');
}

/// Pasting is settled without bracketed paste: what is sent is valid UTF-8
/// with no ESC and no LF byte, and pasting that text again sends the same.
pub proof fn lemma_unbracketed_paste_settles(text: Seq<char>)
    ensures
        valid_utf8(paste_encoding(text, false)),
        paste_encoding(decode_utf8(paste_encoding(text, false)), false) == paste_encoding(text, false),
        forall|i: int|
            0 <= i < paste_encoding(text, false).len() ==> #[trigger] paste_encoding(text, false)[i]
                != 27 && paste_encoding(text, false)[i] != 10,
{
    let body = paste_body(text);
    let sent = lf_to_cr(body);
    lemma_paste_cannot_escape_brackets(text);
    lemma_normalize_no_cr(without_escapes(text));
    assert(!sent.contains(esc_char())) by {
        if sent.contains(esc_char()) {
            let i = choose|i: int| 0 <= i < sent.len() && sent[i] == esc_char();
            assert(body[i] == esc_char());
        }
    }
    assert(!sent.contains('\n')) by {
        if sent.contains('\n') {
            let i = choose|i: int| 0 <= i < sent.len() && sent[i] == '\n';
            assert(sent[i] == (if body[i] == '\n' { '\r' } else { body[i] }));
        }
    }
    vstd::utf8::encode_utf8_valid_utf8(sent);
    vstd::utf8::encode_utf8_decode_utf8(sent);
    lemma_without_escapes_identity(sent);
    lemma_normalize_without_lf(sent);
    let back = sent.map_values(|c: char| if c == '\r' { '\n' } else { c });
    assert(paste_body(sent) == back);
    assert(lf_to_cr(back) =~= sent) by {
        assert forall|i: int| 0 <= i < sent.len() implies lf_to_cr(back)[i] == sent[i] by {
            assert(sent[i] != '\n');
        }
    }
    crate::text::lemma_ascii_byte_absent(sent, esc_char());
    crate::text::lemma_ascii_byte_absent(sent, '\n');
}


/// The four cursor keys, in the order of their xterm final bytes.
pub open spec fn cursor_keys() -> Seq<Seq<char>> {
    seq!["up"@, "down"@, "right"@, "left"@]
}

/// The cursor keys end in xterm's final bytes `A` (Up), `B` (Down), `C`
/// (Right) and `D` (Left) whatever modifiers are held, so that two different
/// cursor keys never send the same bytes; unmodified they are `ESC [ X`, or
/// `ESC O X` in application cursor mode.
pub proof fn lemma_cursor_keys(i: int, control: bool, alt: bool, shift: bool, application_cursor: bool)
    requires
        0 <= i < 4,
    ensures
        key_encoding(cursor_keys()[i], control, alt, shift, application_cursor) matches Some(b)
            && b.len() >= 3 && b[0] == 27 && b.last() == (65 + i) as u8,
        !control && !alt && !shift ==> key_encoding(
            cursor_keys()[i],
            control,
            alt,
            shift,
            application_cursor,
        ) == Some(
            if application_cursor {
                seq![27u8, 79, (65 + i) as u8]
            } else {
                seq![27u8, 91, (65 + i) as u8]
            },
        ),
{
    reveal_strlit("up");
    reveal_strlit("down");
    reveal_strlit("right");
    reveal_strlit("left");
    assert("up"@.len() == 2 && "down"@.len() == 4 && "right"@.len() == 5 && "left"@.len() == 4);
    assert("down"@[0] == 'd' && "left"@[0] == 'l');
    let k = cursor_keys()[i];
    let m = modifier_code(control, alt, shift);
    if m > 1 {
        let b = seq![esc(), '[' as u8, '1' as u8, ';' as u8] + decimal(m) + seq![(65 + i) as u8];
        assert(b[0] == 27);
        assert(b.last() == (65 + i) as u8);
    }
}

/// Different cursor keys never send the same bytes, whatever modifiers each
/// is pressed with.
pub proof fn lemma_cursor_keys_differ(
    i: int,
    j: int,
    c1: bool,
    a1: bool,
    s1: bool,
    app1: bool,
    c2: bool,
    a2: bool,
    s2: bool,
    app2: bool,
)
    requires
        0 <= i < 4,
        0 <= j < 4,
        i != j,
    ensures
        key_encoding(cursor_keys()[i], c1, a1, s1, app1) != key_encoding(
            cursor_keys()[j],
            c2,
            a2,
            s2,
            app2,
        ),
{
    lemma_cursor_keys(i, c1, a1, s1, app1);
    lemma_cursor_keys(j, c2, a2, s2, app2);
}

} // verus!
