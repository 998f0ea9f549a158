//! Repair of `\u` escape sequences inside text extracted from script
//! payloads: every valid 4-hex-digit escape that names a Unicode scalar value
//! is replaced by that character; a truncated or invalid occurrence leaves
//! the literal `\u` marker behind. The transform is total: no input is an
//! error.

use vstd::prelude::*;
use crate::strutil::{str_chars, chars_to_string};

verus! {

/// Whether `v` is a Unicode scalar value, i.e. a value that names a `char`.
pub open spec fn spec_is_scalar(v: u32) -> bool {
    v < 0xD800 || (0xE000 <= v && v <= 0x10FFFF)
}

/// What `char::from_u32` returns.
pub open spec fn spec_char_from_u32(v: u32) -> Option<char> {
    if spec_is_scalar(v) {
        Some(v as char)
    } else {
        None
    }
}

/// Relies on `char::from_u32` from std: `Some` of the character with code
/// `v` exactly when `v` is a Unicode scalar value, `None` otherwise.
#[verifier::external_body]
fn char_from_u32(v: u32) -> (r: Option<char>)
    ensures
        r == spec_char_from_u32(v),
{
    char::from_u32(v)
}

/// The value of one hexadecimal digit, upper or lower case.
pub open spec fn spec_hex_val(c: char) -> Option<u32> {
    if '0' <= c && c <= '9' {
        Some((c as u32 - 48) as u32)
    } else if 'a' <= c && c <= 'f' {
        Some((c as u32 - 87) as u32)
    } else if 'A' <= c && c <= 'F' {
        Some((c as u32 - 55) as u32)
    } else {
        None
    }
}

fn hex_val(c: char) -> (r: Option<u32>)
    ensures
        r == spec_hex_val(c),
{
    if '0' <= c && c <= '9' {
        Some(c as u32 - 48)
    } else if 'a' <= c && c <= 'f' {
        Some(c as u32 - 87)
    } else if 'A' <= c && c <= 'F' {
        Some(c as u32 - 55)
    } else {
        None
    }
}

/// The code named by four hexadecimal digits, most significant first;
/// `None` when any of the four characters is not a hexadecimal digit.
pub open spec fn spec_escape_code(s: Seq<char>) -> Option<u32>
    recommends
        s.len() == 4,
{
    let a = spec_hex_val(s[0]);
    let b = spec_hex_val(s[1]);
    let c = spec_hex_val(s[2]);
    let d = spec_hex_val(s[3]);
    if a is Some && b is Some && c is Some && d is Some {
        Some(((((a->0 * 16 + b->0) * 16 + c->0) * 16 + d->0)) as u32)
    } else {
        None
    }
}

/// The repaired form of `s`: scanning left to right, each `\u` followed by
/// four hexadecimal digits naming a scalar value becomes that character;
/// a `\u` followed by four characters that are not such an escape becomes
/// the bare `\u` marker with those four characters dropped; a `\u` with
/// fewer than four characters left keeps its trailing text as it stands.
pub open spec fn spec_repair(s: Seq<char>) -> Seq<char>
    decreases s.len(),
{
    if s.len() < 2 {
        s
    } else if s[0] == '\\' && s[1] == 'u' {
        let rest = s.skip(2);
        if rest.len() < 4 {
            seq!['\\', 'u'] + spec_repair(rest)
        } else {
            let decoded = match spec_escape_code(rest.take(4)) {
                Some(code) => spec_char_from_u32(code),
                None => None,
            };
            match decoded {
                Some(ch) => seq![ch] + spec_repair(rest.skip(4)),
                None => seq!['\\', 'u'] + spec_repair(rest.skip(4)),
            }
        }
    } else {
        seq![s[0]] + spec_repair(s.skip(1))
    }
}

/// The repaired form of the characters `s`, by the same scan.
#[verifier::rlimit(60)]
pub fn repair_chars(s: &Vec<char>) -> (out: Vec<char>)
    ensures
        out@ == spec_repair(s@),
{
    let mut out: Vec<char> = Vec::new();
    let mut i: usize = 0;
    proof {
        assert(s@.skip(0) =~= s@);
        assert(out@ + spec_repair(s@) =~= spec_repair(s@));
    }
    while i < s.len()
        invariant
            i <= s@.len(),
            spec_repair(s@) == out@ + spec_repair(s@.skip(i as int)),
        decreases s@.len() - i,
    {
        let ghost tail = s@.skip(i as int);
        if i + 1 < s.len() && s[i] == '\\' && s[i + 1] == 'u' {
            proof {
                assert(tail[0] == s@[i as int]);
                assert(tail[1] == s@[i + 1]);
                assert(tail.skip(2) =~= s@.skip(i + 2));
            }
            if s.len() - i - 2 < 4 {
                out.push('\\');
                out.push('u');
                i = i + 2;
                proof {
                    assert(spec_repair(tail) == seq!['\\', 'u'] + spec_repair(s@.skip(i as int)));
                    assert(out@ + spec_repair(s@.skip(i as int)) =~= spec_repair(s@));
                }
            } else {
                let ghost rest = tail.skip(2);
                proof {
                    assert(rest.take(4) =~= seq![s@[i + 2], s@[i + 3], s@[i + 4], s@[i + 5]]);
                    assert(rest.skip(4) =~= s@.skip(i + 6));
                }
                let a = hex_val(s[i + 2]);
                let b = hex_val(s[i + 3]);
                let c = hex_val(s[i + 4]);
                let d = hex_val(s[i + 5]);
                let decoded: Option<char> =
                    if a.is_some() && b.is_some() && c.is_some() && d.is_some() {
                        let code = ((a.unwrap() * 16 + b.unwrap()) * 16 + c.unwrap()) * 16
                            + d.unwrap();
                        char_from_u32(code)
                    } else {
                        None
                    };
                match decoded {
                    Some(ch) => {
                        out.push(ch);
                    },
                    None => {
                        out.push('\\');
                        out.push('u');
                    },
                }
                i = i + 6;
                proof {
                    assert(out@ + spec_repair(s@.skip(i as int)) =~= spec_repair(s@));
                }
            }
        } else {
            proof {
                assert(tail[0] == s@[i as int]);
                assert(tail.len() >= 2 ==> tail[1] == s@[i + 1]);
                assert(tail.skip(1) =~= s@.skip(i + 1));
            }
            let ch = s[i];
            out.push(ch);
            i = i + 1;
            proof {
                assert(spec_repair(tail) == seq![ch] + spec_repair(s@.skip(i as int)));
                assert(out@ + spec_repair(s@.skip(i as int)) =~= spec_repair(s@));
            }
        }
    }
    proof {
        assert(s@.skip(s@.len() as int) =~= Seq::<char>::empty());
        assert(out@ =~= spec_repair(s@));
    }
    out
}

/// The repaired form of `text`, with every valid `\uXXXX` escape decoded and
/// every truncated or invalid occurrence left as the literal `\u` marker.
pub fn replace_unicode_escapes(text: &str) -> (out: String)
    ensures
        out@ == spec_repair(text@),
{
    let chars = str_chars(text);
    let repaired = repair_chars(&chars);
    chars_to_string(&repaired)
}

/// Whether no position of `s` starts the two-character `\u` marker.
pub open spec fn spec_no_escape_marker(s: Seq<char>) -> bool {
    forall|i: int| 0 <= i && i + 1 < s.len() ==> !(#[trigger] s[i] == '\\' && s[i + 1] == 'u')
}

/// Text with no `\u` marker is left unchanged by escape repair.
pub proof fn lemma_repair_without_marker(s: Seq<char>)
    requires
        spec_no_escape_marker(s),
    ensures
        spec_repair(s) == s,
    decreases s.len(),
{
    if s.len() < 2 {
    } else {
        assert(!(s[0] == '\\' && s[1] == 'u'));
        assert forall|i: int| 0 <= i && i + 1 < s.skip(1).len() implies !(#[trigger] s.skip(1)[i]
            == '\\' && s.skip(1)[i + 1] == 'u') by {
            assert(s.skip(1)[i] == s[i + 1]);
            assert(s.skip(1)[i + 1] == s[i + 2]);
        }
        lemma_repair_without_marker(s.skip(1));
        assert(seq![s[0]] + s.skip(1) =~= s);
    }
}

/// Repairing text that is exactly one valid escape, `\u` and four
/// hexadecimal digits naming a scalar value, yields exactly that character.
pub proof fn lemma_repair_valid_escape(s: Seq<char>, code: u32)
    requires
        s.len() == 6,
        s[0] == '\\',
        s[1] == 'u',
        spec_escape_code(s.skip(2)) == Some(code),
        spec_is_scalar(code),
    ensures
        spec_repair(s) == seq![code as char],
{
    let rest = s.skip(2);
    assert(rest.take(4) =~= rest);
    assert(rest.skip(4) =~= Seq::<char>::empty());
    assert(seq![code as char] + spec_repair(Seq::<char>::empty()) =~= seq![code as char]);
}

/// A truncated escape at the end of the text, `\u` with fewer than four
/// characters left and no further marker among them, is kept verbatim.
pub proof fn lemma_repair_truncated_escape(s: Seq<char>)
    requires
        2 <= s.len() < 6,
        s[0] == '\\',
        s[1] == 'u',
        spec_no_escape_marker(s.skip(2)),
    ensures
        spec_repair(s) == s,
{
    let rest = s.skip(2);
    lemma_repair_without_marker(rest);
    assert(seq!['\\', 'u'] + rest =~= s);
}

/// Escape repair is idempotent on text with no `\u` marker.
pub proof fn lemma_repair_idempotent_without_marker(s: Seq<char>)
    requires
        spec_no_escape_marker(s),
    ensures
        spec_repair(spec_repair(s)) == spec_repair(s),
{
    lemma_repair_without_marker(s);
}

} // verus!
