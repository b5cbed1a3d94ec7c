//! Small pieces of image handling that do not touch pixels: EXIF capture
//! times in ISO form and the names of thumbnail files.
use vstd::prelude::*;

use crate::organization::{is_path_separator, joined_with, plain_base};
use crate::text::{chars_of, concat3, string_of};

verus! {

/// The version of the thumbnail rendering, part of every thumbnail name.
pub const THUMBNAIL_SPEC: &'static str = "grid-320-v1";

/// The version of the colour and tone analysis that stored results carry.
pub const ANALYSIS_VERSION: &'static str = "basic-color-v2";

/// The number of bytes UTF-8 encodes a character in.
pub open spec fn utf8_len(c: char) -> nat {
    if (c as u32) < 0x80 {
        1
    } else if (c as u32) < 0x800 {
        2
    } else if (c as u32) < 0x10000 {
        3
    } else {
        4
    }
}

/// The number of bytes of the UTF-8 encoding of `s`.
pub open spec fn byte_len(s: Seq<char>) -> nat
    decreases s.len(),
{
    if s.len() == 0 {
        0
    } else {
        byte_len(s.drop_last()) + utf8_len(s.last())
    }
}

/// The character of `s` whose encoding starts at byte `b` is `c`.
pub open spec fn char_at_byte(s: Seq<char>, b: nat, c: char) -> bool {
    exists|k: int| 0 <= k < s.len() && byte_len(#[trigger] s.take(k)) == b && s[k] == c
}

/// The character at position `j` of an EXIF date time once normalized.
pub open spec fn exif_char(s: Seq<char>, j: int, dashes: bool) -> char {
    let at = byte_len(s.take(j));
    if dashes && (at == 4 || at == 7) {
        '-'
    } else if at == 10 && s[j] == ' ' {
        'T'
    } else {
        s[j]
    }
}

/// An EXIF date time (`yyyy:MM:dd HH:mm:ss`) in ISO form: when it has at
/// least 19 bytes, the colons at bytes 4 and 7 (when both are colons)
/// become dashes and a space at byte 10 becomes `T`.
pub open spec fn spec_normalize_exif_datetime(s: Seq<char>) -> Seq<char> {
    if byte_len(s) >= 19 {
        let dashes = char_at_byte(s, 4, ':') && char_at_byte(s, 7, ':');
        Seq::new(s.len(), |j: int| exif_char(s, j, dashes))
    } else {
        s
    }
}

fn char_bytes(c: char) -> (r: usize)
    ensures
        r == utf8_len(c),
{
    let code = c as u32;
    if code < 0x80 {
        1
    } else if code < 0x800 {
        2
    } else if code < 0x10000 {
        3
    } else {
        4
    }
}

/// `n` capped at 32.
pub open spec fn capped(n: nat) -> nat {
    if n < 32 {
        n
    } else {
        32
    }
}

proof fn lemma_byte_len_take(s: Seq<char>, k: int)
    requires
        0 <= k < s.len(),
    ensures
        byte_len(s.take(k + 1)) == byte_len(s.take(k)) + utf8_len(s[k]),
{
    assert(s.take(k + 1).drop_last() =~= s.take(k));
}

proof fn lemma_byte_len_increasing(s: Seq<char>, j: int, k: int)
    requires
        0 <= j < k <= s.len(),
    ensures
        byte_len(s.take(j)) < byte_len(s.take(k)),
    decreases k - j,
{
    lemma_byte_len_take(s, k - 1);
    if j < k - 1 {
        lemma_byte_len_increasing(s, j, k - 1);
    }
}

pub fn normalize_exif_datetime(value: String) -> (r: String)
    ensures
        r@ == spec_normalize_exif_datetime(value@),
{
    let cs = chars_of(value.as_str());
    let ghost s = cs@;
    let mut off: usize = 0;
    let mut colon4 = false;
    let mut colon7 = false;
    let mut k: usize = 0;
    assert(s.take(0) =~= Seq::<char>::empty());
    while k < cs.len()
        invariant
            k <= s.len(),
            s == cs@,
            s == value@,
            off == capped(byte_len(s.take(k as int))),
            colon4 == exists|j: int| 0 <= j < k && byte_len(#[trigger] s.take(j)) == 4 && s[j] == ':',
            colon7 == exists|j: int| 0 <= j < k && byte_len(#[trigger] s.take(j)) == 7 && s[j] == ':',
        decreases s.len() - k,
    {
        proof {
            lemma_byte_len_take(s, k as int);
        }
        if off == 4 && cs[k] == ':' {
            colon4 = true;
        }
        if off == 7 && cs[k] == ':' {
            colon7 = true;
        }
        let width = char_bytes(cs[k]);
        off = if off + width < 32 {
            off + width
        } else {
            32
        };
        k += 1;
    }
    assert(s.take(s.len() as int) =~= s);
    proof {
        assert(colon4 == char_at_byte(s, 4, ':'));
        assert(colon7 == char_at_byte(s, 7, ':'));
    }
    if off < 19 {
        return value;
    }
    let dashes = colon4 && colon7;
    let mut out: Vec<char> = Vec::new();
    let mut at: usize = 0;
    let mut k: usize = 0;
    while k < cs.len()
        invariant
            k <= s.len(),
            s == cs@,
            byte_len(s) >= 19,
            at == capped(byte_len(s.take(k as int))),
            out@ == Seq::new(k as nat, |j: int| exif_char(s, j, dashes)),
        decreases s.len() - k,
    {
        proof {
            lemma_byte_len_take(s, k as int);
        }
        let c = cs[k];
        let fixed = if dashes && (at == 4 || at == 7) {
            '-'
        } else if at == 10 && c == ' ' {
            'T'
        } else {
            c
        };
        out.push(fixed);
        let width = char_bytes(c);
        at = if at + width < 32 {
            at + width
        } else {
            32
        };
        k += 1;
        assert(out@ =~= Seq::new(k as nat, |j: int| exif_char(s, j, dashes)));
    }
    string_of(&out)
}

/// The file name of the thumbnail cached under a key.
pub open spec fn thumbnail_file_name(cache_key: Seq<char>) -> Seq<char> {
    cache_key + "-"@ + THUMBNAIL_SPEC@ + ".jpg"@
}

pub fn thumbnail_name_for_key(cache_key: &str) -> (r: String)
    ensures
        r@ == thumbnail_file_name(cache_key@),
{
    let head = concat3(cache_key, "-", THUMBNAIL_SPEC);
    crate::text::concat(head.as_str(), ".jpg")
}

/// A cache key that makes a plain relative file name: it does not start
/// with a separator and holds no colon.
pub open spec fn plain_key(cache_key: Seq<char>) -> bool {
    (cache_key.len() == 0 || !is_path_separator(cache_key[0])) && !cache_key.contains(':')
}

/// The path of the thumbnail cached under a key in the thumbnail folder,
/// joined as the platform joins paths: where the folder is plain and the
/// key makes a plain file name, the folder, a separator and the file name.
pub fn thumbnail_path_for_key(thumbnail_dir: &str, cache_key: &str) -> (r: String)
    ensures
        plain_base(thumbnail_dir@) && plain_key(cache_key@) ==> exists|sep: char|
            is_path_separator(sep) && r@ == #[trigger] joined_with(
                thumbnail_dir@,
                sep,
                thumbnail_file_name(cache_key@),
            ),
{
    let name = thumbnail_name_for_key(cache_key);
    proof {
        reveal_strlit("-");
        reveal_strlit("grid-320-v1");
        reveal_strlit(".jpg");
        let key = cache_key@;
        let tail = "-"@ + THUMBNAIL_SPEC@ + ".jpg"@;
        assert(name@ =~= key + tail);
        if plain_key(key) {
            assert(name@.len() > 0);
            if key.len() == 0 {
                assert(name@[0] == '-');
            } else {
                assert(name@[0] == key[0]);
            }
            assert(!tail.contains(':'));
            assert(!name@.contains(':')) by {
                if name@.contains(':') {
                    let k = choose|k: int| 0 <= k < name@.len() && name@[k] == ':';
                    if k < key.len() {
                        assert(key[k] == ':');
                    } else {
                        assert(tail[k - key.len()] == ':');
                    }
                }
            }
        }
    }
    crate::organization::join_path(thumbnail_dir, name.as_str())
}

} // verus!
