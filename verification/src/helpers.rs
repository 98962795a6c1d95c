//! The path normalizer.
//!
//! A caller-supplied path is first canonicalized by the operating system
//! (outside this library); the canonical string is then turned into the
//! form the platform shell wants: any verbatim (extended-length) prefix is
//! stripped, the characters are re-encoded as UTF-16 code units, and a nul
//! terminator is appended.  Strings holding an embedded nul are rejected
//! rather than silently truncated.

use vstd::prelude::*;

use crate::error::RevealError;

verus! {

/// The verbatim (extended-length) prefix some platforms put in front of a
/// canonical path: two backslashes, a question mark and a backslash.
pub open spec fn verbatim_prefix() -> Seq<char> {
    seq!['\\', '\\', '?', '\\']
}

/// Whether a path string starts with the verbatim prefix.
pub open spec fn has_verbatim_prefix(s: Seq<char>) -> bool {
    s.len() >= 4 && s.subrange(0, 4) == verbatim_prefix()
}

/// The path string with the verbatim prefix stripped, when it carries one.
pub open spec fn strip_verbatim(s: Seq<char>) -> Seq<char> {
    if has_verbatim_prefix(s) {
        s.skip(4)
    } else {
        s
    }
}

/// The UTF-16 code units of one character: one unit for a character in the
/// basic plane, a surrogate pair for anything above it.
pub open spec fn utf16_units(c: char) -> Seq<u16> {
    if (c as u32) < 0x10000 {
        seq![(c as u32) as u16]
    } else {
        seq![
            (0xD800 + ((c as u32) - 0x10000) / 0x400) as u16,
            (0xDC00 + ((c as u32) - 0x10000) % 0x400) as u16,
        ]
    }
}

/// The UTF-16 code units of a character sequence, in order.
pub open spec fn utf16_of(s: Seq<char>) -> Seq<u16>
    decreases s.len(),
{
    if s.len() == 0 {
        Seq::empty()
    } else {
        utf16_units(s[0]) + utf16_of(s.skip(1))
    }
}

/// The full native encoding of a canonical path string: verbatim prefix
/// stripped, characters re-encoded as UTF-16, nul terminator appended.
pub open spec fn wide_of(s: Seq<char>) -> Seq<u16> {
    utf16_of(strip_verbatim(s)).push(0u16)
}

/// A canonical path in the nul-terminated wide form the platform shell
/// consumes in place of a string path.
#[derive(Debug, Clone, PartialEq, Eq)]
pub struct NativePath {
    pub units: Vec<u16>,
}

impl View for NativePath {
    type V = Seq<u16>;

    open spec fn view(&self) -> Seq<u16> {
        self.units@
    }
}

impl NativePath {
    /// A well-formed encoding: non-empty, nul-terminated, and the
    /// terminator is the only nul.
    pub open spec fn wf(&self) -> bool {
        &&& self@.len() >= 1
        &&& self@.last() == 0u16
        &&& forall|i: int| 0 <= i < self@.len() - 1 ==> self@[i] != 0u16
    }
}

/// Appending one character's code units commutes with encoding.
proof fn lemma_utf16_of_push(s: Seq<char>, c: char)
    ensures
        utf16_of(s.push(c)) == utf16_of(s) + utf16_units(c),
    decreases s.len(),
{
    if s.len() == 0 {
        assert(s.push(c)[0] == c);
        assert(s.push(c).skip(1) =~= Seq::<char>::empty());
        assert(utf16_of(s.push(c)) == utf16_units(c) + utf16_of(Seq::<char>::empty()));
        assert(utf16_units(c) + Seq::<u16>::empty() =~= utf16_units(c));
        assert(utf16_of(s) + utf16_units(c) =~= utf16_units(c));
    } else {
        assert(s.push(c)[0] == s[0]);
        assert(s.push(c).skip(1) =~= s.skip(1).push(c));
        lemma_utf16_of_push(s.skip(1), c);
        assert(utf16_of(s.push(c)) == utf16_units(s[0]) + (utf16_of(s.skip(1))
            + utf16_units(c)));
        assert(utf16_units(s[0]) + (utf16_of(s.skip(1)) + utf16_units(c)) =~= (utf16_units(s[0])
            + utf16_of(s.skip(1))) + utf16_units(c));
    }
}

/// Pushes the UTF-16 code units of `c` onto `units`.
fn push_utf16_units(units: &mut Vec<u16>, c: char)
    ensures
        final(units)@ == old(units)@ + utf16_units(c),
{
    proof {
        vstd::utf8::char_is_scalar(c);
    }
    let v = c as u32;
    if v < 0x10000 {
        units.push(v as u16);
    } else {
        let w = v - 0x10000;
        units.push(0xD800u16 + (w / 0x400) as u16);
        units.push(0xDC00u16 + (w % 0x400) as u16);
    }
    proof {
        assert(units@ =~= old(units)@ + utf16_units(c));
    }
}

/// Whether some code unit is nul.
fn contains_nul(units: &Vec<u16>) -> (found: bool)
    ensures
        found == units@.contains(0u16),
{
    let mut j: usize = 0;
    while j < units.len()
        invariant
            j <= units@.len(),
            forall|k: int| 0 <= k < j ==> units@[k] != 0u16,
        decreases units@.len() - j,
    {
        if units[j] == 0u16 {
            assert(units@.contains(0u16));
            return true;
        }
        j += 1;
    }
    assert(!units@.contains(0u16));
    false
}

/// Turns a canonical path string into the wide, nul-terminated encoding the
/// platform shell requires, stripping the verbatim prefix when the
/// canonical form carries one.  A string whose encoding holds an embedded
/// nul is rejected: the shell would silently truncate it.
pub fn path_to_c_str(path: &str) -> (r: Result<NativePath, RevealError>)
    ensures
        r is Ok <==> !utf16_of(strip_verbatim(path@)).contains(0u16),
        r matches Ok(p) ==> p@ == wide_of(path@) && p.wf(),
        r matches Err(e) ==> e == RevealError::EncodingFailed,
{
    let n = path.unicode_len();
    let start: usize = if n >= 4 && path.get_char(0) == '\\' && path.get_char(1) == '\\'
        && path.get_char(2) == '?' && path.get_char(3) == '\\' {
        proof {
            assert(path@.subrange(0, 4) =~= verbatim_prefix());
        }
        4
    } else {
        proof {
            if path@.len() >= 4 && path@.subrange(0, 4) == verbatim_prefix() {
                assert(path@[0] == '\\' && path@[1] == '\\' && path@[2] == '?'
                    && path@[3] == '\\') by {
                    assert(path@.subrange(0, 4)[0] == path@[0]);
                    assert(path@.subrange(0, 4)[1] == path@[1]);
                    assert(path@.subrange(0, 4)[2] == path@[2]);
                    assert(path@.subrange(0, 4)[3] == path@[3]);
                }
            }
        }
        0
    };
    let ghost stripped: Seq<char> = strip_verbatim(path@);
    proof {
        assert(stripped =~= path@.subrange(start as int, n as int));
    }
    let mut units: Vec<u16> = Vec::new();
    let mut i: usize = start;
    while i < n
        invariant
            start <= i <= n,
            n == path@.len(),
            stripped == path@.subrange(start as int, n as int),
            units@ == utf16_of(path@.subrange(start as int, i as int)),
        decreases n - i,
    {
        let c = path.get_char(i);
        push_utf16_units(&mut units, c);
        proof {
            assert(path@.subrange(start as int, i + 1) =~= path@.subrange(
                start as int,
                i as int,
            ).push(c));
            lemma_utf16_of_push(path@.subrange(start as int, i as int), c);
        }
        i += 1;
    }
    proof {
        assert(units@ == utf16_of(stripped));
    }
    if contains_nul(&units) {
        Err(RevealError::EncodingFailed)
    } else {
        units.push(0u16);
        proof {
            assert(units@ =~= utf16_of(stripped).push(0u16));
        }
        Ok(NativePath { units })
    }
}

/// Normalization is idempotent: the canonical form that comes out of a
/// normalization carries no verbatim prefix any more, and normalizing it
/// again yields the same encoding.  The premise excludes strings that hide
/// a second verbatim prefix under the first, which no canonical path does.
pub proof fn lemma_normalize_idempotent(s: Seq<char>)
    requires
        !has_verbatim_prefix(strip_verbatim(s)),
    ensures
        wide_of(strip_verbatim(s)) == wide_of(s),
{
}

/// Stripping removes exactly the verbatim prefix and nothing else: a
/// prefixed string is the prefix followed by its stripped form, and an
/// unprefixed string is left untouched.
pub proof fn lemma_strip_verbatim_exact(s: Seq<char>)
    ensures
        has_verbatim_prefix(s) ==> strip_verbatim(s) == s.skip(4) && s == verbatim_prefix()
            + strip_verbatim(s),
        !has_verbatim_prefix(s) ==> strip_verbatim(s) == s,
{
    if has_verbatim_prefix(s) {
        assert(s =~= verbatim_prefix() + s.skip(4));
    }
}

} // verus!
