//! Note names, note parsing and the playback-mode frequency mapping:
//! 12-tone equal temperament with A4 = 440 Hz, octaves scaled by powers of
//! two. Frequencies are millihertz, so A4 is exactly 440,000 and C4 is
//! 261,626 (440,000 x 2^(-9/12), rounded to the nearest millihertz).

use vstd::arithmetic::power2::pow2;
use vstd::bits::{lemma_u64_shl_is_mul, lemma_u64_shr_is_div};
use vstd::prelude::*;
use vstd::string::StringSliceAdditionalSpecFns;

verus! {

/// The largest octave the scaling accepts; far beyond audible, it exists
/// only so that the scaled millihertz value provably fits in 64 bits.
pub const MAX_OCTAVE: u32 = 30;

/// A note of the chromatic scale, or silence. Sharp and flat spellings of
/// the same pitch are distinct names with equal frequencies.
#[derive(Clone, Copy, Debug, PartialEq, Eq, Structural)]
pub enum NoteName {
    C,
    CSharp,
    D,
    DSharp,
    DFlat,
    E,
    EFlat,
    F,
    FSharp,
    G,
    GSharp,
    GFlat,
    A,
    ASharp,
    AFlat,
    B,
    BFlat,
    Silence,
}

/// The semitone offset of a name from A within its octave; silence sits on
/// A so that its (zero) frequency scales trivially.
pub open spec fn note_index_spec(n: NoteName) -> int {
    match n {
        NoteName::C => -9,
        NoteName::CSharp => -8,
        NoteName::DFlat => -8,
        NoteName::D => -7,
        NoteName::DSharp => -6,
        NoteName::EFlat => -6,
        NoteName::E => -5,
        NoteName::F => -4,
        NoteName::FSharp => -3,
        NoteName::GFlat => -3,
        NoteName::G => -2,
        NoteName::GSharp => -1,
        NoteName::AFlat => -1,
        NoteName::A => 0,
        NoteName::Silence => 0,
        NoteName::ASharp => 1,
        NoteName::BFlat => 1,
        NoteName::B => 2,
    }
}

/// The name's frequency in octave 4, millihertz, equal temperament around
/// A4 = 440,000; silence is 0.
pub open spec fn base_millihertz_spec(n: NoteName) -> u64 {
    match n {
        NoteName::C => 261626,
        NoteName::CSharp => 277183,
        NoteName::DFlat => 277183,
        NoteName::D => 293665,
        NoteName::DSharp => 311127,
        NoteName::EFlat => 311127,
        NoteName::E => 329628,
        NoteName::F => 349228,
        NoteName::FSharp => 369994,
        NoteName::GFlat => 369994,
        NoteName::G => 391995,
        NoteName::GSharp => 415305,
        NoteName::AFlat => 415305,
        NoteName::A => 440000,
        NoteName::Silence => 0,
        NoteName::ASharp => 466164,
        NoteName::BFlat => 466164,
        NoteName::B => 493883,
    }
}

/// The octave-4 frequency scaled to the given octave: doubled per octave
/// above 4, halved (rounding down) per octave below.
pub open spec fn octave_scaled_spec(base: u64, octave: u32) -> int {
    if octave >= 4 {
        (base as int) * (pow2((octave - 4) as nat) as int)
    } else {
        (base as int) / (pow2((4 - octave) as nat) as int)
    }
}

/// The frequency of a note in millihertz: its octave-4 value scaled by the
/// octave. Silence is 0 in every octave.
pub open spec fn note_millihertz_spec(n: NoteName, octave: u32) -> int {
    octave_scaled_spec(base_millihertz_spec(n), octave)
}

/// The words the names print as.
pub open spec fn name_chars_spec(n: NoteName) -> Seq<char> {
    match n {
        NoteName::Silence => "Silence"@,
        NoteName::C => "C"@,
        NoteName::CSharp => "CSharp"@,
        NoteName::DFlat => "DFlat"@,
        NoteName::D => "D"@,
        NoteName::DSharp => "DSharp"@,
        NoteName::EFlat => "EFlat"@,
        NoteName::E => "E"@,
        NoteName::F => "F"@,
        NoteName::FSharp => "FSharp"@,
        NoteName::GFlat => "GFlat"@,
        NoteName::G => "G"@,
        NoteName::GSharp => "GSharp"@,
        NoteName::AFlat => "AFlat"@,
        NoteName::A => "A"@,
        NoteName::ASharp => "ASharp"@,
        NoteName::BFlat => "BFlat"@,
        NoteName::B => "B"@,
    }
}

impl NoteName {
    /// The semitone offset of this name from A within its octave.
    pub fn to_note_index(&self) -> (r: i32)
        ensures
            r as int == note_index_spec(*self),
    {
        match self {
            NoteName::C => -9,
            NoteName::CSharp | NoteName::DFlat => -8,
            NoteName::D => -7,
            NoteName::DSharp | NoteName::EFlat => -6,
            NoteName::E => -5,
            NoteName::F => -4,
            NoteName::FSharp | NoteName::GFlat => -3,
            NoteName::G => -2,
            NoteName::GSharp | NoteName::AFlat => -1,
            NoteName::A | NoteName::Silence => 0,
            NoteName::ASharp | NoteName::BFlat => 1,
            NoteName::B => 2,
        }
    }

    /// The word this name prints as.
    pub fn to_str(&self) -> (r: &str)
        ensures
            r@ == name_chars_spec(*self),
    {
        match self {
            NoteName::Silence => "Silence",
            NoteName::C => "C",
            NoteName::CSharp => "CSharp",
            NoteName::DFlat => "DFlat",
            NoteName::D => "D",
            NoteName::DSharp => "DSharp",
            NoteName::EFlat => "EFlat",
            NoteName::E => "E",
            NoteName::F => "F",
            NoteName::FSharp => "FSharp",
            NoteName::GFlat => "GFlat",
            NoteName::G => "G",
            NoteName::GSharp => "GSharp",
            NoteName::AFlat => "AFlat",
            NoteName::A => "A",
            NoteName::ASharp => "ASharp",
            NoteName::BFlat => "BFlat",
            NoteName::B => "B",
        }
    }
}

/// The one parsing failure: the given text names no note.
#[derive(Debug)]
pub enum NoteError {
    InvalidNote(String),
}

/// The name's frequency in octave 4, millihertz.
pub fn base_millihertz(n: NoteName) -> (r: u64)
    ensures
        r == base_millihertz_spec(n),
{
    match n {
        NoteName::C => 261626,
        NoteName::CSharp | NoteName::DFlat => 277183,
        NoteName::D => 293665,
        NoteName::DSharp | NoteName::EFlat => 311127,
        NoteName::E => 329628,
        NoteName::F => 349228,
        NoteName::FSharp | NoteName::GFlat => 369994,
        NoteName::G => 391995,
        NoteName::GSharp | NoteName::AFlat => 415305,
        NoteName::A => 440000,
        NoteName::Silence => 0,
        NoteName::ASharp | NoteName::BFlat => 466164,
        NoteName::B => 493883,
    }
}

/// Scales an octave-4 frequency to the given octave by powers of two.
pub fn apply_octave(base: u64, octave: u32) -> (r: u64)
    requires
        base <= 500_000,
        octave <= MAX_OCTAVE,
    ensures
        r as int == octave_scaled_spec(base, octave),
{
    if octave < 4 {
        let e: u64 = (4 - octave) as u64;
        proof {
            lemma_u64_shr_is_div(base, e);
        }
        base >> e
    } else {
        let e: u64 = (octave - 4) as u64;
        proof {
            vstd::arithmetic::power2::lemma_pow2_pos(e as nat);
            vstd::arithmetic::power2::lemma2_to64();
            assert(pow2(e as nat) <= pow2(26)) by {
                if e < 26 {
                    vstd::arithmetic::power2::lemma_pow2_strictly_increases(e as nat, 26nat);
                }
            }
            assert((base as int) * (pow2(e as nat) as int) <= 500_000 * (pow2(e as nat) as int))
                by {
                vstd::arithmetic::mul::lemma_mul_inequality(
                    base as int,
                    500_000,
                    pow2(e as nat) as int,
                );
            }
            assert(500_000 * (pow2(e as nat) as int) <= 500_000 * 0x4000000int) by {
                vstd::arithmetic::mul::lemma_mul_inequality(
                    pow2(e as nat) as int,
                    0x4000000int,
                    500_000,
                );
            }
            lemma_u64_shl_is_mul(base, e);
        }
        base << e
    }
}

/// The frequency of a note in millihertz.
pub fn note_millihertz(n: NoteName, octave: u32) -> (r: u64)
    requires
        octave <= MAX_OCTAVE,
    ensures
        r as int == note_millihertz_spec(n, octave),
{
    apply_octave(base_millihertz(n), octave)
}

/// ASCII whitespace, the characters note text is trimmed of.
pub open spec fn is_space_spec(c: u8) -> bool {
    c == 32 || (9 <= c && c <= 13)
}

/// ASCII lowercasing of one byte; other bytes pass through unchanged.
pub open spec fn ascii_lower_spec(c: u8) -> u8 {
    if 65 <= c && c <= 90 {
        (c + 32) as u8
    } else {
        c
    }
}

/// ASCII lowercasing of a byte string.
pub open spec fn lower_spec(s: Seq<u8>) -> Seq<u8> {
    s.map_values(|c: u8| ascii_lower_spec(c))
}

/// The byte string with leading whitespace removed.
pub open spec fn trim_front_spec(s: Seq<u8>) -> Seq<u8>
    decreases s.len(),
{
    if s.len() > 0 && is_space_spec(s[0]) {
        trim_front_spec(s.drop_first())
    } else {
        s
    }
}

/// The byte string with trailing whitespace removed.
pub open spec fn trim_back_spec(s: Seq<u8>) -> Seq<u8>
    decreases s.len(),
{
    if s.len() > 0 && is_space_spec(s.last()) {
        trim_back_spec(s.drop_last())
    } else {
        s
    }
}

/// The byte string with whitespace removed at both ends.
pub open spec fn trim_spec(s: Seq<u8>) -> Seq<u8> {
    trim_back_spec(trim_front_spec(s))
}

proof fn lemma_trim_front_subrange(s: Seq<u8>, k: int)
    requires
        0 <= k <= s.len(),
        forall|j: int| 0 <= j < k ==> is_space_spec(s[j]),
        k == s.len() || !is_space_spec(s[k]),
    ensures
        trim_front_spec(s) == s.subrange(k, s.len() as int),
    decreases k,
{
    if k == 0 {
        assert(trim_front_spec(s) =~= s.subrange(0, s.len() as int));
    } else {
        let t = s.drop_first();
        assert(forall|j: int| 0 <= j < k - 1 ==> is_space_spec(t[j]));
        lemma_trim_front_subrange(t, k - 1);
        assert(t.subrange(k - 1, t.len() as int) =~= s.subrange(k, s.len() as int));
    }
}

proof fn lemma_trim_back_subrange(s: Seq<u8>, e: int)
    requires
        0 <= e <= s.len(),
        forall|j: int| e <= j < s.len() ==> is_space_spec(s[j]),
        e == 0 || !is_space_spec(s[e - 1]),
    ensures
        trim_back_spec(s) == s.subrange(0, e),
    decreases s.len(),
{
    if e == s.len() {
        assert(trim_back_spec(s) =~= s.subrange(0, e));
    } else {
        let t = s.drop_last();
        assert(forall|j: int| e <= j < t.len() ==> is_space_spec(t[j]));
        lemma_trim_back_subrange(t, e);
        assert(t.subrange(0, e) =~= s.subrange(0, e));
    }
}

/// The note a bare letter names. Tokens are matched byte by byte, so the
/// letters appear as their ASCII codes: a..g are 97..103, `#` is 35, and
/// `sharp` and `flat` are 115,104,97,114,112 and 102,108,97,116.
pub open spec fn note_of_letter(c: u8) -> Option<NoteName> {
    if c == 97 {
        Some(NoteName::A)
    } else if c == 98 {
        Some(NoteName::B)
    } else if c == 99 {
        Some(NoteName::C)
    } else if c == 100 {
        Some(NoteName::D)
    } else if c == 101 {
        Some(NoteName::E)
    } else if c == 102 {
        Some(NoteName::F)
    } else if c == 103 {
        Some(NoteName::G)
    } else {
        None
    }
}

/// The note a letter names when raised a semitone; only the five letters
/// with a sharp spelling are accepted.
pub open spec fn sharp_of_letter(c: u8) -> Option<NoteName> {
    if c == 99 {
        Some(NoteName::CSharp)
    } else if c == 100 {
        Some(NoteName::DSharp)
    } else if c == 102 {
        Some(NoteName::FSharp)
    } else if c == 103 {
        Some(NoteName::GSharp)
    } else if c == 97 {
        Some(NoteName::ASharp)
    } else {
        None
    }
}

/// The note a letter names when lowered a semitone; only the five letters
/// with a flat spelling are accepted.
pub open spec fn flat_of_letter(c: u8) -> Option<NoteName> {
    if c == 100 {
        Some(NoteName::DFlat)
    } else if c == 101 {
        Some(NoteName::EFlat)
    } else if c == 103 {
        Some(NoteName::GFlat)
    } else if c == 97 {
        Some(NoteName::AFlat)
    } else if c == 98 {
        Some(NoteName::BFlat)
    } else {
        None
    }
}

/// The note a trimmed, lowercased token names: the empty token is silence;
/// a bare letter, a letter with `#` or `b`, or a letter with `sharp` or
/// `flat` written out; anything else names no note.
pub open spec fn note_of_token(t: Seq<u8>) -> Option<NoteName> {
    if t.len() == 0 {
        Some(NoteName::Silence)
    } else if t.len() == 1 {
        note_of_letter(t[0])
    } else if t.len() == 2 {
        if t[1] == 35 {
            sharp_of_letter(t[0])
        } else if t[1] == 98 {
            flat_of_letter(t[0])
        } else {
            None
        }
    } else if t.len() == 5 {
        if t[1] == 102 && t[2] == 108 && t[3] == 97 && t[4] == 116 {
            flat_of_letter(t[0])
        } else {
            None
        }
    } else if t.len() == 6 {
        if t[1] == 115 && t[2] == 104 && t[3] == 97 && t[4] == 114 && t[5] == 112 {
            sharp_of_letter(t[0])
        } else {
            None
        }
    } else {
        None
    }
}

/// Whether a byte is ASCII whitespace.
fn is_space_byte(c: u8) -> (r: bool)
    ensures
        r == is_space_spec(c),
{
    c == 32 || (9 <= c && c <= 13)
}

/// ASCII lowercasing of one byte.
fn to_lower_byte(c: u8) -> (r: u8)
    ensures
        r == ascii_lower_spec(c),
{
    if 65 <= c && c <= 90 {
        c + 32
    } else {
        c
    }
}

/// Parses a note token from raw bytes, trimming whitespace and lowercasing
/// first.
pub fn parse_note_bytes(b: &[u8]) -> (r: Option<NoteName>)
    ensures
        r == note_of_token(lower_spec(trim_spec(b@))),
{
    let ghost s = b@;
    let n = b.len();
    let mut k: usize = 0;
    while k < n && is_space_byte(b[k])
        invariant
            k <= n,
            s == b@,
            n == s.len(),
            forall|j: int| 0 <= j < k ==> is_space_spec(s[j]),
        decreases n - k,
    {
        k = k + 1;
    }
    let mut e: usize = n;
    while e > k && is_space_byte(b[e - 1])
        invariant
            k <= e <= n,
            s == b@,
            n == s.len(),
            forall|j: int| e <= j < n ==> is_space_spec(s[j]),
        decreases e,
    {
        e = e - 1;
    }
    proof {
        lemma_trim_front_subrange(s, k as int);
        let t1 = s.subrange(k as int, s.len() as int);
        assert(forall|j: int| e - k <= j < t1.len() ==> is_space_spec(t1[j]));
        lemma_trim_back_subrange(t1, e - k);
        assert(t1.subrange(0, e - k) =~= s.subrange(k as int, e as int));
    }
    let mut tok: Vec<u8> = Vec::new();
    let mut i: usize = k;
    while i < e
        invariant
            k <= i <= e <= n,
            s == b@,
            n == s.len(),
            tok@.len() == i - k,
            forall|j: int| 0 <= j < tok@.len() ==> tok@[j] == ascii_lower_spec(s[k + j]),
        decreases e - i,
    {
        tok.push(to_lower_byte(b[i]));
        i = i + 1;
    }
    proof {
        assert(tok@ =~= lower_spec(trim_spec(s)));
    }
    let m = tok.len();
    if m == 0 {
        Some(NoteName::Silence)
    } else if m == 1 {
        letter_note(tok[0])
    } else if m == 2 {
        if tok[1] == 35 {
            letter_sharp(tok[0])
        } else if tok[1] == 98 {
            letter_flat(tok[0])
        } else {
            None
        }
    } else if m == 5 {
        if tok[1] == 102 && tok[2] == 108 && tok[3] == 97 && tok[4] == 116 {
            letter_flat(tok[0])
        } else {
            None
        }
    } else if m == 6 {
        if tok[1] == 115 && tok[2] == 104 && tok[3] == 97 && tok[4] == 114 && tok[5] == 112 {
            letter_sharp(tok[0])
        } else {
            None
        }
    } else {
        None
    }
}

/// The note a bare letter names.
fn letter_note(c: u8) -> (r: Option<NoteName>)
    ensures
        r == note_of_letter(c),
{
    match c {
        97 => Some(NoteName::A),
        98 => Some(NoteName::B),
        99 => Some(NoteName::C),
        100 => Some(NoteName::D),
        101 => Some(NoteName::E),
        102 => Some(NoteName::F),
        103 => Some(NoteName::G),
        _ => None,
    }
}

/// The note a letter names when raised a semitone.
fn letter_sharp(c: u8) -> (r: Option<NoteName>)
    ensures
        r == sharp_of_letter(c),
{
    match c {
        99 => Some(NoteName::CSharp),
        100 => Some(NoteName::DSharp),
        102 => Some(NoteName::FSharp),
        103 => Some(NoteName::GSharp),
        97 => Some(NoteName::ASharp),
        _ => None,
    }
}

/// The note a letter names when lowered a semitone.
fn letter_flat(c: u8) -> (r: Option<NoteName>)
    ensures
        r == flat_of_letter(c),
{
    match c {
        100 => Some(NoteName::DFlat),
        101 => Some(NoteName::EFlat),
        103 => Some(NoteName::GFlat),
        97 => Some(NoteName::AFlat),
        98 => Some(NoteName::BFlat),
        _ => None,
    }
}

impl NoteName {
    /// Parses a note name from text. The text is trimmed and lowercased;
    /// on failure the error carries the text as given.
    pub fn from_str(input: &str) -> (r: Result<NoteName, NoteError>)
        ensures
            ({
                let tok = lower_spec(trim_spec(input.spec_bytes()));
                match r {
                    Ok(n) => note_of_token(tok) == Some(n),
                    Err(e) => note_of_token(tok) is None && (e matches NoteError::InvalidNote(s)
                        && s@ == input@),
                }
            }),
    {
        let b = input.as_bytes();
        match parse_note_bytes(b) {
            Some(n) => Ok(n),
            None => Err(NoteError::InvalidNote(input.to_owned())),
        }
    }
}

/// The letters that spell out a sharp.
pub open spec fn sharp_expansion() -> Seq<u8> {
    seq![115u8, 104u8, 97u8, 114u8, 112u8]
}

/// The letters that spell out a flat.
pub open spec fn flat_expansion() -> Seq<u8> {
    seq![102u8, 108u8, 97u8, 116u8]
}

/// What one byte becomes under replacement: the expansion if it is the
/// target, itself otherwise.
pub open spec fn expand_byte(c: u8, target: u8, expansion: Seq<u8>) -> Seq<u8> {
    if c == target {
        expansion
    } else {
        seq![c]
    }
}

/// The byte string with every occurrence of `target` replaced by
/// `expansion`.
pub open spec fn replace_byte_spec(s: Seq<u8>, target: u8, expansion: Seq<u8>) -> Seq<u8>
    decreases s.len(),
{
    if s.len() == 0 {
        Seq::empty()
    } else {
        expand_byte(s[0], target, expansion) + replace_byte_spec(s.drop_first(), target, expansion)
    }
}

proof fn lemma_replace_byte_push(s: Seq<u8>, c: u8, target: u8, expansion: Seq<u8>)
    ensures
        replace_byte_spec(s.push(c), target, expansion) == replace_byte_spec(s, target, expansion)
            + expand_byte(c, target, expansion),
    decreases s.len(),
{
    if s.len() == 0 {
        assert(s.push(c)[0] == c);
        assert(s.push(c).drop_first() =~= s);
        assert(replace_byte_spec(s.push(c), target, expansion) == expand_byte(c, target, expansion)
            + replace_byte_spec(s, target, expansion));
        assert(expand_byte(c, target, expansion) + replace_byte_spec(s, target, expansion)
            =~= replace_byte_spec(s, target, expansion) + expand_byte(c, target, expansion));
    } else {
        assert(s.push(c)[0] == s[0]);
        assert(s.push(c).drop_first() =~= s.drop_first().push(c));
        lemma_replace_byte_push(s.drop_first(), c, target, expansion);
        assert(replace_byte_spec(s.push(c), target, expansion) == expand_byte(s[0], target, expansion)
            + (replace_byte_spec(s.drop_first(), target, expansion) + expand_byte(
            c,
            target,
            expansion,
        )));
        assert(expand_byte(s[0], target, expansion) + (replace_byte_spec(
            s.drop_first(),
            target,
            expansion,
        ) + expand_byte(c, target, expansion)) =~= (expand_byte(s[0], target, expansion)
            + replace_byte_spec(s.drop_first(), target, expansion)) + expand_byte(
            c,
            target,
            expansion,
        ));
    }
}

/// Whether `p` occurs contiguously anywhere in `s`.
pub open spec fn contains_seq(s: Seq<u8>, p: Seq<u8>) -> bool {
    exists|i: int| 0 <= i && i + p.len() <= s.len() && #[trigger] s.subrange(i, i + p.len() as int) == p
}

/// Replaces every occurrence of `target` with `expansion`.
fn replace_byte(src: &Vec<u8>, target: u8, expansion: &Vec<u8>) -> (r: Vec<u8>)
    ensures
        r@ == replace_byte_spec(src@, target, expansion@),
{
    let mut r: Vec<u8> = Vec::new();
    let mut i: usize = 0;
    while i < src.len()
        invariant
            i <= src@.len(),
            r@ == replace_byte_spec(src@.take(i as int), target, expansion@),
        decreases src@.len() - i,
    {
        let c = src[i];
        if c == target {
            let mut j: usize = 0;
            while j < expansion.len()
                invariant
                    j <= expansion@.len(),
                    r@ == replace_byte_spec(src@.take(i as int), target, expansion@)
                        + expansion@.take(j as int),
                decreases expansion@.len() - j,
            {
                r.push(expansion[j]);
                proof {
                    assert(expansion@.take(j as int).push(expansion@[j as int]) =~= expansion@.take(
                        j + 1,
                    ));
                    assert(r@ =~= replace_byte_spec(src@.take(i as int), target, expansion@)
                        + expansion@.take(j + 1));
                }
                j = j + 1;
            }
            proof {
                assert(expansion@.take(expansion@.len() as int) =~= expansion@);
            }
        } else {
            r.push(c);
            proof {
                assert(r@ =~= replace_byte_spec(src@.take(i as int), target, expansion@) + seq![c]);
            }
        }
        proof {
            assert(src@.take(i as int).push(src@[i as int]) =~= src@.take(i + 1));
            lemma_replace_byte_push(src@.take(i as int), src@[i as int], target, expansion@);
        }
        i = i + 1;
    }
    proof {
        assert(src@.take(src@.len() as int) =~= src@);
    }
    r
}

/// Whether `pat` occurs contiguously anywhere in `hay`.
fn contains_bytes(hay: &Vec<u8>, pat: &Vec<u8>) -> (r: bool)
    requires
        pat@.len() >= 1,
    ensures
        r == contains_seq(hay@, pat@),
{
    let n = hay.len();
    let m = pat.len();
    if n < m {
        return false;
    }
    let mut i: usize = 0;
    let mut found = false;
    while i <= n - m && !found
        invariant
            m >= 1,
            m <= n,
            n == hay@.len(),
            m == pat@.len(),
            i <= n,
            found ==> contains_seq(hay@, pat@),
            !found ==> forall|i2: int|
                0 <= i2 < i ==> #[trigger] hay@.subrange(i2, i2 + m) != pat@,
        decreases n - i + (if found { 0int } else { 1int }),
    {
        let mut j: usize = 0;
        while j < m && hay[i + j] == pat[j]
            invariant
                j <= m,
                i + m <= n,
                n == hay@.len(),
                m == pat@.len(),
                forall|j2: int| 0 <= j2 < j ==> hay@[i + j2] == pat@[j2],
            decreases m - j,
        {
            j = j + 1;
        }
        if j == m {
            proof {
                assert(hay@.subrange(i as int, i + m) =~= pat@);
            }
            found = true;
        } else {
            proof {
                assert(hay@.subrange(i as int, i + m)[j as int] != pat@[j as int]);
            }
        }
        i = i + 1;
    }
    found
}

/// The written form of a note, cleaned as scores write them: lowercased,
/// `#` spelt out as `sharp` and `b` (not in first position) as `flat`; a
/// note written with a leading `b` that mentions a flat at all is the note
/// B flat.
pub open spec fn clean_spec(s: Seq<u8>) -> Seq<u8> {
    let low = lower_spec(s);
    if low.len() > 0 && low[0] == 98 {
        let x = replace_byte_spec(low, 35, sharp_expansion());
        if contains_seq(x, flat_expansion()) || contains_seq(x, seq![98u8, 98u8]) {
            seq![98u8, 102u8, 108u8, 97u8, 116u8]
        } else {
            x
        }
    } else {
        replace_byte_spec(replace_byte_spec(low, 35, sharp_expansion()), 98, flat_expansion())
    }
}

/// Lowercases raw bytes into a vector.
fn lower_bytes(src: &[u8]) -> (r: Vec<u8>)
    ensures
        r@ == lower_spec(src@),
{
    let mut r: Vec<u8> = Vec::new();
    let mut i: usize = 0;
    while i < src.len()
        invariant
            i <= src@.len(),
            r@.len() == i,
            forall|j: int| 0 <= j < i ==> r@[j] == ascii_lower_spec(src@[j]),
        decreases src@.len() - i,
    {
        r.push(to_lower_byte(src[i]));
        i = i + 1;
    }
    proof {
        assert(r@ =~= lower_spec(src@));
    }
    r
}

/// Cleans the written form of a note into a parseable token.
fn clean_bytes(src: &[u8]) -> (r: Vec<u8>)
    ensures
        r@ == clean_spec(src@),
{
    let low = lower_bytes(src);
    let mut sharp_exp: Vec<u8> = Vec::new();
    sharp_exp.push(115);
    sharp_exp.push(104);
    sharp_exp.push(97);
    sharp_exp.push(114);
    sharp_exp.push(112);
    proof {
        assert(sharp_exp@ =~= sharp_expansion());
    }
    let mut flat_exp: Vec<u8> = Vec::new();
    flat_exp.push(102);
    flat_exp.push(108);
    flat_exp.push(97);
    flat_exp.push(116);
    proof {
        assert(flat_exp@ =~= flat_expansion());
    }
    if low.len() > 0 && low[0] == 98 {
        let x = replace_byte(&low, 35, &sharp_exp);
        let mut double_b: Vec<u8> = Vec::new();
        double_b.push(98);
        double_b.push(98);
        proof {
            assert(double_b@ =~= seq![98u8, 98u8]);
        }
        if contains_bytes(&x, &flat_exp) || contains_bytes(&x, &double_b) {
            let mut r: Vec<u8> = Vec::new();
            r.push(98);
            r.push(102);
            r.push(108);
            r.push(97);
            r.push(116);
            proof {
                assert(r@ =~= seq![98u8, 102u8, 108u8, 97u8, 116u8]);
            }
            r
        } else {
            x
        }
    } else {
        let x = replace_byte(&low, 35, &sharp_exp);
        replace_byte(&x, 98, &flat_exp)
    }
}

/// The note a cleaned written form names, if any.
pub open spec fn note_of_text(s: Seq<u8>) -> Option<NoteName> {
    note_of_token(lower_spec(trim_spec(clean_spec(s))))
}

/// One note of a score: its name, octave, duration in milliseconds, and
/// the frequency they map to.
#[derive(Clone, Copy, Debug)]
pub struct Note {
    pub name: NoteName,
    pub time: u64,
    pub frequency_millihertz: u64,
    pub octave: u32,
}

impl Note {
    /// Builds a note from its written form. The text is cleaned first;
    /// text that names no note is rejected, and the error carries the text
    /// as given.
    pub fn new(note: &str, octave: u32, time: u64) -> (r: Result<Note, NoteError>)
        requires
            octave <= MAX_OCTAVE,
        ensures
            match r {
                Ok(nt) => note_of_text(note.spec_bytes()) == Some(nt.name) && nt.octave == octave
                    && nt.time == time && nt.frequency_millihertz as int == note_millihertz_spec(
                    nt.name,
                    octave,
                ),
                Err(e) => note_of_text(note.spec_bytes()) is None && (e matches
                    NoteError::InvalidNote(s) && s@ == note@),
            },
    {
        let cleaned = clean_bytes(note.as_bytes());
        match parse_note_bytes(cleaned.as_slice()) {
            Some(name) => {
                let frequency_millihertz = note_millihertz(name, octave);
                Ok(Note { name, time, frequency_millihertz, octave })
            },
            None => Err(NoteError::InvalidNote(note.to_owned())),
        }
    }
}

} // verus!
