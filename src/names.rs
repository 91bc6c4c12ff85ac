//! The fixed naming tables of the target language: method synonyms, scalar
//! type keywords, the receiver-last intrinsics, and swizzle names.
use vstd::prelude::*;

verus! {

/// Whether two strings hold the same characters.
pub fn str_eq(a: &str, b: &str) -> (r: bool)
    ensures
        r == (a@ == b@),
{
    let n = a.unicode_len();
    if n != b.unicode_len() {
        return false;
    }
    let mut i: usize = 0;
    while i < n
        invariant
            n == a@.len(),
            n == b@.len(),
            i <= n,
            forall|k: int| 0 <= k < i ==> a@[k] == b@[k],
        decreases n - i,
    {
        if a.get_char(i) != b.get_char(i) {
            return false;
        }
        i = i + 1;
    }
    assert(a@ =~= b@);
    true
}

/// The canonical name of a method that the target spells differently.
pub open spec fn renamed(m: Seq<char>) -> Seq<char> {
    if m == "clamped"@ {
        "clamp"@
    } else if m == "magnitude"@ {
        "length"@
    } else if m == "magnitude_squared"@ {
        "length_squared"@
    } else if m == "face_forward"@ {
        "faceforward"@
    } else if m == "normalized"@ {
        "normalize"@
    } else if m == "reflected"@ {
        "reflect"@
    } else if m == "refracted"@ {
        "refract"@
    } else if m == "min"@ {
        "fmin"@
    } else if m == "max"@ {
        "fmax"@
    } else {
        m
    }
}

/// The target keyword of an authoring scalar type.
pub open spec fn scalar_keyword(s: Seq<char>) -> Option<Seq<char>> {
    if s == "i8"@ {
        Some("char"@)
    } else if s == "u8"@ {
        Some("uchar"@)
    } else if s == "i16"@ {
        Some("short"@)
    } else if s == "u16"@ {
        Some("ushort"@)
    } else if s == "i32"@ {
        Some("int"@)
    } else if s == "u32"@ {
        Some("uint"@)
    } else if s == "i64"@ {
        Some("long"@)
    } else if s == "u64"@ {
        Some("ulong"@)
    } else if s == "f16"@ {
        Some("half"@)
    } else if s == "f32"@ {
        Some("float"@)
    } else {
        None
    }
}

/// The intrinsics whose target signature takes the receiver last.
pub open spec fn receiver_last(m: Seq<char>) -> bool {
    m == "mix"@ || m == "smoothstep"@ || m == "step"@
}

/// One to four characters, each an axis name `x`, `y`, `z` or `w`.
pub open spec fn is_swizzle(s: Seq<char>) -> bool {
    1 <= s.len() <= 4 && forall|i: int|
        0 <= i < s.len() ==> (s[i] == 'x' || s[i] == 'y' || s[i] == 'z' || s[i] == 'w')
}

pub fn rename_method(m: &str) -> (r: String)
    ensures
        r@ == renamed(m@),
{
    if str_eq(m, "clamped") {
        String::from_str("clamp")
    } else if str_eq(m, "magnitude") {
        String::from_str("length")
    } else if str_eq(m, "magnitude_squared") {
        String::from_str("length_squared")
    } else if str_eq(m, "face_forward") {
        String::from_str("faceforward")
    } else if str_eq(m, "normalized") {
        String::from_str("normalize")
    } else if str_eq(m, "reflected") {
        String::from_str("reflect")
    } else if str_eq(m, "refracted") {
        String::from_str("refract")
    } else if str_eq(m, "min") {
        String::from_str("fmin")
    } else if str_eq(m, "max") {
        String::from_str("fmax")
    } else {
        String::from_str(m)
    }
}

pub fn scalar_type_keyword(s: &str) -> (r: Option<&'static str>)
    ensures
        match r {
            Some(k) => scalar_keyword(s@) == Some(k@),
            None => scalar_keyword(s@) is None,
        },
{
    if str_eq(s, "i8") {
        Some("char")
    } else if str_eq(s, "u8") {
        Some("uchar")
    } else if str_eq(s, "i16") {
        Some("short")
    } else if str_eq(s, "u16") {
        Some("ushort")
    } else if str_eq(s, "i32") {
        Some("int")
    } else if str_eq(s, "u32") {
        Some("uint")
    } else if str_eq(s, "i64") {
        Some("long")
    } else if str_eq(s, "u64") {
        Some("ulong")
    } else if str_eq(s, "f16") {
        Some("half")
    } else if str_eq(s, "f32") {
        Some("float")
    } else {
        None
    }
}

pub fn is_receiver_last(m: &str) -> (r: bool)
    ensures
        r == receiver_last(m@),
{
    str_eq(m, "mix") || str_eq(m, "smoothstep") || str_eq(m, "step")
}

/// The pattern that recognises swizzle names.
pub open spec fn swizzle_pattern() -> Seq<char> {
    "^[xywz]{1,4}$"@
}

/// Relies on `regex::Regex::new` and `regex::Regex::is_match`: the pattern
/// `^[xywz]{1,4}$` compiles, and matches a string exactly when the whole
/// string is one to four characters drawn from `x`, `y`, `w`, `z`.
#[verifier::external_body]
fn regex_is_match(pattern: &str, text: &str) -> (r: bool)
    requires
        pattern@ == swizzle_pattern(),
    ensures
        r == is_swizzle(text@),
{
    match regex::Regex::new(pattern) {
        Ok(re) => re.is_match(text),
        Err(_) => false,
    }
}

/// Whether a method name is a swizzle, a read of vector components.
pub fn is_accessor(m: &str) -> (r: bool)
    ensures
        r == is_swizzle(m@),
{
    regex_is_match("^[xywz]{1,4}$", m)
}

} // verus!
