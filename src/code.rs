//! The binary codes of the fields of a Hack C-instruction.
use vstd::prelude::*;
use crate::text::{chars_of, is_lit, is_ws};

verus! {

/// Why a line cannot be assembled.
#[derive(Debug, Clone, Copy, PartialEq, Eq, Structural)]
pub enum CodeGenError {
    /// A field of a C-instruction that has no code.
    InvalidInstruction,
    /// A label or variable whose address does not fit in 16 bits.
    AddressOutOfRange,
}

/// `s` without leading whitespace.
pub open spec fn trim_start(s: Seq<char>) -> Seq<char>
    decreases s.len(),
{
    if s.len() > 0 && is_ws(s[0]) {
        trim_start(s.drop_first())
    } else {
        s
    }
}

/// `s` without trailing whitespace.
pub open spec fn trim_end(s: Seq<char>) -> Seq<char>
    decreases s.len(),
{
    if s.len() > 0 && is_ws(s.last()) {
        trim_end(s.drop_last())
    } else {
        s
    }
}

/// `s` without leading or trailing whitespace.
pub open spec fn trim(s: Seq<char>) -> Seq<char> {
    trim_end(trim_start(s))
}

fn clean_str(s: &Vec<char>) -> (r: Vec<char>)
    ensures
        r@ == trim(s@),
{
    let mut i: usize = 0;
    assert(s@.subrange(0, s@.len() as int) =~= s@);
    while i < s.len() && crate::text::is_ws_char(s[i])
        invariant
            i <= s.len(),
            trim_start(s@) == trim_start(s@.subrange(i as int, s@.len() as int)),
        decreases s.len() - i,
    {
        assert(s@.subrange(i as int, s@.len() as int).drop_first() =~= s@.subrange(i + 1, s@.len() as int));
        i = i + 1;
    }
    let mut j: usize = s.len();
    assert(trim_start(s@.subrange(i as int, s@.len() as int)) == s@.subrange(i as int, s@.len() as int));
    while j > i && crate::text::is_ws_char(s[j - 1])
        invariant
            i <= j <= s.len(),
            trim(s@) == trim_end(s@.subrange(i as int, j as int)),
        decreases j,
    {
        assert(s@.subrange(i as int, j as int).drop_last() =~= s@.subrange(i as int, j - 1));
        j = j - 1;
    }
    let mut r: Vec<char> = Vec::new();
    let mut k: usize = i;
    while k < j
        invariant
            i <= k <= j <= s.len(),
            r@ == s@.subrange(i as int, k as int),
        decreases j - k,
    {
        r.push(s[k]);
        assert(s@.subrange(i as int, k + 1) =~= s@.subrange(i as int, k as int).push(s@[k as int]));
        k = k + 1;
    }
    r
}

/// The code of a destination field.
pub open spec fn dest_bits(s: Seq<char>) -> Option<Seq<char>> {
    let t = trim(s);
    if t.len() == 0 {
        Some("000"@)
    } else if t == "M"@ {
        Some("001"@)
    } else if t == "D"@ {
        Some("010"@)
    } else if t == "DM"@ {
        Some("011"@)
    } else if t == "MD"@ {
        Some("011"@)
    } else if t == "A"@ {
        Some("100"@)
    } else if t == "AM"@ {
        Some("101"@)
    } else if t == "AD"@ {
        Some("110"@)
    } else if t == "ADM"@ {
        Some("111"@)
    } else {
        None
    }
}

/// The code of a computation field.
pub open spec fn comp_bits(s: Seq<char>) -> Option<Seq<char>> {
    let t = trim(s);
    if t == "0"@ {
        Some("0101010"@)
    } else if t == "1"@ {
        Some("0111111"@)
    } else if t == "-1"@ {
        Some("0111010"@)
    } else if t == "D"@ {
        Some("0001100"@)
    } else if t == "A"@ {
        Some("0110000"@)
    } else if t == "M"@ {
        Some("1110000"@)
    } else if t == "!D"@ {
        Some("0001101"@)
    } else if t == "!A"@ {
        Some("0110001"@)
    } else if t == "!M"@ {
        Some("1110001"@)
    } else if t == "-D"@ {
        Some("0001111"@)
    } else if t == "-A"@ {
        Some("0110011"@)
    } else if t == "-M"@ {
        Some("1110011"@)
    } else if t == "D+1"@ {
        Some("0011111"@)
    } else if t == "A+1"@ {
        Some("0110111"@)
    } else if t == "M+1"@ {
        Some("1110111"@)
    } else if t == "D-1"@ {
        Some("0001110"@)
    } else if t == "A-1"@ {
        Some("0110010"@)
    } else if t == "M-1"@ {
        Some("1110010"@)
    } else if t == "D+A"@ {
        Some("0000010"@)
    } else if t == "D+M"@ {
        Some("1000010"@)
    } else if t == "D-A"@ {
        Some("0010011"@)
    } else if t == "D-M"@ {
        Some("1010011"@)
    } else if t == "A-D"@ {
        Some("0000111"@)
    } else if t == "M-D"@ {
        Some("1000111"@)
    } else if t == "D&A"@ {
        Some("0000000"@)
    } else if t == "D&M"@ {
        Some("1000000"@)
    } else if t == "D|A"@ {
        Some("0010101"@)
    } else if t == "D|M"@ {
        Some("1010101"@)
    } else {
        None
    }
}

/// The code of a jump field.
pub open spec fn jump_bits(s: Seq<char>) -> Option<Seq<char>> {
    let t = trim(s);
    if t.len() == 0 {
        Some("000"@)
    } else if t == "JGT"@ {
        Some("001"@)
    } else if t == "JEQ"@ {
        Some("010"@)
    } else if t == "JGE"@ {
        Some("011"@)
    } else if t == "JLT"@ {
        Some("100"@)
    } else if t == "JNE"@ {
        Some("101"@)
    } else if t == "JLE"@ {
        Some("110"@)
    } else if t == "JMP"@ {
        Some("111"@)
    } else {
        None
    }
}

/// The code of a destination field; surrounding whitespace is ignored.
pub fn dest(s: &str) -> (r: Result<&'static str, CodeGenError>)
    ensures
        match r {
            Ok(b) => dest_bits(s@) == Some(b@),
            Err(_) => dest_bits(s@) is None,
        },
{
    dest_of(&chars_of(s))
}

pub(crate) fn dest_of(s: &Vec<char>) -> (r: Result<&'static str, CodeGenError>)
    ensures
        match r {
            Ok(b) => dest_bits(s@) == Some(b@),
            Err(_) => dest_bits(s@) is None,
        },
{
    let t = clean_str(s);
    if t.len() == 0 {
        Ok("000")
    } else if is_lit(&t, "M") {
        Ok("001")
    } else if is_lit(&t, "D") {
        Ok("010")
    } else if is_lit(&t, "DM") {
        Ok("011")
    } else if is_lit(&t, "MD") {
        Ok("011")
    } else if is_lit(&t, "A") {
        Ok("100")
    } else if is_lit(&t, "AM") {
        Ok("101")
    } else if is_lit(&t, "AD") {
        Ok("110")
    } else if is_lit(&t, "ADM") {
        Ok("111")
    } else {
        Err(CodeGenError::InvalidInstruction)
    }
}

/// The code of a computation field; surrounding whitespace is ignored.
pub fn comp(s: &str) -> (r: Result<&'static str, CodeGenError>)
    ensures
        match r {
            Ok(b) => comp_bits(s@) == Some(b@),
            Err(_) => comp_bits(s@) is None,
        },
{
    comp_of(&chars_of(s))
}

pub(crate) fn comp_of(s: &Vec<char>) -> (r: Result<&'static str, CodeGenError>)
    ensures
        match r {
            Ok(b) => comp_bits(s@) == Some(b@),
            Err(_) => comp_bits(s@) is None,
        },
{
    let t = clean_str(s);
    if is_lit(&t, "0") {
        Ok("0101010")
    } else if is_lit(&t, "1") {
        Ok("0111111")
    } else if is_lit(&t, "-1") {
        Ok("0111010")
    } else if is_lit(&t, "D") {
        Ok("0001100")
    } else if is_lit(&t, "A") {
        Ok("0110000")
    } else if is_lit(&t, "M") {
        Ok("1110000")
    } else if is_lit(&t, "!D") {
        Ok("0001101")
    } else if is_lit(&t, "!A") {
        Ok("0110001")
    } else if is_lit(&t, "!M") {
        Ok("1110001")
    } else if is_lit(&t, "-D") {
        Ok("0001111")
    } else if is_lit(&t, "-A") {
        Ok("0110011")
    } else if is_lit(&t, "-M") {
        Ok("1110011")
    } else if is_lit(&t, "D+1") {
        Ok("0011111")
    } else if is_lit(&t, "A+1") {
        Ok("0110111")
    } else if is_lit(&t, "M+1") {
        Ok("1110111")
    } else if is_lit(&t, "D-1") {
        Ok("0001110")
    } else if is_lit(&t, "A-1") {
        Ok("0110010")
    } else if is_lit(&t, "M-1") {
        Ok("1110010")
    } else if is_lit(&t, "D+A") {
        Ok("0000010")
    } else if is_lit(&t, "D+M") {
        Ok("1000010")
    } else if is_lit(&t, "D-A") {
        Ok("0010011")
    } else if is_lit(&t, "D-M") {
        Ok("1010011")
    } else if is_lit(&t, "A-D") {
        Ok("0000111")
    } else if is_lit(&t, "M-D") {
        Ok("1000111")
    } else if is_lit(&t, "D&A") {
        Ok("0000000")
    } else if is_lit(&t, "D&M") {
        Ok("1000000")
    } else if is_lit(&t, "D|A") {
        Ok("0010101")
    } else if is_lit(&t, "D|M") {
        Ok("1010101")
    } else {
        Err(CodeGenError::InvalidInstruction)
    }
}

/// The code of a jump field; surrounding whitespace is ignored.
pub fn jump(s: &str) -> (r: Result<&'static str, CodeGenError>)
    ensures
        match r {
            Ok(b) => jump_bits(s@) == Some(b@),
            Err(_) => jump_bits(s@) is None,
        },
{
    jump_of(&chars_of(s))
}

pub(crate) fn jump_of(s: &Vec<char>) -> (r: Result<&'static str, CodeGenError>)
    ensures
        match r {
            Ok(b) => jump_bits(s@) == Some(b@),
            Err(_) => jump_bits(s@) is None,
        },
{
    let t = clean_str(s);
    if t.len() == 0 {
        Ok("000")
    } else if is_lit(&t, "JGT") {
        Ok("001")
    } else if is_lit(&t, "JEQ") {
        Ok("010")
    } else if is_lit(&t, "JGE") {
        Ok("011")
    } else if is_lit(&t, "JLT") {
        Ok("100")
    } else if is_lit(&t, "JNE") {
        Ok("101")
    } else if is_lit(&t, "JLE") {
        Ok("110")
    } else if is_lit(&t, "JMP") {
        Ok("111")
    } else {
        Err(CodeGenError::InvalidInstruction)
    }
}

} // verus!
