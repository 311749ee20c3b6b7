//! Classification of logical asset paths: the pack category named by the
//! first path component, the expansion named by the second, the pack number
//! taken from the third, and the on-disk index/dat file names derived from
//! them.

use crate::FFXIVError;
use crate::hash;
use crate::hash::PathHash;
use vstd::prelude::*;
use vstd::string::StrSliceExecFns;
use vstd::string::StringExecFns;

verus! {

/// The pack category a path's first component names.
#[derive(Clone, Copy, Debug, PartialEq, Eq, Structural)]
pub enum FileType {
    Common,
    BGCommon,
    BG,
    Cut,
    Chara,
    Shader,
    UI,
    Sound,
    VFX,
    UIScript,
    EXD,
    GameScript,
    Music,
    SqpackTest,
    Debug,
}

/// The expansion a path's second component names.
#[derive(Clone, Copy, Debug, PartialEq, Eq, Structural)]
pub enum GameExpansion {
    FFXIV,
    EX1,
    EX2,
}

/// The code of a character under ASCII lower-casing.
pub open spec fn lower_u32(c: char) -> u32 {
    if 65 <= c as u32 && c as u32 <= 90 {
        (c as u32 + 32) as u32
    } else {
        c as u32
    }
}

/// Case-insensitive equality of two character sequences (ASCII case only).
pub open spec fn seq_eq_ci(s: Seq<char>, t: Seq<char>) -> bool {
    s.len() == t.len() && forall|i: int| 0 <= i < s.len() ==> lower_u32(s[i]) == lower_u32(t[i])
}

/// First index in `[from, to)` holding `c`, or `to` when there is none.
pub open spec fn find_in(s: Seq<char>, from: int, to: int, c: char) -> int
    decreases to - from,
{
    if from >= to {
        to
    } else if s[from] == c {
        from
    } else {
        find_in(s, from + 1, to, c)
    }
}

/// End of the first path component.
pub open spec fn slash0(s: Seq<char>) -> int {
    find_in(s, 0, s.len() as int, '/')
}

/// The first path component.
pub open spec fn seg0(s: Seq<char>) -> Seq<char> {
    s.subrange(0, slash0(s))
}

/// Whether the path has a second component.
pub open spec fn has_seg1(s: Seq<char>) -> bool {
    slash0(s) < s.len()
}

/// End of the second path component.
pub open spec fn slash1(s: Seq<char>) -> int {
    find_in(s, slash0(s) + 1, s.len() as int, '/')
}

/// The second path component.
pub open spec fn seg1(s: Seq<char>) -> Seq<char> {
    s.subrange(slash0(s) + 1, slash1(s))
}

/// Whether the path has a third component.
pub open spec fn has_seg2(s: Seq<char>) -> bool {
    has_seg1(s) && slash1(s) < s.len()
}

/// End of the third path component.
pub open spec fn slash2(s: Seq<char>) -> int {
    find_in(s, slash1(s) + 1, s.len() as int, '/')
}

/// The category each recognised first component names, or `None`.
pub open spec fn cat_of(seg: Seq<char>) -> Option<FileType> {
    if seq_eq_ci(seg, "common"@) {
        Option::Some(FileType::Common)
    } else if seq_eq_ci(seg, "bgcommon"@) {
        Option::Some(FileType::BGCommon)
    } else if seq_eq_ci(seg, "bg"@) {
        Option::Some(FileType::BG)
    } else if seq_eq_ci(seg, "cut"@) {
        Option::Some(FileType::Cut)
    } else if seq_eq_ci(seg, "chara"@) {
        Option::Some(FileType::Chara)
    } else if seq_eq_ci(seg, "shader"@) {
        Option::Some(FileType::Shader)
    } else if seq_eq_ci(seg, "ui"@) {
        Option::Some(FileType::UI)
    } else if seq_eq_ci(seg, "sound"@) {
        Option::Some(FileType::Sound)
    } else if seq_eq_ci(seg, "vfx"@) {
        Option::Some(FileType::VFX)
    } else if seq_eq_ci(seg, "ui_script"@) {
        Option::Some(FileType::UIScript)
    } else if seq_eq_ci(seg, "exd"@) {
        Option::Some(FileType::EXD)
    } else if seq_eq_ci(seg, "game_script"@) {
        Option::Some(FileType::GameScript)
    } else if seq_eq_ci(seg, "music"@) {
        Option::Some(FileType::Music)
    } else if seq_eq_ci(seg, "_sqpack_test"@) {
        Option::Some(FileType::SqpackTest)
    } else if seq_eq_ci(seg, "_debug"@) {
        Option::Some(FileType::Debug)
    } else {
        Option::None
    }
}

/// The expansion each recognised second component names, or `None`.
pub open spec fn exp_of(seg: Seq<char>) -> Option<GameExpansion> {
    if seq_eq_ci(seg, "ffxiv"@) {
        Option::Some(GameExpansion::FFXIV)
    } else if seq_eq_ci(seg, "ex1"@) {
        Option::Some(GameExpansion::EX1)
    } else if seq_eq_ci(seg, "ex2"@) {
        Option::Some(GameExpansion::EX2)
    } else {
        Option::None
    }
}

/// Value of one hex digit under ASCII lower-casing, or `-1`.
pub open spec fn hexv(c: char) -> int {
    let u = lower_u32(c);
    if 48 <= u && u <= 57 {
        u - 48
    } else if 97 <= u && u <= 102 {
        u - 87
    } else {
        -1
    }
}

/// The pack number of a path: the third component's pre-`_` token, read as
/// exactly three hex digits whose value fits a byte, else zero.
pub open spec fn number_of(s: Seq<char>) -> u8 {
    let a = slash1(s) + 1;
    let t = s.subrange(a, find_in(s, a, slash2(s), '_'));
    if t.len() == 3 && hexv(t[0]) >= 0 && hexv(t[1]) >= 0 && hexv(t[2]) >= 0 && hexv(t[0]) * 0x100
        + hexv(t[1]) * 0x10 + hexv(t[2]) <= 0xFF {
        (hexv(t[0]) * 0x100 + hexv(t[1]) * 0x10 + hexv(t[2])) as u8
    } else {
        0u8
    }
}

/// Whether the path literally begins with `exd`, the whole-archive override.
pub open spec fn has_exd_prefix(s: Seq<char>) -> bool {
    s.len() >= 3 && s[0] == 'e' && s[1] == 'x' && s[2] == 'd'
}

/// What a valid path identifies: its category, expansion and number.
pub open spec fn spec_identify(s: Seq<char>) -> Option<(FileType, GameExpansion, u8)> {
    if has_exd_prefix(s) {
        Option::Some((FileType::EXD, GameExpansion::FFXIV, 0u8))
    } else {
        match cat_of(seg0(s)) {
            Option::None => Option::None,
            Option::Some(ft) => if !has_seg1(s) {
                Option::None
            } else {
                match exp_of(seg1(s)) {
                    Option::None => Option::None,
                    Option::Some(exp) => if !has_seg2(s) {
                        Option::None
                    } else {
                        Option::Some((ft, exp, number_of(s)))
                    },
                }
            },
        }
    }
}

/// The two-digit code of each category.
pub open spec fn cat_code(ft: FileType) -> u8 {
    match ft {
        FileType::Common => 0x00,
        FileType::BGCommon => 0x01,
        FileType::BG => 0x02,
        FileType::Cut => 0x03,
        FileType::Chara => 0x04,
        FileType::Shader => 0x05,
        FileType::UI => 0x06,
        FileType::Sound => 0x07,
        FileType::VFX => 0x08,
        FileType::UIScript => 0x09,
        FileType::EXD => 0x0a,
        FileType::GameScript => 0x0b,
        FileType::Music => 0x0c,
        FileType::SqpackTest => 0x12,
        FileType::Debug => 0x13,
    }
}

/// The two-hex-digit string of each category.
pub open spec fn cat_code_str(ft: FileType) -> Seq<char> {
    match ft {
        FileType::Common => "00"@,
        FileType::BGCommon => "01"@,
        FileType::BG => "02"@,
        FileType::Cut => "03"@,
        FileType::Chara => "04"@,
        FileType::Shader => "05"@,
        FileType::UI => "06"@,
        FileType::Sound => "07"@,
        FileType::VFX => "08"@,
        FileType::UIScript => "09"@,
        FileType::EXD => "0a"@,
        FileType::GameScript => "0b"@,
        FileType::Music => "0c"@,
        FileType::SqpackTest => "12"@,
        FileType::Debug => "13"@,
    }
}

/// The code of each expansion.
pub open spec fn exp_code(exp: GameExpansion) -> u8 {
    match exp {
        GameExpansion::FFXIV => 0x00,
        GameExpansion::EX1 => 0x01,
        GameExpansion::EX2 => 0x02,
    }
}

/// The two-hex-digit string of each expansion.
pub open spec fn exp_code_str(exp: GameExpansion) -> Seq<char> {
    match exp {
        GameExpansion::FFXIV => "00"@,
        GameExpansion::EX1 => "01"@,
        GameExpansion::EX2 => "02"@,
    }
}

/// The directory name of each expansion.
pub open spec fn exp_name_str(exp: GameExpansion) -> Seq<char> {
    match exp {
        GameExpansion::FFXIV => "ffxiv"@,
        GameExpansion::EX1 => "ex1"@,
        GameExpansion::EX2 => "ex2"@,
    }
}

/// The hex character of one digit value.
pub open spec fn hex_char(d: int) -> char {
    if d == 0 {
        '0'
    } else if d == 1 {
        '1'
    } else if d == 2 {
        '2'
    } else if d == 3 {
        '3'
    } else if d == 4 {
        '4'
    } else if d == 5 {
        '5'
    } else if d == 6 {
        '6'
    } else if d == 7 {
        '7'
    } else if d == 8 {
        '8'
    } else if d == 9 {
        '9'
    } else if d == 10 {
        'a'
    } else if d == 11 {
        'b'
    } else if d == 12 {
        'c'
    } else if d == 13 {
        'd'
    } else if d == 14 {
        'e'
    } else {
        'f'
    }
}

/// The two-hex-digit string of a byte.
pub open spec fn hex2_str(n: u8) -> Seq<char> {
    seq![hex_char(n as int / 16), hex_char(n as int % 16)]
}

/// The decimal string of a number.
pub open spec fn dec_str(n: nat) -> Seq<char>
    decreases n,
{
    if n < 10 {
        seq![hex_char(n as int)]
    } else {
        dec_str(n / 10).push(hex_char(n as int % 10))
    }
}

/// The on-disk index file path of a classified path under a pack root.
pub open spec fn spec_index_path(root: Seq<char>, ft: FileType, exp: GameExpansion, n: u8) -> Seq<
    char,
> {
    root + "/"@ + exp_name_str(exp) + "/"@ + cat_code_str(ft) + exp_code_str(exp) + hex2_str(n)
        + ".win32.index"@
}

/// The on-disk dat file path of a classified path under a pack root.
pub open spec fn spec_dat_path(
    root: Seq<char>,
    ft: FileType,
    exp: GameExpansion,
    n: u8,
    dat: u8,
) -> Seq<char> {
    root + "/"@ + exp_name_str(exp) + "/"@ + cat_code_str(ft) + exp_code_str(exp) + hex2_str(n)
        + ".win32.dat"@ + dec_str(dat as nat)
}

fn find_in_exec(s: &str, from: usize, to: usize, c: char) -> (r: usize)
    requires
        from <= to <= s@.len(),
    ensures
        r == find_in(s@, from as int, to as int, c),
        from <= r <= to,
{
    let mut i: usize = from;
    while i < to
        invariant
            from <= i <= to <= s@.len(),
            forall|j: int| from <= j < i ==> s@[j] != c,
        decreases to - i,
    {
        if s.get_char(i) == c {
            proof {
                lemma_find_in_is(s@, from as int, to as int, c, i as int);
            }
            return i;
        }
        i = i + 1;
    }
    proof {
        lemma_find_in_is(s@, from as int, to as int, c, to as int);
    }
    to
}

proof fn lemma_find_in_is(s: Seq<char>, from: int, to: int, c: char, p: int)
    requires
        from <= p <= to,
        forall|j: int| from <= j < p ==> s[j] != c,
        p == to || s[p] == c,
    ensures
        find_in(s, from, to, c) == p,
    decreases p - from,
{
    if from < p {
        lemma_find_in_is(s, from + 1, to, c, p);
    }
}

fn lower_u32_exec(c: char) -> (r: u32)
    ensures
        r == lower_u32(c),
{
    let u = c as u32;
    if 65 <= u && u <= 90 {
        u + 32
    } else {
        u
    }
}

/// Case-insensitive comparison of the range `[from, to)` of `s` with `pat`.
fn seg_matches_ci(s: &str, from: usize, to: usize, pat: &str) -> (r: bool)
    requires
        from <= to <= s@.len(),
    ensures
        r == seq_eq_ci(s@.subrange(from as int, to as int), pat@),
{
    let n = pat.unicode_len();
    if to - from != n {
        return false;
    }
    let mut i: usize = 0;
    while i < n
        invariant
            i <= n == pat@.len(),
            from <= to <= s@.len(),
            to - from == n,
            forall|j: int| 0 <= j < i ==> lower_u32(s@[from + j]) == lower_u32(pat@[j]),
        decreases n - i,
    {
        let a = lower_u32_exec(s.get_char(from + i));
        let b = lower_u32_exec(pat.get_char(i));
        if a != b {
            assert(!seq_eq_ci(s@.subrange(from as int, to as int), pat@)) by {
                assert(s@.subrange(from as int, to as int)[i as int] == s@[from + i]);
            }
            return false;
        }
        i = i + 1;
    }
    assert forall|j: int| 0 <= j < n implies lower_u32(
        s@.subrange(from as int, to as int)[j],
    ) == lower_u32(pat@[j]) by {
        assert(s@.subrange(from as int, to as int)[j] == s@[from + j]);
    }
    true
}

impl FileType {
    /// Classifies a path by its first component, case-insensitively.
    pub fn from_expath_string(expath_str: &String) -> (r: Result<FileType, FFXIVError>)
        ensures
            match r {
                Ok(ft) => cat_of(seg0(expath_str@)) == Option::Some(ft),
                Err(e) => cat_of(seg0(expath_str@)) is None && (e matches
                    FFXIVError::UnknownFileType(p) && p@ == expath_str@),
            },
    {
        let s = expath_str.as_str();
        let n = s.unicode_len();
        let f0 = find_in_exec(s, 0, n, '/');
        if seg_matches_ci(s, 0, f0, "common") {
            Ok(FileType::Common)
        } else if seg_matches_ci(s, 0, f0, "bgcommon") {
            Ok(FileType::BGCommon)
        } else if seg_matches_ci(s, 0, f0, "bg") {
            Ok(FileType::BG)
        } else if seg_matches_ci(s, 0, f0, "cut") {
            Ok(FileType::Cut)
        } else if seg_matches_ci(s, 0, f0, "chara") {
            Ok(FileType::Chara)
        } else if seg_matches_ci(s, 0, f0, "shader") {
            Ok(FileType::Shader)
        } else if seg_matches_ci(s, 0, f0, "ui") {
            Ok(FileType::UI)
        } else if seg_matches_ci(s, 0, f0, "sound") {
            Ok(FileType::Sound)
        } else if seg_matches_ci(s, 0, f0, "vfx") {
            Ok(FileType::VFX)
        } else if seg_matches_ci(s, 0, f0, "ui_script") {
            Ok(FileType::UIScript)
        } else if seg_matches_ci(s, 0, f0, "exd") {
            Ok(FileType::EXD)
        } else if seg_matches_ci(s, 0, f0, "game_script") {
            Ok(FileType::GameScript)
        } else if seg_matches_ci(s, 0, f0, "music") {
            Ok(FileType::Music)
        } else if seg_matches_ci(s, 0, f0, "_sqpack_test") {
            Ok(FileType::SqpackTest)
        } else if seg_matches_ci(s, 0, f0, "_debug") {
            Ok(FileType::Debug)
        } else {
            Err(FFXIVError::UnknownFileType(expath_str.clone()))
        }
    }

    /// The category's two-hex-digit code, as a string.
    pub fn get_sqpack_code(&self) -> (r: String)
        ensures
            r@ == cat_code_str(*self),
    {
        match self {
            FileType::Common => String::from_str("00"),
            FileType::BGCommon => String::from_str("01"),
            FileType::BG => String::from_str("02"),
            FileType::Cut => String::from_str("03"),
            FileType::Chara => String::from_str("04"),
            FileType::Shader => String::from_str("05"),
            FileType::UI => String::from_str("06"),
            FileType::Sound => String::from_str("07"),
            FileType::VFX => String::from_str("08"),
            FileType::UIScript => String::from_str("09"),
            FileType::EXD => String::from_str("0a"),
            FileType::GameScript => String::from_str("0b"),
            FileType::Music => String::from_str("0c"),
            FileType::SqpackTest => String::from_str("12"),
            FileType::Debug => String::from_str("13"),
        }
    }

    /// The category's numeric code.
    pub fn get_hashcode(&self) -> (r: u8)
        ensures
            r == cat_code(*self),
    {
        match self {
            FileType::Common => 0x00,
            FileType::BGCommon => 0x01,
            FileType::BG => 0x02,
            FileType::Cut => 0x03,
            FileType::Chara => 0x04,
            FileType::Shader => 0x05,
            FileType::UI => 0x06,
            FileType::Sound => 0x07,
            FileType::VFX => 0x08,
            FileType::UIScript => 0x09,
            FileType::EXD => 0x0a,
            FileType::GameScript => 0x0b,
            FileType::Music => 0x0c,
            FileType::SqpackTest => 0x12,
            FileType::Debug => 0x13,
        }
    }
}

impl GameExpansion {
    /// Classifies a path by its second component, case-insensitively.
    pub fn from_expath_string(expath_str: &String) -> (r: Result<GameExpansion, FFXIVError>)
        ensures
            match r {
                Ok(exp) => has_seg1(expath_str@) && exp_of(seg1(expath_str@)) == Option::Some(exp),
                Err(e) => match e {
                    FFXIVError::CorruptFileName(p) => !has_seg1(expath_str@) && p@ == expath_str@,
                    FFXIVError::UnknownExpansion(p) => has_seg1(expath_str@) && exp_of(
                        seg1(expath_str@),
                    ) is None && p@ == expath_str@,
                    _ => false,
                },
            },
    {
        let s = expath_str.as_str();
        let n = s.unicode_len();
        let f0 = find_in_exec(s, 0, n, '/');
        if f0 == n {
            return Err(FFXIVError::CorruptFileName(expath_str.clone()));
        }
        let f1 = find_in_exec(s, f0 + 1, n, '/');
        if seg_matches_ci(s, f0 + 1, f1, "ffxiv") {
            Ok(GameExpansion::FFXIV)
        } else if seg_matches_ci(s, f0 + 1, f1, "ex1") {
            Ok(GameExpansion::EX1)
        } else if seg_matches_ci(s, f0 + 1, f1, "ex2") {
            Ok(GameExpansion::EX2)
        } else {
            Err(FFXIVError::UnknownExpansion(expath_str.clone()))
        }
    }

    /// The expansion's two-hex-digit code, as a string.
    pub fn get_sqpack_code(&self) -> (r: String)
        ensures
            r@ == exp_code_str(*self),
    {
        match self {
            GameExpansion::FFXIV => String::from_str("00"),
            GameExpansion::EX1 => String::from_str("01"),
            GameExpansion::EX2 => String::from_str("02"),
        }
    }

    /// The expansion's directory name.
    pub fn get_sqpack_name(&self) -> (r: String)
        ensures
            r@ == exp_name_str(*self),
    {
        match self {
            GameExpansion::FFXIV => String::from_str("ffxiv"),
            GameExpansion::EX1 => String::from_str("ex1"),
            GameExpansion::EX2 => String::from_str("ex2"),
        }
    }

    /// The expansion's numeric code.
    pub fn get_hashcode(&self) -> (r: u8)
        ensures
            r == exp_code(*self),
    {
        match self {
            GameExpansion::FFXIV => 0x00,
            GameExpansion::EX1 => 0x01,
            GameExpansion::EX2 => 0x02,
        }
    }
}

fn hex_val_exec(c: char) -> (r: i32)
    ensures
        r as int == hexv(c),
{
    let u = lower_u32_exec(c);
    if 48 <= u && u <= 57 {
        (u - 48) as i32
    } else if 97 <= u && u <= 102 {
        (u - 87) as i32
    } else {
        -1
    }
}

/// Reads the pack number from a path's third component.
fn parse_number(expath_str: &String) -> (r: Result<u8, FFXIVError>)
    ensures
        match r {
            Ok(v) => has_seg2(expath_str@) && v == number_of(expath_str@),
            Err(e) => !has_seg2(expath_str@) && (e matches FFXIVError::CorruptFileName(p) && p@
                == expath_str@),
        },
{
    let s = expath_str.as_str();
    let n = s.unicode_len();
    let f0 = find_in_exec(s, 0, n, '/');
    if f0 == n {
        return Err(FFXIVError::CorruptFileName(expath_str.clone()));
    }
    let f1 = find_in_exec(s, f0 + 1, n, '/');
    if f1 == n {
        return Err(FFXIVError::CorruptFileName(expath_str.clone()));
    }
    let a = f1 + 1;
    let f2 = find_in_exec(s, a, n, '/');
    let u = find_in_exec(s, a, f2, '_');
    let ghost t = expath_str@.subrange(a as int, u as int);
    if u - a == 3 {
        let d0 = hex_val_exec(s.get_char(a));
        let d1 = hex_val_exec(s.get_char(a + 1));
        let d2 = hex_val_exec(s.get_char(a + 2));
        proof {
            assert(t[0] == expath_str@[a as int]);
            assert(t[1] == expath_str@[a + 1]);
            assert(t[2] == expath_str@[a + 2]);
        }
        if d0 >= 0 && d1 >= 0 && d2 >= 0 {
            let v = d0 * 0x100 + d1 * 0x10 + d2;
            if v <= 0xFF {
                Ok(v as u8)
            } else {
                Ok(0)
            }
        } else {
            Ok(0)
        }
    } else {
        Ok(0)
    }
}

/// A classified path: its category, expansion, pack number, and the logical
/// path itself.
pub struct ExFileIdentifier {
    pub file_type: FileType,
    pub expansion: GameExpansion,
    pub number: u8,
    pub exfile: String,
}

impl ExFileIdentifier {
    /// Classifies a logical path, or says which rule it breaks.
    pub fn new(expath_str: &String) -> (r: Result<ExFileIdentifier, FFXIVError>)
        ensures
            match r {
                Ok(ex) => spec_identify(expath_str@) == Option::Some(
                    (ex.file_type, ex.expansion, ex.number),
                ) && ex.exfile@ == expath_str@,
                Err(e) => spec_identify(expath_str@) is None && match e {
                    FFXIVError::UnknownFileType(p) => p@ == expath_str@ && cat_of(
                        seg0(expath_str@),
                    ) is None,
                    FFXIVError::UnknownExpansion(p) => p@ == expath_str@ && cat_of(
                        seg0(expath_str@),
                    ) is Some && has_seg1(expath_str@) && exp_of(seg1(expath_str@)) is None,
                    FFXIVError::CorruptFileName(p) => p@ == expath_str@ && cat_of(
                        seg0(expath_str@),
                    ) is Some && (!has_seg1(expath_str@) || (exp_of(seg1(expath_str@)) is Some
                        && !has_seg2(expath_str@))),
                    _ => false,
                },
            },
    {
        let s = expath_str.as_str();
        let n = s.unicode_len();
        if n >= 3 && s.get_char(0) == 'e' && s.get_char(1) == 'x' && s.get_char(2) == 'd' {
            return Ok(
                ExFileIdentifier {
                    file_type: FileType::EXD,
                    expansion: GameExpansion::FFXIV,
                    number: 0,
                    exfile: expath_str.clone(),
                },
            );
        }
        let file_type = match FileType::from_expath_string(expath_str) {
            Ok(ft) => ft,
            Err(e) => { return Err(e) },
        };
        let expansion = match GameExpansion::from_expath_string(expath_str) {
            Ok(exp) => exp,
            Err(e) => { return Err(e) },
        };
        let number = match parse_number(expath_str) {
            Ok(v) => v,
            Err(e) => { return Err(e) },
        };
        Ok(ExFileIdentifier { file_type, expansion, number, exfile: expath_str.clone() })
    }

    /// The folder and file hashes of the logical path.
    pub fn get_sqpack_hashcode(&self) -> (r: PathHash)
        ensures
            (r.folder_hash, r.file_hash) == hash::path_hash_of(
                vstd::utf8::encode_utf8(self.exfile@),
            ),
    {
        hash::compute_path(&self.exfile)
    }

    /// The six-hex-digit base name `<cat><exp><num>` of the pack files.
    pub fn get_sqpack_base_file_name(&self) -> (r: String)
        ensures
            r@ == cat_code_str(self.file_type) + exp_code_str(self.expansion) + hex2_str(
                self.number,
            ),
    {
        let mut code = self.file_type.get_sqpack_code();
        code.append(self.expansion.get_sqpack_code().as_str());
        code.append(hex2_string(self.number).as_str());
        code
    }

    /// The pack directory and base name under a root: `<root>/<exp>/<base>`.
    fn get_coded_path(&self, sqpack_path: &String) -> (r: String)
        ensures
            r@ == sqpack_path@ + "/"@ + exp_name_str(self.expansion) + "/"@ + cat_code_str(
                self.file_type,
            ) + exp_code_str(self.expansion) + hex2_str(self.number),
    {
        let mut p = sqpack_path.clone();
        p.append("/");
        p.append(self.expansion.get_sqpack_name().as_str());
        p.append("/");
        p.append(self.get_sqpack_base_file_name().as_str());
        p
    }

    /// The dat file path `<root>/<exp>/<base>.win32.dat<n>`.
    pub fn get_dat_file(&self, sqpack_path: &String, dat_file: u8) -> (r: String)
        ensures
            r@ == spec_dat_path(
                sqpack_path@,
                self.file_type,
                self.expansion,
                self.number,
                dat_file,
            ),
    {
        let mut p = self.get_coded_path(sqpack_path);
        p.append(".win32.dat");
        p.append(dec_string(dat_file).as_str());
        p
    }

    /// The index file path `<root>/<exp>/<base>.win32.index`.
    pub fn get_index_file(&self, sqpack_path: &String) -> (r: String)
        ensures
            r@ == spec_index_path(sqpack_path@, self.file_type, self.expansion, self.number),
    {
        let mut p = self.get_coded_path(sqpack_path);
        p.append(".win32.index");
        p
    }
}

fn hex_digit_str(d: u8) -> (r: &'static str)
    requires
        d < 16,
    ensures
        r@ == seq![hex_char(d as int)],
{
    match d {
        0 => {
            proof {
                reveal_strlit("0");
            }
            assert("0"@ =~= seq![hex_char(0)]);
            "0"
        },
        1 => {
            proof {
                reveal_strlit("1");
            }
            assert("1"@ =~= seq![hex_char(1)]);
            "1"
        },
        2 => {
            proof {
                reveal_strlit("2");
            }
            assert("2"@ =~= seq![hex_char(2)]);
            "2"
        },
        3 => {
            proof {
                reveal_strlit("3");
            }
            assert("3"@ =~= seq![hex_char(3)]);
            "3"
        },
        4 => {
            proof {
                reveal_strlit("4");
            }
            assert("4"@ =~= seq![hex_char(4)]);
            "4"
        },
        5 => {
            proof {
                reveal_strlit("5");
            }
            assert("5"@ =~= seq![hex_char(5)]);
            "5"
        },
        6 => {
            proof {
                reveal_strlit("6");
            }
            assert("6"@ =~= seq![hex_char(6)]);
            "6"
        },
        7 => {
            proof {
                reveal_strlit("7");
            }
            assert("7"@ =~= seq![hex_char(7)]);
            "7"
        },
        8 => {
            proof {
                reveal_strlit("8");
            }
            assert("8"@ =~= seq![hex_char(8)]);
            "8"
        },
        9 => {
            proof {
                reveal_strlit("9");
            }
            assert("9"@ =~= seq![hex_char(9)]);
            "9"
        },
        10 => {
            proof {
                reveal_strlit("a");
            }
            assert("a"@ =~= seq![hex_char(10)]);
            "a"
        },
        11 => {
            proof {
                reveal_strlit("b");
            }
            assert("b"@ =~= seq![hex_char(11)]);
            "b"
        },
        12 => {
            proof {
                reveal_strlit("c");
            }
            assert("c"@ =~= seq![hex_char(12)]);
            "c"
        },
        13 => {
            proof {
                reveal_strlit("d");
            }
            assert("d"@ =~= seq![hex_char(13)]);
            "d"
        },
        14 => {
            proof {
                reveal_strlit("e");
            }
            assert("e"@ =~= seq![hex_char(14)]);
            "e"
        },
        _ => {
            proof {
                reveal_strlit("f");
            }
            assert("f"@ =~= seq![hex_char(15)]);
            "f"
        },
    }
}

/// The two-hex-digit string of a byte.
fn hex2_string(n: u8) -> (r: String)
    ensures
        r@ == hex2_str(n),
{
    let hi = String::from_str(hex_digit_str(n / 16));
    let r = hi.concat(hex_digit_str(n % 16));
    proof {
        assert(r@ =~= hex2_str(n));
    }
    r
}

/// The decimal string of a byte.
pub(crate) fn dec_string(n: u8) -> (r: String)
    ensures
        r@ == dec_str(n as nat),
    decreases n,
{
    if n < 10 {
        let r = String::from_str(hex_digit_str(n));
        proof {
            assert(r@ =~= dec_str(n as nat));
        }
        r
    } else {
        let r = dec_string(n / 10).concat(hex_digit_str(n % 10));
        proof {
            assert(r@ =~= dec_str(n as nat));
        }
        r
    }
}

/// The decimal string of a 32-bit number.
pub(crate) fn dec_string_u32(n: u32) -> (r: String)
    ensures
        r@ == dec_str(n as nat),
    decreases n,
{
    if n < 10 {
        let r = String::from_str(hex_digit_str(n as u8));
        proof {
            assert(r@ =~= dec_str(n as nat));
        }
        r
    } else {
        let r = dec_string_u32(n / 10).concat(hex_digit_str((n % 10) as u8));
        proof {
            assert(r@ =~= dec_str(n as nat));
        }
        r
    }
}

/// Law: every classified path's index file stands under the expansion's
/// directory and bears the six hex digits of the category code, expansion
/// code and pack number, with the `.win32.index` suffix.
pub proof fn lemma_index_path_round_trip(
    root: Seq<char>,
    s: Seq<char>,
    ft: FileType,
    exp: GameExpansion,
    num: u8,
)
    requires
        spec_identify(s) == Option::Some((ft, exp, num)),
    ensures
        spec_index_path(root, ft, exp, num) == root + "/"@ + exp_name_str(exp) + "/"@ + hex2_str(
            cat_code(ft),
        ) + hex2_str(exp_code(exp)) + hex2_str(num) + ".win32.index"@,
{
    lemma_cat_code_str_is_hex(ft);
    lemma_exp_code_str_is_hex(exp);
}

/// The category's code string is exactly the hex rendering of its code.
pub proof fn lemma_cat_code_str_is_hex(ft: FileType)
    ensures
        cat_code_str(ft) == hex2_str(cat_code(ft)),
{
    reveal_strlit("00");
    reveal_strlit("01");
    reveal_strlit("02");
    reveal_strlit("03");
    reveal_strlit("04");
    reveal_strlit("05");
    reveal_strlit("06");
    reveal_strlit("07");
    reveal_strlit("08");
    reveal_strlit("09");
    reveal_strlit("0a");
    reveal_strlit("0b");
    reveal_strlit("0c");
    reveal_strlit("12");
    reveal_strlit("13");
    match ft {
        FileType::Common => assert(cat_code_str(ft) =~= hex2_str(cat_code(ft))),
        FileType::BGCommon => assert(cat_code_str(ft) =~= hex2_str(cat_code(ft))),
        FileType::BG => assert(cat_code_str(ft) =~= hex2_str(cat_code(ft))),
        FileType::Cut => assert(cat_code_str(ft) =~= hex2_str(cat_code(ft))),
        FileType::Chara => assert(cat_code_str(ft) =~= hex2_str(cat_code(ft))),
        FileType::Shader => assert(cat_code_str(ft) =~= hex2_str(cat_code(ft))),
        FileType::UI => assert(cat_code_str(ft) =~= hex2_str(cat_code(ft))),
        FileType::Sound => assert(cat_code_str(ft) =~= hex2_str(cat_code(ft))),
        FileType::VFX => assert(cat_code_str(ft) =~= hex2_str(cat_code(ft))),
        FileType::UIScript => assert(cat_code_str(ft) =~= hex2_str(cat_code(ft))),
        FileType::EXD => assert(cat_code_str(ft) =~= hex2_str(cat_code(ft))),
        FileType::GameScript => assert(cat_code_str(ft) =~= hex2_str(cat_code(ft))),
        FileType::Music => assert(cat_code_str(ft) =~= hex2_str(cat_code(ft))),
        FileType::SqpackTest => assert(cat_code_str(ft) =~= hex2_str(cat_code(ft))),
        FileType::Debug => assert(cat_code_str(ft) =~= hex2_str(cat_code(ft))),
    }
}

/// The expansion's code string is exactly the hex rendering of its code.
pub proof fn lemma_exp_code_str_is_hex(exp: GameExpansion)
    ensures
        exp_code_str(exp) == hex2_str(exp_code(exp)),
{
    reveal_strlit("00");
    reveal_strlit("01");
    reveal_strlit("02");
    match exp {
        GameExpansion::FFXIV => assert(exp_code_str(exp) =~= hex2_str(exp_code(exp))),
        GameExpansion::EX1 => assert(exp_code_str(exp) =~= hex2_str(exp_code(exp))),
        GameExpansion::EX2 => assert(exp_code_str(exp) =~= hex2_str(exp_code(exp))),
    }
}

} // verus!
