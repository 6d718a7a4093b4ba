//! The `User Shell Folders` registry values: their UTF-16 encoding and the
//! decisions made around reading and writing them.
use vstd::prelude::*;
use crate::text::{owned, push_char, push_str};

verus! {

/// The registry key that holds the user's shell folder locations.
pub const SHELL_FOLDERS_KEY: &'static str = "Software\\Microsoft\\Windows\\CurrentVersion\\Explorer\\User Shell Folders";

/// The type of a registry value.
#[derive(Clone, Copy, Debug, PartialEq, Eq, Structural)]
pub enum RegistryValueType {
    RegNone,
    RegSz,
    RegExpandSz,
    RegBinary,
    RegDword,
    RegDwordBigEndian,
    RegLink,
    RegMultiSz,
    RegResourceList,
    RegFullResourceDescriptor,
    RegResourceRequirementsList,
    RegQword,
}

/// The name under which a value type is reported.
pub open spec fn reg_type_name(t: RegistryValueType) -> Seq<char> {
    match t {
        RegistryValueType::RegNone => "REG_NONE"@,
        RegistryValueType::RegSz => "REG_SZ"@,
        RegistryValueType::RegExpandSz => "REG_EXPAND_SZ"@,
        RegistryValueType::RegBinary => "REG_BINARY"@,
        RegistryValueType::RegDword => "REG_DWORD"@,
        RegistryValueType::RegDwordBigEndian => "REG_DWORD_BIG_ENDIAN"@,
        RegistryValueType::RegLink => "REG_LINK"@,
        RegistryValueType::RegMultiSz => "REG_MULTI_SZ"@,
        RegistryValueType::RegResourceList => "REG_RESOURCE_LIST"@,
        RegistryValueType::RegFullResourceDescriptor => "REG_FULL_RESOURCE_DESCRIPTOR"@,
        RegistryValueType::RegResourceRequirementsList => "REG_RESOURCE_REQUIREMENTS_LIST"@,
        RegistryValueType::RegQword => "REG_QWORD"@,
    }
}

/// The name under which a value type is reported (`REG_SZ`, ...).
pub fn value_type_name(t: RegistryValueType) -> (res: String)
    ensures
        res@ == reg_type_name(t),
{
    match t {
        RegistryValueType::RegNone => owned("REG_NONE"),
        RegistryValueType::RegSz => owned("REG_SZ"),
        RegistryValueType::RegExpandSz => owned("REG_EXPAND_SZ"),
        RegistryValueType::RegBinary => owned("REG_BINARY"),
        RegistryValueType::RegDword => owned("REG_DWORD"),
        RegistryValueType::RegDwordBigEndian => owned("REG_DWORD_BIG_ENDIAN"),
        RegistryValueType::RegLink => owned("REG_LINK"),
        RegistryValueType::RegMultiSz => owned("REG_MULTI_SZ"),
        RegistryValueType::RegResourceList => owned("REG_RESOURCE_LIST"),
        RegistryValueType::RegFullResourceDescriptor => owned("REG_FULL_RESOURCE_DESCRIPTOR"),
        RegistryValueType::RegResourceRequirementsList => owned("REG_RESOURCE_REQUIREMENTS_LIST"),
        RegistryValueType::RegQword => owned("REG_QWORD"),
    }
}

/// A shell folder location as stored in the registry.
pub struct ShellFolderValue {
    pub value: String,
    pub value_type: String,
}

/// What looking a value up under the shell folders key gave.
pub enum RegistryLookup {
    /// The key could not be opened; the system's message.
    OpenFailed(String),
    /// The key holds no value of that name.
    NotFound,
    /// The value could not be read; the system's message.
    ReadFailed(String),
    /// The raw bytes and the type of the value.
    Found(Vec<u8>, RegistryValueType),
}

/// What to store for a shell folder: the raw bytes and their type.
pub struct ShellFolderWrite {
    pub bytes: Vec<u8>,
    pub value_type: RegistryValueType,
}

// ---------------------------------------------------------------------
// UTF-16
// ---------------------------------------------------------------------

/// The little-endian 16-bit words of `b`; a trailing odd byte is ignored.
pub open spec fn le_words(b: Seq<u8>) -> Seq<u16>
    decreases b.len(),
{
    if b.len() < 2 {
        Seq::empty()
    } else {
        seq![(b[0] as int + 256 * (b[1] as int)) as u16] + le_words(b.subrange(2, b.len() as int))
    }
}

/// The words before the first NUL word.
pub open spec fn until_nul(w: Seq<u16>) -> Seq<u16>
    decreases w.len(),
{
    if w.len() == 0 || w[0] == 0 {
        Seq::empty()
    } else {
        seq![w[0]] + until_nul(w.drop_first())
    }
}

/// A valid Unicode scalar value.
pub open spec fn is_scalar(v: int) -> bool {
    (0 <= v <= 0xD7FF) || (0xE000 <= v <= 0x10FFFF)
}

/// Strict UTF-16 decoding: `None` when a surrogate is unpaired.
pub open spec fn utf16_decode(w: Seq<u16>) -> Option<Seq<char>>
    decreases w.len(),
{
    if w.len() == 0 {
        Some(Seq::empty())
    } else if w[0] < 0xD800 || w[0] > 0xDFFF {
        match utf16_decode(w.drop_first()) {
            Some(rest) => Some(seq![w[0] as char] + rest),
            None => None,
        }
    } else if w[0] <= 0xDBFF && w.len() >= 2 && 0xDC00 <= w[1] <= 0xDFFF {
        let v = 0x10000 + (w[0] - 0xD800) * 1024 + (w[1] - 0xDC00);
        match utf16_decode(w.subrange(2, w.len() as int)) {
            Some(rest) => Some(seq![v as char] + rest),
            None => None,
        }
    } else {
        None
    }
}

/// The UTF-16 code units of one character.
pub open spec fn utf16_char(c: char) -> Seq<u16> {
    let v = c as int;
    if v < 0x10000 {
        seq![v as u16]
    } else {
        seq![(0xD800 + (v - 0x10000) / 1024) as u16, (0xDC00 + (v - 0x10000) % 1024) as u16]
    }
}

/// UTF-16 encoding (`str::encode_utf16`).
pub open spec fn utf16_encode(s: Seq<char>) -> Seq<u16>
    decreases s.len(),
{
    if s.len() == 0 {
        Seq::empty()
    } else {
        utf16_char(s[0]) + utf16_encode(s.drop_first())
    }
}

/// Little-endian bytes of 16-bit words.
pub open spec fn le_bytes(w: Seq<u16>) -> Seq<u8>
    decreases w.len(),
{
    if w.len() == 0 {
        Seq::empty()
    } else {
        seq![(w[0] % 256) as u8, (w[0] / 256) as u8] + le_bytes(w.drop_first())
    }
}

/// The registry bytes of a string: UTF-16LE with a terminating NUL.
pub open spec fn raw_of(s: Seq<char>) -> Seq<u8> {
    le_bytes(utf16_encode(s).push(0))
}

/// The text a registry value's bytes hold, or why it cannot be decoded.
pub open spec fn text_of_raw(bytes: Seq<u8>) -> Result<Seq<char>, Seq<char>> {
    match utf16_decode(until_nul(le_words(bytes))) {
        Some(s) => Ok(s),
        None => Err("failed to decode registry string: invalid utf-16: lone surrogate found"@),
    }
}

/// `char::from_u32`: the character with that scalar value, if there is one.
pub assume_specification[ core::char::from_u32 ](i: u32) -> (r: Option<char>)
    ensures
        r == (if is_scalar(i as int) {
            Some(i as char)
        } else {
            None
        }),
;

// ---------------------------------------------------------------------

/// Decodes the bytes of a string value (`raw_value_to_string`).
pub fn raw_value_to_string(bytes: &[u8]) -> (res: Result<String, String>)
    ensures
        match res {
            Ok(s) => text_of_raw(bytes@) == Ok::<Seq<char>, Seq<char>>(s@),
            Err(e) => text_of_raw(bytes@) == Err::<Seq<char>, Seq<char>>(e@),
        },
{
    let mut words: Vec<u16> = Vec::new();
    let mut i: usize = 0;
    proof {
        assert(bytes@.subrange(0, bytes@.len() as int) =~= bytes@);
        assert(words@ + until_nul(le_words(bytes@)) =~= until_nul(le_words(bytes@)));
    }
    while i + 1 < bytes.len()
        invariant
            i % 2 == 0,
            i <= bytes.len(),
            until_nul(le_words(bytes@)) == words@ + until_nul(le_words(bytes@.subrange(i as int, bytes@.len() as int))),
        ensures
            until_nul(le_words(bytes@)) == words@,
        decreases bytes.len() - i,
    {
        let ghost rest = bytes@.subrange(i as int, bytes@.len() as int);
        let word: u16 = (bytes[i] as u16) + 256 * (bytes[i + 1] as u16);
        proof {
            assert(rest.subrange(2, rest.len() as int) =~= bytes@.subrange(i + 2, bytes@.len() as int));
            assert(le_words(rest)[0] == word);
            assert(le_words(rest).drop_first() =~= le_words(bytes@.subrange(i + 2, bytes@.len() as int)));
        }
        if word == 0 {
            assert(words@ + until_nul(le_words(rest)) =~= words@);
            break;
        }
        words.push(word);
        proof {
            assert(until_nul(le_words(rest)) =~= seq![word] + until_nul(le_words(bytes@.subrange(i + 2, bytes@.len() as int))));
        }
        i = i + 2;
    }
    proof {
        if !(i + 1 < bytes.len()) {
            assert(le_words(bytes@.subrange(i as int, bytes@.len() as int)) =~= Seq::<u16>::empty());
            assert(words@ + Seq::<u16>::empty() =~= words@);
        }
    }
    decode_utf16(&words)
}

/// Strict UTF-16 decoding of `words`.
fn decode_utf16(words: &Vec<u16>) -> (res: Result<String, String>)
    ensures
        match res {
            Ok(s) => text_of_raw_words(words@) == Ok::<Seq<char>, Seq<char>>(s@),
            Err(e) => text_of_raw_words(words@) == Err::<Seq<char>, Seq<char>>(e@),
        },
{
    let mut out = String::new();
    let mut i: usize = 0;
    proof {
        assert(words@.subrange(0, words@.len() as int) =~= words@);
        match utf16_decode(words@) {
            Some(r) => {
                assert(out@ + r =~= r);
            },
            None => {},
        }
    }
    while i < words.len()
        invariant
            i <= words.len(),
            utf16_decode(words@) == match utf16_decode(words@.subrange(i as int, words@.len() as int)) {
                Some(rest) => Some(out@ + rest),
                None => None,
            },
        decreases words.len() - i,
    {
        let ghost rest = words@.subrange(i as int, words@.len() as int);
        let w = words[i];
        if w < 0xD800 || w > 0xDFFF {
            let c = match core::char::from_u32(w as u32) {
                Some(c) => c,
                None => {
                    return Err(owned("failed to decode registry string: invalid utf-16: lone surrogate found"));
                },
            };
            proof {
                assert(rest.drop_first() =~= words@.subrange(i + 1, words@.len() as int));
            }
            push_char(&mut out, c);
            proof {
                match utf16_decode(words@.subrange(i + 1, words@.len() as int)) {
                    Some(r2) => {
                        assert(out@ + r2 =~= (out@.drop_last()) + (seq![c] + r2));
                    },
                    None => {},
                }
            }
            i = i + 1;
        } else if w <= 0xDBFF && i + 1 < words.len() && 0xDC00 <= words[i + 1] && words[i + 1] <= 0xDFFF {
            let lo = words[i + 1];
            let v: u32 = 0x10000 + ((w as u32) - 0xD800) * 1024 + ((lo as u32) - 0xDC00);
            let c = match core::char::from_u32(v) {
                Some(c) => c,
                None => {
                    return Err(owned("failed to decode registry string: invalid utf-16: lone surrogate found"));
                },
            };
            proof {
                assert(rest[1] == lo);
                assert(rest.subrange(2, rest.len() as int) =~= words@.subrange(i + 2, words@.len() as int));
            }
            push_char(&mut out, c);
            proof {
                match utf16_decode(words@.subrange(i + 2, words@.len() as int)) {
                    Some(r2) => {
                        assert(out@ + r2 =~= (out@.drop_last()) + (seq![c] + r2));
                    },
                    None => {},
                }
            }
            i = i + 2;
        } else {
            proof {
                assert(utf16_decode(rest) is None);
            }
            return Err(owned("failed to decode registry string: invalid utf-16: lone surrogate found"));
        }
    }
    proof {
        assert(words@.subrange(i as int, words@.len() as int) =~= Seq::<u16>::empty());
        assert(out@ + Seq::<char>::empty() =~= out@);
    }
    Ok(out)
}

/// The decoding outcome of a word sequence.
pub open spec fn text_of_raw_words(w: Seq<u16>) -> Result<Seq<char>, Seq<char>> {
    match utf16_decode(w) {
        Some(s) => Ok(s),
        None => Err("failed to decode registry string: invalid utf-16: lone surrogate found"@),
    }
}

/// The scalar value of a character.
pub fn char_code(c: char) -> (v: u32)
    ensures
        v as int == c as int,
        is_scalar(v as int),
{
    c as u32
}

/// Every element of `s` is a Unicode scalar value (true of every `char`).
pub open spec fn valid_chars(s: Seq<char>) -> bool {
    forall|i: int| 0 <= i < s.len() ==> is_scalar(#[trigger] s[i] as int)
}

/// Encodes a string for the registry (`string_to_raw_value`).
pub fn string_to_raw_value(value: &str) -> (res: Vec<u8>)
    ensures
        res@ == raw_of(value@),
{
    let mut words: Vec<u16> = Vec::new();
    for c in it: value.chars()
        invariant
            it.seq() == value@,
            words@ == utf16_encode(it.seq().subrange(0, it.index() as int)),
    {
        let v = char_code(c);
        let ghost before = words@;
        if v < 0x10000 {
            words.push(v as u16);
            assert(words@ =~= before + utf16_char(c));
        } else {
            let hi = (0xD800 + (v - 0x10000) / 1024) as u16;
            let lo = (0xDC00 + (v - 0x10000) % 1024) as u16;
            assert(hi == (0xD800 + ((c as int) - 0x10000) / 1024) as u16);
            words.push(hi);
            words.push(lo);
            assert(words@ =~= before + utf16_char(c));
        }
        proof {
            lemma_encode_push(it.seq().subrange(0, it.index() as int), c);
            assert(it.seq().subrange(0, it.index() + 1) =~= it.seq().subrange(0, it.index() as int).push(c));
            assert(words@ =~= before + utf16_char(c));
        }
    }
    proof {
        assert(value@.subrange(0, value@.len() as int) =~= value@);
    }
    words.push(0);
    let mut bytes: Vec<u8> = Vec::new();
    let mut i: usize = 0;
    proof {
        assert(words@.subrange(0, words@.len() as int) =~= words@);
        assert(bytes@ + le_bytes(words@) =~= le_bytes(words@));
    }
    while i < words.len()
        invariant
            i <= words.len(),
            le_bytes(words@) == bytes@ + le_bytes(words@.subrange(i as int, words@.len() as int)),
        decreases words.len() - i,
    {
        proof {
            let rest = words@.subrange(i as int, words@.len() as int);
            assert(rest.drop_first() =~= words@.subrange(i + 1, words@.len() as int));
        }
        let w = words[i];
        bytes.push((w % 256) as u8);
        bytes.push((w / 256) as u8);
        i = i + 1;
    }
    proof {
        assert(words@.subrange(0, words@.len() as int) =~= words@);
        assert(le_bytes(words@.subrange(i as int, words@.len() as int)) =~= Seq::<u8>::empty());
    }
    bytes
}

proof fn lemma_encode_push(s: Seq<char>, c: char)
    ensures
        utf16_encode(s.push(c)) == utf16_encode(s) + utf16_char(c),
    decreases s.len(),
{
    if s.len() == 0 {
        assert(s.push(c)[0] == c);
        assert(s.push(c).drop_first() =~= Seq::<char>::empty());
        assert(utf16_encode(s.push(c).drop_first()) == Seq::<u16>::empty());
        assert(utf16_encode(s) == Seq::<u16>::empty());
        assert(utf16_encode(s.push(c)) =~= utf16_encode(s) + utf16_char(c));
    } else {
        assert(s.push(c)[0] == s[0]);
        assert(s.push(c).drop_first() =~= s.drop_first().push(c));
        lemma_encode_push(s.drop_first(), c);
        assert(utf16_encode(s.push(c)) == utf16_char(s[0]) + utf16_encode(s.drop_first().push(c)));
        assert(utf16_encode(s.push(c)) =~= utf16_char(s[0]) + utf16_encode(s.drop_first()) + utf16_char(c));
        assert(utf16_encode(s.push(c)) =~= utf16_encode(s) + utf16_char(c));
    }
}

// ---------------------------------------------------------------------

/// The outcome of reading a shell folder value (`read_user_shell_folder_value`).
pub open spec fn shell_folder_read(name: Seq<char>, lookup: RegistryLookup) -> Result<
    Option<(Seq<char>, Seq<char>)>,
    Seq<char>,
> {
    match lookup {
        RegistryLookup::OpenFailed(e) => Err("failed to open User Shell Folders: "@ + e@),
        RegistryLookup::NotFound => Ok(None),
        RegistryLookup::ReadFailed(e) => Err("failed to read "@ + name + ": "@ + e@),
        RegistryLookup::Found(bytes, t) => match text_of_raw(bytes@) {
            Ok(s) => Ok(Some((s, reg_type_name(t)))),
            Err(e) => Err(e),
        },
    }
}

/// Reads a shell folder value from what the registry lookup gave
/// (`read_user_shell_folder_value`).
pub fn read_user_shell_folder_value(value_name: &str, lookup: RegistryLookup) -> (res: Result<
    Option<ShellFolderValue>,
    String,
>)
    ensures
        match res {
            Ok(Some(v)) => shell_folder_read(value_name@, lookup) == Ok::<Option<(Seq<char>, Seq<char>)>, Seq<char>>(Some((v.value@, v.value_type@))),
            Ok(None) => shell_folder_read(value_name@, lookup) == Ok::<Option<(Seq<char>, Seq<char>)>, Seq<char>>(None),
            Err(e) => shell_folder_read(value_name@, lookup) == Err::<Option<(Seq<char>, Seq<char>)>, Seq<char>>(e@),
        },
{
    match lookup {
        RegistryLookup::OpenFailed(e) => {
            let mut msg = owned("failed to open User Shell Folders: ");
            push_str(&mut msg, e.as_str());
            Err(msg)
        },
        RegistryLookup::NotFound => Ok(None),
        RegistryLookup::ReadFailed(e) => {
            let mut msg = owned("failed to read ");
            push_str(&mut msg, value_name);
            push_str(&mut msg, ": ");
            push_str(&mut msg, e.as_str());
            Err(msg)
        },
        RegistryLookup::Found(bytes, t) => {
            let value = raw_value_to_string(bytes.as_slice())?;
            Ok(Some(ShellFolderValue { value, value_type: value_type_name(t) }))
        },
    }
}

/// Reads a shell folder location (`read_user_shell_folder`).
pub fn read_user_shell_folder(value_name: &str, lookup: RegistryLookup) -> (res: Result<Option<String>, String>)
    ensures
        match res {
            Ok(Some(v)) => shell_folder_read(value_name@, lookup) matches Ok(Some(p)) && p.0 == v@,
            Ok(None) => shell_folder_read(value_name@, lookup) == Ok::<Option<(Seq<char>, Seq<char>)>, Seq<char>>(None),
            Err(e) => shell_folder_read(value_name@, lookup) == Err::<Option<(Seq<char>, Seq<char>)>, Seq<char>>(e@),
        },
{
    let ghost l = lookup;
    match read_user_shell_folder_value(value_name, lookup)? {
        Some(v) => {
            assert(shell_folder_read(value_name@, l) == Ok::<Option<(Seq<char>, Seq<char>)>, Seq<char>>(Some((v.value@, v.value_type@))));
            Ok(Some(v.value))
        },
        None => Ok(None),
    }
}

/// The type a shell folder value is written with: a plain string stays a
/// plain string, anything else (or a missing value) becomes an expandable one.
pub open spec fn written_type(existing: Option<RegistryValueType>) -> RegistryValueType {
    if existing == Some(RegistryValueType::RegSz) {
        RegistryValueType::RegSz
    } else {
        RegistryValueType::RegExpandSz
    }
}

/// What to store when a shell folder is set to `value`
/// (`write_user_shell_folder`), given the type of the value it replaces.
pub fn write_user_shell_folder(value: &str, existing: Option<RegistryValueType>) -> (res: ShellFolderWrite)
    ensures
        res.bytes@ == raw_of(value@),
        res.value_type == written_type(existing),
{
    let value_type = match existing {
        Some(RegistryValueType::RegSz) => RegistryValueType::RegSz,
        _ => RegistryValueType::RegExpandSz,
    };
    ShellFolderWrite { bytes: string_to_raw_value(value), value_type }
}

/// A location without NUL characters that is written to the registry is
/// read back unchanged.
pub proof fn law_registry_roundtrip(s: Seq<char>)
    requires
        valid_chars(s),
        !s.contains('\0'),
    ensures
        text_of_raw(raw_of(s)) == Ok::<Seq<char>, Seq<char>>(s),
{
    lemma_le_roundtrip(utf16_encode(s).push(0));
    lemma_until_nul_encode(s);
    lemma_decode_encode(s);
}

/// A shell folder value written with [`write_user_shell_folder`] reads back
/// as written: when the registry then holds the bytes and the type that
/// were stored, the read gives the location unchanged, with type `REG_SZ`
/// when a plain string was there before and `REG_EXPAND_SZ` otherwise
/// (also when there was no value).
pub proof fn law_shell_folder_write_reads_back(
    name: Seq<char>,
    value: Seq<char>,
    existing: Option<RegistryValueType>,
    stored: RegistryLookup,
)
    requires
        valid_chars(value),
        !value.contains('\0'),
        stored matches RegistryLookup::Found(bytes, t) && bytes@ == raw_of(value) && t == written_type(existing),
    ensures
        shell_folder_read(name, stored) == Ok::<Option<(Seq<char>, Seq<char>)>, Seq<char>>(
            Some((value, reg_type_name(written_type(existing)))),
        ),
        reg_type_name(written_type(existing)) == (if existing == Some(RegistryValueType::RegSz) {
            "REG_SZ"@
        } else {
            "REG_EXPAND_SZ"@
        }),
{
    law_registry_roundtrip(value);
}

proof fn lemma_le_roundtrip(w: Seq<u16>)
    ensures
        le_words(le_bytes(w)) == w,
    decreases w.len(),
{
    if w.len() > 0 {
        let b = le_bytes(w);
        lemma_le_roundtrip(w.drop_first());
        assert(b.subrange(2, b.len() as int) =~= le_bytes(w.drop_first()));
        assert(((w[0] % 256) as u8) as int + 256 * (((w[0] / 256) as u8) as int) == w[0] as int);
        assert(le_words(b) =~= w);
    } else {
        assert(le_bytes(w) =~= Seq::<u8>::empty());
    }
}

proof fn lemma_until_nul_encode(s: Seq<char>)
    requires
        valid_chars(s),
        !s.contains('\0'),
    ensures
        until_nul(utf16_encode(s).push(0)) == utf16_encode(s),
    decreases s.len(),
{
    if s.len() == 0 {
        assert(utf16_encode(s).push(0) =~= seq![0u16]);
    } else {
        let c = s[0];
        assert(c != '\0') by {
            assert(s.contains(s[0]) || true);
            if c == '\0' {
                assert(s.contains('\0'));
            }
        }
        assert(!s.drop_first().contains('\0')) by {
            if s.drop_first().contains('\0') {
                let j = choose|j: int| 0 <= j < s.drop_first().len() && s.drop_first()[j] == '\0';
                assert(s[j + 1] == '\0');
            }
        }
        assert(valid_chars(s.drop_first())) by {
            assert forall|i: int| 0 <= i < s.drop_first().len() implies is_scalar(#[trigger] s.drop_first()[i] as int) by {
                assert(s.drop_first()[i] == s[i + 1]);
            }
        }
        assert(is_scalar(s[0] as int));
        lemma_until_nul_encode(s.drop_first());
        let u = utf16_char(c);
        let tail = utf16_encode(s.drop_first()).push(0);
        assert(utf16_encode(s).push(0) =~= u + tail);
        assert(u[0] != 0);
        if u.len() == 1 {
            assert((u + tail).drop_first() =~= tail);
            assert(until_nul(u + tail) =~= u + until_nul(tail));
        } else {
            assert(u[1] != 0);
            assert((u + tail).drop_first() =~= seq![u[1]] + tail);
            assert((seq![u[1]] + tail).drop_first() =~= tail);
            assert(until_nul(seq![u[1]] + tail) =~= seq![u[1]] + until_nul(tail));
            assert(until_nul(u + tail) =~= u + until_nul(tail));
        }
        assert(utf16_encode(s) =~= u + utf16_encode(s.drop_first()));
    }
}

proof fn lemma_decode_encode(s: Seq<char>)
    requires
        valid_chars(s),
    ensures
        utf16_decode(utf16_encode(s)) == Some(s),
    decreases s.len(),
{
    if s.len() == 0 {
        assert(utf16_encode(s) =~= Seq::<u16>::empty());
    } else {
        let c = s[0];
        let u = utf16_char(c);
        let tail = utf16_encode(s.drop_first());
        assert(valid_chars(s.drop_first())) by {
            assert forall|i: int| 0 <= i < s.drop_first().len() implies is_scalar(#[trigger] s.drop_first()[i] as int) by {
                assert(s.drop_first()[i] == s[i + 1]);
            }
        }
        assert(is_scalar(s[0] as int));
        lemma_decode_encode(s.drop_first());
        assert(utf16_encode(s) =~= u + tail);
        let v = c as int;
        assert(is_scalar(v));
        if v < 0x10000 {
            assert((u + tail).drop_first() =~= tail);
            assert((v as u16) as char == c);
        } else {
            assert((u + tail).subrange(2, (u + tail).len() as int) =~= tail);
            let hi = 0xD800 + (v - 0x10000) / 1024;
            let lo = 0xDC00 + (v - 0x10000) % 1024;
            assert(0x10000 + (hi - 0xD800) * 1024 + (lo - 0xDC00) == v);
            assert((v as char) == c);
        }
        assert(seq![c] + s.drop_first() =~= s);
    }
}

} // verus!
