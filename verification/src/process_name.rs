//! Telling the processes of the embedded browser by the name of their executable.

use vstd::prelude::*;

verus! {

/// The executable that every process of the embedded browser runs.
pub const WEBVIEW_PROCESS_NAME: &'static str = "msedgewebview2.exe";

/// The units in front of the first NUL, or all of them where there is none.
pub open spec fn before_nul(units: Seq<u16>) -> Seq<u16> {
    match units.index_of_first(0u16) {
        Some(end) => units.take(end),
        None => units,
    }
}

/// The code point of the lower-case letter, where `code` is that of an ASCII
/// capital.
pub open spec fn ascii_lower(code: int) -> int {
    if 'A' as int <= code <= 'Z' as int {
        code + 32
    } else {
        code
    }
}

/// Whether two texts are the same but for the case of ASCII letters.
pub open spec fn same_ignoring_ascii_case(a: Seq<char>, b: Seq<char>) -> bool {
    &&& a.len() == b.len()
    &&& forall|i: int|
        0 <= i < a.len() ==> ascii_lower(#[trigger] a[i] as int) == ascii_lower(b[i] as int)
}

/// Whether the units are, one for one, the characters of `name` but for the case
/// of ASCII letters.
pub open spec fn spells(units: Seq<u16>, name: Seq<char>) -> bool {
    &&& units.len() == name.len()
    &&& forall|i: int|
        0 <= i < units.len() ==> ascii_lower(#[trigger] units[i] as int) == ascii_lower(
            name[i] as int,
        )
}

/// Whether a unit opens a surrogate pair.
pub open spec fn is_lead(unit: u16) -> bool {
    0xD800 <= unit <= 0xDBFF
}

/// Whether a unit closes a surrogate pair.
pub open spec fn is_trail(unit: u16) -> bool {
    0xDC00 <= unit <= 0xDFFF
}

/// The character of a surrogate pair.
pub open spec fn pair_char(lead: u16, trail: u16) -> char {
    (0x10000 + (lead - 0xD800) * 0x400 + (trail - 0xDC00)) as char
}

/// The text that UTF-16 units encode, with U+FFFD in the place of each surrogate
/// that has no partner.
pub open spec fn decode_lossy(units: Seq<u16>) -> Seq<char>
    decreases units.len(),
{
    if units.len() == 0 {
        Seq::empty()
    } else if is_lead(units[0]) && units.len() >= 2 && is_trail(units[1]) {
        seq![pair_char(units[0], units[1])] + decode_lossy(units.skip(2))
    } else if is_lead(units[0]) || is_trail(units[0]) {
        seq![0xFFFDu32 as char] + decode_lossy(units.skip(1))
    } else {
        seq![units[0] as char] + decode_lossy(units.skip(1))
    }
}

/// An ASCII name is spelled by UTF-16 units exactly where the text that they
/// encode is the name: no surrogate, paired or not, stands for an ASCII character.
pub proof fn law_spelling_is_decoding(units: Seq<u16>, name: Seq<char>)
    requires
        forall|i: int| 0 <= i < name.len() ==> (#[trigger] name[i] as int) < 128,
    ensures
        spells(units, name) <==> same_ignoring_ascii_case(decode_lossy(units), name),
    decreases units.len(),
{
    let text = decode_lossy(units);
    if units.len() == 0 {
    } else if name.len() == 0 {
        assert(text.len() > 0);
    } else {
        let first = units[0];
        assert((name[0] as int) < 128);
        if is_lead(first) || is_trail(first) {
            assert(ascii_lower(units[0] as int) != ascii_lower(name[0] as int));
            assert(text[0] as int >= 0xFFFD);
            assert(ascii_lower(text[0] as int) != ascii_lower(name[0] as int));
        } else {
            let rest = units.skip(1);
            let name_rest = name.skip(1);
            law_spelling_is_decoding(rest, name_rest);
            let text_rest = decode_lossy(rest);
            assert(text[0] as int == first as int);
            assert forall|i: int| 0 <= i < text_rest.len() implies text_rest[i] == text[i + 1] by {}
            if spells(units, name) {
                assert forall|i: int| 0 <= i < rest.len() implies ascii_lower(
                    #[trigger] rest[i] as int,
                ) == ascii_lower(name_rest[i] as int) by {
                    assert(rest[i] == units[i + 1]);
                }
                assert forall|i: int| 0 <= i < text.len() implies ascii_lower(
                    #[trigger] text[i] as int,
                ) == ascii_lower(name[i] as int) by {
                    if i > 0 {
                        assert(text_rest[i - 1] == text[i]);
                        assert(name_rest[i - 1] == name[i]);
                    } else {
                        assert(units[0] == first);
                    }
                }
            }
            if same_ignoring_ascii_case(text, name) {
                assert forall|i: int| 0 <= i < text_rest.len() implies ascii_lower(
                    #[trigger] text_rest[i] as int,
                ) == ascii_lower(name_rest[i] as int) by {
                    assert(text_rest[i] == text[i + 1]);
                }
                assert forall|i: int| 0 <= i < units.len() implies ascii_lower(
                    #[trigger] units[i] as int,
                ) == ascii_lower(name[i] as int) by {
                    if i > 0 {
                        assert(rest[i - 1] == units[i]);
                        assert(name_rest[i - 1] == name[i]);
                    } else {
                        assert(ascii_lower(text[0] as int) == ascii_lower(name[0] as int));
                    }
                }
            }
        }
    }
}

/// The code point of the lower-case letter, where `code` is that of an ASCII
/// capital.
fn to_ascii_lower(code: u32) -> (lower: u32)
    ensures
        lower == ascii_lower(code as int),
{
    if 65 <= code && code <= 90 {
        code + 32
    } else {
        code
    }
}

/// How many units stand in front of the first NUL.
fn text_len(units: &[u16]) -> (len: usize)
    ensures
        len <= units@.len(),
        units@.take(len as int) == before_nul(units@),
{
    let mut i: usize = 0;
    while i < units.len()
        invariant
            i <= units@.len(),
            forall|j: int| 0 <= j < i ==> units@[j] != 0,
        decreases units@.len() - i,
    {
        if units[i] == 0 {
            proof {
                units@.index_of_first_ensures(0u16);
                assert(units@[i as int] == 0);
                assert(units@.contains(0u16));
            }
            return i;
        }
        i += 1;
    }
    proof {
        units@.index_of_first_ensures(0u16);
        assert(units@.take(i as int) =~= units@);
    }
    i
}

/// Whether a process runs the executable of the embedded browser. The name ends
/// at the first NUL of its buffer, and the case of ASCII letters does not matter.
pub fn is_webview_process(exe_file: &[u16]) -> (res: bool)
    ensures
        res == same_ignoring_ascii_case(
            decode_lossy(before_nul(exe_file@)),
            WEBVIEW_PROCESS_NAME@,
        ),
        res == spells(before_nul(exe_file@), WEBVIEW_PROCESS_NAME@),
{
    proof {
        reveal_strlit("msedgewebview2.exe");
        law_spelling_is_decoding(before_nul(exe_file@), WEBVIEW_PROCESS_NAME@);
    }
    let len: usize = text_len(exe_file);
    if len != WEBVIEW_PROCESS_NAME.unicode_len() {
        return false;
    }
    let ghost text = before_nul(exe_file@);
    let mut i: usize = 0;
    while i < len
        invariant
            i <= len <= exe_file@.len(),
            text == exe_file@.take(len as int),
            text == before_nul(exe_file@),
            spells(text, WEBVIEW_PROCESS_NAME@) <==> same_ignoring_ascii_case(
                decode_lossy(text),
                WEBVIEW_PROCESS_NAME@,
            ),
            len == WEBVIEW_PROCESS_NAME@.len(),
            forall|j: int|
                0 <= j < i ==> ascii_lower(#[trigger] text[j] as int) == ascii_lower(
                    WEBVIEW_PROCESS_NAME@[j] as int,
                ),
        decreases len - i,
    {
        let unit: u32 = exe_file[i] as u32;
        let wanted: u32 = WEBVIEW_PROCESS_NAME.get_char(i) as u32;
        assert(text[i as int] == exe_file@[i as int]);
        if to_ascii_lower(unit) != to_ascii_lower(wanted) {
            return false;
        }
        i += 1;
    }
    true
}

/// What stands in front of the first NUL: a beginning of the units without a NUL in it
/// that reaches to a NUL, or to the end where there is none.
pub proof fn law_text_reaches_to_nul(units: Seq<u16>)
    ensures
        before_nul(units).len() <= units.len(),
        before_nul(units) == units.take(before_nul(units).len() as int),
        forall|i: int| 0 <= i < before_nul(units).len() ==> units[i] != 0,
        before_nul(units).len() < units.len() ==> units[before_nul(units).len() as int] == 0,
{
    units.index_of_first_ensures(0u16);
    assert(units.take(units.len() as int) =~= units);
}

/// Two codes are the same but for the case of ASCII letters exactly where they are the
/// same, or are those of a capital and of its lower-case letter.
pub proof fn law_only_ascii_letters_have_case(a: int, b: int)
    ensures
        ascii_lower(a) == ascii_lower(b) <==> {
            ||| a == b
            ||| 65 <= a <= 90 && b == a + 32
            ||| 65 <= b <= 90 && a == b + 32
        },
{
}

/// A process runs the browser exactly where its name, which the first NUL or the end of
/// the buffer closes, has as many units as the executable's, and each is that of the
/// executable's name or the capital of it.
pub proof fn law_name_is_compared_whole(exe_file: Seq<u16>)
    ensures
        spells(before_nul(exe_file), WEBVIEW_PROCESS_NAME@) <==> {
            let name = WEBVIEW_PROCESS_NAME@;
            &&& exe_file.len() >= name.len()
            &&& exe_file.len() == name.len() || exe_file[name.len() as int] == 0
            &&& forall|i: int|
                0 <= i < name.len() ==> {
                    ||| #[trigger] exe_file[i] as int == name[i] as int
                    ||| 97 <= name[i] as int <= 122 && exe_file[i] as int == name[i] as int - 32
                }
        },
        same_ignoring_ascii_case(decode_lossy(before_nul(exe_file)), WEBVIEW_PROCESS_NAME@)
            <==> spells(before_nul(exe_file), WEBVIEW_PROCESS_NAME@),
{
    reveal_strlit("msedgewebview2.exe");
    let name = WEBVIEW_PROCESS_NAME@;
    let text = before_nul(exe_file);
    law_text_reaches_to_nul(exe_file);
    law_spelling_is_decoding(text, name);
    assert forall|i: int| 0 <= i < name.len() implies name[i] as int > 0 && !(65 <= (
    #[trigger] name[i]) as int <= 90) by {}
    let matched = {
        &&& exe_file.len() >= name.len()
        &&& exe_file.len() == name.len() || exe_file[name.len() as int] == 0
        &&& forall|i: int|
            0 <= i < name.len() ==> {
                ||| #[trigger] exe_file[i] as int == name[i] as int
                ||| 97 <= name[i] as int <= 122 && exe_file[i] as int == name[i] as int - 32
            }
    };
    if spells(text, name) {
        assert forall|i: int| 0 <= i < name.len() implies {
            ||| #[trigger] exe_file[i] as int == name[i] as int
            ||| 97 <= name[i] as int <= 122 && exe_file[i] as int == name[i] as int - 32
        } by {
            assert(text[i] == exe_file[i]);
            law_only_ascii_letters_have_case(text[i] as int, name[i] as int);
            assert(!(65 <= name[i] as int <= 90));
        }
    }
    if matched {
        if text.len() < name.len() {
            let end = text.len() as int;
            assert(exe_file[end] == 0);
            assert(name[end] as int > 0);
            assert(exe_file[end] as int == name[end] as int || exe_file[end] as int == name[end]
                as int - 32);
        }
        if text.len() > name.len() {
            assert(exe_file[name.len() as int] != 0);
        }
        assert forall|i: int| 0 <= i < text.len() implies ascii_lower(#[trigger] text[i] as int)
            == ascii_lower(name[i] as int) by {
            assert(text[i] == exe_file[i]);
            law_only_ascii_letters_have_case(text[i] as int, name[i] as int);
        }
    }
}

} // verus!
