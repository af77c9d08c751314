//! Text: comparison, order, white space and decimal numerals.
use vstd::prelude::*;
use vstd::string::{StrSliceExecFns, StringExecFns};

verus! {

/// Compares two strings with std's `==` on `str`, which holds exactly where both have the same
/// characters.
#[verifier::external_body]
pub(crate) fn same_text(left: &str, right: &str) -> (equal: bool)
    ensures
        equal == (left@ == right@),
{
    left == right
}

/// A text as std's `Debug` shows a `str`: in quotation marks, with what would not print escaped.
pub uninterp spec fn quoted(text: Seq<char>) -> Seq<char>;

/// Shows a text with std's `Debug` for `str`, which depends on nothing but the text.
#[verifier::external_body]
pub(crate) fn quote(text: &str) -> (shown: String)
    ensures
        shown@ == quoted(text@),
{
    format!("{:?}", text)
}

/// The characters with the Unicode property White_Space.
pub open spec fn is_space(c: char) -> bool {
    let code = c as u32;
    ||| 0x09 <= code <= 0x0d
    ||| code == 0x20
    ||| code == 0x85
    ||| code == 0xa0
    ||| code == 0x1680
    ||| 0x2000 <= code <= 0x200a
    ||| code == 0x2028
    ||| code == 0x2029
    ||| code == 0x202f
    ||| code == 0x205f
    ||| code == 0x3000
}

/// A text without any character but white space.
pub open spec fn blank(text: Seq<char>) -> bool {
    forall|i: int| 0 <= i < text.len() ==> is_space(#[trigger] text[i])
}

/// Whether a character is white space.
fn is_white_space(c: char) -> (result: bool)
    ensures
        result == is_space(c),
{
    let code: u32 = c as u32;
    (0x09 <= code && code <= 0x0d) || code == 0x20 || code == 0x85 || code == 0xa0 || code
        == 0x1680 || (0x2000 <= code && code <= 0x200a) || code == 0x2028 || code == 0x2029
        || code == 0x202f || code == 0x205f || code == 0x3000
}

/// Whether a text holds nothing but white space.
pub fn is_blank(text: &str) -> (result: bool)
    ensures
        result == blank(text@),
{
    let len = text.unicode_len();
    let mut i: usize = 0;
    while i < len
        invariant
            len == text@.len(),
            i <= len,
            forall|j: int| 0 <= j < i ==> is_space(#[trigger] text@[j]),
        decreases len - i,
    {
        if !is_white_space(text.get_char(i)) {
            return false;
        }
        i += 1;
    }
    true
}

/// A text without the white space at its start.
pub open spec fn start_trimmed(text: Seq<char>) -> Seq<char>
    decreases text.len(),
{
    if text.len() > 0 && is_space(text[0]) {
        start_trimmed(text.drop_first())
    } else {
        text
    }
}

/// A text without the white space at its end.
pub open spec fn end_trimmed(text: Seq<char>) -> Seq<char>
    decreases text.len(),
{
    if text.len() > 0 && is_space(text.last()) {
        end_trimmed(text.drop_last())
    } else {
        text
    }
}

/// A text without the white space at its start and at its end.
pub open spec fn trimmed(text: Seq<char>) -> Seq<char> {
    end_trimmed(start_trimmed(text))
}

/// A text without the white space around it.
pub fn trim_text(text: &str) -> (result: String)
    ensures
        result@ == trimmed(text@),
{
    let len = text.unicode_len();
    let mut start: usize = 0;
    assert(text@.skip(0) =~= text@);
    while start < len && is_white_space(text.get_char(start))
        invariant
            len == text@.len(),
            start <= len,
            start_trimmed(text@) == start_trimmed(text@.skip(start as int)),
        decreases len - start,
    {
        assert(text@.skip(start as int).drop_first() =~= text@.skip(start + 1));
        start += 1;
    }
    assert(start_trimmed(text@) == text@.skip(start as int));
    let mut end: usize = len;
    assert(text@.subrange(start as int, len as int) =~= text@.skip(start as int));
    while end > start && is_white_space(text.get_char(end - 1))
        invariant
            len == text@.len(),
            start <= end <= len,
            trimmed(text@) == end_trimmed(text@.subrange(start as int, end as int)),
        decreases end,
    {
        assert(text@.subrange(start as int, end as int).drop_last() =~= text@.subrange(
            start as int,
            end - 1,
        ));
        end -= 1;
    }
    text.substring_char(start, end).to_owned()
}

/// The code of a character, where the capital letters of ASCII count as the small ones.
pub open spec fn folded(c: char) -> int {
    if 65 <= c as u32 <= 90 {
        c as u32 + 32
    } else {
        c as u32 as int
    }
}

/// A text holds another one from an index on, whatever the case of ASCII letters.
pub open spec fn holds_at(text: Seq<char>, part: Seq<char>, at: int) -> bool {
    at + part.len() <= text.len() && forall|k: int|
        0 <= k < part.len() ==> folded(text[at + k]) == folded(#[trigger] part[k])
}

/// A text holds another one, whatever the case of ASCII letters.
pub open spec fn holds_text(text: Seq<char>, part: Seq<char>) -> bool {
    exists|at: int| 0 <= at <= text.len() && #[trigger] holds_at(text, part, at)
}

fn fold(c: char) -> (code: u32)
    ensures
        code == folded(c),
{
    let code: u32 = c as u32;
    if 65 <= code && code <= 90 {
        code + 32
    } else {
        code
    }
}

/// Whether a text holds another one, whatever the case of ASCII letters.
pub fn contains_text(text: &str, part: &str) -> (result: bool)
    ensures
        result == holds_text(text@, part@),
{
    let len = text.unicode_len();
    let size = part.unicode_len();
    if size > len {
        assert forall|at: int| 0 <= at <= text@.len() implies !#[trigger] holds_at(
            text@,
            part@,
            at,
        ) by {}
        return false;
    }
    let mut at: usize = 0;
    while at <= len - size
        invariant
            len == text@.len(),
            size == part@.len(),
            size <= len,
            at <= len - size + 1,
            forall|i: int| 0 <= i < at ==> !#[trigger] holds_at(text@, part@, i),
        decreases len - size + 1 - at,
    {
        let mut k: usize = 0;
        while k < size && fold(text.get_char(at + k)) == fold(part.get_char(k))
            invariant
                len == text@.len(),
                size == part@.len(),
                at + size <= len,
                k <= size,
                forall|j: int| 0 <= j < k ==> folded(text@[at + j]) == folded(#[trigger] part@[j]),
            decreases size - k,
        {
            k += 1;
        }
        if k == size {
            assert(holds_at(text@, part@, at as int));
            return true;
        }
        assert(folded(text@[at + k]) != folded(part@[k as int]));
        if at == len - size {
            assert forall|i: int| 0 <= i <= text@.len() implies !#[trigger] holds_at(
                text@,
                part@,
                i,
            ) by {}
            return false;
        }
        at += 1;
    }
    false
}

/// The decimal digit of a number below ten.
pub open spec fn digit(value: nat) -> char {
    if value == 0 {
        '0'
    } else if value == 1 {
        '1'
    } else if value == 2 {
        '2'
    } else if value == 3 {
        '3'
    } else if value == 4 {
        '4'
    } else if value == 5 {
        '5'
    } else if value == 6 {
        '6'
    } else if value == 7 {
        '7'
    } else if value == 8 {
        '8'
    } else {
        '9'
    }
}

/// The decimal numeral of a number, without leading zeros.
pub open spec fn decimal(value: nat) -> Seq<char>
    decreases value,
{
    if value < 10 {
        seq![digit(value)]
    } else {
        decimal(value / 10).push(digit(value % 10))
    }
}

fn digit_text(value: u128) -> (text: &'static str)
    requires
        value < 10,
    ensures
        text@ == seq![digit(value as nat)],
{
    proof {
        reveal_strlit("0");
        reveal_strlit("1");
        reveal_strlit("2");
        reveal_strlit("3");
        reveal_strlit("4");
        reveal_strlit("5");
        reveal_strlit("6");
        reveal_strlit("7");
        reveal_strlit("8");
        reveal_strlit("9");
    }
    let text = match value {
        0 => "0",
        1 => "1",
        2 => "2",
        3 => "3",
        4 => "4",
        5 => "5",
        6 => "6",
        7 => "7",
        8 => "8",
        _ => "9",
    };
    assert(text@ =~= seq![digit(value as nat)]);
    text
}

/// Appends the decimal numeral of a number.
pub fn append_wide_decimal(out: &mut String, value: u128)
    ensures
        final(out)@ == old(out)@ + decimal(value as nat),
    decreases value,
{
    let ghost before = out@;
    if value >= 10 {
        append_wide_decimal(out, value / 10);
    }
    out.append(digit_text(value % 10));
    assert(out@ =~= before + decimal(value as nat));
}

/// Appends the decimal numeral of a number.
pub fn append_decimal(out: &mut String, value: u64)
    ensures
        final(out)@ == old(out)@ + decimal(value as nat),
{
    append_wide_decimal(out, value as u128);
}

/// The decimal numeral of a number.
pub fn decimal_text(value: u64) -> (text: String)
    ensures
        text@ == decimal(value as nat),
{
    let mut text = String::new();
    append_decimal(&mut text, value);
    assert(text@ =~= decimal(value as nat));
    text
}

/// The number that a decimal numeral stands for.
pub open spec fn numeral_value(text: Seq<char>) -> nat
    decreases text.len(),
{
    if text.len() == 0 {
        0
    } else {
        numeral_value(text.drop_last()) * 10 + digit_value(text.last())
    }
}

pub open spec fn digit_value(character: char) -> nat {
    if '0' <= character <= '9' {
        (character as int - '0' as int) as nat
    } else {
        0
    }
}

/// A numeral reads back as the number it was written for.
pub proof fn lemma_decimal_reads_back(value: nat)
    ensures
        numeral_value(decimal(value)) == value,
        decimal(value).len() > 0,
    decreases value,
{
    reveal_with_fuel(numeral_value, 2);
    if value < 10 {
        assert(decimal(value).drop_last() =~= Seq::empty());
    } else {
        lemma_decimal_reads_back(value / 10);
        assert(decimal(value).drop_last() =~= decimal(value / 10));
    }
}

/// Different numbers have different numerals.
pub proof fn lemma_decimal_injective(left: nat, right: nat)
    requires
        decimal(left) == decimal(right),
    ensures
        left == right,
{
    lemma_decimal_reads_back(left);
    lemma_decimal_reads_back(right);
}

/// How one of two values stands to the other in an order.
#[derive(Debug, Clone, Copy, PartialEq, Eq, Structural)]
pub enum Rank {
    Before,
    Same,
    After,
}

pub open spec fn number_rank(a: int, b: int) -> Rank {
    if a < b {
        Rank::Before
    } else if b < a {
        Rank::After
    } else {
        Rank::Same
    }
}

/// The order of texts by their characters: where they first differ, the lesser character comes
/// first, and a text comes before its continuations.
pub open spec fn text_rank(a: Seq<char>, b: Seq<char>) -> Rank
    decreases a.len(),
{
    if a.len() == 0 {
        if b.len() == 0 {
            Rank::Same
        } else {
            Rank::Before
        }
    } else if b.len() == 0 {
        Rank::After
    } else if a[0] != b[0] {
        number_rank(a[0] as int, b[0] as int)
    } else {
        text_rank(a.drop_first(), b.drop_first())
    }
}

pub fn rank_text(a: &str, b: &str) -> (rank: Rank)
    ensures
        rank == text_rank(a@, b@),
{
    let left = a.unicode_len();
    let right = b.unicode_len();
    let mut i: usize = 0;
    assert(a@.skip(0) =~= a@);
    assert(b@.skip(0) =~= b@);
    while i < left && i < right
        invariant
            left == a@.len(),
            right == b@.len(),
            i <= left,
            i <= right,
            text_rank(a@, b@) == text_rank(a@.skip(i as int), b@.skip(i as int)),
        decreases left - i,
    {
        let x: u32 = a.get_char(i) as u32;
        let y: u32 = b.get_char(i) as u32;
        proof {
            assert(a@.skip(i as int)[0] == a@[i as int]);
            assert(b@.skip(i as int)[0] == b@[i as int]);
            assert(a@.skip(i as int).drop_first() =~= a@.skip(i + 1));
            assert(b@.skip(i as int).drop_first() =~= b@.skip(i + 1));
        }
        if x < y {
            return Rank::Before;
        }
        if y < x {
            return Rank::After;
        }
        i += 1;
    }
    if i < right {
        Rank::Before
    } else if i < left {
        Rank::After
    } else {
        Rank::Same
    }
}

} // verus!
