//! The historical sweep: which ids to load next, given how far the sweep has
//! come, and the text under which the cursor of the sweep is stored.

use vstd::prelude::*;
use vstd::string::StringExecFns;

verus! {

/// One step of the sweep: the ids to load, and the cursor to store once they
/// are loaded.
#[derive(Debug, PartialEq, Eq)]
pub struct BackfillWindow {
    /// The ids to load, ascending.
    pub ids: Vec<u32>,
    /// The highest id that the sweep has reached.
    pub cursor: u32,
}

/// The id at which a step of the sweep ends: `limit` ids beyond `cursor`, but
/// neither beyond the newest item `max_item` nor before `cursor`.
pub open spec fn window_end(cursor: u32, limit: u32, max_item: u32) -> int {
    let reach = if cursor + limit <= max_item {
        cursor + limit
    } else {
        max_item as int
    };
    if reach < cursor {
        cursor as int
    } else {
        reach
    }
}

/// The ids of a step of the sweep: from `cursor` to the end of the window,
/// both included; none where the newest item lies before the cursor.
pub open spec fn window_ids(cursor: u32, limit: u32, max_item: u32) -> Seq<u32> {
    if max_item < cursor {
        Seq::empty()
    } else {
        Seq::new(
            (window_end(cursor, limit, max_item) - cursor + 1) as nat,
            |i: int| (cursor + i) as u32,
        )
    }
}

/// The next step of the sweep from `cursor`, with room for `limit` ids beyond
/// it, where `max_item` is the newest item of the upstream. The cursor never
/// moves back.
pub fn backfill_window(cursor: u32, limit: u32, max_item: u32) -> (out: BackfillWindow)
    ensures
        out.ids@ == window_ids(cursor, limit, max_item),
        out.cursor == window_end(cursor, limit, max_item),
        cursor <= out.cursor,
        out.cursor <= max_item || out.cursor == cursor,
{
    let mut ids: Vec<u32> = Vec::new();
    if max_item < cursor {
        return BackfillWindow { ids, cursor };
    }
    let end: u32 = if limit <= max_item - cursor {
        cursor + limit
    } else {
        max_item
    };
    let mut next: u32 = cursor;
    loop
        invariant_except_break
            ids@ == Seq::new((next - cursor) as nat, |i: int| (cursor + i) as u32),
        invariant
            cursor <= next <= end,
            end == window_end(cursor, limit, max_item),
        ensures
            next == end,
            ids@ == Seq::new((end - cursor + 1) as nat, |i: int| (cursor + i) as u32),
        decreases end - next,
    {
        ids.push(next);
        if next == end {
            assert(ids@ == Seq::new((end - cursor + 1) as nat, |i: int| (cursor + i) as u32));
            break;
        }
        next = next + 1;
        assert(ids@ == Seq::new((next - cursor) as nat, |i: int| (cursor + i) as u32));
    }
    BackfillWindow { ids, cursor: end }
}

/// Whether `c` is one of the ten digits.
pub open spec fn is_digit(c: char) -> bool {
    '0' <= c <= '9'
}

/// Whether `text` is a decimal numeral: one digit or more, and nothing else.
pub open spec fn is_decimal(text: Seq<char>) -> bool {
    text.len() > 0 && forall|i: int| 0 <= i < text.len() ==> is_digit(#[trigger] text[i])
}

/// The number that the digits `digits` stand for.
pub open spec fn decimal_value(digits: Seq<char>) -> nat
    decreases digits.len(),
{
    if digits.len() == 0 {
        0
    } else {
        (decimal_value(digits.drop_last()) * 10 + (digits.last() as nat - '0' as nat)) as nat
    }
}

/// The digit that stands for `value`, which is less than ten.
pub open spec fn digit_of(value: nat) -> char {
    ('0' as nat + value) as char
}

/// The decimal numeral of `value`, without leading zeros.
pub open spec fn decimal_text(value: nat) -> Seq<char>
    decreases value,
{
    if value < 10 {
        seq![digit_of(value)]
    } else {
        decimal_text(value / 10).push(digit_of(value % 10))
    }
}

/// The cursor that `text` stands for: the value of a decimal numeral that is
/// no greater than the greatest id, and nothing for any other text.
pub open spec fn cursor_of(text: Seq<char>) -> Option<u32> {
    if is_decimal(text) && decimal_value(text) <= u32::MAX {
        Some(decimal_value(text) as u32)
    } else {
        None
    }
}

/// Reads the cursor of the sweep from the text under which it is stored.
pub fn cursor_from_text(text: &str) -> (out: Option<u32>)
    ensures
        out == cursor_of(text@),
{
    let len: usize = text.unicode_len();
    if len == 0 {
        return None;
    }
    let mut value: u64 = 0;
    let mut i: usize = 0;
    while i < len
        invariant
            i <= len,
            len == text@.len(),
            value == decimal_value(text@.take(i as int)),
            value <= u32::MAX,
            forall|j: int| 0 <= j < i ==> is_digit(#[trigger] text@[j]),
        decreases len - i,
    {
        let c = text.get_char(i);
        if c < '0' || c > '9' {
            return None;
        }
        proof {
            assert(text@.take(i + 1).drop_last() == text@.take(i as int));
        }
        value = value * 10 + (c as u64 - '0' as u64);
        if value > u32::MAX as u64 {
            proof {
                assert(text@.take(len as int) == text@);
                if is_decimal(text@) {
                    lemma_longer_numeral_is_no_less(text@, i + 1);
                }
            }
            return None;
        }
        i = i + 1;
    }
    assert(text@.take(i as int) == text@);
    Some(value as u32)
}

/// The digit that stands for `value`, as a text.
fn digit_text(value: u32) -> (out: &'static str)
    requires
        value < 10,
    ensures
        out@ == seq![digit_of(value as nat)],
{
    proof {
        reveal_strlit("0");
        reveal_strlit("1");
        reveal_strlit("2");
        reveal_strlit("3");
        reveal_strlit("4");
        reveal_strlit("5");
        reveal_strlit("6");
        reveal_strlit("7");
        reveal_strlit("8");
        reveal_strlit("9");
    }
    let out = if value == 0 {
        "0"
    } else if value == 1 {
        "1"
    } else if value == 2 {
        "2"
    } else if value == 3 {
        "3"
    } else if value == 4 {
        "4"
    } else if value == 5 {
        "5"
    } else if value == 6 {
        "6"
    } else if value == 7 {
        "7"
    } else if value == 8 {
        "8"
    } else {
        "9"
    };
    assert(out@ =~= seq![digit_of(value as nat)]);
    out
}

/// The text under which the cursor of the sweep is stored: its decimal
/// numeral.
pub fn cursor_to_text(cursor: u32) -> (out: String)
    ensures
        out@ == decimal_text(cursor as nat),
    decreases cursor,
{
    if cursor < 10 {
        String::from_str(digit_text(cursor))
    } else {
        let mut out = cursor_to_text(cursor / 10);
        out.append(digit_text(cursor % 10));
        assert(out@ =~= decimal_text(cursor as nat));
        out
    }
}

/// Among the prefixes of a decimal numeral, a longer one stands for no less.
proof fn lemma_longer_numeral_is_no_less(text: Seq<char>, n: int)
    requires
        is_decimal(text),
        0 <= n <= text.len(),
    ensures
        decimal_value(text.take(n)) <= decimal_value(text),
    decreases text.len() - n,
{
    if n < text.len() {
        assert(text.take(n + 1).drop_last() == text.take(n));
        assert(is_digit(text[n]));
        assert(text.take(n + 1).last() == text[n]);
        lemma_longer_numeral_is_no_less(text, n + 1);
    } else {
        assert(text.take(n) == text);
    }
}

/// A cursor that was stored is read back as it was.
pub proof fn stored_cursor_is_read_back(cursor: u32)
    ensures
        cursor_of(decimal_text(cursor as nat)) == Some(cursor),
{
    lemma_numeral_of_value(cursor as nat);
}

proof fn lemma_numeral_of_value(value: nat)
    ensures
        is_decimal(decimal_text(value)),
        decimal_value(decimal_text(value)) == value,
    decreases value,
{
    if value < 10 {
        let text = decimal_text(value);
        assert(text.drop_last() =~= Seq::<char>::empty());
        assert(decimal_value(text.drop_last()) == 0);
    } else {
        lemma_numeral_of_value(value / 10);
        let front = decimal_text(value / 10);
        let text = decimal_text(value);
        assert(text.drop_last() =~= front);
        assert forall|i: int| 0 <= i < text.len() implies is_digit(#[trigger] text[i]) by {
            if i < front.len() {
                assert(text[i] == front[i]);
            }
        }
    }
}

} // verus!
