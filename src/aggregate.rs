//! Timestamp aggregation: reading a labeled numeric field out of log lines
//! and reducing the values found to the earliest or the latest.

use vstd::prelude::*;
use crate::text::{
    contains, parse_u32, parse_u32_exec, split_piece, split_piece_exec,
};

verus! {

/// The value that `line` gives for a field: the text after the first
/// occurrence of `label` (up to a second occurrence, if any), split at
/// `delim`, piece number `pos`, read as a `u32`.
pub open spec fn field_value(line: Seq<char>, label: Seq<char>, delim: Seq<char>, pos: nat) -> Option<
    u32,
> {
    match split_piece(line, label, 1) {
        Some(rest) => match split_piece(rest, delim, pos) {
            Some(token) => parse_u32(token),
            None => None,
        },
        None => None,
    }
}

/// The smallest value that `lines` give for the field, if any gives one.
pub open spec fn earliest_value(
    lines: Seq<Seq<char>>,
    label: Seq<char>,
    delim: Seq<char>,
    pos: nat,
) -> Option<u32>
    decreases lines.len(),
{
    if lines.len() == 0 {
        None
    } else {
        let prev = earliest_value(lines.drop_last(), label, delim, pos);
        match field_value(lines.last(), label, delim, pos) {
            None => prev,
            Some(v) => match prev {
                None => Some(v),
                Some(p) => Some(
                    if v < p {
                        v
                    } else {
                        p
                    },
                ),
            },
        }
    }
}

/// The largest value that `lines` give for the field, if any gives one.
pub open spec fn latest_value(
    lines: Seq<Seq<char>>,
    label: Seq<char>,
    delim: Seq<char>,
    pos: nat,
) -> Option<u32>
    decreases lines.len(),
{
    if lines.len() == 0 {
        None
    } else {
        let prev = latest_value(lines.drop_last(), label, delim, pos);
        match field_value(lines.last(), label, delim, pos) {
            None => prev,
            Some(v) => match prev {
                None => Some(v),
                Some(p) => Some(
                    if v > p {
                        v
                    } else {
                        p
                    },
                ),
            },
        }
    }
}

/// The earliest value of the field, or the sentinel `0` when no line gives one.
pub open spec fn earliest(lines: Seq<Seq<char>>, label: Seq<char>, delim: Seq<char>, pos: nat) -> u32 {
    match earliest_value(lines, label, delim, pos) {
        Some(v) => v,
        None => 0,
    }
}

/// The latest value of the field, or the sentinel `0` when no line gives one.
pub open spec fn latest(lines: Seq<Seq<char>>, label: Seq<char>, delim: Seq<char>, pos: nat) -> u32 {
    match latest_value(lines, label, delim, pos) {
        Some(v) => v,
        None => 0,
    }
}

/// The contents of each line, in order.
pub open spec fn char_lines(lines: Seq<Vec<char>>) -> Seq<Seq<char>> {
    lines.map_values(|l: Vec<char>| l@)
}

/// The value that one line gives for a field.
pub fn field_value_exec(line: &Vec<char>, label: &Vec<char>, delim: &Vec<char>, pos: usize) -> (r:
    Option<u32>)
    ensures
        r == field_value(line@, label@, delim@, pos as nat),
{
    match split_piece_exec(line, label, 1) {
        Some(rest) => match split_piece_exec(&rest, delim, pos) {
            Some(token) => parse_u32_exec(&token),
            None => None,
        },
        None => None,
    }
}

/// The earliest value that `lines` give for a field; `0` when none gives one.
pub fn earliest_time(lines: &Vec<Vec<char>>, label: &Vec<char>, delim: &Vec<char>, pos: usize) -> (r:
    u32)
    ensures
        r == earliest(char_lines(lines@), label@, delim@, pos as nat),
{
    let ghost ls = char_lines(lines@);
    let mut acc: Option<u32> = None;
    let mut i: usize = 0;
    while i < lines.len()
        invariant
            i <= lines.len(),
            ls == char_lines(lines@),
            acc == earliest_value(ls.take(i as int), label@, delim@, pos as nat),
        decreases lines.len() - i,
    {
        assert(ls.take(i + 1).drop_last() == ls.take(i as int));
        assert(ls.take(i + 1).last() == lines[i as int]@);
        let v = field_value_exec(&lines[i], label, delim, pos);
        match v {
            Some(v) => {
                acc = match acc {
                    None => Some(v),
                    Some(p) => Some(
                        if v < p {
                            v
                        } else {
                            p
                        },
                    ),
                };
            },
            None => {},
        }
        i = i + 1;
    }
    assert(ls.take(lines.len() as int) == ls);
    match acc {
        Some(v) => v,
        None => 0,
    }
}

/// The latest value that `lines` give for a field; `0` when none gives one.
pub fn latest_time(lines: &Vec<Vec<char>>, label: &Vec<char>, delim: &Vec<char>, pos: usize) -> (r:
    u32)
    ensures
        r == latest(char_lines(lines@), label@, delim@, pos as nat),
{
    let ghost ls = char_lines(lines@);
    let mut acc: Option<u32> = None;
    let mut i: usize = 0;
    while i < lines.len()
        invariant
            i <= lines.len(),
            ls == char_lines(lines@),
            acc == latest_value(ls.take(i as int), label@, delim@, pos as nat),
        decreases lines.len() - i,
    {
        assert(ls.take(i + 1).drop_last() == ls.take(i as int));
        assert(ls.take(i + 1).last() == lines[i as int]@);
        let v = field_value_exec(&lines[i], label, delim, pos);
        match v {
            Some(v) => {
                acc = match acc {
                    None => Some(v),
                    Some(p) => Some(
                        if v > p {
                            v
                        } else {
                            p
                        },
                    ),
                };
            },
            None => {},
        }
        i = i + 1;
    }
    assert(ls.take(lines.len() as int) == ls);
    match acc {
        Some(v) => v,
        None => 0,
    }
}

/// The earliest value is a value that some line gives, and no line gives a
/// smaller one; there is none exactly when no line gives a value.
pub proof fn lemma_earliest_is_minimum(lines: Seq<Seq<char>>, label: Seq<char>, delim: Seq<char>, pos: nat)
    ensures
        earliest_value(lines, label, delim, pos) is None <==> forall|i: int|
            0 <= i < lines.len() ==> field_value(#[trigger] lines[i], label, delim, pos) is None,
        earliest_value(lines, label, delim, pos) matches Some(v) ==> (exists|i: int|
            0 <= i < lines.len() && field_value(#[trigger] lines[i], label, delim, pos) == Some(v)),
        earliest_value(lines, label, delim, pos) matches Some(v) ==> (forall|i: int|
            0 <= i < lines.len() ==> (field_value(#[trigger] lines[i], label, delim, pos) matches Some(
                w,
            ) ==> v <= w)),
    decreases lines.len(),
{
    if lines.len() > 0 {
        let init = lines.drop_last();
        let last = lines.len() - 1;
        lemma_earliest_is_minimum(init, label, delim, pos);
        assert(lines[last] == lines.last());
        if forall|i: int| 0 <= i < lines.len() ==> field_value(#[trigger] lines[i], label, delim, pos) is None {
            assert forall|i: int| 0 <= i < init.len() implies field_value(#[trigger] init[i], label, delim, pos) is None by {
                assert(lines[i] == init[i]);
            }
        }
        if (forall|i: int| 0 <= i < init.len() ==> field_value(#[trigger] init[i], label, delim, pos) is None)
            && field_value(lines.last(), label, delim, pos) is None {
            assert forall|i: int| 0 <= i < lines.len() implies field_value(#[trigger] lines[i], label, delim, pos) is None by {
                if i < last {
                    assert(lines[i] == init[i]);
                }
            }
        }
        if let Some(v) = earliest_value(lines, label, delim, pos) {
            assert forall|i: int| 0 <= i < lines.len() implies (field_value(#[trigger] lines[i], label, delim, pos) matches Some(w) ==> v <= w) by {
                if i < last {
                    assert(lines[i] == init[i]);
                }
            }
            if let Some(p) = earliest_value(init, label, delim, pos) {
                let j = choose|j: int| 0 <= j < init.len() && field_value(#[trigger] init[j], label, delim, pos) == Some(p);
                assert(lines[j] == init[j]);
            }
        }
    }
}

/// The latest value is a value that some line gives, and no line gives a
/// larger one; there is none exactly when no line gives a value.
pub proof fn lemma_latest_is_maximum(lines: Seq<Seq<char>>, label: Seq<char>, delim: Seq<char>, pos: nat)
    ensures
        latest_value(lines, label, delim, pos) is None <==> forall|i: int|
            0 <= i < lines.len() ==> field_value(#[trigger] lines[i], label, delim, pos) is None,
        latest_value(lines, label, delim, pos) matches Some(v) ==> (exists|i: int|
            0 <= i < lines.len() && field_value(#[trigger] lines[i], label, delim, pos) == Some(v)),
        latest_value(lines, label, delim, pos) matches Some(v) ==> (forall|i: int|
            0 <= i < lines.len() ==> (field_value(#[trigger] lines[i], label, delim, pos) matches Some(
                w,
            ) ==> w <= v)),
    decreases lines.len(),
{
    if lines.len() > 0 {
        let init = lines.drop_last();
        let last = lines.len() - 1;
        lemma_latest_is_maximum(init, label, delim, pos);
        assert(lines[last] == lines.last());
        if forall|i: int| 0 <= i < lines.len() ==> field_value(#[trigger] lines[i], label, delim, pos) is None {
            assert forall|i: int| 0 <= i < init.len() implies field_value(#[trigger] init[i], label, delim, pos) is None by {
                assert(lines[i] == init[i]);
            }
        }
        if (forall|i: int| 0 <= i < init.len() ==> field_value(#[trigger] init[i], label, delim, pos) is None)
            && field_value(lines.last(), label, delim, pos) is None {
            assert forall|i: int| 0 <= i < lines.len() implies field_value(#[trigger] lines[i], label, delim, pos) is None by {
                if i < last {
                    assert(lines[i] == init[i]);
                }
            }
        }
        if let Some(v) = latest_value(lines, label, delim, pos) {
            assert forall|i: int| 0 <= i < lines.len() implies (field_value(#[trigger] lines[i], label, delim, pos) matches Some(w) ==> w <= v) by {
                if i < last {
                    assert(lines[i] == init[i]);
                }
            }
            if let Some(p) = latest_value(init, label, delim, pos) {
                let j = choose|j: int| 0 <= j < init.len() && field_value(#[trigger] init[j], label, delim, pos) == Some(p);
                assert(lines[j] == init[j]);
            }
        }
    }
}

/// When no line contains the label, the earliest and the latest value are
/// both the sentinel `0`.
pub proof fn lemma_absent_label_gives_sentinel(
    lines: Seq<Seq<char>>,
    label: Seq<char>,
    delim: Seq<char>,
    pos: nat,
)
    requires
        forall|i: int| 0 <= i < lines.len() ==> !contains(#[trigger] lines[i], label),
    ensures
        earliest(lines, label, delim, pos) == 0,
        latest(lines, label, delim, pos) == 0,
{
    assert forall|i: int| 0 <= i < lines.len() implies field_value(#[trigger] lines[i], label, delim, pos) is None by {
        assert(!contains(lines[i], label));
    }
    lemma_earliest_is_minimum(lines, label, delim, pos);
    lemma_latest_is_maximum(lines, label, delim, pos);
}

} // verus!
